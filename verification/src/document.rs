//! Decision logic of the document backend.
//!
//! The document driver exposes no stable structured error codes, so
//! the backend falls back to inspecting the failure message: the
//! fragments that mark connection, timeout and pool trouble classify
//! as the store being unreachable, and everything unrecognized stays
//! an unexpected failure.  The substring search itself is verified
//! here.  (Message inspection is a known maintenance risk, not a
//! stable contract; prefer structured codes where a driver has them.)

use vstd::prelude::*;

use crate::users::UserRepoError;

verus! {

/// `needle` occurs contiguously somewhere in `hay`.
pub open spec fn seq_contains(hay: Seq<char>, needle: Seq<char>) -> bool {
    exists|k: int|
        0 <= k && k + needle.len() <= hay.len() && #[trigger] hay.subrange(
            k,
            k + needle.len() as int,
        ) == needle
}

/// Substring search, verified against [`seq_contains`].
#[verifier::loop_isolation(false)]
fn str_contains(hay: &str, needle: &str) -> (b: bool)
    ensures
        b == seq_contains(hay@, needle@),
{
    let hlen = hay.unicode_len();
    let nlen = needle.unicode_len();
    if nlen > hlen {
        return false;
    }
    let mut k: usize = 0;
    while k <= hlen - nlen
        invariant
            nlen <= hlen,
            k <= hlen - nlen + 1,
            forall|kk: int|
                0 <= kk < k ==> #[trigger] hay@.subrange(kk, kk + needle@.len() as int)
                    != needle@,
        decreases hlen - nlen + 1 - k,
    {
        let mut j: usize = 0;
        while j < nlen && hay.get_char(k + j) == needle.get_char(j)
            invariant
                j <= nlen,
                k + nlen <= hlen,
                forall|jj: int| 0 <= jj < j ==> hay@[k + jj] == needle@[jj],
            decreases nlen - j,
        {
            j += 1;
        }
        if j == nlen {
            proof {
                assert(hay@.subrange(k as int, k + nlen as int) =~= needle@);
            }
            return true;
        }
        proof {
            if hay@.subrange(k as int, k as int + needle@.len() as int) == needle@ {
                assert(hay@.subrange(k as int, k as int + needle@.len() as int)[j as int]
                    == hay@[k + j]);
            }
        }
        k += 1;
    }
    return false;
}

/// The message fragments that mark a document-store failure as the
/// store being unreachable.
pub open spec fn document_unavailable(msg: Seq<char>) -> bool {
    ||| seq_contains(msg, "server selection"@)
    ||| seq_contains(msg, "timed out"@)
    ||| seq_contains(msg, "timeout"@)
    ||| seq_contains(msg, "connection"@)
    ||| seq_contains(msg, "Connection refused"@)
    ||| seq_contains(msg, "pool"@)
}

/// Classifies a document driver failure from its message.  The
/// connection, timeout and pool fragments mean the store could not be
/// reached; any other message stays unexpected, carried unchanged for
/// diagnostics.
pub fn classify_document_error(message: String) -> (r: UserRepoError)
    ensures
        document_unavailable(message@) ==> r == UserRepoError::Unavailable,
        !document_unavailable(message@) ==> r == (UserRepoError::Unexpected { message }),
{
    let m = message.as_str();
    if str_contains(m, "server selection") || str_contains(m, "timed out") || str_contains(
        m,
        "timeout",
    ) || str_contains(m, "connection") || str_contains(m, "Connection refused") || str_contains(
        m,
        "pool",
    ) {
        UserRepoError::Unavailable
    } else {
        UserRepoError::Unexpected { message }
    }
}

} // verus!
