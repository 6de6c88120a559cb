//! The stored form of a user record, shared by the relational and the
//! document backend.
//!
//! Both backends persist the identifier translated to its canonical
//! text beside the username and email text.  This module verifies the
//! encoding, the decoding (a malformed stored identifier is an
//! unexpected failure, never silently repaired), and the decoding of a
//! whole listing.

use vstd::prelude::*;

use crate::idtext::format_user_id;
use crate::idtext::id_text;
use crate::idtext::parse_id_text;
use crate::idtext::parse_user_id;
use crate::users::User;
use crate::users::UserRepoError;
use crate::users::UserView;
use crate::users::fresh_user_id;

verus! {

/// One record as the relational table or the document collection
/// holds it.
pub struct StoredRecord {
    pub id_text: String,
    pub username: String,
    pub email: String,
}

/// The mathematical value of a [`StoredRecord`].
pub ghost struct StoredRecordView {
    pub id_text: Seq<char>,
    pub username: Seq<char>,
    pub email: Seq<char>,
}

impl View for StoredRecord {
    type V = StoredRecordView;

    open spec fn view(&self) -> StoredRecordView {
        StoredRecordView {
            id_text: self.id_text@,
            username: self.username@,
            email: self.email@,
        }
    }
}

/// How a user record is stored.
pub open spec fn record_of(u: UserView) -> StoredRecordView {
    StoredRecordView { id_text: id_text(u.id), username: u.username, email: u.email }
}

/// What a stored record holds: the user it decodes to, or nothing
/// when its identifier text is not of the grammar.
pub open spec fn record_user(r: StoredRecordView) -> Option<UserView> {
    match parse_id_text(r.id_text) {
        Some(id) => Some(UserView { id, username: r.username, email: r.email }),
        None => None,
    }
}

/// Encodes a user record for storage.
pub fn encode_user(u: &User) -> (r: StoredRecord)
    ensures
        r@ == record_of(u@),
{
    StoredRecord {
        id_text: format_user_id(&u.id),
        username: u.username.clone(),
        email: u.email.clone(),
    }
}

/// Decodes one stored record.  A record whose identifier text is
/// malformed is reported as an unexpected failure carrying that text;
/// no fresh identifier is invented for it.
pub fn decode_record(rec: &StoredRecord) -> (r: Result<User, UserRepoError>)
    ensures
        match r {
            Ok(u) => record_user(rec@) == Some(u@),
            Err(e) => record_user(rec@) is None && (e matches UserRepoError::Unexpected {
                message,
            } && message@ == rec@.id_text),
        },
{
    match parse_user_id(rec.id_text.as_str()) {
        Some(id) => Ok(
            User { id, username: rec.username.clone(), email: rec.email.clone() },
        ),
        None => Err(UserRepoError::Unexpected { message: rec.id_text.clone() }),
    }
}

/// Builds what a backend persists for a new user: a record under a
/// freshly minted identifier, together with its stored form.
pub fn prepare_new_user(username: &str, email: &str) -> (r: (User, StoredRecord))
    ensures
        r.0@.username == username@,
        r.0@.email == email@,
        r.1@ == record_of(r.0@),
{
    let user = User {
        id: fresh_user_id(),
        username: username.to_owned(),
        email: email.to_owned(),
    };
    let rec = encode_user(&user);
    (user, rec)
}

/// What a backend answers for a get once its driver has fetched at
/// most one stored record: absence is no error, a decodable record is
/// the result, a malformed one is an unexpected failure.
pub fn interpret_fetch(fetched: Option<StoredRecord>) -> (r: Result<Option<User>, UserRepoError>)
    ensures
        match fetched {
            None => r matches Ok(found) && found is None,
            Some(rec) => match record_user(rec@) {
                Some(u) => r matches Ok(found) && found matches Some(ret) && ret@ == u,
                None => r matches Err(e) && e matches UserRepoError::Unexpected {
                    message,
                } && message@ == rec@.id_text,
            },
        },
{
    match fetched {
        None => Ok(None),
        Some(rec) => match decode_record(&rec) {
            Ok(u) => Ok(Some(u)),
            Err(e) => Err(e),
        },
    }
}

/// Decodes a whole listing, first record first.  The first malformed
/// record fails the listing with its unexpected failure; no record is
/// skipped or substituted.
#[verifier::loop_isolation(false)]
pub fn decode_records(recs: &Vec<StoredRecord>) -> (r: Result<Vec<User>, UserRepoError>)
    ensures
        match r {
            Ok(us) => us@.len() == recs@.len() && forall|i: int|
                0 <= i < recs@.len() ==> record_user(recs@[i]@) == Some(
                    (#[trigger] us@[i])@,
                ),
            Err(e) => exists|i: int|
                {
                    &&& 0 <= i < recs@.len()
                    &&& record_user((#[trigger] recs@[i])@) is None
                    &&& forall|j: int| 0 <= j < i ==> record_user((#[trigger] recs@[j])@) is Some
                    &&& e matches UserRepoError::Unexpected { message } && message@
                        == recs@[i]@.id_text
                },
        },
{
    let mut out: Vec<User> = Vec::new();
    let n = recs.len();
    let mut i: usize = 0;
    while i < n
        invariant
            i <= n,
            out@.len() == i,
            forall|j: int|
                0 <= j < i ==> record_user((#[trigger] recs@[j])@) == Some(out@[j]@),
        decreases n - i,
    {
        match decode_record(&recs[i]) {
            Ok(u) => {
                out.push(u);
            },
            Err(e) => {
                proof {
                    assert forall|j: int| 0 <= j < i implies record_user(
                        (#[trigger] recs@[j])@,
                    ) is Some by {}
                }
                return Err(e);
            },
        }
        i += 1;
    }
    Ok(out)
}

} // verus!
