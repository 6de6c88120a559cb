//! The canonical text form of a user identifier.
//!
//! Backends store the identifier as text: thirty-two lowercase hex
//! digits in eight-four-four-four-twelve groups separated by hyphens,
//! most significant digit first.  This module defines that grammar as
//! spec functions, implements the formatter and the parser against it,
//! and proves that parsing recovers exactly what formatting wrote.

use vstd::arithmetic::div_mod::lemma_div_denominator;
use vstd::arithmetic::div_mod::lemma_fundamental_div_mod;
use vstd::arithmetic::div_mod::lemma_mod_division_less_than_divisor;
use vstd::prelude::*;

use crate::users::UserId;

verus! {

/// Sixteen to the power `k`.
pub open spec fn pow16(k: nat) -> int
    decreases k,
{
    if k == 0 {
        1
    } else {
        16 * pow16((k - 1) as nat)
    }
}

pub proof fn lemma_pow16_pos(k: nat)
    ensures
        pow16(k) >= 1,
    decreases k,
{
    if k > 0 {
        lemma_pow16_pos((k - 1) as nat);
    }
}

pub proof fn lemma_pow16_increases(a: nat, b: nat)
    requires
        a <= b,
    ensures
        pow16(a) <= pow16(b),
    decreases b,
{
    if a < b {
        lemma_pow16_increases(a, (b - 1) as nat);
        lemma_pow16_pos((b - 1) as nat);
    }
}

/// Sixteen hex digits hold exactly one 64-bit half.
pub proof fn lemma_pow16_u64()
    ensures
        pow16(16) == 0x1_0000_0000_0000_0000,
{
    reveal_with_fuel(pow16, 17);
}

/// The `count` least significant base-16 digits of `v`, most
/// significant first.
pub open spec fn digits16(v: int, count: nat) -> Seq<int>
    decreases count,
{
    if count == 0 {
        Seq::empty()
    } else {
        digits16(v / 16, (count - 1) as nat).push(v % 16)
    }
}

/// The value a digit sequence denotes, most significant digit first.
pub open spec fn pack16(ds: Seq<int>) -> int
    decreases ds.len(),
{
    if ds.len() == 0 {
        0
    } else {
        pack16(ds.drop_last()) * 16 + ds.last()
    }
}

pub proof fn lemma_digits16_len(v: int, count: nat)
    ensures
        digits16(v, count).len() == count,
    decreases count,
{
    if count > 0 {
        lemma_digits16_len(v / 16, (count - 1) as nat);
    }
}

pub proof fn lemma_digits16_range(v: int, count: nat)
    requires
        v >= 0,
    ensures
        forall|d: int| 0 <= d < count ==> 0 <= #[trigger] digits16(v, count)[d] < 16,
    decreases count,
{
    if count > 0 {
        lemma_mod_division_less_than_divisor(v, 16);
        lemma_digits16_len(v / 16, (count - 1) as nat);
        lemma_digits16_range(v / 16, (count - 1) as nat);
    }
}

/// Digit number `count - 1 - j` (counting from the most significant)
/// is what remains of `v` after `j` divisions by sixteen, reduced mod
/// sixteen.
pub proof fn lemma_digits16_index(v: int, count: nat, j: nat)
    requires
        v >= 0,
        j < count,
    ensures
        digits16(v, count)[count - 1 - j] == (v / pow16(j)) % 16,
    decreases count,
{
    lemma_digits16_len(v / 16, (count - 1) as nat);
    if j == 0 {
        assert(pow16(0) == 1);
        lemma_fundamental_div_mod(v, 1);
        lemma_mod_division_less_than_divisor(v, 1);
        assert(v / 1 == v);
    } else {
        lemma_digits16_index(v / 16, (count - 1) as nat, (j - 1) as nat);
        lemma_pow16_pos((j - 1) as nat);
        lemma_div_denominator(v, 16, pow16((j - 1) as nat));
        assert(pow16(j) == 16 * pow16((j - 1) as nat));
    }
}

/// Packing the digits of `v` yields `v` back.
pub proof fn lemma_pack16_digits16(v: int, count: nat)
    requires
        0 <= v < pow16(count),
    ensures
        pack16(digits16(v, count)) == v,
    decreases count,
{
    if count == 0 {
        assert(v == 0);
    } else {
        let prefix = digits16(v / 16, (count - 1) as nat);
        lemma_digits16_len(v / 16, (count - 1) as nat);
        assert(digits16(v, count).drop_last() =~= prefix);
        lemma_pow16_pos((count - 1) as nat);
        lemma_fundamental_div_mod(v, 16);
        lemma_mod_division_less_than_divisor(v, 16);
        assert(v / 16 < pow16((count - 1) as nat)) by {
            if v / 16 >= pow16((count - 1) as nat) {
                assert(16 * (v / 16) >= 16 * pow16((count - 1) as nat));
            }
        }
        lemma_pack16_digits16(v / 16, (count - 1) as nat);
    }
}

/// The lowercase hex digit character for a value below sixteen.
pub open spec fn hex_char(n: int) -> char {
    if n < 10 {
        (48 + n) as char
    } else {
        (87 + n) as char
    }
}

/// The value of a hex digit character, either case; sixteen for
/// anything that is no hex digit.
pub open spec fn hex_val(c: char) -> int {
    let v = c as int;
    if 48 <= v <= 57 {
        v - 48
    } else if 97 <= v <= 102 {
        v - 87
    } else if 65 <= v <= 70 {
        v - 55
    } else {
        16
    }
}

pub proof fn lemma_hex_char_val(n: int)
    requires
        0 <= n < 16,
    ensures
        hex_val(hex_char(n)) == n,
{
}

/// The four hyphen positions of the canonical text.
pub open spec fn is_hyphen_pos(i: int) -> bool {
    i == 8 || i == 13 || i == 18 || i == 23
}

/// Where hex digit number `d` stands in the text.
pub open spec fn digit_pos(d: int) -> int {
    if d < 8 {
        d
    } else if d < 12 {
        d + 1
    } else if d < 16 {
        d + 2
    } else if d < 20 {
        d + 3
    } else {
        d + 4
    }
}

/// Which hex digit stands at text position `i` (for non-hyphen `i`).
pub open spec fn text_digit_index(i: int) -> int {
    if i < 8 {
        i
    } else if i < 13 {
        i - 1
    } else if i < 18 {
        i - 2
    } else if i < 23 {
        i - 3
    } else {
        i - 4
    }
}

/// How many hex digits stand before text position `i`.
pub open spec fn digit_count(i: int) -> int {
    if i <= 8 {
        i
    } else if i <= 13 {
        i - 1
    } else if i <= 18 {
        i - 2
    } else if i <= 23 {
        i - 3
    } else {
        i - 4
    }
}

/// The thirty-two hex digits of an identifier, most significant first.
pub open spec fn id_digits(id: UserId) -> Seq<int> {
    digits16(id.hi as int, 16) + digits16(id.lo as int, 16)
}

/// The canonical text of an identifier.
pub open spec fn id_text(id: UserId) -> Seq<char> {
    Seq::new(
        36,
        |i: int|
            if is_hyphen_pos(i) {
                '-'
            } else {
                hex_char(id_digits(id)[text_digit_index(i)])
            },
    )
}

/// Text that the parser accepts: thirty-six characters, hyphens at the
/// four group breaks, hex digits of either case everywhere else.
pub open spec fn valid_id_text(s: Seq<char>) -> bool {
    &&& s.len() == 36
    &&& forall|i: int| 0 <= i < 36 && is_hyphen_pos(i) ==> s[i] == '-'
    &&& forall|i: int| 0 <= i < 36 && !is_hyphen_pos(i) ==> hex_val(s[i]) < 16
}

/// The digit values of a valid text, most significant first.
pub open spec fn text_digits(s: Seq<char>) -> Seq<int> {
    Seq::new(32, |d: int| hex_val(s[digit_pos(d)]))
}

/// What parsing a candidate text yields: the denoted identifier, or
/// nothing if the text is not of the grammar.
pub open spec fn parse_id_text(s: Seq<char>) -> Option<UserId> {
    if valid_id_text(s) {
        Some(
            UserId {
                hi: pack16(text_digits(s).subrange(0, 16)) as u64,
                lo: pack16(text_digits(s).subrange(16, 32)) as u64,
            },
        )
    } else {
        None
    }
}

/// The value of one hex digit character; sixteen marks a non-digit.
fn hex_digit_value(c: char) -> (r: u8)
    ensures
        r as int == hex_val(c),
{
    let v = c as u32;
    if 48 <= v && v <= 57 {
        (v - 48) as u8
    } else if 97 <= v && v <= 102 {
        (v - 87) as u8
    } else if 65 <= v && v <= 70 {
        (v - 55) as u8
    } else {
        16
    }
}

/// Appends the sixteen base-16 digits of `v`, most significant first.
fn push_hex_digits(v: u64, out: &mut Vec<u8>)
    ensures
        final(out)@.len() == old(out)@.len() + 16,
        forall|j: int| 0 <= j < old(out)@.len() ==> final(out)@[j] == old(out)@[j],
        forall|d: int|
            0 <= d < 16 ==> #[trigger] final(out)@[old(out)@.len() + d] as int == digits16(
                v as int,
                16,
            )[d],
{
    let mut tmp: Vec<u8> = Vec::new();
    let mut x: u64 = v;
    let mut k: usize = 0;
    while k < 16
        invariant
            k <= 16,
            tmp@.len() == k,
            x as int == v as int / pow16(k as nat),
            forall|j: int|
                0 <= j < k ==> #[trigger] tmp@[j] as int == (v as int / pow16(j as nat)) % 16,
        decreases 16 - k,
    {
        proof {
            lemma_pow16_pos(k as nat);
            lemma_div_denominator(v as int, pow16(k as nat), 16);
            assert(pow16((k + 1) as nat) == 16 * pow16(k as nat));
            lemma_mod_division_less_than_divisor(x as int, 16);
        }
        tmp.push((x % 16) as u8);
        x = x / 16;
        k += 1;
    }
    let ghost prior = out@;
    let mut d: usize = 0;
    while d < 16
        invariant
            d <= 16,
            tmp@.len() == 16,
            out@.len() == prior.len() + d,
            forall|j: int|
                0 <= j < 16 ==> #[trigger] tmp@[j] as int == (v as int / pow16(j as nat)) % 16,
            forall|j: int| 0 <= j < prior.len() ==> out@[j] == prior[j],
            forall|e: int| 0 <= e < d ==> #[trigger] out@[prior.len() + e] == tmp@[15 - e],
        decreases 16 - d,
    {
        out.push(tmp[15 - d]);
        d += 1;
    }
    proof {
        lemma_digits16_len(v as int, 16);
        assert forall|e: int| 0 <= e < 16 implies out@[prior.len() + e] as int == digits16(
            v as int,
            16,
        )[e] by {
            lemma_digits16_index(v as int, 16, (15 - e) as nat);
        }
    }
}

/// The thirty-two digit values of an identifier, most significant
/// first.
fn id_digit_bytes(id: &UserId) -> (ds: Vec<u8>)
    ensures
        ds@.len() == 32,
        forall|d: int| 0 <= d < 32 ==> #[trigger] ds@[d] as int == id_digits(*id)[d],
{
    let mut ds: Vec<u8> = Vec::new();
    push_hex_digits(id.hi, &mut ds);
    push_hex_digits(id.lo, &mut ds);
    proof {
        lemma_digits16_len(id.hi as int, 16);
        lemma_digits16_len(id.lo as int, 16);
        assert forall|d: int| 0 <= d < 32 implies #[trigger] ds@[d] as int == id_digits(*id)[d] by {
            if d < 16 {
                assert(ds@[0 + d] as int == digits16(id.hi as int, 16)[d]);
            } else {
                assert(ds@[16 + (d - 16)] as int == digits16(id.lo as int, 16)[d - 16]);
            }
        }
    }
    ds
}

/// Renders an identifier in its canonical text form.
pub fn format_user_id(id: &UserId) -> (r: String)
    ensures
        r@ == id_text(*id),
{
    let ds = id_digit_bytes(id);
    let alphabet = "0123456789abcdef";
    proof {
        reveal_strlit("0123456789abcdef");
        reveal_strlit("-");
        lemma_digits16_len(id.hi as int, 16);
        lemma_digits16_len(id.lo as int, 16);
        lemma_digits16_range(id.hi as int, 16);
        lemma_digits16_range(id.lo as int, 16);
    }
    let mut out = String::new();
    let mut i: usize = 0;
    while i < 36
        invariant
            i <= 36,
            ds@.len() == 32,
            forall|d: int| 0 <= d < 32 ==> #[trigger] ds@[d] as int == id_digits(*id)[d],
            forall|d: int| 0 <= d < 32 ==> 0 <= #[trigger] id_digits(*id)[d] < 16,
            alphabet@.len() == 16,
            forall|n: int| 0 <= n < 16 ==> #[trigger] alphabet@[n] == hex_char(n),
            "-"@ =~= seq!['-'],
            out@ =~= id_text(*id).subrange(0, i as int),
        decreases 36 - i,
    {
        if i == 8 || i == 13 || i == 18 || i == 23 {
            out.append("-");
        } else {
            let d: usize = if i < 8 {
                i
            } else if i < 13 {
                i - 1
            } else if i < 18 {
                i - 2
            } else {
                if i < 23 {
                    i - 3
                } else {
                    i - 4
                }
            };
            let n = ds[d];
            let piece = alphabet.substring_char(n as usize, n as usize + 1);
            out.append(piece);
        }
        i += 1;
        proof {
            assert(out@ =~= id_text(*id).subrange(0, i as int));
        }
    }
    proof {
        assert(out@ =~= id_text(*id));
    }
    out
}

/// Parses the canonical text form back into an identifier; yields
/// nothing on any text not of the grammar.
pub fn parse_user_id(s: &str) -> (r: Option<UserId>)
    ensures
        r == parse_id_text(s@),
{
    let n = s.unicode_len();
    if n != 36 {
        return None;
    }
    let mut hi: u64 = 0;
    let mut lo: u64 = 0;
    let mut i: usize = 0;
    while i < 36
        invariant
            s@.len() == 36,
            i <= 36,
            forall|j: int| 0 <= j < i && is_hyphen_pos(j) ==> s@[j] == '-',
            forall|j: int| 0 <= j < i && !is_hyphen_pos(j) ==> hex_val(s@[j]) < 16,
            0 <= digit_count(i as int) <= 32,
            digit_count(i as int) <= 16 ==> {
                &&& hi as int == pack16(text_digits(s@).subrange(0, digit_count(i as int)))
                &&& (hi as int) < pow16((digit_count(i as int)) as nat)
                &&& lo == 0
            },
            digit_count(i as int) > 16 ==> {
                &&& hi as int == pack16(text_digits(s@).subrange(0, 16))
                &&& lo as int == pack16(text_digits(s@).subrange(16, digit_count(i as int)))
                &&& (lo as int) < pow16(((digit_count(i as int)) - 16) as nat)
            },
        decreases 36 - i,
    {
        let c = s.get_char(i);
        if i == 8 || i == 13 || i == 18 || i == 23 {
            if c != '-' {
                proof {
                    assert(is_hyphen_pos(i as int));
                    if valid_id_text(s@) {
                        assert(s@[i as int] == '-');
                    }
                }
                return None;
            }
        } else {
            let hv = hex_digit_value(c);
            if hv >= 16 {
                proof {
                    assert(!is_hyphen_pos(i as int));
                    if valid_id_text(s@) {
                        assert(hex_val(s@[i as int]) < 16);
                    }
                }
                return None;
            }
            let ghost k = digit_count(i as int);
            proof {
                assert(digit_pos(k) == i);
                lemma_pow16_u64();
                if k < 16 {
                    lemma_pow16_increases((k + 1) as nat, 16);
                    assert(text_digits(s@).subrange(0, k + 1).drop_last() =~= text_digits(
                        s@,
                    ).subrange(0, k));
                } else {
                    lemma_pow16_increases((k - 16 + 1) as nat, 16);
                    assert(pow16(0) == 1);
                    assert(pow16(1) == 16);
                    assert(text_digits(s@).subrange(16, 16).len() == 0);
                    assert(pack16(text_digits(s@).subrange(16, 16)) == 0);
                    assert(text_digits(s@).subrange(16, k + 1).drop_last() =~= text_digits(
                        s@,
                    ).subrange(16, k));
                }
            }
            if i < 19 {
                hi = hi * 16 + hv as u64;
            } else {
                lo = lo * 16 + hv as u64;
            }
        }
        i += 1;
    }
    proof {
        assert(valid_id_text(s@));
        assert(digit_count(36) == 32);
    }
    Some(UserId { hi, lo })
}

/// Law: the canonical text of an identifier parses back to exactly
/// that identifier.  Identifier translation loses nothing.
pub proof fn lemma_id_text_round_trip(id: UserId)
    ensures
        parse_id_text(id_text(id)) == Some(id),
{
    let s = id_text(id);
    lemma_digits16_len(id.hi as int, 16);
    lemma_digits16_len(id.lo as int, 16);
    lemma_digits16_range(id.hi as int, 16);
    lemma_digits16_range(id.lo as int, 16);
    assert forall|i: int| 0 <= i < 36 && !is_hyphen_pos(i) implies hex_val(s[i]) < 16 by {
        lemma_hex_char_val(id_digits(id)[text_digit_index(i)]);
    }
    assert(valid_id_text(s));
    assert forall|d: int| 0 <= d < 32 implies text_digits(s)[d] == id_digits(id)[d] by {
        assert(!is_hyphen_pos(digit_pos(d)));
        assert(text_digit_index(digit_pos(d)) == d);
        lemma_hex_char_val(id_digits(id)[d]);
    }
    assert(text_digits(s).subrange(0, 16) =~= digits16(id.hi as int, 16));
    assert(text_digits(s).subrange(16, 32) =~= digits16(id.lo as int, 16));
    lemma_pow16_u64();
    lemma_pack16_digits16(id.hi as int, 16);
    lemma_pack16_digits16(id.lo as int, 16);
}

} // verus!
