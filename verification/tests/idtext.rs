//! The identifier text codec: exact rendering, round trips, and what
//! the parser rejects.

use rust_webapp::idtext::format_user_id;
use rust_webapp::idtext::parse_user_id;
use rust_webapp::users::UserId;

#[test]
fn format_renders_canonical_text() {
    let id = UserId { hi: 0x0011223344556677, lo: 0x8899aabbccddeeff };
    assert_eq!(format_user_id(&id), "00112233-4455-6677-8899-aabbccddeeff");
}

#[test]
fn format_renders_extremes() {
    let zero = UserId { hi: 0, lo: 0 };
    assert_eq!(format_user_id(&zero), "00000000-0000-0000-0000-000000000000");
    let all = UserId { hi: u64::MAX, lo: u64::MAX };
    assert_eq!(format_user_id(&all), "ffffffff-ffff-ffff-ffff-ffffffffffff");
}

#[test]
fn parse_recovers_formatted_id() {
    let id = UserId { hi: 0x123456789abcdef0, lo: 0x0fedcba987654321 };
    let text = format_user_id(&id);
    assert_eq!(parse_user_id(&text), Some(id));
}

#[test]
fn parse_accepts_uppercase_hex() {
    let parsed = parse_user_id("00112233-4455-6677-8899-AABBCCDDEEFF").unwrap();
    assert_eq!(parsed, UserId { hi: 0x0011223344556677, lo: 0x8899aabbccddeeff });
}

#[test]
fn parse_rejects_malformed_text() {
    assert_eq!(parse_user_id(""), None);
    assert_eq!(parse_user_id("not-an-identifier"), None);
    // one character short
    assert_eq!(parse_user_id("00112233-4455-6677-8899-aabbccddeef"), None);
    // one character long
    assert_eq!(parse_user_id("00112233-4455-6677-8899-aabbccddeeff0"), None);
    // hyphen out of place
    assert_eq!(parse_user_id("001122334-455-6677-8899-aabbccddeeff"), None);
    // non-hex digit
    assert_eq!(parse_user_id("00112233-4455-6677-8899-aabbccddeegg"), None);
}

#[test]
fn fresh_ids_format_and_parse_back() {
    let id = rust_webapp::users::fresh_user_id();
    let text = format_user_id(&id);
    assert_eq!(text.len(), 36);
    assert_eq!(parse_user_id(&text), Some(id));
}
