use simple_ssh_pot::textnum::{parse_i64_text, parse_u64_text, u16_hex_text, u64_text};

#[test]
fn decimal_rendering() {
    assert_eq!(u64_text(0).as_str(), "0");
    assert_eq!(u64_text(7).as_str(), "7");
    assert_eq!(u64_text(10).as_str(), "10");
    assert_eq!(u64_text(12345).as_str(), "12345");
    assert_eq!(u64_text(1700000000).as_str(), "1700000000");
    assert_eq!(u64_text(u64::MAX).as_str(), "18446744073709551615");
}

#[test]
fn hex_rendering() {
    assert_eq!(u16_hex_text(0).as_str(), "0");
    assert_eq!(u16_hex_text(0xdb8).as_str(), "db8");
    assert_eq!(u16_hex_text(0xffff).as_str(), "ffff");
    assert_eq!(u16_hex_text(0x1a2b).as_str(), "1a2b");
    assert_eq!(u16_hex_text(16).as_str(), "10");
}

#[test]
fn parse_unsigned_accepts_plain_digits() {
    assert_eq!(parse_u64_text("0"), Some(0));
    assert_eq!(parse_u64_text("42"), Some(42));
    assert_eq!(parse_u64_text("007"), Some(7));
    assert_eq!(parse_u64_text("18446744073709551615"), Some(u64::MAX));
}

#[test]
fn parse_unsigned_rejects_malformed() {
    assert_eq!(parse_u64_text(""), None);
    assert_eq!(parse_u64_text("12a"), None);
    assert_eq!(parse_u64_text("-1"), None);
    assert_eq!(parse_u64_text("+1"), None);
    assert_eq!(parse_u64_text(" 1"), None);
    assert_eq!(parse_u64_text("18446744073709551616"), None);
    assert_eq!(parse_u64_text("99999999999999999999999"), None);
    assert_eq!(parse_u64_text("\u{ff11}\u{ff12}"), None);
}

#[test]
fn parse_signed_accepts_sign_and_digits() {
    assert_eq!(parse_i64_text("5"), Some(5));
    assert_eq!(parse_i64_text("+7"), Some(7));
    assert_eq!(parse_i64_text("-5"), Some(-5));
    assert_eq!(parse_i64_text("0"), Some(0));
    assert_eq!(parse_i64_text("9223372036854775807"), Some(i64::MAX));
    assert_eq!(parse_i64_text("-9223372036854775808"), Some(i64::MIN));
}

#[test]
fn parse_signed_rejects_malformed() {
    assert_eq!(parse_i64_text(""), None);
    assert_eq!(parse_i64_text("-"), None);
    assert_eq!(parse_i64_text("+"), None);
    assert_eq!(parse_i64_text("--1"), None);
    assert_eq!(parse_i64_text("1.5"), None);
    assert_eq!(parse_i64_text("9223372036854775808"), None);
    assert_eq!(parse_i64_text("-9223372036854775809"), None);
}
