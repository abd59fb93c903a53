use serve_core::text::{parse_numeric_id, push_decimal, push_signed_decimal};

fn decimal(n: u64) -> String {
    let mut out = String::new();
    push_decimal(&mut out, n);
    out
}

fn signed(i: i64) -> String {
    let mut out = String::new();
    push_signed_decimal(&mut out, i);
    out
}

#[test]
fn decimal_of_small_numbers() {
    assert_eq!(decimal(0), "0");
    assert_eq!(decimal(7), "7");
    assert_eq!(decimal(9), "9");
    assert_eq!(decimal(10), "10");
    assert_eq!(decimal(99), "99");
    assert_eq!(decimal(100), "100");
    assert_eq!(decimal(1203), "1203");
}

#[test]
fn decimal_of_large_numbers() {
    assert_eq!(decimal(4294967295), "4294967295");
    assert_eq!(decimal(u64::MAX), "18446744073709551615");
}

#[test]
fn decimal_agrees_with_std() {
    let mut n: u64 = 1;
    for _ in 0..200 {
        assert_eq!(decimal(n), n.to_string());
        n = n.wrapping_mul(6364136223846793005).wrapping_add(1442695040888963407);
    }
}

#[test]
fn decimal_is_appended() {
    let mut out = String::from("n=");
    push_decimal(&mut out, 42);
    assert_eq!(out, "n=42");
    push_signed_decimal(&mut out, -7);
    assert_eq!(out, "n=42-7");
}

#[test]
fn signed_decimal_of_negative_numbers() {
    assert_eq!(signed(0), "0");
    assert_eq!(signed(15), "15");
    assert_eq!(signed(-1), "-1");
    assert_eq!(signed(-120), "-120");
    assert_eq!(signed(i64::MAX), "9223372036854775807");
    assert_eq!(signed(i64::MIN), "-9223372036854775808");
}

#[test]
fn numeric_id_of_digits() {
    assert_eq!(parse_numeric_id("0"), Some(0));
    assert_eq!(parse_numeric_id("7"), Some(7));
    assert_eq!(parse_numeric_id("1000"), Some(1000));
    assert_eq!(parse_numeric_id("65534"), Some(65534));
    assert_eq!(parse_numeric_id("007"), Some(7));
    assert_eq!(parse_numeric_id("00000000000000000000000000000012"), Some(12));
}

#[test]
fn numeric_id_with_plus_sign() {
    assert_eq!(parse_numeric_id("+5"), Some(5));
    assert_eq!(parse_numeric_id("+0"), Some(0));
    assert_eq!(parse_numeric_id("+"), None);
    assert_eq!(parse_numeric_id("++5"), None);
    assert_eq!(parse_numeric_id("5+"), None);
}

#[test]
fn numeric_id_at_the_limit() {
    assert_eq!(parse_numeric_id("4294967295"), Some(u32::MAX));
    assert_eq!(parse_numeric_id("+4294967295"), Some(u32::MAX));
    assert_eq!(parse_numeric_id("4294967296"), None);
    assert_eq!(parse_numeric_id("42949672950"), None);
    assert_eq!(parse_numeric_id("99999999999999999999999999999999"), None);
}

#[test]
fn numeric_id_rejects_everything_else() {
    for text in ["", " ", "-1", "-0", "1 ", " 1", "1a", "a1", "root", "0x10", "1_000", "1.0", "١٢", "１２", "1\u{0}", "\u{0}"] {
        assert_eq!(parse_numeric_id(text), None, "{text:?}");
    }
}

#[test]
fn numeric_id_agrees_with_std() {
    let samples = [
        "", "+", "-", "0", "+0", "-0", "12", "+12", "-12", "4294967295", "4294967296", "04294967295",
        "+04294967296", "12x", "x12", " 12", "12 ", "1e3", "٣", "1٣", "+٣", "000", "18446744073709551616",
    ];
    for text in samples {
        assert_eq!(parse_numeric_id(text), text.parse::<u32>().ok(), "{text:?}");
    }
    for n in [0u32, 1, 9, 10, 11, 99, 100, 65535, 65536, 4294967294, u32::MAX] {
        assert_eq!(parse_numeric_id(&n.to_string()), Some(n));
    }
}
