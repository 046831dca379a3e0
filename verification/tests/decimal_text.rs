use gowe_bridge::decimal::{i64_to_decimal, parse_i64_decimal, parse_u64_decimal, u64_to_decimal};

const SAMPLES: &[&str] = &[
    "", "+", "-", "0", "00", "007", "+7", "-7", "+-7", "-+7", "--7", " 7", "7 ", "7a", "a7",
    "1_000", "1.0", "1e3", "٣", "１", "-0", "+0", "42", "-42",
    "9223372036854775807", "9223372036854775808", "-9223372036854775808",
    "-9223372036854775809", "18446744073709551615", "18446744073709551616",
    "+18446744073709551615", "-18446744073709551615", "99999999999999999999999999",
    "000000000000000000000000000000001",
];

#[test]
fn u64_parse_matches_std() {
    for s in SAMPLES {
        assert_eq!(parse_u64_decimal(s), s.parse::<u64>().ok(), "input {:?}", s);
    }
}

#[test]
fn i64_parse_matches_std() {
    for s in SAMPLES {
        assert_eq!(parse_i64_decimal(s), s.parse::<i64>().ok(), "input {:?}", s);
    }
}

#[test]
fn u64_parse_edges() {
    assert_eq!(parse_u64_decimal("0"), Some(0));
    assert_eq!(parse_u64_decimal("+7"), Some(7));
    assert_eq!(parse_u64_decimal("007"), Some(7));
    assert_eq!(parse_u64_decimal("18446744073709551615"), Some(u64::MAX));
    assert_eq!(parse_u64_decimal("18446744073709551616"), None);
    assert_eq!(parse_u64_decimal(""), None);
    assert_eq!(parse_u64_decimal("+"), None);
    assert_eq!(parse_u64_decimal("-1"), None);
    assert_eq!(parse_u64_decimal(" 1"), None);
    assert_eq!(parse_u64_decimal("٣"), None);
}

#[test]
fn i64_parse_edges() {
    assert_eq!(parse_i64_decimal("-9223372036854775808"), Some(i64::MIN));
    assert_eq!(parse_i64_decimal("9223372036854775807"), Some(i64::MAX));
    assert_eq!(parse_i64_decimal("9223372036854775808"), None);
    assert_eq!(parse_i64_decimal("-9223372036854775809"), None);
    assert_eq!(parse_i64_decimal("-0"), Some(0));
    assert_eq!(parse_i64_decimal("+12"), Some(12));
    assert_eq!(parse_i64_decimal("-"), None);
    assert_eq!(parse_i64_decimal("+-1"), None);
}

#[test]
fn u64_text_matches_std() {
    for x in [0u64, 1, 9, 10, 99, 100, 12345, u64::MAX / 10, u64::MAX - 1, u64::MAX] {
        assert_eq!(u64_to_decimal(x), x.to_string());
    }
}

#[test]
fn i64_text_matches_std() {
    for x in [0i64, 1, -1, 9, -10, 100, -12345, i64::MAX, i64::MIN, i64::MIN + 1] {
        assert_eq!(i64_to_decimal(x), x.to_string());
    }
}

#[test]
fn text_reads_back() {
    for x in [0i64, 7, -7, i64::MAX, i64::MIN] {
        assert_eq!(parse_i64_decimal(&i64_to_decimal(x)), Some(x));
    }
    for x in [0u64, 7, u64::MAX] {
        assert_eq!(parse_u64_decimal(&u64_to_decimal(x)), Some(x));
    }
}
