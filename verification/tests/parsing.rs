use dioxus_markdown::parse::parse_i64;

#[test]
fn parses_plain_integer() {
    assert_eq!(parse_i64("5"), Some(5));
    assert_eq!(parse_i64("0"), Some(0));
    assert_eq!(parse_i64("12345"), Some(12345));
}

#[test]
fn parses_signed_integers() {
    assert_eq!(parse_i64("-12"), Some(-12));
    assert_eq!(parse_i64("+7"), Some(7));
    assert_eq!(parse_i64("-0"), Some(0));
}

#[test]
fn rejects_non_integers() {
    assert_eq!(parse_i64(""), None);
    assert_eq!(parse_i64("a"), None);
    assert_eq!(parse_i64("12a"), None);
    assert_eq!(parse_i64("1 2"), None);
    assert_eq!(parse_i64("-"), None);
    assert_eq!(parse_i64("+"), None);
    assert_eq!(parse_i64("--1"), None);
    assert_eq!(parse_i64("1.5"), None);
}

#[test]
fn handles_extreme_values() {
    assert_eq!(parse_i64("9223372036854775807"), Some(i64::MAX));
    assert_eq!(parse_i64("9223372036854775808"), None);
    assert_eq!(parse_i64("-9223372036854775808"), Some(i64::MIN));
    assert_eq!(parse_i64("-9223372036854775809"), None);
    assert_eq!(parse_i64("99999999999999999999"), None);
}

#[test]
fn accepts_leading_zeros() {
    assert_eq!(parse_i64("007"), Some(7));
    assert_eq!(parse_i64("-007"), Some(-7));
}
