use krunker_link::args::{parse_count, parse_i64, parse_match_id};

#[test]
fn decimal_numbers() {
    assert_eq!(parse_i64("0"), Some(0));
    assert_eq!(parse_i64("42"), Some(42));
    assert_eq!(parse_i64("+42"), Some(42));
    assert_eq!(parse_i64("-42"), Some(-42));
    assert_eq!(parse_i64("007"), Some(7));
    assert_eq!(parse_i64("9223372036854775807"), Some(i64::MAX));
    assert_eq!(parse_i64("-9223372036854775808"), Some(i64::MIN));
}

#[test]
fn not_decimal_numbers() {
    assert_eq!(parse_i64(""), None);
    assert_eq!(parse_i64("-"), None);
    assert_eq!(parse_i64("+"), None);
    assert_eq!(parse_i64(" 1"), None);
    assert_eq!(parse_i64("1_000"), None);
    assert_eq!(parse_i64("12a"), None);
    assert_eq!(parse_i64("--1"), None);
    assert_eq!(parse_i64("١٢"), None);
    assert_eq!(parse_i64("9223372036854775808"), None);
    assert_eq!(parse_i64("-9223372036854775809"), None);
    assert_eq!(parse_i64("99999999999999999999999"), None);
}

#[test]
fn agrees_with_std_parse() {
    for s in ["", "1", "-0", "+7", "12x", "x", "-9223372036854775808", "18446744073709551616", "2147483648"] {
        assert_eq!(parse_i64(s), s.parse::<i64>().ok(), "{}", s);
    }
}

#[test]
fn count_argument() {
    assert_eq!(parse_count(""), 1);
    assert_eq!(parse_count("5"), 5);
    assert_eq!(parse_count("abc"), 1);
    assert_eq!(parse_count("-3"), -3);
    assert_eq!(parse_count("2147483647"), i32::MAX);
    assert_eq!(parse_count("2147483648"), 1);
}

#[test]
fn match_id_argument() {
    assert_eq!(parse_match_id("123"), Some(123));
    assert_eq!(parse_match_id("0"), None);
    assert_eq!(parse_match_id("-5"), None);
    assert_eq!(parse_match_id(""), None);
    assert_eq!(parse_match_id("id"), None);
}
