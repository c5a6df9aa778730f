//! Text utilities: trimming and number parsing.

use cheese_trackers_server::strings::{parse_seconds_millis, parse_u32, trimmed};

fn chars(s: &str) -> Vec<char> {
    s.chars().collect()
}

#[test]
fn trimming_removes_surrounding_whitespace() {
    assert_eq!(trimmed("  hello  ".to_owned()), "hello");
    assert_eq!(trimmed("\t a b \n".to_owned()), "a b");
    assert_eq!(trimmed("plain".to_owned()), "plain");
    assert_eq!(trimmed("   ".to_owned()), "");
    assert_eq!(trimmed(String::new()), "");
    // Non-breaking space has the White_Space property.
    assert_eq!(trimmed("\u{a0}x\u{a0}".to_owned()), "x");
}

#[test]
fn u32_parsing_accepts_digits_and_a_plus() {
    assert_eq!(parse_u32(&chars("0")), Some(0));
    assert_eq!(parse_u32(&chars("123")), Some(123));
    assert_eq!(parse_u32(&chars("+123")), Some(123));
    assert_eq!(parse_u32(&chars("4294967295")), Some(u32::MAX));
}

#[test]
fn u32_parsing_rejects_everything_else() {
    assert_eq!(parse_u32(&chars("")), None);
    assert_eq!(parse_u32(&chars("+")), None);
    assert_eq!(parse_u32(&chars("-1")), None);
    assert_eq!(parse_u32(&chars("12a")), None);
    assert_eq!(parse_u32(&chars(" 1")), None);
    // One past the largest value.
    assert_eq!(parse_u32(&chars("4294967296")), None);
    assert_eq!(parse_u32(&chars("99999999999999999999")), None);
}

#[test]
fn seconds_parse_to_truncated_milliseconds() {
    assert_eq!(parse_seconds_millis(&chars("30")), Some(30_000));
    assert_eq!(parse_seconds_millis(&chars("30.5")), Some(30_500));
    assert_eq!(parse_seconds_millis(&chars("0.0004")), Some(0));
    assert_eq!(parse_seconds_millis(&chars("2.3456")), Some(2_345));
    assert_eq!(parse_seconds_millis(&chars("-2.3456")), Some(-2_345));
    assert_eq!(parse_seconds_millis(&chars("+1.5")), Some(1_500));
    assert_eq!(parse_seconds_millis(&chars("5.")), Some(5_000));
    assert_eq!(parse_seconds_millis(&chars(".5")), Some(500));
}

#[test]
fn out_of_range_seconds_saturate() {
    assert_eq!(
        parse_seconds_millis(&chars("99999999999999999999999999")),
        Some(i64::MAX)
    );
    assert_eq!(
        parse_seconds_millis(&chars("-99999999999999999999999999")),
        Some(i64::MIN)
    );
}

#[test]
fn malformed_seconds_are_rejected() {
    assert_eq!(parse_seconds_millis(&chars("")), None);
    assert_eq!(parse_seconds_millis(&chars(".")), None);
    assert_eq!(parse_seconds_millis(&chars("-")), None);
    assert_eq!(parse_seconds_millis(&chars("1.2.3")), None);
    assert_eq!(parse_seconds_millis(&chars("1e3")), None);
    assert_eq!(parse_seconds_millis(&chars("abc")), None);
}
