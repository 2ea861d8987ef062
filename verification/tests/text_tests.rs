use polarust::date::{format_date, UTC_MAX_SECS, UTC_MIN_SECS};
use polarust::text::{push_decimal, push_signed_decimal, same_text};

fn decimal_string(n: u64) -> String {
    let mut s = String::new();
    push_decimal(&mut s, n);
    s
}

#[test]
fn decimal_notation() {
    assert_eq!(decimal_string(0), "0");
    assert_eq!(decimal_string(9), "9");
    assert_eq!(decimal_string(10), "10");
    assert_eq!(decimal_string(1203), "1203");
    assert_eq!(decimal_string(u64::MAX), "18446744073709551615");
}

#[test]
fn decimal_appended() {
    let mut s = String::from("n=");
    push_decimal(&mut s, 42);
    assert_eq!(s, "n=42");
    let mut t = String::new();
    push_signed_decimal(&mut t, i64::MIN);
    assert_eq!(t, "-9223372036854775808");
    let mut u = String::new();
    push_signed_decimal(&mut u, -7);
    assert_eq!(u, "-7");
}

#[test]
fn text_equality() {
    assert!(same_text("rain", "rain"));
    assert!(!same_text("rain", "rainy"));
    assert!(!same_text("rain", "Rain"));
    assert!(same_text("", ""));
    assert!(same_text("é☀️", "é☀️"));
}

#[test]
fn dates_as_pages_show_them() {
    assert_eq!(format_date(0), "01 January 1970");
    assert_eq!(format_date(994550400), "08 July 2001");
    assert_eq!(format_date(-86400), "31 December 1969");
}

#[test]
fn date_out_of_range_is_question_mark() {
    assert_eq!(format_date(i64::MAX), "?");
    assert_eq!(format_date(i64::MIN), "?");
}

#[test]
fn date_range_bounds() {
    assert_eq!(format_date(UTC_MIN_SECS - 1), "?");
    assert_ne!(format_date(UTC_MIN_SECS), "?");
    assert_ne!(format_date(UTC_MAX_SECS), "?");
    assert_eq!(format_date(UTC_MAX_SECS + 1), "?");
    assert!(format_date(UTC_MAX_SECS).starts_with("31 December"));
    assert!(format_date(UTC_MIN_SECS).starts_with("01 January"));
}
