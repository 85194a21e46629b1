use live_reminder::number::{format_i64, format_usize, parse_i32, parse_i64};

#[test]
fn parse_i32_accepts_plain_and_signed_numbers() {
    assert_eq!(parse_i32("12"), Some(12));
    assert_eq!(parse_i32("+7"), Some(7));
    assert_eq!(parse_i32("-0"), Some(0));
    assert_eq!(parse_i32("007"), Some(7));
    assert_eq!(parse_i32("-2147483648"), Some(i32::MIN));
    assert_eq!(parse_i32("2147483647"), Some(i32::MAX));
}

#[test]
fn parse_i32_refuses_what_str_parse_refuses() {
    for bad in ["", "+", "-", " 1", "1 ", "1a", "--1", "+-1", "2147483648", "-2147483649", "\u{661}", "1.0"] {
        assert_eq!(parse_i32(bad), None, "{:?}", bad);
        assert!(bad.parse::<i32>().is_err());
    }
}

#[test]
fn parse_i64_limits() {
    assert_eq!(parse_i64("9223372036854775807"), Some(i64::MAX));
    assert_eq!(parse_i64("-9223372036854775808"), Some(i64::MIN));
    assert_eq!(parse_i64("9223372036854775808"), None);
    assert_eq!(parse_i64("-9223372036854775809"), None);
    assert_eq!(parse_i64("123456789012345678901234567890"), None);
    assert_eq!(parse_i64("18446744073709551616x"), None);
}

#[test]
fn parse_agrees_with_std_on_samples() {
    for s in ["0", "1", "-1", "+0", "22", "23", "65536", "-65536", "99999999999", "abc", "", "12-3"] {
        assert_eq!(parse_i64(s), s.parse::<i64>().ok(), "{:?}", s);
        assert_eq!(parse_i32(s), s.parse::<i32>().ok(), "{:?}", s);
    }
}

#[test]
fn format_matches_display() {
    for n in [0i64, 7, -7, 10, -42, 1000, i64::MAX, i64::MIN] {
        assert_eq!(format_i64(n), n.to_string());
    }
    assert_eq!(format_i64(-42), "-42");
    assert_eq!(format_usize(0), "0");
    assert_eq!(format_usize(10), "10");
    assert_eq!(format_usize(usize::MAX), usize::MAX.to_string());
}

#[test]
fn printed_number_reads_back() {
    for n in [0i64, 1, -1, 9, 10, -10, 123456789, i64::MAX, i64::MIN, i64::MIN + 1] {
        assert_eq!(parse_i64(&format_i64(n)), Some(n));
    }
}
