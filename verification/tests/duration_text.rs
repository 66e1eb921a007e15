use plant_bot::duration::{hours, minutes, seconds, Duration};
use plant_bot::text::{parse_u32, split, to_decimal, to_decimal_padded, trim, IntErrorKind};

fn chars(s: &str) -> Vec<char> {
    s.chars().collect()
}

fn text(v: &[char]) -> String {
    v.iter().collect()
}

#[test]
fn seconds_minutes_hours_spans() {
    assert_eq!(seconds(5).as_secs(), 5);
    assert_eq!(seconds(5).subsec_nanos(), 0);
    assert_eq!(minutes(2).as_secs(), 120);
    assert_eq!(hours(3).as_secs(), 10_800);
    assert_eq!(hours(u32::MAX).as_secs(), 3600 * u32::MAX as u64);
}

#[test]
fn units_scale_law_on_values() {
    assert_eq!(minutes(7), seconds(60).mul(7));
    assert_eq!(hours(7), minutes(60).mul(7));
    assert_eq!(minutes(7).as_secs(), 60 * seconds(7).as_secs());
    assert_eq!(hours(7).as_secs(), 60 * minutes(7).as_secs());
}

#[test]
fn duration_checked_mul_overflow() {
    assert!(Duration::from_secs(u64::MAX).checked_mul(2).is_none());
    assert_eq!(Duration::from_secs(u64::MAX).checked_mul(1).unwrap().as_secs(), u64::MAX);
    assert_eq!(Duration::from_secs(3).checked_mul(0).unwrap().as_secs(), 0);
}

#[test]
fn trim_removes_unicode_white_space() {
    assert_eq!(text(&trim(&chars("  42\t\n"))), "42");
    assert_eq!(text(&trim(&chars("\u{3000}a b\u{2009}"))), "a b");
    assert_eq!(text(&trim(&chars("   "))), "");
    assert_eq!(text(&trim(&chars(""))), "");
    assert_eq!(text(&trim(&chars("x"))), "x");
}

#[test]
fn parse_u32_like_str_parse() {
    assert_eq!(parse_u32(&chars("0")), Ok(0));
    assert_eq!(parse_u32(&chars("+12")), Ok(12));
    assert_eq!(parse_u32(&chars("007")), Ok(7));
    assert_eq!(parse_u32(&chars("4294967295")), Ok(u32::MAX));
    assert_eq!(parse_u32(&chars("")), Err(IntErrorKind::Empty));
    assert_eq!(parse_u32(&chars("+")), Err(IntErrorKind::InvalidDigit));
    assert_eq!(parse_u32(&chars("-")), Err(IntErrorKind::InvalidDigit));
    assert_eq!(parse_u32(&chars("-5")), Err(IntErrorKind::InvalidDigit));
    assert_eq!(parse_u32(&chars(" 5")), Err(IntErrorKind::InvalidDigit));
    assert_eq!(parse_u32(&chars("12a")), Err(IntErrorKind::InvalidDigit));
    assert_eq!(parse_u32(&chars("4294967296")), Err(IntErrorKind::PosOverflow));
    assert_eq!(parse_u32(&chars("99999999999x")), Err(IntErrorKind::PosOverflow));
    for s in ["0", "+12", "007", "4294967295", "-5", "12a", "4294967296", ""] {
        let expected = s.parse::<u32>().ok();
        assert_eq!(parse_u32(&chars(s)).ok(), expected, "{s}");
    }
}

#[test]
fn split_like_str_split() {
    for s in ["a$b", "", "$", "10000$5A1711$2000$5A1722", "$$x$"] {
        let got: Vec<String> = split(&chars(s), '$').iter().map(|p| text(p)).collect();
        let expected: Vec<String> = s.split('$').map(|p| p.to_string()).collect();
        assert_eq!(got, expected, "{s}");
    }
}

#[test]
fn decimal_rendering() {
    assert_eq!(text(&to_decimal(0)), "0");
    assert_eq!(text(&to_decimal(1234567890)), "1234567890");
    assert_eq!(text(&to_decimal_padded(5, 2)), "05");
    assert_eq!(text(&to_decimal_padded(123, 2)), "123");
    assert_eq!(text(&to_decimal_padded(0, 2)), "00");
}
