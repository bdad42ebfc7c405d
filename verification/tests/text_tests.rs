use personars::text::{
    decimal_chars, find_chars, parse_i64, parse_u32, trim, zero_padded_chars,
};

fn chars_of(s: &str) -> Vec<char> {
    s.chars().collect()
}

fn s(v: &[char]) -> String {
    v.iter().collect()
}

#[test]
fn parse_i64_accepts_signed_decimals() {
    assert_eq!(parse_i64(&chars_of("42")), Some(42));
    assert_eq!(parse_i64(&chars_of("-17")), Some(-17));
    assert_eq!(parse_i64(&chars_of("+8")), Some(8));
    assert_eq!(parse_i64(&chars_of("-9223372036854775808")), Some(i64::MIN));
    assert_eq!(parse_i64(&chars_of("9223372036854775807")), Some(i64::MAX));
}

#[test]
fn parse_i64_rejects_what_from_str_rejects() {
    assert_eq!(parse_i64(&chars_of("")), None);
    assert_eq!(parse_i64(&chars_of("-")), None);
    assert_eq!(parse_i64(&chars_of("12a")), None);
    assert_eq!(parse_i64(&chars_of("9223372036854775808")), None);
    assert_eq!(parse_i64(&chars_of(" 1")), None);
}

#[test]
fn parse_u32_matches_from_str() {
    assert_eq!(parse_u32(&chars_of("02")), Some(2));
    assert_eq!(parse_u32(&chars_of("+7")), Some(7));
    assert_eq!(parse_u32(&chars_of("-0")), None);
    assert_eq!(parse_u32(&chars_of("4294967295")), Some(u32::MAX));
    assert_eq!(parse_u32(&chars_of("4294967296")), None);
    assert_eq!(parse_u32(&chars_of("x")), None);
}

#[test]
fn trim_removes_unicode_whitespace() {
    assert_eq!(trim("  hello \n\t"), "hello");
    assert_eq!(trim("\u{00a0}a b\u{2003}"), "a b");
    assert_eq!(trim("   "), "");
}

#[test]
fn zero_padding_follows_format() {
    assert_eq!(s(&zero_padded_chars(7, 2)), format!("{:02}", 7));
    assert_eq!(s(&zero_padded_chars(2026, 4)), format!("{:04}", 2026));
    assert_eq!(s(&zero_padded_chars(-5, 4)), format!("{:04}", -5));
    assert_eq!(s(&zero_padded_chars(123456, 4)), "123456");
    assert_eq!(s(&zero_padded_chars(i64::MIN, 4)), format!("{:04}", i64::MIN));
    assert_eq!(s(&decimal_chars(0)), "0");
    assert_eq!(s(&decimal_chars(u64::MAX)), u64::MAX.to_string());
}

#[test]
fn find_gives_the_first_occurrence() {
    let hay = chars_of("2026-W08-W09");
    assert_eq!(find_chars(&hay, &chars_of("-W")), Some(4));
    assert_eq!(find_chars(&hay, &chars_of("-")), Some(4));
    assert_eq!(find_chars(&hay, &chars_of("x")), None);
    assert_eq!(find_chars(&hay, &chars_of("")), Some(0));
}
