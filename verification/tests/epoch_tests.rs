use personars::tools::epoch_converter::{conversion_text, timestamp_parts, EpochConverter};

fn convert(input: &str) -> String {
    let mut c = EpochConverter::new();
    c.set_timestamp_input(input);
    c.convert();
    c.date_output().to_owned()
}

#[test]
fn seconds_and_milliseconds() {
    assert_eq!(timestamp_parts(1_700_000_000), (1_700_000_000, 0));
    assert_eq!(timestamp_parts(1_700_000_000_123), (1_700_000_000, 123_000_000));
    assert_eq!(timestamp_parts(-200_000_000_000), (-200_000_000, 0));
    assert_eq!(timestamp_parts(100_000_000_000), (100_000_000_000, 0));
}

#[test]
fn converts_seconds() {
    let out = convert(" 1700000000 ");
    assert!(out.starts_with("UTC:   2023-11-14 22:13:20\nLocal: "), "{out}");
}

#[test]
fn converts_milliseconds() {
    let out = convert("1700000000999");
    assert!(out.starts_with("UTC:   2023-11-14 22:13:20\nLocal: "), "{out}");
}

#[test]
fn empty_input_clears() {
    assert_eq!(convert("   "), "");
}

#[test]
fn not_a_number() {
    assert_eq!(convert("12ab"), "Invalid number");
    assert_eq!(convert("1.5"), "Invalid number");
}

#[test]
fn out_of_range() {
    assert_eq!(convert("9000000000000000"), "Invalid timestamp");
    assert_eq!(convert("-9000000000000000"), "Invalid timestamp");
    assert!(convert("-9000000000000").starts_with("UTC:   1684-10-19 08:00:00"));
}

#[test]
fn negative_milliseconds_round_down() {
    assert_eq!(timestamp_parts(-1_700_000_000_001), (-1_700_000_001, 999_000_000));
    assert_eq!(timestamp_parts(i64::MIN), (-9_223_372_036_854_776, 192_000_000));
    let out = convert("-1700000000001");
    assert!(out.starts_with("UTC:   1916-02-18 01:46:39\nLocal: "), "{out}");
    assert_eq!(convert("-9223372036854775808"), "Invalid timestamp");
}

#[test]
fn local_line_follows_the_utc_line() {
    let out = convert("1700000000");
    let local = out.strip_prefix("UTC:   2023-11-14 22:13:20\nLocal: ").unwrap();
    assert_eq!(local.len(), 19, "{out}");
    let b = local.as_bytes();
    for (i, c) in b.iter().enumerate() {
        match i {
            4 | 7 => assert_eq!(*c, b'-'),
            10 => assert_eq!(*c, b' '),
            13 | 16 => assert_eq!(*c, b':'),
            _ => assert!(c.is_ascii_digit(), "{out}"),
        }
    }
    assert_eq!(conversion_text("2023-11-14 22:13:20", local), out);
    assert_eq!(conversion_text("a", "b"), "UTC:   a\nLocal: b");
}

#[test]
fn clear_resets() {
    let mut c = EpochConverter::new();
    c.set_timestamp_input("0");
    c.convert();
    assert!(c.date_output().starts_with("UTC:   1970-01-01 00:00:00"));
    c.clear();
    assert_eq!(c.timestamp_input(), "");
    assert_eq!(c.date_output(), "");
}
