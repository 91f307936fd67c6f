use vn_record::duration::AudioDuration;
use vn_record::probe::parse_duration;

#[test]
fn parses_seconds_and_fraction() {
    let d = parse_duration(b"12.5").unwrap();
    assert_eq!(d, AudioDuration::new(12, 500_000_000));
}

#[test]
fn parses_with_surrounding_whitespace() {
    let d = parse_duration(b" \t3.25\n").unwrap();
    assert_eq!(d, AudioDuration::new(3, 250_000_000));
}

#[test]
fn parses_plain_integer() {
    let d = parse_duration(b"42").unwrap();
    assert_eq!(d, AudioDuration::new(42, 0));
}

#[test]
fn parses_trailing_dot() {
    let d = parse_duration(b"42.").unwrap();
    assert_eq!(d, AudioDuration::new(42, 0));
}

#[test]
fn parses_zero() {
    let d = parse_duration(b"0.0").unwrap();
    assert!(d.is_zero());
}

#[test]
fn keeps_nine_fraction_digits() {
    // the tenth fractional digit is beyond nanosecond resolution and dropped
    let d = parse_duration(b"1.0123456789").unwrap();
    assert_eq!(d, AudioDuration::new(1, 12_345_678));
}

#[test]
fn pads_short_fraction() {
    let d = parse_duration(b"2.07").unwrap();
    assert_eq!(d, AudioDuration::new(2, 70_000_000));
}

#[test]
fn rejects_empty_output() {
    assert!(parse_duration(b"").is_none());
    assert!(parse_duration(b"  \n").is_none());
}

#[test]
fn rejects_non_numeric() {
    assert!(parse_duration(b"abc").is_none());
    assert!(parse_duration(b"12a").is_none());
    assert!(parse_duration(b"1 2").is_none());
}

#[test]
fn rejects_missing_integer_part() {
    assert!(parse_duration(b".5").is_none());
}

#[test]
fn rejects_second_dot() {
    assert!(parse_duration(b"1.2.3").is_none());
}

#[test]
fn rejects_overflowing_seconds() {
    assert!(parse_duration(b"99999999999999999999999").is_none());
}

#[test]
fn accepts_max_seconds() {
    let d = parse_duration(b"18446744073709551615.9").unwrap();
    assert_eq!(d, AudioDuration::new(u64::MAX, 900_000_000));
}
