use vn_record::duration::AudioDuration;

#[test]
fn zero_is_zero() {
    let d = AudioDuration::zero();
    assert!(d.is_zero());
    assert_eq!(d.secs, 0);
    assert_eq!(d.nanos, 0);
}

#[test]
fn new_keeps_its_parts() {
    let d = AudioDuration::new(12, 500_000_000);
    assert_eq!(d.secs, 12);
    assert_eq!(d.nanos, 500_000_000);
    assert!(!d.is_zero());
}

#[test]
fn mmss_pads_both_fields() {
    assert_eq!(AudioDuration::zero().mmss(), "00:00");
    assert_eq!(AudioDuration::new(59, 0).mmss(), "00:59");
    assert_eq!(AudioDuration::new(754, 0).mmss(), "12:34");
}

#[test]
fn mmss_lets_minutes_grow() {
    assert_eq!(AudioDuration::new(3600, 0).mmss(), "60:00");
    assert_eq!(AudioDuration::new(6034, 999_999_999).mmss(), "100:34");
}
