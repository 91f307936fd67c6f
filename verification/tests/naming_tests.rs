use vn_record::naming::{
    audio_file_name, join_path, screenshot_file_name, trim_temp_name, u64_to_decimal,
};

#[test]
fn decimal_of_zero() {
    assert_eq!(u64_to_decimal(0), "0");
}

#[test]
fn decimal_of_single_digit() {
    assert_eq!(u64_to_decimal(7), "7");
}

#[test]
fn decimal_of_round_number() {
    assert_eq!(u64_to_decimal(10), "10");
}

#[test]
fn decimal_of_timestamp() {
    assert_eq!(u64_to_decimal(1694000000), "1694000000");
}

#[test]
fn decimal_of_max() {
    assert_eq!(u64_to_decimal(u64::MAX), "18446744073709551615");
}

#[test]
fn audio_name_from_timestamp() {
    assert_eq!(audio_file_name(1694000000), "1694000000_audio.mp3");
}

#[test]
fn screenshot_name_from_timestamp() {
    assert_eq!(screenshot_file_name(1694000000), "1694000000_screenshot.png");
}

#[test]
fn trim_temp_name_from_timestamp() {
    assert_eq!(trim_temp_name(1694000000), "1694000000_audio.tmp.mp3");
}

#[test]
fn join_adds_one_separator() {
    assert_eq!(join_path("/tmp/out", "a_audio.mp3"), "/tmp/out/a_audio.mp3");
}

#[test]
fn names_of_adjacent_seconds_differ() {
    assert_ne!(audio_file_name(1000), audio_file_name(1001));
    assert_ne!(screenshot_file_name(1000), screenshot_file_name(1001));
}

#[test]
fn names_of_same_second_collide() {
    assert_eq!(audio_file_name(1000), audio_file_name(1000));
    assert_eq!(screenshot_file_name(1000), screenshot_file_name(1000));
}
