use vn_record::trim::{AMP_THRESHOLD, trim, trim_tool_args};

fn signal(leading: usize, loud: usize, trailing: usize) -> Vec<i16> {
    let mut v = Vec::new();
    for _ in 0..leading {
        v.push(0i16);
    }
    for _ in 0..loud {
        v.push(1000i16);
    }
    for _ in 0..trailing {
        v.push(0i16);
    }
    v
}

#[test]
fn small_file_is_left_untouched() {
    // fewer than 250 samples is below the 500-byte threshold
    let v = signal(10, 5, 10);
    assert_eq!(trim(&v), v);
}

#[test]
fn strips_both_quiet_ends() {
    let v = signal(50, 200, 60);
    let trimmed = trim(&v);
    assert_eq!(trimmed, vec![1000i16; 200]);
}

#[test]
fn keeps_loud_edges() {
    let v = signal(0, 300, 0);
    assert_eq!(trim(&v), v);
}

#[test]
fn all_silence_becomes_empty() {
    let v = signal(300, 0, 0);
    assert_eq!(trim(&v), Vec::<i16>::new());
}

#[test]
fn negative_samples_count_as_loud() {
    let mut v = vec![0i16; 100];
    v.extend(vec![-AMP_THRESHOLD; 100]);
    v.extend(vec![0i16; 100]);
    assert_eq!(trim(&v), vec![-AMP_THRESHOLD; 100]);
}

#[test]
fn just_below_threshold_samples_are_silence() {
    let mut v = vec![AMP_THRESHOLD - 1; 100];
    v.extend(vec![5000i16; 50]);
    v.extend(vec![1 - AMP_THRESHOLD; 150]);
    assert_eq!(trim(&v), vec![5000i16; 50]);
}

#[test]
fn trim_is_idempotent_on_a_mixed_signal() {
    let v = signal(80, 150, 90);
    let once = trim(&v);
    let twice = trim(&once);
    assert_eq!(twice, once);
}

#[test]
fn trim_is_idempotent_when_result_falls_below_threshold() {
    // 300 samples shrink to 10: the second trim skips the small file
    let v = signal(150, 10, 140);
    let once = trim(&v);
    assert_eq!(once, vec![1000i16; 10]);
    assert_eq!(trim(&once), once);
}

#[test]
fn tool_argument_sequence() {
    let args = trim_tool_args("in.mp3", "out.mp3");
    let expected = vec![
        "in.mp3", "out.mp3", "silence", "1", "0.1", "1%", "reverse", "silence", "1", "0.1", "1%",
        "reverse",
    ];
    assert_eq!(args.len(), expected.len());
    for (a, e) in args.iter().zip(expected.iter()) {
        assert_eq!(a, e);
    }
}
