use vn_record::process::{Process, process_display_name};

#[test]
fn display_name_joins_app_and_title() {
    let name = process_display_name(
        Some(String::from("player")),
        Some(String::from("Episode 3")),
    );
    assert_eq!(name, "player - Episode 3");
}

#[test]
fn display_name_falls_back_to_app_name() {
    let name = process_display_name(Some(String::from("player")), None);
    assert_eq!(name, "player");
}

#[test]
fn display_name_falls_back_to_title() {
    let name = process_display_name(None, Some(String::from("Episode 3")));
    assert_eq!(name, "Episode 3");
}

#[test]
fn display_name_placeholder_when_nothing_known() {
    let name = process_display_name(None, None);
    assert_eq!(name, "Unknown");
}

#[test]
fn processes_compare_by_id_alone() {
    let a = Process::new(3, String::from("one name"));
    let b = Process::new(3, String::from("another name"));
    let c = Process::new(4, String::from("one name"));
    assert!(a == b);
    assert!(a != c);
}
