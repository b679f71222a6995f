use marty::memory::Node;
use marty::outputs::{format_path_with_emojis, format_relative_time, format_relative_time_at, metadata_text, rank_label};

#[test]
fn home_is_shown_as_house() {
    assert_eq!(format_path_with_emojis("/home/al/work", "/home/al"), "🏠/work");
    assert_eq!(format_path_with_emojis("~/src", ""), "🏠/src");
    assert_eq!(format_path_with_emojis("$HOME/x/~", "/nothere"), "🏠/x/🏠");
    assert_eq!(format_path_with_emojis("/opt/home/al", "/home/al"), "/opt/home/al");
}

#[test]
fn shown_paths_have_no_tilde() {
    let s = format_path_with_emojis("~a~b~~", "/h");
    assert!(!s.contains('~'));
}

#[test]
fn relative_times() {
    assert_eq!(format_relative_time_at(1000, 1000), "just now");
    assert_eq!(format_relative_time_at(1000, 1059), "just now");
    assert_eq!(format_relative_time_at(2000, 1000), "just now");
    assert_eq!(format_relative_time_at(0, 60), "1 mins ago");
    assert_eq!(format_relative_time_at(0, 3599), "59 mins ago");
    assert_eq!(format_relative_time_at(0, 3600), "1 hours ago");
    assert_eq!(format_relative_time_at(0, 86399), "23 hours ago");
    assert_eq!(format_relative_time_at(0, 86400 * 12 + 5), "12 days ago");
    assert_eq!(format_relative_time_at(i64::MIN, i64::MAX), "213503982334601 days ago");
    assert_eq!(format_relative_time(marty::signals::Signal::timestamp_now()), "just now");
}

#[test]
fn rank_labels() {
    assert_eq!(rank_label(0), "🥇");
    assert_eq!(rank_label(1), "🥈");
    assert_eq!(rank_label(2), "🥉");
    assert_eq!(rank_label(3), "#4");
    assert_eq!(rank_label(41), "#42");
}

#[test]
fn metadata_lines_are_trimmed() {
    let n = Node {
        label: "api".to_string(),
        metadata: vec![("lang".to_string(), "rust".to_string()), ("team".to_string(), "core".to_string())],
    };
    assert_eq!(metadata_text(&n), "lang: rust\nteam: core");
    let empty = Node { label: "x".to_string(), metadata: vec![] };
    assert_eq!(metadata_text(&empty), "");
}
