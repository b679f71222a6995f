use marty::error::MartyError;
use marty::scout::{
    bound_filters_for, check_scout_target, detect_project_type, final_snapshot, project_markers,
    usable_snapshot, ProjectType, SnapshotSearch,
};

fn present(names: &[&str]) -> Vec<bool> {
    project_markers().iter().map(|m| names.contains(m)).collect()
}

#[test]
fn project_types_by_marker() {
    assert_eq!(detect_project_type(&present(&["Cargo.toml"])), ProjectType::Rust);
    assert_eq!(detect_project_type(&present(&["Cargo.toml", "project.godot"])), ProjectType::Godot);
    assert_eq!(detect_project_type(&present(&["settings.gradle"])), ProjectType::Android);
    assert_eq!(detect_project_type(&present(&["requirements.txt", "package.json"])), ProjectType::Python);
    assert_eq!(detect_project_type(&present(&["package.json"])), ProjectType::ViteWeb);
    assert_eq!(detect_project_type(&present(&["pubspec.yaml"])), ProjectType::Flutter);
    assert_eq!(detect_project_type(&present(&["Package.swift"])), ProjectType::Ios);
    assert_eq!(detect_project_type(&present(&[])), ProjectType::Unknown);
    assert_eq!(ProjectType::ViteWeb.as_str(), "vite_web");
}

#[test]
fn filters_per_type() {
    assert_eq!(bound_filters_for(ProjectType::Rust), vec!["[.rs]", "[Cargo.toml]"]);
    assert_eq!(bound_filters_for(ProjectType::Unknown).len(), 15);
    assert_eq!(bound_filters_for(ProjectType::Godot)[3], "[project.godot]");
}

#[test]
fn scout_target_errors() {
    assert!(check_scout_target(true, true, "/x").is_ok());
    match check_scout_target(false, false, "/x") {
        Err(MartyError::Internal(m)) => assert_eq!(m, "scout target does not exist: /x"),
        other => panic!("unexpected {:?}", other),
    }
    match check_scout_target(true, false, "/f") {
        Err(MartyError::Internal(m)) => assert_eq!(m, "scout target is not a directory: /f"),
        other => panic!("unexpected {:?}", other),
    }
}

#[test]
fn snapshots() {
    assert_eq!(usable_snapshot(" \n\t".to_string()), None);
    assert_eq!(usable_snapshot(" fn main() {} ".to_string()), Some(" fn main() {} ".to_string()));
    assert_eq!(final_snapshot(None), "(no existing source files to bundle)");
    assert_eq!(final_snapshot(Some("  ".to_string())), "(no existing source files to bundle)");
    assert_eq!(final_snapshot(Some("x".to_string())), "x");
}

#[test]
fn search_stops_at_first_usable_bundle() {
    let mut s = SnapshotSearch::new(ProjectType::Rust);
    assert_eq!(s.next_filter(), Some("[.rs]"));
    s.record(Some("   ".to_string()));
    assert_eq!(s.next_filter(), Some("[Cargo.toml]"));
    s.record(Some("[package]".to_string()));
    assert_eq!(s.next_filter(), None);
    assert_eq!(s.finish(), "[package]");
}

#[test]
fn search_without_usable_bundle_says_so() {
    let mut s = SnapshotSearch::new(ProjectType::Flutter);
    while s.next_filter().is_some() {
        s.record(None);
    }
    assert_eq!(s.next, 2);
    assert_eq!(s.finish(), "(no existing source files to bundle)");
}
