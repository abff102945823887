use otask::filepicker::{is_skipped_name, relative_path, scan_files, scan_step, FilePicker, ScanStep};

fn s(v: &[&str]) -> Vec<String> {
    v.iter().map(|x| x.to_string()).collect()
}

#[test]
fn files_are_sorted() {
    assert_eq!(scan_files(s(&["b/x.rs", "a.md", "A.txt"])), s(&["A.txt", "a.md", "b/x.rs"]));
}

#[test]
fn the_filter_ignores_case() {
    let mut p = FilePicker::new(s(&["src/App.rs", "README.md", "docs/app.md"]));
    assert_eq!(p.filtered.len(), 3);
    p.move_down();
    p.update_filter("APP");
    assert_eq!(p.filtered, s(&["src/App.rs", "docs/app.md"]));
    assert_eq!(p.selected, 0);
    assert_eq!(p.query, "APP");
    p.move_down();
    p.move_down();
    assert_eq!(p.current(), Some(&"docs/app.md".to_string()));
    p.move_up();
    p.move_up();
    assert_eq!(p.selected, 0);
    p.update_filter("zzz");
    assert_eq!(p.current(), None);
}

#[test]
fn paths_are_made_relative() {
    assert_eq!(relative_path("/w", "/w/src/a.rs"), "src/a.rs");
    assert_eq!(relative_path("/w", "/other/a.rs"), "other/a.rs");
    assert_eq!(relative_path("/w/", "/w/a.rs"), "a.rs");
}

#[test]
fn hidden_and_build_entries_are_skipped() {
    assert!(is_skipped_name(".git"));
    assert!(is_skipped_name("target"));
    assert!(is_skipped_name("node_modules"));
    assert!(!is_skipped_name("src"));
    assert!(matches!(scan_step(".env", false), ScanStep::Skip));
    assert!(matches!(scan_step("src", true), ScanStep::Descend));
    assert!(matches!(scan_step("a.rs", false), ScanStep::Record));
}
