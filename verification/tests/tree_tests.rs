use otask::filetree::{compute_visible, file_icon, DirItem, DirListing, FileTree};

fn item(name: &str, is_dir: bool) -> DirItem {
    DirItem { name: name.to_string(), is_dir }
}

fn listings() -> Vec<DirListing> {
    vec![
        DirListing {
            path: ".".to_string(),
            items: vec![
                item("b.rs", false),
                item(".git", true),
                item("src", true),
                item("A.md", false),
                item("target", true),
                item("docs", true),
            ],
        },
        DirListing { path: "./src".to_string(), items: vec![item("main.rs", false), item("lib.rs", false)] },
    ]
}

fn names(t: &FileTree) -> Vec<(String, usize)> {
    t.visible.iter().map(|e| (e.name.clone(), e.depth)).collect()
}

#[test]
fn directories_come_first_then_files_by_name() {
    let t = FileTree::new(".".to_string(), &listings());
    assert_eq!(
        names(&t),
        vec![("docs".to_string(), 0), ("src".to_string(), 0), ("A.md".to_string(), 0), ("b.rs".to_string(), 0)]
    );
    assert_eq!(t.visible[1].path, "./src");
    assert!(t.visible[1].is_dir);
    assert!(!t.visible[1].expanded);
    assert_eq!(t.selected, 0);
}

#[test]
fn a_directory_opens_and_closes() {
    let mut t = FileTree::new(".".to_string(), &listings());
    t.key_down();
    t.toggle_expand(&listings());
    assert_eq!(names(&t)[1..4].to_vec(), vec![("src".to_string(), 0), ("lib.rs".to_string(), 1), ("main.rs".to_string(), 1)]);
    assert!(t.visible[1].expanded);
    assert_eq!(t.selected, 1);
    t.key_down();
    t.key_down();
    assert_eq!(t.selected_path(), Some(&"./src/main.rs".to_string()));
    assert!(t.selected_is_file());
    t.collapse_or_parent(&listings());
    assert_eq!(t.selected, 1);
    t.collapse_or_parent(&listings());
    assert_eq!(t.visible.len(), 4);
    assert_eq!(t.expanded, vec![".".to_string()]);
}

#[test]
fn selection_stays_in_bounds() {
    let mut t = FileTree::new(".".to_string(), &listings());
    t.key_up();
    assert_eq!(t.selected, 0);
    for _ in 0..10 {
        t.key_down();
    }
    assert_eq!(t.selected, 3);
    t.refresh(&vec![DirListing { path: ".".to_string(), items: vec![item("only.rs", false)] }]);
    assert_eq!(t.selected, 0);
    assert_eq!(t.visible.len(), 1);
}

#[test]
fn a_missing_listing_shows_nothing_inside() {
    let v = compute_visible(".", &vec![".".to_string()], &Vec::new());
    assert!(v.is_empty());
}

#[test]
fn icons_by_extension() {
    assert_eq!(file_icon("main.rs"), "r ");
    assert_eq!(file_icon("Cargo.toml"), "c ");
    assert_eq!(file_icon("a.yml"), "c ");
    assert_eq!(file_icon("README.md"), "m ");
    assert_eq!(file_icon("x.tsx"), "j ");
    assert_eq!(file_icon("x.py"), "p ");
    assert_eq!(file_icon("index.htm"), "h ");
    assert_eq!(file_icon("s.scss"), "s ");
    assert_eq!(file_icon("run.sh"), "$ ");
    assert_eq!(file_icon("Cargo.lock"), "l ");
    assert_eq!(file_icon("Makefile"), "  ");
    assert_eq!(file_icon("rs"), "r ");
}
