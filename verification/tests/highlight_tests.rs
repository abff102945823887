use otask::highlight::Highlighter;
use otask::filetree::syntax_extension;

#[test]
fn each_line_is_coloured() {
    let h = Highlighter::new();
    let lines = h.highlight_file("fn main() {}\n\nlet x = 1;", "rs");
    assert_eq!(lines.len(), 3);
    let first: String = lines[0].spans.iter().map(|s| s.content.as_str()).collect();
    assert_eq!(first, "fn main() {}");
    assert!(lines[1].spans.is_empty());
    let third: String = lines[2].spans.iter().map(|s| s.content.as_str()).collect();
    assert_eq!(third, "let x = 1;");
    for l in &lines {
        for s in &l.spans {
            assert!(!s.content.is_empty());
            assert!(s.style.fg.is_some());
            assert!(s.style.bg.is_none());
        }
    }
    let colours: std::collections::HashSet<u32> = lines[0].spans.iter().filter_map(|s| s.style.fg).collect();
    assert!(colours.len() > 1);
}

#[test]
fn plain_text_has_one_colour_and_empty_text_one_line() {
    let h = Highlighter::new();
    let lines = h.highlight_file("fn main() {}", "no-such-extension");
    let colours: std::collections::HashSet<u32> = lines[0].spans.iter().filter_map(|s| s.style.fg).collect();
    assert_eq!(colours.len(), 1);
    let empty = h.highlight_file("", "rs");
    assert_eq!(empty.len(), 1);
    assert!(empty[0].spans.is_empty());
}

#[test]
fn the_syntax_is_picked_by_extension() {
    assert_eq!(syntax_extension(Some("src/main.rs")), "rs");
    assert_eq!(syntax_extension(Some("Makefile")), "Makefile");
    assert_eq!(syntax_extension(None), "txt");
}
