use otask::order::sort_strings;
use otask::filepicker::FilePicker;
use otask::text::{chars_of, is_whitespace, lines_of, trim_chars};

fn lines(s: &str) -> Vec<String> {
    lines_of(&chars_of(s)).iter().map(|l| l.iter().collect()).collect()
}

#[test]
fn lines_as_str_lines_gives_them() {
    assert_eq!(lines("a\nb"), vec!["a", "b"]);
    assert_eq!(lines("a\r\nb\r\n"), vec!["a", "b"]);
    assert_eq!(lines("a\n\nb\n"), vec!["a", "", "b"]);
    assert_eq!(lines("x\r"), vec!["x\r"]);
    assert!(lines("").is_empty());
    assert_eq!(lines("\n"), vec![""]);
}

#[test]
fn trimming_and_whitespace() {
    assert_eq!(trim_chars(&chars_of(" \t hi there \u{3000}")).iter().collect::<String>(), "hi there");
    assert!(is_whitespace('\u{a0}'));
    assert!(!is_whitespace('x'));
}

#[test]
fn lowercase_and_sorting() {
    let mut p = FilePicker::new(vec!["\u{c0}bC.rs".to_string(), "abc.rs".to_string()]);
    p.update_filter("\u{e0}B");
    assert_eq!(p.filtered, vec!["\u{c0}bC.rs".to_string()]);
    let v = sort_strings(vec!["b".to_string(), "B".to_string(), "a".to_string(), "ab".to_string()]);
    assert_eq!(v, vec!["B", "a", "ab", "b"]);
}
