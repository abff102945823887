use otask::markdown::{md_to_text, truncate_str, wrap_code_line, StyledLine, TextStyle, CODE_BG, CODE_FG, FG, HEADING1, LIST_BULLET, RULE_COLOR};

fn text_of(l: &StyledLine) -> String {
    l.spans.iter().map(|s| s.content.as_str()).collect()
}

fn texts(ls: &[StyledLine]) -> Vec<String> {
    ls.iter().map(text_of).collect()
}

fn fg(c: u32) -> TextStyle {
    TextStyle { fg: Some(c), bg: None, bold: false, italic: false, underlined: false, crossed_out: false }
}

#[test]
fn paragraphs_are_wrapped_at_words() {
    let out = md_to_text("hello world foo", 11);
    assert_eq!(texts(&out), vec!["hello world", "foo", ""]);
    assert_eq!(out[0].spans[0].style, fg(FG));
}

#[test]
fn wrapping_keeps_every_word() {
    let text = "one two three four five six seven eight nine ten";
    let out = md_to_text(text, 9);
    let lines = texts(&out);
    let joined = lines[..lines.len() - 1].join(" ");
    assert_eq!(joined, text);
    assert_eq!(lines[0], "one two");
}

#[test]
fn a_heading_is_styled() {
    let out = md_to_text("# Title", 80);
    assert_eq!(texts(&out), vec!["Title", ""]);
    let s = out[0].spans[0].style;
    assert_eq!(s.fg, Some(HEADING1));
    assert!(s.bold);
    assert!(s.underlined);
}

#[test]
fn a_code_block_is_framed() {
    let out = md_to_text("```\nlet x = 1;\n```", 80);
    assert_eq!(texts(&out), vec![" \u{250c}\u{2500} code ", "  let x = 1;", " \u{2514}\u{2500}\u{2500}\u{2500}\u{2500}\u{2500}\u{2500}\u{2500}\u{2500}", ""]);
    assert_eq!(out[0].spans[0].style, fg(RULE_COLOR));
    assert_eq!(out[1].spans[0].style, TextStyle { bg: Some(CODE_BG), ..fg(CODE_FG) });
}

#[test]
fn long_code_lines_are_cut() {
    let out = md_to_text("```\nabcdefghij\n```", 8);
    assert_eq!(text_of(&out[1]), "  abcde\u{2026}");
}

#[test]
fn lists_get_bullets_and_numbers() {
    assert_eq!(texts(&md_to_text("- a\n- b", 80)), vec!["\u{2022} a", "\u{2022} b", ""]);
    assert_eq!(texts(&md_to_text("1. a\n2. b", 80)), vec!["1. a", "2. b", ""]);
}

#[test]
fn inline_code_and_rules() {
    assert_eq!(texts(&md_to_text("use `x` now", 80)), vec!["use `x` now", ""]);
    let out = md_to_text("a\n\n---", 5);
    assert_eq!(texts(&out), vec!["a", "", "\u{2500}\u{2500}\u{2500}\u{2500}\u{2500}", ""]);
}

#[test]
fn list_items_are_drawn_in_the_text_colour() {
    let out = md_to_text("- item", 80);
    assert_eq!(out[0].spans[0].style, fg(FG));
    let _ = LIST_BULLET;
}

#[test]
fn truncation() {
    assert_eq!(truncate_str("hello", 3), "he\u{2026}");
    assert_eq!(truncate_str("hi", 3), "hi");
    assert_eq!(truncate_str("hello", 0), "");
    assert_eq!(wrap_code_line("abcdef", 5), "ab\u{2026}");
    assert_eq!(wrap_code_line("abc", 1), "");
}
