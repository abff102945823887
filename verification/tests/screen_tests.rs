use otask::app::{App, AppEvent};
use otask::editor::EditorState;
use otask::filepicker::FilePicker;
use otask::filetree::{DirItem, DirListing, FileTree};
use otask::markdown::{StyledLine, StyledSpan, TextStyle};
use otask::screen::{
    chat_lines_exec, chat_scroll_exec, coloured_line_exec, command_cursor, command_line_exec, editor_cursor_exec, editor_scroll_exec,
    footer_line_exec, gutter_lines, gutter_width_exec, input_info_line_exec, input_line_exec, list_scroll_exec,
    palette_lines_exec, palette_scroll_exec, picker_height_exec, picker_rows_exec, picker_title_exec, status_bar_exec,
    text_lines, tree_drawable, tree_rows, welcome_line_exec, welcome_status_exec, ACCENT, GREEN, MUTED,
};
use otask::keys::Key;

fn text_of(l: &StyledLine) -> String {
    l.spans.iter().map(|s| s.content.as_str()).collect()
}

fn texts(ls: &[StyledLine]) -> Vec<String> {
    ls.iter().map(text_of).collect()
}

#[test]
fn lists_scroll_to_keep_the_selection_shown() {
    assert_eq!(list_scroll_exec(2, 5), 0);
    assert_eq!(list_scroll_exec(5, 5), 1);
    assert_eq!(list_scroll_exec(9, 3), 7);
}

#[test]
fn the_gutter_numbers_lines() {
    let text: String = (0..12).map(|i| format!("l{}\n", i)).collect();
    let ed = EditorState::open(None, Some(text));
    let gw = gutter_width_exec(&ed);
    assert_eq!(gw, 4);
    let g = gutter_lines(&ed, 10, 4, gw);
    assert_eq!(texts(&g), vec![" 11 ", " 12 ", "  ~ ", "  ~ "]);
    let big: String = (0..1000).map(|_| "x\n").collect();
    assert_eq!(gutter_width_exec(&EditorState::open(None, Some(big))), 6);
}

#[test]
fn the_text_area_follows_the_cursor() {
    let mut ed = EditorState::open(None, Some("a\nbb\nccc\ndddd".to_string()));
    ed.handle_key(Key::Char('G'));
    assert_eq!(editor_scroll_exec(&ed, 2), 2);
    let lines = text_lines(&ed, 2, 3, 5);
    assert_eq!(texts(&lines), vec!["ccc  ", "dddd ", ""]);
    assert_eq!(lines[1].spans[0].style.bg, Some(otask::screen::CURSOR_LINE));
    ed.handle_key(Key::Char('$'));
    assert_eq!(editor_cursor_exec(&ed, 2, 2, 3), Some((2, 1)));
    ed.handle_key(Key::Char(':'));
    assert_eq!(editor_cursor_exec(&ed, 2, 2, 3), None);
    assert_eq!(command_cursor(&ed), Some(1));
    ed.handle_key(Key::Char('\u{e9}'));
    assert_eq!(command_cursor(&ed), Some(3));
    assert_eq!(text_of(&command_line_exec(&ed)), ":\u{e9}");
}

#[test]
fn the_status_bar() {
    let mut ed = EditorState::open(Some("a.rs".to_string()), Some("x".to_string()));
    assert_eq!(text_of(&status_bar_exec(&ed)), " NORMAL   a.rs    ctrl+e tree  1:1 ");
    ed.handle_key(Key::Char('x'));
    ed.handle_key(Key::Char('i'));
    assert_eq!(text_of(&status_bar_exec(&ed)), " INSERT   a.rs [+]    ctrl+e tree  1:1 ");
    let ed = EditorState::open(None, None);
    assert_eq!(text_of(&status_bar_exec(&ed)), " NORMAL   [no name]    ctrl+e tree  1:1 ");
    assert_eq!(text_of(&command_line_exec(&ed)), "  :w  save    :wq  save & quit    :q  quit    :q!  discard");
}

#[test]
fn the_chat_shows_each_message() {
    let mut a = App::new("/w".to_string(), String::new());
    a.messages.push(otask::app::ChatMessage { role: "user".to_string(), content: "one\ntwo".to_string() });
    a.receive(AppEvent::Response("**hi**".to_string()));
    a.receive(AppEvent::Error("bad".to_string()));
    a.is_loading = true;
    let lines = chat_lines_exec(&a, 40);
    assert_eq!(
        texts(&lines),
        vec!["", "you  ", "     one", "     two", "", "ai   ", "     hi", "     ", "", "err  Error: bad", "", "ai   thinking\u{2026}"]
    );
    assert_eq!(chat_scroll_exec(12, 5, usize::MAX), (7, 7));
    assert_eq!(chat_scroll_exec(12, 5, 3), (7, 3));
    assert_eq!(chat_scroll_exec(12, 20, 3), (0, 0));
}

#[test]
fn footer_input_and_welcome() {
    let mut a = App::new("/w".to_string(), String::new());
    assert_eq!(text_of(&footer_line_exec(&a)), " edit  ctrl+k commands  ctrl+v editor  @ / ctrl+f files  ");
    assert_eq!(text_of(&input_line_exec(&a)), "Ask anything\u{2026}  \"What is the tech stack of this project?\"");
    assert_eq!(text_of(&input_info_line_exec(&a)), " edit \u{b7} no provider \u{b7} max");
    assert_eq!(text_of(&welcome_line_exec(&a)), " edit   [p] plan  \u{b7}  no provider connected");
    assert!(welcome_status_exec(&a).is_none());
    a.provider_name = Some("cerebras".to_string());
    assert_eq!(text_of(&footer_line_exec(&a)), " edit  \u{b7} cerebras  ctrl+k commands  ctrl+v editor  @ / ctrl+f files  ");
    a.flash_status("saved".to_string(), 1);
    let f = footer_line_exec(&a);
    assert_eq!(text_of(&f), " edit  \u{b7} saved  ctrl+k commands  ctrl+v editor  @ / ctrl+f files  ");
    assert_eq!(f.spans[1].style.fg, Some(GREEN));
    assert_eq!(f.spans[0].style.fg, Some(GREEN));
    let w = welcome_status_exec(&a).unwrap();
    assert_eq!(text_of(&w), "\u{b7} saved");
    assert_eq!(welcome_line_exec(&a).spans[3].style.fg, Some(GREEN));
}

#[test]
fn the_picker_panel() {
    let mut p = FilePicker::new(vec!["a.rs".to_string(), "b.rs".to_string()]);
    assert_eq!(picker_title_exec(&p), " @ files  type to filter  esc cancel ");
    assert_eq!(picker_height_exec(&p), 4);
    let rows = picker_rows_exec(&p, 8);
    assert_eq!(texts(&rows), vec!["  a.rs  ", "  b.rs  "]);
    assert_eq!(rows[0].spans[0].style.bg, Some(ACCENT));
    p.update_filter("zz");
    assert_eq!(picker_title_exec(&p), " @zz  esc cancel ");
    assert_eq!(texts(&picker_rows_exec(&p, 8)), vec!["  no files match"]);
    let many = FilePicker::new((0..20).map(|i| format!("f{}", i)).collect());
    assert_eq!(picker_height_exec(&many), 14);
}

#[test]
fn the_palette() {
    let lines = palette_lines_exec(10);
    assert_eq!(lines.len(), 50);
    assert_eq!(text_of(&lines[0]), "commands  \u{b7}  esc to close");
    assert_eq!(text_of(&lines[1]), "\u{2500}".repeat(10));
    assert_eq!(text_of(&lines[2]), format!("  {:<14}{:<22}{}", "i", "start typing", "focus the input box"));
    assert_eq!(text_of(&lines[16]), "");
    assert!(text_of(&lines[17]).starts_with("  \u{2500}\u{2500} plan mode"));
    assert_eq!(lines[17].spans[0].style.fg, Some(MUTED));
    assert_eq!(text_of(&lines[18]), "");
    assert_eq!(text_of(&lines[48]), format!("  {:<40}{}", "/edit <path>", "open file directly in editor"));
    assert_eq!(palette_scroll_exec(100, 10), 38);
    assert_eq!(palette_scroll_exec(5, 10), 5);
    assert_eq!(palette_scroll_exec(5, 60), 0);
}

#[test]
fn the_tree_panel() {
    let ls = vec![DirListing {
        path: ".".to_string(),
        items: vec![DirItem { name: "src".to_string(), is_dir: true }, DirItem { name: "a.rs".to_string(), is_dir: false }],
    }];
    let t = FileTree::new(".".to_string(), &ls);
    assert!(tree_drawable(&t, 25));
    let rows = tree_rows(&t, 12);
    assert_eq!(texts(&rows), vec!["\u{25b8} src     ", "r a.rs      "]);
    assert_eq!(rows[0].spans[1].style.bg, Some(otask::screen::TREE_SEL));
    let deep = vec![DirListing {
        path: ".".to_string(),
        items: vec![DirItem { name: "\u{e9}t\u{e9}".to_string(), is_dir: true }],
    }];
    let t = FileTree::new(".".to_string(), &deep);
    assert!(!tree_drawable(&t, 6));
    assert!(!tree_drawable(&t, 2));
    assert!(tree_drawable(&t, 5));
}

#[test]
fn coloured_lines_are_padded_on_their_background() {
    let ed = EditorState::open(None, Some("ab\u{e9}\nx".to_string()));
    let st = |c: u32| TextStyle { fg: Some(c), bg: None, bold: false, italic: false, underlined: false, crossed_out: false };
    let l = StyledLine {
        spans: vec![
            StyledSpan { content: "ab".to_string(), style: st(1) },
            StyledSpan { content: "\u{e9}".to_string(), style: st(2) },
        ],
    };
    let row = coloured_line_exec(&ed, 0, &l, 6);
    assert_eq!(text_of(&row), "ab\u{e9}  ");
    assert_eq!(row.spans[0].style.bg, Some(otask::screen::CURSOR_LINE));
    assert_eq!(row.spans[1].style.fg, Some(2));
    let other = coloured_line_exec(&ed, 1, &l, 3);
    assert_eq!(text_of(&other), "ab\u{e9}");
    assert_eq!(other.spans[0].style.bg, Some(otask::screen::BG));
}
