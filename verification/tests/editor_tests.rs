use otask::editor::{CommandStep, EditorAction, EditorMode, EditorState};
use otask::keys::Key;

fn buffer(text: &str) -> EditorState {
    EditorState::open(Some("notes.txt".to_string()), Some(text.to_string()))
}

fn lines(ed: &EditorState) -> Vec<String> {
    ed.lines.iter().map(|l| l.iter().collect()).collect()
}

fn status(ed: &EditorState) -> Option<String> {
    ed.status_msg.clone()
}

fn press(ed: &mut EditorState, keys: &[Key]) -> Vec<CommandStep> {
    keys.iter().map(|k| ed.handle_key(*k)).collect()
}

fn command(ed: &mut EditorState, cmd: &str) -> CommandStep {
    ed.handle_key(Key::Char(':'));
    for c in cmd.chars() {
        ed.handle_key(Key::Char(c));
    }
    ed.handle_key(Key::Enter)
}

#[test]
fn open_splits_the_text_into_lines() {
    let ed = buffer("first\r\nsecond\n");
    assert_eq!(lines(&ed), vec!["first", "second"]);
    assert_eq!(ed.cursor_row, 0);
    assert_eq!(ed.cursor_col, 0);
    assert_eq!(ed.mode, EditorMode::Normal);
    assert!(!ed.dirty);
    assert!(ed.cache_dirty);
}

#[test]
fn open_without_text_gives_one_empty_line() {
    let ed = EditorState::open(None, None);
    assert_eq!(lines(&ed), vec![""]);
    let ed = buffer("");
    assert_eq!(lines(&ed), vec![""]);
}

#[test]
fn insert_then_backspace_gives_back_the_line() {
    let mut ed = buffer("abc");
    press(&mut ed, &[Key::Char('l'), Key::Char('i'), Key::Char('X')]);
    assert_eq!(lines(&ed), vec!["aXbc"]);
    assert_eq!(ed.cursor_col, 2);
    press(&mut ed, &[Key::Backspace]);
    assert_eq!(lines(&ed), vec!["abc"]);
    assert_eq!(ed.cursor_col, 1);
    assert!(ed.dirty);
}

#[test]
fn enter_splits_and_backspace_joins() {
    let mut ed = buffer("hello");
    press(&mut ed, &[Key::Char('l'), Key::Char('l'), Key::Char('i'), Key::Enter]);
    assert_eq!(lines(&ed), vec!["he", "llo"]);
    assert_eq!((ed.cursor_row, ed.cursor_col), (1, 0));
    press(&mut ed, &[Key::Backspace]);
    assert_eq!(lines(&ed), vec!["hello"]);
    assert_eq!((ed.cursor_row, ed.cursor_col), (0, 2));
}

#[test]
fn dd_deletes_the_line() {
    let mut ed = buffer("one\ntwo\nthree");
    press(&mut ed, &[Key::Char('j'), Key::Char('d'), Key::Char('d')]);
    assert_eq!(lines(&ed), vec!["one", "three"]);
    assert_eq!(ed.cursor_row, 1);
}

#[test]
fn moves_keep_the_column_within_the_line() {
    let mut ed = buffer("long line\nab");
    press(&mut ed, &[Key::Char('$'), Key::Char('j')]);
    assert_eq!((ed.cursor_row, ed.cursor_col), (1, 2));
    press(&mut ed, &[Key::Char('g')]);
    assert_eq!(ed.cursor_row, 0);
    press(&mut ed, &[Key::Char('G'), Key::Char('0')]);
    assert_eq!((ed.cursor_row, ed.cursor_col), (1, 0));
}

#[test]
fn open_line_below_and_above() {
    let mut ed = buffer("mid");
    press(&mut ed, &[Key::Char('o'), Key::Char('b'), Key::Esc, Key::Char('k'), Key::Char('O'), Key::Char('a')]);
    assert_eq!(lines(&ed), vec!["a", "mid", "b"]);
    assert_eq!(ed.mode, EditorMode::Insert);
}

#[test]
fn write_asks_for_the_buffer_to_be_written() {
    let mut ed = buffer("a\nb");
    match command(&mut ed, "w") {
        CommandStep::Write { path, content, quit_after } => {
            assert_eq!(path, "notes.txt");
            assert_eq!(content, "a\nb");
            assert!(!quit_after);
        }
        CommandStep::Done(_) => panic!("expected a write"),
    }
    assert_eq!(ed.mode, EditorMode::Normal);
    assert_eq!(ed.finish_write(Ok(()), false), EditorAction::Stay);
    assert_eq!(status(&ed), Some("\"notes.txt\" written".to_string()));
    assert!(!ed.dirty);
}

#[test]
fn write_and_quit() {
    let mut ed = buffer("x");
    match command(&mut ed, " wq ") {
        CommandStep::Write { quit_after, .. } => assert!(quit_after),
        CommandStep::Done(_) => panic!("expected a write"),
    }
    assert_eq!(ed.finish_write(Ok(()), true), EditorAction::Quit);
}

#[test]
fn failed_write_is_reported() {
    let mut ed = buffer("x");
    command(&mut ed, "w");
    assert_eq!(ed.finish_write(Err("permission denied".to_string()), true), EditorAction::Stay);
    assert_eq!(status(&ed), Some("E: permission denied".to_string()));
}

#[test]
fn write_without_a_file_name() {
    let mut ed = EditorState::open(None, None);
    match command(&mut ed, "w") {
        CommandStep::Done(a) => assert_eq!(a, EditorAction::Stay),
        CommandStep::Write { .. } => panic!("nothing to write to"),
    }
    assert_eq!(status(&ed), Some("E: no file name".to_string()));
}

#[test]
fn quit_with_unsaved_changes_is_refused() {
    let mut ed = buffer("x");
    press(&mut ed, &[Key::Char('x')]);
    match command(&mut ed, "q") {
        CommandStep::Done(a) => assert_eq!(a, EditorAction::Stay),
        CommandStep::Write { .. } => panic!("no write"),
    }
    assert_eq!(status(&ed), Some("unsaved changes \u{2014} use :w to save, :q! to discard".to_string()));
    match command(&mut ed, "q!") {
        CommandStep::Done(a) => assert_eq!(a, EditorAction::Quit),
        CommandStep::Write { .. } => panic!("no write"),
    }
}

#[test]
fn unknown_command_is_reported() {
    let mut ed = buffer("x");
    command(&mut ed, "wat");
    assert_eq!(status(&ed), Some("unknown command: :wat".to_string()));
}

#[test]
fn backspace_on_an_empty_command_line_leaves_it() {
    let mut ed = buffer("x");
    press(&mut ed, &[Key::Char(':'), Key::Backspace]);
    assert_eq!(ed.mode, EditorMode::Normal);
}

#[test]
fn saved_text_opens_as_the_same_lines() {
    let mut ed = buffer("fn main() {\n    run();\n}");
    press(&mut ed, &[Key::Char('j'), Key::Char('A'), Key::Char('o'), Key::Char('x')]);
    let text = match ed.save_target() {
        Ok((_, content)) => content,
        Err(e) => panic!("{}", e),
    };
    let again = buffer(&text);
    assert_eq!(lines(&again), lines(&ed));
}

#[test]
fn scroll_keeps_the_cursor_in_view() {
    let mut ed = buffer("0\n1\n2\n3\n4\n5");
    press(&mut ed, &[Key::Char('G')]);
    ed.scroll_to_cursor(3);
    assert_eq!(ed.scroll_row, 3);
    press(&mut ed, &[Key::Char('g')]);
    ed.scroll_to_cursor(3);
    assert_eq!(ed.scroll_row, 0);
}
