use otask::app::{compose_message, App, AppAction, AppEvent, InputMode, Mode, Overlay};
use otask::commands::ProviderKind;
use otask::filetree::{DirItem, DirListing};
use otask::keys::{Key, KeyInput};

fn key(k: Key) -> KeyInput {
    KeyInput { key: k, ctrl: false }
}

fn ch(c: char) -> KeyInput {
    key(Key::Char(c))
}

fn ctrl(c: char) -> KeyInput {
    KeyInput { key: Key::Char(c), ctrl: true }
}

fn app() -> App {
    App::new("/work".to_string(), String::new())
}

fn no_dirs() -> Vec<DirListing> {
    Vec::new()
}

fn input(a: &App) -> String {
    a.input.iter().collect()
}

fn send(a: &mut App, k: KeyInput) -> AppAction {
    a.handle_key(k, 1000, &no_dirs())
}

fn type_line(a: &mut App, text: &str) -> AppAction {
    if a.input_mode == InputMode::Normal {
        send(a, ch('i'));
    }
    for c in text.chars() {
        send(a, ch(c));
    }
    send(a, key(Key::Enter))
}

#[test]
fn starts_in_edit_mode_at_the_bottom() {
    let a = app();
    assert_eq!(a.mode, Mode::Edit);
    assert_eq!(a.input_mode, InputMode::Normal);
    assert_eq!(a.overlay, Overlay::Closed);
    assert_eq!(a.scroll, usize::MAX);
    assert_eq!(a.model_picker_idx, 2);
    assert!(a.messages.is_empty());
}

#[test]
fn typing_edits_the_input_line() {
    let mut a = app();
    send(&mut a, ch('i'));
    for c in "helo".chars() {
        send(&mut a, ch(c));
    }
    send(&mut a, key(Key::Left));
    send(&mut a, ch('l'));
    assert_eq!(input(&a), "hello");
    assert_eq!(a.cursor_pos, 4);
    send(&mut a, key(Key::Home));
    send(&mut a, key(Key::Delete));
    assert_eq!(input(&a), "ello");
    send(&mut a, key(Key::End));
    send(&mut a, key(Key::Backspace));
    assert_eq!(input(&a), "ell");
    assert_eq!(a.cursor_pos, 3);
    send(&mut a, key(Key::Esc));
    assert_eq!(a.input_mode, InputMode::Normal);
}

#[test]
fn mention_then_cancel_gives_back_the_input() {
    let mut a = app();
    send(&mut a, ch('i'));
    send(&mut a, ch('a'));
    send(&mut a, ch('b'));
    send(&mut a, key(Key::Left));
    match send(&mut a, ch('@')) {
        AppAction::OpenPicker { at_pos } => assert_eq!(at_pos, Some(1)),
        _ => panic!("expected the picker"),
    }
    assert_eq!(input(&a), "a@b");
    a.open_file_picker(vec!["src/main.rs".to_string()], Some(1));
    assert_eq!(a.overlay, Overlay::FilePicker);
    send(&mut a, key(Key::Esc));
    assert_eq!(input(&a), "ab");
    assert_eq!(a.cursor_pos, 1);
    assert_eq!(a.overlay, Overlay::Closed);
    assert!(a.picker.is_none());
}

#[test]
fn mention_browse_then_cancel_gives_back_the_input() {
    let mut a = app();
    send(&mut a, ch('i'));
    send(&mut a, ch('x'));
    send(&mut a, ch('@'));
    a.open_file_picker(vec!["a.rs".to_string(), "b.rs".to_string()], Some(1));
    send(&mut a, key(Key::Down));
    send(&mut a, ch('b'));
    send(&mut a, key(Key::Up));
    assert_eq!(input(&a), "x@");
    a.close_picker_cancel();
    assert_eq!(input(&a), "x");
    assert_eq!(a.cursor_pos, 1);
    assert!(a.picker.is_none());
    assert_eq!(a.overlay, Overlay::Closed);
}

#[test]
fn mention_then_choose_attaches_the_file() {
    let mut a = app();
    send(&mut a, ch('i'));
    for c in "see ".chars() {
        send(&mut a, ch(c));
    }
    send(&mut a, ch('@'));
    a.open_file_picker(vec!["b.rs".to_string(), "a.rs".to_string()], Some(4));
    send(&mut a, key(Key::Enter));
    assert_eq!(input(&a), "see @a.rs ");
    assert_eq!(a.cursor_pos, 10);
    assert_eq!(a.attached_files, vec!["a.rs".to_string()]);
}

#[test]
fn the_picker_filters_as_the_query_is_typed() {
    let mut a = app();
    send(&mut a, ctrl('f'));
    a.open_file_picker(vec!["src/App.rs".to_string(), "README.md".to_string()], None);
    assert_eq!(a.input_mode, InputMode::Typing);
    send(&mut a, ch('a'));
    send(&mut a, ch('p'));
    let p = a.picker.as_ref().unwrap();
    assert_eq!(p.query, "ap");
    assert_eq!(p.filtered, vec!["src/App.rs".to_string()]);
    send(&mut a, key(Key::Backspace));
    send(&mut a, key(Key::Backspace));
    assert_eq!(a.picker.as_ref().unwrap().filtered.len(), 2);
    send(&mut a, key(Key::Backspace));
    assert!(a.picker.is_none());
    assert_eq!(a.overlay, Overlay::Closed);
}

#[test]
fn a_message_without_a_provider_is_refused() {
    let mut a = app();
    let act = type_line(&mut a, "  hello  ");
    let text = match act {
        AppAction::Send { text, files } => {
            assert!(files.is_empty());
            text
        }
        _ => panic!("expected a message"),
    };
    assert_eq!(text, "hello");
    assert_eq!(input(&a), "");
    assert_eq!(a.input_mode, InputMode::Normal);
    assert!(a.send_message(text, 5).is_none());
    assert_eq!(a.status, "no provider \u{2014} use /connect cerebras <key>");
    assert_eq!(a.status_flash, Some(5));
    assert!(a.messages.is_empty());
}

#[test]
fn connecting_and_sending() {
    let mut a = app();
    type_line(&mut a, "/connect cerebras sk-123");
    assert_eq!(a.cerebras_key, Some("sk-123".to_string()));
    assert_eq!(a.cerebras_model, Some("gpt-oss-120b".to_string()));
    assert_eq!(a.provider_name, Some("cerebras \u{b7} gpt-oss-120b".to_string()));
    assert_eq!(a.status, "connected \u{b7} gpt-oss-120b \u{2014} use /models to switch model");
    let req = a.send_message("hi".to_string(), 7).expect("a request");
    assert!(!req.plan);
    assert_eq!(req.api_key, "sk-123");
    assert_eq!(req.model, "gpt-oss-120b");
    assert!(req.system.starts_with("You are an expert AI coding assistant in EDIT mode. The user's working directory is: /work\n"));
    assert_eq!(req.history.len(), 1);
    assert_eq!(req.history[0].role, "user");
    assert_eq!(req.history[0].content, "hi");
    assert!(a.is_loading);
    a.receive(AppEvent::Response("hello!".to_string()));
    assert!(!a.is_loading);
    assert_eq!(a.messages[1].role, "assistant");
    send(&mut a, ch('p'));
    assert_eq!(a.status, "plan mode \u{2014} web search enabled");
    let req = a.send_message("next".to_string(), 8).expect("a request");
    assert!(req.plan);
    assert!(req.system.starts_with("You are an expert AI coding assistant in PLAN mode."));
    assert_eq!(req.history.len(), 3);
}

#[test]
fn errors_join_the_chat_but_not_the_conversation() {
    let mut a = app();
    type_line(&mut a, "/connect cerebras k");
    a.send_message("q".to_string(), 1);
    a.receive(AppEvent::Error("timeout".to_string()));
    assert_eq!(a.messages[1].role, "error");
    assert_eq!(a.messages[1].content, "Error: timeout");
    let req = a.send_message("again".to_string(), 2).unwrap();
    assert_eq!(req.history.len(), 2);
}

#[test]
fn connect_errors() {
    let mut a = app();
    type_line(&mut a, "/connect openai key");
    assert_eq!(a.status, "unknown provider 'openai' \u{2014} use cerebras, anthropic or codex");
    type_line(&mut a, "/connect");
    assert_eq!(a.status, "usage: /connect cerebras <api_key>");
    type_line(&mut a, "/connect cerebras");
    assert_eq!(a.status, "unknown provider 'cerebras' \u{2014} use cerebras, anthropic or codex");
    type_line(&mut a, "/frobnicate now");
    assert_eq!(a.status, "unknown command: '/frobnicate now'");
    assert!(a.provider.is_none());
}

#[test]
fn help_opens_the_command_palette() {
    let mut a = app();
    type_line(&mut a, "/help");
    assert_eq!(a.overlay, Overlay::CommandPalette);
    assert_eq!(a.palette_scroll, 0);
}

#[test]
fn b_and_e_switch_to_edit_mode() {
    let mut a = app();
    send(&mut a, ch('p'));
    assert_eq!(a.mode, Mode::Plan);
    send(&mut a, ch('b'));
    assert_eq!(a.mode, Mode::Edit);
    assert_eq!(a.status, "edit mode");
    send(&mut a, ch('p'));
    send(&mut a, ch('e'));
    assert_eq!(a.mode, Mode::Edit);
}

#[test]
fn connecting_cerebras_with_a_model() {
    let mut a = app();
    type_line(&mut a, "/connect cerebras k7 llama3.1-8b");
    assert_eq!(a.provider, Some(ProviderKind::Cerebras));
    assert_eq!(a.cerebras_key, Some("k7".to_string()));
    assert_eq!(a.cerebras_model, Some("llama3.1-8b".to_string()));
    assert_eq!(a.provider_name, Some("cerebras \u{b7} llama3.1-8b".to_string()));
    let req = a.send_message("hi".to_string(), 3).unwrap();
    assert_eq!(req.provider, ProviderKind::Cerebras);
    assert_eq!(req.model, "llama3.1-8b");
}

#[test]
fn connecting_anthropic_and_codex() {
    let mut a = app();
    type_line(&mut a, "/connect anthropic ak");
    assert_eq!(a.provider, None);
    assert_eq!(a.status, "usage: /connect anthropic <api_key> <model>");
    type_line(&mut a, "/connect anthropic ak2 some-model");
    assert_eq!(a.provider, Some(ProviderKind::Anthropic));
    assert_eq!(a.provider_name, Some("anthropic \u{b7} some-model".to_string()));
    assert_eq!(a.status, "connected \u{b7} anthropic \u{b7} some-model");
    assert_eq!(a.cerebras_key, None);
    let req = a.send_message("m".to_string(), 3).unwrap();
    assert_eq!(req.provider, ProviderKind::Anthropic);
    assert_eq!(req.api_key, "ak2");
    assert_eq!(req.model, "some-model");
    type_line(&mut a, "/connect codex ok");
    assert_eq!(a.provider, Some(ProviderKind::Codex));
    assert_eq!(a.provider_name, Some("codex \u{b7} gpt-4o".to_string()));
    let req = a.send_message("again".to_string(), 4).unwrap();
    assert_eq!(req.provider, ProviderKind::Codex);
    assert_eq!(req.api_key, "ok");
    assert_eq!(req.model, "gpt-4o");
}

#[test]
fn picking_a_model() {
    let mut a = app();
    type_line(&mut a, "/connect cerebras k");
    type_line(&mut a, "/models");
    assert_eq!(a.overlay, Overlay::ModelPicker);
    assert_eq!(a.model_picker_idx, 2);
    send(&mut a, ch('j'));
    send(&mut a, ch('j'));
    assert_eq!(a.model_picker_idx, 3);
    send(&mut a, key(Key::Enter));
    assert_eq!(a.cerebras_model, Some("llama3.1-8b".to_string()));
    assert_eq!(a.provider_name, Some("cerebras \u{b7} llama3.1-8b".to_string()));
    assert_eq!(a.status, "model \u{2192} llama3.1-8b");
    assert_eq!(a.overlay, Overlay::Closed);
    type_line(&mut a, "/model");
    assert_eq!(a.model_picker_idx, 3);
    send(&mut a, key(Key::Up));
    send(&mut a, key(Key::Esc));
    assert_eq!(a.model_picker_idx, 2);
    assert_eq!(a.cerebras_model, Some("llama3.1-8b".to_string()));
}

#[test]
fn exa_and_new_session() {
    let mut a = app();
    type_line(&mut a, "/exa secret");
    assert_eq!(a.exa_key, "secret");
    assert_eq!(a.status, "exa api key updated");
    a.receive(AppEvent::Response("x".to_string()));
    type_line(&mut a, "/new");
    assert!(a.messages.is_empty());
    assert_eq!(a.status, "new session started");
    send(&mut a, ctrl('n'));
    assert_eq!(a.status, "new session started");
}

#[test]
fn the_response_count_stops_at_its_limit() {
    let mut a = app();
    a.receive(AppEvent::Response("r".to_string()));
    a.save_count = usize::MAX;
    match send(&mut a, ch('s')) {
        AppAction::SaveResponse { filename, .. } => assert_eq!(filename, format!("response_{}.md", usize::MAX)),
        _ => panic!("expected a save"),
    }
    assert_eq!(a.save_count, usize::MAX);
    send(&mut a, ch('j'));
    assert_eq!(a.save_count, usize::MAX);
}

#[test]
fn save_and_copy_the_last_reply() {
    let mut a = app();
    send(&mut a, ch('s'));
    assert_eq!(a.status, "no response to save yet");
    send(&mut a, ch('y'));
    assert_eq!(a.status, "no response to copy yet");
    a.receive(AppEvent::Response("first".to_string()));
    a.receive(AppEvent::Response("second".to_string()));
    match send(&mut a, ch('s')) {
        AppAction::SaveResponse { filename, content } => {
            assert_eq!(filename, "response_1.md");
            assert_eq!(content, "second");
            a.finish_save(&filename, Ok(()), 9);
        }
        _ => panic!("expected a save"),
    }
    assert_eq!(a.status, "saved \u{2192} response_1.md");
    match send(&mut a, ch('y')) {
        AppAction::Yank { content } => assert_eq!(content, "second"),
        _ => panic!("expected a copy"),
    }
    a.finish_yank(true, 10);
    assert_eq!(a.status, "copied to clipboard");
    let f = a.finish_yank(false, 11).unwrap();
    assert_eq!(f, "response_2.md");
    a.finish_yank_save(&f, Err("disk full".to_string()), 11);
    assert_eq!(a.status, "copy failed: disk full");
    a.finish_yank_save(&f, Ok(()), 12);
    assert_eq!(a.status, "clipboard unavailable \u{2192} saved to response_2.md");
    a.finish_save("response_3.md", Err("denied".to_string()), 13);
    assert_eq!(a.status, "save failed: denied");
}

#[test]
fn attachments_are_sent_with_their_paths() {
    let mut a = app();
    a.attached_files = vec!["src/".to_string(), "a.rs".to_string()];
    match type_line(&mut a, "explain") {
        AppAction::Send { text, files } => {
            assert_eq!(text, "explain");
            assert_eq!(files, vec![("a.rs".to_string(), "/work/a.rs".to_string())]);
        }
        _ => panic!("expected a message"),
    }
    assert!(a.attached_files.is_empty());
}

#[test]
fn composing_a_message_with_files() {
    let files = vec![
        ("a.rs".to_string(), Some("fn a() {}".to_string())),
        ("gone.rs".to_string(), None),
    ];
    assert_eq!(
        compose_message("look", &files),
        "look\n\n--- File: a.rs ---\nfn a() {}\n--- End of a.rs ---"
    );
    assert_eq!(compose_message("plain", &Vec::new()), "plain");
}

#[test]
fn the_status_goes_after_three_seconds() {
    let mut a = app();
    a.flash_status("hello".to_string(), 1000);
    a.tick_flash(4000);
    assert_eq!(a.status, "hello");
    a.tick_flash(4001);
    assert_eq!(a.status, "");
    assert_eq!(a.status_flash, None);
}

#[test]
fn scrolling_down_then_up_comes_back() {
    let mut a = app();
    a.bottom_hint = 10;
    send(&mut a, ch('j'));
    assert_eq!(a.scroll, 13);
    send(&mut a, ch('k'));
    assert_eq!(a.scroll, 10);
    send(&mut a, key(Key::Up));
    send(&mut a, key(Key::Up));
    send(&mut a, key(Key::Up));
    send(&mut a, key(Key::Up));
    assert_eq!(a.scroll, 0);
    a.handle_wheel(true);
    assert_eq!(a.scroll, 3);
}

#[test]
fn the_palette_opens_scrolls_and_closes() {
    let mut a = app();
    send(&mut a, ctrl('k'));
    assert_eq!(a.overlay, Overlay::CommandPalette);
    send(&mut a, ch('j'));
    send(&mut a, ch('j'));
    send(&mut a, ch('k'));
    assert_eq!(a.palette_scroll, 1);
    a.handle_wheel(false);
    a.handle_wheel(false);
    assert_eq!(a.palette_scroll, 0);
    send(&mut a, ctrl('k'));
    assert_eq!(a.overlay, Overlay::Closed);
}

#[test]
fn quitting() {
    let mut a = app();
    assert!(matches!(send(&mut a, ctrl('c')), AppAction::Quit));
    assert!(matches!(send(&mut a, ch('q')), AppAction::Quit));
    send(&mut a, ch('i'));
    assert!(matches!(send(&mut a, ch('q')), AppAction::Nothing));
    assert_eq!(input(&a), "q");
}

fn root_listing() -> Vec<DirListing> {
    vec![DirListing {
        path: "/work".to_string(),
        items: vec![
            DirItem { name: "main.rs".to_string(), is_dir: false },
            DirItem { name: "src".to_string(), is_dir: true },
        ],
    }]
}

#[test]
fn opening_the_editor_from_the_prompt() {
    let mut a = app();
    send(&mut a, ctrl('v'));
    assert_eq!(a.overlay, Overlay::FileOpen);
    for c in " new ".chars() {
        send(&mut a, ch(c));
    }
    match send(&mut a, key(Key::Enter)) {
        AppAction::OpenEditor { file, new_tree } => {
            assert_eq!(file, None);
            assert!(new_tree);
        }
        _ => panic!("expected the editor"),
    }
    assert_eq!(a.overlay, Overlay::Closed);
    a.open_editor(None, None, true, &root_listing());
    assert!(a.editor.is_some());
    let tree = a.tree.as_ref().unwrap();
    assert_eq!(tree.visible[0].name, "src");
    assert_eq!(tree.visible[1].path, "/work/main.rs");
    assert!(!a.tree_focused);
    a.handle_key(key(Key::Tab), 0, &root_listing());
    assert!(a.tree_focused);
    a.handle_key(ch('j'), 0, &root_listing());
    match a.handle_key(key(Key::Enter), 0, &root_listing()) {
        AppAction::OpenEditor { file, new_tree } => {
            assert_eq!(file, Some("/work/main.rs".to_string()));
            assert!(!new_tree);
        }
        _ => panic!("expected the file"),
    }
    a.handle_key(ctrl('e'), 0, &root_listing());
    assert!(a.tree.is_none());
    assert!(!a.tree_focused);
}

#[test]
fn the_editor_takes_keys_and_quits() {
    let mut a = app();
    match type_line(&mut a, "/edit notes.md") {
        AppAction::OpenEditor { file, new_tree } => {
            assert_eq!(file, Some("notes.md".to_string()));
            assert!(new_tree);
        }
        _ => panic!("expected the editor"),
    }
    a.open_editor(Some("notes.md".to_string()), Some("x".to_string()), true, &root_listing());
    for c in ":wq".chars() {
        a.handle_key(ch(c), 0, &root_listing());
    }
    match a.handle_key(key(Key::Enter), 0, &root_listing()) {
        AppAction::EditorWrite { path, content, quit_after } => {
            assert_eq!(path, "notes.md");
            assert_eq!(content, "x");
            assert!(quit_after);
        }
        _ => panic!("expected a write"),
    }
    a.finish_editor_write(Ok(()), true);
    assert!(a.editor.is_none());
    assert!(a.tree.is_none());
}

#[test]
fn a_new_session_keeps_the_connection() {
    let mut a = app();
    type_line(&mut a, "/connect cerebras k9");
    a.send_message("hello".to_string(), 1);
    a.receive(AppEvent::Response("hi".to_string()));
    send(&mut a, ctrl('n'));
    assert!(a.messages.is_empty());
    assert_eq!(a.cerebras_key, Some("k9".to_string()));
    assert_eq!(a.cerebras_model, Some("gpt-oss-120b".to_string()));
    assert_eq!(a.provider_name, Some("cerebras \u{b7} gpt-oss-120b".to_string()));
    let req = a.send_message("again".to_string(), 2).unwrap();
    assert_eq!(req.history.len(), 1);
}

#[test]
fn connecting_keeps_the_picked_model() {
    let mut a = app();
    type_line(&mut a, "/models");
    send(&mut a, key(Key::Up));
    send(&mut a, key(Key::Enter));
    assert_eq!(a.provider_name, None);
    assert_eq!(a.status, "model \u{2192} qwen-3-235b-a22b-instruct-2507");
    type_line(&mut a, "/connect cerebras k");
    assert_eq!(a.cerebras_model, Some("qwen-3-235b-a22b-instruct-2507".to_string()));
    assert_eq!(a.provider_name, Some("cerebras \u{b7} qwen-3-235b-a22b-instruct-2507".to_string()));
}
