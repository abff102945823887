//! The assistant's screen state and what each key, command and reply does
//! to it. What needs the outside world (the terminal, files, the clipboard,
//! the network, the clock) is asked of the caller through `AppAction`s, and
//! the clock is read by the caller and handed in as milliseconds.
use vstd::prelude::*;
use crate::chat::{edit_system_prompt, plan_system_prompt, Message};
use crate::chat;
use crate::commands::{parse_command, Command, CommandView, ProviderKind};
use crate::commands;
use crate::editor::{CommandStep, EditorAction, EditorMode, EditorState, EditorView, StepView};
use crate::editor;
use crate::filepicker::{scan_files, FilePicker, PickerView};
use crate::filetree::{DirListing, FileTree, TreeView};
use crate::filetree;
use crate::order;
use crate::keys::{Key, KeyInput};
use crate::order::strings_view;
use crate::text::{chars_eq, chars_of, push_all, push_decimal, push_str, string_of, trim_chars};
use crate::text;

verus! {

#[derive(Debug, Clone, Copy, PartialEq, Eq, Structural)]
pub enum Mode {
    Plan,
    Edit,
}

impl Mode {
    /// How the mode is shown.
    pub fn label(&self) -> (r: &'static str)
        ensures
            r@ == match *self {
                Mode::Plan => "plan"@,
                Mode::Edit => "edit"@,
            },
    {
        match self {
            Mode::Plan => "plan",
            Mode::Edit => "edit",
        }
    }
}

#[derive(Debug, Clone, Copy, PartialEq, Eq, Structural)]
pub enum InputMode {
    Normal,
    Typing,
}

/// The panel shown over the chat, if any.
#[derive(Debug, Clone, Copy, PartialEq, Eq, Structural)]
pub enum Overlay {
    Closed,
    CommandPalette,
    FileOpen,
    FilePicker,
    ModelPicker,
}

pub struct ChatMessage {
    pub role: String,
    pub content: String,
}

/// What comes back from a request to the model.
pub enum AppEvent {
    Response(String),
    Error(String),
}

/// The ids of the models that can be picked, in the picker's order.
pub open spec fn model_ids() -> Seq<Seq<char>> {
    seq!["zai-glm-4.7"@, "qwen-3-235b-a22b-instruct-2507"@, "gpt-oss-120b"@, "llama3.1-8b"@]
}

/// The model a service other than Cerebras is asked with when `/connect`
/// names none: `gpt-4o` for Codex; Anthropic has none, so its model must be
/// named.
pub open spec fn default_model(k: ProviderKind) -> Option<Seq<char>> {
    match k {
        ProviderKind::Codex => Some("gpt-4o"@),
        _ => None,
    }
}

/// How a connection is shown: the service, then its model.
pub open spec fn connection_name(k: ProviderKind, model: Seq<char>) -> Seq<char> {
    provider_word(k) + " \u{b7} "@ + model
}

/// The answer to `/connect` for a service with no default model and none
/// named.
pub open spec fn model_usage(k: ProviderKind) -> Seq<char> {
    "usage: /connect "@ + provider_word(k) + " <api_key> <model>"@
}

/// The word a service is named by.
pub open spec fn provider_word(k: ProviderKind) -> Seq<char> {
    match k {
        ProviderKind::Cerebras => "cerebras"@,
        ProviderKind::Anthropic => "anthropic"@,
        ProviderKind::Codex => "codex"@,
    }
}

fn default_model_exec(k: ProviderKind) -> (r: Option<String>)
    ensures
        editor::opt_view(r) == default_model(k),
{
    match k {
        ProviderKind::Codex => Some(String::from_str("gpt-4o")),
        _ => None,
    }
}

fn provider_word_exec(k: ProviderKind) -> (r: &'static str)
    ensures
        r@ == provider_word(k),
{
    match k {
        ProviderKind::Cerebras => "cerebras",
        ProviderKind::Anthropic => "anthropic",
        ProviderKind::Codex => "codex",
    }
}

/// The number of models that can be picked.
pub fn model_count() -> (r: usize)
    ensures
        r == model_ids().len(),
{
    4
}

/// The id of the `i`-th model.
pub fn model_id(i: usize) -> (r: &'static str)
    requires
        i < model_ids().len(),
    ensures
        r@ == model_ids()[i as int],
{
    if i == 0 {
        "zai-glm-4.7"
    } else if i == 1 {
        "qwen-3-235b-a22b-instruct-2507"
    } else if i == 2 {
        "gpt-oss-120b"
    } else {
        "llama3.1-8b"
    }
}

/// How the `i`-th model is shown in the picker.
pub fn model_label(i: usize) -> (r: &'static str)
    requires
        i < model_ids().len(),
    ensures
        r@ == seq!["GLM-4.7  \u{b7}  ZhipuAI"@, "Qwen-3 235B  \u{b7}  Alibaba"@, "GPT-OSS 120B  \u{b7}  default"@,
            "Llama 3.1 8B  \u{b7}  Meta"@][i as int],
{
    if i == 0 {
        "GLM-4.7  \u{b7}  ZhipuAI"
    } else if i == 1 {
        "Qwen-3 235B  \u{b7}  Alibaba"
    } else if i == 2 {
        "GPT-OSS 120B  \u{b7}  default"
    } else {
        "Llama 3.1 8B  \u{b7}  Meta"
    }
}

pub struct App {
    pub mode: Mode,
    pub input_mode: InputMode,
    pub overlay: Overlay,
    pub input: Vec<char>,
    pub messages: Vec<ChatMessage>,
    pub provider_name: Option<String>,
    /// The connected service and its key.
    pub provider: Option<ProviderKind>,
    pub provider_key: Option<String>,
    /// The model of a connected service other than Cerebras.
    pub provider_model: Option<String>,
    pub cerebras_key: Option<String>,
    pub cerebras_model: Option<String>,
    pub exa_key: String,
    pub status: String,
    /// When the status was flashed (milliseconds), while it is shown.
    pub status_flash: Option<u64>,
    /// The chat's scroll offset; `usize::MAX` keeps it at the bottom.
    pub scroll: usize,
    pub is_loading: bool,
    pub should_quit: bool,
    pub cursor_pos: usize,
    pub save_count: usize,
    pub focused_msg: Option<usize>,
    pub palette_scroll: usize,
    pub editor: Option<EditorState>,
    pub file_open_buf: Vec<char>,
    pub tree: Option<FileTree>,
    pub tree_focused: bool,
    /// The working directory, given to every file tool.
    pub cwd: String,
    /// The offset of the chat's bottom, as last drawn.
    pub bottom_hint: usize,
    pub picker: Option<FilePicker>,
    /// Files attached with `@`, whose text goes with the next message.
    pub attached_files: Vec<String>,
    pub model_picker_idx: usize,
}

/// The screen state, abstractly.
pub struct AppView {
    pub mode: Mode,
    pub input_mode: InputMode,
    pub overlay: Overlay,
    pub input: Seq<char>,
    pub messages: Seq<(Seq<char>, Seq<char>)>,
    pub provider_name: Option<Seq<char>>,
    pub provider: Option<ProviderKind>,
    pub provider_key: Option<Seq<char>>,
    pub provider_model: Option<Seq<char>>,
    pub cerebras_key: Option<Seq<char>>,
    pub cerebras_model: Option<Seq<char>>,
    pub exa_key: Seq<char>,
    pub status: Seq<char>,
    pub status_flash: Option<u64>,
    pub scroll: int,
    pub is_loading: bool,
    pub should_quit: bool,
    pub cursor_pos: int,
    pub save_count: int,
    pub focused_msg: Option<usize>,
    pub palette_scroll: int,
    pub editor: Option<EditorView>,
    pub file_open_buf: Seq<char>,
    pub tree: Option<TreeView>,
    pub tree_focused: bool,
    pub cwd: Seq<char>,
    pub bottom_hint: int,
    pub picker: Option<PickerView>,
    pub attached_files: Seq<Seq<char>>,
    pub model_picker_idx: int,
}

pub open spec fn messages_view(v: Seq<ChatMessage>) -> Seq<(Seq<char>, Seq<char>)> {
    v.map_values(|m: ChatMessage| (m.role@, m.content@))
}

pub open spec fn editor_view(e: Option<EditorState>) -> Option<EditorView> {
    match e {
        Some(e) => Some(e@),
        None => None,
    }
}

pub open spec fn tree_view(t: Option<FileTree>) -> Option<TreeView> {
    match t {
        Some(t) => Some(t@),
        None => None,
    }
}

pub open spec fn picker_view(p: Option<FilePicker>) -> Option<PickerView> {
    match p {
        Some(p) => Some(p@),
        None => None,
    }
}

impl View for App {
    type V = AppView;

    open spec fn view(&self) -> AppView {
        AppView {
            mode: self.mode,
            input_mode: self.input_mode,
            overlay: self.overlay,
            input: self.input@,
            messages: messages_view(self.messages@),
            provider_name: editor::opt_view(self.provider_name),
            provider: self.provider,
            provider_key: editor::opt_view(self.provider_key),
            provider_model: editor::opt_view(self.provider_model),
            cerebras_key: editor::opt_view(self.cerebras_key),
            cerebras_model: editor::opt_view(self.cerebras_model),
            exa_key: self.exa_key@,
            status: self.status@,
            status_flash: self.status_flash,
            scroll: self.scroll as int,
            is_loading: self.is_loading,
            should_quit: self.should_quit,
            cursor_pos: self.cursor_pos as int,
            save_count: self.save_count as int,
            focused_msg: self.focused_msg,
            palette_scroll: self.palette_scroll as int,
            editor: editor_view(self.editor),
            file_open_buf: self.file_open_buf@,
            tree: tree_view(self.tree),
            tree_focused: self.tree_focused,
            cwd: self.cwd@,
            bottom_hint: self.bottom_hint as int,
            picker: picker_view(self.picker),
            attached_files: strings_view(self.attached_files@),
            model_picker_idx: self.model_picker_idx as int,
        }
    }
}

impl AppView {
    /// The cursor is within the input, an open editor is well formed, the
    /// file picker is open only as the file-picker panel (and its `@` is in
    /// the input), a focused message exists, and the picked model is one of
    /// the models.
    pub open spec fn wf(self) -> bool {
        &&& 0 <= self.cursor_pos <= self.input.len()
        &&& (self.editor matches Some(e) ==> e.wf())
        &&& (self.picker matches Some(p) ==> self.overlay == Overlay::FilePicker
            && (p.at_pos matches Some(a) ==> a < self.input.len()))
        &&& (self.focused_msg matches Some(i) ==> i < self.messages.len())
        &&& 0 <= self.model_picker_idx < model_ids().len()
        &&& (self.cerebras_key is Some ==> self.cerebras_model is Some)
        &&& (self.provider is Some <==> self.provider_key is Some)
        &&& (self.provider == Some(ProviderKind::Cerebras) ==> self.cerebras_model is Some)
        &&& (self.provider is Some && self.provider != Some(ProviderKind::Cerebras) ==> self.provider_model is Some)
    }

    /// The model the connected service is asked with: the picked model for
    /// Cerebras, the fixed one for the others.
    pub open spec fn connected_model(self) -> Seq<char> {
        match self.provider {
            Some(ProviderKind::Cerebras) => match self.cerebras_model {
                Some(m) => m,
                None => Seq::empty(),
            },
            Some(_) => match self.provider_model {
                Some(m) => m,
                None => Seq::empty(),
            },
            None => Seq::empty(),
        }
    }

    pub open spec fn flashed(self, msg: Seq<char>, now: u64) -> AppView {
        AppView { status: msg, status_flash: Some(now), ..self }
    }

    /// The status after time `now`: a flashed status goes after three seconds.
    pub open spec fn ticked(self, now: u64) -> AppView {
        match self.status_flash {
            Some(t) => if now - t > 3000 { AppView { status_flash: None, status: Seq::empty(), ..self } } else { self },
            None => self,
        }
    }

    /// Where scrolling starts from: the bottom when the chat follows it.
    pub open spec fn scroll_from(self) -> int {
        if self.scroll == usize::MAX { self.bottom_hint } else { self.scroll }
    }

    pub open spec fn scrolled_down(self, amount: int) -> AppView {
        let s = self.scroll_from() + amount;
        AppView { scroll: if s > usize::MAX { usize::MAX as int } else { s }, ..self }
    }

    pub open spec fn scrolled_up(self, amount: int) -> AppView {
        let s = self.scroll_from() - amount;
        AppView { scroll: if s < 0 { 0 } else { s }, ..self }
    }

    pub open spec fn new_session(self, now: u64) -> AppView {
        AppView {
            messages: Seq::empty(),
            input: Seq::empty(),
            cursor_pos: 0,
            scroll: usize::MAX as int,
            focused_msg: None,
            is_loading: false,
            input_mode: InputMode::Normal,
            overlay: Overlay::Closed,
            ..self
        }.flashed("new session started"@, now)
    }

    /// A reply of the model is shown, and the chat follows the bottom.
    pub open spec fn received(self, role: Seq<char>, content: Seq<char>) -> AppView {
        AppView {
            is_loading: false,
            messages: self.messages.push((role, content)),
            scroll: usize::MAX as int,
            ..self
        }
    }
}

impl App {
    pub open spec fn wf(&self) -> bool {
        self@.wf()
    }

    /// The state at start: edit mode, no provider, nothing typed, the chat
    /// at its bottom, the third model picked.
    pub fn new(cwd: String, exa_key: String) -> (r: Self)
        ensures
            r.wf(),
            r@.mode == Mode::Edit,
            r@.input_mode == InputMode::Normal,
            r@.overlay == Overlay::Closed,
            r@.input.len() == 0,
            r@.messages.len() == 0,
            r@.provider_name is None,
            r@.provider is None,
            r@.provider_key is None,
            r@.provider_model is None,
            r@.cerebras_key is None,
            r@.cerebras_model is None,
            r@.exa_key == exa_key@,
            r@.status.len() == 0,
            r@.status_flash is None,
            r@.scroll == usize::MAX,
            !r@.is_loading,
            !r@.should_quit,
            r@.cursor_pos == 0,
            r@.save_count == 0,
            r@.focused_msg is None,
            r@.palette_scroll == 0,
            r@.editor is None,
            r@.file_open_buf.len() == 0,
            r@.tree is None,
            !r@.tree_focused,
            r@.cwd == cwd@,
            r@.bottom_hint == 0,
            r@.picker is None,
            r@.attached_files.len() == 0,
            r@.model_picker_idx == 2,
    {
        App {
            mode: Mode::Edit,
            input_mode: InputMode::Normal,
            overlay: Overlay::Closed,
            input: Vec::new(),
            messages: Vec::new(),
            provider_name: None,
            provider: None,
            provider_key: None,
            provider_model: None,
            cerebras_key: None,
            cerebras_model: None,
            exa_key,
            status: String::new(),
            status_flash: None,
            scroll: usize::MAX,
            is_loading: false,
            should_quit: false,
            cursor_pos: 0,
            save_count: 0,
            focused_msg: None,
            palette_scroll: 0,
            editor: None,
            file_open_buf: Vec::new(),
            tree: None,
            tree_focused: false,
            cwd,
            bottom_hint: 0,
            picker: None,
            attached_files: Vec::new(),
            model_picker_idx: 2,
        }
    }

    /// Shows `msg` in the status line, from `now` on.
    pub fn flash_status(&mut self, msg: String, now: u64)
        ensures
            final(self)@ == old(self)@.flashed(msg@, now),
            old(self).wf() ==> final(self).wf(),
    {
        self.status = msg;
        self.status_flash = Some(now);
    }

    /// Clears a flashed status once three seconds have passed.
    pub fn tick_flash(&mut self, now: u64)
        ensures
            final(self)@ == old(self)@.ticked(now),
            old(self).wf() ==> final(self).wf(),
    {
        if let Some(t) = self.status_flash {
            if now > t && now - t > 3000 {
                self.status_flash = None;
                self.status = String::new();
            }
        }
    }

    pub fn scroll_down(&mut self, amount: usize)
        ensures
            final(self)@ == old(self)@.scrolled_down(amount as int),
            old(self).wf() ==> final(self).wf(),
    {
        let from = if self.scroll == usize::MAX { self.bottom_hint } else { self.scroll };
        self.scroll = from.saturating_add(amount);
    }

    pub fn scroll_up(&mut self, amount: usize)
        ensures
            final(self)@ == old(self)@.scrolled_up(amount as int),
            old(self).wf() ==> final(self).wf(),
    {
        let from = if self.scroll == usize::MAX { self.bottom_hint } else { self.scroll };
        self.scroll = from.saturating_sub(amount);
    }

    pub fn scroll_to_bottom(&mut self)
        ensures
            final(self)@ == (AppView { scroll: usize::MAX as int, ..old(self)@ }),
            old(self).wf() ==> final(self).wf(),
    {
        self.scroll = usize::MAX;
    }

    /// Clears the conversation and the input.
    pub fn new_session(&mut self, now: u64)
        ensures
            final(self)@ == old(self)@.new_session(now),
            old(self).wf() && old(self)@.picker is None ==> final(self).wf(),
    {
        self.messages = Vec::new();
        self.input = Vec::new();
        self.cursor_pos = 0;
        self.scroll = usize::MAX;
        self.focused_msg = None;
        self.is_loading = false;
        self.input_mode = InputMode::Normal;
        self.overlay = Overlay::Closed;
        assert(messages_view(self.messages@) =~= Seq::<(Seq<char>, Seq<char>)>::empty());
        self.flash_status(String::from_str("new session started"), now);
    }

    /// Shows what came back from the model: its answer, or the error.
    pub fn receive(&mut self, evt: AppEvent)
        ensures
            final(self)@ == match evt {
                AppEvent::Response(c) => old(self)@.received("assistant"@, c@),
                AppEvent::Error(e) => old(self)@.received("error"@, "Error: "@ + e@),
            },
            old(self).wf() ==> final(self).wf(),
    {
        self.is_loading = false;
        let ghost before = messages_view(self.messages@);
        let m = match evt {
            AppEvent::Response(content) => ChatMessage { role: String::from_str("assistant"), content },
            AppEvent::Error(err) => {
                let mut c: Vec<char> = Vec::new();
                push_str(&mut c, "Error: ");
                push_str(&mut c, err.as_str());
                ChatMessage { role: String::from_str("error"), content: string_of(&c) }
            },
        };
        let ghost mv = (m.role@, m.content@);
        self.messages.push(m);
        assert(messages_view(self.messages@) =~= before.push(mv));
        self.scroll_to_bottom();
    }
}

/// What the caller is asked to do after a key, a command or a reply.
pub enum AppAction {
    Nothing,
    /// Leave the program.
    Quit,
    /// Open `file` in the editor (an empty buffer when `None`): read it and
    /// call `open_editor`, with a fresh tree when `new_tree`.
    OpenEditor { file: Option<String>, new_tree: bool },
    /// Write `content` to `path` for the editor, then call `finish_editor_write`.
    EditorWrite { path: String, content: String, quit_after: bool },
    /// Write `content` to the file `filename`, then call `finish_save`.
    SaveResponse { filename: String, content: String },
    /// Put `content` on the clipboard, then call `finish_yank`.
    Yank { content: String },
    /// List the working directory's files and call `open_file_picker`.
    OpenPicker { at_pos: Option<usize> },
    /// Read each attached file (its name and its full path), and call
    /// `send_message` with what `compose_message` makes of `text` and them.
    Send { text: String, files: Vec<(String, String)> },
}

/// An action, abstractly.
pub enum ActionView {
    Nothing,
    Quit,
    OpenEditor { file: Option<Seq<char>>, new_tree: bool },
    EditorWrite { path: Seq<char>, content: Seq<char>, quit_after: bool },
    SaveResponse { filename: Seq<char>, content: Seq<char> },
    Yank { content: Seq<char> },
    OpenPicker { at_pos: Option<usize> },
    Send { text: Seq<char>, files: Seq<(Seq<char>, Seq<char>)> },
}

pub open spec fn pairs_view(v: Seq<(String, String)>) -> Seq<(Seq<char>, Seq<char>)> {
    v.map_values(|f: (String, String)| (f.0@, f.1@))
}

impl View for AppAction {
    type V = ActionView;

    open spec fn view(&self) -> ActionView {
        match self {
            AppAction::Nothing => ActionView::Nothing,
            AppAction::Quit => ActionView::Quit,
            AppAction::OpenEditor { file, new_tree } => ActionView::OpenEditor {
                file: editor::opt_view(*file),
                new_tree: *new_tree,
            },
            AppAction::EditorWrite { path, content, quit_after } => ActionView::EditorWrite {
                path: path@,
                content: content@,
                quit_after: *quit_after,
            },
            AppAction::SaveResponse { filename, content } => ActionView::SaveResponse {
                filename: filename@,
                content: content@,
            },
            AppAction::Yank { content } => ActionView::Yank { content: content@ },
            AppAction::OpenPicker { at_pos } => ActionView::OpenPicker { at_pos: *at_pos },
            AppAction::Send { text, files } => ActionView::Send { text: text@, files: pairs_view(files@) },
        }
    }
}

impl AppView {
    /// The picker closed without a choice: the `@` that opened it goes.
    pub open spec fn picker_cancelled(self) -> AppView {
        let s = match self.picker {
            Some(p) => match p.at_pos {
                Some(pos) => if pos < self.input.len() {
                    AppView { input: self.input.remove(pos as int), cursor_pos: pos as int, ..self }
                } else {
                    self
                },
                None => self,
            },
            None => self,
        };
        AppView { picker: None, overlay: Overlay::Closed, ..s }
    }

    /// The picker closed on its selected file, which is mentioned in the
    /// input (in place of the `@` that opened the picker) and attached.
    pub open spec fn picker_chosen(self) -> AppView {
        let closed = AppView { picker: None, overlay: Overlay::Closed, ..self };
        match self.picker {
            None => closed,
            Some(p) => match p.current() {
                None => closed,
                Some(f) => {
                    let ins = seq!['@'] + f + seq![' '];
                    let pos: int = match p.at_pos {
                        Some(a) => a as int,
                        None => self.cursor_pos,
                    };
                    let base = if p.at_pos is Some && pos < self.input.len() {
                        self.input.remove(pos)
                    } else {
                        self.input
                    };
                    AppView {
                        input: base.take(pos) + ins + base.skip(pos),
                        cursor_pos: pos + ins.len(),
                        attached_files: self.attached_files.push(f),
                        ..closed
                    }
                },
            },
        }
    }

    /// A character typed into the picker's query.
    pub open spec fn picker_typed(self, c: char) -> AppView {
        match self.picker {
            Some(p) => AppView { picker: Some(p.filtered_by(p.query.push(c))), ..self },
            None => self,
        }
    }

    /// Backspace in the picker: the query's last character goes, or the
    /// picker closes when the query is empty.
    pub open spec fn picker_erased(self) -> AppView {
        match self.picker {
            Some(p) => if p.query.len() == 0 {
                self.picker_cancelled()
            } else {
                AppView { picker: Some(p.filtered_by(p.query.drop_last())), ..self }
            },
            None => self.picker_cancelled(),
        }
    }

    /// A key pressed while the file picker is shown.
    pub open spec fn file_picker_key(self, key: Key) -> AppView {
        match key {
            Key::Esc => self.picker_cancelled(),
            Key::Up => match self.picker {
                Some(p) => AppView { picker: Some(p.moved_up()), ..self },
                None => self,
            },
            Key::Down => match self.picker {
                Some(p) => AppView { picker: Some(p.moved_down()), ..self },
                None => self,
            },
            Key::Enter => self.picker_chosen(),
            Key::Backspace => self.picker_erased(),
            Key::Char(c) => self.picker_typed(c),
            _ => self,
        }
    }

    /// The picker opened on `files`, remembering where its `@` is.
    pub open spec fn picker_opened(self, files: Seq<Seq<char>>, at_pos: Option<usize>) -> AppView {
        AppView {
            picker: Some(PickerView { files, filtered: files, selected: 0, query: Seq::empty(), at_pos }),
            overlay: Overlay::FilePicker,
            input_mode: InputMode::Typing,
            ..self
        }
    }
}

/// `v` with `ins` put in at `pos`.
fn splice(v: &Vec<char>, pos: usize, ins: &Vec<char>) -> (r: Vec<char>)
    requires
        pos <= v.len(),
    ensures
        r@ == v@.take(pos as int) + ins@ + v@.skip(pos as int),
{
    let mut out: Vec<char> = Vec::new();
    let mut i: usize = 0;
    while i < pos
        invariant
            i <= pos <= v.len(),
            out@ == v@.take(i as int),
        decreases pos - i,
    {
        out.push(v[i]);
        assert(v@.take(i + 1) =~= v@.take(i as int).push(v@[i as int]));
        i = i + 1;
    }
    push_all(&mut out, ins);
    let mut j: usize = pos;
    while j < v.len()
        invariant
            pos <= j <= v.len(),
            out@ == v@.take(pos as int) + ins@ + v@.subrange(pos as int, j as int),
        decreases v.len() - j,
    {
        out.push(v[j]);
        assert(v@.subrange(pos as int, j + 1) =~= v@.subrange(pos as int, j as int).push(v@[j as int]));
        j = j + 1;
    }
    assert(v@.subrange(pos as int, v.len() as int) =~= v@.skip(pos as int));
    out
}

impl App {
    /// Opens the file picker on the files found under the working directory
    /// (`found`, in any order); `at_pos` is where the `@` that opened it is.
    pub fn open_file_picker(&mut self, found: Vec<String>, at_pos: Option<usize>)
        ensures
            final(self)@ == old(self)@.picker_opened(
                order::insertion_sort(strings_view(found@), order::string_lt()),
                at_pos,
            ),
            old(self).wf() && (at_pos matches Some(a) ==> a < old(self)@.input.len()) ==> final(self).wf(),
    {
        let files = scan_files(found);
        let mut picker = FilePicker::new(files);
        picker.at_pos = at_pos;
        self.picker = Some(picker);
        self.overlay = Overlay::FilePicker;
        self.input_mode = InputMode::Typing;
    }

    /// Closes the picker without a choice.
    pub fn close_picker_cancel(&mut self)
        ensures
            final(self)@ == old(self)@.picker_cancelled(),
            old(self).wf() ==> final(self).wf(),
    {
        if let Some(p) = self.picker.take() {
            if let Some(pos) = p.at_pos {
                if pos < self.input.len() {
                    self.input.remove(pos);
                    self.cursor_pos = pos;
                }
            }
        }
        self.overlay = Overlay::Closed;
    }

    /// Closes the picker on its selected file.
    pub fn close_picker_select(&mut self)
        requires
            old(self).wf(),
        ensures
            final(self)@ == old(self)@.picker_chosen(),
            final(self).wf(),
    {
        let picked = self.picker.take();
        self.overlay = Overlay::Closed;
        if let Some(p) = picked {
            if let Some(f) = p.current() {
                let f = f.clone();
                let fc = chars_of(f.as_str());
                let mut ins: Vec<char> = Vec::new();
                ins.push('@');
                push_all(&mut ins, &fc);
                ins.push(' ');
                assert(ins@ =~= seq!['@'] + f@ + seq![' ']);
                let pos = match p.at_pos {
                    Some(a) => a,
                    None => self.cursor_pos,
                };
                if p.at_pos.is_some() && pos < self.input.len() {
                    self.input.remove(pos);
                }
                let next = splice(&self.input, pos, &ins);
                let total = next.len();
                assert(pos + ins@.len() <= total);
                self.input = next;
                self.cursor_pos = pos + ins.len();
                let ghost before = strings_view(self.attached_files@);
                self.attached_files.push(f);
                assert(strings_view(self.attached_files@) =~= before.push(fc@));
            }
        }
    }

    /// Adds `c` to the picker's query.
    pub fn picker_type(&mut self, c: char)
        ensures
            final(self)@ == old(self)@.picker_typed(c),
            old(self).wf() ==> final(self).wf(),
    {
        if let Some(p) = &mut self.picker {
            let mut q = chars_of(p.query.as_str());
            q.push(c);
            let qs = string_of(&q);
            p.update_filter(qs.as_str());
        }
    }

    /// Takes the last character off the picker's query, or closes the
    /// picker when the query is empty.
    pub fn picker_backspace(&mut self)
        ensures
            final(self)@ == old(self)@.picker_erased(),
            old(self).wf() ==> final(self).wf(),
    {
        let query_empty = match &self.picker {
            Some(p) => p.query.as_str().is_empty(),
            None => true,
        };
        if query_empty {
            self.close_picker_cancel();
        } else if let Some(p) = &mut self.picker {
            let mut q = chars_of(p.query.as_str());
            q.pop();
            let qs = string_of(&q);
            p.update_filter(qs.as_str());
        }
    }

    fn file_picker_key(&mut self, key: Key)
        requires
            old(self).wf(),
        ensures
            final(self)@ == old(self)@.file_picker_key(key),
    {
        match key {
            Key::Esc => self.close_picker_cancel(),
            Key::Up => {
                if let Some(p) = &mut self.picker {
                    p.move_up();
                }
            },
            Key::Down => {
                if let Some(p) = &mut self.picker {
                    p.move_down();
                }
            },
            Key::Enter => self.close_picker_select(),
            Key::Backspace => self.picker_backspace(),
            Key::Char(c) => self.picker_type(c),
            _ => {},
        }
    }
}

impl AppView {
    /// The tree beside the editor opened (rooted at the working directory)
    /// or closed.
    pub open spec fn tree_toggled(self, ls: Seq<(Seq<char>, Seq<(Seq<char>, bool)>)>) -> AppView {
        if self.tree is Some {
            AppView { tree: None, tree_focused: false, ..self }
        } else {
            AppView { tree: Some(filetree::tree_at(self.cwd, ls)), tree_focused: true, ..self }
        }
    }

    /// A key pressed while the tree has the focus.
    pub open spec fn tree_key(self, key: Key, ls: Seq<(Seq<char>, Seq<(Seq<char>, bool)>)>) -> (AppView, ActionView) {
        match self.tree {
            None => (self, ActionView::Nothing),
            Some(t) => match key {
                Key::Char('j') | Key::Down => (AppView { tree: Some(t.down()), ..self }, ActionView::Nothing),
                Key::Char('k') | Key::Up => (AppView { tree: Some(t.up()), ..self }, ActionView::Nothing),
                Key::Char('l') | Key::Right | Key::Enter => if t.selected_file() {
                    (self, ActionView::OpenEditor { file: Some(t.visible[t.selected].path), new_tree: false })
                } else {
                    (AppView { tree: Some(t.expand_toggled(ls)), ..self }, ActionView::Nothing)
                },
                Key::Char('h') | Key::Left => (AppView { tree: Some(t.collapsed(ls)), ..self }, ActionView::Nothing),
                Key::Char('r') => (AppView { tree: Some(t.refreshed(t.expanded, ls)), ..self }, ActionView::Nothing),
                Key::Char('q') | Key::Esc => (AppView { tree_focused: false, ..self }, ActionView::Nothing),
                _ => (self, ActionView::Nothing),
            },
        }
    }

    /// A key handed to the editor; a command that quits closes the editor
    /// and its tree.
    pub open spec fn editor_key(self, key: Key) -> (AppView, ActionView) {
        match self.editor {
            None => (self, ActionView::Nothing),
            Some(e) => if e.mode == EditorMode::Command && key == Key::Enter {
                let after = AppView { editor: Some(e.command_run()), ..self };
                match e.command_result() {
                    StepView::Done(EditorAction::Quit) => (
                        AppView { editor: None, tree: None, tree_focused: false, ..self },
                        ActionView::Nothing,
                    ),
                    StepView::Done(EditorAction::Stay) => (after, ActionView::Nothing),
                    StepView::Write { path, content, quit_after } => (
                        after,
                        ActionView::EditorWrite { path, content, quit_after },
                    ),
                }
            } else {
                (AppView { editor: Some(e.key_pressed(key)), ..self }, ActionView::Nothing)
            },
        }
    }

    /// A key pressed while the editor is open.
    pub open spec fn editor_mode_key(self, k: KeyInput, ls: Seq<(Seq<char>, Seq<(Seq<char>, bool)>)>) -> (AppView, ActionView) {
        if k.ctrl && k.key == Key::Char('e') {
            (self.tree_toggled(ls), ActionView::Nothing)
        } else if k.key == Key::Tab {
            (if self.tree is Some { AppView { tree_focused: !self.tree_focused, ..self } } else { self }, ActionView::Nothing)
        } else if self.tree_focused {
            self.tree_key(k.key, ls)
        } else {
            self.editor_key(k.key)
        }
    }

    /// The editor opened on `file` holding `content`, with a fresh tree
    /// when `new_tree`; the editor has the focus.
    pub open spec fn editor_opened(
        self,
        file: Option<Seq<char>>,
        content: Option<Seq<char>>,
        new_tree: bool,
        ls: Seq<(Seq<char>, Seq<(Seq<char>, bool)>)>,
    ) -> AppView {
        AppView {
            editor: Some(editor::opened(file, content)),
            tree: if new_tree { Some(filetree::tree_at(self.cwd, ls)) } else { self.tree },
            tree_focused: false,
            ..self
        }
    }

    /// The editor told how writing its file went; after `:wq` that
    /// succeeded it closes, with its tree.
    pub open spec fn editor_write_finished(self, written: Result<(), String>, quit_after: bool) -> AppView {
        match self.editor {
            None => self,
            Some(e) => if e.path is Some && written is Ok && quit_after {
                AppView { editor: None, tree: None, tree_focused: false, ..self }
            } else {
                AppView { editor: Some(e.write_finished(written)), ..self }
            },
        }
    }
}

impl App {
    /// Opens the editor on `file`, holding `content` (what reading the file
    /// gave, or `None`); with `new_tree`, also a tree on the working
    /// directory, whose reading `listings` holds.
    pub fn open_editor(&mut self, file: Option<String>, content: Option<String>, new_tree: bool, listings: &Vec<DirListing>)
        ensures
            final(self)@ == old(self)@.editor_opened(
                editor::opt_view(file),
                editor::opt_view(content),
                new_tree,
                filetree::listings_view(listings@),
            ),
            old(self).wf() ==> final(self).wf(),
    {
        self.editor = Some(EditorState::open(file, content));
        if new_tree {
            self.tree = Some(FileTree::new(self.cwd.clone(), listings));
        }
        self.tree_focused = false;
    }

    /// Tells the editor how writing its file went.
    pub fn finish_editor_write(&mut self, written: Result<(), String>, quit_after: bool)
        ensures
            final(self)@ == old(self)@.editor_write_finished(written, quit_after),
            old(self).wf() ==> final(self).wf(),
    {
        let mut quit = false;
        if let Some(ed) = &mut self.editor {
            quit = ed.finish_write(written, quit_after) == EditorAction::Quit;
        }
        if quit {
            self.editor = None;
            self.tree = None;
            self.tree_focused = false;
        }
    }

    fn tree_key(&mut self, key: Key, listings: &Vec<DirListing>) -> (r: AppAction)
        ensures
            (final(self)@, r@) == old(self)@.tree_key(key, filetree::listings_view(listings@)),
    {
        let mut open: Option<String> = None;
        if let Some(tree) = &mut self.tree {
            match key {
                Key::Char('j') | Key::Down => tree.key_down(),
                Key::Char('k') | Key::Up => tree.key_up(),
                Key::Char('l') | Key::Right | Key::Enter => {
                    if tree.selected_is_file() {
                        if let Some(p) = tree.selected_path() {
                            open = Some(p.clone());
                        }
                    } else {
                        tree.toggle_expand(listings);
                    }
                },
                Key::Char('h') | Key::Left => tree.collapse_or_parent(listings),
                Key::Char('r') => tree.refresh(listings),
                Key::Char('q') | Key::Esc => {
                    self.tree_focused = false;
                },
                _ => {},
            }
        }
        match open {
            Some(p) => AppAction::OpenEditor { file: Some(p), new_tree: false },
            None => AppAction::Nothing,
        }
    }

    fn editor_key(&mut self, key: Key) -> (r: AppAction)
        requires
            old(self).wf(),
        ensures
            (final(self)@, r@) == old(self)@.editor_key(key),
            final(self).wf(),
    {
        let mut quit = false;
        let mut act = AppAction::Nothing;
        if let Some(ed) = &mut self.editor {
            match ed.handle_key(key) {
                CommandStep::Done(EditorAction::Quit) => {
                    quit = true;
                },
                CommandStep::Done(EditorAction::Stay) => {},
                CommandStep::Write { path, content, quit_after } => {
                    act = AppAction::EditorWrite { path, content, quit_after };
                },
            }
        }
        if quit {
            self.editor = None;
            self.tree = None;
            self.tree_focused = false;
        }
        act
    }

    fn editor_mode_key(&mut self, k: KeyInput, listings: &Vec<DirListing>) -> (r: AppAction)
        requires
            old(self).wf(),
        ensures
            (final(self)@, r@) == old(self)@.editor_mode_key(k, filetree::listings_view(listings@)),
            final(self).wf(),
    {
        if k.ctrl && k.key == Key::Char('e') {
            if self.tree.is_some() {
                self.tree = None;
                self.tree_focused = false;
            } else {
                self.tree = Some(FileTree::new(self.cwd.clone(), listings));
                self.tree_focused = true;
            }
            AppAction::Nothing
        } else if k.key == Key::Tab {
            if self.tree.is_some() {
                self.tree_focused = !self.tree_focused;
            }
            AppAction::Nothing
        } else if self.tree_focused {
            self.tree_key(k.key, listings)
        } else {
            self.editor_key(k.key)
        }
    }
}

/// Where the model `m` is in the picker, if it is there.
pub open spec fn model_index(m: Seq<char>, i: int) -> Option<int>
    decreases model_ids().len() - i,
{
    if i < 0 || i >= model_ids().len() {
        None
    } else if model_ids()[i] == m {
        Some(i)
    } else {
        model_index(m, i + 1)
    }
}

/// The index of the last reply of the assistant among the first `n` messages.
pub open spec fn last_assistant(ms: Seq<(Seq<char>, Seq<char>)>, n: int) -> Option<int>
    decreases n,
{
    if n <= 0 || n > ms.len() {
        None
    } else if ms[n - 1].0 == "assistant"@ {
        Some(n - 1)
    } else {
        last_assistant(ms, n - 1)
    }
}

proof fn lemma_last_assistant(ms: Seq<(Seq<char>, Seq<char>)>, n: int)
    ensures
        last_assistant(ms, n) matches Some(i) ==> 0 <= i < n && i < ms.len() && ms[i].0 == "assistant"@,
    decreases n,
{
    if n > 0 && n <= ms.len() && ms[n - 1].0 != "assistant"@ {
        lemma_last_assistant(ms, n - 1);
    }
}

/// The name of the `n`-th file a reply is saved to.
/// The number of the next response file: one more, but at most
/// `usize::MAX` (the count stays there).
pub open spec fn next_save(n: int) -> int {
    if n < usize::MAX { n + 1 } else { n }
}

pub open spec fn response_file(n: nat) -> Seq<char> {
    "response_"@ + text::decimal(n) + ".md"@
}

/// Whether a mention names a directory (ends in `/`).
pub open spec fn names_dir(f: Seq<char>) -> bool {
    f.len() > 0 && f.last() == '/'
}

/// The attached files that are sent (not the directories), each with its
/// path under the working directory `cwd`.
pub open spec fn attachment_paths(cwd: Seq<char>, fs: Seq<Seq<char>>) -> Seq<(Seq<char>, Seq<char>)> {
    fs.filter(|f: Seq<char>| !names_dir(f)).map_values(|f: Seq<char>| (f, cwd + "/"@ + f))
}

/// The text that attached files add to a message: each file that could be
/// read, between a header and a footer that name it.
pub open spec fn attachments(fs: Seq<(Seq<char>, Option<Seq<char>>)>) -> Seq<char>
    decreases fs.len(),
{
    if fs.len() == 0 {
        Seq::empty()
    } else {
        let name = fs.last().0;
        attachments(fs.drop_last()) + match fs.last().1 {
            Some(fc) => "\n\n--- File: "@ + name + " ---\n"@ + fc + "\n--- End of "@ + name + " ---"@,
            None => Seq::empty(),
        }
    }
}

impl AppView {
    pub open spec fn at_bottom(self) -> AppView {
        AppView { scroll: usize::MAX as int, ..self }
    }

    /// A key pressed in the file-open prompt.
    pub open spec fn file_open_key(self, key: Key) -> (AppView, ActionView) {
        match key {
            Key::Esc => (AppView { overlay: Overlay::Closed, file_open_buf: Seq::empty(), ..self }, ActionView::Nothing),
            Key::Enter => {
                let path = text::trim(self.file_open_buf);
                let s = AppView { overlay: Overlay::Closed, file_open_buf: Seq::empty(), ..self };
                if path.len() == 0 {
                    (s, ActionView::Nothing)
                } else {
                    (s, ActionView::OpenEditor { file: if path == "new"@ { None } else { Some(path) }, new_tree: true })
                }
            },
            Key::Backspace => (AppView {
                file_open_buf: if self.file_open_buf.len() > 0 { self.file_open_buf.drop_last() } else { self.file_open_buf },
                ..self
            }, ActionView::Nothing),
            Key::Char(c) => (AppView { file_open_buf: self.file_open_buf.push(c), ..self }, ActionView::Nothing),
            _ => (self, ActionView::Nothing),
        }
    }

    /// The selected model picked: the chat goes on with it.
    pub open spec fn model_chosen(self, now: u64) -> AppView {
        let model = model_ids()[self.model_picker_idx];
        AppView {
            cerebras_model: Some(model),
            provider: if self.cerebras_key is Some { Some(ProviderKind::Cerebras) } else { self.provider },
            provider_key: if self.cerebras_key is Some { self.cerebras_key } else { self.provider_key },
            provider_name: if self.cerebras_key is Some { Some("cerebras \u{b7} "@ + model) } else { self.provider_name },
            overlay: Overlay::Closed,
            ..self
        }.flashed("model \u{2192} "@ + model, now)
    }

    /// A key pressed in the model picker.
    pub open spec fn model_picker_key(self, key: Key, now: u64) -> AppView {
        match key {
            Key::Esc => AppView { overlay: Overlay::Closed, ..self },
            Key::Up | Key::Char('k') => AppView {
                model_picker_idx: if self.model_picker_idx > 0 { self.model_picker_idx - 1 } else { self.model_picker_idx },
                ..self
            },
            Key::Down | Key::Char('j') => AppView {
                model_picker_idx: if self.model_picker_idx + 1 < model_ids().len() {
                    self.model_picker_idx + 1
                } else {
                    self.model_picker_idx
                },
                ..self
            },
            Key::Enter => self.model_chosen(now),
            _ => self,
        }
    }

    /// A key pressed in the command palette.
    pub open spec fn palette_key(self, key: Key) -> AppView {
        match key {
            Key::Esc => AppView { overlay: Overlay::Closed, ..self },
            Key::Down | Key::Char('j') => AppView {
                palette_scroll: if self.palette_scroll < usize::MAX { self.palette_scroll + 1 } else { self.palette_scroll },
                ..self
            },
            Key::Up | Key::Char('k') => AppView {
                palette_scroll: if self.palette_scroll > 0 { self.palette_scroll - 1 } else { 0 },
                ..self
            },
            _ => self,
        }
    }

    /// Ctrl+K: the command palette opened (at its top) or closed.
    pub open spec fn palette_toggled(self) -> AppView {
        if self.overlay == Overlay::CommandPalette {
            AppView { overlay: Overlay::Closed, ..self }
        } else {
            AppView { overlay: Overlay::CommandPalette, palette_scroll: 0, ..self }
        }
    }

    /// `s`: the last reply is to be saved to the next response file.
    pub open spec fn save_asked(self, now: u64) -> (AppView, ActionView) {
        match last_assistant(self.messages, self.messages.len() as int) {
            None => (self.flashed("no response to save yet"@, now), ActionView::Nothing),
            Some(i) => (
                AppView { save_count: next_save(self.save_count), ..self },
                ActionView::SaveResponse {
                    filename: response_file(next_save(self.save_count) as nat),
                    content: self.messages[i].1,
                },
            ),
        }
    }

    /// `y`: the focused reply, or else the last one, is to be copied.
    pub open spec fn yank_asked(self, now: u64) -> (AppView, ActionView) {
        let idx = match self.focused_msg {
            Some(i) => Some(i as int),
            None => last_assistant(self.messages, self.messages.len() as int),
        };
        match idx {
            None => (self.flashed("no response to copy yet"@, now), ActionView::Nothing),
            Some(i) => (self, ActionView::Yank { content: self.messages[i].1 }),
        }
    }

    /// A key pressed in the chat, not typing.
    pub open spec fn normal_key(self, key: Key, now: u64) -> (AppView, ActionView) {
        match key {
            Key::Char('q') => (self, ActionView::Quit),
            Key::Char('p') => (AppView { mode: Mode::Plan, ..self }.flashed("plan mode \u{2014} web search enabled"@, now), ActionView::Nothing),
            Key::Char('e') | Key::Char('b') => (AppView { mode: Mode::Edit, ..self }.flashed("edit mode"@, now), ActionView::Nothing),
            Key::Char('i') => (AppView { input_mode: InputMode::Typing, cursor_pos: self.input.len() as int, ..self }, ActionView::Nothing),
            Key::Char('/') => (AppView { input_mode: InputMode::Typing, input: seq!['/'], cursor_pos: 1, ..self }, ActionView::Nothing),
            Key::Char('s') => self.save_asked(now),
            Key::Char('y') => self.yank_asked(now),
            Key::Char('j') | Key::Down => (self.scrolled_down(3), ActionView::Nothing),
            Key::Char('k') | Key::Up => (self.scrolled_up(3), ActionView::Nothing),
            _ => (self, ActionView::Nothing),
        }
    }

    /// What a slash command does.
    pub open spec fn command_done(self, c: CommandView, input: Seq<char>, now: u64) -> (AppView, ActionView) {
        match c {
            CommandView::Connect { provider, api_key, model } => match provider {
                ProviderKind::Cerebras => {
                    let m = match model {
                        Some(m) => m,
                        None => match self.cerebras_model {
                            Some(m) => m,
                            None => "gpt-oss-120b"@,
                        },
                    };
                    (AppView {
                        provider: Some(provider),
                        provider_key: Some(api_key),
                        cerebras_key: Some(api_key),
                        cerebras_model: Some(m),
                        provider_name: Some("cerebras \u{b7} "@ + m),
                        ..self
                    }.flashed("connected \u{b7} "@ + m + " \u{2014} use /models to switch model"@, now).at_bottom(), ActionView::Nothing)
                },
                _ => match (match model {
                    Some(m) => Some(m),
                    None => default_model(provider),
                }) {
                    None => (self.flashed(model_usage(provider), now), ActionView::Nothing),
                    Some(m) => (AppView {
                        provider: Some(provider),
                        provider_key: Some(api_key),
                        provider_model: Some(m),
                        provider_name: Some(connection_name(provider, m)),
                        ..self
                    }.flashed("connected \u{b7} "@ + connection_name(provider, m), now).at_bottom(), ActionView::Nothing),
                },
            },
            CommandView::UnknownProvider { name } => (
                self.flashed("unknown provider '"@ + name + "' \u{2014} use cerebras, anthropic or codex"@, now),
                ActionView::Nothing,
            ),
            CommandView::ConnectUsage => (self.flashed("usage: /connect cerebras <api_key>"@, now), ActionView::Nothing),
            CommandView::Models => (AppView {
                model_picker_idx: match self.cerebras_model {
                    Some(m) => match model_index(m, 0) {
                        Some(i) => i,
                        None => self.model_picker_idx,
                    },
                    None => self.model_picker_idx,
                },
                overlay: Overlay::ModelPicker,
                ..self
            }, ActionView::Nothing),
            CommandView::Exa { key } => (AppView { exa_key: key, ..self }.flashed("exa api key updated"@, now), ActionView::Nothing),
            CommandView::New => (self.new_session(now), ActionView::Nothing),
            CommandView::EditPrompt => (AppView { overlay: Overlay::FileOpen, file_open_buf: Seq::empty(), ..self }, ActionView::Nothing),
            CommandView::EditFile { path } => (self, ActionView::OpenEditor { file: Some(path), new_tree: true }),
            CommandView::Help => (AppView { overlay: Overlay::CommandPalette, palette_scroll: 0, ..self }, ActionView::Nothing),
            CommandView::Unknown => (self.flashed("unknown command: '"@ + input + "'"@, now), ActionView::Nothing),
        }
    }

    /// Enter on the input line: a command runs, or a message is to be sent
    /// with the attached files; the input is cleared.
    pub open spec fn submitted(self, now: u64) -> (AppView, ActionView) {
        let line = text::trim(self.input);
        let (s, act) = if line.len() == 0 {
            (self, ActionView::Nothing)
        } else if line[0] == '/' {
            self.command_done(commands::command_view(line), line, now)
        } else {
            (
                AppView { attached_files: Seq::empty(), ..self },
                ActionView::Send { text: line, files: attachment_paths(self.cwd, self.attached_files) },
            )
        };
        (AppView { input: Seq::empty(), cursor_pos: 0, input_mode: InputMode::Normal, ..s }, act)
    }

    /// A key pressed while typing on the input line.
    pub open spec fn typing_key(self, key: Key, now: u64) -> (AppView, ActionView) {
        match key {
            Key::Esc => (AppView { input_mode: InputMode::Normal, ..self }, ActionView::Nothing),
            Key::Enter => self.submitted(now),
            Key::Backspace => (if self.cursor_pos > 0 {
                AppView { cursor_pos: self.cursor_pos - 1, input: self.input.remove(self.cursor_pos - 1), ..self }
            } else {
                self
            }, ActionView::Nothing),
            Key::Delete => (if self.cursor_pos < self.input.len() {
                AppView { input: self.input.remove(self.cursor_pos), ..self }
            } else {
                self
            }, ActionView::Nothing),
            Key::Left => (AppView { cursor_pos: if self.cursor_pos > 0 { self.cursor_pos - 1 } else { self.cursor_pos }, ..self }, ActionView::Nothing),
            Key::Right => (AppView {
                cursor_pos: if self.cursor_pos < self.input.len() { self.cursor_pos + 1 } else { self.cursor_pos },
                ..self
            }, ActionView::Nothing),
            Key::Home => (AppView { cursor_pos: 0, ..self }, ActionView::Nothing),
            Key::End => (AppView { cursor_pos: self.input.len() as int, ..self }, ActionView::Nothing),
            Key::Char(c) => (
                AppView { input: self.input.insert(self.cursor_pos, c), cursor_pos: self.cursor_pos + 1, ..self },
                if c == '@' { ActionView::OpenPicker { at_pos: Some(self.cursor_pos as usize) } } else { ActionView::Nothing },
            ),
            _ => (self, ActionView::Nothing),
        }
    }
}

impl App {
    fn file_open_key(&mut self, key: Key) -> (r: AppAction)
        ensures
            (final(self)@, r@) == old(self)@.file_open_key(key),
    {
        proof {
            reveal_strlit("new");
        }
        match key {
            Key::Esc => {
                self.overlay = Overlay::Closed;
                self.file_open_buf.clear();
                AppAction::Nothing
            },
            Key::Enter => {
                let path = trim_chars(&self.file_open_buf);
                self.file_open_buf.clear();
                self.overlay = Overlay::Closed;
                if path.len() == 0 {
                    AppAction::Nothing
                } else if chars_eq(&path, &chars_of("new")) {
                    AppAction::OpenEditor { file: None, new_tree: true }
                } else {
                    AppAction::OpenEditor { file: Some(string_of(&path)), new_tree: true }
                }
            },
            Key::Backspace => {
                self.file_open_buf.pop();
                AppAction::Nothing
            },
            Key::Char(c) => {
                self.file_open_buf.push(c);
                AppAction::Nothing
            },
            _ => AppAction::Nothing,
        }
    }

    fn model_picker_key(&mut self, key: Key, now: u64)
        requires
            old(self).wf(),
        ensures
            final(self)@ == old(self)@.model_picker_key(key, now),
    {
        match key {
            Key::Esc => self.overlay = Overlay::Closed,
            Key::Up | Key::Char('k') => {
                if self.model_picker_idx > 0 {
                    self.model_picker_idx -= 1;
                }
            },
            Key::Down | Key::Char('j') => {
                if self.model_picker_idx + 1 < model_count() {
                    self.model_picker_idx += 1;
                }
            },
            Key::Enter => {
                let model = model_id(self.model_picker_idx);
                self.cerebras_model = Some(String::from_str(model));
                if let Some(k) = &self.cerebras_key {
                    let mut name: Vec<char> = Vec::new();
                    push_str(&mut name, "cerebras \u{b7} ");
                    push_str(&mut name, model);
                    self.provider_name = Some(string_of(&name));
                    self.provider = Some(ProviderKind::Cerebras);
                    self.provider_key = Some(k.clone());
                }
                let mut msg: Vec<char> = Vec::new();
                push_str(&mut msg, "model \u{2192} ");
                push_str(&mut msg, model);
                self.flash_status(string_of(&msg), now);
                self.overlay = Overlay::Closed;
            },
            _ => {},
        }
    }

    fn palette_key(&mut self, key: Key)
        ensures
            final(self)@ == old(self)@.palette_key(key),
    {
        match key {
            Key::Esc => self.overlay = Overlay::Closed,
            Key::Down | Key::Char('j') => self.palette_scroll = self.palette_scroll.saturating_add(1),
            Key::Up | Key::Char('k') => self.palette_scroll = self.palette_scroll.saturating_sub(1),
            _ => {},
        }
    }
}

/// The name of the `n`-th file a reply is saved to.
fn response_name(n: usize) -> (r: String)
    ensures
        r@ == response_file(n as nat),
{
    let mut v: Vec<char> = Vec::new();
    push_str(&mut v, "response_");
    push_decimal(&mut v, n as u128);
    push_str(&mut v, ".md");
    string_of(&v)
}

/// `a` followed by `b`.
fn concat(a: &str, b: &str) -> (r: String)
    ensures
        r@ == a@ + b@,
{
    let mut v: Vec<char> = Vec::new();
    push_str(&mut v, a);
    push_str(&mut v, b);
    string_of(&v)
}

impl App {
    /// The index of the assistant's last reply.
    fn last_assistant_index(&self) -> (r: Option<usize>)
        ensures
            match r {
                Some(i) => last_assistant(self@.messages, self@.messages.len() as int) == Some(i as int)
                    && i < self.messages.len(),
                None => last_assistant(self@.messages, self@.messages.len() as int) is None,
            },
    {
        proof {
            reveal_strlit("assistant");
        }
        let ghost mv = self@.messages;
        proof {
            lemma_last_assistant(mv, mv.len() as int);
        }
        let asst = chars_of("assistant");
        let mut n = self.messages.len();
        while n > 0
            invariant
                n <= self.messages.len(),
                mv == messages_view(self.messages@),
                asst@ == "assistant"@,
                last_assistant(mv, mv.len() as int) == last_assistant(mv, n as int),
            decreases n,
        {
            let role = chars_of(self.messages[n - 1].role.as_str());
            if chars_eq(&role, &asst) {
                return Some(n - 1);
            }
            n = n - 1;
        }
        None
    }

    fn save_key(&mut self, now: u64) -> (r: AppAction)
        ensures
            (final(self)@, r@) == old(self)@.save_asked(now),
    {
        match self.last_assistant_index() {
            None => {
                self.flash_status(String::from_str("no response to save yet"), now);
                AppAction::Nothing
            },
            Some(i) => {
                self.save_count = self.save_count.saturating_add(1);
                let filename = response_name(self.save_count);
                AppAction::SaveResponse { filename, content: self.messages[i].content.clone() }
            },
        }
    }

    /// Reports how saving a reply to `filename` went.
    pub fn finish_save(&mut self, filename: &str, written: Result<(), String>, now: u64)
        ensures
            final(self)@ == old(self)@.flashed(
                match written {
                    Ok(_) => "saved \u{2192} "@ + filename@,
                    Err(e) => "save failed: "@ + e@,
                },
                now,
            ),
            old(self).wf() ==> final(self).wf(),
    {
        let msg = match written {
            Ok(_) => concat("saved \u{2192} ", filename),
            Err(e) => concat("save failed: ", e.as_str()),
        };
        self.flash_status(msg, now);
    }

    fn yank_key(&mut self, now: u64) -> (r: AppAction)
        requires
            old(self).wf(),
        ensures
            (final(self)@, r@) == old(self)@.yank_asked(now),
    {
        let idx = match self.focused_msg {
            Some(i) => Some(i),
            None => self.last_assistant_index(),
        };
        match idx {
            None => {
                self.flash_status(String::from_str("no response to copy yet"), now);
                AppAction::Nothing
            },
            Some(i) => AppAction::Yank { content: self.messages[i].content.clone() },
        }
    }

    /// Reports whether the reply got onto the clipboard. When it did not, it
    /// is to be saved to the next response file instead, whose name is
    /// returned; report that with `finish_yank_save`.
    pub fn finish_yank(&mut self, copied: bool, now: u64) -> (r: Option<String>)
        ensures
            copied ==> final(self)@ == old(self)@.flashed("copied to clipboard"@, now) && r is None,
            !copied ==> final(self)@ == (AppView { save_count: next_save(old(self)@.save_count), ..old(self)@ })
                && (r matches Some(f) && f@ == response_file(next_save(old(self)@.save_count) as nat)),
            old(self).wf() ==> final(self).wf(),
    {
        if copied {
            self.flash_status(String::from_str("copied to clipboard"), now);
            None
        } else {
            self.save_count = self.save_count.saturating_add(1);
            Some(response_name(self.save_count))
        }
    }

    /// Reports how saving the reply that could not be copied went.
    pub fn finish_yank_save(&mut self, filename: &str, written: Result<(), String>, now: u64)
        ensures
            final(self)@ == old(self)@.flashed(
                match written {
                    Ok(_) => "clipboard unavailable \u{2192} saved to "@ + filename@,
                    Err(e) => "copy failed: "@ + e@,
                },
                now,
            ),
            old(self).wf() ==> final(self).wf(),
    {
        let msg = match written {
            Ok(_) => concat("clipboard unavailable \u{2192} saved to ", filename),
            Err(e) => concat("copy failed: ", e.as_str()),
        };
        self.flash_status(msg, now);
    }

    fn normal_key(&mut self, key: Key, now: u64) -> (r: AppAction)
        requires
            old(self).wf(),
        ensures
            (final(self)@, r@) == old(self)@.normal_key(key, now),
    {
        match key {
            Key::Char('q') => AppAction::Quit,
            Key::Char('p') => {
                self.mode = Mode::Plan;
                self.flash_status(String::from_str("plan mode \u{2014} web search enabled"), now);
                AppAction::Nothing
            },
            Key::Char('e') | Key::Char('b') => {
                self.mode = Mode::Edit;
                self.flash_status(String::from_str("edit mode"), now);
                AppAction::Nothing
            },
            Key::Char('i') => {
                self.input_mode = InputMode::Typing;
                self.cursor_pos = self.input.len();
                AppAction::Nothing
            },
            Key::Char('/') => {
                self.input_mode = InputMode::Typing;
                self.input = Vec::new();
                self.input.push('/');
                assert(self.input@ =~= seq!['/']);
                self.cursor_pos = 1;
                AppAction::Nothing
            },
            Key::Char('s') => self.save_key(now),
            Key::Char('y') => self.yank_key(now),
            Key::Char('j') | Key::Down => {
                self.scroll_down(3);
                AppAction::Nothing
            },
            Key::Char('k') | Key::Up => {
                self.scroll_up(3);
                AppAction::Nothing
            },
            _ => AppAction::Nothing,
        }
    }
}

/// The conversation as sent to the model: its user and assistant messages.
pub open spec fn turns_of(ms: Seq<(Seq<char>, Seq<char>)>) -> Seq<(Seq<char>, Seq<char>)> {
    ms.filter(|m: (Seq<char>, Seq<char>)| chat::is_turn(m))
}

pub open spec fn history_view(v: Seq<Message>) -> Seq<(Seq<char>, Seq<char>)> {
    v.map_values(|m: Message| (m.role@, m.content@))
}

pub open spec fn read_view(v: Seq<(String, Option<String>)>) -> Seq<(Seq<char>, Option<Seq<char>>)> {
    v.map_values(|f: (String, Option<String>)| (f.0@, editor::opt_view(f.1)))
}

/// A request to the model: plan mode (with web search) or edit mode (with
/// the file tools), with the key and model to use, the system prompt, and
/// the conversation.
pub struct ChatRequest {
    pub provider: ProviderKind,
    pub plan: bool,
    pub api_key: String,
    pub model: String,
    pub system: String,
    pub history: Vec<Message>,
}

/// The text of a message with its attached files (each with what reading
/// it gave, or `None`).
pub fn compose_message(text: &str, files: &Vec<(String, Option<String>)>) -> (r: String)
    ensures
        r@ == text@ + attachments(read_view(files@)),
{
    let ghost rv = read_view(files@);
    let mut out: Vec<char> = Vec::new();
    push_str(&mut out, text);
    let mut i: usize = 0;
    while i < files.len()
        invariant
            i <= files.len(),
            rv == read_view(files@),
            out@ == text@ + attachments(rv.take(i as int)),
        decreases files.len() - i,
    {
        assert(rv.take(i + 1).drop_last() =~= rv.take(i as int));
        assert(rv.take(i + 1).last() == rv[i as int]);
        let ghost before = out@;
        if let Some(fc) = &files[i].1 {
            let name = files[i].0.as_str();
            push_str(&mut out, "\n\n--- File: ");
            push_str(&mut out, name);
            push_str(&mut out, " ---\n");
            push_str(&mut out, fc.as_str());
            push_str(&mut out, "\n--- End of ");
            push_str(&mut out, name);
            push_str(&mut out, " ---");
            assert(out@ =~= before + ("\n\n--- File: "@ + rv[i as int].0 + " ---\n"@ + fc@ + "\n--- End of "@
                + rv[i as int].0 + " ---"@));
        } else {
            assert(out@ =~= before + Seq::<char>::empty());
        }
        i = i + 1;
    }
    assert(rv.take(files.len() as int) =~= rv);
    string_of(&out)
}

/// Where `m` is among the models that can be picked.
fn find_model(m: &str) -> (r: Option<usize>)
    ensures
        match r {
            Some(i) => model_index(m@, 0) == Some(i as int) && i < model_ids().len(),
            None => model_index(m@, 0) is None,
        },
{
    let mc = chars_of(m);
    let mut i: usize = 0;
    while i < model_count()
        invariant
            i <= model_ids().len(),
            mc@ == m@,
            model_index(m@, 0) == model_index(m@, i as int),
        decreases model_ids().len() - i,
    {
        if chars_eq(&mc, &chars_of(model_id(i))) {
            return Some(i);
        }
        i = i + 1;
    }
    None
}

fn names_dir_exec(f: &str) -> (r: bool)
    ensures
        r == names_dir(f@),
{
    let fc = chars_of(f);
    fc.len() > 0 && fc[fc.len() - 1] == '/'
}

impl App {
    /// Runs a slash command.
    pub fn handle_command(&mut self, input: &str, now: u64) -> (r: AppAction)
        ensures
            (final(self)@, r@) == old(self)@.command_done(commands::command_view(input@), input@, now),
            old(self).wf() && old(self)@.picker is None ==> final(self).wf(),
    {
        proof {
            reveal_strlit("gpt-oss-120b");
        }
        match parse_command(input) {
            Command::Connect { provider, api_key, model } => {
                match provider {
                    ProviderKind::Cerebras => {
                        let m = match model {
                            Some(m) => m,
                            None => match &self.cerebras_model {
                                Some(m) => m.clone(),
                                None => String::from_str("gpt-oss-120b"),
                            },
                        };
                        self.provider = Some(ProviderKind::Cerebras);
                        self.provider_key = Some(api_key.clone());
                        self.cerebras_key = Some(api_key);
                        self.cerebras_model = Some(m.clone());
                        self.provider_name = Some(concat("cerebras \u{b7} ", m.as_str()));
                        let mut msg: Vec<char> = Vec::new();
                        push_str(&mut msg, "connected \u{b7} ");
                        push_str(&mut msg, m.as_str());
                        push_str(&mut msg, " \u{2014} use /models to switch model");
                        self.flash_status(string_of(&msg), now);
                    },
                    _ => {
                        let m = match model {
                            Some(m) => Some(m),
                            None => default_model_exec(provider),
                        };
                        match m {
                            None => {
                                let mut msg: Vec<char> = Vec::new();
                                push_str(&mut msg, "usage: /connect ");
                                push_str(&mut msg, provider_word_exec(provider));
                                push_str(&mut msg, " <api_key> <model>");
                                self.flash_status(string_of(&msg), now);
                                return AppAction::Nothing;
                            },
                            Some(mm) => {
                                let mut name: Vec<char> = Vec::new();
                                push_str(&mut name, provider_word_exec(provider));
                                push_str(&mut name, " \u{b7} ");
                                push_str(&mut name, mm.as_str());
                                let name = string_of(&name);
                                self.provider = Some(provider);
                                self.provider_key = Some(api_key);
                                self.provider_model = Some(mm);
                                self.flash_status(concat("connected \u{b7} ", name.as_str()), now);
                                self.provider_name = Some(name);
                            },
                        }
                    },
                }
                self.scroll_to_bottom();
                AppAction::Nothing
            },
            Command::UnknownProvider { name } => {
                let mut msg: Vec<char> = Vec::new();
                push_str(&mut msg, "unknown provider '");
                push_str(&mut msg, name.as_str());
                push_str(&mut msg, "' \u{2014} use cerebras, anthropic or codex");
                self.flash_status(string_of(&msg), now);
                AppAction::Nothing
            },
            Command::ConnectUsage => {
                self.flash_status(String::from_str("usage: /connect cerebras <api_key>"), now);
                AppAction::Nothing
            },
            Command::Models => {
                if let Some(cm) = &self.cerebras_model {
                    if let Some(idx) = find_model(cm.as_str()) {
                        self.model_picker_idx = idx;
                    }
                }
                self.overlay = Overlay::ModelPicker;
                AppAction::Nothing
            },
            Command::Exa { key } => {
                self.exa_key = key;
                self.flash_status(String::from_str("exa api key updated"), now);
                AppAction::Nothing
            },
            Command::New => {
                self.new_session(now);
                AppAction::Nothing
            },
            Command::EditPrompt => {
                self.overlay = Overlay::FileOpen;
                self.file_open_buf.clear();
                AppAction::Nothing
            },
            Command::EditFile { path } => AppAction::OpenEditor { file: Some(path), new_tree: true },
            Command::Help => {
                self.palette_scroll = 0;
                self.overlay = Overlay::CommandPalette;
                AppAction::Nothing
            },
            Command::Unknown => {
                let mut msg: Vec<char> = Vec::new();
                push_str(&mut msg, "unknown command: '");
                push_str(&mut msg, input);
                push_str(&mut msg, "'");
                self.flash_status(string_of(&msg), now);
                AppAction::Nothing
            },
        }
    }

    /// The attached files that are sent, with their full paths.
    fn attachment_list(&self) -> (r: Vec<(String, String)>)
        ensures
            pairs_view(r@) == attachment_paths(self@.cwd, self@.attached_files),
    {
        let ghost fs = self@.attached_files;
        let ghost cwd = self@.cwd;
        let ghost keep = |f: Seq<char>| !names_dir(f);
        let ghost pair = |f: Seq<char>| (f, cwd + "/"@ + f);
        let mut out: Vec<(String, String)> = Vec::new();
        let mut i: usize = 0;
        while i < self.attached_files.len()
            invariant
                i <= self.attached_files.len(),
                fs == strings_view(self.attached_files@),
                cwd == self.cwd@,
                keep == (|f: Seq<char>| !names_dir(f)),
                pair == (|f: Seq<char>| (f, cwd + "/"@ + f)),
                pairs_view(out@) == fs.take(i as int).filter(keep).map_values(pair),
            decreases self.attached_files.len() - i,
        {
            let f = &self.attached_files[i];
            assert(fs.take(i + 1).drop_last() =~= fs.take(i as int));
            assert(fs.take(i + 1).last() == f@);
            proof {
                reveal_with_fuel(Seq::<_>::filter, 1);
            }
            if !names_dir_exec(f.as_str()) {
                let ghost before = fs.take(i as int).filter(keep);
                let full = concat(concat(self.cwd.as_str(), "/").as_str(), f.as_str());
                let ghost prev = pairs_view(out@);
                let ghost item = (f@, full@);
                out.push((f.clone(), full));
                assert(pairs_view(out@) =~= prev.push(item));
                assert(item == pair(f@));
                assert(fs.take(i + 1).filter(keep) =~= before.push(f@));
                assert(before.push(f@).map_values(pair) =~= before.map_values(pair).push(pair(f@)));
            }
            i = i + 1;
        }
        assert(fs.take(self.attached_files.len() as int) =~= fs);
        out
    }

    fn submit(&mut self, now: u64) -> (r: AppAction)
        requires
            old(self).wf(),
            old(self)@.picker is None,
        ensures
            (final(self)@, r@) == old(self)@.submitted(now),
            final(self).wf(),
    {
        let line = trim_chars(&self.input);
        let act = if line.len() == 0 {
            AppAction::Nothing
        } else if line[0] == '/' {
            let ls = string_of(&line);
            self.handle_command(ls.as_str(), now)
        } else {
            let files = self.attachment_list();
            self.attached_files = Vec::new();
            assert(strings_view(self.attached_files@) =~= Seq::<Seq<char>>::empty());
            AppAction::Send { text: string_of(&line), files }
        };
        self.input.clear();
        self.cursor_pos = 0;
        self.input_mode = InputMode::Normal;
        act
    }

    fn typing_key(&mut self, key: Key, now: u64) -> (r: AppAction)
        requires
            old(self).wf(),
            old(self)@.picker is None,
        ensures
            (final(self)@, r@) == old(self)@.typing_key(key, now),
            final(self).wf(),
    {
        match key {
            Key::Esc => {
                self.input_mode = InputMode::Normal;
                AppAction::Nothing
            },
            Key::Enter => self.submit(now),
            Key::Backspace => {
                if self.cursor_pos > 0 {
                    self.cursor_pos -= 1;
                    self.input.remove(self.cursor_pos);
                }
                AppAction::Nothing
            },
            Key::Delete => {
                if self.cursor_pos < self.input.len() {
                    self.input.remove(self.cursor_pos);
                }
                AppAction::Nothing
            },
            Key::Left => {
                if self.cursor_pos > 0 {
                    self.cursor_pos -= 1;
                }
                AppAction::Nothing
            },
            Key::Right => {
                if self.cursor_pos < self.input.len() {
                    self.cursor_pos += 1;
                }
                AppAction::Nothing
            },
            Key::Home => {
                self.cursor_pos = 0;
                AppAction::Nothing
            },
            Key::End => {
                self.cursor_pos = self.input.len();
                AppAction::Nothing
            },
            Key::Char(c) => {
                let at = self.cursor_pos;
                self.input.insert(at, c);
                let total = self.input.len();
                assert(at < total);
                self.cursor_pos = at + 1;
                if c == '@' {
                    AppAction::OpenPicker { at_pos: Some(at) }
                } else {
                    AppAction::Nothing
                }
            },
            _ => AppAction::Nothing,
        }
    }

    /// The conversation as sent to the model.
    fn turns(&self) -> (r: Vec<Message>)
        ensures
            history_view(r@) == turns_of(self@.messages),
    {
        proof {
            reveal_strlit("user");
            reveal_strlit("assistant");
        }
        let ghost mv = self@.messages;
        let ghost keep = |m: (Seq<char>, Seq<char>)| chat::is_turn(m);
        let user = chars_of("user");
        let asst = chars_of("assistant");
        let mut out: Vec<Message> = Vec::new();
        let mut i: usize = 0;
        while i < self.messages.len()
            invariant
                i <= self.messages.len(),
                mv == messages_view(self.messages@),
                keep == (|m: (Seq<char>, Seq<char>)| chat::is_turn(m)),
                user@ == "user"@,
                asst@ == "assistant"@,
                history_view(out@) == mv.take(i as int).filter(keep),
            decreases self.messages.len() - i,
        {
            let role = chars_of(self.messages[i].role.as_str());
            let turn = chars_eq(&role, &user) || chars_eq(&role, &asst);
            assert(mv.take(i + 1).drop_last() =~= mv.take(i as int));
            assert(mv.take(i + 1).last() == mv[i as int]);
            proof {
                reveal_with_fuel(Seq::<_>::filter, 1);
            }
            if turn {
                let ghost before = history_view(out@);
                out.push(Message { role: self.messages[i].role.clone(), content: self.messages[i].content.clone() });
                assert(history_view(out@) =~= before.push(mv[i as int]));
            }
            i = i + 1;
        }
        assert(mv.take(self.messages.len() as int) =~= mv);
        out
    }

    /// Sends `content` (the message with its attachments): it joins the
    /// conversation, and the request to make is returned, unless no
    /// provider is connected.
    pub fn send_message(&mut self, content: String, now: u64) -> (r: Option<ChatRequest>)
        requires
            old(self).wf(),
        ensures
            final(self).wf(),
            match old(self)@.provider {
                None => final(self)@ == old(self)@.flashed("no provider \u{2014} use /connect cerebras <key>"@, now)
                    && r is None,
                Some(kind) => final(self)@ == (AppView {
                    messages: old(self)@.messages.push(("user"@, content@)),
                    scroll: usize::MAX as int,
                    is_loading: true,
                    ..old(self)@
                }) && (r matches Some(req) && req.provider == kind && req.plan == (old(self)@.mode == Mode::Plan)
                    && old(self)@.provider_key == Some(req.api_key@)
                    && req.model@ == old(self)@.connected_model()
                    && req.system@ == (if req.plan { chat::plan_prompt() } else { chat::edit_prompt(old(self)@.cwd) })
                    && history_view(req.history@) == turns_of(final(self)@.messages)),
            },
    {
        let km = match (self.provider, &self.provider_key) {
            (Some(kind), Some(k)) => {
                let model = match kind {
                    ProviderKind::Cerebras => match &self.cerebras_model {
                        Some(m) => m.clone(),
                        None => String::new(),
                    },
                    _ => match &self.provider_model {
                        Some(m) => m.clone(),
                        None => String::new(),
                    },
                };
                Some((kind, k.clone(), model))
            },
            _ => None,
        };
        match km {
            None => {
                self.flash_status(String::from_str("no provider \u{2014} use /connect cerebras <key>"), now);
                None
            },
            Some((provider, api_key, model)) => {
                let ghost before = messages_view(self.messages@);
                let ghost cv = content@;
                self.messages.push(ChatMessage { role: String::from_str("user"), content });
                assert(messages_view(self.messages@) =~= before.push(("user"@, cv)));
                self.scroll_to_bottom();
                self.is_loading = true;
                let history = self.turns();
                let plan = self.mode == Mode::Plan;
                let system = if plan { plan_system_prompt() } else { edit_system_prompt(self.cwd.as_str()) };
                Some(ChatRequest { provider, plan, api_key, model, system, history })
            },
        }
    }
}

impl AppView {
    /// What a key press does, in the order the screen gives keys their
    /// meaning: Ctrl+C quits; the editor (and its tree) take every key while
    /// open; then the open panel; then the global shortcuts; then the chat,
    /// by whether the input line is being typed on.
    pub open spec fn key_step(self, k: KeyInput, now: u64, ls: Seq<(Seq<char>, Seq<(Seq<char>, bool)>)>) -> (AppView, ActionView) {
        if k.ctrl && k.key == Key::Char('c') {
            (self, ActionView::Quit)
        } else if self.editor is Some {
            self.editor_mode_key(k, ls)
        } else if self.overlay == Overlay::FileOpen {
            self.file_open_key(k.key)
        } else if self.overlay == Overlay::ModelPicker {
            (self.model_picker_key(k.key, now), ActionView::Nothing)
        } else if self.overlay == Overlay::FilePicker {
            (self.file_picker_key(k.key), ActionView::Nothing)
        } else if k.ctrl && k.key == Key::Char('k') {
            (self.palette_toggled(), ActionView::Nothing)
        } else if k.ctrl && k.key == Key::Char('n') {
            (self.new_session(now), ActionView::Nothing)
        } else if k.ctrl && k.key == Key::Char('v') {
            (AppView { overlay: Overlay::FileOpen, file_open_buf: Seq::empty(), ..self }, ActionView::Nothing)
        } else if k.ctrl && k.key == Key::Char('f') {
            (self, ActionView::OpenPicker { at_pos: None })
        } else if self.overlay == Overlay::CommandPalette {
            (self.palette_key(k.key), ActionView::Nothing)
        } else if self.input_mode == InputMode::Normal {
            self.normal_key(k.key, now)
        } else {
            self.typing_key(k.key, now)
        }
    }

    /// The mouse wheel turned (down or up): the palette or the chat
    /// scrolls; nothing happens while the editor is open.
    pub open spec fn wheel_turned(self, down: bool) -> AppView {
        if self.editor is Some {
            self
        } else if self.overlay == Overlay::CommandPalette {
            self.palette_key(if down { Key::Down } else { Key::Up })
        } else if down {
            self.scrolled_down(3)
        } else {
            self.scrolled_up(3)
        }
    }
}

impl App {
    /// Handles a key press at time `now`. `listings` holds what reading the
    /// working directory (the tree's root) and each directory open (or
    /// selected) in the tree gave; only the tree reads it.
    pub fn handle_key(&mut self, key: KeyInput, now: u64, listings: &Vec<DirListing>) -> (r: AppAction)
        requires
            old(self).wf(),
        ensures
            final(self).wf(),
            (final(self)@, r@) == old(self)@.key_step(key, now, filetree::listings_view(listings@)),
    {
        if key.ctrl && key.key == Key::Char('c') {
            return AppAction::Quit;
        }
        if self.editor.is_some() {
            return self.editor_mode_key(key, listings);
        }
        if self.overlay == Overlay::FileOpen || self.overlay == Overlay::ModelPicker || self.overlay == Overlay::FilePicker {
            self.panel_key(key, now, listings)
        } else {
            self.chat_key(key, now, listings)
        }
    }

    #[verifier::rlimit(40)]
    fn panel_key(&mut self, key: KeyInput, now: u64, listings: &Vec<DirListing>) -> (r: AppAction)
        requires
            old(self).wf(),
            old(self)@.editor is None,
            !(key.ctrl && key.key == Key::Char('c')),
            old(self)@.overlay == Overlay::FileOpen || old(self)@.overlay == Overlay::ModelPicker
                || old(self)@.overlay == Overlay::FilePicker,
        ensures
            final(self).wf(),
            (final(self)@, r@) == old(self)@.key_step(key, now, filetree::listings_view(listings@)),
    {
        if self.overlay == Overlay::FileOpen {
            self.file_open_key(key.key)
        } else if self.overlay == Overlay::ModelPicker {
            self.model_picker_key(key.key, now);
            AppAction::Nothing
        } else {
            self.file_picker_key(key.key);
            AppAction::Nothing
        }
    }

    fn chat_key(&mut self, key: KeyInput, now: u64, listings: &Vec<DirListing>) -> (r: AppAction)
        requires
            old(self).wf(),
            old(self)@.editor is None,
            !(key.ctrl && key.key == Key::Char('c')),
            old(self)@.overlay != Overlay::FileOpen,
            old(self)@.overlay != Overlay::ModelPicker,
            old(self)@.overlay != Overlay::FilePicker,
        ensures
            final(self).wf(),
            (final(self)@, r@) == old(self)@.key_step(key, now, filetree::listings_view(listings@)),
    {
        if key.ctrl && key.key == Key::Char('k') {
            if self.overlay == Overlay::CommandPalette {
                self.overlay = Overlay::Closed;
            } else {
                self.palette_scroll = 0;
                self.overlay = Overlay::CommandPalette;
            }
            return AppAction::Nothing;
        }
        if key.ctrl && key.key == Key::Char('n') {
            self.new_session(now);
            return AppAction::Nothing;
        }
        if key.ctrl && key.key == Key::Char('v') {
            self.overlay = Overlay::FileOpen;
            self.file_open_buf.clear();
            return AppAction::Nothing;
        }
        if key.ctrl && key.key == Key::Char('f') {
            return AppAction::OpenPicker { at_pos: None };
        }
        if self.overlay == Overlay::CommandPalette {
            self.palette_key(key.key);
            return AppAction::Nothing;
        }
        match self.input_mode {
            InputMode::Normal => self.normal_key(key.key, now),
            InputMode::Typing => self.typing_key(key.key, now),
        }
    }

    /// Handles a turn of the mouse wheel.
    pub fn handle_wheel(&mut self, down: bool)
        ensures
            final(self)@ == old(self)@.wheel_turned(down),
            old(self).wf() ==> final(self).wf(),
    {
        if self.editor.is_none() {
            if self.overlay == Overlay::CommandPalette {
                self.palette_key(if down { Key::Down } else { Key::Up });
            } else if down {
                self.scroll_down(3);
            } else {
                self.scroll_up(3);
            }
        }
    }
}

/// Scrolling the chat down and then up by the same amount comes back to
/// where it was, when it does not reach the end of the scroll range.
pub proof fn law_scroll_down_then_up(v: AppView, amount: int)
    requires
        0 <= amount,
        0 <= v.scroll,
        v.scroll + amount < usize::MAX,
    ensures
        v.scrolled_down(amount).scrolled_up(amount) == v,
{
}

/// Typing `@` asks for the file picker at the cursor; closing the picker
/// with Esc then gives back the input and the cursor as they were.
pub proof fn law_mention_then_cancel(
    v: AppView,
    now: u64,
    ls: Seq<(Seq<char>, Seq<(Seq<char>, bool)>)>,
    files: Seq<Seq<char>>,
)
    requires
        v.wf(),
        v.editor is None,
        v.overlay == Overlay::Closed,
        v.input_mode == InputMode::Typing,
        v.input.len() < usize::MAX,
    ensures
        v.key_step(KeyInput { key: Key::Char('@'), ctrl: false }, now, ls).1
            == (ActionView::OpenPicker { at_pos: Some(v.cursor_pos as usize) }),
        ({
            let v1 = v.key_step(KeyInput { key: Key::Char('@'), ctrl: false }, now, ls).0;
            let v2 = v1.picker_opened(files, Some(v.cursor_pos as usize));
            let (v3, act) = v2.key_step(KeyInput { key: Key::Esc, ctrl: false }, now, ls);
            &&& v3.input == v.input
            &&& v3.cursor_pos == v.cursor_pos
            &&& v3.overlay == Overlay::Closed
            &&& v3.picker is None
            &&& act == ActionView::Nothing
        }),
{
    let c = v.cursor_pos;
    assert((c as usize) as int == c);
    assert(v.input.insert(c, '@').remove(c) =~= v.input);
}

/// The view after the picker keys `ks`, one after another.
pub open spec fn picker_keys(v: AppView, ks: Seq<Key>) -> AppView
    decreases ks.len(),
{
    if ks.len() == 0 {
        v
    } else {
        picker_keys(v, ks.drop_last()).file_picker_key(ks.last())
    }
}

/// Keys that browse the picker (moving, typing into its filter) leave the
/// input, the cursor and the place of the `@` alone.
proof fn lemma_picker_keys_keep(v: AppView, ks: Seq<Key>)
    requires
        v.picker is Some,
        forall|i: int| 0 <= i < ks.len() ==> (#[trigger] ks[i] is Up || ks[i] is Down || ks[i] is Char),
    ensures
        picker_keys(v, ks).input == v.input,
        picker_keys(v, ks).cursor_pos == v.cursor_pos,
        picker_keys(v, ks).picker is Some,
        picker_keys(v, ks).picker.unwrap().at_pos == v.picker.unwrap().at_pos,
    decreases ks.len(),
{
    if ks.len() > 0 {
        assert forall|i: int| 0 <= i < ks.drop_last().len() implies (#[trigger] ks.drop_last()[i] is Up
            || ks.drop_last()[i] is Down || ks.drop_last()[i] is Char) by {
            assert(ks.drop_last()[i] == ks[i]);
        }
        lemma_picker_keys_keep(v, ks.drop_last());
        assert(ks[ks.len() - 1] == ks.last());
    }
}

/// Typing `@`, browsing the picker (moving in it and typing into its
/// filter, any number of times) and then cancelling it gives back the input
/// and the cursor as they were.
pub proof fn law_mention_browse_cancel(
    v: AppView,
    now: u64,
    ls: Seq<(Seq<char>, Seq<(Seq<char>, bool)>)>,
    files: Seq<Seq<char>>,
    ks: Seq<Key>,
)
    requires
        v.wf(),
        v.editor is None,
        v.overlay == Overlay::Closed,
        v.input_mode == InputMode::Typing,
        v.input.len() < usize::MAX,
        forall|i: int| 0 <= i < ks.len() ==> (#[trigger] ks[i] is Up || ks[i] is Down || ks[i] is Char),
    ensures
        ({
            let v1 = v.key_step(KeyInput { key: Key::Char('@'), ctrl: false }, now, ls).0;
            let v2 = v1.picker_opened(files, Some(v.cursor_pos as usize));
            let v3 = picker_keys(v2, ks).picker_cancelled();
            &&& v3.input == v.input
            &&& v3.cursor_pos == v.cursor_pos
            &&& v3.overlay == Overlay::Closed
            &&& v3.picker is None
        }),
{
    let c = v.cursor_pos;
    assert((c as usize) as int == c);
    assert(v.input.insert(c, '@').remove(c) =~= v.input);
    let v1 = v.key_step(KeyInput { key: Key::Char('@'), ctrl: false }, now, ls).0;
    let v2 = v1.picker_opened(files, Some(v.cursor_pos as usize));
    lemma_picker_keys_keep(v2, ks);
}

/// Typing `@` and then choosing a file in the picker puts `@`, the file's
/// name and a space where the `@` was typed, moves the cursor after them,
/// and attaches the file.
pub proof fn law_mention_then_choose(
    v: AppView,
    now: u64,
    ls: Seq<(Seq<char>, Seq<(Seq<char>, bool)>)>,
    files: Seq<Seq<char>>,
)
    requires
        v.wf(),
        v.editor is None,
        v.overlay == Overlay::Closed,
        v.input_mode == InputMode::Typing,
        v.input.len() < usize::MAX,
        files.len() > 0,
    ensures
        ({
            let c = v.cursor_pos;
            let v1 = v.key_step(KeyInput { key: Key::Char('@'), ctrl: false }, now, ls).0;
            let v2 = v1.picker_opened(files, Some(c as usize));
            let (v3, act) = v2.key_step(KeyInput { key: Key::Enter, ctrl: false }, now, ls);
            let mention = seq!['@'] + files[0] + seq![' '];
            &&& v3.input == v.input.take(c) + mention + v.input.skip(c)
            &&& v3.cursor_pos == c + mention.len()
            &&& v3.attached_files == v.attached_files.push(files[0])
            &&& v3.picker is None
            &&& act == ActionView::Nothing
        }),
{
    let c = v.cursor_pos;
    assert((c as usize) as int == c);
    let base = v.input.insert(c, '@').remove(c);
    assert(base =~= v.input);
}

/// A new session clears the conversation and keeps the connection: the
/// key, the model and the provider shown stay as they were.
pub proof fn law_new_session_keeps_provider(v: AppView, now: u64)
    ensures
        v.new_session(now).messages.len() == 0,
        v.new_session(now).input.len() == 0,
        v.new_session(now).cerebras_key == v.cerebras_key,
        v.new_session(now).cerebras_model == v.cerebras_model,
        v.new_session(now).provider_name == v.provider_name,
        v.new_session(now).provider == v.provider,
        v.new_session(now).provider_key == v.provider_key,
        v.new_session(now).exa_key == v.exa_key,
{
}

/// Connecting with `/connect cerebras <key>` keeps the model picked before,
/// or uses `gpt-oss-120b` when none was; `/connect cerebras <key> <model>`
/// uses the model given; either way Cerebras becomes the connected service.
pub proof fn law_connect_model(v: AppView, key: Seq<char>, model: Option<Seq<char>>, input: Seq<char>, now: u64)
    ensures
        ({
            let after = v.command_done(CommandView::Connect { provider: ProviderKind::Cerebras, api_key: key, model }, input, now).0;
            &&& after.provider == Some(ProviderKind::Cerebras)
            &&& after.provider_key == Some(key)
            &&& after.cerebras_key == Some(key)
            &&& after.cerebras_model == Some(match model {
                Some(m) => m,
                None => match v.cerebras_model {
                    Some(m) => m,
                    None => "gpt-oss-120b"@,
                },
            })
            &&& after.connected_model() == after.cerebras_model.unwrap()
        }),
{
}

/// Connecting Anthropic or Codex makes it the connected service, asked
/// with the model named (or Codex's default, `gpt-4o`), and leaves the
/// Cerebras key and model as they were; Anthropic with no model named is
/// not connected, and the usage is shown.
pub proof fn law_connect_other(v: AppView, kind: ProviderKind, key: Seq<char>, model: Option<Seq<char>>, input: Seq<char>, now: u64)
    requires
        kind != ProviderKind::Cerebras,
    ensures
        ({
            let after = v.command_done(CommandView::Connect { provider: kind, api_key: key, model }, input, now).0;
            match (match model { Some(m) => Some(m), None => default_model(kind) }) {
                Some(m) => {
                    &&& after.provider == Some(kind)
                    &&& after.provider_key == Some(key)
                    &&& after.provider_model == Some(m)
                    &&& after.connected_model() == m
                    &&& after.provider_name == Some(connection_name(kind, m))
                    &&& after.cerebras_key == v.cerebras_key
                    &&& after.cerebras_model == v.cerebras_model
                },
                None => kind == ProviderKind::Anthropic && after == v.flashed(model_usage(kind), now),
            }
        }),
{
}

} // verus!
