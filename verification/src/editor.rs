//! A modal (vi-like) text buffer: lines of characters, a cursor, and the
//! `:w`, `:wq`, `:q`, `:q!` commands. Reading and writing the file is the
//! caller's: `open` takes the file's text, and `:w` hands back what to write.
use vstd::prelude::*;
use crate::text::{chars_eq, chars_of, lines_of, push_all, push_str, string_of, trim_chars};
use crate::text;
use crate::keys::Key;

verus! {

#[derive(Debug, Clone, Copy, PartialEq, Eq, Structural)]
pub enum EditorMode {
    Normal,
    Insert,
    Command,
}

#[derive(Debug, Clone, Copy, PartialEq, Eq, Structural)]
pub enum EditorAction {
    Stay,
    Quit,
}

/// What a command asks of the caller: nothing more, or to write `content` to
/// `path` and then report back with `finish_write`.
pub enum CommandStep {
    Done(EditorAction),
    Write { path: String, content: String, quit_after: bool },
}

/// What a command asks of the caller, abstractly.
pub enum StepView {
    Done(EditorAction),
    Write { path: Seq<char>, content: Seq<char>, quit_after: bool },
}

impl View for CommandStep {
    type V = StepView;

    open spec fn view(&self) -> StepView {
        match self {
            CommandStep::Done(a) => StepView::Done(*a),
            CommandStep::Write { path, content, quit_after } => StepView::Write {
                path: path@,
                content: content@,
                quit_after: *quit_after,
            },
        }
    }
}

pub struct EditorState {
    pub lines: Vec<Vec<char>>,
    pub cursor_row: usize,
    pub cursor_col: usize,
    pub scroll_row: usize,
    pub file_path: Option<String>,
    pub dirty: bool,
    pub mode: EditorMode,
    pub command_buf: Vec<char>,
    pub status_msg: Option<String>,
    pub pending_d: bool,
    pub cache_dirty: bool,
}

/// The abstract state of an editor.
pub struct EditorView {
    pub lines: Seq<Seq<char>>,
    pub row: int,
    pub col: int,
    pub scroll: int,
    pub path: Option<Seq<char>>,
    pub dirty: bool,
    pub mode: EditorMode,
    pub command: Seq<char>,
    pub status: Option<Seq<char>>,
    pub pending_d: bool,
    pub cache_dirty: bool,
}

pub open spec fn opt_view(o: Option<String>) -> Option<Seq<char>> {
    match o {
        Some(s) => Some(s@),
        None => None,
    }
}

pub open spec fn lines_view(v: Seq<Vec<char>>) -> Seq<Seq<char>> {
    v.map_values(|l: Vec<char>| l@)
}

impl View for EditorState {
    type V = EditorView;

    open spec fn view(&self) -> EditorView {
        EditorView {
            lines: lines_view(self.lines@),
            row: self.cursor_row as int,
            col: self.cursor_col as int,
            scroll: self.scroll_row as int,
            path: opt_view(self.file_path),
            dirty: self.dirty,
            mode: self.mode,
            command: self.command_buf@,
            status: opt_view(self.status_msg),
            pending_d: self.pending_d,
            cache_dirty: self.cache_dirty,
        }
    }
}

/// `min(a, b)`.
pub open spec fn min(a: int, b: int) -> int {
    if a <= b { a } else { b }
}

/// The text of a buffer: its lines joined by `'\n'`.
pub open spec fn join_lines(ls: Seq<Seq<char>>) -> Seq<char>
    decreases ls.len(),
{
    if ls.len() == 0 {
        Seq::empty()
    } else if ls.len() == 1 {
        ls[0]
    } else {
        join_lines(ls.drop_last()).push('\n') + ls.last()
    }
}

/// The lines a buffer opened on `content` holds: the lines of the text, or a
/// single empty line when there are none.
pub open spec fn buffer_lines(content: Option<Seq<char>>) -> Seq<Seq<char>> {
    match content {
        Some(c) => if text::split_lines(c).len() == 0 { seq![Seq::empty()] } else { text::split_lines(c) },
        None => seq![Seq::empty()],
    }
}

/// A buffer on the file `path` holding `content`, in normal mode, with the
/// cursor at the start.
pub open spec fn opened(path: Option<Seq<char>>, content: Option<Seq<char>>) -> EditorView {
    EditorView {
        lines: buffer_lines(content),
        row: 0,
        col: 0,
        scroll: 0,
        path,
        dirty: false,
        mode: EditorMode::Normal,
        command: Seq::empty(),
        status: None,
        pending_d: false,
        cache_dirty: true,
    }
}

impl EditorView {
    /// A buffer has a line, and the cursor stands on a line, at most one
    /// place past its last character.
    pub open spec fn wf(self) -> bool {
        &&& self.lines.len() >= 1
        &&& 0 <= self.row < self.lines.len()
        &&& 0 <= self.col <= self.lines[self.row].len()
    }

    /// The cursor's column, moved onto row `r`.
    pub open spec fn col_on(self, r: int) -> int {
        min(self.col, self.lines[r].len() as int)
    }

    /// The editor after a command line has been run, apart from what the
    /// command reports (see `command_step_ok`).
    pub open spec fn command_run(self) -> EditorView {
        let cmd = text::trim(self.command);
        let base = EditorView { command: Seq::empty(), mode: EditorMode::Normal, ..self };
        if cmd == "w"@ || cmd == "wq"@ {
            match self.path {
                None => EditorView { status: Some("E: "@ + "no file name"@), ..base },
                Some(_) => base,
            }
        } else if cmd == "q"@ {
            if self.dirty {
                EditorView { status: Some("unsaved changes \u{2014} use :w to save, :q! to discard"@), ..base }
            } else {
                base
            }
        } else if cmd == "q!"@ {
            base
        } else {
            EditorView { status: Some("unknown command: :"@ + cmd), ..base }
        }
    }

    /// What running the command line asks of the caller.
    pub open spec fn command_step_ok(self, r: CommandStep) -> bool {
        let cmd = text::trim(self.command);
        if cmd == "w"@ || cmd == "wq"@ {
            match self.path {
                None => r == CommandStep::Done(EditorAction::Stay),
                Some(p) => r matches CommandStep::Write { path, content, quit_after }
                    && path@ == p && content@ == join_lines(self.lines) && quit_after == (cmd == "wq"@),
            }
        } else if cmd == "q"@ {
            r == CommandStep::Done(if self.dirty { EditorAction::Stay } else { EditorAction::Quit })
        } else if cmd == "q!"@ {
            r == CommandStep::Done(EditorAction::Quit)
        } else {
            r == CommandStep::Done(EditorAction::Stay)
        }
    }

    /// What running the command line asks of the caller.
    pub open spec fn command_result(self) -> StepView {
        let cmd = text::trim(self.command);
        if cmd == "w"@ || cmd == "wq"@ {
            match self.path {
                None => StepView::Done(EditorAction::Stay),
                Some(p) => StepView::Write { path: p, content: join_lines(self.lines), quit_after: cmd == "wq"@ },
            }
        } else if cmd == "q"@ {
            StepView::Done(if self.dirty { EditorAction::Stay } else { EditorAction::Quit })
        } else if cmd == "q!"@ {
            StepView::Done(EditorAction::Quit)
        } else {
            StepView::Done(EditorAction::Stay)
        }
    }

    /// The editor after the result of writing the file is known.
    pub open spec fn write_finished(self, written: Result<(), String>) -> EditorView {
        match self.path {
            None => EditorView { status: Some("E: "@ + "no file name"@), ..self },
            Some(p) => match written {
                Ok(_) => EditorView { dirty: false, status: Some("\""@ + p + "\" written"@), ..self },
                Err(e) => EditorView { status: Some("E: "@ + e@), ..self },
            },
        }
    }

    /// The editor after `key` is pressed (for every key but Enter on the
    /// command line, which runs the command).
    pub open spec fn key_pressed(self, key: Key) -> EditorView {
        match self.mode {
            EditorMode::Normal => {
                if self.pending_d {
                    let v = EditorView { pending_d: false, ..self };
                    if key == Key::Char('d') { v.line_deleted() } else { v }
                } else {
                    match key {
                        Key::Char('h') | Key::Left => self.moved_left(),
                        Key::Char('j') | Key::Down => self.moved_down(),
                        Key::Char('k') | Key::Up => self.moved_up(),
                        Key::Char('l') | Key::Right => self.moved_right(),
                        Key::Char('0') => self.at_line_start(),
                        Key::Char('$') => self.at_line_end(),
                        Key::Char('g') => self.at_first_line(),
                        Key::Char('G') => self.at_last_line(),
                        Key::Char('i') => EditorView { mode: EditorMode::Insert, status: None, ..self },
                        Key::Char('a') => EditorView { mode: EditorMode::Insert, status: None, ..self.moved_right() },
                        Key::Char('o') => self.line_opened_below(),
                        Key::Char('O') => self.line_opened_above(),
                        Key::Char('d') => EditorView { pending_d: true, ..self },
                        Key::Char('x') => self.char_deleted(),
                        Key::Char(':') => EditorView {
                            mode: EditorMode::Command,
                            command: Seq::empty(),
                            status: None,
                            ..self
                        },
                        _ => self,
                    }
                }
            },
            EditorMode::Insert => match key {
                Key::Esc => EditorView {
                    mode: EditorMode::Normal,
                    col: if self.col > 0 { self.col - 1 } else { self.col },
                    ..self
                },
                Key::Enter => self.line_split(),
                Key::Backspace => self.backspaced(),
                Key::Delete => self.char_deleted(),
                Key::Left => self.moved_left(),
                Key::Right => self.moved_right(),
                Key::Up => self.moved_up(),
                Key::Down => self.moved_down(),
                Key::Home => self.at_line_start(),
                Key::End => self.at_line_end(),
                Key::Char(c) => self.char_inserted(c),
                _ => self,
            },
            EditorMode::Command => match key {
                Key::Esc => EditorView { mode: EditorMode::Normal, command: Seq::empty(), ..self },
                Key::Backspace => if self.command.len() == 0 {
                    EditorView { mode: EditorMode::Normal, ..self }
                } else {
                    EditorView { command: self.command.drop_last(), ..self }
                },
                Key::Char(c) => EditorView { command: self.command.push(c), ..self },
                _ => self,
            },
        }
    }

    pub open spec fn moved_up(self) -> EditorView {
        if self.row > 0 {
            EditorView { row: self.row - 1, col: self.col_on(self.row - 1), ..self }
        } else {
            self
        }
    }

    pub open spec fn moved_down(self) -> EditorView {
        if self.row + 1 < self.lines.len() {
            EditorView { row: self.row + 1, col: self.col_on(self.row + 1), ..self }
        } else {
            self
        }
    }

    pub open spec fn moved_left(self) -> EditorView {
        if self.col > 0 {
            EditorView { col: self.col - 1, ..self }
        } else {
            self
        }
    }

    pub open spec fn moved_right(self) -> EditorView {
        if self.col < self.lines[self.row].len() {
            EditorView { col: self.col + 1, ..self }
        } else {
            self
        }
    }

    pub open spec fn at_line_start(self) -> EditorView {
        (EditorView { col: 0, ..self })
    }

    pub open spec fn at_line_end(self) -> EditorView {
        (EditorView { col: self.lines[self.row].len() as int, ..self })
    }

    pub open spec fn at_first_line(self) -> EditorView {
        (EditorView { row: 0, col: self.col_on(0), ..self })
    }

    pub open spec fn at_last_line(self) -> EditorView {
        (EditorView {
            row: self.lines.len() - 1,
            col: self.col_on(self.lines.len() - 1),
            ..self
        })
    }

    pub open spec fn char_inserted(self, c: char) -> EditorView {
        (EditorView {
            lines: self.lines.update(self.row, self.lines[self.row].insert(self.col, c)),
            col: self.col + 1,
            dirty: true,
            cache_dirty: true,
            ..self
        })
    }

    pub open spec fn backspaced(self) -> EditorView {
        if self.col > 0 {
            EditorView {
                lines: self.lines.update(self.row, self.lines[self.row].remove(self.col - 1)),
                col: self.col - 1,
                dirty: true,
                cache_dirty: true,
                ..self
            }
        } else if self.row > 0 {
            EditorView {
                lines: self.lines.remove(self.row).update(
                    self.row - 1,
                    self.lines[self.row - 1] + self.lines[self.row],
                ),
                row: self.row - 1,
                col: self.lines[self.row - 1].len() as int,
                dirty: true,
                cache_dirty: true,
                ..self
            }
        } else {
            self
        }
    }

    pub open spec fn char_deleted(self) -> EditorView {
        if self.col < self.lines[self.row].len() {
            EditorView {
                lines: self.lines.update(self.row, self.lines[self.row].remove(self.col)),
                dirty: true,
                cache_dirty: true,
                ..self
            }
        } else if self.row + 1 < self.lines.len() {
            EditorView {
                lines: self.lines.update(
                    self.row,
                    self.lines[self.row] + self.lines[self.row + 1],
                ).remove(self.row + 1),
                dirty: true,
                cache_dirty: true,
                ..self
            }
        } else {
            self
        }
    }

    pub open spec fn line_split(self) -> EditorView {
        (EditorView {
            lines: self.lines.update(self.row, self.lines[self.row].take(self.col)).insert(
                self.row + 1,
                self.lines[self.row].skip(self.col),
            ),
            row: self.row + 1,
            col: 0,
            dirty: true,
            cache_dirty: true,
            ..self
        })
    }

    pub open spec fn line_deleted(self) -> EditorView {
        if self.lines.len() > 1 {
            let ls = self.lines.remove(self.row);
            let r = if self.row >= ls.len() { ls.len() - 1 } else { self.row };
            EditorView {
                lines: ls,
                row: r,
                col: min(self.col, ls[r].len() as int),
                dirty: true,
                cache_dirty: true,
                ..self
            }
        } else {
            EditorView {
                lines: seq![Seq::empty()],
                col: 0,
                dirty: true,
                cache_dirty: true,
                ..self
            }
        }
    }

    pub open spec fn line_opened_below(self) -> EditorView {
        (EditorView {
            lines: self.lines.insert(self.row + 1, Seq::empty()),
            row: self.row + 1,
            col: 0,
            mode: EditorMode::Insert,
            dirty: true,
            cache_dirty: true,
            ..self
        })
    }

    pub open spec fn line_opened_above(self) -> EditorView {
        (EditorView {
            lines: self.lines.insert(self.row, Seq::empty()),
            col: 0,
            mode: EditorMode::Insert,
            dirty: true,
            cache_dirty: true,
            ..self
        })
    }

    pub open spec fn scrolled(self, visible_height: usize) -> EditorView {
        if visible_height == 0 {
            self
        } else if self.row < self.scroll {
            EditorView { scroll: self.row, ..self }
        } else if self.row >= self.scroll + visible_height {
            EditorView { scroll: self.row + 1 - visible_height, ..self }
        } else {
            self
        }
    }
}

impl EditorState {
    pub open spec fn wf(&self) -> bool {
        self@.wf()
    }

    /// A buffer on the file `file_path`, holding `content` (the file's text,
    /// or `None` when there is no file or it could not be read), in normal
    /// mode, with the cursor at the start.
    pub fn open(file_path: Option<String>, content: Option<String>) -> (r: Self)
        ensures
            r.wf(),
            r@ == opened(opt_view(file_path), opt_view(content)),
    {
        let mut lines: Vec<Vec<char>> = match content {
            Some(c) => {
                let cs = chars_of(c.as_str());
                lines_of(&cs)
            },
            None => Vec::new(),
        };
        if lines.len() == 0 {
            lines = Vec::new();
            lines.push(Vec::new());
            assert(lines_view(lines@) =~= seq![Seq::<char>::empty()]);
        }
        let r = EditorState {
            lines,
            cursor_row: 0,
            cursor_col: 0,
            scroll_row: 0,
            file_path,
            dirty: false,
            mode: EditorMode::Normal,
            command_buf: Vec::new(),
            status_msg: None,
            pending_d: false,
            cache_dirty: true,
        };
        assert(r@.lines =~= buffer_lines(opt_view(content)));
        r
    }

    fn line_len(&self, row: usize) -> (n: usize)
        requires
            row < self.lines.len(),
        ensures
            n == self@.lines[row as int].len(),
    {
        self.lines[row].len()
    }

    fn clamp_col(&mut self)
        requires
            old(self).cursor_row < old(self).lines.len(),
        ensures
            final(self)@ == (EditorView { col: old(self)@.col_on(old(self)@.row), ..old(self)@ }),
    {
        let max = self.lines[self.cursor_row].len();
        if self.cursor_col > max {
            self.cursor_col = max;
        }
    }

    pub fn move_up(&mut self)
        requires
            old(self).wf(),
        ensures
            final(self).wf(),
            final(self)@ == old(self)@.moved_up(),
    {
        if self.cursor_row > 0 {
            self.cursor_row -= 1;
            self.clamp_col();
        }
    }

    pub fn move_down(&mut self)
        requires
            old(self).wf(),
        ensures
            final(self).wf(),
            final(self)@ == old(self)@.moved_down(),
    {
        if self.cursor_row < self.lines.len() - 1 {
            self.cursor_row += 1;
            self.clamp_col();
        }
    }

    pub fn move_left(&mut self)
        requires
            old(self).wf(),
        ensures
            final(self).wf(),
            final(self)@ == old(self)@.moved_left(),
    {
        if self.cursor_col > 0 {
            self.cursor_col -= 1;
        }
    }

    pub fn move_right(&mut self)
        requires
            old(self).wf(),
        ensures
            final(self).wf(),
            final(self)@ == old(self)@.moved_right(),
    {
        let max = self.lines[self.cursor_row].len();
        if self.cursor_col < max {
            self.cursor_col += 1;
        }
    }

    pub fn goto_line_start(&mut self)
        requires
            old(self).wf(),
        ensures
            final(self).wf(),
            final(self)@ == old(self)@.at_line_start(),
    {
        self.cursor_col = 0;
    }

    pub fn goto_line_end(&mut self)
        requires
            old(self).wf(),
        ensures
            final(self).wf(),
            final(self)@ == old(self)@.at_line_end(),
    {
        self.cursor_col = self.lines[self.cursor_row].len();
    }

    pub fn goto_first_line(&mut self)
        requires
            old(self).wf(),
        ensures
            final(self).wf(),
            final(self)@ == old(self)@.at_first_line(),
    {
        self.cursor_row = 0;
        self.clamp_col();
    }

    pub fn goto_last_line(&mut self)
        requires
            old(self).wf(),
        ensures
            final(self).wf(),
            final(self)@ == old(self)@.at_last_line(),
    {
        self.cursor_row = self.lines.len().saturating_sub(1);
        self.clamp_col();
    }

    pub fn insert_char(&mut self, c: char)
        requires
            old(self).wf(),
        ensures
            final(self).wf(),
            final(self)@ == old(self)@.char_inserted(c),
    {
        let ghost lv = self@.lines;
        let col = self.cursor_col;
        let row = self.cursor_row;
        self.lines[row].insert(col, c);
        let new_len = self.lines[row].len();
        assert(col < new_len);
        self.cursor_col = col + 1;
        self.dirty = true;
        self.cache_dirty = true;
        assert(self@.lines =~= lv.update(row as int, lv[row as int].insert(col as int, c)));
    }

    pub fn backspace(&mut self)
        requires
            old(self).wf(),
        ensures
            final(self).wf(),
            final(self)@ == old(self)@.backspaced(),
    {
        let ghost lv = self@.lines;
        let row = self.cursor_row;
        if self.cursor_col > 0 {
            let col = self.cursor_col - 1;
            self.cursor_col = col;
            self.lines[row].remove(col);
            self.dirty = true;
            self.cache_dirty = true;
            assert(self@.lines =~= lv.update(row as int, lv[row as int].remove(col as int)));
        } else if row > 0 {
            let current = self.lines.remove(row);
            self.cursor_row = row - 1;
            self.cursor_col = self.lines[row - 1].len();
            push_all(&mut self.lines[row - 1], &current);
            self.dirty = true;
            self.cache_dirty = true;
            assert(self@.lines =~= lv.remove(row as int).update(row - 1, lv[row - 1] + lv[row as int]));
        }
    }

    pub fn delete_char(&mut self)
        requires
            old(self).wf(),
        ensures
            final(self).wf(),
            final(self)@ == old(self)@.char_deleted(),
    {
        let ghost lv = self@.lines;
        let row = self.cursor_row;
        let col = self.cursor_col;
        let line_len = self.lines[row].len();
        if col < line_len {
            self.lines[row].remove(col);
            self.dirty = true;
            self.cache_dirty = true;
            assert(self@.lines =~= lv.update(row as int, lv[row as int].remove(col as int)));
        } else if row < self.lines.len() - 1 {
            let next = self.lines.remove(row + 1);
            push_all(&mut self.lines[row], &next);
            self.dirty = true;
            self.cache_dirty = true;
            assert(self@.lines =~= lv.update(row as int, lv[row as int] + lv[row + 1]).remove(row + 1));
        }
    }

    pub fn enter(&mut self)
        requires
            old(self).wf(),
        ensures
            final(self).wf(),
            final(self)@ == old(self)@.line_split(),
    {
        let ghost lv = self@.lines;
        let row = self.cursor_row;
        let col = self.cursor_col;
        let rest = self.lines[row].split_off(col);
        assert(row < self.lines.len());
        self.lines.insert(row + 1, rest);
        self.cursor_row = row + 1;
        self.cursor_col = 0;
        self.dirty = true;
        self.cache_dirty = true;
        assert(self@.lines =~= lv.update(row as int, lv[row as int].take(col as int)).insert(
            row + 1,
            lv[row as int].skip(col as int),
        ));
    }

    pub fn delete_line(&mut self)
        requires
            old(self).wf(),
        ensures
            final(self).wf(),
            final(self)@ == old(self)@.line_deleted(),
    {
        let ghost lv = self@.lines;
        if self.lines.len() > 1 {
            let row = self.cursor_row;
            self.lines.remove(row);
            assert(self@.lines =~= lv.remove(row as int));
            if self.cursor_row >= self.lines.len() {
                self.cursor_row = self.lines.len() - 1;
            }
        } else {
            self.lines[0].clear();
            self.cursor_col = 0;
            assert(self@.lines =~= seq![Seq::<char>::empty()]);
        }
        self.clamp_col();
        self.dirty = true;
        self.cache_dirty = true;
    }

    pub fn open_line_below(&mut self)
        requires
            old(self).wf(),
        ensures
            final(self).wf(),
            final(self)@ == old(self)@.line_opened_below(),
    {
        let ghost lv = self@.lines;
        let row = self.cursor_row;
        assert(row < self.lines.len());
        self.lines.insert(row + 1, Vec::new());
        self.cursor_row = row + 1;
        self.cursor_col = 0;
        self.mode = EditorMode::Insert;
        self.dirty = true;
        self.cache_dirty = true;
        assert(self@.lines =~= lv.insert(row + 1, Seq::empty()));
    }

    pub fn open_line_above(&mut self)
        requires
            old(self).wf(),
        ensures
            final(self).wf(),
            final(self)@ == old(self)@.line_opened_above(),
    {
        let ghost lv = self@.lines;
        let row = self.cursor_row;
        self.lines.insert(row, Vec::new());
        self.cursor_col = 0;
        self.mode = EditorMode::Insert;
        self.dirty = true;
        self.cache_dirty = true;
        assert(self@.lines =~= lv.insert(row as int, Seq::empty()));
    }

    /// Scrolls just enough that the cursor's row is among the
    /// `visible_height` rows shown.
    pub fn scroll_to_cursor(&mut self, visible_height: usize)
        requires
            old(self).wf(),
        ensures
            final(self).wf(),
            final(self)@ == old(self)@.scrolled(visible_height),
            visible_height > 0 ==> final(self)@.scroll <= final(self)@.row < final(self)@.scroll + visible_height,
    {
        if visible_height == 0 {
            return;
        }
        if self.cursor_row < self.scroll_row {
            self.scroll_row = self.cursor_row;
        } else if self.cursor_row - self.scroll_row >= visible_height {
            self.scroll_row = self.cursor_row - (visible_height - 1);
        }
    }

    /// The text of the buffer: its lines joined by `'\n'`.
    pub fn content(&self) -> (r: Vec<char>)
        requires
            self.wf(),
        ensures
            r@ == join_lines(self@.lines),
    {
        let ghost lv = self@.lines;
        let mut out: Vec<char> = self.lines[0].clone();
        assert(out@ =~= self.lines@[0]@);
        assert(lv.take(1) =~= seq![lv[0]]);
        let mut i: usize = 1;
        while i < self.lines.len()
            invariant
                1 <= i <= self.lines.len(),
                lv == self@.lines,
                out@ == join_lines(lv.take(i as int)),
            decreases self.lines.len() - i,
        {
            out.push('\n');
            push_all(&mut out, &self.lines[i]);
            assert(lv.take(i + 1).drop_last() =~= lv.take(i as int));
            assert(lv.take(i + 1).last() == lv[i as int]);
            i = i + 1;
        }
        assert(lv.take(lv.len() as int) =~= lv);
        out
    }

    /// Where and what `:w` writes: the file's path and the buffer's text, or
    /// an error when the buffer has no file.
    pub fn save_target(&self) -> (r: Result<(String, String), String>)
        requires
            self.wf(),
        ensures
            match self@.path {
                None => r matches Err(e) && e@ == "no file name"@,
                Some(p) => r matches Ok((path, content)) && path@ == p && content@ == join_lines(self@.lines),
            },
    {
        match &self.file_path {
            None => Err(String::from_str("no file name")),
            Some(p) => {
                let c = self.content();
                Ok((p.clone(), string_of(&c)))
            },
        }
    }

    /// Completes a save, given how writing the file went: on success the
    /// buffer is clean and says it was written.
    pub fn save(&mut self, written: Result<(), String>) -> (r: Result<(), String>)
        ensures
            match old(self)@.path {
                None => final(self)@ == old(self)@ && (r matches Err(e) && e@ == "no file name"@),
                Some(p) => match written {
                    Ok(_) => r is Ok && final(self)@ == (EditorView {
                        dirty: false,
                        status: Some("\""@ + p + "\" written"@),
                        ..old(self)@
                    }),
                    Err(e) => final(self)@ == old(self)@ && r == Err::<(), String>(e),
                },
            },
    {
        match &self.file_path {
            None => Err(String::from_str("no file name")),
            Some(p) => match written {
                Ok(_) => {
                    let mut msg: Vec<char> = Vec::new();
                    push_str(&mut msg, "\"");
                    push_str(&mut msg, p.as_str());
                    push_str(&mut msg, "\" written");
                    self.dirty = false;
                    self.status_msg = Some(string_of(&msg));
                    Ok(())
                },
                Err(e) => Err(e),
            },
        }
    }

    /// Reports how writing the file that `:w` or `:wq` asked for went.
    pub fn finish_write(&mut self, written: Result<(), String>, quit_after: bool) -> (r: EditorAction)
        ensures
            final(self)@ == old(self)@.write_finished(written),
            r == if old(self)@.path is Some && written is Ok && quit_after { EditorAction::Quit } else { EditorAction::Stay },
    {
        match self.save(written) {
            Ok(_) => if quit_after { EditorAction::Quit } else { EditorAction::Stay },
            Err(e) => {
                let mut msg: Vec<char> = Vec::new();
                push_str(&mut msg, "E: ");
                push_str(&mut msg, e.as_str());
                self.status_msg = Some(string_of(&msg));
                EditorAction::Stay
            },
        }
    }

    /// Runs the command line (`:w`, `:wq`, `:q`, `:q!`), back in normal mode.
    pub fn execute_command(&mut self) -> (r: CommandStep)
        requires
            old(self).wf(),
        ensures
            final(self).wf(),
            final(self)@ == old(self)@.command_run(),
            old(self)@.command_step_ok(r),
            r@ == old(self)@.command_result(),
    {
        proof {
            reveal_strlit("w");
            reveal_strlit("wq");
            reveal_strlit("q");
            reveal_strlit("q!");
        }
        let cmd = trim_chars(&self.command_buf);
        self.command_buf.clear();
        self.mode = EditorMode::Normal;
        let is_w = chars_eq(&cmd, &chars_of("w"));
        let is_wq = chars_eq(&cmd, &chars_of("wq"));
        if is_w || is_wq {
            match self.save_target() {
                Err(e) => {
                    let mut msg: Vec<char> = Vec::new();
                    push_str(&mut msg, "E: ");
                    push_str(&mut msg, e.as_str());
                    self.status_msg = Some(string_of(&msg));
                    CommandStep::Done(EditorAction::Stay)
                },
                Ok((path, content)) => CommandStep::Write { path, content, quit_after: is_wq },
            }
        } else if chars_eq(&cmd, &chars_of("q")) {
            if self.dirty {
                self.status_msg = Some(String::from_str("unsaved changes \u{2014} use :w to save, :q! to discard"));
                CommandStep::Done(EditorAction::Stay)
            } else {
                CommandStep::Done(EditorAction::Quit)
            }
        } else if chars_eq(&cmd, &chars_of("q!")) {
            CommandStep::Done(EditorAction::Quit)
        } else {
            let mut msg: Vec<char> = Vec::new();
            push_str(&mut msg, "unknown command: :");
            push_all(&mut msg, &cmd);
            self.status_msg = Some(string_of(&msg));
            CommandStep::Done(EditorAction::Stay)
        }
    }

    /// Handles a key press in the editor.
    pub fn handle_key(&mut self, key: Key) -> (r: CommandStep)
        requires
            old(self).wf(),
        ensures
            final(self).wf(),
            old(self)@.mode == EditorMode::Command && key == Key::Enter ==> final(self)@ == old(self)@.command_run()
                && old(self)@.command_step_ok(r) && r@ == old(self)@.command_result(),
            !(old(self)@.mode == EditorMode::Command && key == Key::Enter) ==> final(self)@ == old(self)@.key_pressed(key)
                && r == CommandStep::Done(EditorAction::Stay),
    {
        match self.mode {
            EditorMode::Normal => {
                if self.pending_d {
                    self.pending_d = false;
                    if key == Key::Char('d') {
                        self.delete_line();
                    }
                    return CommandStep::Done(EditorAction::Stay);
                }
                match key {
                    Key::Char('h') | Key::Left => self.move_left(),
                    Key::Char('j') | Key::Down => self.move_down(),
                    Key::Char('k') | Key::Up => self.move_up(),
                    Key::Char('l') | Key::Right => self.move_right(),
                    Key::Char('0') => self.goto_line_start(),
                    Key::Char('$') => self.goto_line_end(),
                    Key::Char('g') => self.goto_first_line(),
                    Key::Char('G') => self.goto_last_line(),
                    Key::Char('i') => {
                        self.mode = EditorMode::Insert;
                        self.status_msg = None;
                    },
                    Key::Char('a') => {
                        self.move_right();
                        self.mode = EditorMode::Insert;
                        self.status_msg = None;
                    },
                    Key::Char('o') => self.open_line_below(),
                    Key::Char('O') => self.open_line_above(),
                    Key::Char('d') => self.pending_d = true,
                    Key::Char('x') => self.delete_char(),
                    Key::Char(':') => {
                        self.mode = EditorMode::Command;
                        self.command_buf.clear();
                        self.status_msg = None;
                    },
                    _ => {},
                }
                CommandStep::Done(EditorAction::Stay)
            },
            EditorMode::Insert => {
                match key {
                    Key::Esc => {
                        self.mode = EditorMode::Normal;
                        if self.cursor_col > 0 {
                            self.cursor_col -= 1;
                        }
                    },
                    Key::Enter => self.enter(),
                    Key::Backspace => self.backspace(),
                    Key::Delete => self.delete_char(),
                    Key::Left => self.move_left(),
                    Key::Right => self.move_right(),
                    Key::Up => self.move_up(),
                    Key::Down => self.move_down(),
                    Key::Home => self.goto_line_start(),
                    Key::End => self.goto_line_end(),
                    Key::Char(c) => self.insert_char(c),
                    _ => {},
                }
                CommandStep::Done(EditorAction::Stay)
            },
            EditorMode::Command => {
                match key {
                    Key::Esc => {
                        self.mode = EditorMode::Normal;
                        self.command_buf.clear();
                    },
                    Key::Enter => return self.execute_command(),
                    Key::Backspace => {
                        if self.command_buf.len() == 0 {
                            self.mode = EditorMode::Normal;
                        } else {
                            self.command_buf.pop();
                        }
                    },
                    Key::Char(c) => self.command_buf.push(c),
                    _ => {},
                }
                CommandStep::Done(EditorAction::Stay)
            },
        }
    }
}

} // verus!

verus! {

/// Typing a character and then deleting it with backspace gives back the
/// buffer and the cursor (the buffer is then marked as changed).
pub proof fn law_insert_then_backspace(v: EditorView, c: char)
    requires
        v.wf(),
    ensures
        v.char_inserted(c).backspaced() == (EditorView { dirty: true, cache_dirty: true, ..v }),
{
    let w = v.char_inserted(c);
    assert(w.lines[v.row].remove(v.col) =~= v.lines[v.row]);
    assert(w.lines.update(v.row, w.lines[v.row].remove(v.col)) =~= v.lines);
}

proof fn lemma_join_concat(a: Seq<Seq<char>>, b: Seq<Seq<char>>)
    requires
        a.len() > 0,
        b.len() > 0,
    ensures
        join_lines(a + b) == join_lines(a).push('\n') + join_lines(b),
    decreases b.len(),
{
    assert((a + b).drop_last() =~= a + b.drop_last());
    assert((a + b).last() == b.last());
    if b.len() == 1 {
        assert(a + b.drop_last() =~= a);
    } else {
        lemma_join_concat(a, b.drop_last());
        assert((join_lines(a).push('\n') + join_lines(b.drop_last())).push('\n') + b.last() =~= join_lines(a).push(
            '\n',
        ) + (join_lines(b.drop_last()).push('\n') + b.last()));
    }
}

/// The text before a line: the lines before it, each ended by a break.
pub open spec fn text_before(a: Seq<Seq<char>>) -> Seq<char> {
    if a.len() == 0 { Seq::empty() } else { join_lines(a).push('\n') }
}

/// The text after a line: a break, then the lines after it.
pub open spec fn text_after(b: Seq<Seq<char>>) -> Seq<char> {
    if b.len() == 0 { Seq::empty() } else { seq!['\n'] + join_lines(b) }
}

proof fn lemma_join_around(a: Seq<Seq<char>>, m: Seq<char>, b: Seq<Seq<char>>)
    ensures
        join_lines(a + seq![m] + b) == text_before(a) + m + text_after(b),
        join_lines(a + seq![m]) == text_before(a) + m,
{
    let am = a + seq![m];
    if a.len() == 0 {
        assert(am =~= seq![m]);
        assert(Seq::<char>::empty() + m =~= m);
    } else {
        lemma_join_concat(a, seq![m]);
    }
    assert(join_lines(am) == text_before(a) + m);
    if b.len() == 0 {
        assert(am + b =~= am);
        assert(text_before(a) + m + text_after(b) =~= text_before(a) + m);
    } else {
        lemma_join_concat(am, b);
        assert((text_before(a) + m).push('\n') + join_lines(b) =~= text_before(a) + m + text_after(b));
    }
}

/// Where the cursor is in the text: the characters before it.
pub open spec fn text_offset(v: EditorView) -> int {
    join_lines(v.lines.take(v.row + 1)).len() - v.lines[v.row].len() + v.col
}

/// Deleting at the cursor takes exactly one character out of the text, the
/// one the cursor is on: within a line, that character; at the end of a
/// line, the break before the next line, which joins the next line onto
/// it. The cursor stays where it was.
pub proof fn law_delete_takes_one(v: EditorView)
    requires
        v.wf(),
        v.col < v.lines[v.row].len() || v.row + 1 < v.lines.len(),
    ensures
        join_lines(v.char_deleted().lines) == join_lines(v.lines).remove(text_offset(v)),
        v.char_deleted().row == v.row,
        v.char_deleted().col == v.col,
        v.col == v.lines[v.row].len() ==> v.char_deleted().lines.len() == v.lines.len() - 1
            && v.char_deleted().lines[v.row] == v.lines[v.row] + v.lines[v.row + 1],
{
    let ls = v.lines;
    let r = v.row;
    let a = ls.take(r);
    let x = ls[r];
    assert(ls.take(r + 1) =~= a + seq![x]);
    lemma_join_around(a, x, ls.skip(r + 1));
    if v.col < x.len() {
        let b = ls.skip(r + 1);
        assert(ls =~= a + seq![x] + b);
        let after = v.char_deleted().lines;
        assert(after =~= a + seq![x.remove(v.col)] + b);
        lemma_join_around(a, x.remove(v.col), b);
        assert((text_before(a) + x + text_after(b)).remove(text_before(a).len() + v.col) =~= text_before(a) + x.remove(
            v.col,
        ) + text_after(b));
    } else {
        let y = ls[r + 1];
        let b = ls.skip(r + 2);
        assert(ls =~= (a + seq![x]) + seq![y] + b);
        let after = v.char_deleted().lines;
        assert(after =~= a + seq![x + y] + b);
        lemma_join_around(a + seq![x], y, b);
        lemma_join_around(a, x + y, b);
        assert(text_before(a + seq![x]) == (text_before(a) + x).push('\n'));
        assert(((text_before(a) + x).push('\n') + y + text_after(b)).remove((text_before(a) + x).len() as int) =~= text_before(a) + (
        x + y) + text_after(b));
    }
}

/// Splitting a line with Enter and then joining it back with backspace gives
/// back the buffer and the cursor (the buffer is then marked as changed).
pub proof fn law_enter_then_backspace(v: EditorView)
    requires
        v.wf(),
    ensures
        v.line_split().backspaced() == (EditorView { dirty: true, cache_dirty: true, ..v }),
{
    let w = v.line_split();
    assert(w.lines[v.row + 1] == v.lines[v.row].skip(v.col));
    assert(w.lines[v.row] == v.lines[v.row].take(v.col));
    assert(w.lines[v.row] + w.lines[v.row + 1] =~= v.lines[v.row]);
    assert(w.lines.remove(v.row + 1) =~= v.lines.update(v.row, v.lines[v.row].take(v.col)));
    assert(w.lines.remove(v.row + 1).update(v.row, w.lines[v.row] + w.lines[v.row + 1]) =~= v.lines);
}

/// Each editing operation keeps the editor well formed.
pub proof fn lemma_ops_keep_wf(v: EditorView)
    requires
        v.wf(),
    ensures
        v.moved_up().wf(),
        v.moved_down().wf(),
        v.moved_left().wf(),
        v.moved_right().wf(),
        v.at_line_start().wf(),
        v.at_line_end().wf(),
        v.at_first_line().wf(),
        v.at_last_line().wf(),
        forall|c: char| #[trigger] v.char_inserted(c).wf(),
        v.backspaced().wf(),
        v.char_deleted().wf(),
        v.line_split().wf(),
        v.line_deleted().wf(),
        v.line_opened_below().wf(),
        v.line_opened_above().wf(),
        v.command_run().wf(),
{
    if v.lines.len() > 1 {
        let ls = v.lines.remove(v.row);
        assert(ls.len() >= 1);
    }
}

/// Every key keeps the editor well formed.
pub proof fn law_keys_keep_wf(v: EditorView, key: Key)
    requires
        v.wf(),
    ensures
        !(v.mode == EditorMode::Command && key == Key::Enter) ==> v.key_pressed(key).wf(),
        v.mode == EditorMode::Command && key == Key::Enter ==> v.command_run().wf(),
{
    lemma_ops_keep_wf(v);
    lemma_ops_keep_wf(EditorView { pending_d: false, ..v });
    let w = v.moved_right();
    assert(EditorView { mode: EditorMode::Insert, status: None, ..w }.wf());
}

/// Reading characters without a line break adds them to the line being read.
proof fn lemma_fold_no_break(a: Seq<char>, b: Seq<char>)
    requires
        !b.contains('\n'),
    ensures
        text::lines_fold(a + b) == (text::lines_fold(a).0, text::lines_fold(a).1 + b),
    decreases b.len(),
{
    if b.len() == 0 {
        assert(a + b =~= a);
        assert(text::lines_fold(a).1 + b =~= text::lines_fold(a).1);
    } else {
        let b2 = b.drop_last();
        assert(!b2.contains('\n')) by {
            if b2.contains('\n') {
                let k = choose|k: int| 0 <= k < b2.len() && b2[k] == '\n';
                assert(b[k] == '\n');
            }
        }
        lemma_fold_no_break(a, b2);
        assert((a + b).drop_last() =~= a + b2);
        assert((a + b).last() == b.last());
        assert(b.last() != '\n') by {
            assert(b[b.len() - 1] == b.last());
        }
        assert(text::lines_fold(a).1 + b =~= (text::lines_fold(a).1 + b2).push(b.last()));
    }
}

/// The lines read from a buffer's text, before its last line: the lines
/// before the last, and the last line being read.
proof fn lemma_fold_join(ls: Seq<Seq<char>>)
    requires
        ls.len() >= 1,
        forall|i: int| 0 <= i < ls.len() ==> !(#[trigger] ls[i]).contains('\n'),
        forall|i: int| 0 <= i < ls.len() - 1 ==> !((#[trigger] ls[i]).len() > 0 && ls[i].last() == '\r'),
    ensures
        text::lines_fold(join_lines(ls)) == (ls.drop_last(), ls.last()),
    decreases ls.len(),
{
    if ls.len() == 1 {
        lemma_fold_no_break(Seq::empty(), ls[0]);
        assert(Seq::<char>::empty() + ls[0] =~= ls[0]);
        assert(text::lines_fold(Seq::<char>::empty()) == (Seq::<Seq<char>>::empty(), Seq::<char>::empty()));
        assert(Seq::<char>::empty() + ls[0] =~= ls[0]);
        assert(ls.drop_last() =~= Seq::<Seq<char>>::empty());
    } else {
        let front = ls.drop_last();
        assert forall|i: int| 0 <= i < front.len() implies !(#[trigger] front[i]).contains('\n') by {
            assert(front[i] == ls[i]);
        }
        assert forall|i: int| 0 <= i < front.len() - 1 implies !((#[trigger] front[i]).len() > 0 && front[i].last() == '\r') by {
            assert(front[i] == ls[i]);
        }
        lemma_fold_join(front);
        let head = join_lines(front).push('\n');
        assert(head.drop_last() =~= join_lines(front));
        assert(front.last() == ls[ls.len() - 2]);
        assert(text::lines_fold(head) == (front.drop_last().push(front.last()), Seq::<char>::empty()));
        assert(front.drop_last().push(front.last()) =~= front);
        assert(!ls.last().contains('\n')) by {
            assert(ls[ls.len() - 1] == ls.last());
        }
        lemma_fold_no_break(head, ls.last());
        assert(Seq::<char>::empty() + ls.last() =~= ls.last());
    }
}

/// Writing a buffer and opening the file again gives back its lines: when
/// no line holds a line break, no line but the last ends in a carriage
/// return, and the last line is not empty (unless it is the only one).
pub proof fn law_save_then_open(ls: Seq<Seq<char>>)
    requires
        ls.len() >= 1,
        forall|i: int| 0 <= i < ls.len() ==> !(#[trigger] ls[i]).contains('\n'),
        forall|i: int| 0 <= i < ls.len() - 1 ==> !((#[trigger] ls[i]).len() > 0 && ls[i].last() == '\r'),
        ls.len() > 1 ==> ls.last().len() > 0,
    ensures
        buffer_lines(Some(join_lines(ls))) == ls,
{
    lemma_fold_join(ls);
    if ls.len() == 1 {
        if ls[0].len() == 0 {
            assert(text::split_lines(join_lines(ls)) =~= Seq::<Seq<char>>::empty());
            assert(ls =~= seq![Seq::<char>::empty()]);
        } else {
            assert(text::split_lines(join_lines(ls)) =~= ls);
        }
    } else {
        assert(ls.drop_last().push(ls.last()) =~= ls);
    }
}

} // verus!
