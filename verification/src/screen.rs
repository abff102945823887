//! What the screen shows, as styled lines and positions: the file tree, the
//! editor's gutter, text and cursor, the status and command lines, the chat,
//! the input box, the panels. Laying the pieces out on the terminal and
//! drawing them is the caller's.
use vstd::prelude::*;
use crate::editor::{EditorMode, EditorState};
use crate::editor;
use crate::exa;
use crate::filetree::{file_icon, FileTree};
use crate::filetree;
use crate::app::{App, AppView, InputMode, Mode};
use crate::filepicker::{FilePicker, PickerView};
use crate::app;
use crate::chat::{status_color, StatusColor};
use crate::chat;
use crate::markdown::{md_to_text, spans_view, styled_lines_view, LineV, Rgb, SpanV, StyledLine, StyledSpan, TextStyle};
use crate::markdown;
use crate::text::{chars_of, push_all, push_decimal, push_str, repeat_char, string_of};
use crate::text;

verus! {

pub const BG: Rgb = 0x000000;
pub const FG: Rgb = 0xDCDCDC;
pub const MUTED: Rgb = 0x646464;
pub const DIM: Rgb = 0x373737;
pub const ACCENT: Rgb = 0x64A0FF;
pub const AMBER: Rgb = 0xFFB432;
pub const GREEN: Rgb = 0x50C878;
pub const RED: Rgb = 0xDC503C;
pub const OVERLAY_BG: Rgb = 0x0F0F0F;
pub const OVERLAY_BORDER: Rgb = 0x2D2D2D;
pub const LINE_NUM: Rgb = 0x323232;
pub const LINE_NUM_CUR: Rgb = 0x6E6E6E;
pub const CURSOR_LINE: Rgb = 0x101010;
pub const TREE_BG: Rgb = 0x080808;
pub const TREE_SEL: Rgb = 0x1C283C;
pub const TREE_SEL_FG: Rgb = 0x8CBEFF;
pub const TREE_FILE_FG: Rgb = 0xB4B4B4;
pub const TREE_DIR_ICON: Rgb = 0x6482B4;

/// A style with the given colours and weight, neither underlined nor
/// crossed out.
pub open spec fn styled(fg: Option<Rgb>, bg: Option<Rgb>, bold: bool, italic: bool) -> TextStyle {
    TextStyle { fg, bg, bold, italic, underlined: false, crossed_out: false }
}

fn style_of(fg: Option<Rgb>, bg: Option<Rgb>, bold: bool, italic: bool) -> (r: TextStyle)
    ensures
        r == styled(fg, bg, bold, italic),
{
    TextStyle { fg, bg, bold, italic, underlined: false, crossed_out: false }
}

/// `n` spaces.
pub open spec fn spaces(n: int) -> Seq<char> {
    Seq::new(if n > 0 { n as nat } else { 0 }, |_i: int| ' ')
}

/// `s` padded with spaces on the right to `w` characters, as `{:<w$}` does.
pub open spec fn pad_right(s: Seq<char>, w: int) -> Seq<char> {
    s + spaces(w - s.len())
}

/// `s` padded with spaces on the left to `w` characters, as `{:>w$}` does.
pub open spec fn pad_left(s: Seq<char>, w: int) -> Seq<char> {
    spaces(w - s.len()) + s
}

fn spaces_exec(n: usize) -> (r: Vec<char>)
    ensures
        r@ == spaces(n as int),
{
    let r = repeat_char(' ', n);
    assert(r@ =~= spaces(n as int));
    r
}

fn pad_right_exec(s: &Vec<char>, w: usize) -> (r: Vec<char>)
    ensures
        r@ == pad_right(s@, w as int),
{
    let mut r = s.clone();
    assert(r@ =~= s@);
    if s.len() < w {
        let sp = spaces_exec(w - s.len());
        push_all(&mut r, &sp);
    } else {
        assert(spaces(w - s@.len()) =~= Seq::<char>::empty());
        assert(r@ =~= pad_right(s@, w as int));
    }
    r
}

fn pad_left_exec(s: &Vec<char>, w: usize) -> (r: Vec<char>)
    ensures
        r@ == pad_left(s@, w as int),
{
    let mut r: Vec<char> = Vec::new();
    if s.len() < w {
        r = spaces_exec(w - s.len());
    } else {
        assert(spaces(w - s@.len()) =~= Seq::<char>::empty());
    }
    push_all(&mut r, s);
    r
}

fn span_of(content: Vec<char>, style: TextStyle) -> (r: StyledSpan)
    ensures
        r@ == (content@, style),
{
    StyledSpan { content: string_of(&content), style }
}

fn line_of(spans: Vec<StyledSpan>) -> (r: StyledLine)
    ensures
        r@ == spans_view(spans@),
{
    StyledLine { spans }
}

fn push_span(spans: &mut Vec<StyledSpan>, content: Vec<char>, style: TextStyle)
    ensures
        spans_view(final(spans)@) == spans_view(old(spans)@).push((content@, style)),
{
    let ghost before = spans_view(spans@);
    spans.push(span_of(content, style));
    assert(spans_view(spans@) =~= before.push((content@, style)));
}

fn push_str_span(spans: &mut Vec<StyledSpan>, content: &str, style: TextStyle)
    ensures
        spans_view(final(spans)@) == spans_view(old(spans)@).push((content@, style)),
{
    push_span(spans, chars_of(content), style);
}

// ─── Lists ───────────────────────────────────────────────────────────────────

/// The first row shown of a list of rows `h` high in which row `sel` is
/// selected: the selected row is kept in view.
pub open spec fn list_scroll(sel: int, h: int) -> int {
    if sel >= h { sel + 1 - h } else { 0 }
}

pub fn list_scroll_exec(sel: usize, h: usize) -> (r: usize)
    requires
        sel < usize::MAX,
    ensures
        r == list_scroll(sel as int, h as int),
{
    if sel >= h { sel + 1 - h } else { 0 }
}

// ─── File tree ───────────────────────────────────────────────────────────────

/// The indentation of a row at `depth`.
pub open spec fn indent(depth: int) -> Seq<char> {
    spaces(2 * depth)
}

/// The icon of a row: an open or closed triangle for a directory, the
/// file's icon otherwise.
pub open spec fn tree_icon(e: filetree::EntryView) -> Seq<char> {
    if e.is_dir {
        if e.expanded { "\u{25be} "@ } else { "\u{25b8} "@ }
    } else {
        filetree::icon_for(filetree::extension(e.name))
    }
}

/// A row of the tree panel, `width` columns wide.
pub open spec fn tree_row(e: filetree::EntryView, selected: bool, width: int) -> LineV {
    let lead = indent(e.depth) + tree_icon(e);
    let (fg, bg) = if selected {
        (TREE_SEL_FG, TREE_SEL)
    } else if e.is_dir {
        (MUTED, TREE_BG)
    } else {
        (TREE_FILE_FG, TREE_BG)
    };
    let icon_fg = if selected { TREE_SEL_FG } else if e.is_dir { TREE_DIR_ICON } else { DIM };
    let used = (exa::utf8_len(lead) % 0x10000) as int;
    let name_w = if width > used { width - used } else { 0 };
    seq![
        (lead, styled(Some(icon_fg), Some(bg), false, false)),
        (pad_right(e.name, name_w), styled(Some(fg), Some(bg), false, false)),
    ]
}

/// A row's whole label (indentation, icon, name) can be cut to one column
/// less than `width`, when it is longer than that, at a character boundary.
pub open spec fn label_fits(e: filetree::EntryView, width: int) -> bool {
    let label = indent(e.depth) + tree_icon(e) + e.name;
    let cut = if width > 0 { width - 1 } else { 0 };
    exa::utf8_len(label) > width ==> exa::byte_boundary(label, cut)
}

/// Whether every row of the tree passes `label_fits` at `width`.
pub fn tree_drawable(tree: &FileTree, width: usize) -> (r: bool)
    ensures
        r == forall|i: int| 0 <= i < tree@.visible.len() ==> label_fits(#[trigger] tree@.visible[i], width as int),
{
    let mut i: usize = 0;
    while i < tree.visible.len()
        invariant
            i <= tree.visible.len(),
            forall|j: int| 0 <= j < i ==> label_fits(#[trigger] tree@.visible[j], width as int),
        decreases tree.visible.len() - i,
    {
        let e = &tree.visible[i];
        let label = row_label(e);
        let cut: u128 = if width > 0 { (width - 1) as u128 } else { 0 };
        let (bytes, boundary) = exa::utf8_info(&label, cut);
        if bytes > width as u128 && !boundary {
            assert(!label_fits(tree@.visible[i as int], width as int));
            return false;
        }
        i = i + 1;
    }
    true
}

fn row_icon(e: &filetree::FileEntry) -> (r: Vec<char>)
    ensures
        r@ == tree_icon(e@),
{
    if e.is_dir {
        if e.expanded { chars_of("\u{25be} ") } else { chars_of("\u{25b8} ") }
    } else {
        chars_of(file_icon(e.name.as_str()))
    }
}

fn row_lead(e: &filetree::FileEntry) -> (r: Vec<char>)
    ensures
        r@ == indent(e@.depth) + tree_icon(e@),
{
    let mut lead = repeat_char(' ', e.depth);
    let more = repeat_char(' ', e.depth);
    push_all(&mut lead, &more);
    assert(lead@ =~= indent(e@.depth));
    let icon = row_icon(e);
    push_all(&mut lead, &icon);
    lead
}

fn row_label(e: &filetree::FileEntry) -> (r: Vec<char>)
    ensures
        r@ == indent(e@.depth) + tree_icon(e@) + e@.name,
{
    let mut label = row_lead(e);
    let name = chars_of(e.name.as_str());
    push_all(&mut label, &name);
    label
}

fn tree_row_exec(e: &filetree::FileEntry, selected: bool, width: usize) -> (r: StyledLine)
    ensures
        r@ == tree_row(e@, selected, width as int),
{
    let lead = row_lead(e);
    let (fg, bg) = if selected {
        (TREE_SEL_FG, TREE_SEL)
    } else if e.is_dir {
        (MUTED, TREE_BG)
    } else {
        (TREE_FILE_FG, TREE_BG)
    };
    let icon_fg = if selected { TREE_SEL_FG } else if e.is_dir { TREE_DIR_ICON } else { DIM };
    let (bytes, _b) = exa::utf8_info(&lead, 0);
    let used = (bytes % 0x10000) as usize;
    let name_w = if width > used { width - used } else { 0 };
    let name = chars_of(e.name.as_str());
    let mut spans: Vec<StyledSpan> = Vec::new();
    push_span(&mut spans, lead, style_of(Some(icon_fg), Some(bg), false, false));
    push_span(&mut spans, pad_right_exec(&name, name_w), style_of(Some(fg), Some(bg), false, false));
    let r = line_of(spans);
    assert(r@ =~= tree_row(e@, selected, width as int));
    r
}

/// The rows of the tree panel, `width` columns wide, the selected one
/// highlighted. (Scroll them with `list_scroll`.)
pub fn tree_rows(tree: &FileTree, width: usize) -> (r: Vec<StyledLine>)
    requires
        forall|i: int| 0 <= i < tree@.visible.len() ==> label_fits(#[trigger] tree@.visible[i], width as int),
    ensures
        styled_lines_view(r@) == Seq::new(
            tree@.visible.len(),
            |i: int| tree_row(tree@.visible[i], i == tree@.selected, width as int),
        ),
{
    let ghost want = Seq::new(
        tree@.visible.len(),
        |i: int| tree_row(tree@.visible[i], i == tree@.selected, width as int),
    );
    let mut out: Vec<StyledLine> = Vec::new();
    let mut i: usize = 0;
    while i < tree.visible.len()
        invariant
            i <= tree.visible.len(),
            want == Seq::new(tree@.visible.len(), |i: int| tree_row(tree@.visible[i], i == tree@.selected, width as int)),
            styled_lines_view(out@) == want.take(i as int),
        decreases tree.visible.len() - i,
    {
        let row = tree_row_exec(&tree.visible[i], i == tree.selected, width);
        let ghost before = styled_lines_view(out@);
        let ghost rv = row@;
        assert(tree@.visible[i as int] == tree.visible@[i as int]@);
        assert(rv == want[i as int]);
        out.push(row);
        assert(styled_lines_view(out@) =~= before.push(rv));
        assert(want.take(i + 1) =~= want.take(i as int).push(want[i as int]));
        i = i + 1;
    }
    assert(want.take(tree.visible.len() as int) =~= want);
    out
}

/// The hint at the foot of the tree panel.
pub fn tree_hint(focused: bool) -> (r: &'static str)
    ensures
        r@ == if focused { " tab \u{2192} editor"@ } else { " tab \u{2192} tree "@ },
{
    if focused { " tab \u{2192} editor" } else { " tab \u{2192} tree " }
}

// ─── Editor ──────────────────────────────────────────────────────────────────

/// The width of the editor's gutter for a buffer of `n` lines: the line
/// numbers' digits and two columns, at least four.
pub open spec fn gutter_width(n: nat) -> int {
    let d = text::decimal(n).len() + 2;
    if d > 4 { d as int } else { 4 }
}

/// The first buffer line shown, `h` lines high: the editor's own scroll,
/// moved so that the cursor's line is in view.
pub open spec fn editor_scroll(row: int, scroll: int, h: int) -> int {
    if row < scroll {
        row
    } else if row >= scroll + h && h > 0 {
        row + 1 - h
    } else {
        scroll
    }
}

/// The gutter beside buffer line `li`: its number (bold on the cursor's
/// line), or `~` past the end.
pub open spec fn gutter_line(e: editor::EditorView, li: int, gw: int) -> LineV {
    if li < e.lines.len() {
        let cur = li == e.row;
        seq![(
            pad_left(text::decimal((li + 1) as nat), gw - 1) + " "@,
            styled(Some(if cur { LINE_NUM_CUR } else { LINE_NUM }), None, cur, false),
        )]
    } else {
        seq![(pad_left("~"@, gw - 1) + " "@, styled(Some(DIM), None, false, false))]
    }
}

/// Buffer line `li` as plain text `tw` columns wide, on the cursor line's
/// background when the cursor is on it; nothing past the end.
pub open spec fn text_line(e: editor::EditorView, li: int, tw: int) -> LineV {
    if li < e.lines.len() {
        seq![(
            pad_right(e.lines[li], tw),
            styled(Some(FG), Some(if li == e.row { CURSOR_LINE } else { BG }), false, false),
        )]
    } else {
        Seq::empty()
    }
}

/// Where the cursor is drawn (column, row) in the text area `tw` wide and
/// `h` high, when the buffer is scrolled to `scroll`; none in command mode
/// or when the cursor's line is not shown.
pub open spec fn editor_cursor(e: editor::EditorView, scroll: int, h: int, tw: int) -> Option<(int, int)> {
    let last_col = if tw > 0 { tw - 1 } else { 0 };
    let col = if e.col < last_col { e.col } else { last_col };
    let row = if e.row > scroll { e.row - scroll } else { 0 };
    if row < h && e.mode != EditorMode::Command { Some((col, row)) } else { None }
}

fn decimal_chars(n: usize) -> (r: Vec<char>)
    ensures
        r@ == text::decimal(n as nat),
{
    let mut v: Vec<char> = Vec::new();
    push_decimal(&mut v, n as u128);
    assert(v@ =~= text::decimal(n as nat));
    v
}

proof fn lemma_decimal_len(n: nat)
    ensures
        1 <= text::decimal(n).len() <= n / 10 + 1,
    decreases n,
{
    if n >= 10 {
        lemma_decimal_len(n / 10);
    }
}

/// The gutter width for the editor's buffer.
pub fn gutter_width_exec(ed: &EditorState) -> (r: usize)
    ensures
        r == gutter_width(ed@.lines.len()),
{
    let d = decimal_chars(ed.lines.len());
    proof {
        lemma_decimal_len(ed.lines.len() as nat);
    }
    let w = d.len() + 2;
    if w > 4 { w } else { 4 }
}

/// The first buffer line shown in a text area `h` lines high.
pub fn editor_scroll_exec(ed: &EditorState, h: usize) -> (r: usize)
    ensures
        r == editor_scroll(ed@.row, ed@.scroll, h as int),
{
    let sr = ed.scroll_row;
    let row = ed.cursor_row;
    if row < sr {
        row
    } else if h > 0 && row - sr >= h {
        row - h + 1
    } else {
        sr
    }
}

fn gutter_line_exec(ed: &EditorState, li: usize, gw: usize) -> (r: StyledLine)
    requires
        gw >= 1,
    ensures
        r@ == gutter_line(ed@, li as int, gw as int),
{
    proof {
        reveal_strlit("~");
        reveal_strlit(" ");
    }
    let mut spans: Vec<StyledSpan> = Vec::new();
    if li < ed.lines.len() {
        let cur = li == ed.cursor_row;
        let num = decimal_chars(li + 1);
        let mut t = pad_left_exec(&num, gw - 1);
        t.push(' ');
        assert(t@ =~= pad_left(text::decimal((li + 1) as nat), gw - 1) + " "@);
        let color = if cur { LINE_NUM_CUR } else { LINE_NUM };
        push_span(&mut spans, t, style_of(Some(color), None, cur, false));
    } else {
        let tilde = chars_of("~");
        let mut t = pad_left_exec(&tilde, gw - 1);
        t.push(' ');
        assert(t@ =~= pad_left("~"@, gw - 1) + " "@);
        push_span(&mut spans, t, style_of(Some(DIM), None, false, false));
    }
    let r = line_of(spans);
    assert(r@ =~= gutter_line(ed@, li as int, gw as int));
    r
}

/// The gutter of a text area `h` lines high showing the buffer from line
/// `scroll` on, `gw` columns wide.
pub fn gutter_lines(ed: &EditorState, scroll: usize, h: usize, gw: usize) -> (r: Vec<StyledLine>)
    requires
        gw >= 1,
        scroll + h <= usize::MAX,
    ensures
        styled_lines_view(r@) == Seq::new(h as nat, |i: int| gutter_line(ed@, scroll + i, gw as int)),
{
    let ghost want = Seq::new(h as nat, |i: int| gutter_line(ed@, scroll + i, gw as int));
    let mut out: Vec<StyledLine> = Vec::new();
    let mut i: usize = 0;
    while i < h
        invariant
            i <= h,
            scroll + h <= usize::MAX,
            gw >= 1,
            want == Seq::new(h as nat, |i: int| gutter_line(ed@, scroll + i, gw as int)),
            styled_lines_view(out@) == want.take(i as int),
        decreases h - i,
    {
        let line = gutter_line_exec(ed, scroll + i, gw);
        let ghost before = styled_lines_view(out@);
        let ghost lv = line@;
        out.push(line);
        assert(styled_lines_view(out@) =~= before.push(lv));
        assert(want.take(i + 1) =~= want.take(i as int).push(want[i as int]));
        i = i + 1;
    }
    assert(want.take(h as int) =~= want);
    out
}

fn text_line_exec(ed: &EditorState, li: usize, tw: usize) -> (r: StyledLine)
    ensures
        r@ == text_line(ed@, li as int, tw as int),
{
    let mut spans: Vec<StyledSpan> = Vec::new();
    if li < ed.lines.len() {
        let bg = if li == ed.cursor_row { CURSOR_LINE } else { BG };
        let t = pad_right_exec(&ed.lines[li], tw);
        push_span(&mut spans, t, style_of(Some(FG), Some(bg), false, false));
    }
    let r = line_of(spans);
    assert(r@ =~= text_line(ed@, li as int, tw as int));
    r
}

/// The buffer's text as plain lines in a text area `tw` wide and `h` high,
/// from line `scroll` on.
pub fn text_lines(ed: &EditorState, scroll: usize, h: usize, tw: usize) -> (r: Vec<StyledLine>)
    requires
        scroll + h <= usize::MAX,
    ensures
        styled_lines_view(r@) == Seq::new(h as nat, |i: int| text_line(ed@, scroll + i, tw as int)),
{
    let ghost want = Seq::new(h as nat, |i: int| text_line(ed@, scroll + i, tw as int));
    let mut out: Vec<StyledLine> = Vec::new();
    let mut i: usize = 0;
    while i < h
        invariant
            i <= h,
            scroll + h <= usize::MAX,
            want == Seq::new(h as nat, |i: int| text_line(ed@, scroll + i, tw as int)),
            styled_lines_view(out@) == want.take(i as int),
        decreases h - i,
    {
        let line = text_line_exec(ed, scroll + i, tw);
        let ghost before = styled_lines_view(out@);
        let ghost lv = line@;
        out.push(line);
        assert(styled_lines_view(out@) =~= before.push(lv));
        assert(want.take(i + 1) =~= want.take(i as int).push(want[i as int]));
        i = i + 1;
    }
    assert(want.take(h as int) =~= want);
    out
}

/// `l` on the background `bg`.
pub open spec fn with_bg(l: LineV, bg: Rgb) -> LineV {
    Seq::new(l.len(), |j: int| (l[j].0, TextStyle { bg: Some(bg), ..l[j].1 }))
}

/// The UTF-8 length of a line's text.
pub open spec fn line_bytes(l: LineV) -> nat
    decreases l.len(),
{
    if l.len() == 0 { 0 } else { line_bytes(l.drop_last()) + exa::utf8_len(l.last().0) }
}

/// Buffer line `li`, coloured as `l`, on the cursor line's background when
/// the cursor is on it, padded with spaces to `tw` bytes of text.
pub open spec fn coloured_line(e: editor::EditorView, li: int, l: LineV, tw: int) -> LineV {
    let bg = if li == e.row { CURSOR_LINE } else { BG };
    let used = line_bytes(l);
    with_bg(l, bg) + if used < tw { seq![(spaces(tw - used), styled(None, Some(bg), false, false))] } else { Seq::empty() }
}

/// A coloured buffer line as the text area shows it.
pub fn coloured_line_exec(ed: &EditorState, li: usize, l: &StyledLine, tw: usize) -> (r: StyledLine)
    ensures
        r@ == coloured_line(ed@, li as int, l@, tw as int),
{
    let bg = if li == ed.cursor_row { CURSOR_LINE } else { BG };
    let ghost lv = l@;
    let mut spans: Vec<StyledSpan> = Vec::new();
    let mut used: u128 = 0;
    let mut j: usize = 0;
    while j < l.spans.len()
        invariant
            j <= l.spans.len(),
            lv == l@,
            spans_view(spans@) == with_bg(lv.take(j as int), bg),
            used as int == if line_bytes(lv.take(j as int)) > u128::MAX { u128::MAX as int } else {
                line_bytes(lv.take(j as int)) as int
            },
        decreases l.spans.len() - j,
    {
        let c = chars_of(l.spans[j].content.as_str());
        let (b, _k) = exa::utf8_info(&c, 0);
        assert(lv.take(j + 1).drop_last() =~= lv.take(j as int));
        assert(lv.take(j + 1).last() == lv[j as int]);
        assert(lv[j as int] == l.spans@[j as int]@);
        used = used.saturating_add(b);
        let st = l.spans[j].style;
        let ghost before = spans_view(spans@);
        let sp = StyledSpan { content: l.spans[j].content.clone(), style: TextStyle { bg: Some(bg), ..st } };
        assert(sp@ == (lv[j as int].0, TextStyle { bg: Some(bg), ..lv[j as int].1 }));
        spans.push(sp);
        assert(spans_view(spans@) =~= before.push((lv[j as int].0, TextStyle { bg: Some(bg), ..lv[j as int].1 })));
        assert(with_bg(lv.take(j + 1), bg) =~= with_bg(lv.take(j as int), bg).push(
            (lv[j as int].0, TextStyle { bg: Some(bg), ..lv[j as int].1 }),
        ));
        j = j + 1;
    }
    assert(lv.take(l.spans.len() as int) =~= lv);
    if used < tw as u128 {
        let pad = spaces_exec(tw - used as usize);
        push_span(&mut spans, pad, style_of(None, Some(bg), false, false));
    }
    let r = line_of(spans);
    assert(r@ =~= coloured_line(ed@, li as int, l@, tw as int));
    r
}

/// Where the cursor is drawn in the text area.
pub fn editor_cursor_exec(ed: &EditorState, scroll: usize, h: usize, tw: usize) -> (r: Option<(usize, usize)>)
    ensures
        match r {
            Some((c, w)) => editor_cursor(ed@, scroll as int, h as int, tw as int) == Some((c as int, w as int)),
            None => editor_cursor(ed@, scroll as int, h as int, tw as int) is None,
        },
{
    let last_col = if tw > 0 { tw - 1 } else { 0 };
    let col = if ed.cursor_col < last_col { ed.cursor_col } else { last_col };
    let row = if ed.cursor_row > scroll { ed.cursor_row - scroll } else { 0 };
    if row < h && ed.mode != EditorMode::Command {
        Some((col, row))
    } else {
        None
    }
}

/// The label of an editor mode in the status bar.
pub open spec fn mode_label(m: EditorMode) -> Seq<char> {
    match m {
        EditorMode::Normal => " NORMAL "@,
        EditorMode::Insert => " INSERT "@,
        EditorMode::Command => " COMMAND"@,
    }
}

pub open spec fn mode_color(m: EditorMode) -> Rgb {
    match m {
        EditorMode::Normal => ACCENT,
        EditorMode::Insert => GREEN,
        EditorMode::Command => AMBER,
    }
}

/// The editor's status bar: mode, file (marked when changed), message, the
/// tree's shortcut, and the cursor's line and column (from one).
pub open spec fn status_bar(e: editor::EditorView) -> LineV {
    let fname = match e.path {
        Some(p) => p,
        None => "[no name]"@,
    };
    let dirty = if e.dirty { " [+]"@ } else { Seq::empty() };
    let msg = match e.status {
        Some(m) => m,
        None => Seq::empty(),
    };
    seq![
        (mode_label(e.mode), styled(Some(BG), Some(mode_color(e.mode)), true, false)),
        ("  "@ + fname + dirty, styled(Some(MUTED), None, false, false)),
        ("  "@ + msg, styled(Some(DIM), None, false, true)),
        ("  ctrl+e tree"@, styled(Some(DIM), None, false, false)),
        ("  "@ + text::decimal((e.row + 1) as nat) + ":"@ + text::decimal((e.col + 1) as nat) + " "@,
            styled(Some(MUTED), None, false, false)),
    ]
}

pub fn status_bar_exec(ed: &EditorState) -> (r: StyledLine)
    ensures
        r@ == status_bar(ed@),
{
    proof {
        reveal_strlit("");
    }
    let mut spans: Vec<StyledSpan> = Vec::new();
    let (label, color) = match ed.mode {
        EditorMode::Normal => (" NORMAL ", ACCENT),
        EditorMode::Insert => (" INSERT ", GREEN),
        EditorMode::Command => (" COMMAND", AMBER),
    };
    push_str_span(&mut spans, label, style_of(Some(BG), Some(color), true, false));
    let mut f: Vec<char> = Vec::new();
    push_str(&mut f, "  ");
    match &ed.file_path {
        Some(p) => push_str(&mut f, p.as_str()),
        None => push_str(&mut f, "[no name]"),
    }
    if ed.dirty {
        push_str(&mut f, " [+]");
    }
    push_span(&mut spans, f, style_of(Some(MUTED), None, false, false));
    let mut m: Vec<char> = Vec::new();
    push_str(&mut m, "  ");
    if let Some(msg) = &ed.status_msg {
        push_str(&mut m, msg.as_str());
    }
    push_span(&mut spans, m, style_of(Some(DIM), None, false, true));
    push_str_span(&mut spans, "  ctrl+e tree", style_of(Some(DIM), None, false, false));
    let mut pos: Vec<char> = Vec::new();
    push_str(&mut pos, "  ");
    push_decimal(&mut pos, ed.cursor_row as u128 + 1);
    push_str(&mut pos, ":");
    push_decimal(&mut pos, ed.cursor_col as u128 + 1);
    push_str(&mut pos, " ");
    push_span(&mut spans, pos, style_of(Some(MUTED), None, false, false));
    let r = line_of(spans);
    assert(r@ =~= status_bar(ed@));
    r
}

/// The line under the status bar: the command being typed, or a reminder
/// of the commands.
pub open spec fn command_line(e: editor::EditorView) -> LineV {
    if e.mode == EditorMode::Command {
        seq![(":"@, styled(Some(FG), None, false, false)), (e.command, styled(Some(FG), None, false, false))]
    } else {
        seq![(
            "  :w  save    :wq  save & quit    :q  quit    :q!  discard"@,
            styled(Some(DIM), None, false, false),
        )]
    }
}

pub fn command_line_exec(ed: &EditorState) -> (r: StyledLine)
    ensures
        r@ == command_line(ed@),
{
    let mut spans: Vec<StyledSpan> = Vec::new();
    if ed.mode == EditorMode::Command {
        push_str_span(&mut spans, ":", style_of(Some(FG), None, false, false));
        push_span(&mut spans, ed.command_buf.clone(), style_of(Some(FG), None, false, false));
    } else {
        push_str_span(
            &mut spans,
            "  :w  save    :wq  save & quit    :q  quit    :q!  discard",
            style_of(Some(DIM), None, false, false),
        );
    }
    let r = line_of(spans);
    assert(r@ =~= command_line(ed@));
    r
}

/// The column of the cursor on the command line (in bytes, as the terminal
/// is told), while a command is typed.
pub fn command_cursor(ed: &EditorState) -> (r: Option<u128>)
    ensures
        r == if ed@.mode == EditorMode::Command { Some((1 + exa::utf8_len(ed@.command)) as u128) } else { None::<u128> },
{
    if ed.mode == EditorMode::Command {
        let (bytes, _b) = exa::utf8_info(&ed.command_buf, 0);
        Some(1 + bytes)
    } else {
        None
    }
}

// ─── Chat ────────────────────────────────────────────────────────────────────

/// A line of one span in the colour `fg`.
pub open spec fn plain(content: Seq<char>, fg: Rgb) -> LineV {
    seq![(content, styled(Some(fg), None, false, false))]
}

/// The chat's indent before each line of a message.
pub open spec fn indent_span() -> SpanV {
    ("     "@, styled(Some(DIM), None, false, false))
}

/// The lines of what the user wrote, indented.
pub open spec fn user_lines(ls: Seq<Seq<char>>) -> Seq<LineV> {
    Seq::new(ls.len(), |i: int| seq![indent_span(), (ls[i], styled(Some(FG), None, false, false))])
}

/// Lines, indented.
pub open spec fn indented_lines(ls: Seq<LineV>) -> Seq<LineV> {
    Seq::new(ls.len(), |i: int| seq![indent_span()] + ls[i])
}

/// The lines that show a message of the conversation: what the user wrote
/// (line by line), the assistant's markdown rendered `width` wide (with an
/// arrow when the message has the focus), or an error; each followed by an
/// empty line. Messages of other roles are not shown.
pub open spec fn message_block(m: (Seq<char>, Seq<char>), focused: bool, width: int) -> Seq<LineV> {
    if m.0 == "user"@ {
        seq![plain("you  "@, DIM)] + user_lines(text::split_lines(m.1)) + seq![Seq::<SpanV>::empty()]
    } else if m.0 == "assistant"@ {
        let label = if focused { "ai \u{25c0}"@ } else { "ai"@ };
        seq![plain(pad_right(label, 5), if focused { ACCENT } else { MUTED })]
            + indented_lines(markdown::render(markdown::markdown_events(m.1), width))
            + seq![Seq::<SpanV>::empty()]
    } else if m.0 == "error"@ {
        seq![
            seq![("err  "@, styled(Some(RED), None, false, false)), (m.1, styled(Some(RED), None, false, false))],
            Seq::<SpanV>::empty(),
        ]
    } else {
        Seq::empty()
    }
}

/// The blocks of the first `n` messages.
pub open spec fn message_blocks(ms: Seq<(Seq<char>, Seq<char>)>, focused: Option<usize>, width: int, n: int) -> Seq<LineV>
    decreases n,
{
    if n <= 0 || n > ms.len() {
        Seq::empty()
    } else {
        message_blocks(ms, focused, width, n - 1) + message_block(ms[n - 1], focused == Some((n - 1) as usize), width)
    }
}

/// The line shown while a reply is awaited.
pub open spec fn thinking_line() -> LineV {
    seq![("ai   "@, styled(Some(MUTED), None, false, false)), ("thinking\u{2026}"@, styled(Some(DIM), None, false, true))]
}

/// The chat: an empty line, the messages' blocks, and the waiting line.
pub open spec fn chat_lines(v: AppView, width: int) -> Seq<LineV> {
    seq![Seq::<SpanV>::empty()] + message_blocks(v.messages, v.focused_msg, width, v.messages.len() as int)
        + if v.is_loading { seq![thinking_line()] } else { Seq::empty() }
}

fn empty_line() -> (r: StyledLine)
    ensures
        r@ == Seq::<SpanV>::empty(),
{
    let spans: Vec<StyledSpan> = Vec::new();
    let r = line_of(spans);
    assert(r@ =~= Seq::<SpanV>::empty());
    r
}

fn push_line(out: &mut Vec<StyledLine>, l: StyledLine)
    ensures
        styled_lines_view(final(out)@) == styled_lines_view(old(out)@).push(l@),
{
    let ghost before = styled_lines_view(out@);
    let ghost lv = l@;
    out.push(l);
    assert(styled_lines_view(out@) =~= before.push(lv));
}

fn copy_span(s: &StyledSpan) -> (r: StyledSpan)
    ensures
        r@ == s@,
{
    StyledSpan { content: s.content.clone(), style: s.style }
}

/// `l` with the five-column indent of the chat before it.
fn indented(l: &StyledLine) -> (r: StyledLine)
    ensures
        r@ == seq![("     "@, styled(Some(DIM), None, false, false))] + l@,
{
    let mut spans: Vec<StyledSpan> = Vec::new();
    push_str_span(&mut spans, "     ", style_of(Some(DIM), None, false, false));
    let ghost first = spans_view(spans@);
    let mut i: usize = 0;
    while i < l.spans.len()
        invariant
            i <= l.spans.len(),
            first == seq![("     "@, styled(Some(DIM), None, false, false))],
            spans_view(spans@) == first + spans_view(l.spans@).take(i as int),
        decreases l.spans.len() - i,
    {
        let ghost before = spans_view(spans@);
        let c = copy_span(&l.spans[i]);
        spans.push(c);
        assert(spans_view(spans@) =~= before.push(l.spans@[i as int]@));
        assert(spans_view(l.spans@).take(i + 1) =~= spans_view(l.spans@).take(i as int).push(l.spans@[i as int]@));
        i = i + 1;
    }
    assert(spans_view(l.spans@).take(l.spans.len() as int) =~= spans_view(l.spans@));
    line_of(spans)
}

fn append_block(out: &mut Vec<StyledLine>, m: &app::ChatMessage, focused: bool, width: usize)
    ensures
        styled_lines_view(final(out)@) == styled_lines_view(old(out)@) + message_block(
            (m.role@, m.content@),
            focused,
            width as int,
        ),
{
    proof {
        reveal_strlit("user");
        reveal_strlit("assistant");
        reveal_strlit("error");
    }
    let role = chars_of(m.role.as_str());
    let ghost start = styled_lines_view(out@);
    if text::chars_eq(&role, &chars_of("user")) {
        let mut head: Vec<StyledSpan> = Vec::new();
        push_str_span(&mut head, "you  ", style_of(Some(DIM), None, false, false));
        assert(spans_view(head@) =~= plain("you  "@, DIM));
        push_line(out, line_of(head));
        let ghost mid = styled_lines_view(out@);
        let content = chars_of(m.content.as_str());
        let ls = text::lines_of(&content);
        let ghost lv = ls@.map_values(|l: Vec<char>| l@);
        let mut i: usize = 0;
        while i < ls.len()
            invariant
                i <= ls.len(),
                lv == ls@.map_values(|l: Vec<char>| l@),
                styled_lines_view(out@) == mid + user_lines(lv.take(i as int)),
            decreases ls.len() - i,
        {
            let mut spans: Vec<StyledSpan> = Vec::new();
            push_str_span(&mut spans, "     ", style_of(Some(DIM), None, false, false));
            push_span(&mut spans, ls[i].clone(), style_of(Some(FG), None, false, false));
            let line = line_of(spans);
            assert(line@ =~= seq![indent_span(), (lv[i as int], styled(Some(FG), None, false, false))]);
            push_line(out, line);
            assert(user_lines(lv.take(i + 1)) =~= user_lines(lv.take(i as int)).push(line@));
            i = i + 1;
        }
        assert(lv.take(ls.len() as int) =~= lv);
        assert(lv == text::split_lines(m.content@));
        push_line(out, empty_line());
        assert(styled_lines_view(out@) =~= start + message_block((m.role@, m.content@), focused, width as int));
    } else if text::chars_eq(&role, &chars_of("assistant")) {
        let mut head: Vec<StyledSpan> = Vec::new();
        let label = if focused { chars_of("ai \u{25c0}") } else { chars_of("ai") };
        let color = if focused { ACCENT } else { MUTED };
        push_span(&mut head, pad_right_exec(&label, 5), style_of(Some(color), None, false, false));
        assert(spans_view(head@) =~= plain(pad_right(label@, 5), color));
        push_line(out, line_of(head));
        let ghost mid = styled_lines_view(out@);
        let md = md_to_text(m.content.as_str(), width);
        let ghost mv = styled_lines_view(md@);
        let mut i: usize = 0;
        while i < md.len()
            invariant
                i <= md.len(),
                mv == styled_lines_view(md@),
                styled_lines_view(out@) == mid + indented_lines(mv.take(i as int)),
            decreases md.len() - i,
        {
            let line = indented(&md[i]);
            assert(line@ =~= seq![indent_span()] + mv[i as int]);
            push_line(out, line);
            assert(indented_lines(mv.take(i + 1)) =~= indented_lines(mv.take(i as int)).push(line@));
            i = i + 1;
        }
        assert(mv.take(md.len() as int) =~= mv);
        push_line(out, empty_line());
        assert(styled_lines_view(out@) =~= start + message_block((m.role@, m.content@), focused, width as int));
    } else if text::chars_eq(&role, &chars_of("error")) {
        let mut spans: Vec<StyledSpan> = Vec::new();
        push_str_span(&mut spans, "err  ", style_of(Some(RED), None, false, false));
        push_span(&mut spans, chars_of(m.content.as_str()), style_of(Some(RED), None, false, false));
        assert(spans_view(spans@) =~= seq![
            ("err  "@, styled(Some(RED), None, false, false)),
            (m.content@, styled(Some(RED), None, false, false)),
        ]);
        push_line(out, line_of(spans));
        push_line(out, empty_line());
        assert(styled_lines_view(out@) =~= start + message_block((m.role@, m.content@), focused, width as int));
    } else {
        assert(styled_lines_view(out@) =~= start + message_block((m.role@, m.content@), focused, width as int));
    }
}

/// The chat's lines, its markdown rendered `width` wide.
pub fn chat_lines_exec(app: &App, width: usize) -> (r: Vec<StyledLine>)
    ensures
        styled_lines_view(r@) == chat_lines(app@, width as int),
{
    let mut out: Vec<StyledLine> = Vec::new();
    push_line(&mut out, empty_line());
    let ghost first = styled_lines_view(out@);
    let ghost ms = app@.messages;
    let mut i: usize = 0;
    while i < app.messages.len()
        invariant
            i <= app.messages.len(),
            ms == app@.messages,
            first == seq![Seq::<SpanV>::empty()],
            styled_lines_view(out@) == first + message_blocks(ms, app@.focused_msg, width as int, i as int),
        decreases app.messages.len() - i,
    {
        let focused = match app.focused_msg {
            Some(k) => k == i,
            None => false,
        };
        let ghost before = styled_lines_view(out@);
        append_block(&mut out, &app.messages[i], focused, width);
        assert(ms[i as int] == (app.messages@[i as int].role@, app.messages@[i as int].content@));
        assert(message_blocks(ms, app@.focused_msg, width as int, i + 1) == message_blocks(
            ms,
            app@.focused_msg,
            width as int,
            i as int,
        ) + message_block(ms[i as int], app@.focused_msg == Some(i), width as int));
        assert(styled_lines_view(out@) =~= first + message_blocks(ms, app@.focused_msg, width as int, i + 1));
        i = i + 1;
    }
    let ghost body = styled_lines_view(out@);
    assert(body == first + message_blocks(ms, app@.focused_msg, width as int, ms.len() as int));
    if app.is_loading {
        let mut spans: Vec<StyledSpan> = Vec::new();
        push_str_span(&mut spans, "ai   ", style_of(Some(MUTED), None, false, false));
        push_str_span(&mut spans, "thinking\u{2026}", style_of(Some(DIM), None, false, true));
        let line = line_of(spans);
        assert(line@ =~= thinking_line());
        push_line(&mut out, line);
        assert(styled_lines_view(out@) =~= chat_lines(app@, width as int));
    } else {
        assert(styled_lines_view(out@) =~= chat_lines(app@, width as int));
    }
    out
}

/// The chat's last scroll position (showing its end) for `total` lines in
/// `visible` rows, and the position shown: the end while the chat follows
/// it, else the chosen one, at most the end.
pub open spec fn chat_scroll(total: int, visible: int, scroll: int) -> (int, int) {
    let bottom = if total > visible { total - visible } else { 0 };
    (bottom, if scroll == usize::MAX { bottom } else if scroll < bottom { scroll } else { bottom })
}

pub fn chat_scroll_exec(total: usize, visible: usize, scroll: usize) -> (r: (usize, usize))
    ensures
        (r.0 as int, r.1 as int) == chat_scroll(total as int, visible as int, scroll as int),
{
    let bottom = total.saturating_sub(visible);
    let shown = if scroll == usize::MAX { bottom } else if scroll < bottom { scroll } else { bottom };
    (bottom, shown)
}

// ─── Footer, input and welcome ───────────────────────────────────────────────

/// The colour of a status message.
pub open spec fn status_rgb(c: StatusColor) -> Rgb {
    match c {
        StatusColor::Green => GREEN,
        StatusColor::Red => RED,
        StatusColor::Amber => AMBER,
    }
}

fn status_rgb_exec(s: &str) -> (r: Rgb)
    ensures
        r == status_rgb(chat::status_color_of(s@)),
{
    match status_color(s) {
        StatusColor::Green => GREEN,
        StatusColor::Red => RED,
        StatusColor::Amber => AMBER,
    }
}

pub open spec fn mode_text(m: Mode) -> Seq<char> {
    match m {
        Mode::Plan => "plan"@,
        Mode::Edit => "edit"@,
    }
}

/// The colour of the chat's mode.
pub open spec fn chat_mode_color(m: Mode) -> Rgb {
    match m {
        Mode::Plan => ACCENT,
        Mode::Edit => GREEN,
    }
}

fn mode_info(m: Mode) -> (r: (&'static str, Rgb))
    ensures
        r.0@ == mode_text(m),
        r.1 == chat_mode_color(m),
{
    match m {
        Mode::Plan => ("plan", ACCENT),
        Mode::Edit => ("edit", GREEN),
    }
}

/// The footer under the chat: the mode, the status (or else the provider),
/// and the main shortcuts.
pub open spec fn footer_line(v: AppView) -> LineV {
    let (st, sc) = if v.status.len() > 0 {
        ("\u{b7} "@ + v.status + "  "@, status_rgb(chat::status_color_of(v.status)))
    } else {
        match v.provider_name {
            Some(n) => ("\u{b7} "@ + n + "  "@, DIM),
            None => (Seq::<char>::empty(), DIM),
        }
    };
    seq![
        (" "@ + mode_text(v.mode) + "  "@, styled(Some(chat_mode_color(v.mode)), None, false, false)),
        (st, styled(Some(sc), None, false, false)),
        ("ctrl+k commands  ctrl+v editor  @ / ctrl+f files  "@, styled(Some(DIM), None, false, false)),
    ]
}

pub fn footer_line_exec(app: &App) -> (r: StyledLine)
    ensures
        r@ == footer_line(app@),
{
    let (mt, mc) = mode_info(app.mode);
    let mut spans: Vec<StyledSpan> = Vec::new();
    let mut m: Vec<char> = Vec::new();
    push_str(&mut m, " ");
    push_str(&mut m, mt);
    push_str(&mut m, "  ");
    push_span(&mut spans, m, style_of(Some(mc), None, false, false));
    let mut st: Vec<char> = Vec::new();
    let sc = if !app.status.as_str().is_empty() {
        push_str(&mut st, "\u{b7} ");
        push_str(&mut st, app.status.as_str());
        push_str(&mut st, "  ");
        status_rgb_exec(app.status.as_str())
    } else {
        if let Some(n) = &app.provider_name {
            push_str(&mut st, "\u{b7} ");
            push_str(&mut st, n.as_str());
            push_str(&mut st, "  ");
        }
        DIM
    };
    push_span(&mut spans, st, style_of(Some(sc), None, false, false));
    push_str_span(&mut spans, "ctrl+k commands  ctrl+v editor  @ / ctrl+f files  ", style_of(Some(DIM), None, false, false));
    let r = line_of(spans);
    assert(r@ =~= footer_line(app@));
    r
}

/// The first line of the input box: what is typed, or a hint when nothing
/// is (and the line is not being typed on).
pub open spec fn input_line(v: AppView) -> LineV {
    if v.input.len() == 0 && v.input_mode != InputMode::Typing {
        let hint = if v.messages.len() == 0 {
            "Ask anything\u{2026}  \"What is the tech stack of this project?\""@
        } else {
            "Ask anything\u{2026}"@
        };
        seq![(hint, styled(Some(DIM), None, false, true))]
    } else {
        seq![(v.input, styled(Some(FG), None, false, false))]
    }
}

pub fn input_line_exec(app: &App) -> (r: StyledLine)
    ensures
        r@ == input_line(app@),
{
    let mut spans: Vec<StyledSpan> = Vec::new();
    if app.input.len() == 0 && app.input_mode != InputMode::Typing {
        let hint = if app.messages.len() == 0 {
            "Ask anything\u{2026}  \"What is the tech stack of this project?\""
        } else {
            "Ask anything\u{2026}"
        };
        push_str_span(&mut spans, hint, style_of(Some(DIM), None, false, true));
    } else {
        push_span(&mut spans, app.input.clone(), style_of(Some(FG), None, false, false));
    }
    let r = line_of(spans);
    assert(r@ =~= input_line(app@));
    r
}

/// The second line of the input box: the mode, the provider, the effort.
pub open spec fn input_info_line(v: AppView) -> LineV {
    let pinfo = match v.provider_name {
        Some(n) => " "@ + n + " "@,
        None => " no provider "@,
    };
    seq![
        (" "@ + mode_text(v.mode) + " "@, styled(Some(chat_mode_color(v.mode)), None, true, false)),
        ("\u{b7}"@, styled(Some(DIM), None, false, false)),
        (pinfo, styled(Some(MUTED), None, false, false)),
        ("\u{b7}"@, styled(Some(DIM), None, false, false)),
        (" max"@, styled(Some(AMBER), None, false, false)),
    ]
}

pub fn input_info_line_exec(app: &App) -> (r: StyledLine)
    ensures
        r@ == input_info_line(app@),
{
    let (mt, mc) = mode_info(app.mode);
    let mut spans: Vec<StyledSpan> = Vec::new();
    let mut m: Vec<char> = Vec::new();
    push_str(&mut m, " ");
    push_str(&mut m, mt);
    push_str(&mut m, " ");
    push_span(&mut spans, m, style_of(Some(mc), None, true, false));
    push_str_span(&mut spans, "\u{b7}", style_of(Some(DIM), None, false, false));
    let mut pi: Vec<char> = Vec::new();
    match &app.provider_name {
        Some(n) => {
            push_str(&mut pi, " ");
            push_str(&mut pi, n.as_str());
            push_str(&mut pi, " ");
        },
        None => push_str(&mut pi, " no provider "),
    }
    push_span(&mut spans, pi, style_of(Some(MUTED), None, false, false));
    push_str_span(&mut spans, "\u{b7}", style_of(Some(DIM), None, false, false));
    push_str_span(&mut spans, " max", style_of(Some(AMBER), None, false, false));
    let r = line_of(spans);
    assert(r@ =~= input_info_line(app@));
    r
}

/// The input box's border: bright while typing.
pub open spec fn input_border(v: AppView) -> Rgb {
    if v.input_mode == InputMode::Typing { ACCENT } else { DIM }
}

pub fn input_border_exec(app: &App) -> (r: Rgb)
    ensures
        r == input_border(app@),
{
    if app.input_mode == InputMode::Typing { ACCENT } else { DIM }
}

/// The second line of the welcome screen: the mode, the key to switch
/// mode, and the provider.
pub open spec fn welcome_line(v: AppView) -> LineV {
    let (pt, pc) = match v.provider_name {
        Some(n) => (n, GREEN),
        None => ("no provider connected"@, MUTED),
    };
    let hint = match v.mode {
        Mode::Plan => "  [e] edit"@,
        Mode::Edit => "  [p] plan"@,
    };
    seq![
        (" "@ + mode_text(v.mode) + " "@, styled(Some(BG), Some(chat_mode_color(v.mode)), true, false)),
        (hint, styled(Some(DIM), None, false, false)),
        ("  \u{b7}  "@, styled(Some(DIM), None, false, false)),
        (pt, styled(Some(pc), None, false, false)),
    ]
}

pub fn welcome_line_exec(app: &App) -> (r: StyledLine)
    ensures
        r@ == welcome_line(app@),
{
    let (mt, mc) = mode_info(app.mode);
    let mut spans: Vec<StyledSpan> = Vec::new();
    let mut m: Vec<char> = Vec::new();
    push_str(&mut m, " ");
    push_str(&mut m, mt);
    push_str(&mut m, " ");
    push_span(&mut spans, m, style_of(Some(BG), Some(mc), true, false));
    let hint = match app.mode {
        Mode::Plan => "  [e] edit",
        Mode::Edit => "  [p] plan",
    };
    push_str_span(&mut spans, hint, style_of(Some(DIM), None, false, false));
    push_str_span(&mut spans, "  \u{b7}  ", style_of(Some(DIM), None, false, false));
    match &app.provider_name {
        Some(n) => push_span(&mut spans, chars_of(n.as_str()), style_of(Some(GREEN), None, false, false)),
        None => push_str_span(&mut spans, "no provider connected", style_of(Some(MUTED), None, false, false)),
    }
    let r = line_of(spans);
    assert(r@ =~= welcome_line(app@));
    r
}

/// The status under the welcome screen's input box, when there is one.
pub open spec fn welcome_status(v: AppView) -> Option<LineV> {
    if v.status.len() > 0 {
        Some(seq![("\u{b7} "@ + v.status, styled(Some(status_rgb(chat::status_color_of(v.status))), None, false, false))])
    } else {
        None
    }
}

pub fn welcome_status_exec(app: &App) -> (r: Option<StyledLine>)
    ensures
        match r {
            Some(l) => welcome_status(app@) == Some(l@),
            None => welcome_status(app@) is None,
        },
{
    if app.status.as_str().is_empty() {
        None
    } else {
        let mut t: Vec<char> = Vec::new();
        push_str(&mut t, "\u{b7} ");
        push_str(&mut t, app.status.as_str());
        let mut spans: Vec<StyledSpan> = Vec::new();
        push_span(&mut spans, t, style_of(Some(status_rgb_exec(app.status.as_str())), None, false, false));
        let r = line_of(spans);
        assert(r@ =~= seq![("\u{b7} "@ + app@.status, styled(Some(status_rgb(chat::status_color_of(app@.status))), None, false, false))]);
        Some(r)
    }
}

// ─── File-open prompt and file picker ────────────────────────────────────────

/// The file-open prompt's input line: a prompt, the path typed, a block
/// cursor.
pub open spec fn file_open_line(v: AppView) -> LineV {
    seq![
        ("> "@, styled(Some(ACCENT), None, false, false)),
        (v.file_open_buf, styled(Some(FG), None, false, false)),
        ("\u{2588}"@, styled(Some(ACCENT), None, false, false)),
    ]
}

pub fn file_open_line_exec(app: &App) -> (r: StyledLine)
    ensures
        r@ == file_open_line(app@),
{
    let mut spans: Vec<StyledSpan> = Vec::new();
    push_str_span(&mut spans, "> ", style_of(Some(ACCENT), None, false, false));
    push_span(&mut spans, app.file_open_buf.clone(), style_of(Some(FG), None, false, false));
    push_str_span(&mut spans, "\u{2588}", style_of(Some(ACCENT), None, false, false));
    let r = line_of(spans);
    assert(r@ =~= file_open_line(app@));
    r
}

/// The picker's title: how to use it, or the query.
pub open spec fn picker_title(p: PickerView) -> Seq<char> {
    if p.query.len() == 0 {
        " @ files  type to filter  esc cancel "@
    } else {
        " @"@ + p.query + "  esc cancel "@
    }
}

pub fn picker_title_exec(p: &FilePicker) -> (r: String)
    ensures
        r@ == picker_title(p@),
{
    if p.query.as_str().is_empty() {
        String::from_str(" @ files  type to filter  esc cancel ")
    } else {
        let mut t: Vec<char> = Vec::new();
        push_str(&mut t, " @");
        push_str(&mut t, p.query.as_str());
        push_str(&mut t, "  esc cancel ");
        string_of(&t)
    }
}

/// The height of the picker: its rows (at most twelve) and its border, at
/// least four.
pub open spec fn picker_height(n: int) -> int {
    let rows = if n < 12 { n } else { 12 };
    if rows + 2 > 4 { rows + 2 } else { 4 }
}

pub fn picker_height_exec(p: &FilePicker) -> (r: usize)
    ensures
        r == picker_height(p@.filtered.len() as int),
{
    let rows = if p.filtered.len() < 12 { p.filtered.len() } else { 12 };
    if rows + 2 > 4 { rows + 2 } else { 4 }
}

/// A row of the picker, `width` wide, highlighted when selected.
pub open spec fn picker_row(name: Seq<char>, selected: bool, width: int) -> LineV {
    let (fg, bg) = if selected { (BG, ACCENT) } else { (FG, OVERLAY_BG) };
    seq![(pad_right("  "@ + name, width), styled(Some(fg), Some(bg), false, false))]
}

/// The picker's rows (scroll them with `list_scroll`); when no file
/// matches, a note saying so.
pub open spec fn picker_rows(p: PickerView, width: int) -> Seq<LineV> {
    if p.filtered.len() == 0 {
        seq![seq![("  no files match"@, styled(Some(MUTED), None, false, true))]]
    } else {
        Seq::new(p.filtered.len(), |i: int| picker_row(p.filtered[i], i == p.selected, width))
    }
}

pub fn picker_rows_exec(p: &FilePicker, width: usize) -> (r: Vec<StyledLine>)
    ensures
        styled_lines_view(r@) == picker_rows(p@, width as int),
{
    let mut out: Vec<StyledLine> = Vec::new();
    if p.filtered.len() == 0 {
        let mut spans: Vec<StyledSpan> = Vec::new();
        push_str_span(&mut spans, "  no files match", style_of(Some(MUTED), None, false, true));
        assert(spans_view(spans@) =~= seq![("  no files match"@, styled(Some(MUTED), None, false, true))]);
        push_line(&mut out, line_of(spans));
        assert(styled_lines_view(out@) =~= picker_rows(p@, width as int));
        return out;
    }
    let ghost want = picker_rows(p@, width as int);
    let mut i: usize = 0;
    while i < p.filtered.len()
        invariant
            i <= p.filtered.len(),
            p.filtered.len() > 0,
            want == picker_rows(p@, width as int),
            styled_lines_view(out@) == want.take(i as int),
        decreases p.filtered.len() - i,
    {
        let sel = i == p.selected;
        let (fg, bg) = if sel { (BG, ACCENT) } else { (FG, OVERLAY_BG) };
        let mut label: Vec<char> = Vec::new();
        push_str(&mut label, "  ");
        push_str(&mut label, p.filtered[i].as_str());
        let mut spans: Vec<StyledSpan> = Vec::new();
        push_span(&mut spans, pad_right_exec(&label, width), style_of(Some(fg), Some(bg), false, false));
        let line = line_of(spans);
        assert(line@ =~= want[i as int]);
        push_line(&mut out, line);
        assert(want.take(i + 1) =~= want.take(i as int).push(want[i as int]));
        i = i + 1;
    }
    assert(want.take(p.filtered.len() as int) =~= want);
    out
}

// ─── Command palette ─────────────────────────────────────────────────────────

/// The number of entries of the command palette.
pub open spec fn palette_len() -> int {
    48
}

/// The `i`-th entry of the command palette: keys, what they do, and a
/// description. An entry without keys is a blank line; one without a label
/// is a note or a section heading.
pub open spec fn palette_entry(i: int) -> (Seq<char>, Seq<char>, Seq<char>) {
    if i == 0 {
        ("i"@, "start typing"@, "focus the input box"@)
    } else if i == 1 {
        ("/"@, "command mode"@, "prefix for slash commands"@)
    } else if i == 2 {
        ("enter"@, "send message"@, "send your message to the AI"@)
    } else if i == 3 {
        ("esc"@, "normal / close"@, "exit typing or close this panel"@)
    } else if i == 4 {
        ("p"@, "plan mode"@, "switch to plan mode (web search on)"@)
    } else if i == 5 {
        ("e"@, "edit mode"@, "switch to edit mode (code, no search)"@)
    } else if i == 6 {
        ("j / \u{2193}"@, "scroll down"@, "scroll chat"@)
    } else if i == 7 {
        ("k / \u{2191}"@, "scroll up"@, "scroll chat"@)
    } else if i == 8 {
        ("y"@, "copy response"@, "copy last AI response to clipboard"@)
    } else if i == 9 {
        ("s"@, "save response"@, "save last AI response to file"@)
    } else if i == 10 {
        ("ctrl+v"@, "open editor"@, "open built-in code editor + file tree"@)
    } else if i == 11 {
        ("ctrl+n / /new"@, "new session"@, "clear chat, keep provider"@)
    } else if i == 12 {
        ("ctrl+k"@, "command palette"@, "open / close this panel"@)
    } else if i == 13 {
        ("ctrl+c / q"@, "quit"@, "exit the application"@)
    } else if i == 14 {
        (""@, ""@, ""@)
    } else if i == 15 {
        ("\u{2500}\u{2500} plan mode \u{2500}\u{2500}\u{2500}\u{2500}\u{2500}\u{2500}\u{2500}\u{2500}\u{2500}\u{2500}\u{2500}\u{2500}\u{2500}\u{2500}\u{2500}\u{2500}\u{2500}\u{2500}\u{2500}\u{2500}\u{2500}\u{2500}\u{2500}\u{2500}\u{2500}\u{2500}\u{2500}\u{2500}\u{2500}\u{2500}\u{2500}\u{2500}\u{2500}\u{2500}\u{2500}\u{2500}\u{2500}\u{2500}\u{2500}\u{2500}\u{2500}\u{2500}\u{2500}\u{2500}\u{2500}\u{2500}\u{2500}\u{2500}"@, ""@, ""@)
    } else if i == 16 {
        (""@, ""@, "web search via exa ai is automatic"@)
    } else if i == 17 {
        (""@, ""@, "cerebras decides when to search"@)
    } else if i == 18 {
        (""@, ""@, "up to 3 searches per response (10 qps)"@)
    } else if i == 19 {
        (""@, ""@, "search type: fast \u{b7} results: 5 \u{b7} highlights"@)
    } else if i == 20 {
        (""@, ""@, ""@)
    } else if i == 21 {
        ("\u{2500}\u{2500} editor \u{2500}\u{2500}\u{2500}\u{2500}\u{2500}\u{2500}\u{2500}\u{2500}\u{2500}\u{2500}\u{2500}\u{2500}\u{2500}\u{2500}\u{2500}\u{2500}\u{2500}\u{2500}\u{2500}\u{2500}\u{2500}\u{2500}\u{2500}\u{2500}\u{2500}\u{2500}\u{2500}\u{2500}\u{2500}\u{2500}\u{2500}\u{2500}\u{2500}\u{2500}\u{2500}\u{2500}\u{2500}\u{2500}\u{2500}\u{2500}\u{2500}\u{2500}\u{2500}\u{2500}\u{2500}\u{2500}\u{2500}\u{2500}\u{2500}\u{2500}\u{2500}"@, ""@, ""@)
    } else if i == 22 {
        ("h j k l"@, "navigate"@, "move cursor"@)
    } else if i == 23 {
        ("i"@, "insert mode"@, "start typing at cursor"@)
    } else if i == 24 {
        ("a"@, "append"@, "insert after cursor"@)
    } else if i == 25 {
        ("o / O"@, "new line"@, "open line below / above"@)
    } else if i == 26 {
        ("dd"@, "delete line"@, ""@)
    } else if i == 27 {
        ("x"@, "delete char"@, ""@)
    } else if i == 28 {
        ("0 / $"@, "line start / end"@, ""@)
    } else if i == 29 {
        ("g / G"@, "file start / end"@, ""@)
    } else if i == 30 {
        (":w"@, "save"@, "write file to disk"@)
    } else if i == 31 {
        (":q"@, "quit editor"@, "return to AI agent"@)
    } else if i == 32 {
        (":wq"@, "save & quit"@, "write then return to AI agent"@)
    } else if i == 33 {
        (":q!"@, "discard & quit"@, "force quit without saving"@)
    } else if i == 34 {
        ("\u{2500}\u{2500} file tree \u{2500}\u{2500}\u{2500}\u{2500}\u{2500}\u{2500}\u{2500}\u{2500}\u{2500}\u{2500}\u{2500}\u{2500}\u{2500}\u{2500}\u{2500}\u{2500}\u{2500}\u{2500}\u{2500}\u{2500}\u{2500}\u{2500}\u{2500}\u{2500}\u{2500}\u{2500}\u{2500}\u{2500}\u{2500}\u{2500}\u{2500}\u{2500}\u{2500}\u{2500}\u{2500}\u{2500}\u{2500}\u{2500}\u{2500}\u{2500}\u{2500}\u{2500}\u{2500}\u{2500}\u{2500}\u{2500}\u{2500}\u{2500}"@, ""@, ""@)
    } else if i == 35 {
        ("ctrl+e"@, "toggle tree"@, "show / hide the file explorer"@)
    } else if i == 36 {
        ("tab"@, "switch focus"@, "toggle focus between tree and editor"@)
    } else if i == 37 {
        ("j / k"@, "navigate"@, "move selection up / down"@)
    } else if i == 38 {
        ("l / enter"@, "open / expand"@, "open file or expand directory"@)
    } else if i == 39 {
        ("h"@, "collapse"@, "collapse directory"@)
    } else if i == 40 {
        ("r"@, "refresh"@, "reload the file tree from disk"@)
    } else if i == 41 {
        (""@, ""@, ""@)
    } else if i == 42 {
        ("\u{2500}\u{2500} commands \u{2500}\u{2500}\u{2500}\u{2500}\u{2500}\u{2500}\u{2500}\u{2500}\u{2500}\u{2500}\u{2500}\u{2500}\u{2500}\u{2500}\u{2500}\u{2500}\u{2500}\u{2500}\u{2500}\u{2500}\u{2500}\u{2500}\u{2500}\u{2500}\u{2500}\u{2500}\u{2500}\u{2500}\u{2500}\u{2500}\u{2500}\u{2500}\u{2500}\u{2500}\u{2500}\u{2500}\u{2500}\u{2500}\u{2500}\u{2500}\u{2500}\u{2500}\u{2500}\u{2500}\u{2500}\u{2500}\u{2500}\u{2500}\u{2500}"@, ""@, ""@)
    } else if i == 43 {
        ("/connect cerebras <key>"@, ""@, "connect cerebras \u{b7} default: gpt-oss-120b"@)
    } else if i == 44 {
        ("/connect cerebras <key> llama3.1-8b"@, ""@, "connect cerebras \u{b7} llama3.1-8b"@)
    } else if i == 45 {
        ("/exa <key>"@, ""@, "update exa api key at runtime"@)
    } else if i == 46 {
        ("/edit <path>"@, ""@, "open file directly in editor"@)
    } else {
        ("/new"@, ""@, "clear session, keep provider connection"@)
    }
}

fn palette_entry_exec(i: usize) -> (r: (&'static str, &'static str, &'static str))
    requires
        i < palette_len(),
    ensures
        (r.0@, r.1@, r.2@) == palette_entry(i as int),
{
    if i == 0 {
        ("i", "start typing", "focus the input box")
    } else if i == 1 {
        ("/", "command mode", "prefix for slash commands")
    } else if i == 2 {
        ("enter", "send message", "send your message to the AI")
    } else if i == 3 {
        ("esc", "normal / close", "exit typing or close this panel")
    } else if i == 4 {
        ("p", "plan mode", "switch to plan mode (web search on)")
    } else if i == 5 {
        ("e", "edit mode", "switch to edit mode (code, no search)")
    } else if i == 6 {
        ("j / \u{2193}", "scroll down", "scroll chat")
    } else if i == 7 {
        ("k / \u{2191}", "scroll up", "scroll chat")
    } else if i == 8 {
        ("y", "copy response", "copy last AI response to clipboard")
    } else if i == 9 {
        ("s", "save response", "save last AI response to file")
    } else if i == 10 {
        ("ctrl+v", "open editor", "open built-in code editor + file tree")
    } else if i == 11 {
        ("ctrl+n / /new", "new session", "clear chat, keep provider")
    } else if i == 12 {
        ("ctrl+k", "command palette", "open / close this panel")
    } else if i == 13 {
        ("ctrl+c / q", "quit", "exit the application")
    } else if i == 14 {
        ("", "", "")
    } else if i == 15 {
        ("\u{2500}\u{2500} plan mode \u{2500}\u{2500}\u{2500}\u{2500}\u{2500}\u{2500}\u{2500}\u{2500}\u{2500}\u{2500}\u{2500}\u{2500}\u{2500}\u{2500}\u{2500}\u{2500}\u{2500}\u{2500}\u{2500}\u{2500}\u{2500}\u{2500}\u{2500}\u{2500}\u{2500}\u{2500}\u{2500}\u{2500}\u{2500}\u{2500}\u{2500}\u{2500}\u{2500}\u{2500}\u{2500}\u{2500}\u{2500}\u{2500}\u{2500}\u{2500}\u{2500}\u{2500}\u{2500}\u{2500}\u{2500}\u{2500}\u{2500}\u{2500}", "", "")
    } else if i == 16 {
        ("", "", "web search via exa ai is automatic")
    } else if i == 17 {
        ("", "", "cerebras decides when to search")
    } else if i == 18 {
        ("", "", "up to 3 searches per response (10 qps)")
    } else if i == 19 {
        ("", "", "search type: fast \u{b7} results: 5 \u{b7} highlights")
    } else if i == 20 {
        ("", "", "")
    } else if i == 21 {
        ("\u{2500}\u{2500} editor \u{2500}\u{2500}\u{2500}\u{2500}\u{2500}\u{2500}\u{2500}\u{2500}\u{2500}\u{2500}\u{2500}\u{2500}\u{2500}\u{2500}\u{2500}\u{2500}\u{2500}\u{2500}\u{2500}\u{2500}\u{2500}\u{2500}\u{2500}\u{2500}\u{2500}\u{2500}\u{2500}\u{2500}\u{2500}\u{2500}\u{2500}\u{2500}\u{2500}\u{2500}\u{2500}\u{2500}\u{2500}\u{2500}\u{2500}\u{2500}\u{2500}\u{2500}\u{2500}\u{2500}\u{2500}\u{2500}\u{2500}\u{2500}\u{2500}\u{2500}\u{2500}", "", "")
    } else if i == 22 {
        ("h j k l", "navigate", "move cursor")
    } else if i == 23 {
        ("i", "insert mode", "start typing at cursor")
    } else if i == 24 {
        ("a", "append", "insert after cursor")
    } else if i == 25 {
        ("o / O", "new line", "open line below / above")
    } else if i == 26 {
        ("dd", "delete line", "")
    } else if i == 27 {
        ("x", "delete char", "")
    } else if i == 28 {
        ("0 / $", "line start / end", "")
    } else if i == 29 {
        ("g / G", "file start / end", "")
    } else if i == 30 {
        (":w", "save", "write file to disk")
    } else if i == 31 {
        (":q", "quit editor", "return to AI agent")
    } else if i == 32 {
        (":wq", "save & quit", "write then return to AI agent")
    } else if i == 33 {
        (":q!", "discard & quit", "force quit without saving")
    } else if i == 34 {
        ("\u{2500}\u{2500} file tree \u{2500}\u{2500}\u{2500}\u{2500}\u{2500}\u{2500}\u{2500}\u{2500}\u{2500}\u{2500}\u{2500}\u{2500}\u{2500}\u{2500}\u{2500}\u{2500}\u{2500}\u{2500}\u{2500}\u{2500}\u{2500}\u{2500}\u{2500}\u{2500}\u{2500}\u{2500}\u{2500}\u{2500}\u{2500}\u{2500}\u{2500}\u{2500}\u{2500}\u{2500}\u{2500}\u{2500}\u{2500}\u{2500}\u{2500}\u{2500}\u{2500}\u{2500}\u{2500}\u{2500}\u{2500}\u{2500}\u{2500}\u{2500}", "", "")
    } else if i == 35 {
        ("ctrl+e", "toggle tree", "show / hide the file explorer")
    } else if i == 36 {
        ("tab", "switch focus", "toggle focus between tree and editor")
    } else if i == 37 {
        ("j / k", "navigate", "move selection up / down")
    } else if i == 38 {
        ("l / enter", "open / expand", "open file or expand directory")
    } else if i == 39 {
        ("h", "collapse", "collapse directory")
    } else if i == 40 {
        ("r", "refresh", "reload the file tree from disk")
    } else if i == 41 {
        ("", "", "")
    } else if i == 42 {
        ("\u{2500}\u{2500} commands \u{2500}\u{2500}\u{2500}\u{2500}\u{2500}\u{2500}\u{2500}\u{2500}\u{2500}\u{2500}\u{2500}\u{2500}\u{2500}\u{2500}\u{2500}\u{2500}\u{2500}\u{2500}\u{2500}\u{2500}\u{2500}\u{2500}\u{2500}\u{2500}\u{2500}\u{2500}\u{2500}\u{2500}\u{2500}\u{2500}\u{2500}\u{2500}\u{2500}\u{2500}\u{2500}\u{2500}\u{2500}\u{2500}\u{2500}\u{2500}\u{2500}\u{2500}\u{2500}\u{2500}\u{2500}\u{2500}\u{2500}\u{2500}\u{2500}", "", "")
    } else if i == 43 {
        ("/connect cerebras <key>", "", "connect cerebras \u{b7} default: gpt-oss-120b")
    } else if i == 44 {
        ("/connect cerebras <key> llama3.1-8b", "", "connect cerebras \u{b7} llama3.1-8b")
    } else if i == 45 {
        ("/exa <key>", "", "update exa api key at runtime")
    } else if i == 46 {
        ("/edit <path>", "", "open file directly in editor")
    } else {
        ("/new", "", "clear session, keep provider connection")
    }
}

/// The number of entries of the command palette.
pub fn palette_count() -> (r: usize)
    ensures
        r == palette_len(),
{
    48
}

/// How an entry of the palette is shown: a blank line, a note, a section
/// heading, or keys with what they do.
pub open spec fn palette_line(e: (Seq<char>, Seq<char>, Seq<char>)) -> LineV {
    if e.0.len() == 0 {
        Seq::empty()
    } else if e.1.len() == 0 {
        seq![
            ("  "@ + pad_right(e.0, 40), styled(Some(MUTED), None, false, false)),
            (e.2, styled(Some(DIM), None, false, false)),
        ]
    } else if e.0.len() >= 2 && e.0[0] == '\u{2500}' && e.0[1] == '\u{2500}' {
        seq![("  "@ + e.0, styled(Some(OVERLAY_BORDER), None, true, false))]
    } else {
        seq![
            ("  "@ + pad_right(e.0, 14), styled(Some(ACCENT), None, false, false)),
            (pad_right(e.1, 22), styled(Some(FG), None, false, false)),
            (e.2, styled(Some(DIM), None, false, false)),
        ]
    }
}

/// The palette's lines, `width` wide: a title, a rule, then the entries.
pub open spec fn palette_lines(width: int) -> Seq<LineV> {
    seq![
        seq![("commands"@, styled(Some(FG), None, true, false)), ("  \u{b7}  esc to close"@, styled(Some(DIM), None, false, false))],
        seq![(Seq::new(if width > 0 { width as nat } else { 0 }, |_i: int| '\u{2500}'), styled(Some(OVERLAY_BORDER), None, false, false))],
    ] + Seq::new(palette_len() as nat, |i: int| palette_line(palette_entry(i)))
}

fn palette_line_exec(key: &str, label: &str, desc: &str) -> (r: StyledLine)
    ensures
        r@ == palette_line((key@, label@, desc@)),
{
    let k = chars_of(key);
    let l = chars_of(label);
    let mut spans: Vec<StyledSpan> = Vec::new();
    if k.len() == 0 {
    } else if l.len() == 0 {
        let mut t: Vec<char> = Vec::new();
        push_str(&mut t, "  ");
        push_all(&mut t, &pad_right_exec(&k, 40));
        push_span(&mut spans, t, style_of(Some(MUTED), None, false, false));
        push_str_span(&mut spans, desc, style_of(Some(DIM), None, false, false));
    } else if k.len() >= 2 && k[0] == '\u{2500}' && k[1] == '\u{2500}' {
        let mut t: Vec<char> = Vec::new();
        push_str(&mut t, "  ");
        push_all(&mut t, &k);
        push_span(&mut spans, t, style_of(Some(OVERLAY_BORDER), None, true, false));
    } else {
        let mut t: Vec<char> = Vec::new();
        push_str(&mut t, "  ");
        push_all(&mut t, &pad_right_exec(&k, 14));
        push_span(&mut spans, t, style_of(Some(ACCENT), None, false, false));
        push_span(&mut spans, pad_right_exec(&l, 22), style_of(Some(FG), None, false, false));
        push_str_span(&mut spans, desc, style_of(Some(DIM), None, false, false));
    }
    let r = line_of(spans);
    assert(r@ =~= palette_line((key@, label@, desc@)));
    r
}

pub fn palette_lines_exec(width: usize) -> (r: Vec<StyledLine>)
    ensures
        styled_lines_view(r@) == palette_lines(width as int),
{
    let mut out: Vec<StyledLine> = Vec::new();
    let mut head: Vec<StyledSpan> = Vec::new();
    push_str_span(&mut head, "commands", style_of(Some(FG), None, true, false));
    push_str_span(&mut head, "  \u{b7}  esc to close", style_of(Some(DIM), None, false, false));
    assert(spans_view(head@) =~= seq![
        ("commands"@, styled(Some(FG), None, true, false)),
        ("  \u{b7}  esc to close"@, styled(Some(DIM), None, false, false)),
    ]);
    push_line(&mut out, line_of(head));
    let mut rule: Vec<StyledSpan> = Vec::new();
    let bar = repeat_char('\u{2500}', width);
    assert(bar@ =~= Seq::new(if width > 0 { width as nat } else { 0 }, |_i: int| '\u{2500}'));
    push_span(&mut rule, bar, style_of(Some(OVERLAY_BORDER), None, false, false));
    assert(spans_view(rule@) =~= seq![(
        Seq::new(if width > 0 { width as nat } else { 0 }, |_i: int| '\u{2500}'),
        styled(Some(OVERLAY_BORDER), None, false, false),
    )]);
    push_line(&mut out, line_of(rule));
    let ghost first = styled_lines_view(out@);
    let ghost want = Seq::new(palette_len() as nat, |i: int| palette_line(palette_entry(i)));
    let mut i: usize = 0;
    while i < 48
        invariant
            i <= 48,
            want == Seq::new(palette_len() as nat, |i: int| palette_line(palette_entry(i))),
            styled_lines_view(out@) == first + want.take(i as int),
        decreases 48 - i,
    {
        let (k, l, d) = palette_entry_exec(i);
        let line = palette_line_exec(k, l, d);
        assert(line@ == want[i as int]);
        push_line(&mut out, line);
        assert(want.take(i + 1) =~= want.take(i as int).push(want[i as int]));
        i = i + 1;
    }
    assert(want.take(48) =~= want);
    assert(styled_lines_view(out@) =~= palette_lines(width as int));
    out
}

/// The first palette line shown in `visible` rows: the chosen scroll, at
/// most the number of entries beyond one screen.
pub open spec fn palette_scroll(scroll: int, visible: int) -> int {
    let max = if palette_len() > visible { palette_len() - visible } else { 0 };
    if scroll < max { scroll } else { max }
}

pub fn palette_scroll_exec(scroll: usize, visible: usize) -> (r: usize)
    ensures
        r == palette_scroll(scroll as int, visible as int),
{
    let max: usize = if 48 > visible { 48 - visible } else { 0 };
    if scroll < max { scroll } else { max }
}

} // verus!
