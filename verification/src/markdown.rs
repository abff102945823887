//! Markdown to styled terminal lines: word wrapping, code blocks cut to the
//! width, lists, quotes, links and boxed tables. The markdown is parsed by
//! `pulldown_cmark`; everything after the parse is this module's.
use vstd::prelude::*;
use crate::text::{chars_of, is_whitespace, lines_of, push_all, push_decimal, repeat_char, string_of};
use crate::text;
use pulldown_cmark::{Event, Options, Parser, Tag, TagEnd};

verus! {

/// A colour, as `0xRRGGBB`.
pub type Rgb = u32;

pub const FG: Rgb = 0xFAFAFC;
pub const HEADING1: Rgb = 0x96B4FF;
pub const HEADING2: Rgb = 0x78A0F0;
pub const HEADING3: Rgb = 0x648CDC;
pub const CODE_FG: Rgb = 0xFFC864;
pub const CODE_BG: Rgb = 0x232432;
pub const BLOCK_QUOTE: Rgb = 0xA8AAB9;
pub const RULE_COLOR: Rgb = 0x323444;
pub const LIST_BULLET: Rgb = 0x5082E6;
pub const LINK_COLOR: Rgb = 0x64B4FF;
pub const TABLE_BORDER: Rgb = 0x3C415A;
pub const TABLE_HEADER: Rgb = 0x8CB4FF;
pub const TABLE_FG: Rgb = 0xC8CDDC;

/// How a piece of text is drawn.
#[derive(Debug, Clone, Copy, PartialEq, Eq, Structural)]
pub struct TextStyle {
    pub fg: Option<Rgb>,
    pub bg: Option<Rgb>,
    pub bold: bool,
    pub italic: bool,
    pub underlined: bool,
    pub crossed_out: bool,
}

/// A run of text in one style.
pub struct StyledSpan {
    pub content: String,
    pub style: TextStyle,
}

/// A line of styled text. A line with no spans is an empty line.
pub struct StyledLine {
    pub spans: Vec<StyledSpan>,
}

pub type SpanV = (Seq<char>, TextStyle);

pub type LineV = Seq<SpanV>;

impl View for StyledSpan {
    type V = SpanV;

    open spec fn view(&self) -> SpanV {
        (self.content@, self.style)
    }
}

impl View for StyledLine {
    type V = LineV;

    open spec fn view(&self) -> LineV {
        spans_view(self.spans@)
    }
}

pub open spec fn spans_view(v: Seq<StyledSpan>) -> Seq<SpanV> {
    v.map_values(|s: StyledSpan| s@)
}

pub open spec fn styled_lines_view(v: Seq<StyledLine>) -> Seq<LineV> {
    v.map_values(|l: StyledLine| l@)
}

/// The plain style in `fg`.
pub open spec fn fg_style(c: Rgb) -> TextStyle {
    TextStyle { fg: Some(c), bg: None, bold: false, italic: false, underlined: false, crossed_out: false }
}

fn fg_only(c: Rgb) -> (s: TextStyle)
    ensures
        s == fg_style(c),
{
    TextStyle { fg: Some(c), bg: None, bold: false, italic: false, underlined: false, crossed_out: false }
}

/// The style of code.
pub open spec fn code_style() -> TextStyle {
    TextStyle { bg: Some(CODE_BG), ..fg_style(CODE_FG) }
}

fn code_only() -> (s: TextStyle)
    ensures
        s == code_style(),
{
    TextStyle { fg: Some(CODE_FG), bg: Some(CODE_BG), bold: false, italic: false, underlined: false, crossed_out: false }
}

/// A line holding one span.
pub open spec fn one_span(content: Seq<char>, style: TextStyle) -> LineV {
    seq![(content, style)]
}

fn span_line(content: Vec<char>, style: TextStyle) -> (r: StyledLine)
    ensures
        r@ == one_span(content@, style),
{
    let mut spans: Vec<StyledSpan> = Vec::new();
    spans.push(StyledSpan { content: string_of(&content), style });
    assert(spans_view(spans@) =~= one_span(content@, style));
    StyledLine { spans }
}

fn empty_line() -> (r: StyledLine)
    ensures
        r@ == Seq::<SpanV>::empty(),
{
    let spans: Vec<StyledSpan> = Vec::new();
    assert(spans_view(spans@) =~= Seq::<SpanV>::empty());
    StyledLine { spans }
}

/// `s` cut to at most `max` characters, ending in `'…'` when it was cut.
pub open spec fn truncate(s: Seq<char>, max: int) -> Seq<char> {
    if s.len() <= max {
        s
    } else if max == 0 {
        Seq::empty()
    } else {
        s.take(max - 1).push('\u{2026}')
    }
}

fn truncate_chars(s: &Vec<char>, max: usize) -> (r: Vec<char>)
    ensures
        r@ == truncate(s@, max as int),
{
    if s.len() <= max {
        s.clone()
    } else if max == 0 {
        Vec::new()
    } else {
        let mut r: Vec<char> = Vec::new();
        let mut i: usize = 0;
        while i < max - 1
            invariant
                i <= max - 1,
                max <= s.len(),
                r@ =~= s@.take(i as int),
            decreases max - 1 - i,
        {
            r.push(s[i]);
            i = i + 1;
        }
        r.push('\u{2026}');
        r
    }
}

/// Cuts `s` to at most `max_width` characters, ending in `'…'` when it was
/// cut.
pub fn truncate_str(s: &str, max_width: usize) -> (r: String)
    ensures
        r@ == truncate(s@, max_width as int),
{
    let c = chars_of(s);
    let t = truncate_chars(&c, max_width);
    string_of(&t)
}

/// Cuts a line of code to fit, with room for the two-space indent before it.
pub fn wrap_code_line(line: &str, wrap_width: usize) -> (r: String)
    ensures
        r@ == truncate(line@, if wrap_width >= 2 { wrap_width - 2 } else { 0 }),
{
    truncate_str(line, wrap_width.saturating_sub(2))
}

/// Splitting into words: the words found so far and the word being read.
pub open spec fn words_step(st: (Seq<Seq<char>>, Seq<char>), c: char) -> (Seq<Seq<char>>, Seq<char>) {
    if text::is_ws(c) {
        if st.1.len() > 0 { (st.0.push(st.1), Seq::empty()) } else { st }
    } else {
        (st.0, st.1.push(c))
    }
}

pub open spec fn words_fold(s: Seq<char>) -> (Seq<Seq<char>>, Seq<char>)
    decreases s.len(),
{
    if s.len() == 0 { (Seq::empty(), Seq::empty()) } else { words_step(words_fold(s.drop_last()), s.last()) }
}

/// The words of `s`, as `str::split_whitespace` yields them.
pub open spec fn words(s: Seq<char>) -> Seq<Seq<char>> {
    let st = words_fold(s);
    if st.1.len() > 0 { st.0.push(st.1) } else { st.0 }
}

fn split_words(s: &Vec<char>) -> (r: Vec<Vec<char>>)
    ensures
        r@.map_values(|w: Vec<char>| w@) == words(s@),
{
    let mut done: Vec<Vec<char>> = Vec::new();
    let mut cur: Vec<char> = Vec::new();
    let mut i: usize = 0;
    while i < s.len()
        invariant
            i <= s.len(),
            (done@.map_values(|w: Vec<char>| w@), cur@) == words_fold(s@.take(i as int)),
        decreases s.len() - i,
    {
        let c = s[i];
        assert(s@.take(i + 1).drop_last() =~= s@.take(i as int));
        if is_whitespace(c) {
            if cur.len() > 0 {
                done.push(cur);
                cur = Vec::new();
                assert(done@.map_values(|w: Vec<char>| w@) =~= words_fold(s@.take(i + 1)).0);
            }
        } else {
            cur.push(c);
        }
        i = i + 1;
    }
    assert(s@.take(s.len() as int) =~= s@);
    if cur.len() > 0 {
        done.push(cur);
        assert(done@.map_values(|w: Vec<char>| w@) =~= words(s@));
    }
    done
}

/// Filling lines with words: the full lines and the line being filled. A
/// word goes on the current line, after a space, while it fits in `width`.
pub open spec fn fill_step(st: (Seq<Seq<char>>, Seq<char>), word: Seq<char>, width: int) -> (Seq<Seq<char>>, Seq<char>) {
    let st1 = if st.1.len() > 0 && st.1.len() + 1 + word.len() > width { (st.0.push(st.1), Seq::<char>::empty()) } else { st };
    let line = if st1.1.len() > 0 { st1.1.push(' ') } else { st1.1 };
    (st1.0, line + word)
}

pub open spec fn fill_fold(ws: Seq<Seq<char>>, width: int) -> (Seq<Seq<char>>, Seq<char>)
    decreases ws.len(),
{
    if ws.len() == 0 { (Seq::empty(), Seq::empty()) } else { fill_step(fill_fold(ws.drop_last(), width), ws.last(), width) }
}

/// The lines that word wrapping `s` to `width` gives.
pub open spec fn fill(s: Seq<char>, width: int) -> Seq<Seq<char>> {
    let st = fill_fold(words(s), width);
    if st.1.len() > 0 { st.0.push(st.1) } else { st.0 }
}

/// `text` word-wrapped to `width`, each line in `style`; an empty line when
/// there is no word.
pub open spec fn wrap(text: Seq<char>, style: TextStyle, width: int) -> Seq<LineV> {
    let ls = fill(text, width);
    if text.len() == 0 || ls.len() == 0 {
        seq![Seq::empty()]
    } else {
        ls.map_values(|l: Seq<char>| one_span(l, style))
    }
}

/// A line fits `width`, or holds a single word (no space).
pub open spec fn fits_or_one_word(l: Seq<char>, width: int) -> bool {
    l.len() <= width || !l.contains(' ')
}

proof fn lemma_words_have_no_space(s: Seq<char>)
    ensures
        forall|i: int| 0 <= i < words_fold(s).0.len() ==> !(#[trigger] words_fold(s).0[i]).contains(' '),
        !words_fold(s).1.contains(' '),
    decreases s.len(),
{
    if s.len() > 0 {
        lemma_words_have_no_space(s.drop_last());
        let st = words_fold(s.drop_last());
        let c = s.last();
        if !text::is_ws(c) {
            assert(!st.1.push(c).contains(' ')) by {
                if st.1.push(c).contains(' ') {
                    let k = choose|k: int| 0 <= k < st.1.push(c).len() && st.1.push(c)[k] == ' ';
                    if k < st.1.len() {
                        assert(st.1[k] == ' ');
                    }
                }
            }
        } else if st.1.len() > 0 {
            assert forall|i: int| 0 <= i < st.0.push(st.1).len() implies !(#[trigger] st.0.push(st.1)[i]).contains(' ') by {
                if i < st.0.len() {
                    assert(st.0.push(st.1)[i] == st.0[i]);
                }
            }
            assert(!Seq::<char>::empty().contains(' '));
        }
    }
}

proof fn lemma_fill_fits(ws: Seq<Seq<char>>, width: int)
    requires
        forall|i: int| 0 <= i < ws.len() ==> !(#[trigger] ws[i]).contains(' '),
    ensures
        forall|i: int| 0 <= i < fill_fold(ws, width).0.len() ==> fits_or_one_word(#[trigger] fill_fold(ws, width).0[i], width),
        fits_or_one_word(fill_fold(ws, width).1, width),
    decreases ws.len(),
{
    if ws.len() == 0 {
        assert(!Seq::<char>::empty().contains(' '));
    } else {
        let rest = ws.drop_last();
        assert forall|i: int| 0 <= i < rest.len() implies !(#[trigger] rest[i]).contains(' ') by {
            assert(rest[i] == ws[i]);
        }
        lemma_fill_fits(rest, width);
        let st = fill_fold(rest, width);
        let w = ws.last();
        assert(!w.contains(' ')) by {
            assert(ws[ws.len() - 1] == w);
        }
        let flush = st.1.len() > 0 && st.1.len() + 1 + w.len() > width;
        if flush {
            assert forall|i: int| 0 <= i < st.0.push(st.1).len() implies fits_or_one_word(#[trigger] st.0.push(st.1)[i], width) by {
                if i < st.0.len() {
                    assert(st.0.push(st.1)[i] == st.0[i]);
                }
            }
            assert(Seq::<char>::empty() + w =~= w);
        } else if st.1.len() == 0 {
            assert(st.1 + w =~= w);
        } else {
            assert((st.1.push(' ') + w).len() <= width);
        }
    }
}

/// Word wrapping gives lines that fit the width, but for a line holding a
/// single word longer than the width.
pub proof fn law_wrap_fits(s: Seq<char>, width: int)
    ensures
        forall|i: int| 0 <= i < fill(s, width).len() ==> fits_or_one_word(#[trigger] fill(s, width)[i], width),
{
    lemma_words_have_no_space(s);
    let st = words_fold(s);
    let ws = words(s);
    assert forall|i: int| 0 <= i < ws.len() implies !(#[trigger] ws[i]).contains(' ') by {
        if st.1.len() > 0 && i == st.0.len() {
            assert(ws[i] == st.1);
        } else {
            assert(ws[i] == st.0[i]);
        }
    }
    lemma_fill_fits(ws, width);
    let f = fill_fold(ws, width);
    assert forall|i: int| 0 <= i < fill(s, width).len() implies fits_or_one_word(#[trigger] fill(s, width)[i], width) by {
        if f.1.len() > 0 && i == f.0.len() {
            assert(fill(s, width)[i] == f.1);
        } else {
            assert(fill(s, width)[i] == f.0[i]);
        }
    }
}

/// Lines (or words) joined with single spaces.
pub open spec fn spaced(ls: Seq<Seq<char>>) -> Seq<char>
    decreases ls.len(),
{
    if ls.len() == 0 {
        Seq::empty()
    } else if ls.len() == 1 {
        ls[0]
    } else {
        spaced(ls.drop_last()).push(' ') + ls.last()
    }
}

proof fn lemma_words_nonempty(s: Seq<char>)
    ensures
        forall|i: int| 0 <= i < words_fold(s).0.len() ==> (#[trigger] words_fold(s).0[i]).len() > 0,
    decreases s.len(),
{
    if s.len() > 0 {
        lemma_words_nonempty(s.drop_last());
        let st = words_fold(s.drop_last());
        if text::is_ws(s.last()) && st.1.len() > 0 {
            assert forall|i: int| 0 <= i < st.0.push(st.1).len() implies (#[trigger] st.0.push(st.1)[i]).len() > 0 by {
                if i < st.0.len() {
                    assert(st.0.push(st.1)[i] == st.0[i]);
                }
            }
        }
    }
}

proof fn lemma_fill_keeps_words(ws: Seq<Seq<char>>, width: int)
    requires
        ws.len() > 0,
        forall|i: int| 0 <= i < ws.len() ==> (#[trigger] ws[i]).len() > 0,
    ensures
        fill_fold(ws, width).1.len() > 0,
        spaced(fill_fold(ws, width).0.push(fill_fold(ws, width).1)) == spaced(ws),
    decreases ws.len(),
{
    let rest = ws.drop_last();
    let w = ws.last();
    assert(w.len() > 0) by {
        assert(ws[ws.len() - 1] == w);
    }
    if rest.len() == 0 {
        assert(ws =~= seq![w]);
        assert(Seq::<char>::empty() + w =~= w);
        assert(fill_fold(rest, width) == (Seq::<Seq<char>>::empty(), Seq::<char>::empty()));
        assert(fill_fold(ws, width) == fill_step(fill_fold(rest, width), w, width));
        assert(fill_fold(ws, width) == (Seq::<Seq<char>>::empty(), w));
        assert(Seq::<Seq<char>>::empty().push(w) =~= seq![w]);
        assert(spaced(seq![w]) == w);
    } else {
        assert forall|i: int| 0 <= i < rest.len() implies (#[trigger] rest[i]).len() > 0 by {
            assert(rest[i] == ws[i]);
        }
        lemma_fill_keeps_words(rest, width);
        let st = fill_fold(rest, width);
        assert(spaced(ws) == spaced(rest).push(' ') + w);
        assert(st.0.push(st.1).drop_last() =~= st.0);
        assert(fill_fold(ws, width) == fill_step(st, w, width));
        if st.1.len() + 1 + w.len() > width {
            let lines = st.0.push(st.1).push(w);
            assert(Seq::<char>::empty() + w =~= w);
            assert(fill_fold(ws, width) == (st.0.push(st.1), w));
            assert(lines.drop_last() =~= st.0.push(st.1));
            assert(lines.last() == w);
            assert(spaced(lines) == spaced(st.0.push(st.1)).push(' ') + w);
        } else {
            assert(fill_fold(ws, width) == (st.0, st.1.push(' ') + w));
            let cur = st.1.push(' ') + w;
            let lines = st.0.push(cur);
            assert(lines.drop_last() =~= st.0);
            if st.0.len() == 0 {
                assert(st.0.push(st.1) =~= seq![st.1]);
                assert(lines =~= seq![cur]);
            } else {
                assert(spaced(lines) == spaced(st.0).push(' ') + cur);
                assert(spaced(st.0.push(st.1)) == spaced(st.0).push(' ') + st.1);
                assert(spaced(st.0).push(' ') + cur =~= (spaced(st.0).push(' ') + st.1).push(' ') + w);
            }
        }
    }
}

/// Word wrapping loses no word and adds none: the lines joined with single
/// spaces are the text's words joined with single spaces.
pub proof fn law_wrap_keeps_words(s: Seq<char>, width: int)
    ensures
        spaced(fill(s, width)) == spaced(words(s)),
{
    let st = words_fold(s);
    let ws = words(s);
    lemma_words_nonempty(s);
    assert forall|i: int| 0 <= i < ws.len() implies (#[trigger] ws[i]).len() > 0 by {
        if st.1.len() > 0 && i == st.0.len() {
            assert(ws[i] == st.1);
        } else {
            assert(ws[i] == st.0[i]);
        }
    }
    if ws.len() > 0 {
        lemma_fill_keeps_words(ws, width);
    }
}

fn wrap_line(text: &Vec<char>, style: TextStyle, wrap_width: usize) -> (r: Vec<StyledLine>)
    ensures
        styled_lines_view(r@) == wrap(text@, style, wrap_width as int),
{
    let mut result: Vec<StyledLine> = Vec::new();
    if text.len() == 0 {
        result.push(empty_line());
        assert(styled_lines_view(result@) =~= wrap(text@, style, wrap_width as int));
        return result;
    }
    let ws = split_words(text);
    let ghost wv = ws@.map_values(|w: Vec<char>| w@);
    let mut done: Vec<Vec<char>> = Vec::new();
    let mut cur: Vec<char> = Vec::new();
    let mut i: usize = 0;
    while i < ws.len()
        invariant
            i <= ws.len(),
            wv == ws@.map_values(|w: Vec<char>| w@),
            (done@.map_values(|l: Vec<char>| l@), cur@) == fill_fold(wv.take(i as int), wrap_width as int),
        decreases ws.len() - i,
    {
        let w = ws[i].len();
        assert(wv.take(i + 1).drop_last() =~= wv.take(i as int));
        let cw = cur.len();
        if cw > 0 && (cw >= wrap_width || w > wrap_width - cw - 1) {
            done.push(cur);
            cur = Vec::new();
        }
        if cur.len() > 0 {
            cur.push(' ');
        }
        push_all(&mut cur, &ws[i]);
        assert(done@.map_values(|l: Vec<char>| l@) =~= fill_fold(wv.take(i + 1), wrap_width as int).0);
        i = i + 1;
    }
    assert(wv.take(ws.len() as int) =~= wv);
    if cur.len() > 0 {
        done.push(cur);
    }
    let ghost lv = done@.map_values(|l: Vec<char>| l@);
    assert(lv =~= fill(text@, wrap_width as int));
    if done.len() == 0 {
        result.push(empty_line());
        assert(styled_lines_view(result@) =~= wrap(text@, style, wrap_width as int));
        return result;
    }
    let mut k: usize = 0;
    while k < done.len()
        invariant
            k <= done.len(),
            lv == done@.map_values(|l: Vec<char>| l@),
            styled_lines_view(result@) =~= lv.take(k as int).map_values(|l: Seq<char>| one_span(l, style)),
        decreases done.len() - k,
    {
        let c = done[k].clone();
        assert(c@ =~= done@[k as int]@);
        let line = span_line(c, style);
        let ghost before = styled_lines_view(result@);
        let ghost lw = line@;
        result.push(line);
        assert(styled_lines_view(result@) =~= before.push(lw));
        assert(lv.take(k + 1).map_values(|l: Seq<char>| one_span(l, style)) =~= lv.take(k as int).map_values(
            |l: Seq<char>| one_span(l, style),
        ).push(one_span(lv[k as int], style)));
        k = k + 1;
    }
    assert(lv.take(done.len() as int) =~= lv);
    result
}

} // verus!

verus! {

/// A table's rows of cells.
pub type Rows = Seq<Seq<Seq<char>>>;

/// The number of columns: the length of the longest row.
pub open spec fn col_count(rows: Rows) -> nat
    decreases rows.len(),
{
    if rows.len() == 0 {
        0
    } else {
        let m = col_count(rows.drop_last());
        if rows.last().len() > m { rows.last().len() } else { m }
    }
}

/// The width of column `i` before fitting: its widest cell, and at least 1.
pub open spec fn col_width(rows: Rows, i: int) -> nat
    decreases rows.len(),
{
    if rows.len() == 0 {
        1
    } else {
        let m = col_width(rows.drop_last(), i);
        let c = if 0 <= i < rows.last().len() { rows.last()[i].len() } else { 0 };
        if c > m { c } else { m }
    }
}

pub open spec fn sum(ws: Seq<int>) -> int
    decreases ws.len(),
{
    if ws.len() == 0 { 0 } else { sum(ws.drop_last()) + ws.last() }
}

/// The column widths: each column's widest cell; when the table would be
/// wider than `width`, each is scaled down to its share of the room left
/// after the borders, and kept at least 3.
pub open spec fn table_widths(rows: Rows, width: int) -> Seq<int> {
    let cc = col_count(rows);
    let ws = Seq::new(cc, |i: int| col_width(rows, i) as int);
    let total = sum(ws);
    let overhead = 4 * cc + 1;
    if total + overhead > width {
        let budget = if width >= overhead { width - overhead } else { 0 };
        ws.map_values(|x: int| if x * budget / total >= 3 { x * budget / total } else { 3 })
    } else {
        ws
    }
}

/// `s` followed by spaces up to `w` characters.
pub open spec fn pad(s: Seq<char>, w: int) -> Seq<char> {
    if s.len() < w { s + Seq::new((w - s.len()) as nat, |_i: int| ' ') } else { s }
}

/// `n` copies of `'─'`.
pub open spec fn dashes(n: int) -> Seq<char> {
    Seq::new(n as nat, |_i: int| '\u{2500}')
}

/// The inside of a border line: for each column a run of dashes two wider
/// than the column, with `m` between columns.
pub open spec fn border_body(ws: Seq<int>, m: char) -> Seq<char>
    decreases ws.len(),
{
    if ws.len() == 0 {
        Seq::empty()
    } else if ws.len() == 1 {
        dashes(ws[0] + 2)
    } else {
        border_body(ws.drop_last(), m).push(m) + dashes(ws.last() + 2)
    }
}

pub open spec fn border(ws: Seq<int>, l: char, m: char, r: char) -> LineV {
    one_span(seq![l] + border_body(ws, m) + seq![r], fg_style(TABLE_BORDER))
}

/// The text of a cell, cut to its column and padded to it, a space each side.
pub open spec fn cell_text(row: Seq<Seq<char>>, ws: Seq<int>, c: int) -> Seq<char> {
    let cell = if c < row.len() { truncate(row[c], ws[c]) } else { Seq::empty() };
    seq![' '] + pad(cell, ws[c]) + seq![' ']
}

/// The spans of a row's first `n` columns, each followed by a `'│'`.
pub open spec fn row_cells(row: Seq<Seq<char>>, ws: Seq<int>, style: TextStyle, n: int) -> LineV
    decreases n,
{
    if n <= 0 {
        Seq::empty()
    } else {
        row_cells(row, ws, style, n - 1) + seq![(cell_text(row, ws, n - 1), style), (seq!['\u{2502}'], fg_style(TABLE_BORDER))]
    }
}

pub open spec fn header_style() -> TextStyle {
    TextStyle { bold: true, ..fg_style(TABLE_HEADER) }
}

/// The line of row `j`.
pub open spec fn row_line(rows: Rows, ws: Seq<int>, head: int, j: int) -> LineV {
    let style = if j < head { header_style() } else { fg_style(TABLE_FG) };
    seq![(seq!['\u{2502}'], fg_style(TABLE_BORDER))] + row_cells(rows[j], ws, style, ws.len() as int)
}

/// The lines of the first `n` rows, with a rule under the last header row.
pub open spec fn table_rows(rows: Rows, ws: Seq<int>, head: int, n: int) -> Seq<LineV>
    decreases n,
{
    if n <= 0 {
        Seq::empty()
    } else {
        let j = n - 1;
        let prev = table_rows(rows, ws, head, j).push(row_line(rows, ws, head, j));
        if j + 1 == head && j + 1 < rows.len() { prev.push(border(ws, '\u{251c}', '\u{253c}', '\u{2524}')) } else { prev }
    }
}

/// Whether a rule separates the header rows from the body.
pub open spec fn has_rule(rows: Rows, head: int) -> bool {
    1 <= head < rows.len()
}

proof fn lemma_table_rows(rows: Rows, ws: Seq<int>, head: int, n: int)
    requires
        0 <= n <= rows.len(),
    ensures
        table_rows(rows, ws, head, n).len() == n + if has_rule(rows, head) && head <= n { 1int } else { 0int },
        forall|j: int| 0 <= j < n ==> table_rows(rows, ws, head, n)[j + if has_rule(rows, head) && head <= j { 1int } else { 0int }]
            == #[trigger] row_line(rows, ws, head, j),
        has_rule(rows, head) && head <= n ==> table_rows(rows, ws, head, n)[head] == border(ws, '\u{251c}', '\u{253c}', '\u{2524}'),
    decreases n,
{
    if n > 0 {
        lemma_table_rows(rows, ws, head, n - 1);
        let prev = table_rows(rows, ws, head, n - 1);
        let p2 = prev.push(row_line(rows, ws, head, n - 1));
        assert forall|j: int| 0 <= j < n implies table_rows(rows, ws, head, n)[j + if has_rule(rows, head) && head <= j { 1int } else { 0int }]
            == #[trigger] row_line(rows, ws, head, j) by {
            if j < n - 1 {
                assert(p2[j + if has_rule(rows, head) && head <= j { 1int } else { 0int }] == prev[j + if has_rule(rows, head) && head <= j { 1int } else { 0int }]);
            }
        }
    }
}

/// A table is drawn as its top border, one line per row in order, a rule
/// right after the last header row when body rows follow, and its bottom
/// border; every line of the table's middle is a row or that rule.
pub proof fn law_table_layout(rows: Rows, head: int, width: int)
    requires
        rows.len() > 0,
        col_count(rows) > 0,
    ensures
        ({
            let ws = table_widths(rows, width);
            let t = table_lines(rows, head, width);
            &&& t.len() == rows.len() + 2 + if has_rule(rows, head) { 1int } else { 0int }
            &&& t[0] == border(ws, '\u{250c}', '\u{252c}', '\u{2510}')
            &&& t[t.len() - 1] == border(ws, '\u{2514}', '\u{2534}', '\u{2518}')
            &&& forall|j: int| 0 <= j < rows.len() ==> t[1 + j + if has_rule(rows, head) && head <= j { 1int } else { 0int }]
                == #[trigger] row_line(rows, ws, head, j)
            &&& has_rule(rows, head) ==> t[head + 1] == border(ws, '\u{251c}', '\u{253c}', '\u{2524}')
        }),
{
    let ws = table_widths(rows, width);
    lemma_table_rows(rows, ws, head, rows.len() as int);
    let mid = table_rows(rows, ws, head, rows.len() as int);
    let t = table_lines(rows, head, width);
    let top = seq![border(ws, '\u{250c}', '\u{252c}', '\u{2510}')];
    let bot = seq![border(ws, '\u{2514}', '\u{2534}', '\u{2518}')];
    assert(t == top + mid + bot);
    assert forall|j: int| 0 <= j < rows.len() implies t[1 + j + if has_rule(rows, head) && head <= j { 1int } else { 0int }]
        == #[trigger] row_line(rows, ws, head, j) by {
        assert(mid[j + if has_rule(rows, head) && head <= j { 1int } else { 0int }] == row_line(rows, ws, head, j));
    }
    if has_rule(rows, head) {
        assert(t[head + 1] == mid[head]);
    }
}

/// A table drawn in boxes: nothing for a table without cells.
pub open spec fn table_lines(rows: Rows, head: int, width: int) -> Seq<LineV> {
    if rows.len() == 0 || col_count(rows) == 0 {
        Seq::empty()
    } else {
        let ws = table_widths(rows, width);
        seq![border(ws, '\u{250c}', '\u{252c}', '\u{2510}')] + table_rows(rows, ws, head, rows.len() as int)
            + seq![border(ws, '\u{2514}', '\u{2534}', '\u{2518}')]
    }
}

} // verus!

verus! {

pub open spec fn rows_view(v: Seq<Vec<Vec<char>>>) -> Rows {
    v.map_values(|r: Vec<Vec<char>>| r@.map_values(|c: Vec<char>| c@))
}

spec fn widths_view(v: Seq<usize>) -> Seq<int> {
    v.map_values(|x: usize| x as int)
}

proof fn lemma_col_width_pos(rows: Rows, i: int)
    ensures
        col_width(rows, i) >= 1,
    decreases rows.len(),
{
    if rows.len() > 0 {
        lemma_col_width_pos(rows.drop_last(), i);
    }
}

proof fn lemma_row_len_le_col_count(rows: Rows, j: int)
    requires
        0 <= j < rows.len(),
    ensures
        rows[j].len() <= col_count(rows),
    decreases rows.len(),
{
    if j < rows.len() - 1 {
        lemma_row_len_le_col_count(rows.drop_last(), j);
    }
}

proof fn lemma_elem_le_sum(ws: Seq<int>, i: int)
    requires
        0 <= i < ws.len(),
        forall|k: int| 0 <= k < ws.len() ==> ws[k] >= 0,
    ensures
        ws[i] <= sum(ws),
        sum(ws) >= 0,
    decreases ws.len(),
{
    lemma_sum_nonneg(ws.drop_last());
    if i < ws.len() - 1 {
        lemma_elem_le_sum(ws.drop_last(), i);
    }
}

proof fn lemma_sum_nonneg(ws: Seq<int>)
    requires
        forall|k: int| 0 <= k < ws.len() ==> ws[k] >= 0,
    ensures
        sum(ws) >= 0,
    decreases ws.len(),
{
    if ws.len() > 0 {
        lemma_sum_nonneg(ws.drop_last());
    }
}

fn count_cols(rows: &Vec<Vec<Vec<char>>>) -> (r: usize)
    ensures
        r == col_count(rows_view(rows@)),
{
    let ghost rv = rows_view(rows@);
    let mut m: usize = 0;
    let mut j: usize = 0;
    while j < rows.len()
        invariant
            j <= rows.len(),
            rv == rows_view(rows@),
            m == col_count(rv.take(j as int)),
        decreases rows.len() - j,
    {
        assert(rv.take(j + 1).drop_last() =~= rv.take(j as int));
        if rows[j].len() > m {
            m = rows[j].len();
        }
        j = j + 1;
    }
    assert(rv.take(rows.len() as int) =~= rv);
    m
}

/// The natural widths of the first `cc` columns.
fn natural_widths(rows: &Vec<Vec<Vec<char>>>, cc: usize) -> (r: Vec<usize>)
    requires
        cc == col_count(rows_view(rows@)),
    ensures
        r.len() == cc,
        forall|i: int| 0 <= i < cc ==> r@[i] as int == col_width(rows_view(rows@), i),
{
    let ghost rv = rows_view(rows@);
    let mut ws: Vec<usize> = Vec::new();
    let mut i: usize = 0;
    while i < cc
        invariant
            i <= cc,
            ws.len() == i,
            forall|k: int| 0 <= k < i ==> ws@[k] == 1,
        decreases cc - i,
    {
        ws.push(1);
        i = i + 1;
    }
    let mut j: usize = 0;
    while j < rows.len()
        invariant
            j <= rows.len(),
            rv == rows_view(rows@),
            cc == col_count(rv),
            ws.len() == cc,
            forall|k: int| 0 <= k < cc ==> ws@[k] as int == col_width(rv.take(j as int), k),
        decreases rows.len() - j,
    {
        assert(rv.take(j + 1).drop_last() =~= rv.take(j as int));
        assert(rv.take(j + 1).last() == rv[j as int]);
        proof {
            lemma_row_len_le_col_count(rv, j as int);
        }
        let row = &rows[j];
        let mut c: usize = 0;
        while c < row.len()
            invariant
                c <= row.len() <= cc,
                ws.len() == cc,
                rv == rows_view(rows@),
                row@ == rows@[j as int]@,
                j < rows.len(),
                forall|k: int| 0 <= k < c ==> ws@[k] as int == col_width(rv.take(j + 1), k),
                forall|k: int| c <= k < cc ==> ws@[k] as int == col_width(rv.take(j as int), k),
            decreases row.len() - c,
        {
            assert(rv[j as int][c as int] == row@[c as int]@);
            assert(rv.take(j + 1).drop_last() =~= rv.take(j as int));
            assert(rv.take(j + 1).last() == rv[j as int]);
            assert(rv[j as int].len() == row.len());
            assert(rv.take(j + 1).last()[c as int].len() == row@[c as int].len());
            if row[c].len() > ws[c] {
                ws.set(c, row[c].len());
            }
            c = c + 1;
        }
        assert forall|k: int| 0 <= k < cc implies ws@[k] as int == col_width(rv.take(j + 1), k) by {
            if k >= row.len() {
                lemma_col_width_pos(rv.take(j as int), k);
            }
        }
        j = j + 1;
    }
    assert(rv.take(rows.len() as int) =~= rv);
    ws
}

/// The column widths of a table (see `table_widths`), each with room for the
/// borders around it.
fn fit_widths(rows: &Vec<Vec<Vec<char>>>, cc: usize, width: usize) -> (r: Vec<usize>)
    requires
        cc == col_count(rows_view(rows@)),
        cc > 0,
    ensures
        widths_view(r@) == table_widths(rows_view(rows@), width as int),
        r.len() == cc,
        forall|i: int| 0 <= i < cc ==> r@[i] + 2 <= usize::MAX,
{
    let ghost rv = rows_view(rows@);
    let ws = natural_widths(rows, cc);
    let ghost nat_ws = Seq::new(cc as nat, |i: int| col_width(rv, i) as int);
    assert(widths_view(ws@) =~= nat_ws);
    let mut total: u128 = 0;
    let mut i: usize = 0;
    while i < cc
        invariant
            i <= cc,
            ws.len() == cc,
            widths_view(ws@) == nat_ws,
            total as int == sum(nat_ws.take(i as int)),
            total <= i * 0xffff_ffff_ffff_ffff,
        decreases cc - i,
    {
        assert(nat_ws.take(i + 1).drop_last() =~= nat_ws.take(i as int));
        assert(ws@[i as int] <= usize::MAX);
        total = total + ws[i] as u128;
        i = i + 1;
    }
    assert(nat_ws.take(cc as int) =~= nat_ws);
    proof {
        assert forall|k: int| 0 <= k < nat_ws.len() implies nat_ws[k] >= 0 by {
            lemma_col_width_pos(rv, k);
        }
        lemma_col_width_pos(rv, 0);
        lemma_elem_le_sum(nat_ws, 0);
    }
    let overhead: u128 = 4 * (cc as u128) + 1;
    let too_wide = overhead > width as u128 || total > width as u128 - overhead;
    if too_wide {
        let budget: u128 = if width as u128 >= overhead { width as u128 - overhead } else { 0 };
        let mut out: Vec<usize> = Vec::new();
        let mut k: usize = 0;
        while k < cc
            invariant
                k <= cc,
                ws.len() == cc,
                widths_view(ws@) == nat_ws,
                total as int == sum(nat_ws),
                total > 0,
                budget <= width,
                overhead >= 5,
                budget == 0 || budget + overhead == width,
                budget as int == (if width >= overhead { width - overhead } else { 0 }),
                forall|j: int| 0 <= j < nat_ws.len() ==> nat_ws[j] >= 0,
                widths_view(out@) =~= nat_ws.take(k as int).map_values(
                    |x: int| if x * (budget as int) / (total as int) >= 3 { x * (budget as int) / (total as int) } else { 3 },
                ),
                forall|j: int| 0 <= j < k ==> out@[j] + 2 <= usize::MAX,
            decreases cc - k,
        {
            let x = ws[k] as u128;
            proof {
                lemma_elem_le_sum(nat_ws, k as int);
                let xi = x as int;
                let bi = budget as int;
                let ti = total as int;
                assert(xi * bi / ti <= bi) by (nonlinear_arith)
                    requires
                        xi <= ti,
                        ti > 0,
                        bi >= 0,
                ;
                assert(xi * bi <= ti * bi) by (nonlinear_arith)
                    requires
                        xi <= ti,
                        bi >= 0,
                ;
                assert(xi * bi <= 0xffff_ffff_ffff_ffff * 0xffff_ffff_ffff_ffff) by (nonlinear_arith)
                    requires
                        0 <= xi <= 0xffff_ffff_ffff_ffff,
                        0 <= bi <= 0xffff_ffff_ffff_ffff,
                ;
            }
            let q = x * budget / total;
            let v: usize = if q >= 3 { q as usize } else { 3 };
            assert(v + 2 <= usize::MAX);
            let ghost before = widths_view(out@);
            out.push(v);
            assert(widths_view(out@) =~= before.push(v as int));
            assert(nat_ws.take(k + 1) =~= nat_ws.take(k as int).push(nat_ws[k as int]));
            k = k + 1;
        }
        assert(nat_ws.take(cc as int) =~= nat_ws);
        out
    } else {
        assert forall|j: int| 0 <= j < cc implies ws@[j] + 2 <= usize::MAX by {
            lemma_elem_le_sum(nat_ws, j);
        }
        ws
    }
}

} // verus!

verus! {

fn push_repeat(out: &mut Vec<char>, c: char, n: usize)
    ensures
        final(out)@ == old(out)@ + Seq::new(n as nat, |_i: int| c),
{
    let r = repeat_char(c, n);
    push_all(out, &r);
}

fn border_line(ws: &Vec<usize>, l: char, m: char, r: char) -> (line: StyledLine)
    requires
        ws.len() >= 1,
        forall|i: int| 0 <= i < ws.len() ==> ws@[i] + 2 <= usize::MAX,
    ensures
        line@ == border(widths_view(ws@), l, m, r),
{
    let ghost wv = widths_view(ws@);
    let mut out: Vec<char> = Vec::new();
    out.push(l);
    let mut i: usize = 0;
    while i < ws.len()
        invariant
            i <= ws.len(),
            wv == widths_view(ws@),
            forall|k: int| 0 <= k < ws.len() ==> ws@[k] + 2 <= usize::MAX,
            out@ == seq![l] + border_body(wv.take(i as int), m),
        decreases ws.len() - i,
    {
        assert(wv.take(i + 1).drop_last() =~= wv.take(i as int));
        assert(wv.take(i + 1).last() == ws@[i as int] as int);
        let ghost before = out@;
        if i > 0 {
            out.push(m);
        }
        push_repeat(&mut out, '\u{2500}', ws[i] + 2);
        if i == 0 {
            assert(out@ =~= seq![l] + border_body(wv.take(1), m));
        } else {
            assert(out@ =~= seq![l] + border_body(wv.take(i + 1), m));
        }
        i = i + 1;
    }
    assert(wv.take(ws.len() as int) =~= wv);
    out.push(r);
    assert(out@ =~= seq![l] + border_body(wv, m) + seq![r]);
    span_line(out, fg_only(TABLE_BORDER))
}

fn cell_chars(row: &Vec<Vec<char>>, ws: &Vec<usize>, c: usize) -> (r: Vec<char>)
    requires
        c < ws.len(),
        ws@[c as int] + 2 <= usize::MAX,
    ensures
        r@ == cell_text(row@.map_values(|x: Vec<char>| x@), widths_view(ws@), c as int),
{
    let w = ws[c];
    let cell: Vec<char> = if c < row.len() { truncate_chars(&row[c], w) } else { Vec::new() };
    let mut out: Vec<char> = Vec::new();
    out.push(' ');
    push_all(&mut out, &cell);
    if cell.len() < w {
        push_repeat(&mut out, ' ', w - cell.len());
    }
    out.push(' ');
    out
}

fn row_line_exec(row: &Vec<Vec<char>>, ws: &Vec<usize>, style: TextStyle) -> (line: StyledLine)
    requires
        forall|i: int| 0 <= i < ws.len() ==> ws@[i] + 2 <= usize::MAX,
    ensures
        line@ == seq![(seq!['\u{2502}'], fg_style(TABLE_BORDER))] + row_cells(
            row@.map_values(|x: Vec<char>| x@),
            widths_view(ws@),
            style,
            ws.len() as int,
        ),
{
    let ghost rv = row@.map_values(|x: Vec<char>| x@);
    let ghost wv = widths_view(ws@);
    let mut spans: Vec<StyledSpan> = Vec::new();
    let mut bar: Vec<char> = Vec::new();
    bar.push('\u{2502}');
    spans.push(StyledSpan { content: string_of(&bar), style: fg_only(TABLE_BORDER) });
    assert(spans_view(spans@) =~= seq![(seq!['\u{2502}'], fg_style(TABLE_BORDER))] + row_cells(rv, wv, style, 0));
    let mut c: usize = 0;
    while c < ws.len()
        invariant
            c <= ws.len(),
            rv == row@.map_values(|x: Vec<char>| x@),
            wv == widths_view(ws@),
            forall|i: int| 0 <= i < ws.len() ==> ws@[i] + 2 <= usize::MAX,
            spans_view(spans@) =~= seq![(seq!['\u{2502}'], fg_style(TABLE_BORDER))] + row_cells(rv, wv, style, c as int),
        decreases ws.len() - c,
    {
        let t = cell_chars(row, ws, c);
        let ghost before = spans_view(spans@);
        spans.push(StyledSpan { content: string_of(&t), style });
        let mut b: Vec<char> = Vec::new();
        b.push('\u{2502}');
        spans.push(StyledSpan { content: string_of(&b), style: fg_only(TABLE_BORDER) });
        assert(b@ =~= seq!['\u{2502}']);
        assert(spans_view(spans@) =~= before + seq![(cell_text(rv, wv, c as int), style), (seq!['\u{2502}'], fg_style(TABLE_BORDER))]);
        c = c + 1;
    }
    StyledLine { spans }
}

/// Draws a table in boxes (see `table_lines`).
fn render_table(rows: &Vec<Vec<Vec<char>>>, head_rows: usize, wrap_width: usize) -> (r: Vec<StyledLine>)
    ensures
        styled_lines_view(r@) == table_lines(rows_view(rows@), head_rows as int, wrap_width as int),
{
    let ghost rv = rows_view(rows@);
    let mut out: Vec<StyledLine> = Vec::new();
    if rows.len() == 0 {
        assert(styled_lines_view(out@) =~= Seq::<LineV>::empty());
        return out;
    }
    let cc = count_cols(rows);
    if cc == 0 {
        assert(styled_lines_view(out@) =~= Seq::<LineV>::empty());
        return out;
    }
    let ws = fit_widths(rows, cc, wrap_width);
    let ghost wv = widths_view(ws@);
    out.push(border_line(&ws, '\u{250c}', '\u{252c}', '\u{2510}'));
    assert(styled_lines_view(out@) =~= seq![border(wv, '\u{250c}', '\u{252c}', '\u{2510}')] + table_rows(rv, wv, head_rows as int, 0));
    let mut j: usize = 0;
    while j < rows.len()
        invariant
            j <= rows.len(),
            rv == rows_view(rows@),
            wv == widths_view(ws@),
            ws.len() == cc,
            cc > 0,
            forall|i: int| 0 <= i < ws.len() ==> ws@[i] + 2 <= usize::MAX,
            styled_lines_view(out@) =~= seq![border(wv, '\u{250c}', '\u{252c}', '\u{2510}')] + table_rows(rv, wv, head_rows as int, j as int),
        decreases rows.len() - j,
    {
        let style = if j < head_rows { TextStyle { bold: true, ..fg_only(TABLE_HEADER) } } else { fg_only(TABLE_FG) };
        let line = row_line_exec(&rows[j], &ws, style);
        assert(rv[j as int] == rows@[j as int]@.map_values(|x: Vec<char>| x@));
        let ghost before = styled_lines_view(out@);
        let ghost lw = line@;
        out.push(line);
        assert(styled_lines_view(out@) =~= before.push(lw));
        if j + 1 == head_rows && j + 1 < rows.len() {
            let sep = border_line(&ws, '\u{251c}', '\u{253c}', '\u{2524}');
            let ghost b2 = styled_lines_view(out@);
            let ghost sw = sep@;
            out.push(sep);
            assert(styled_lines_view(out@) =~= b2.push(sw));
        }
        j = j + 1;
    }
    let bottom = border_line(&ws, '\u{2514}', '\u{2534}', '\u{2518}');
    let ghost b3 = styled_lines_view(out@);
    let ghost bw = bottom@;
    out.push(bottom);
    assert(styled_lines_view(out@) =~= b3.push(bw));
    out
}

} // verus!

verus! {

/// A markdown parse event, as far as the renderer tells them apart.
pub enum MdEvent {
    Text(String),
    Code(String),
    StartTable,
    EndTable,
    StartTableHead,
    EndTableHead,
    StartTableRow,
    EndTableRow,
    StartTableCell,
    EndTableCell,
    /// A heading of level 1 to 6.
    StartHeading(u8),
    EndHeading,
    StartStrong,
    EndStrong,
    StartEmphasis,
    EndEmphasis,
    StartStrikethrough,
    EndStrikethrough,
    StartCodeBlock,
    EndCodeBlock,
    /// A list, with the number of its first item when it is ordered.
    StartList(Option<u64>),
    EndList,
    StartItem,
    EndItem,
    StartBlockQuote,
    EndBlockQuote,
    StartLink { dest_url: String, title: String },
    EndLink,
    EndParagraph,
    SoftBreak,
    HardBreak,
    Rule,
    /// Any other event, which the renderer passes over.
    Other,
}

/// The renderer's state between events.
pub struct RenderState {
    pub lines: Seq<LineV>,
    pub current: Seq<SpanV>,
    pub style: TextStyle,
    pub list_depth: int,
    pub counters: Seq<u64>,
    pub in_code_block: bool,
    pub indent: Seq<char>,
    pub in_table: bool,
    pub in_table_cell: bool,
    pub table_rows: Rows,
    pub current_row: Seq<Seq<char>>,
    pub current_cell: Seq<char>,
    pub head_rows: int,
}

/// The state before the first event.
pub open spec fn initial_state() -> RenderState {
    RenderState {
        lines: Seq::empty(),
        current: Seq::empty(),
        style: fg_style(FG),
        list_depth: 0,
        counters: Seq::empty(),
        in_code_block: false,
        indent: Seq::empty(),
        in_table: false,
        in_table_cell: false,
        table_rows: Seq::empty(),
        current_row: Seq::empty(),
        current_cell: Seq::empty(),
        head_rows: 0,
    }
}

/// The text of a line's spans, joined.
pub open spec fn raw_text(spans: Seq<SpanV>) -> Seq<char>
    decreases spans.len(),
{
    if spans.len() == 0 { Seq::empty() } else { raw_text(spans.drop_last()) + spans.last().0 }
}

/// `count` times two spaces.
pub open spec fn indent_of(count: int) -> Seq<char> {
    Seq::new(if count > 0 { (2 * count) as nat } else { 0 }, |_i: int| ' ')
}

/// The pending spans, word-wrapped into lines in the current style.
pub open spec fn flushed(s: RenderState, width: int) -> RenderState {
    if s.current.len() > 0 {
        RenderState { lines: s.lines + wrap(raw_text(s.current), s.style, width), current: Seq::empty(), ..s }
    } else {
        s
    }
}

/// The lines of a piece of a code block: each line cut to fit and indented
/// by two spaces.
pub open spec fn code_lines(t: Seq<char>, width: int) -> Seq<LineV> {
    text::split_lines(t).map_values(
        |l: Seq<char>| one_span(seq![' ', ' '] + truncate(l, if width >= 2 { width - 2 } else { 0 }), code_style()),
    )
}

pub open spec fn heading_style(level: u8) -> TextStyle {
    if level == 1 {
        TextStyle { bold: true, underlined: true, ..fg_style(HEADING1) }
    } else if level == 2 {
        TextStyle { bold: true, ..fg_style(HEADING2) }
    } else {
        TextStyle { bold: true, ..fg_style(HEADING3) }
    }
}

pub open spec fn link_style() -> TextStyle {
    TextStyle { underlined: true, ..fg_style(LINK_COLOR) }
}

pub open spec fn quote_style() -> TextStyle {
    TextStyle { italic: true, ..fg_style(BLOCK_QUOTE) }
}

/// The bullet of a list item, and the list counters after it: `•` in an
/// unordered list, or the item's number in an ordered one.
pub open spec fn bullet(indent: Seq<char>, counters: Seq<u64>) -> (Seq<char>, Seq<u64>) {
    if counters.len() > 0 && counters.last() != 0 {
        let n = counters.last();
        let next: u64 = if n == u64::MAX { 0 } else { (n + 1) as u64 };
        (indent + text::decimal(n as nat) + seq!['.', ' '], counters.update(counters.len() - 1, next))
    } else {
        (indent + seq!['\u{2022}', ' '], counters)
    }
}

/// The renderer's state after one event.
pub open spec fn step(s: RenderState, e: MdEvent, width: int) -> RenderState {
    match e {
        MdEvent::Text(t) => if s.in_table_cell {
            RenderState { current_cell: s.current_cell + t@, ..s }
        } else if s.in_code_block {
            RenderState { lines: s.lines + code_lines(t@, width), ..s }
        } else {
            RenderState { current: s.current.push((t@, s.style)), ..s }
        },
        MdEvent::Code(t) => if s.in_table_cell {
            RenderState { current_cell: s.current_cell + t@, ..s }
        } else {
            RenderState { current: s.current.push((seq!['`'] + t@ + seq!['`'], code_style())), ..s }
        },
        MdEvent::StartTable => {
            let s1 = RenderState { in_table: true, table_rows: Seq::empty(), head_rows: 0, ..s };
            if s.current.len() > 0 { RenderState { lines: s1.lines.push(s1.current), current: Seq::empty(), ..s1 } } else { s1 }
        },
        MdEvent::EndTable => RenderState {
            in_table: false,
            in_table_cell: false,
            lines: s.lines + table_lines(s.table_rows, s.head_rows, width) + seq![Seq::empty()],
            ..s
        },
        MdEvent::StartTableHead => RenderState { current_row: Seq::empty(), ..s },
        MdEvent::EndTableHead => if s.current_row.len() > 0 {
            RenderState {
                head_rows: s.table_rows.len() as int + 1,
                table_rows: s.table_rows.push(s.current_row),
                current_row: Seq::empty(),
                ..s
            }
        } else {
            s
        },
        MdEvent::StartTableRow => RenderState { current_row: Seq::empty(), ..s },
        MdEvent::EndTableRow => if s.current_row.len() > 0 || s.in_table {
            RenderState { table_rows: s.table_rows.push(s.current_row), current_row: Seq::empty(), ..s }
        } else {
            s
        },
        MdEvent::StartTableCell => RenderState { in_table_cell: true, current_cell: Seq::empty(), ..s },
        MdEvent::EndTableCell => RenderState {
            in_table_cell: false,
            current_row: s.current_row.push(text::trim(s.current_cell)),
            current_cell: Seq::empty(),
            ..s
        },
        MdEvent::StartHeading(level) => RenderState { style: heading_style(level), ..s },
        MdEvent::EndHeading => {
            let s1 = flushed(s, width);
            RenderState { lines: s1.lines.push(Seq::empty()), style: fg_style(FG), ..s1 }
        },
        MdEvent::StartStrong => RenderState { style: TextStyle { bold: true, ..s.style }, ..s },
        MdEvent::EndStrong => RenderState { style: TextStyle { bold: false, ..s.style }, ..s },
        MdEvent::StartEmphasis => RenderState { style: TextStyle { italic: true, ..s.style }, ..s },
        MdEvent::EndEmphasis => RenderState { style: TextStyle { italic: false, ..s.style }, ..s },
        MdEvent::StartStrikethrough => RenderState { style: TextStyle { crossed_out: true, ..s.style }, ..s },
        MdEvent::EndStrikethrough => RenderState { style: TextStyle { crossed_out: false, ..s.style }, ..s },
        MdEvent::StartCodeBlock => RenderState {
            in_code_block: true,
            lines: s.lines.push(one_span(" \u{250c}\u{2500} code "@, fg_style(RULE_COLOR))),
            ..s
        },
        MdEvent::EndCodeBlock => RenderState {
            in_code_block: false,
            lines: s.lines.push(one_span(" \u{2514}\u{2500}\u{2500}\u{2500}\u{2500}\u{2500}\u{2500}\u{2500}\u{2500}"@, fg_style(RULE_COLOR))).push(Seq::empty()),
            ..s
        },
        MdEvent::StartList(start) => RenderState {
            list_depth: s.list_depth + 1,
            counters: s.counters.push(match start { Some(n) => n, None => 0 }),
            indent: indent_of(s.list_depth),
            ..s
        },
        MdEvent::EndList => {
            let d = if s.list_depth > 0 { s.list_depth - 1 } else { 0 };
            RenderState {
                list_depth: d,
                counters: if s.counters.len() > 0 { s.counters.drop_last() } else { s.counters },
                lines: if d == 0 { s.lines.push(Seq::empty()) } else { s.lines },
                indent: indent_of(d - 1),
                ..s
            }
        },
        MdEvent::StartItem => {
            let b = bullet(s.indent, s.counters);
            RenderState { current: s.current.push((b.0, fg_style(LIST_BULLET))), counters: b.1, ..s }
        },
        MdEvent::EndItem => flushed(s, width),
        MdEvent::StartBlockQuote => RenderState {
            style: quote_style(),
            current: s.current.push((seq!['\u{258c}', ' '], fg_style(LIST_BULLET))),
            ..s
        },
        MdEvent::EndBlockQuote => {
            let s1 = flushed(s, width);
            RenderState { lines: s1.lines.push(Seq::empty()), style: fg_style(FG), ..s1 }
        },
        MdEvent::StartLink { dest_url, title } => {
            let label = if title@.len() > 0 { title@ } else { dest_url@ };
            RenderState { current: s.current.push((seq!['['] + label + seq![']'], link_style())), ..s }
        },
        MdEvent::EndLink => s,
        MdEvent::EndParagraph => {
            let s1 = flushed(s, width);
            RenderState { lines: s1.lines.push(Seq::empty()), ..s1 }
        },
        MdEvent::SoftBreak => flushed(s, width),
        MdEvent::HardBreak => flushed(s, width),
        MdEvent::Rule => RenderState {
            lines: s.lines.push(one_span(dashes(if width <= 60 { width } else { 60 }), fg_style(RULE_COLOR))).push(Seq::empty()),
            ..s
        },
        MdEvent::Other => s,
    }
}

/// The state after the events `es`.
pub open spec fn rendered_state(es: Seq<MdEvent>, width: int) -> RenderState
    decreases es.len(),
{
    if es.len() == 0 { initial_state() } else { step(rendered_state(es.drop_last(), width), es.last(), width) }
}

/// The lines that rendering the events `es` at `width` gives: the lines
/// made, then the pending spans word-wrapped.
pub open spec fn render(es: Seq<MdEvent>, width: int) -> Seq<LineV> {
    flushed(rendered_state(es, width), width).lines
}

} // verus!

verus! {

struct Renderer {
    lines: Vec<StyledLine>,
    current: Vec<StyledSpan>,
    style: TextStyle,
    list_depth: usize,
    counters: Vec<u64>,
    in_code_block: bool,
    indent: Vec<char>,
    in_table: bool,
    in_table_cell: bool,
    table_rows: Vec<Vec<Vec<char>>>,
    current_row: Vec<Vec<char>>,
    current_cell: Vec<char>,
    head_rows: usize,
}

impl View for Renderer {
    type V = RenderState;

    closed spec fn view(&self) -> RenderState {
        RenderState {
            lines: styled_lines_view(self.lines@),
            current: spans_view(self.current@),
            style: self.style,
            list_depth: self.list_depth as int,
            counters: self.counters@,
            in_code_block: self.in_code_block,
            indent: self.indent@,
            in_table: self.in_table,
            in_table_cell: self.in_table_cell,
            table_rows: rows_view(self.table_rows@),
            current_row: self.current_row@.map_values(|c: Vec<char>| c@),
            current_cell: self.current_cell@,
            head_rows: self.head_rows as int,
        }
    }
}

fn indent_chars(count: usize) -> (r: Vec<char>)
    ensures
        r@ == indent_of(count as int),
{
    let mut r: Vec<char> = Vec::new();
    let mut k: usize = 0;
    while k < count
        invariant
            k <= count,
            r@ =~= Seq::new((2 * k) as nat, |_i: int| ' '),
        decreases count - k,
    {
        r.push(' ');
        r.push(' ');
        k = k + 1;
    }
    r
}

fn raw_text_of(spans: &Vec<StyledSpan>) -> (r: Vec<char>)
    ensures
        r@ == raw_text(spans_view(spans@)),
{
    let ghost sv = spans_view(spans@);
    let mut out: Vec<char> = Vec::new();
    let mut i: usize = 0;
    while i < spans.len()
        invariant
            i <= spans.len(),
            sv == spans_view(spans@),
            out@ == raw_text(sv.take(i as int)),
        decreases spans.len() - i,
    {
        assert(sv.take(i + 1).drop_last() =~= sv.take(i as int));
        let c = chars_of(spans[i].content.as_str());
        push_all(&mut out, &c);
        i = i + 1;
    }
    assert(sv.take(spans.len() as int) =~= sv);
    out
}

fn trim_cell(c: &Vec<char>) -> (r: Vec<char>)
    ensures
        r@ == text::trim(c@),
{
    crate::text::trim_chars(c)
}

fn text_span(content: Vec<char>, style: TextStyle) -> (r: StyledSpan)
    ensures
        r@ == (content@, style),
{
    StyledSpan { content: string_of(&content), style }
}

impl Renderer {
    fn new() -> (r: Self)
        ensures
            r@ == initial_state(),
    {
        let r = Renderer {
            lines: Vec::new(),
            current: Vec::new(),
            style: fg_only(FG),
            list_depth: 0,
            counters: Vec::new(),
            in_code_block: false,
            indent: Vec::new(),
            in_table: false,
            in_table_cell: false,
            table_rows: Vec::new(),
            current_row: Vec::new(),
            current_cell: Vec::new(),
            head_rows: 0,
        };
        assert(r@.lines =~= initial_state().lines);
        assert(r@.current =~= initial_state().current);
        assert(r@.table_rows =~= initial_state().table_rows);
        assert(r@.current_row =~= initial_state().current_row);
        r
    }

    fn into_lines(self) -> (r: Vec<StyledLine>)
        ensures
            styled_lines_view(r@) == self@.lines,
    {
        self.lines
    }

    fn push_line(&mut self, l: StyledLine)
        ensures
            final(self)@ == (RenderState { lines: old(self)@.lines.push(l@), ..old(self)@ }),
    {
        let ghost before = self@.lines;
        let ghost lw = l@;
        self.lines.push(l);
        assert(self@.lines =~= before.push(lw));
    }

    fn extend_lines(&mut self, v: Vec<StyledLine>)
        ensures
            final(self)@ == (RenderState { lines: old(self)@.lines + styled_lines_view(v@), ..old(self)@ }),
    {
        let ghost before = self@.lines;
        let ghost vv = styled_lines_view(v@);
        let mut v = v;
        self.lines.append(&mut v);
        assert(self@.lines =~= before + vv);
    }

    fn push_span(&mut self, sp: StyledSpan)
        ensures
            final(self)@ == (RenderState { current: old(self)@.current.push(sp@), ..old(self)@ }),
    {
        let ghost before = self@.current;
        let ghost sw = sp@;
        self.current.push(sp);
        assert(self@.current =~= before.push(sw));
    }

    fn flush(&mut self, width: usize)
        ensures
            final(self)@ == flushed(old(self)@, width as int),
    {
        if self.current.len() > 0 {
            let raw = raw_text_of(&self.current);
            let wrapped = wrap_line(&raw, self.style, width);
            self.extend_lines(wrapped);
            self.current = Vec::new();
            assert(self@.current =~= Seq::<SpanV>::empty());
        }
    }

    fn code_block_text(&mut self, t: &String, width: usize)
        ensures
            final(self)@ == (RenderState { lines: old(self)@.lines + code_lines(t@, width as int), ..old(self)@ }),
    {
        let tc = chars_of(t.as_str());
        let ls = lines_of(&tc);
        let ghost lsv = ls@.map_values(|l: Vec<char>| l@);
        let ghost f = |l: Seq<char>| one_span(seq![' ', ' '] + truncate(l, if width >= 2 { width - 2 } else { 0 }), code_style());
        let ghost start = self@;
        let mut k: usize = 0;
        while k < ls.len()
            invariant
                k <= ls.len(),
                lsv == ls@.map_values(|l: Vec<char>| l@),
                lsv == text::split_lines(tc@),
                tc@ == t@,
                f == (|l: Seq<char>| one_span(seq![' ', ' '] + truncate(l, if width >= 2 { width - 2 } else { 0 }), code_style())),
                self@ == (RenderState { lines: start.lines + lsv.take(k as int).map_values(f), ..start }),
            decreases ls.len() - k,
        {
            let mut line: Vec<char> = Vec::new();
            line.push(' ');
            line.push(' ');
            let cut = truncate_chars(&ls[k], width.saturating_sub(2));
            push_all(&mut line, &cut);
            assert(line@ =~= seq![' ', ' '] + truncate(lsv[k as int], if width >= 2 { width - 2 } else { 0 }));
            let sl = span_line(line, code_only());
            self.push_line(sl);
            assert(lsv.take(k + 1).map_values(f) =~= lsv.take(k as int).map_values(f).push(f(lsv[k as int])));
            assert(start.lines + lsv.take(k + 1).map_values(f) =~= (start.lines + lsv.take(k as int).map_values(f)).push(f(lsv[k as int])));
            k = k + 1;
        }
        assert(lsv.take(ls.len() as int) =~= lsv);
    }

    fn text_event(&mut self, t: &String, width: usize)
        ensures
            final(self)@ == step(old(self)@, MdEvent::Text(*t), width as int),
    {
        if self.in_table_cell {
            let tc = chars_of(t.as_str());
            push_all(&mut self.current_cell, &tc);
        } else if self.in_code_block {
            self.code_block_text(t, width);
        } else {
            let tc = chars_of(t.as_str());
            self.push_span(text_span(tc, self.style));
        }
    }

    fn apply_inline(&mut self, e: &MdEvent, width: usize)
        requires
            *e is Text || *e is Code || *e is StartLink || *e is StartItem || *e is StartBlockQuote,
        ensures
            final(self)@ == step(old(self)@, *e, width as int),
    {
        match e {
            MdEvent::Text(t) => {
                assert(*e == MdEvent::Text(*t));
                self.text_event(t, width);
                assert(self@ == step(old(self)@, MdEvent::Text(*t), width as int));
                assert(self@ == step(old(self)@, *e, width as int));
            },
            MdEvent::Code(t) => {
                let tc = chars_of(t.as_str());
                if self.in_table_cell {
                    push_all(&mut self.current_cell, &tc);
                } else {
                    let mut c: Vec<char> = Vec::new();
                    c.push('`');
                    push_all(&mut c, &tc);
                    c.push('`');
                    assert(c@ =~= seq!['`'] + t@ + seq!['`']);
                    self.push_span(text_span(c, code_only()));
                }
                assert(self@ == step(old(self)@, *e, width as int));
            },
            MdEvent::StartLink { dest_url, title } => {
                let tc = chars_of(title.as_str());
                let label = if tc.len() > 0 { tc } else { chars_of(dest_url.as_str()) };
                let mut c: Vec<char> = Vec::new();
                c.push('[');
                push_all(&mut c, &label);
                c.push(']');
                assert(c@ =~= seq!['['] + label@ + seq![']']);
                self.push_span(text_span(c, TextStyle { underlined: true, ..fg_only(LINK_COLOR) }));
                assert(self@ == step(old(self)@, *e, width as int));
            },
            MdEvent::StartItem => {
                let mut b: Vec<char> = self.indent.clone();
                assert(b@ =~= self.indent@);
                let k = self.counters.len();
                if k > 0 && self.counters[k - 1] != 0 {
                    let n = self.counters[k - 1];
                    push_decimal(&mut b, n as u128);
                    b.push('.');
                    b.push(' ');
                    self.counters.set(k - 1, n.wrapping_add(1));
                } else {
                    b.push('\u{2022}');
                    b.push(' ');
                }
                let ghost bw = b@;
                assert(bw == bullet(old(self)@.indent, old(self)@.counters).0);
                self.push_span(text_span(b, fg_only(LIST_BULLET)));
                assert(self@ == step(old(self)@, *e, width as int));
            },
            MdEvent::StartBlockQuote => {
                self.style = TextStyle { italic: true, ..fg_only(BLOCK_QUOTE) };
                let mut q: Vec<char> = Vec::new();
                q.push('\u{258c}');
                q.push(' ');
                assert(q@ =~= seq!['\u{258c}', ' ']);
                self.push_span(text_span(q, fg_only(LIST_BULLET)));
                assert(self@ == step(old(self)@, *e, width as int));
            },
            _ => { assert(false); },
        }
    }

    fn apply_table(&mut self, e: &MdEvent, width: usize)
        requires
            old(self)@.table_rows.len() < usize::MAX,
            *e is StartTable || *e is EndTable || *e is StartTableHead || *e is EndTableHead || *e is StartTableRow || *e is EndTableRow || *e is StartTableCell || *e is EndTableCell,
        ensures
            final(self)@ == step(old(self)@, *e, width as int),
    {
        match e {
            MdEvent::StartTable => {
                self.in_table = true;
                self.table_rows = Vec::new();
                self.head_rows = 0;
                assert(self@.table_rows =~= Seq::<Seq<Seq<char>>>::empty());
                if self.current.len() > 0 {
                    let ghost cur = spans_view(self.current@);
                    let mut spans: Vec<StyledSpan> = Vec::new();
                    std::mem::swap(&mut spans, &mut self.current);
                    assert(spans_view(spans@) == cur);
                    let line = StyledLine { spans };
                    assert(line@ == cur);
                    self.push_line(line);
                    assert(self@.current =~= Seq::<SpanV>::empty());
                }
                assert(self@ == step(old(self)@, *e, width as int));
            },
            MdEvent::EndTable => {
                self.in_table = false;
                self.in_table_cell = false;
                let t = render_table(&self.table_rows, self.head_rows, width);
                self.extend_lines(t);
                self.push_line(empty_line());
                assert(self@.lines =~= old(self)@.lines + table_lines(old(self)@.table_rows, old(self)@.head_rows, width as int)
                    + seq![Seq::<SpanV>::empty()]);
                assert(self@ == step(old(self)@, *e, width as int));
            },
            MdEvent::StartTableHead => {
                self.current_row = Vec::new();
                assert(self@.current_row =~= Seq::<Seq<char>>::empty());
                assert(self@ == step(old(self)@, *e, width as int));
            },
            MdEvent::EndTableHead => {
                if self.current_row.len() > 0 {
                    let mut row: Vec<Vec<char>> = Vec::new();
                    std::mem::swap(&mut row, &mut self.current_row);
                    self.head_rows = self.table_rows.len() + 1;
                    let ghost before = self@.table_rows;
                    let ghost rw = row@.map_values(|c: Vec<char>| c@);
                    self.table_rows.push(row);
                    assert(self@.table_rows =~= before.push(rw));
                    assert(self@.current_row =~= Seq::<Seq<char>>::empty());
                }
                assert(self@ == step(old(self)@, *e, width as int));
            },
            MdEvent::StartTableRow => {
                self.current_row = Vec::new();
                assert(self@.current_row =~= Seq::<Seq<char>>::empty());
                assert(self@ == step(old(self)@, *e, width as int));
            },
            MdEvent::EndTableRow => {
                if self.current_row.len() > 0 || self.in_table {
                    let mut row: Vec<Vec<char>> = Vec::new();
                    std::mem::swap(&mut row, &mut self.current_row);
                    let ghost before = self@.table_rows;
                    let ghost rw = row@.map_values(|c: Vec<char>| c@);
                    self.table_rows.push(row);
                    assert(self@.table_rows =~= before.push(rw));
                    assert(self@.current_row =~= Seq::<Seq<char>>::empty());
                }
                assert(self@ == step(old(self)@, *e, width as int));
            },
            MdEvent::StartTableCell => {
                self.in_table_cell = true;
                self.current_cell = Vec::new();
                assert(self@ == step(old(self)@, *e, width as int));
            },
            MdEvent::EndTableCell => {
                self.in_table_cell = false;
                let cell = trim_cell(&self.current_cell);
                let ghost before = self@.current_row;
                let ghost cw = cell@;
                self.current_row.push(cell);
                assert(self@.current_row =~= before.push(cw));
                self.current_cell = Vec::new();
                assert(self@ == step(old(self)@, *e, width as int));
            },
            _ => { assert(false); },
        }
    }

    fn apply_block(&mut self, e: &MdEvent, width: usize)
        requires
            *e is EndHeading || *e is EndBlockQuote || *e is EndItem || *e is SoftBreak || *e is HardBreak || *e is EndParagraph || *e is StartCodeBlock || *e is EndCodeBlock || *e is Rule,
        ensures
            final(self)@ == step(old(self)@, *e, width as int),
    {
        match e {
            MdEvent::EndHeading => {
                self.flush(width);
                self.push_line(empty_line());
                self.style = fg_only(FG);
            },
            MdEvent::EndBlockQuote => {
                self.flush(width);
                self.push_line(empty_line());
                self.style = fg_only(FG);
            },
            MdEvent::EndItem => self.flush(width),
            MdEvent::SoftBreak => self.flush(width),
            MdEvent::HardBreak => self.flush(width),
            MdEvent::EndParagraph => {
                self.flush(width);
                self.push_line(empty_line());
            },
            MdEvent::StartCodeBlock => {
                self.in_code_block = true;
                let c = chars_of(" \u{250c}\u{2500} code ");
                self.push_line(span_line(c, fg_only(RULE_COLOR)));
            },
            MdEvent::EndCodeBlock => {
                self.in_code_block = false;
                let c = chars_of(" \u{2514}\u{2500}\u{2500}\u{2500}\u{2500}\u{2500}\u{2500}\u{2500}\u{2500}");
                self.push_line(span_line(c, fg_only(RULE_COLOR)));
                self.push_line(empty_line());
            },
            MdEvent::Rule => {
                let n = if width <= 60 { width } else { 60 };
                let d = repeat_char('\u{2500}', n);
                self.push_line(span_line(d, fg_only(RULE_COLOR)));
                self.push_line(empty_line());
            },
            _ => { assert(false); },
        }
    }

    fn apply_style(&mut self, e: &MdEvent, width: usize)
        requires
            old(self)@.list_depth < usize::MAX,
            *e is StartHeading || *e is StartStrong || *e is EndStrong || *e is StartEmphasis || *e is EndEmphasis || *e is StartStrikethrough || *e is EndStrikethrough || *e is StartList || *e is EndList || *e is EndLink || *e is Other,
        ensures
            final(self)@ == step(old(self)@, *e, width as int),
    {
        match e {
            MdEvent::StartHeading(level) => {
                self.style = if *level == 1 {
                    TextStyle { bold: true, underlined: true, ..fg_only(HEADING1) }
                } else if *level == 2 {
                    TextStyle { bold: true, ..fg_only(HEADING2) }
                } else {
                    TextStyle { bold: true, ..fg_only(HEADING3) }
                };
            },
            MdEvent::StartStrong => self.style.bold = true,
            MdEvent::EndStrong => self.style.bold = false,
            MdEvent::StartEmphasis => self.style.italic = true,
            MdEvent::EndEmphasis => self.style.italic = false,
            MdEvent::StartStrikethrough => self.style.crossed_out = true,
            MdEvent::EndStrikethrough => self.style.crossed_out = false,
            MdEvent::StartList(start) => {
                let old_depth = self.list_depth;
                self.list_depth = old_depth + 1;
                let n: u64 = match start {
                    Some(n) => *n,
                    None => 0,
                };
                self.counters.push(n);
                self.indent = indent_chars(old_depth);
            },
            MdEvent::EndList => {
                if self.list_depth > 0 {
                    self.list_depth = self.list_depth - 1;
                }
                if self.counters.len() > 0 {
                    self.counters.pop();
                }
                if self.list_depth == 0 {
                    self.push_line(empty_line());
                }
                self.indent = indent_chars(self.list_depth.saturating_sub(1));
            },
            MdEvent::EndLink => {},
            MdEvent::Other => {},

            _ => { assert(false); },
        }
    }

    fn apply(&mut self, e: &MdEvent, width: usize)
        requires
            old(self)@.list_depth < usize::MAX,
            old(self)@.table_rows.len() < usize::MAX,
        ensures
            final(self)@ == step(old(self)@, *e, width as int),
            final(self)@.list_depth <= old(self)@.list_depth + 1,
            final(self)@.table_rows.len() <= old(self)@.table_rows.len() + 1,
    {
        match e {
            MdEvent::Text(..) | MdEvent::Code(..) | MdEvent::StartLink { .. } | MdEvent::StartItem | MdEvent::StartBlockQuote => self.apply_inline(e, width),
            MdEvent::StartTable | MdEvent::EndTable | MdEvent::StartTableHead | MdEvent::EndTableHead | MdEvent::StartTableRow | MdEvent::EndTableRow | MdEvent::StartTableCell | MdEvent::EndTableCell => self.apply_table(e, width),
            MdEvent::EndHeading | MdEvent::EndBlockQuote | MdEvent::EndItem | MdEvent::SoftBreak | MdEvent::HardBreak | MdEvent::EndParagraph | MdEvent::StartCodeBlock | MdEvent::EndCodeBlock | MdEvent::Rule => self.apply_block(e, width),
            MdEvent::StartHeading(..) | MdEvent::StartStrong | MdEvent::EndStrong | MdEvent::StartEmphasis | MdEvent::EndEmphasis | MdEvent::StartStrikethrough | MdEvent::EndStrikethrough | MdEvent::StartList(..) | MdEvent::EndList | MdEvent::EndLink | MdEvent::Other => self.apply_style(e, width),
        }
    }
}

} // verus!

verus! {

/// Renders parse events into styled lines (see `render`).
pub fn render_events(events: &Vec<MdEvent>, wrap_width: usize) -> (r: Vec<StyledLine>)
    ensures
        styled_lines_view(r@) == render(events@, wrap_width as int),
{
    let mut st = Renderer::new();
    let mut i: usize = 0;
    while i < events.len()
        invariant
            i <= events.len(),
            st@ == rendered_state(events@.take(i as int), wrap_width as int),
            st@.list_depth <= i,
            st@.table_rows.len() <= i,
        decreases events.len() - i,
    {
        assert(events@.take(i + 1).drop_last() =~= events@.take(i as int));
        st.apply(&events[i], wrap_width);
        i = i + 1;
    }
    assert(events@.take(events.len() as int) =~= events@);
    st.flush(wrap_width);
    st.into_lines()
}

fn clone_event(e: &MdEvent) -> (r: MdEvent)
    ensures
        r == *e,
{
    match e {
        MdEvent::Text(t) => MdEvent::Text(t.clone()),
        MdEvent::Code(t) => MdEvent::Code(t.clone()),
        MdEvent::StartTable => MdEvent::StartTable,
        MdEvent::EndTable => MdEvent::EndTable,
        MdEvent::StartTableHead => MdEvent::StartTableHead,
        MdEvent::EndTableHead => MdEvent::EndTableHead,
        MdEvent::StartTableRow => MdEvent::StartTableRow,
        MdEvent::EndTableRow => MdEvent::EndTableRow,
        MdEvent::StartTableCell => MdEvent::StartTableCell,
        MdEvent::EndTableCell => MdEvent::EndTableCell,
        MdEvent::StartHeading(l) => MdEvent::StartHeading(*l),
        MdEvent::EndHeading => MdEvent::EndHeading,
        MdEvent::StartStrong => MdEvent::StartStrong,
        MdEvent::EndStrong => MdEvent::EndStrong,
        MdEvent::StartEmphasis => MdEvent::StartEmphasis,
        MdEvent::EndEmphasis => MdEvent::EndEmphasis,
        MdEvent::StartStrikethrough => MdEvent::StartStrikethrough,
        MdEvent::EndStrikethrough => MdEvent::EndStrikethrough,
        MdEvent::StartCodeBlock => MdEvent::StartCodeBlock,
        MdEvent::EndCodeBlock => MdEvent::EndCodeBlock,
        MdEvent::StartList(n) => MdEvent::StartList(*n),
        MdEvent::EndList => MdEvent::EndList,
        MdEvent::StartItem => MdEvent::StartItem,
        MdEvent::EndItem => MdEvent::EndItem,
        MdEvent::StartBlockQuote => MdEvent::StartBlockQuote,
        MdEvent::EndBlockQuote => MdEvent::EndBlockQuote,
        MdEvent::StartLink { dest_url, title } => MdEvent::StartLink { dest_url: dest_url.clone(), title: title.clone() },
        MdEvent::EndLink => MdEvent::EndLink,
        MdEvent::EndParagraph => MdEvent::EndParagraph,
        MdEvent::SoftBreak => MdEvent::SoftBreak,
        MdEvent::HardBreak => MdEvent::HardBreak,
        MdEvent::Rule => MdEvent::Rule,
        MdEvent::Other => MdEvent::Other,
    }
}

/// What `pulldown_cmark` parses out of a markdown text (with tables and
/// strikethrough on), one entry per parse event: the start of a table, table
/// part, heading, code block, list or list item, or `None`.
pub uninterp spec fn markdown_block_starts(md: Seq<char>) -> Seq<Option<MdEvent>>;

/// Per parse event: the start of strong, emphasised, struck-out or linked
/// text, a text or code span, or a soft line break, or `None`.
pub uninterp spec fn markdown_inline_events(md: Seq<char>) -> Seq<Option<MdEvent>>;

/// Per parse event: the end of a table, table part, heading, code block,
/// list, list item or block quote, or `None`.
pub uninterp spec fn markdown_block_ends(md: Seq<char>) -> Seq<Option<MdEvent>>;

/// Per parse event: the end of strong, emphasised, struck-out or linked
/// text or of a paragraph, a hard line break, a rule or the start of a block
/// quote, or `None`.
pub uninterp spec fn markdown_inline_ends(md: Seq<char>) -> Seq<Option<MdEvent>>;

/// `pulldown_cmark::Parser::new_ext` with tables and strikethrough, each
/// event kept when it starts a block (see `markdown_block_starts`). The
/// contract names the result and claims nothing more of it.
#[verifier::external_body]
fn md_block_starts(md: &str) -> (r: Vec<Option<MdEvent>>)
    ensures
        r@ == markdown_block_starts(md@),
{
    let opts = Options::ENABLE_TABLES | Options::ENABLE_STRIKETHROUGH;
    Parser::new_ext(md, opts).map(|e| match e {
        Event::Start(Tag::Table(_)) => Some(MdEvent::StartTable),
        Event::Start(Tag::TableHead) => Some(MdEvent::StartTableHead),
        Event::Start(Tag::TableRow) => Some(MdEvent::StartTableRow),
        Event::Start(Tag::TableCell) => Some(MdEvent::StartTableCell),
        Event::Start(Tag::Heading { level, .. }) => Some(MdEvent::StartHeading(level as u8)),
        Event::Start(Tag::CodeBlock(_)) => Some(MdEvent::StartCodeBlock),
        Event::Start(Tag::List(n)) => Some(MdEvent::StartList(n)),
        Event::Start(Tag::Item) => Some(MdEvent::StartItem),
        _ => None,
    }).collect()
}

/// `pulldown_cmark::Parser::new_ext` with tables and strikethrough, each
/// event kept when it is inline (see `markdown_inline_events`). The contract
/// names the result and claims nothing more of it.
#[verifier::external_body]
fn md_inline_events(md: &str) -> (r: Vec<Option<MdEvent>>)
    ensures
        r@ == markdown_inline_events(md@),
{
    let opts = Options::ENABLE_TABLES | Options::ENABLE_STRIKETHROUGH;
    Parser::new_ext(md, opts).map(|e| match e {
        Event::Start(Tag::Strong) => Some(MdEvent::StartStrong),
        Event::Start(Tag::Emphasis) => Some(MdEvent::StartEmphasis),
        Event::Start(Tag::Strikethrough) => Some(MdEvent::StartStrikethrough),
        Event::Start(Tag::Link { dest_url, title, .. }) =>
            Some(MdEvent::StartLink { dest_url: dest_url.into_string(), title: title.into_string() }),
        Event::Text(t) => Some(MdEvent::Text(t.into_string())),
        Event::Code(t) => Some(MdEvent::Code(t.into_string())),
        Event::SoftBreak => Some(MdEvent::SoftBreak),
        _ => None,
    }).collect()
}

/// `pulldown_cmark::Parser::new_ext` with tables and strikethrough, each
/// event kept when it ends a block (see `markdown_block_ends`). The contract
/// names the result and claims nothing more of it.
#[verifier::external_body]
fn md_block_ends(md: &str) -> (r: Vec<Option<MdEvent>>)
    ensures
        r@ == markdown_block_ends(md@),
{
    let opts = Options::ENABLE_TABLES | Options::ENABLE_STRIKETHROUGH;
    Parser::new_ext(md, opts).map(|e| match e {
        Event::End(TagEnd::Table) => Some(MdEvent::EndTable),
        Event::End(TagEnd::TableHead) => Some(MdEvent::EndTableHead),
        Event::End(TagEnd::TableRow) => Some(MdEvent::EndTableRow),
        Event::End(TagEnd::TableCell) => Some(MdEvent::EndTableCell),
        Event::End(TagEnd::Heading(_)) => Some(MdEvent::EndHeading),
        Event::End(TagEnd::CodeBlock) => Some(MdEvent::EndCodeBlock),
        Event::End(TagEnd::List(_)) => Some(MdEvent::EndList),
        Event::End(TagEnd::Item) => Some(MdEvent::EndItem),
        Event::End(TagEnd::BlockQuote(_)) => Some(MdEvent::EndBlockQuote),
        _ => None,
    }).collect()
}

/// `pulldown_cmark::Parser::new_ext` with tables and strikethrough, each
/// event kept when it ends inline text or a paragraph, or is a hard line
/// break, a rule or the start of a block quote (see `markdown_inline_ends`). The contract names the result and claims nothing
/// more of it.
#[verifier::external_body]
fn md_inline_ends(md: &str) -> (r: Vec<Option<MdEvent>>)
    ensures
        r@ == markdown_inline_ends(md@),
{
    let opts = Options::ENABLE_TABLES | Options::ENABLE_STRIKETHROUGH;
    Parser::new_ext(md, opts).map(|e| match e {
        Event::End(TagEnd::Strong) => Some(MdEvent::EndStrong),
        Event::End(TagEnd::Emphasis) => Some(MdEvent::EndEmphasis),
        Event::End(TagEnd::Strikethrough) => Some(MdEvent::EndStrikethrough),
        Event::End(TagEnd::Link) => Some(MdEvent::EndLink),
        Event::End(TagEnd::Paragraph) => Some(MdEvent::EndParagraph),
        Event::HardBreak => Some(MdEvent::HardBreak),
        Event::Rule => Some(MdEvent::Rule),
        Event::Start(Tag::BlockQuote(_)) => Some(MdEvent::StartBlockQuote),
        _ => None,
    }).collect()
}

/// One parse event from its four classifications.
pub open spec fn merge_event(a: Option<MdEvent>, b: Option<MdEvent>, c: Option<MdEvent>, d: Option<MdEvent>) -> MdEvent {
    match a {
        Some(e) => e,
        None => match b {
            Some(e) => e,
            None => match c {
                Some(e) => e,
                None => match d {
                    Some(e) => e,
                    None => MdEvent::Other,
                },
            },
        },
    }
}

pub open spec fn merged_events(
    a: Seq<Option<MdEvent>>,
    b: Seq<Option<MdEvent>>,
    c: Seq<Option<MdEvent>>,
    d: Seq<Option<MdEvent>>,
) -> Seq<MdEvent> {
    let n1 = if a.len() <= b.len() { a.len() } else { b.len() };
    let n2 = if c.len() <= d.len() { c.len() } else { d.len() };
    let n = if n1 <= n2 { n1 } else { n2 };
    Seq::new(n, |i: int| merge_event(a[i], b[i], c[i], d[i]))
}

/// The parse events of a markdown text.
pub open spec fn markdown_events(md: Seq<char>) -> Seq<MdEvent> {
    merged_events(markdown_block_starts(md), markdown_inline_events(md), markdown_block_ends(md), markdown_inline_ends(md))
}

fn pick(o: &Option<MdEvent>) -> (r: Option<MdEvent>)
    ensures
        r == *o,
{
    match o {
        Some(e) => Some(clone_event(e)),
        None => None,
    }
}

/// The parse events of `md`.
pub fn parse_markdown(md: &str) -> (r: Vec<MdEvent>)
    ensures
        r@ == markdown_events(md@),
{
    let a = md_block_starts(md);
    let b = md_inline_events(md);
    let c = md_block_ends(md);
    let d = md_inline_ends(md);
    let n1 = if a.len() <= b.len() { a.len() } else { b.len() };
    let n2 = if c.len() <= d.len() { c.len() } else { d.len() };
    let n = if n1 <= n2 { n1 } else { n2 };
    let mut out: Vec<MdEvent> = Vec::new();
    let mut i: usize = 0;
    while i < n
        invariant
            i <= n <= a.len(),
            n <= b.len(),
            n <= c.len(),
            n <= d.len(),
            out@ =~= Seq::new(i as nat, |k: int| merge_event(a@[k], b@[k], c@[k], d@[k])),
        decreases n - i,
    {
        let e = match pick(&a[i]) {
            Some(e) => e,
            None => match pick(&b[i]) {
                Some(e) => e,
                None => match pick(&c[i]) {
                    Some(e) => e,
                    None => match pick(&d[i]) {
                        Some(e) => e,
                        None => MdEvent::Other,
                    },
                },
            },
        };
        out.push(e);
        i = i + 1;
    }
    out
}

/// Renders markdown into styled lines wrapped to `wrap_width`.
pub fn md_to_text(md: &str, wrap_width: usize) -> (r: Vec<StyledLine>)
    ensures
        styled_lines_view(r@) == render(markdown_events(md@), wrap_width as int),
{
    let events = parse_markdown(md);
    render_events(&events, wrap_width)
}

} // verus!
