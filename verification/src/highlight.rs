//! Syntax colouring of the editor's text with `syntect`: the syntax is
//! chosen by the file's extension, each line is coloured by syntect's
//! parser and theme, and the coloured pieces become styled lines.
use vstd::prelude::*;
use crate::markdown::{spans_view, styled_lines_view, LineV, Rgb, StyledLine, StyledSpan, TextStyle};
use crate::markdown;
use crate::text::{chars_of, lines_of, string_of};
use crate::text;
use syntect::easy::HighlightLines;
use syntect::highlighting::{Theme, ThemeSet};
use syntect::parsing::{SyntaxReference, SyntaxSet};

verus! {

#[verifier::external_type_specification]
#[verifier::external_body]
pub struct ExSyntaxSet(SyntaxSet);

#[verifier::external_type_specification]
#[verifier::external_body]
pub struct ExSyntaxReference(SyntaxReference);

#[verifier::external_type_specification]
#[verifier::external_body]
pub struct ExThemeSet(ThemeSet);

#[verifier::external_type_specification]
#[verifier::external_body]
pub struct ExTheme(Theme);

#[verifier::external_type_specification]
#[verifier::external_body]
pub struct ExHighlightLines<'a>(HighlightLines<'a>);

/// The names of the syntaxes a syntax set holds.
pub uninterp spec fn syntax_names(ps: SyntaxSet) -> Set<Seq<char>>;

/// The names of the themes a theme set holds (the keys of its `themes`).
pub uninterp spec fn theme_names(ts: ThemeSet) -> Set<Seq<char>>;

/// The theme the editor is coloured with.
pub open spec fn theme_name() -> Seq<char> {
    "base16-ocean.dark"@
}

/// `SyntaxSet::load_defaults_newlines`: syntect's default syntaxes. Its
/// plain-text syntax is claimed (every syntax set has one, as
/// `find_syntax_plain_text` expects); nothing else is.
#[verifier::external_body]
fn default_syntaxes() -> (r: SyntaxSet)
    ensures
        syntax_names(r).contains("Plain Text"@),
{
    SyntaxSet::load_defaults_newlines()
}

/// `ThemeSet::load_defaults`: syntect's default themes, which its
/// documentation lists; the one the editor uses is claimed.
#[verifier::external_body]
fn default_themes() -> (r: ThemeSet)
    ensures
        theme_names(r).contains(theme_name()),
{
    ThemeSet::load_defaults()
}

/// `SyntaxSet::find_syntax_by_extension`; nothing is claimed of the result.
#[verifier::external_body]
fn find_syntax_by_extension<'a>(ps: &'a SyntaxSet, ext: &str) -> (r: Option<&'a SyntaxReference>) {
    ps.find_syntax_by_extension(ext)
}

/// `SyntaxSet::find_syntax_plain_text`, which panics on a set without a
/// plain-text syntax.
#[verifier::external_body]
fn find_syntax_plain_text(ps: &SyntaxSet) -> (r: &SyntaxReference)
    requires
        syntax_names(*ps).contains("Plain Text"@),
{
    ps.find_syntax_plain_text()
}

/// The theme called `name` in the set (indexing `ThemeSet::themes`, which
/// panics on a missing name).
#[verifier::external_body]
fn theme_named<'a>(ts: &'a ThemeSet, name: &str) -> (r: &'a Theme)
    requires
        theme_names(*ts).contains(name@),
{
    &ts.themes[name]
}

/// `HighlightLines::new`.
#[verifier::external_body]
fn highlight_lines<'a>(syntax: &SyntaxReference, theme: &'a Theme) -> (r: HighlightLines<'a>) {
    HighlightLines::new(syntax, theme)
}

/// The text of coloured pieces, joined.
pub open spec fn pieces_text(v: Seq<(u8, u8, u8, String)>) -> Seq<char>
    decreases v.len(),
{
    if v.len() == 0 { Seq::empty() } else { pieces_text(v.drop_last()) + v.last().3@ }
}

/// `HighlightLines::highlight_line`: the line's pieces, each with its
/// foreground colour (red, green, blue), or none when syntect reports an
/// error. As syntect documents, the pieces' texts joined make the line. The
/// split and the colours depend on the lines coloured before with `h`, so
/// they are not claimed.
#[verifier::external_body]
fn highlight_line(h: &mut HighlightLines, line: &str, ps: &SyntaxSet) -> (r: Option<Vec<(u8, u8, u8, String)>>)
    ensures
        r matches Some(v) ==> pieces_text(v@) == line@,
{
    match h.highlight_line(line, ps) {
        Ok(ranges) => Some(
            ranges
                .into_iter()
                .map(|(style, text)| (style.foreground.r, style.foreground.g, style.foreground.b, text.to_string()))
                .collect(),
        ),
        Err(_) => None,
    }
}

/// The colour `0xRRGGBB` of three components.
pub open spec fn rgb_of(r: u8, g: u8, b: u8) -> Rgb {
    (r as int * 0x10000 + g as int * 0x100 + b as int) as Rgb
}

fn rgb_exec(r: u8, g: u8, b: u8) -> (c: Rgb)
    ensures
        c == rgb_of(r, g, b),
{
    r as u32 * 0x10000 + g as u32 * 0x100 + b as u32
}

/// A line of coloured text: no empty piece, each piece in its own colour and
/// no other style.
pub open spec fn coloured(l: LineV) -> bool {
    forall|j: int| 0 <= j < l.len() ==> (#[trigger] l[j]).0.len() > 0 && l[j].1.bg is None && l[j].1.fg is Some
        && !l[j].1.bold && !l[j].1.italic && !l[j].1.underlined && !l[j].1.crossed_out
}

/// The spans of coloured pieces: each piece with text, in order, with that
/// text in the piece's colour.
pub open spec fn pieces_spans(v: Seq<(u8, u8, u8, String)>) -> LineV
    decreases v.len(),
{
    if v.len() == 0 {
        Seq::empty()
    } else {
        let p = v.last();
        if p.3@.len() > 0 {
            pieces_spans(v.drop_last()).push((p.3@, markdown::fg_style(rgb_of(p.0, p.1, p.2))))
        } else {
            pieces_spans(v.drop_last())
        }
    }
}

/// The spans of coloured pieces are coloured and hold the pieces' text.
proof fn lemma_pieces_spans(v: Seq<(u8, u8, u8, String)>)
    ensures
        coloured(pieces_spans(v)),
        markdown::raw_text(pieces_spans(v)) == pieces_text(v),
    decreases v.len(),
{
    if v.len() > 0 {
        lemma_pieces_spans(v.drop_last());
        let rest = pieces_spans(v.drop_last());
        let p = v.last();
        if p.3@.len() > 0 {
            let sp = (p.3@, markdown::fg_style(rgb_of(p.0, p.1, p.2)));
            assert(rest.push(sp).drop_last() =~= rest);
            assert forall|j: int| 0 <= j < rest.push(sp).len() implies (#[trigger] rest.push(sp)[j]).0.len() > 0 && rest.push(sp)[j].1.bg is None
                && rest.push(sp)[j].1.fg is Some && !rest.push(sp)[j].1.bold && !rest.push(sp)[j].1.italic
                && !rest.push(sp)[j].1.underlined && !rest.push(sp)[j].1.crossed_out by {
                if j < rest.len() {
                    assert(rest.push(sp)[j] == rest[j]);
                }
            }
        } else {
            assert(pieces_text(v) =~= pieces_text(v.drop_last()));
        }
    }
}

/// The styled line of the pieces syntect gave for a line.
pub fn spans_of(pieces: &Vec<(u8, u8, u8, String)>) -> (r: StyledLine)
    ensures
        r@ == pieces_spans(pieces@),
{
    let mut spans: Vec<StyledSpan> = Vec::new();
    let mut j: usize = 0;
    while j < pieces.len()
        invariant
            j <= pieces.len(),
            spans_view(spans@) == pieces_spans(pieces@.take(j as int)),
        decreases pieces.len() - j,
    {
        let ghost before = spans_view(spans@);
        assert(pieces@.take(j + 1).drop_last() =~= pieces@.take(j as int));
        assert(pieces@.take(j + 1).last() == pieces@[j as int]);
        let (r, g, b, t) = &pieces[j];
        if !t.as_str().is_empty() {
            let style = TextStyle {
                fg: Some(rgb_exec(*r, *g, *b)),
                bg: None,
                bold: false,
                italic: false,
                underlined: false,
                crossed_out: false,
            };
            spans.push(StyledSpan { content: t.clone(), style });
            assert(spans_view(spans@) =~= before.push((t@, style)));
        } else {
            assert(t@.len() == 0);
        }
        j = j + 1;
    }
    assert(pieces@.take(pieces.len() as int) =~= pieces@);
    StyledLine { spans }
}

/// The line of the file `i` comes out as: the spans of pieces whose text
/// is the line (what syntect gave), or an empty line (when syntect reported
/// an error).
pub open spec fn shows_line(l: LineV, line: Seq<char>) -> bool {
    l.len() == 0 || exists|v: Seq<(u8, u8, u8, String)>| pieces_text(v) == line && l == pieces_spans(v)
}

/// Colours text with syntect's default syntaxes and its `base16-ocean.dark`
/// theme.
pub struct Highlighter {
    ps: SyntaxSet,
    ts: ThemeSet,
}

impl Highlighter {
    #[verifier::type_invariant]
    spec fn loaded(self) -> bool {
        &&& syntax_names(self.ps).contains("Plain Text"@)
        &&& theme_names(self.ts).contains(theme_name())
    }

    /// The names of the syntaxes this highlighter can colour with.
    pub closed spec fn syntaxes(self) -> Set<Seq<char>> {
        syntax_names(self.ps)
    }

    /// The names of the themes this highlighter holds.
    pub closed spec fn themes(self) -> Set<Seq<char>> {
        theme_names(self.ts)
    }

    /// A highlighter over syntect's default syntaxes and themes: it holds
    /// the plain-text syntax, which colours files of unknown extension, and
    /// the `base16-ocean.dark` theme the editor is coloured with.
    pub fn new() -> (r: Self)
        ensures
            r.syntaxes().contains("Plain Text"@),
            r.themes().contains(theme_name()),
    {
        Highlighter { ps: default_syntaxes(), ts: default_themes() }
    }

    /// The coloured lines of `content` (a file whose extension is `ext`):
    /// one for each of its lines, holding the spans of the pieces syntect
    /// gave for that line (an empty line where syntect reports an error), or
    /// one empty line when it has none.
    pub fn highlight_file(&self, content: &str, ext: &str) -> (r: Vec<StyledLine>)
        ensures
            r.len() == if text::split_lines(content@).len() == 0 { 1 } else { text::split_lines(content@).len() },
            forall|i: int| 0 <= i < text::split_lines(content@).len() ==>
                shows_line(#[trigger] styled_lines_view(r@)[i], text::split_lines(content@)[i]),
            forall|i: int| 0 <= i < r.len() ==> coloured(#[trigger] styled_lines_view(r@)[i]),
            forall|i: int| 0 <= i < text::split_lines(content@).len() ==>
                markdown::raw_text(#[trigger] styled_lines_view(r@)[i]) == text::split_lines(content@)[i]
                || styled_lines_view(r@)[i].len() == 0,
            text::split_lines(content@).len() == 0 ==> styled_lines_view(r@)[0].len() == 0,
    {
        proof {
            use_type_invariant(self);
        }
        let syntax = match find_syntax_by_extension(&self.ps, ext) {
            Some(s) => s,
            None => find_syntax_plain_text(&self.ps),
        };
        let theme = theme_named(&self.ts, "base16-ocean.dark");
        let mut h = highlight_lines(syntax, theme);
        let cs = chars_of(content);
        let ls = lines_of(&cs);
        let ghost lines = text::split_lines(content@);
        assert(cs@ == content@);
        let mut out: Vec<StyledLine> = Vec::new();
        let mut i: usize = 0;
        while i < ls.len()
            invariant
                i <= ls.len(),
                ls@.map_values(|l: Vec<char>| l@) == lines,
                out.len() == i,
                forall|k: int| 0 <= k < out.len() ==> coloured(#[trigger] styled_lines_view(out@)[k]),
                forall|k: int| 0 <= k < out.len() ==> shows_line(#[trigger] styled_lines_view(out@)[k], lines[k]),
                forall|k: int| 0 <= k < out.len() ==>
                    markdown::raw_text(#[trigger] styled_lines_view(out@)[k]) == lines[k]
                    || styled_lines_view(out@)[k].len() == 0,
            decreases ls.len() - i,
        {
            let line = string_of(&ls[i]);
            assert(line@ == lines[i as int]);
            let l = match highlight_line(&mut h, line.as_str(), &self.ps) {
                Some(ranges) => {
                    let l = spans_of(&ranges);
                    proof {
                        lemma_pieces_spans(ranges@);
                    }
                    l
                },
                None => {
                    let l = StyledLine { spans: Vec::new() };
                    assert(l@ =~= Seq::<markdown::SpanV>::empty());
                    l
                },
            };
            let ghost prev = styled_lines_view(out@);
            let ghost lv = l@;
            out.push(l);
            assert(styled_lines_view(out@) =~= prev.push(lv));
            i = i + 1;
        }
        if out.len() == 0 {
            let l = StyledLine { spans: Vec::new() };
            assert(coloured(l@));
            assert(l@ =~= Seq::<markdown::SpanV>::empty());
            out.push(l);
            assert(styled_lines_view(out@) =~= seq![l@]);
        }
        out
    }
}

} // verus!
