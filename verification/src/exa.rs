//! The text that a web search hands back to the model: its results, one
//! numbered entry each. The request itself is the caller's.
use vstd::prelude::*;
use crate::text::{chars_eq, chars_of, push_all, push_decimal, push_str, string_of, trim_chars};
use crate::text;

verus! {

/// The least time between two searches, in microseconds (the service
/// allows ten a second).
pub open spec fn search_gap() -> int {
    120_000
}

/// How long to wait before a search, `elapsed` microseconds after the last
/// one: what is left of the gap, or nothing once it has passed.
pub fn rate_limit_wait(elapsed: u64) -> (r: u64)
    ensures
        r == if elapsed < search_gap() { search_gap() - elapsed } else { 0 },
{
    if elapsed < 120_000 {
        120_000 - elapsed
    } else {
        0
    }
}

/// One search result, as far as the answer uses it: each field is `None`
/// where the reply has no such string (or array).
pub struct SearchHit {
    pub title: Option<String>,
    pub url: Option<String>,
    pub published_date: Option<String>,
    pub highlights: Option<Vec<Option<String>>>,
}

/// The number of bytes of `c` in UTF-8.
pub open spec fn utf8_width(c: char) -> nat {
    if (c as u32) < 0x80 { 1 } else if (c as u32) < 0x800 { 2 } else if (c as u32) < 0x10000 { 3 } else { 4 }
}

/// The number of bytes of `s` in UTF-8.
pub open spec fn utf8_len(s: Seq<char>) -> nat
    decreases s.len(),
{
    if s.len() == 0 { 0 } else { utf8_len(s.drop_last()) + utf8_width(s.last()) }
}

/// How many characters of `s` fit in `n` bytes of UTF-8.
pub open spec fn chars_within(s: Seq<char>, n: int) -> nat
    decreases s.len(),
{
    if s.len() == 0 || utf8_width(s[0]) > n { 0 } else { 1 + chars_within(s.skip(1), n - utf8_width(s[0])) }
}

/// The first ten bytes of a date (all of it when shorter), as characters.
pub open spec fn date_prefix(d: Seq<char>) -> Seq<char> {
    d.take(chars_within(d, 10) as int)
}

/// Ten bytes into the date fall between two characters (or the date is
/// shorter), so that its first ten bytes can be cut off.
pub open spec fn date_cuttable(d: Seq<char>) -> bool {
    date_prefix(d) == d || utf8_len(date_prefix(d)) == 10
}

pub open spec fn opt_or(o: Option<String>, default: Seq<char>) -> Seq<char> {
    match o {
        Some(s) => s@,
        None => default,
    }
}

/// The highlight lines of a result: each non-blank one of the first three,
/// trimmed.
pub open spec fn highlight_text(hs: Seq<Option<String>>) -> Seq<char>
    decreases hs.len(),
{
    if hs.len() == 0 {
        Seq::empty()
    } else {
        let rest = highlight_text(hs.drop_last());
        match hs.last() {
            Some(t) => if text::trim(t@).len() > 0 { rest + "   > "@ + text::trim(t@) + "\n"@ } else { rest },
            None => rest,
        }
    }
}

pub open spec fn first_three(hs: Seq<Option<String>>) -> Seq<Option<String>> {
    if hs.len() > 3 { hs.take(3) } else { hs }
}

/// A result shows its first three highlights, or all when it has fewer:
/// the highlights looked at are the first `min(3, len)` of them, in order.
pub proof fn law_first_three_highlights(hs: Seq<Option<String>>)
    ensures
        first_three(hs).len() == if hs.len() < 3 { hs.len() } else { 3 },
        forall|i: int| 0 <= i < first_three(hs).len() ==> #[trigger] first_three(hs)[i] == hs[i],
{
}

/// The highlight lines of two runs of highlights are those of the first
/// followed by those of the second; a single highlight gives one `   > `
/// line with its trimmed text, or nothing when it is blank or missing.
pub proof fn law_highlight_lines(a: Seq<Option<String>>, b: Seq<Option<String>>)
    ensures
        highlight_text(a + b) == highlight_text(a) + highlight_text(b),
        forall|h: Option<String>| #[trigger] highlight_text(seq![h]) == match h {
            Some(t) => if text::trim(t@).len() > 0 { "   > "@ + text::trim(t@) + "\n"@ } else { Seq::empty() },
            None => Seq::<char>::empty(),
        },
    decreases b.len(),
{
    assert forall|h: Option<String>| #[trigger] highlight_text(seq![h]) == match h {
        Some(t) => if text::trim(t@).len() > 0 { "   > "@ + text::trim(t@) + "\n"@ } else { Seq::empty() },
        None => Seq::<char>::empty(),
    } by {
        assert(seq![h].drop_last() =~= Seq::<Option<String>>::empty());
        assert(seq![h].last() == h);
        assert(highlight_text(Seq::<Option<String>>::empty()) == Seq::<char>::empty());
        assert(highlight_text(seq![h]) == highlight_text(seq![h].drop_last()) + match h {
            Some(t) => if text::trim(t@).len() > 0 { "   > "@ + text::trim(t@) + "\n"@ } else { Seq::empty() },
            None => Seq::<char>::empty(),
        });
        match h {
            Some(t) => {
                assert(Seq::<char>::empty() + ("   > "@ + text::trim(t@) + "\n"@) =~= "   > "@ + text::trim(t@) + "\n"@);
                assert(Seq::<char>::empty() + Seq::<char>::empty() =~= Seq::<char>::empty());
            },
            None => {},
        }
    }
    if b.len() == 0 {
        assert(a + b =~= a);
        assert(highlight_text(a) + Seq::<char>::empty() =~= highlight_text(a));
    } else {
        law_highlight_lines(a, b.drop_last());
        assert((a + b).drop_last() =~= a + b.drop_last());
        assert((a + b).last() == b.last());
        let ra = highlight_text(a);
        let rb = highlight_text(b.drop_last());
        match b.last() {
            Some(t) => {
                if text::trim(t@).len() > 0 {
                    assert(ra + rb + "   > "@ + text::trim(t@) + "\n"@ =~= ra + (rb + "   > "@ + text::trim(t@) + "\n"@));
                }
            },
            None => {},
        }
    }
}

/// The entry of the `i`-th result (from 0).
pub open spec fn hit_text(i: int, h: SearchHit) -> Seq<char> {
    let date = opt_or(h.published_date, Seq::empty());
    let date_part = if date.len() == 0 { Seq::empty() } else { " \u{b7} "@ + date_prefix(date) };
    let hl = match h.highlights {
        Some(hs) => highlight_text(first_three(hs@)),
        None => Seq::empty(),
    };
    text::decimal((i + 1) as nat) + ". **"@ + opt_or(h.title, "Untitled"@) + "**"@ + date_part + "\n   "@
        + opt_or(h.url, Seq::empty()) + "\n"@ + hl + "\n"@
}

/// The entries of the first `n` results.
pub open spec fn hits_text(hits: Seq<SearchHit>, n: int) -> Seq<char>
    decreases n,
{
    if n <= 0 { Seq::empty() } else { hits_text(hits, n - 1) + hit_text(n - 1, hits[n - 1]) }
}

/// The answer to a search for `query`.
pub open spec fn results_text(results: Option<Vec<SearchHit>>, query: Seq<char>) -> Seq<char> {
    let head = "[web search: "@ + query + "]\n\n"@;
    match results {
        None => head + "No results found.\n"@,
        Some(hits) => head + hits_text(hits@, hits.len() as int),
    }
}

/// The characters of `d` within its first ten bytes.
fn date_prefix_chars(d: &Vec<char>) -> (r: Vec<char>)
    ensures
        r@ == date_prefix(d@),
{
    let mut k: usize = 0;
    let mut used: u32 = 0;
    assert(d@.skip(0) =~= d@);
    loop
        invariant
            k <= d.len(),
            used <= 10,
            chars_within(d@, 10) == k + chars_within(d@.skip(k as int), 10 - used),
        ensures
            k <= d.len(),
            chars_within(d@, 10) == k,
        decreases d.len() - k,
    {
        if k == d.len() {
            assert(d@.skip(k as int).len() == 0);
            break;
        }
        let c = d[k];
        let w: u32 = if (c as u32) < 0x80 { 1 } else if (c as u32) < 0x800 { 2 } else if (c as u32) < 0x10000 { 3 } else { 4 };
        assert(d@.skip(k as int)[0] == c);
        if w > 10 - used {
            break;
        }
        assert(d@.skip(k as int).skip(1) =~= d@.skip(k + 1));
        used = used + w;
        k = k + 1;
    }
    let mut r: Vec<char> = Vec::new();
    let mut j: usize = 0;
    while j < k
        invariant
            j <= k <= d.len(),
            r@ =~= d@.take(j as int),
        decreases k - j,
    {
        r.push(d[j]);
        j = j + 1;
    }
    r
}

fn push_highlights(out: &mut Vec<char>, hs: &Vec<Option<String>>)
    ensures
        final(out)@ == old(out)@ + highlight_text(first_three(hs@)),
{
    let n: usize = if hs.len() > 3 { 3 } else { hs.len() };
    let ghost f = first_three(hs@);
    assert(f.len() == n);
    let mut i: usize = 0;
    while i < n
        invariant
            i <= n,
            f == first_three(hs@),
            f.len() == n,
            n <= hs.len(),
            out@ == old(out)@ + highlight_text(f.take(i as int)),
        decreases n - i,
    {
        assert(f.take(i + 1).drop_last() =~= f.take(i as int));
        assert(f.take(i + 1).last() == hs@[i as int]);
        match &hs[i] {
            Some(t) => {
                let tc = chars_of(t.as_str());
                let tr = trim_chars(&tc);
                if tr.len() > 0 {
                    let ghost before = out@;
                    push_str(out, "   > ");
                    push_all(out, &tr);
                    push_str(out, "\n");
                    assert(out@ =~= before + "   > "@ + tr@ + "\n"@);
                }
            },
            None => {},
        }
        i = i + 1;
    }
    assert(f.take(n as int) =~= f);
}

fn push_opt(out: &mut Vec<char>, o: &Option<String>, default: &str)
    ensures
        final(out)@ == old(out)@ + opt_or(*o, default@),
{
    match o {
        Some(s) => push_str(out, s.as_str()),
        None => push_str(out, default),
    }
}

fn push_hit(out: &mut Vec<char>, i: usize, h: &SearchHit)
    requires
        date_cuttable(opt_or(h.published_date, Seq::empty())),
    ensures
        final(out)@ == old(out)@ + hit_text(i as int, *h),
{
    let mut t: Vec<char> = Vec::new();
    push_decimal(&mut t, i as u128 + 1);
    push_str(&mut t, ". **");
    push_opt(&mut t, &h.title, "Untitled");
    push_str(&mut t, "**");
    let date: Vec<char> = match &h.published_date {
        Some(d) => chars_of(d.as_str()),
        None => Vec::new(),
    };
    assert(date@ == opt_or(h.published_date, Seq::empty()));
    let mut dp: Vec<char> = Vec::new();
    if date.len() > 0 {
        push_str(&mut dp, " \u{b7} ");
        let p = date_prefix_chars(&date);
        push_all(&mut dp, &p);
    }
    assert(dp@ == if date@.len() == 0 { Seq::<char>::empty() } else { " \u{b7} "@ + date_prefix(date@) });
    push_all(&mut t, &dp);
    push_str(&mut t, "\n   ");
    push_opt(&mut t, &h.url, "");
    push_str(&mut t, "\n");
    let mut hl: Vec<char> = Vec::new();
    match &h.highlights {
        Some(hs) => push_highlights(&mut hl, hs),
        None => {},
    }
    assert(hl@ == match h.highlights {
        Some(hs) => highlight_text(first_three(hs@)),
        None => Seq::<char>::empty(),
    });
    push_all(&mut t, &hl);
    push_str(&mut t, "\n");
    proof {
        reveal_strlit("");
    }
    assert(t@ =~= hit_text(i as int, *h));
    push_all(out, &t);
}


/// Some prefix of `s` is `n` bytes long in UTF-8.
pub open spec fn byte_boundary(s: Seq<char>, n: int) -> bool {
    exists|k: int| 0 <= k <= s.len() && #[trigger] utf8_len(s.take(k)) == n
}

fn char_width(c: char) -> (r: u128)
    ensures
        r == utf8_width(c),
{
    let v = c as u32;
    if v < 0x80 { 1 } else if v < 0x800 { 2 } else if v < 0x10000 { 3 } else { 4 }
}

pub proof fn lemma_utf8_take_step(s: Seq<char>, k: int)
    requires
        0 <= k < s.len(),
    ensures
        utf8_len(s.take(k + 1)) == utf8_len(s.take(k)) + utf8_width(s[k]),
{
    assert(s.take(k + 1).drop_last() =~= s.take(k));
}

pub proof fn lemma_utf8_take_mono(s: Seq<char>, j: int, k: int)
    requires
        0 <= j <= k <= s.len(),
    ensures
        utf8_len(s.take(j)) <= utf8_len(s.take(k)),
    decreases k - j,
{
    if j < k {
        lemma_utf8_take_step(s, k - 1);
        lemma_utf8_take_mono(s, j, k - 1);
    }
}

/// The UTF-8 length of `s`, and whether one of its prefixes is `n` bytes long.
pub fn utf8_info(s: &Vec<char>, n: u128) -> (r: (u128, bool))
    ensures
        r.0 == utf8_len(s@),
        r.0 <= 4 * s.len(),
        r.1 == byte_boundary(s@, n as int),
{
    let mut bytes: u128 = 0;
    let mut found = n == 0;
    let mut k: usize = 0;
    proof {
        assert(s@.take(0) =~= Seq::<char>::empty());
        assert(utf8_len(s@.take(0)) == 0);
    }
    while k < s.len()
        invariant
            k <= s.len(),
            bytes == utf8_len(s@.take(k as int)),
            bytes <= 4 * k,
            found == exists|j: int| 0 <= j <= k && #[trigger] utf8_len(s@.take(j)) == n,
        decreases s.len() - k,
    {
        proof {
            lemma_utf8_take_step(s@, k as int);
        }
        bytes = bytes + char_width(s[k]);
        k = k + 1;
        if bytes == n {
            found = true;
        }
        proof {
            if !found {
                assert forall|j: int| 0 <= j <= k implies #[trigger] utf8_len(s@.take(j)) != n by {
                    if j == k {
                    } else {
                    }
                }
            }
        }
    }
    proof {
        assert(s@.take(s.len() as int) =~= s@);
    }
    (bytes, found)
}


/// Whether a date can be cut to its first ten bytes (see `date_cuttable`).
pub fn date_is_cuttable(d: &str) -> (r: bool)
    ensures
        r == date_cuttable(d@),
{
    let dc = chars_of(d);
    let p = date_prefix_chars(&dc);
    let (bytes, _b) = utf8_info(&p, 0);
    chars_eq(&p, &dc) || bytes == 10
}

/// The date of every result can be cut to its first ten bytes.
pub open spec fn dates_cuttable(results: Option<Vec<SearchHit>>) -> bool {
    match results {
        Some(hits) => forall|i: int| 0 <= i < hits@.len() ==> #[trigger] date_ok(hits@[i]),
        None => true,
    }
}

/// The result's date can be cut to its first ten bytes.
pub open spec fn date_ok(h: SearchHit) -> bool {
    date_cuttable(opt_or(h.published_date, Seq::empty()))
}

proof fn lemma_one_date_not_ok(hits: Vec<SearchHit>, i: int)
    requires
        0 <= i < hits@.len(),
        !date_ok(hits@[i]),
    ensures
        !dates_cuttable(Some(hits)),
{
    if dates_cuttable(Some(hits)) {
        let o: Option<Vec<SearchHit>> = Some(hits);
        assert(o matches Some(h) && h == hits);
        assert(forall|j: int| 0 <= j < hits@.len() ==> #[trigger] date_ok(hits@[j]));
        assert(date_ok(hits@[i]));
    }
}

/// Whether the date of every result can be cut to its first ten bytes, as
/// `format_results` needs.
pub fn results_formattable(results: &Option<Vec<SearchHit>>) -> (r: bool)
    ensures
        r == dates_cuttable(*results),
{
    match results {
        None => true,
        Some(hits) => {
            let mut i: usize = 0;
            while i < hits.len()
                invariant
                    i <= hits.len(),
                    *results == Some(*hits),
                    forall|j: int| 0 <= j < i ==> #[trigger] date_ok(hits@[j]),
                decreases hits.len() - i,
            {
                let ok = match &hits[i].published_date {
                    Some(d) => date_is_cuttable(d.as_str()),
                    None => {
                        proof {
                            assert(date_prefix(Seq::<char>::empty()) =~= Seq::<char>::empty());
                        }
                        true
                    },
                };
                assert(ok == date_ok(hits@[i as int]));
                if !ok {
                    proof {
                        lemma_one_date_not_ok(*hits, i as int);
                    }
                    return false;
                }
                i = i + 1;
            }
            true
        },
    }
}

/// The answer to a search for `query`, given the reply's results (`None`
/// when the reply has no array of results). A result's date is cut to its
/// first ten bytes, which must end between two characters.
pub fn format_results(results: &Option<Vec<SearchHit>>, query: &str) -> (r: String)
    requires
        results matches Some(hits) ==> forall|i: int| 0 <= i < hits.len()
            ==> #[trigger] date_cuttable(opt_or(hits@[i].published_date, Seq::empty())),
    ensures
        r@ == results_text(*results, query@),
{
    let mut out: Vec<char> = Vec::new();
    push_str(&mut out, "[web search: ");
    push_str(&mut out, query);
    push_str(&mut out, "]\n\n");
    let ghost head = out@;
    assert(head =~= "[web search: "@ + query@ + "]\n\n"@);
    match results {
        None => {
            push_str(&mut out, "No results found.\n");
        },
        Some(hits) => {
            let mut i: usize = 0;
            while i < hits.len()
                invariant
                    i <= hits.len(),
                    forall|k: int| 0 <= k < hits.len() ==> #[trigger] date_cuttable(opt_or(hits@[k].published_date, Seq::empty())),
                    out@ == head + hits_text(hits@, i as int),
                decreases hits.len() - i,
            {
                assert(date_cuttable(opt_or(hits@[i as int].published_date, Seq::empty())));
                push_hit(&mut out, i, &hits[i]);
                assert(out@ =~= head + hits_text(hits@, i + 1));
                i = i + 1;
            }
        },
    }
    string_of(&out)
}

} // verus!
