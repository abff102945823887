//! The slash commands typed in the chat input.
use vstd::prelude::*;
use crate::text::{chars_eq, chars_of, string_of};

verus! {

/// The index of the first space in `s`.
pub open spec fn first_space(s: Seq<char>, i: int) -> Option<int>
    decreases s.len() - i,
{
    if i < 0 || i >= s.len() {
        None
    } else if s[i] == ' ' {
        Some(i)
    } else {
        first_space(s, i + 1)
    }
}

/// `str::splitn(n, ' ')`: the pieces of `s` between single spaces, at most
/// `n` of them, the last holding the rest of the text.
pub open spec fn splitn(s: Seq<char>, n: nat) -> Seq<Seq<char>>
    decreases n,
{
    if n <= 1 {
        seq![s]
    } else {
        match first_space(s, 0) {
            None => seq![s],
            Some(i) => seq![s.take(i)] + splitn(s.skip(i + 1), (n - 1) as nat),
        }
    }
}

proof fn lemma_first_space(s: Seq<char>, i: int)
    requires
        0 <= i,
    ensures
        first_space(s, i) matches Some(k) ==> i <= k < s.len() && s[k] == ' ',
    decreases s.len() - i,
{
    if i < s.len() && s[i] != ' ' {
        lemma_first_space(s, i + 1);
    }
}

fn find_space(s: &Vec<char>, from: usize) -> (r: Option<usize>)
    requires
        from <= s.len(),
    ensures
        match r {
            Some(k) => first_space(s@, from as int) == Some(k as int),
            None => first_space(s@, from as int) is None,
        },
{
    let mut i = from;
    while i < s.len()
        invariant
            from <= i <= s.len(),
            first_space(s@, from as int) == first_space(s@, i as int),
        decreases s.len() - i,
    {
        if s[i] == ' ' {
            return Some(i);
        }
        i = i + 1;
    }
    None
}

fn slice_chars(s: &Vec<char>, a: usize, b: usize) -> (r: Vec<char>)
    requires
        a <= b <= s.len(),
    ensures
        r@ == s@.subrange(a as int, b as int),
{
    let mut r: Vec<char> = Vec::new();
    let mut i = a;
    while i < b
        invariant
            a <= i <= b <= s.len(),
            r@ =~= s@.subrange(a as int, i as int),
        decreases b - i,
    {
        r.push(s[i]);
        i = i + 1;
    }
    r
}

/// The pieces of `s` split at single spaces, at most `n` of them.
pub fn splitn_chars(s: &Vec<char>, n: usize) -> (r: Vec<Vec<char>>)
    ensures
        r@.map_values(|p: Vec<char>| p@) == splitn(s@, n as nat),
{
    let mut out: Vec<Vec<char>> = Vec::new();
    let mut start: usize = 0;
    let mut left: usize = n;
    assert(s@.skip(0) =~= s@);
    loop
        invariant
            start <= s.len(),
            left <= n,
            out@.map_values(|p: Vec<char>| p@) + splitn(s@.skip(start as int), left as nat) == splitn(s@, n as nat),
        decreases left,
    {
        let ghost rest = s@.skip(start as int);
        if left <= 1 {
            out.push(slice_chars(s, start, s.len()));
            assert(out@.map_values(|p: Vec<char>| p@) =~= splitn(s@, n as nat));
            return out;
        }
        match find_space(s, start) {
            None => {
                proof {
                    assert forall|j: int| 0 <= j < rest.len() implies rest[j] != ' ' by {
                        lemma_no_space(s@, start as int, start + j);
                    }
                    lemma_first_space_none(rest, 0);
                }
                out.push(slice_chars(s, start, s.len()));
                assert(out@.map_values(|p: Vec<char>| p@) =~= splitn(s@, n as nat));
                return out;
            },
            Some(k) => {
                proof {
                    lemma_first_space(s@, start as int);
                    lemma_shift(s@, start as int, 0);
                }
                let ghost before = out@.map_values(|p: Vec<char>| p@);
                out.push(slice_chars(s, start, k));
                assert(rest.take(k - start) =~= s@.subrange(start as int, k as int));
                assert(rest.skip(k - start + 1) =~= s@.skip(k + 1));
                assert(out@.map_values(|p: Vec<char>| p@) =~= before.push(s@.subrange(start as int, k as int)));
                start = k + 1;
                left = left - 1;
            },
        }
    }
}

proof fn lemma_no_space(s: Seq<char>, from: int, j: int)
    requires
        0 <= from <= j < s.len(),
        first_space(s, from) is None,
    ensures
        s[j] != ' ',
    decreases j - from,
{
    if from < j {
        lemma_no_space(s, from + 1, j);
    }
}

proof fn lemma_first_space_none(s: Seq<char>, i: int)
    requires
        0 <= i,
        forall|j: int| 0 <= j < s.len() ==> s[j] != ' ',
    ensures
        first_space(s, i) is None,
    decreases s.len() - i,
{
    if i < s.len() {
        lemma_first_space_none(s, i + 1);
    }
}

/// Searching the rest of `s` from `start` finds the space that searching
/// `s` from `start` finds, shifted.
proof fn lemma_shift(s: Seq<char>, start: int, i: int)
    requires
        0 <= start <= s.len(),
        0 <= i,
    ensures
        first_space(s.skip(start), i) == match first_space(s, start + i) {
            Some(k) => Some(k - start),
            None => None::<int>,
        },
    decreases s.len() - start - i,
{
    if start + i < s.len() && s[start + i] != ' ' {
        lemma_shift(s, start, i + 1);
    }
}

/// The services a chat can be connected to.
#[derive(Clone, Copy, Debug, PartialEq, Eq, Structural)]
pub enum ProviderKind {
    Cerebras,
    Anthropic,
    Codex,
}

/// The provider named by a word of `/connect`.
pub open spec fn provider_named(w: Seq<char>) -> Option<ProviderKind> {
    if w == "cerebras"@ {
        Some(ProviderKind::Cerebras)
    } else if w == "anthropic"@ {
        Some(ProviderKind::Anthropic)
    } else if w == "codex"@ {
        Some(ProviderKind::Codex)
    } else {
        None
    }
}

fn provider_named_exec(w: &Vec<char>) -> (r: Option<ProviderKind>)
    ensures
        r == provider_named(w@),
{
    if is_word(w, "cerebras") {
        Some(ProviderKind::Cerebras)
    } else if is_word(w, "anthropic") {
        Some(ProviderKind::Anthropic)
    } else if is_word(w, "codex") {
        Some(ProviderKind::Codex)
    } else {
        None
    }
}

/// A slash command, read from the input line.
pub enum Command {
    /// `/connect <provider> <key>`, with a model after the key or not.
    Connect { provider: ProviderKind, api_key: String, model: Option<String> },
    /// `/connect` with an unknown provider, or with more words.
    UnknownProvider { name: String },
    /// `/connect` alone.
    ConnectUsage,
    /// `/models` or `/model`.
    Models,
    /// `/exa <key>`.
    Exa { key: String },
    /// `/new`.
    New,
    /// `/edit` alone.
    EditPrompt,
    /// `/edit <path>`.
    EditFile { path: String },
    /// `/help`.
    Help,
    /// Anything else.
    Unknown,
}

/// A slash command, abstractly.
pub enum CommandView {
    Connect { provider: ProviderKind, api_key: Seq<char>, model: Option<Seq<char>> },
    UnknownProvider { name: Seq<char> },
    ConnectUsage,
    Models,
    Exa { key: Seq<char> },
    New,
    EditPrompt,
    EditFile { path: Seq<char> },
    Help,
    Unknown,
}

impl View for Command {
    type V = CommandView;

    open spec fn view(&self) -> CommandView {
        match self {
            Command::Connect { provider, api_key, model } => CommandView::Connect {
                provider: *provider,
                api_key: api_key@,
                model: match model {
                    Some(m) => Some(m@),
                    None => None,
                },
            },
            Command::UnknownProvider { name } => CommandView::UnknownProvider { name: name@ },
            Command::ConnectUsage => CommandView::ConnectUsage,
            Command::Models => CommandView::Models,
            Command::Exa { key } => CommandView::Exa { key: key@ },
            Command::New => CommandView::New,
            Command::EditPrompt => CommandView::EditPrompt,
            Command::EditFile { path } => CommandView::EditFile { path: path@ },
            Command::Help => CommandView::Help,
            Command::Unknown => CommandView::Unknown,
        }
    }
}

/// The command that an input line holds, read from its first four pieces
/// (split at single spaces).
pub open spec fn command_view(input: Seq<char>) -> CommandView {
    let p = splitn(input, 4);
    if p.len() == 3 && p[0] == "/connect"@ && provider_named(p[1]) is Some {
        CommandView::Connect { provider: provider_named(p[1]).unwrap(), api_key: p[2], model: None }
    } else if p.len() == 4 && p[0] == "/connect"@ && provider_named(p[1]) is Some {
        CommandView::Connect { provider: provider_named(p[1]).unwrap(), api_key: p[2], model: Some(p[3]) }
    } else if p.len() >= 2 && p[0] == "/connect"@ {
        CommandView::UnknownProvider { name: p[1] }
    } else if p.len() == 1 && p[0] == "/connect"@ {
        CommandView::ConnectUsage
    } else if p.len() == 1 && (p[0] == "/models"@ || p[0] == "/model"@) {
        CommandView::Models
    } else if p.len() == 2 && p[0] == "/exa"@ {
        CommandView::Exa { key: p[1] }
    } else if p.len() == 1 && p[0] == "/new"@ {
        CommandView::New
    } else if p.len() == 1 && p[0] == "/edit"@ {
        CommandView::EditPrompt
    } else if p.len() == 2 && p[0] == "/edit"@ {
        CommandView::EditFile { path: p[1] }
    } else if p.len() == 1 && p[0] == "/help"@ {
        CommandView::Help
    } else {
        CommandView::Unknown
    }
}

fn is_word(p: &Vec<char>, w: &str) -> (r: bool)
    ensures
        r == (p@ == w@),
{
    chars_eq(p, &chars_of(w))
}

/// Reads the command in an input line.
pub fn parse_command(input: &str) -> (c: Command)
    ensures
        c@ == command_view(input@),
{
    let s = chars_of(input);
    let p = splitn_chars(&s, 4);
    let ghost pv = p@.map_values(|x: Vec<char>| x@);
    assert(pv == splitn(input@, 4));
    let n = p.len();
    if n == 0 {
        return Command::Unknown;
    }
    let connect = is_word(&p[0], "/connect");
    let named = if n >= 2 { provider_named_exec(&p[1]) } else { None };
    if n == 3 && connect && named.is_some() {
        Command::Connect { provider: named.unwrap(), api_key: string_of(&p[2]), model: None }
    } else if n == 4 && connect && named.is_some() {
        Command::Connect { provider: named.unwrap(), api_key: string_of(&p[2]), model: Some(string_of(&p[3])) }
    } else if n >= 2 && connect {
        Command::UnknownProvider { name: string_of(&p[1]) }
    } else if n == 1 && connect {
        Command::ConnectUsage
    } else if n == 1 && (is_word(&p[0], "/models") || is_word(&p[0], "/model")) {
        Command::Models
    } else if n == 2 && is_word(&p[0], "/exa") {
        Command::Exa { key: string_of(&p[1]) }
    } else if n == 1 && is_word(&p[0], "/new") {
        Command::New
    } else if n == 1 && is_word(&p[0], "/edit") {
        Command::EditPrompt
    } else if n == 2 && is_word(&p[0], "/edit") {
        Command::EditFile { path: string_of(&p[1]) }
    } else if n == 1 && is_word(&p[0], "/help") {
        Command::Help
    } else {
        Command::Unknown
    }
}

} // verus!
