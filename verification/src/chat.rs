//! The chat with the model: the messages, what is sent, and what each reply
//! of the model leads to. The requests themselves are the caller's.
use vstd::prelude::*;
use crate::text::{chars_eq, chars_of, contains_chars, push_str, string_of, trim_chars};
use crate::text;

verus! {

/// A message of the conversation, as the provider APIs take it.
pub struct Message {
    pub role: String,
    pub content: String,
}

fn copy_message(m: &Message) -> (r: Message)
    ensures
        r.role@ == m.role@,
        r.content@ == m.content@,
{
    Message { role: m.role.clone(), content: m.content.clone() }
}

/// The index of the first system message at or after `i`.
pub open spec fn first_system(ms: Seq<Message>, i: int) -> Option<int>
    decreases ms.len() - i,
{
    if i < 0 || i >= ms.len() {
        None
    } else if ms[i].role@ == "system"@ {
        Some(i)
    } else {
        first_system(ms, i + 1)
    }
}

/// The messages of an Anthropic request (every message that is not a system
/// message, in order) and its system prompt (the first system message's
/// text, or a default prompt).
pub fn anthropic_parts(messages: &Vec<Message>) -> (r: (Vec<Message>, String))
    ensures
        r.0@.map_values(|m: Message| (m.role@, m.content@)) == messages@.filter(|m: Message| m.role@ != "system"@).map_values(
            |m: Message| (m.role@, m.content@),
        ),
        r.1@ == match first_system(messages@, 0) {
            Some(i) => messages@[i].content@,
            None => "You are a helpful AI coding assistant."@,
        },
{
    let sys = chars_of("system");
    let ghost pred = |m: Message| m.role@ != "system"@;
    let ghost f = |m: Message| (m.role@, m.content@);
    let mut kept: Vec<Message> = Vec::new();
    let mut prompt: Option<String> = None;
    let mut i: usize = 0;
    while i < messages.len()
        invariant
            i <= messages.len(),
            sys@ == "system"@,
            pred == (|m: Message| m.role@ != "system"@),
            f == (|m: Message| (m.role@, m.content@)),
            kept@.map_values(f) == messages@.take(i as int).filter(pred).map_values(f),
            match prompt {
                Some(p) => first_system(messages@, 0) matches Some(k) && k < i && p@ == messages@[k].content@,
                None => first_system(messages@, 0) == first_system(messages@, i as int),
            },
        decreases messages.len() - i,
    {
        let role = chars_of(messages[i].role.as_str());
        let is_sys = chars_eq(&role, &sys);
        proof {
            reveal_with_fuel(Seq::<_>::filter, 1);
            assert(messages@.take(i + 1).drop_last() =~= messages@.take(i as int));
        }
        if is_sys {
            if prompt.is_none() {
                prompt = Some(messages[i].content.clone());
            }
        } else {
            let ghost before = kept@.map_values(f);
            let m = copy_message(&messages[i]);
            kept.push(m);
            assert(kept@.map_values(f) =~= before.push(f(messages@[i as int])));
        }
        i = i + 1;
    }
    assert(messages@.take(messages.len() as int) =~= messages@);
    let p = match prompt {
        Some(p) => p,
        None => String::from_str("You are a helpful AI coding assistant."),
    };
    (kept, p)
}

/// The conversation as sent to the model: the user and assistant messages,
/// in order.
pub open spec fn is_turn(m: (Seq<char>, Seq<char>)) -> bool {
    m.0 == "user"@ || m.0 == "assistant"@
}

/// The colour of a status line: what it reports.
#[derive(Debug, Clone, Copy, PartialEq, Eq, Structural)]
pub enum StatusColor {
    /// A success: connected, saved, copied or written.
    Green,
    /// A failure: failed, error, unknown, or an editor error (`E:`).
    Red,
    /// Anything else.
    Amber,
}

/// The colour of a status message, by the words it holds.
pub open spec fn status_color_of(s: Seq<char>) -> StatusColor {
    if text::contains_seq(s, "connected"@) || text::contains_seq(s, "saved"@) || text::contains_seq(s, "copied"@)
        || text::contains_seq(s, "written"@) {
        StatusColor::Green
    } else if text::contains_seq(s, "failed"@) || text::contains_seq(s, "error"@) || text::contains_seq(s, "unknown"@)
        || text::contains_seq(s, "E:"@) {
        StatusColor::Red
    } else {
        StatusColor::Amber
    }
}

fn has(s: &Vec<char>, w: &str) -> (r: bool)
    ensures
        r == text::contains_seq(s@, w@),
{
    contains_chars(s, &chars_of(w))
}

/// The colour of a status message.
pub fn status_color(s: &str) -> (r: StatusColor)
    ensures
        r == status_color_of(s@),
{
    let c = chars_of(s);
    if has(&c, "connected") || has(&c, "saved") || has(&c, "copied") || has(&c, "written") {
        StatusColor::Green
    } else if has(&c, "failed") || has(&c, "error") || has(&c, "unknown") || has(&c, "E:") {
        StatusColor::Red
    } else {
        StatusColor::Amber
    }
}

/// A tool call in a reply of the model: each field `None` where the reply
/// has no such string.
pub struct ToolCallReply {
    pub id: Option<String>,
    pub name: Option<String>,
    pub arguments: Option<String>,
}

/// A reply of the model: its tool calls (`None` when it has no array of
/// them) and its text.
pub struct ChatReply {
    pub tool_calls: Option<Vec<ToolCallReply>>,
    pub content: Option<String>,
}

/// A tool call to run: its id, the tool's name and its arguments (JSON).
pub struct ToolRun {
    pub call_id: String,
    pub name: String,
    pub arguments: String,
}

/// What a round of the chat leads to.
pub enum RoundStep {
    /// The model has answered.
    Finish(String),
    /// Append the reply to the conversation, run these tools, and ask again.
    RunTools(Vec<ToolRun>),
    /// The reply's text must be looked at for a tool call written out as
    /// JSON (the trimmed text is given).
    CheckText(String),
}

pub open spec fn or_default(o: Option<String>, d: Seq<char>) -> Seq<char> {
    match o {
        Some(s) => s@,
        None => d,
    }
}

fn take_or(o: &Option<String>, d: &str) -> (r: String)
    ensures
        r@ == or_default(*o, d@),
{
    match o {
        Some(s) => s.clone(),
        None => String::from_str(d),
    }
}

/// A tool call's id, name and arguments, with their defaults.
pub open spec fn run_of(tc: ToolCallReply, default_id: Seq<char>) -> (Seq<char>, Seq<char>, Seq<char>) {
    (or_default(tc.id, default_id), or_default(tc.name, Seq::empty()), or_default(tc.arguments, "{}"@))
}

/// `run` is the tool call `tc`, with the defaults filled in.
pub open spec fn run_matches(run: ToolRun, tc: ToolCallReply, default_id: Seq<char>) -> bool {
    (run.call_id@, run.name@, run.arguments@) == run_of(tc, default_id)
}

/// What a reply leads to: a reply with tool calls runs them (or, with an
/// empty list, is the answer); a reply without is the answer when the
/// fallback for written-out tool calls is off, and is checked for one
/// otherwise. `default_id` is the id of a call that has none.
pub fn chat_round(reply: &ChatReply, default_id: &str, text_fallback: bool) -> (r: RoundStep)
    ensures
        match reply.tool_calls {
            Some(tcs) => if tcs.len() == 0 {
                r matches RoundStep::Finish(s) && s@ == or_default(reply.content, Seq::empty())
            } else {
                r matches RoundStep::RunTools(runs) && runs.len() == tcs.len() && forall|i: int| 0 <= i < runs.len()
                    ==> #[trigger] run_matches(runs@[i], tcs@[i], default_id@)
            },
            None => if text_fallback {
                r matches RoundStep::CheckText(s) && s@ == text::trim(or_default(reply.content, Seq::empty()))
            } else {
                r matches RoundStep::Finish(s) && s@ == or_default(reply.content, Seq::empty())
            },
        },
{
    proof {
        reveal_strlit("");
    }
    match &reply.tool_calls {
        Some(tcs) => {
            if tcs.len() == 0 {
                return RoundStep::Finish(take_or(&reply.content, ""));
            }
            let mut runs: Vec<ToolRun> = Vec::new();
            let mut i: usize = 0;
            while i < tcs.len()
                invariant
                    i <= tcs.len(),
                    runs.len() == i,
                    forall|k: int| 0 <= k < i ==> #[trigger] run_matches(runs@[k], tcs@[k], default_id@),
                decreases tcs.len() - i,
            {
                proof {
                    reveal_strlit("");
                    assert(""@ =~= Seq::<char>::empty());
                }
                let tc = &tcs[i];
                let run = ToolRun {
                    call_id: take_or(&tc.id, default_id),
                    name: take_or(&tc.name, ""),
                    arguments: take_or(&tc.arguments, "{}"),
                };
                assert(run_matches(run, tcs@[i as int], default_id@));
                runs.push(run);
                i = i + 1;
            }
            RoundStep::RunTools(runs)
        },
        None => {
            let c = take_or(&reply.content, "");
            if text_fallback {
                let cc = chars_of(c.as_str());
                let t = trim_chars(&cc);
                RoundStep::CheckText(string_of(&t))
            } else {
                RoundStep::Finish(c)
            }
        },
    }
}

/// The file tools the model may call by writing the call out as JSON.
pub open spec fn is_file_tool(name: Seq<char>) -> bool {
    name == "read_file"@ || name == "create_file"@ || name == "edit_file"@
}

/// Whether a tool call written out in a reply's text names a file tool.
pub fn is_known_tool(name: &str) -> (r: bool)
    ensures
        r == is_file_tool(name@),
{
    let n = chars_of(name);
    chars_eq(&n, &chars_of("read_file")) || chars_eq(&n, &chars_of("create_file")) || chars_eq(&n, &chars_of("edit_file"))
}

/// Whether a tool call is a web search.
pub fn is_web_search(name: &str) -> (r: bool)
    ensures
        r == (name@ == "web_search"@),
{
    chars_eq(&chars_of(name), &chars_of("web_search"))
}

/// The number of tool-calling rounds before the last, tool-less request:
/// ten in edit mode, three in plan mode.
pub fn max_rounds(plan: bool) -> (r: usize)
    ensures
        r == if plan { 3usize } else { 10usize },
{
    if plan { 3 } else { 10 }
}

/// Whether the request of round `round` (from 0) offers the tools: each
/// round does but the one after the last tool-calling round, which asks for
/// an answer without them.
pub fn offers_tools(plan: bool, round: usize) -> (r: bool)
    ensures
        r == (round < (if plan { 3usize } else { 10usize })),
{
    round < max_rounds(plan)
}

/// Whether a tool call named `name` is answered: in plan mode only web
/// searches are (other calls get no tool message); in edit mode every call
/// is (an unknown tool is answered as such).
pub fn answers_call(plan: bool, name: &str) -> (r: bool)
    ensures
        r == (!plan || name@ == "web_search"@),
{
    !plan || is_web_search(name)
}

/// The most web searches made for one response in plan mode.
pub open spec fn search_budget() -> int {
    3
}

/// The number of web search calls among the first `i` calls.
pub open spec fn searches_before(runs: Seq<ToolRun>, i: int) -> int
    decreases i,
{
    if i <= 0 {
        0
    } else {
        searches_before(runs, i - 1) + if runs[i - 1].name@ == "web_search"@ { 1int } else { 0int }
    }
}

/// What plan mode does with a tool call of a reply.
#[derive(PartialEq, Eq, Structural)]
pub enum PlanCall {
    /// A web search within the budget: it is run.
    Search,
    /// A web search past the budget: it is not run, and is answered so.
    OverBudget,
    /// Any other call: it gets no answer.
    Ignore,
}

/// What happens to call `i` of a round, `done` searches having been made
/// for the response before this round.
pub open spec fn plan_call(runs: Seq<ToolRun>, done: int, i: int) -> PlanCall {
    if runs[i].name@ != "web_search"@ {
        PlanCall::Ignore
    } else if done + searches_before(runs, i) < search_budget() {
        PlanCall::Search
    } else {
        PlanCall::OverBudget
    }
}

/// The number of calls among the first `n` that are run as searches.
pub open spec fn searches_run(runs: Seq<ToolRun>, done: int, n: int) -> int
    decreases n,
{
    if n <= 0 {
        0
    } else {
        searches_run(runs, done, n - 1) + if plan_call(runs, done, n - 1) == PlanCall::Search { 1int } else { 0int }
    }
}

pub open spec fn min(a: int, b: int) -> int {
    if a <= b { a } else { b }
}

proof fn lemma_searches_run(runs: Seq<ToolRun>, done: int, n: int)
    requires
        0 <= done <= search_budget(),
        0 <= n <= runs.len(),
    ensures
        searches_run(runs, done, n) == min(search_budget() - done, searches_before(runs, n)),
        searches_before(runs, n) >= 0,
    decreases n,
{
    if n > 0 {
        lemma_searches_run(runs, done, n - 1);
    }
}

/// The searches of a response keep to the budget: however many calls a
/// round holds, the searches run in it and before it are at most three, and
/// a search is refused only when three have been made.
pub proof fn law_search_budget(runs: Seq<ToolRun>, done: int)
    requires
        0 <= done <= search_budget(),
    ensures
        done + searches_run(runs, done, runs.len() as int) <= search_budget(),
        forall|i: int| 0 <= i < runs.len() && #[trigger] plan_call(runs, done, i) == PlanCall::OverBudget
            ==> done + searches_run(runs, done, i) == search_budget(),
{
    lemma_searches_run(runs, done, runs.len() as int);
    assert forall|i: int| 0 <= i < runs.len() && #[trigger] plan_call(runs, done, i) == PlanCall::OverBudget
        implies done + searches_run(runs, done, i) == search_budget() by {
        lemma_searches_run(runs, done, i);
    }
}

/// What to do with each tool call of a plan-mode reply, `done` searches
/// having been made for the response so far, and the number made once the
/// round's searches are run.
pub fn plan_calls(runs: &Vec<ToolRun>, done: usize) -> (r: (Vec<PlanCall>, usize))
    requires
        done <= search_budget(),
    ensures
        r.0.len() == runs.len(),
        forall|i: int| 0 <= i < runs.len() ==> r.0@[i] == plan_call(runs@, done as int, i),
        r.1 == done + searches_run(runs@, done as int, runs.len() as int),
        r.1 <= search_budget(),
{
    let mut out: Vec<PlanCall> = Vec::new();
    let mut seen: usize = 0;
    let mut ran: usize = 0;
    let mut i: usize = 0;
    while i < runs.len()
        invariant
            i <= runs.len(),
            done <= search_budget(),
            out.len() == i,
            seen as int == searches_before(runs@, i as int),
            ran as int == searches_run(runs@, done as int, i as int),
            done + ran <= search_budget(),
            seen <= i,
            forall|k: int| 0 <= k < i ==> out@[k] == plan_call(runs@, done as int, k),
        decreases runs.len() - i,
    {
        proof {
            lemma_searches_run(runs@, done as int, i as int);
            lemma_searches_run(runs@, done as int, i + 1);
        }
        if is_web_search(runs[i].name.as_str()) {
            if seen < 3 - done {
                out.push(PlanCall::Search);
                ran = ran + 1;
            } else {
                out.push(PlanCall::OverBudget);
            }
            seen = seen + 1;
        } else {
            out.push(PlanCall::Ignore);
        }
        i = i + 1;
    }
    proof {
        law_search_budget(runs@, done as int);
    }
    (out, done + ran)
}

/// The answer to a web search refused for the budget.
pub fn over_budget_answer() -> (r: String)
    ensures
        r@ == "Search skipped: at most 3 searches per response."@,
{
    String::from_str("Search skipped: at most 3 searches per response.")
}

/// The system prompt of plan mode.
pub open spec fn plan_prompt() -> Seq<char> {
    "You are an expert AI coding assistant in PLAN mode. You have access to real-time web search. Use it proactively to find the latest documentation, library versions, benchmarks, architecture patterns, and best practices. Always search before making recommendations that depend on current or evolving information. Be structured and thorough in your planning responses."@
}

/// The system prompt of edit mode, naming the working directory `cwd`.
pub open spec fn edit_prompt(cwd: Seq<char>) -> Seq<char> {
    "You are an expert AI coding assistant in EDIT mode. The user's working directory is: "@ + cwd
        + "\nYou have three file tools:\n- read_file: read a file before editing it\n- create_file: create or overwrite a file\n- edit_file: replace a unique string in a file (str-replace)\nAlways read_file first before editing so you know the exact current content. After making changes, summarise what you did concisely."@
}

/// The system prompt of plan mode.
pub fn plan_system_prompt() -> (r: String)
    ensures
        r@ == plan_prompt(),
{
    String::from_str("You are an expert AI coding assistant in PLAN mode. You have access to real-time web search. Use it proactively to find the latest documentation, library versions, benchmarks, architecture patterns, and best practices. Always search before making recommendations that depend on current or evolving information. Be structured and thorough in your planning responses.")
}

/// The system prompt of edit mode, naming the working directory.
pub fn edit_system_prompt(cwd: &str) -> (r: String)
    ensures
        r@ == edit_prompt(cwd@),
{
    let mut out: Vec<char> = Vec::new();
    push_str(&mut out, "You are an expert AI coding assistant in EDIT mode. The user's working directory is: ");
    push_str(&mut out, cwd);
    push_str(&mut out, "\nYou have three file tools:\n- read_file: read a file before editing it\n- create_file: create or overwrite a file\n- edit_file: replace a unique string in a file (str-replace)\nAlways read_file first before editing so you know the exact current content. After making changes, summarise what you did concisely.");
    string_of(&out)
}

} // verus!
