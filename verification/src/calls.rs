//! The tool-calling conversation: reading tool calls and their arguments
//! out of the model's JSON with `serde_json`, choosing what each call asks
//! for, and the conversation each round leaves for the next request.
use vstd::prelude::*;
use crate::chat::{is_file_tool, Message, ToolRun};
use crate::editor::opt_view;
use crate::tools::{execute_tool, ToolRequest};
use serde_json::Value;

verus! {

/// What `serde_json` reads `text` as, when it is a JSON value with a string
/// field `name`: that name and the value's `arguments` field written back
/// as JSON text (`null` when it has none).
pub uninterp spec fn json_call(text: Seq<char>) -> Option<(Seq<char>, Seq<char>)>;

/// The string field `key` of the JSON value that `json` holds: none when
/// `json` does not parse, or has no such field, or the field is no string.
pub uninterp spec fn json_string_field(json: Seq<char>, key: Seq<char>) -> Option<Seq<char>>;

pub open spec fn pair_view(p: Option<(String, String)>) -> Option<(Seq<char>, Seq<char>)> {
    match p {
        Some((a, b)) => Some((a@, b@)),
        None => None,
    }
}

/// `serde_json::from_str` of the text, then its `name` read as a string and
/// its `arguments` written with `serde_json`'s `Display`; the result is
/// named, not stated.
#[verifier::external_body]
fn parse_json_call(text: &str) -> (r: Option<(String, String)>)
    ensures
        pair_view(r) == json_call(text@),
{
    let v: Value = serde_json::from_str(text).ok()?;
    let name = v["name"].as_str()?.to_string();
    Some((name, v["arguments"].to_string()))
}

/// `serde_json::from_str` of the text (`Null` when it does not parse), then
/// its field `key` read as a string; the result is named, not stated.
#[verifier::external_body]
fn string_field(json: &str, key: &str) -> (r: Option<String>)
    ensures
        opt_view(r) == json_string_field(json@, key@),
{
    let v: Value = serde_json::from_str(json).unwrap_or_default();
    v[key].as_str().map(|s| s.to_string())
}

/// The string argument `key` of a call, empty when there is none.
pub open spec fn argument(arguments: Seq<char>, key: Seq<char>) -> Seq<char> {
    match json_string_field(arguments, key) {
        Some(s) => s,
        None => Seq::empty(),
    }
}

/// The string argument `key` of a call's arguments (JSON text).
pub fn tool_argument(arguments: &str, key: &str) -> (r: Option<String>)
    ensures
        opt_view(r) == json_string_field(arguments@, key@),
{
    string_field(arguments, key)
}

/// The id given to a tool call that the model wrote out in its text.
pub open spec fn text_call_id() -> Seq<char> {
    "call_fallback_0"@
}

/// A file-tool call written out in a reply's text as JSON: the call, under
/// the fixed id, when the text reads as one and names a file tool.
pub fn text_tool_call(text: &str) -> (r: Option<ToolRun>)
    ensures
        match json_call(text@) {
            Some((name, args)) => if is_file_tool(name) {
                r matches Some(run) && run.call_id@ == text_call_id() && run.name@ == name && run.arguments@ == args
            } else {
                r is None
            },
            None => r is None,
        },
{
    match parse_json_call(text) {
        Some((name, arguments)) => {
            if crate::chat::is_known_tool(name.as_str()) {
                Some(ToolRun { call_id: String::from_str("call_fallback_0"), name, arguments })
            } else {
                None
            }
        },
        None => None,
    }
}

/// What a file-tool call asks for, its string arguments read from its
/// arguments (JSON text), each empty where absent.
pub fn tool_request(name: &str, arguments: &str) -> (r: ToolRequest)
    ensures
        name@ == "read_file"@ ==> (r matches ToolRequest::ReadFile { path: p } && p@ == argument(arguments@, "path"@)),
        name@ == "create_file"@ ==> (r matches ToolRequest::CreateFile { path: p, content: c }
            && p@ == argument(arguments@, "path"@) && c@ == argument(arguments@, "content"@)),
        name@ == "edit_file"@ ==> (r matches ToolRequest::EditFile { path: p, old_str: o, new_str: n }
            && p@ == argument(arguments@, "path"@) && o@ == argument(arguments@, "old_str"@)
            && n@ == argument(arguments@, "new_str"@)),
        name@ != "read_file"@ && name@ != "create_file"@ && name@ != "edit_file"@ ==> (
        r matches ToolRequest::Unknown { message: m } && m@ == "Unknown tool: "@ + name@),
{
    let path = string_field(arguments, "path");
    let content = string_field(arguments, "content");
    let old_str = string_field(arguments, "old_str");
    let new_str = string_field(arguments, "new_str");
    execute_tool(name, path, content, old_str, new_str)
}

/// The query of a web search call, empty when it has none.
pub fn search_query(arguments: &str) -> (r: String)
    ensures
        r@ == argument(arguments@, "query"@),
{
    match string_field(arguments, "query") {
        Some(q) => q,
        None => String::new(),
    }
}

/// An entry of the tool-calling conversation.
pub enum ConvEntry {
    /// A message with a role and text (the system prompt and the turns).
    Said { role: String, content: String },
    /// A reply of the model with tool calls, as it came (JSON text).
    Reply { raw: String },
    /// The assistant's call of a tool it wrote out in its text.
    Call { call_id: String, name: String, arguments: String },
    /// A tool's answer to the call with that id.
    Answer { call_id: String, content: String },
}

/// An entry of the conversation, abstractly.
pub enum EntryV {
    Said(Seq<char>, Seq<char>),
    Reply(Seq<char>),
    Call(Seq<char>, Seq<char>, Seq<char>),
    Answer(Seq<char>, Seq<char>),
}

impl View for ConvEntry {
    type V = EntryV;

    open spec fn view(&self) -> EntryV {
        match self {
            ConvEntry::Said { role, content } => EntryV::Said(role@, content@),
            ConvEntry::Reply { raw } => EntryV::Reply(raw@),
            ConvEntry::Call { call_id, name, arguments } => EntryV::Call(call_id@, name@, arguments@),
            ConvEntry::Answer { call_id, content } => EntryV::Answer(call_id@, content@),
        }
    }
}

pub open spec fn conv_view(c: Seq<ConvEntry>) -> Seq<EntryV> {
    c.map_values(|e: ConvEntry| e@)
}

/// The messages, as entries.
pub open spec fn said_all(ms: Seq<Message>) -> Seq<EntryV> {
    ms.map_values(|m: Message| EntryV::Said(m.role@, m.content@))
}

/// The conversation a request starts with: the system prompt, then the
/// turns so far.
pub fn start_conversation(system: &str, history: &Vec<Message>) -> (r: Vec<ConvEntry>)
    ensures
        conv_view(r@) == seq![EntryV::Said("system"@, system@)] + said_all(history@),
{
    let mut out: Vec<ConvEntry> = Vec::new();
    out.push(ConvEntry::Said { role: String::from_str("system"), content: String::from_str(system) });
    let mut i: usize = 0;
    while i < history.len()
        invariant
            i <= history.len(),
            conv_view(out@) == seq![EntryV::Said("system"@, system@)] + said_all(history@.take(i as int)),
        decreases history.len() - i,
    {
        let ghost before = conv_view(out@);
        let m = &history[i];
        out.push(ConvEntry::Said { role: m.role.clone(), content: m.content.clone() });
        assert(conv_view(out@) =~= before.push(EntryV::Said(history@[i as int].role@, history@[i as int].content@)));
        assert(said_all(history@.take(i + 1)) =~= said_all(history@.take(i as int)).push(
            EntryV::Said(history@[i as int].role@, history@[i as int].content@),
        ));
        i = i + 1;
    }
    assert(history@.take(history.len() as int) =~= history@);
    out
}

/// The answers of the first `n` calls that were run (`Some` result), in
/// order, each under its call's id.
pub open spec fn answers(runs: Seq<ToolRun>, results: Seq<Option<String>>, n: int) -> Seq<EntryV>
    decreases n,
{
    if n <= 0 {
        Seq::empty()
    } else {
        answers(runs, results, n - 1) + match results[n - 1] {
            Some(c) => seq![EntryV::Answer(runs[n - 1].call_id@, c@)],
            None => Seq::empty(),
        }
    }
}

/// The number of calls among the first `n` that were run.
pub open spec fn count_run(results: Seq<Option<String>>, n: int) -> int
    decreases n,
{
    if n <= 0 { 0 } else { count_run(results, n - 1) + if results[n - 1] is Some { 1int } else { 0int } }
}

/// The answers of a round are one per call that was run, in the calls'
/// order, each holding that call's answer under that call's own id.
pub proof fn law_answers_follow_calls(runs: Seq<ToolRun>, results: Seq<Option<String>>, n: int)
    requires
        0 <= n <= runs.len(),
        n <= results.len(),
    ensures
        answers(runs, results, n).len() == count_run(results, n),
        forall|i: int| 0 <= i < n && #[trigger] results[i] is Some ==> answers(runs, results, n)[count_run(results, i)]
            == EntryV::Answer(runs[i].call_id@, results[i]->0@),
    decreases n,
{
    if n > 0 {
        law_answers_follow_calls(runs, results, n - 1);
        assert forall|i: int| 0 <= i < n && #[trigger] results[i] is Some implies answers(runs, results, n)[count_run(results, i)]
            == EntryV::Answer(runs[i].call_id@, results[i]->0@) by {
            let prev = answers(runs, results, n - 1);
            let tail = match results[n - 1] {
                Some(c) => seq![EntryV::Answer(runs[n - 1].call_id@, c@)],
                None => Seq::<EntryV>::empty(),
            };
            assert(answers(runs, results, n) == prev + tail);
            lemma_count_run_mono(results, 0, i);
            if i < n - 1 {
                lemma_count_run_mono(results, i, n - 1);
                assert((prev + tail)[count_run(results, i)] == prev[count_run(results, i)]);
            } else {
                assert((prev + tail)[prev.len() as int] == tail[0]);
            }
        }
    }
}

proof fn lemma_count_run_mono(results: Seq<Option<String>>, i: int, j: int)
    requires
        0 <= i <= j,
    ensures
        count_run(results, i) <= count_run(results, j),
        i < j && results[i] is Some ==> count_run(results, i) < count_run(results, j),
    decreases j - i,
{
    if i < j {
        lemma_count_run_mono(results, i, j - 1);
        if i == j - 1 {
        }
    }
}

/// A round in which the model called tools: its reply joins the
/// conversation, then the answer of each call that was run (`results[i]`
/// is the answer to `runs[i]`, `None` for a call that was not run).
pub fn push_tool_round(conv: &mut Vec<ConvEntry>, raw_reply: String, runs: &Vec<ToolRun>, results: &Vec<Option<String>>)
    requires
        results.len() == runs.len(),
    ensures
        conv_view(final(conv)@) == conv_view(old(conv)@).push(EntryV::Reply(raw_reply@))
            + answers(runs@, results@, runs.len() as int),
{
    let ghost start = conv_view(conv@).push(EntryV::Reply(raw_reply@));
    let ghost rv = raw_reply@;
    let ghost before = conv_view(conv@);
    conv.push(ConvEntry::Reply { raw: raw_reply });
    assert(conv_view(conv@) =~= before.push(EntryV::Reply(rv)));
    let mut i: usize = 0;
    while i < runs.len()
        invariant
            i <= runs.len(),
            results.len() == runs.len(),
            conv_view(conv@) == start + answers(runs@, results@, i as int),
        decreases runs.len() - i,
    {
        let ghost mid = conv_view(conv@);
        match &results[i] {
            Some(c) => {
                conv.push(ConvEntry::Answer { call_id: runs[i].call_id.clone(), content: c.clone() });
                assert(conv_view(conv@) =~= mid.push(EntryV::Answer(runs@[i as int].call_id@, c@)));
                assert(conv_view(conv@) =~= start + answers(runs@, results@, i + 1));
            },
            None => {
                assert(answers(runs@, results@, i + 1) =~= answers(runs@, results@, i as int));
            },
        }
        i = i + 1;
    }
}

/// A round in which the model wrote a tool call out in its text: the call
/// joins the conversation as the assistant's, then the tool's answer.
pub fn push_text_call(conv: &mut Vec<ConvEntry>, call: &ToolRun, result: String)
    ensures
        conv_view(final(conv)@) == conv_view(old(conv)@).push(EntryV::Call(call.call_id@, call.name@, call.arguments@))
            .push(EntryV::Answer(call.call_id@, result@)),
{
    let ghost before = conv_view(conv@);
    let ghost res = result@;
    conv.push(ConvEntry::Call { call_id: call.call_id.clone(), name: call.name.clone(), arguments: call.arguments.clone() });
    conv.push(ConvEntry::Answer { call_id: call.call_id.clone(), content: result });
    assert(conv_view(conv@) =~= before.push(EntryV::Call(call.call_id@, call.name@, call.arguments@)).push(
        EntryV::Answer(call.call_id@, res),
    ));
}

} // verus!
