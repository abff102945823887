//! The file tools the assistant can call: what each one answers, and the
//! string edit behind `edit_file`. Reading and writing files is the caller's.
use vstd::prelude::*;
use crate::text::{chars_eq, chars_of, occurs_at, push_all, push_decimal, push_str, string_of};
use crate::text;

verus! {

/// The number of places at or after `i` where `p` occurs in `s`,
/// overlapping occurrences each counted.
pub open spec fn count_from(s: Seq<char>, p: Seq<char>, i: int) -> nat
    decreases s.len() + 1 - i,
{
    if i + p.len() > s.len() {
        0
    } else if text::matches_at(s, p, i) {
        1 + count_from(s, p, i + 1)
    } else {
        count_from(s, p, i + 1)
    }
}

/// How many times `p` appears in `s`: the places where it starts.
pub open spec fn match_count(s: Seq<char>, p: Seq<char>) -> nat {
    count_from(s, p, 0)
}

/// The first index at or after `i` where `p` occurs in `s`.
pub open spec fn first_match(s: Seq<char>, p: Seq<char>, i: int) -> Option<int>
    decreases s.len() + 1 - i,
{
    if i + p.len() > s.len() {
        None
    } else if text::matches_at(s, p, i) {
        Some(i)
    } else {
        first_match(s, p, i + 1)
    }
}

/// `str::replacen(p, r, 1)`: `s` with its first occurrence of `p` replaced by `r`.
pub open spec fn replace_first(s: Seq<char>, p: Seq<char>, r: Seq<char>) -> Seq<char> {
    match first_match(s, p, 0) {
        Some(i) => s.take(i) + r + s.skip(i + p.len()),
        None => s,
    }
}

/// How many times `p` appears in `s`, overlapping occurrences each counted.
pub fn count_matches(s: &Vec<char>, p: &Vec<char>) -> (r: u128)
    ensures
        r as nat == match_count(s@, p@),
{
    let n = s.len();
    let plen = p.len();
    if plen > n {
        return 0;
    }
    let last = n - plen;
    let mut i: usize = 0;
    let mut count: u128 = 0;
    loop
        invariant_except_break
            count <= i,
            count + count_from(s@, p@, i as int) == count_from(s@, p@, 0),
        invariant
            n == s.len(),
            plen == p.len(),
            last == n - plen,
            i <= last,
        ensures
            count as nat == count_from(s@, p@, 0),
        decreases last - i,
    {
        if occurs_at(s, p, i) {
            count = count + 1;
        }
        if i == last {
            assert(count_from(s@, p@, i + 1) == 0);
            break;
        }
        i = i + 1;
    }
    count
}

/// The first index where `p` occurs in `s`.
pub fn find_first(s: &Vec<char>, p: &Vec<char>) -> (r: Option<usize>)
    ensures
        match r {
            Some(k) => first_match(s@, p@, 0) == Some(k as int),
            None => first_match(s@, p@, 0) is None,
        },
{
    let n = s.len();
    let plen = p.len();
    if plen > n {
        return None;
    }
    let last = n - plen;
    let mut i: usize = 0;
    loop
        invariant
            n == s.len(),
            plen == p.len(),
            last == n - plen,
            i <= last,
            first_match(s@, p@, 0) == first_match(s@, p@, i as int),
        decreases last - i,
    {
        if occurs_at(s, p, i) {
            return Some(i);
        }
        if i == last {
            assert(first_match(s@, p@, i + 1) is None);
            return None;
        }
        i = i + 1;
    }
}

/// `s` with its first occurrence of `p` replaced by `r`.
pub fn replace_first_chars(s: &Vec<char>, p: &Vec<char>, r: &Vec<char>) -> (out: Vec<char>)
    ensures
        out@ == replace_first(s@, p@, r@),
{
    match find_first(s, p) {
        None => s.clone(),
        Some(k) => {
            proof {
                assert(text::matches_at(s@, p@, k as int)) by {
                    lemma_first_match_matches(s@, p@, 0);
                }
            }
            let mut out: Vec<char> = Vec::new();
            let mut i: usize = 0;
            while i < k
                invariant
                    i <= k,
                    k + p.len() <= s.len(),
                    out@ =~= s@.take(i as int),
                decreases k - i,
            {
                out.push(s[i]);
                i = i + 1;
            }
            push_all(&mut out, r);
            let mut j: usize = k + p.len();
            while j < s.len()
                invariant
                    k + p.len() <= j <= s.len(),
                    out@ =~= s@.take(k as int) + r@ + s@.subrange(k + p.len(), j as int),
                decreases s.len() - j,
            {
                out.push(s[j]);
                j = j + 1;
            }
            assert(s@.subrange(k + p.len(), s.len() as int) =~= s@.skip(k + p.len()));
            out
        },
    }
}

/// A match that `first_match` finds is a match.
pub proof fn lemma_first_match_matches(s: Seq<char>, p: Seq<char>, i: int)
    ensures
        first_match(s, p, i) matches Some(k) ==> i <= k && text::matches_at(s, p, k),
    decreases s.len() + 1 - i,
{
    if i + p.len() <= s.len() && !text::matches_at(s, p, i) {
        lemma_first_match_matches(s, p, i + 1);
    }
}

} // verus!

verus! {

/// What `read_file` answers: the file's text, `(empty file)` for an empty
/// file, or the error that reading `full_path` gave.
pub fn read_file(read: Result<String, String>, full_path: &str) -> (r: String)
    ensures
        r@ == match read {
            Ok(c) => if c@.len() == 0 { "(empty file)"@ } else { c@ },
            Err(e) => "Error reading "@ + full_path@ + ": "@ + e@,
        },
{
    match read {
        Ok(c) => {
            if c.as_str().unicode_len() == 0 {
                String::from_str("(empty file)")
            } else {
                c
            }
        },
        Err(e) => {
            let mut out: Vec<char> = Vec::new();
            push_str(&mut out, "Error reading ");
            push_str(&mut out, full_path);
            push_str(&mut out, ": ");
            push_str(&mut out, e.as_str());
            string_of(&out)
        },
    }
}

/// What `create_file` answers, given how creating the parent directories and
/// then writing the file went (the write is not looked at when the
/// directories could not be made).
pub fn create_file(dirs: Result<(), String>, write: Result<(), String>, full_path: &str) -> (r: String)
    ensures
        r@ == match dirs {
            Err(e) => "Error creating directories: "@ + e@,
            Ok(_) => match write {
                Ok(_) => "Created: "@ + full_path@,
                Err(e) => "Error writing "@ + full_path@ + ": "@ + e@,
            },
        },
{
    let mut out: Vec<char> = Vec::new();
    match dirs {
        Err(e) => {
            push_str(&mut out, "Error creating directories: ");
            push_str(&mut out, e.as_str());
        },
        Ok(_) => match write {
            Ok(_) => {
                push_str(&mut out, "Created: ");
                push_str(&mut out, full_path);
            },
            Err(e) => {
                push_str(&mut out, "Error writing ");
                push_str(&mut out, full_path);
                push_str(&mut out, ": ");
                push_str(&mut out, e.as_str());
            },
        },
    }
    string_of(&out)
}

/// What an edit does next: write the new text, or answer with a message.
pub enum EditPlan {
    Write(String),
    Report(String),
}

/// The message for an `old_str` that does not occur in the file.
pub open spec fn not_found_message(path: Seq<char>) -> Seq<char> {
    "Error: old_str not found in "@ + path + ". Read the file first to see its current content."@
}

/// The message for an `old_str` that occurs `n` times in the file.
pub open spec fn ambiguous_message(n: nat, path: Seq<char>) -> Seq<char> {
    "Error: old_str found "@ + text::decimal(n) + " times in "@ + path + ". Make old_str more unique."@
}

/// The first step of `edit_file`, given how reading the file went: the edit
/// replaces `old_str` by `new_str` only where `old_str` occurs exactly once.
pub fn edit_file(read: Result<String, String>, path: &str, old_str: &str, new_str: &str, full_path: &str) -> (r: EditPlan)
    ensures
        match read {
            Err(e) => r matches EditPlan::Report(m) && m@ == "Error reading "@ + full_path@ + ": "@ + e@,
            Ok(c) => {
                let n = match_count(c@, old_str@);
                if n == 0 {
                    r matches EditPlan::Report(m) && m@ == not_found_message(path@)
                } else if n > 1 {
                    r matches EditPlan::Report(m) && m@ == ambiguous_message(n, path@)
                } else {
                    r matches EditPlan::Write(w) && w@ == replace_first(c@, old_str@, new_str@)
                }
            },
        },
{
    match read {
        Err(e) => {
            let mut out: Vec<char> = Vec::new();
            push_str(&mut out, "Error reading ");
            push_str(&mut out, full_path);
            push_str(&mut out, ": ");
            push_str(&mut out, e.as_str());
            EditPlan::Report(string_of(&out))
        },
        Ok(c) => {
            let content = chars_of(c.as_str());
            let old = chars_of(old_str);
            let n = count_matches(&content, &old);
            if n == 0 {
                let mut out: Vec<char> = Vec::new();
                push_str(&mut out, "Error: old_str not found in ");
                push_str(&mut out, path);
                push_str(&mut out, ". Read the file first to see its current content.");
                EditPlan::Report(string_of(&out))
            } else if n > 1 {
                let mut out: Vec<char> = Vec::new();
                push_str(&mut out, "Error: old_str found ");
                push_decimal(&mut out, n);
                push_str(&mut out, " times in ");
                push_str(&mut out, path);
                push_str(&mut out, ". Make old_str more unique.");
                EditPlan::Report(string_of(&out))
            } else {
                let new = chars_of(new_str);
                let updated = replace_first_chars(&content, &old, &new);
                EditPlan::Write(string_of(&updated))
            }
        },
    }
}

/// What `edit_file` answers once the new text was written (or not).
pub fn edit_written(write: Result<(), String>, full_path: &str) -> (r: String)
    ensures
        r@ == match write {
            Ok(_) => "Edited: "@ + full_path@,
            Err(e) => "Error writing "@ + full_path@ + ": "@ + e@,
        },
{
    let mut out: Vec<char> = Vec::new();
    match write {
        Ok(_) => {
            push_str(&mut out, "Edited: ");
            push_str(&mut out, full_path);
        },
        Err(e) => {
            push_str(&mut out, "Error writing ");
            push_str(&mut out, full_path);
            push_str(&mut out, ": ");
            push_str(&mut out, e.as_str());
        },
    }
    string_of(&out)
}

/// A call of one of the file tools, with its arguments read.
pub enum ToolRequest {
    ReadFile { path: String },
    CreateFile { path: String, content: String },
    EditFile { path: String, old_str: String, new_str: String },
    /// A tool that does not exist, with the answer to give.
    Unknown { message: String },
}

/// An argument that is absent (or not a string) counts as empty.
pub open spec fn arg_or_empty(a: Option<String>) -> Seq<char> {
    match a {
        Some(s) => s@,
        None => Seq::empty(),
    }
}

fn take_arg(a: Option<String>) -> (r: String)
    ensures
        r@ == arg_or_empty(a),
{
    match a {
        Some(s) => s,
        None => String::new(),
    }
}

/// Which tool a call names, with its string arguments (`path`, `content`,
/// `old_str`, `new_str`), each as found in the call's arguments.
pub fn execute_tool(
    name: &str,
    path: Option<String>,
    content: Option<String>,
    old_str: Option<String>,
    new_str: Option<String>,
) -> (r: ToolRequest)
    ensures
        name@ == "read_file"@ ==> (r matches ToolRequest::ReadFile { path: p } && p@ == arg_or_empty(path)),
        name@ == "create_file"@ ==> (r matches ToolRequest::CreateFile { path: p, content: c }
            && p@ == arg_or_empty(path) && c@ == arg_or_empty(content)),
        name@ == "edit_file"@ ==> (r matches ToolRequest::EditFile { path: p, old_str: o, new_str: n }
            && p@ == arg_or_empty(path) && o@ == arg_or_empty(old_str) && n@ == arg_or_empty(new_str)),
        name@ != "read_file"@ && name@ != "create_file"@ && name@ != "edit_file"@ ==> (
        r matches ToolRequest::Unknown { message: m } && m@ == "Unknown tool: "@ + name@),
{
    proof {
        reveal_strlit("read_file");
        reveal_strlit("create_file");
        reveal_strlit("edit_file");
        assert("read_file"@[0] != "edit_file"@[0]);
        assert("read_file"@.len() != "create_file"@.len());
        assert("edit_file"@.len() != "create_file"@.len());
    }
    let n = chars_of(name);
    if chars_eq(&n, &chars_of("read_file")) {
        ToolRequest::ReadFile { path: take_arg(path) }
    } else if chars_eq(&n, &chars_of("create_file")) {
        ToolRequest::CreateFile { path: take_arg(path), content: take_arg(content) }
    } else if chars_eq(&n, &chars_of("edit_file")) {
        ToolRequest::EditFile { path: take_arg(path), old_str: take_arg(old_str), new_str: take_arg(new_str) }
    } else {
        let mut out: Vec<char> = Vec::new();
        push_str(&mut out, "Unknown tool: ");
        push_str(&mut out, name);
        ToolRequest::Unknown { message: string_of(&out) }
    }
}

} // verus!
