use otask::tools::{count_matches, create_file, edit_file, edit_written, execute_tool, find_first, read_file, replace_first_chars, EditPlan, ToolRequest};

fn chars(s: &str) -> Vec<char> {
    s.chars().collect()
}

#[test]
fn matches_are_counted_without_overlap() {
    assert_eq!(count_matches(&chars("aaaa"), &chars("aa")), 3);
    assert_eq!(count_matches(&chars("aaa"), &chars("aa")), 2);
    assert_eq!(count_matches(&chars("abab"), &chars("ab")), 2);
    assert_eq!(count_matches(&chars("abc"), &chars("x")), 0);
    assert_eq!(find_first(&chars("xyzyz"), &chars("yz")), Some(1));
    assert_eq!(find_first(&chars("xyz"), &chars("q")), None);
}

#[test]
fn the_first_match_is_replaced() {
    let out = replace_first_chars(&chars("one two one"), &chars("one"), &chars("1"));
    assert_eq!(out.iter().collect::<String>(), "1 two one");
}

#[test]
fn reading_a_file() {
    assert_eq!(read_file(Ok("text".to_string()), "/w/a"), "text");
    assert_eq!(read_file(Ok(String::new()), "/w/a"), "(empty file)");
    assert_eq!(read_file(Err("No such file".to_string()), "/w/a"), "Error reading /w/a: No such file");
}

#[test]
fn creating_a_file() {
    assert_eq!(create_file(Ok(()), Ok(()), "/w/b"), "Created: /w/b");
    assert_eq!(create_file(Err("denied".to_string()), Ok(()), "/w/b"), "Error creating directories: denied");
    assert_eq!(create_file(Ok(()), Err("full".to_string()), "/w/b"), "Error writing /w/b: full");
}

#[test]
fn editing_a_file() {
    match edit_file(Ok("let a = 1;\nlet b = 2;".to_string()), "x.rs", "b = 2", "b = 3", "/w/x.rs") {
        EditPlan::Write(t) => assert_eq!(t, "let a = 1;\nlet b = 3;"),
        EditPlan::Report(m) => panic!("{}", m),
    }
    match edit_file(Ok("abc".to_string()), "x.rs", "zz", "y", "/w/x.rs") {
        EditPlan::Report(m) => {
            assert_eq!(m, "Error: old_str not found in x.rs. Read the file first to see its current content.")
        }
        EditPlan::Write(_) => panic!("nothing to replace"),
    }
    match edit_file(Ok("a a a".to_string()), "x.rs", "a", "b", "/w/x.rs") {
        EditPlan::Report(m) => assert_eq!(m, "Error: old_str found 3 times in x.rs. Make old_str more unique."),
        EditPlan::Write(_) => panic!("ambiguous"),
    }
    match edit_file(Ok("aaa".to_string()), "f.txt", "aa", "b", "/w/f.txt") {
        EditPlan::Report(m) => assert_eq!(m, "Error: old_str found 2 times in f.txt. Make old_str more unique."),
        EditPlan::Write(_) => panic!("overlapping occurrences are two"),
    }
    match edit_file(Err("gone".to_string()), "x.rs", "a", "b", "/w/x.rs") {
        EditPlan::Report(m) => assert_eq!(m, "Error reading /w/x.rs: gone"),
        EditPlan::Write(_) => panic!("unreadable"),
    }
    assert_eq!(edit_written(Ok(()), "/w/x.rs"), "Edited: /w/x.rs");
    assert_eq!(edit_written(Err("ro".to_string()), "/w/x.rs"), "Error writing /w/x.rs: ro");
}

#[test]
fn tool_calls_are_read() {
    match execute_tool("read_file", Some("a".to_string()), None, None, None) {
        ToolRequest::ReadFile { path } => assert_eq!(path, "a"),
        _ => panic!("read_file"),
    }
    match execute_tool("create_file", Some("a".to_string()), None, None, None) {
        ToolRequest::CreateFile { path, content } => {
            assert_eq!(path, "a");
            assert_eq!(content, "");
        }
        _ => panic!("create_file"),
    }
    match execute_tool("edit_file", None, None, Some("o".to_string()), Some("n".to_string())) {
        ToolRequest::EditFile { path, old_str, new_str } => {
            assert_eq!(path, "");
            assert_eq!(old_str, "o");
            assert_eq!(new_str, "n");
        }
        _ => panic!("edit_file"),
    }
    match execute_tool("delete_file", None, None, None, None) {
        ToolRequest::Unknown { message } => assert_eq!(message, "Unknown tool: delete_file"),
        _ => panic!("unknown"),
    }
}
