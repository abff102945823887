use otask::calls::{
    push_text_call, push_tool_round, search_query, start_conversation, text_tool_call, tool_argument, tool_request,
    ConvEntry,
};
use otask::chat::{Message, ToolRun};
use otask::tools::ToolRequest;

#[test]
fn a_tool_call_written_in_text_is_read() {
    let call = text_tool_call(r#"{"name":"read_file","arguments":{"path":"src/a.rs"}}"#).expect("a call");
    assert_eq!(call.call_id, "call_fallback_0");
    assert_eq!(call.name, "read_file");
    assert_eq!(call.arguments, r#"{"path":"src/a.rs"}"#);
    assert!(text_tool_call(r#"{"name":"web_search","arguments":{}}"#).is_none());
    assert!(text_tool_call("just an answer").is_none());
    assert!(text_tool_call(r#"{"name":3}"#).is_none());
    let bare = text_tool_call(r#"{"name":"edit_file"}"#).expect("a call");
    assert_eq!(bare.arguments, "null");
}

#[test]
fn arguments_are_read_as_strings() {
    assert_eq!(tool_argument(r#"{"path":"x","n":2}"#, "path"), Some("x".to_string()));
    assert_eq!(tool_argument(r#"{"path":"x","n":2}"#, "n"), None);
    assert_eq!(tool_argument("not json", "path"), None);
    assert_eq!(search_query(r#"{"query":"rust 2024"}"#), "rust 2024");
    assert_eq!(search_query("{}"), "");
    match tool_request("edit_file", r#"{"path":"a","old_str":"x","new_str":"y"}"#) {
        ToolRequest::EditFile { path, old_str, new_str } => {
            assert_eq!((path.as_str(), old_str.as_str(), new_str.as_str()), ("a", "x", "y"))
        }
        _ => panic!("expected an edit"),
    }
    match tool_request("create_file", "null") {
        ToolRequest::CreateFile { path, content } => assert!(path.is_empty() && content.is_empty()),
        _ => panic!("expected a create"),
    }
    match tool_request("rm", "{}") {
        ToolRequest::Unknown { message } => assert_eq!(message, "Unknown tool: rm"),
        _ => panic!("expected an unknown tool"),
    }
}

fn run(id: &str, name: &str) -> ToolRun {
    ToolRun { call_id: id.to_string(), name: name.to_string(), arguments: "{}".to_string() }
}

#[test]
fn rounds_extend_the_conversation() {
    let history = vec![Message { role: "user".to_string(), content: "hi".to_string() }];
    let mut conv = start_conversation("sys", &history);
    assert_eq!(conv.len(), 2);
    assert!(matches!(&conv[0], ConvEntry::Said { role, content } if role == "system" && content == "sys"));
    assert!(matches!(&conv[1], ConvEntry::Said { role, content } if role == "user" && content == "hi"));
    let runs = vec![run("c1", "read_file"), run("c2", "web_search")];
    push_tool_round(&mut conv, "{}".to_string(), &runs, &vec![Some("text".to_string()), None]);
    assert_eq!(conv.len(), 4);
    assert!(matches!(&conv[2], ConvEntry::Reply { raw } if raw == "{}"));
    assert!(matches!(&conv[3], ConvEntry::Answer { call_id, content } if call_id == "c1" && content == "text"));
    push_text_call(&mut conv, &run("call_fallback_0", "read_file"), "done".to_string());
    assert_eq!(conv.len(), 6);
    assert!(matches!(&conv[4], ConvEntry::Call { call_id, name, .. } if call_id == "call_fallback_0" && name == "read_file"));
    assert!(matches!(&conv[5], ConvEntry::Answer { content, .. } if content == "done"));
}
