use otask::chat::{
    answers_call, anthropic_parts, chat_round, offers_tools, edit_system_prompt, is_known_tool, is_web_search, max_rounds, plan_system_prompt,
    status_color, ChatReply, Message, RoundStep, StatusColor, ToolCallReply,
};

fn msg(role: &str, content: &str) -> Message {
    Message { role: role.to_string(), content: content.to_string() }
}

#[test]
fn anthropic_requests_take_the_system_prompt_apart() {
    let (rest, system) = anthropic_parts(&vec![msg("system", "be brief"), msg("user", "hi"), msg("system", "x")]);
    assert_eq!(system, "be brief");
    assert_eq!(rest.len(), 1);
    assert_eq!(rest[0].role, "user");
    assert_eq!(rest[0].content, "hi");
    let (rest, system) = anthropic_parts(&vec![msg("user", "a"), msg("assistant", "b")]);
    assert_eq!(system, "You are a helpful AI coding assistant.");
    assert_eq!(rest.len(), 2);
}

#[test]
fn a_reply_with_tool_calls_runs_them() {
    let reply = ChatReply {
        tool_calls: Some(vec![
            ToolCallReply { id: None, name: Some("read_file".to_string()), arguments: None },
            ToolCallReply {
                id: Some("c2".to_string()),
                name: None,
                arguments: Some("{\"path\":\"a\"}".to_string()),
            },
        ]),
        content: None,
    };
    match chat_round(&reply, "call_0", false) {
        RoundStep::RunTools(runs) => {
            assert_eq!(runs.len(), 2);
            assert_eq!(runs[0].call_id, "call_0");
            assert_eq!(runs[0].name, "read_file");
            assert_eq!(runs[0].arguments, "{}");
            assert_eq!(runs[1].call_id, "c2");
            assert_eq!(runs[1].name, "");
            assert_eq!(runs[1].arguments, "{\"path\":\"a\"}");
        }
        _ => panic!("expected tool runs"),
    }
}

#[test]
fn a_reply_without_tool_calls_is_the_answer() {
    let reply = ChatReply { tool_calls: Some(Vec::new()), content: Some("done".to_string()) };
    assert!(matches!(chat_round(&reply, "x", true), RoundStep::Finish(s) if s == "done"));
    let reply = ChatReply { tool_calls: None, content: Some("  {\"name\": \"read_file\"} ".to_string()) };
    assert!(matches!(chat_round(&reply, "x", false), RoundStep::Finish(s) if s == "  {\"name\": \"read_file\"} "));
    assert!(matches!(chat_round(&reply, "x", true), RoundStep::CheckText(s) if s == "{\"name\": \"read_file\"}"));
    let reply = ChatReply { tool_calls: None, content: None };
    assert!(matches!(chat_round(&reply, "x", false), RoundStep::Finish(s) if s.is_empty()));
}

#[test]
fn tools_and_rounds() {
    assert!(is_known_tool("read_file"));
    assert!(is_known_tool("create_file"));
    assert!(is_known_tool("edit_file"));
    assert!(!is_known_tool("web_search"));
    assert!(is_web_search("web_search"));
    assert_eq!(max_rounds(true), 3);
    assert_eq!(max_rounds(false), 10);
    assert!(plan_system_prompt().contains("PLAN mode"));
    let p = edit_system_prompt("/home/me");
    assert!(p.starts_with("You are an expert AI coding assistant in EDIT mode. The user's working directory is: /home/me\nYou have three file tools:"));
    assert!(p.ends_with("After making changes, summarise what you did concisely."));
}

#[test]
fn status_colours() {
    assert_eq!(status_color("connected \u{b7} gpt-oss-120b"), StatusColor::Green);
    assert_eq!(status_color("saved \u{2192} response_1.md"), StatusColor::Green);
    assert_eq!(status_color("copy failed: x"), StatusColor::Red);
    assert_eq!(status_color("unknown command: '/x'"), StatusColor::Red);
    assert_eq!(status_color("E: no file name"), StatusColor::Red);
    assert_eq!(status_color("edit mode"), StatusColor::Amber);
}

#[test]
fn rounds_and_answered_calls() {
    assert!(offers_tools(true, 2));
    assert!(!offers_tools(true, 3));
    assert!(offers_tools(false, 9));
    assert!(!offers_tools(false, 10));
    assert!(answers_call(true, "web_search"));
    assert!(!answers_call(true, "read_file"));
    assert!(answers_call(false, "anything"));
}
