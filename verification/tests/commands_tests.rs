use otask::commands::{parse_command, Command, ProviderKind};

#[test]
fn commands_are_read_from_the_input_line() {
    assert!(matches!(parse_command("/connect cerebras k1"),
        Command::Connect { provider: ProviderKind::Cerebras, api_key, model: None } if api_key == "k1"));
    assert!(matches!(parse_command("/connect anthropic k2"),
        Command::Connect { provider: ProviderKind::Anthropic, api_key, model: None } if api_key == "k2"));
    assert!(matches!(parse_command("/connect codex k3"),
        Command::Connect { provider: ProviderKind::Codex, api_key, model: None } if api_key == "k3"));
    assert!(matches!(parse_command("/connect x y"), Command::UnknownProvider { name } if name == "x"));
    assert!(matches!(parse_command("/connect cerebras k1 llama3.1-8b"),
        Command::Connect { provider: ProviderKind::Cerebras, api_key, model: Some(m) } if api_key == "k1" && m == "llama3.1-8b"));
    assert!(matches!(parse_command("/connect anthropic k1 m1"),
        Command::Connect { provider: ProviderKind::Anthropic, api_key, model: Some(m) } if api_key == "k1" && m == "m1"));
    assert!(matches!(parse_command("/connect openai k1 m1"), Command::UnknownProvider { name } if name == "openai"));
    assert!(matches!(parse_command("/connect"), Command::ConnectUsage));
    assert!(matches!(parse_command("/models"), Command::Models));
    assert!(matches!(parse_command("/model"), Command::Models));
    assert!(matches!(parse_command("/exa key"), Command::Exa { key } if key == "key"));
    assert!(matches!(parse_command("/exa"), Command::Unknown));
    assert!(matches!(parse_command("/new"), Command::New));
    assert!(matches!(parse_command("/edit"), Command::EditPrompt));
    assert!(matches!(parse_command("/edit a b.rs"), Command::Unknown));
    assert!(matches!(parse_command("/edit src/a.rs"), Command::EditFile { path } if path == "src/a.rs"));
    assert!(matches!(parse_command("/help"), Command::Help));
    assert!(matches!(parse_command("/help me"), Command::Unknown));
}

#[test]
fn pieces_are_split_at_single_spaces() {
    assert!(matches!(parse_command("/connect  cerebras"), Command::UnknownProvider { name } if name.is_empty()));
    assert!(matches!(parse_command("/exa a b c d"), Command::Unknown));
}
