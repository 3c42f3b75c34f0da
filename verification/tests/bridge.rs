use conductor::bridge::{
    build_args, is_rate_limit_error, mime_type_from_path, parse_claude_event, valid_models,
    validate_model, BridgeError, ClaudeSessionOptions,
};
use conductor::json::{JsonNumber, JsonValue};
use conductor::state::ClaudeEventType;

fn s(v: &str) -> JsonValue {
    JsonValue::Str(v.to_string())
}

fn obj(members: Vec<(&str, JsonValue)>) -> JsonValue {
    JsonValue::Object(members.into_iter().map(|(k, v)| (k.to_string(), v)).collect())
}

fn num(n: u64) -> JsonValue {
    JsonValue::Number(JsonNumber::PosInt(n))
}

fn make_options(model: &str) -> ClaudeSessionOptions {
    ClaudeSessionOptions {
        model: model.into(),
        max_turns: None,
        allowed_tools: None,
        append_system_prompt: None,
        cwd: None,
    }
}

#[test]
fn test_is_rate_limit_error() {
    assert!(is_rate_limit_error("Error 429: Too Many Requests"));
    assert!(is_rate_limit_error("rate limit exceeded"));
    assert!(is_rate_limit_error("too many requests"));
    assert!(is_rate_limit_error("rate_limit_error"));
    assert!(!is_rate_limit_error("normal error message"));
    assert!(!is_rate_limit_error(""));
}

#[test]
fn build_args_minimal() {
    let args = build_args(&make_options("sonnet"));
    assert!(args.contains(&"-p".to_string()));
    assert!(args.contains(&"stream-json".to_string()));
    assert!(args.contains(&"sonnet".to_string()));
    assert!(args.contains(&"bypassPermissions".to_string()));
    assert!(!args.contains(&"--max-turns".to_string()));
    assert!(!args.contains(&"--allowedTools".to_string()));
}

#[test]
fn build_args_with_max_turns() {
    let mut opts = make_options("opus");
    opts.max_turns = Some(10);
    let args = build_args(&opts);
    let idx = args.iter().position(|a| a == "--max-turns").unwrap();
    assert_eq!(args[idx + 1], "10");
}

#[test]
fn build_args_with_allowed_tools() {
    let mut opts = make_options("opus");
    opts.allowed_tools = Some(vec!["Read".into(), "Write".into()]);
    let args = build_args(&opts);
    let idx = args.iter().position(|a| a == "--allowedTools").unwrap();
    assert_eq!(args[idx + 1], "Read Write");
}

#[test]
fn build_args_with_system_prompt() {
    let mut opts = make_options("haiku");
    opts.append_system_prompt = Some("Be helpful".into());
    let args = build_args(&opts);
    let idx = args.iter().position(|a| a == "--append-system-prompt").unwrap();
    assert_eq!(args[idx + 1], "Be helpful");
}

#[test]
fn build_args_all_options() {
    let opts = ClaudeSessionOptions {
        model: "opus".into(),
        max_turns: Some(5),
        allowed_tools: Some(vec!["Bash".into()]),
        append_system_prompt: Some("Test prompt".into()),
        cwd: Some("/tmp".into()),
    };
    let args = build_args(&opts);
    assert!(args.contains(&"--max-turns".to_string()));
    assert!(args.contains(&"--allowedTools".to_string()));
    assert!(args.contains(&"--append-system-prompt".to_string()));
}

#[test]
fn build_args_exact_order() {
    let mut opts = make_options("opus");
    opts.max_turns = Some(12);
    opts.allowed_tools = Some(vec![]);
    let args = build_args(&opts);
    assert_eq!(
        args,
        vec![
            "-p",
            "--input-format",
            "stream-json",
            "--output-format",
            "stream-json",
            "--model",
            "opus",
            "--permission-mode",
            "bypassPermissions",
            "--max-turns",
            "12"
        ]
    );
}

#[test]
fn valid_models_accepted() {
    for model in valid_models() {
        assert!(validate_model(model).is_ok(), "expected {model} to be valid");
    }
}

#[test]
fn unknown_model_rejected() {
    let err = validate_model("gpt-4").unwrap_err();
    match err {
        BridgeError::UnknownModel(m, list) => {
            assert_eq!(m, "gpt-4");
            assert_eq!(list, "opus, sonnet, haiku");
        }
        _ => panic!("wrong error"),
    }
}

#[test]
fn parse_system_event() {
    let raw = obj(vec![("type", s("system")), ("subtype", s("init")), ("session_id", s("sess-123"))]);
    let events = parse_claude_event(&raw);
    assert_eq!(events.len(), 1);
    assert_eq!(events[0].event_type, ClaudeEventType::System);
    assert_eq!(events[0].subtype.as_deref(), Some("init"));
    assert_eq!(events[0].session_id.as_deref(), Some("sess-123"));
}

#[test]
fn parse_assistant_text() {
    let raw = obj(vec![
        ("type", s("assistant")),
        ("message", obj(vec![("content", JsonValue::Array(vec![obj(vec![("type", s("text")), ("text", s("Hello world"))])]))])),
    ]);
    let events = parse_claude_event(&raw);
    assert_eq!(events.len(), 1);
    assert_eq!(events[0].event_type, ClaudeEventType::Assistant);
    assert_eq!(events[0].subtype.as_deref(), Some("text"));
    assert_eq!(events[0].message.as_deref(), Some("Hello world"));
}

#[test]
fn parse_assistant_multiple_blocks() {
    let raw = obj(vec![
        ("type", s("assistant")),
        (
            "message",
            obj(vec![(
                "content",
                JsonValue::Array(vec![
                    obj(vec![("type", s("text")), ("text", s("Here's what I'll do"))]),
                    obj(vec![("type", s("tool_use")), ("name", s("Read")), ("input", obj(vec![("path", s("/tmp/file"))]))]),
                ]),
            )]),
        ),
    ]);
    let events = parse_claude_event(&raw);
    assert_eq!(events.len(), 2);
    assert_eq!(events[0].event_type, ClaudeEventType::Assistant);
    assert_eq!(events[1].event_type, ClaudeEventType::ToolUse);
    assert_eq!(events[1].tool_name.as_deref(), Some("Read"));
    assert!(events[1].tool_input.is_some());
}

#[test]
fn parse_assistant_thinking() {
    let raw = obj(vec![
        ("type", s("assistant")),
        ("message", obj(vec![("content", JsonValue::Array(vec![obj(vec![("type", s("thinking")), ("thinking", s("Let me consider..."))])]))])),
    ]);
    let events = parse_claude_event(&raw);
    assert_eq!(events.len(), 1);
    assert_eq!(events[0].subtype.as_deref(), Some("thinking"));
    assert_eq!(events[0].message.as_deref(), Some("[Thinking...]"));
}

#[test]
fn parse_assistant_empty_content() {
    let raw = obj(vec![("type", s("assistant")), ("message", obj(vec![("content", JsonValue::Array(vec![]))]))]);
    assert!(parse_claude_event(&raw).is_empty());
}

#[test]
fn parse_tool_result() {
    let raw = obj(vec![("type", s("user")), ("tool_use_result", obj(vec![("stdout", s("file contents here"))]))]);
    let events = parse_claude_event(&raw);
    assert_eq!(events.len(), 1);
    assert_eq!(events[0].event_type, ClaudeEventType::ToolResult);
    assert_eq!(events[0].tool_result_content.as_deref(), Some("file contents here"));
}

#[test]
fn parse_result_event() {
    let raw = obj(vec![
        ("type", s("result")),
        ("subtype", s("success")),
        ("result", s("Task completed")),
        ("duration_ms", num(3000)),
        ("duration_api_ms", num(2500)),
        ("num_turns", num(3)),
        ("is_error", JsonValue::Bool(false)),
    ]);
    let events = parse_claude_event(&raw);
    assert_eq!(events.len(), 1);
    let ev = &events[0];
    assert_eq!(ev.event_type, ClaudeEventType::Result);
    assert_eq!(ev.result.as_deref(), Some("Task completed"));
    assert_eq!(ev.duration_ms, Some(3000));
    assert_eq!(ev.num_turns, Some(3));
    assert_eq!(ev.is_error, Some(false));
}

#[test]
fn parse_rate_limit_blocked() {
    let raw = obj(vec![
        ("type", s("rate_limit_event")),
        (
            "rate_limit_info",
            obj(vec![("status", s("rate_limited")), ("rateLimitType", s("token")), ("resetsAt", num(1700000000))]),
        ),
    ]);
    let events = parse_claude_event(&raw);
    assert_eq!(events.len(), 1);
    assert_eq!(events[0].event_type, ClaudeEventType::Error);
    assert_eq!(events[0].subtype.as_deref(), Some("rate_limit"));
    assert_eq!(events[0].message.as_deref(), Some("Rate limited (token)"));
    assert_eq!(events[0].resets_at.as_deref(), Some("2023-11-14T22:13:20+00:00"));
}

#[test]
fn parse_rate_limit_info() {
    let raw = obj(vec![("type", s("rate_limit_event")), ("rate_limit_info", obj(vec![("status", s("ok"))]))]);
    let events = parse_claude_event(&raw);
    assert_eq!(events.len(), 1);
    assert_eq!(events[0].event_type, ClaudeEventType::System);
    assert_eq!(events[0].subtype.as_deref(), Some("rate_limit_info"));
    assert!(events[0].resets_at.is_none());
}

#[test]
fn parse_unknown_type() {
    let raw = obj(vec![("type", s("banana"))]);
    assert!(parse_claude_event(&raw).is_empty());
}

#[test]
fn parse_missing_type() {
    assert!(parse_claude_event(&JsonValue::Null).is_empty());
}

#[test]
fn mime_types_by_extension() {
    assert_eq!(mime_type_from_path("/a/b.PNG"), "image/png");
    assert_eq!(mime_type_from_path("/a/b.jpeg"), "image/jpeg");
    assert_eq!(mime_type_from_path("/a/b.JPG"), "image/jpeg");
    assert_eq!(mime_type_from_path("x.gif"), "image/gif");
    assert_eq!(mime_type_from_path("x.webp"), "image/webp");
    assert_eq!(mime_type_from_path("x.bmp"), "image/bmp");
    assert_eq!(mime_type_from_path("x.svg"), "image/svg+xml");
    assert_eq!(mime_type_from_path("x.tiff"), "image/tiff");
    assert_eq!(mime_type_from_path("x.tif"), "image/tiff");
    assert_eq!(mime_type_from_path("x.txt"), "image/png");
    assert_eq!(mime_type_from_path("noext"), "image/png");
}

#[test]
fn parse_tool_use() {
    let raw = obj(vec![
        ("type", s("assistant")),
        (
            "message",
            obj(vec![(
                "content",
                JsonValue::Array(vec![obj(vec![
                    ("type", s("tool_use")),
                    ("name", s("Write")),
                    ("input", obj(vec![("path", s("/tmp/out")), ("content", s("hi"))])),
                ])]),
            )]),
        ),
    ]);
    let events = parse_claude_event(&raw);
    assert_eq!(events.len(), 1);
    assert_eq!(events[0].event_type, ClaudeEventType::ToolUse);
    assert_eq!(events[0].tool_name.as_deref(), Some("Write"));
    assert!(events[0].tool_input.is_some());
}
