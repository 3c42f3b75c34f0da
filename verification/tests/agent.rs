use conductor::agent::{extract_json_block, sanitize_json};

#[test]
fn extract_json_block_fenced() {
    let text = "Here is the plan:\n```json\n{\"summary\": \"test\"}\n```\nDone.";
    let block = extract_json_block(text).unwrap();
    assert_eq!(block, "{\"summary\": \"test\"}");
}

#[test]
fn extract_json_block_no_fence_fallback() {
    let text = "Some text {\"action\": \"continue\"} more text";
    let block = extract_json_block(text).unwrap();
    assert_eq!(block, "{\"action\": \"continue\"}");
}

#[test]
fn extract_json_block_nested() {
    let text = "result: {\"a\": {\"b\": 1}, \"c\": 2}";
    let block = extract_json_block(text).unwrap();
    let parsed: serde_json::Value = serde_json::from_str(block).unwrap();
    assert_eq!(parsed["a"]["b"], 1);
    assert_eq!(parsed["c"], 2);
}

#[test]
fn extract_json_block_with_strings_containing_braces() {
    let text = r#"{"msg": "hello {world}"}"#;
    let block = extract_json_block(text).unwrap();
    let parsed: serde_json::Value = serde_json::from_str(block).unwrap();
    assert_eq!(parsed["msg"], "hello {world}");
}

#[test]
fn extract_json_block_none() {
    assert!(extract_json_block("no json here").is_none());
}

#[test]
fn extract_json_block_plain_fence() {
    let text = "Here is the result:\n```\n{\"summary\": \"test\", \"modules\": []}\n```\nDone.";
    let block = extract_json_block(text).unwrap();
    assert_eq!(block, r#"{"summary": "test", "modules": []}"#);
}

#[test]
fn extract_json_block_plain_fence_skips_non_json() {
    let text = "```\nsome code\n```\n\n```\n{\"key\": \"value\"}\n```";
    let block = extract_json_block(text).unwrap();
    assert_eq!(block, r#"{"key": "value"}"#);
}

#[test]
fn extract_json_block_empty_fence_falls_back() {
    let text = "```json\n   \n``` then {\"k\": 1}";
    assert_eq!(extract_json_block(text).unwrap(), "{\"k\": 1}");
}

#[test]
fn sanitize_json_strips_comments() {
    let input = "{\n// comment\n\"key\": \"value\"\n}";
    let sanitized = sanitize_json(input);
    let parsed: serde_json::Value = serde_json::from_str(&sanitized).unwrap();
    assert_eq!(parsed["key"], "value");
}

#[test]
fn sanitize_json_strips_trailing_commas() {
    let input = r#"{"a": 1, "b": 2, }"#;
    let sanitized = sanitize_json(input);
    let parsed: serde_json::Value = serde_json::from_str(&sanitized).unwrap();
    assert_eq!(parsed["a"], 1);
}

#[test]
fn sanitize_json_preserves_comments_in_strings() {
    let input = r#"{"url": "https://example.com//path"}"#;
    let sanitized = sanitize_json(input);
    let parsed: serde_json::Value = serde_json::from_str(&sanitized).unwrap();
    assert_eq!(parsed["url"], "https://example.com//path");
}

#[test]
fn sanitize_json_exact_output() {
    assert_eq!(sanitize_json("\u{feff} [1, 2,\n ] "), "[1, 2\n ]");
}

#[test]
fn display_lines_hide_json_blocks() {
    let (shown, open) = conductor::agent::display_lines("Planning now\n\n```json\n{\"a\": 1}\n```\n  Done  ", false);
    assert_eq!(shown, vec!["Planning now".to_string(), "Done".to_string()]);
    assert!(!open);
    let (first, open1) = conductor::agent::display_lines("Intro\n```json\n{", false);
    assert_eq!(first, vec!["Intro".to_string()]);
    assert!(open1);
    let (second, open2) = conductor::agent::display_lines("}\n```\nAfter", open1);
    assert_eq!(second, vec!["After".to_string()]);
    assert!(!open2);
}
