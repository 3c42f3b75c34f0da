use conductor::json::JsonValue;
use conductor::tool_summary::summarize_tool_use;

fn obj1(k: &str, v: &str) -> JsonValue {
    JsonValue::Object(vec![(k.to_string(), JsonValue::Str(v.to_string()))])
}

#[test]
fn summarizes_read_with_file_path() {
    let input = obj1("file_path", "/src/main.ts");
    assert_eq!(summarize_tool_use("Read", Some(&input)), "Reading /src/main.ts");
}

#[test]
fn summarizes_write_with_file_path() {
    let input = obj1("file_path", "/src/new.ts");
    assert_eq!(summarize_tool_use("Write", Some(&input)), "Writing /src/new.ts");
}

#[test]
fn summarizes_edit_with_file_path() {
    let input = obj1("file_path", "/src/fix.ts");
    assert_eq!(summarize_tool_use("Edit", Some(&input)), "Editing /src/fix.ts");
}

#[test]
fn summarizes_glob_with_pattern() {
    let input = obj1("pattern", "**/*.ts");
    assert_eq!(summarize_tool_use("Glob", Some(&input)), "Searching files: **/*.ts");
}

#[test]
fn summarizes_grep_with_pattern() {
    let input = obj1("pattern", "TODO");
    assert_eq!(summarize_tool_use("Grep", Some(&input)), "Searching code: TODO");
}

#[test]
fn summarizes_bash_with_command_truncation() {
    let long_cmd = "a".repeat(100);
    let input = obj1("command", &long_cmd);
    let result = summarize_tool_use("Bash", Some(&input));
    assert_eq!(result, format!("Running: {}", "a".repeat(60)));
}

#[test]
fn handles_unknown_tools() {
    let input = JsonValue::Object(vec![]);
    assert_eq!(summarize_tool_use("CustomTool", Some(&input)), "CustomTool");
}

#[test]
fn handles_none_input() {
    assert_eq!(summarize_tool_use("Read", None), "Reading file");
}
