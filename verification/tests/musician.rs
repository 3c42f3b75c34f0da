use conductor::bridge::empty_event;
use conductor::events::ClaudeEvent;
use conductor::json::JsonValue;
use conductor::musician::{
    begin_execution, build_musician_prompt, finish_execution, on_session_event, prepare_session,
    Execution, Musician, MusicianNotice, OUTPUT_BUFFER_MAX_CHARS, OUTPUT_BUFFER_SIZE,
};
use conductor::state::{ClaudeEventType, MusicianStatus, Task, TaskStatus, TokenUsage};
use conductor::token_estimate::TokenCalibration;

fn make_task() -> Task {
    Task {
        id: "t1".into(),
        index: 0,
        title: "Test task".into(),
        description: "Do a thing".into(),
        why: "Testing".into(),
        file_scope: vec!["src/main.rs".into()],
        dependencies: vec![],
        acceptance_criteria: vec!["It works".into()],
        estimated_turns: 5,
        model: None,
        status: TaskStatus::Queued,
        assigned_musician: None,
        result: None,
    }
}

#[test]
fn new_musician_is_idle() {
    let m = Musician::new("m1".into(), 0, "sonnet".into(), 50);
    let state = m.get_state();
    assert_eq!(state.id, "m1");
    assert_eq!(state.index, 0);
    assert_eq!(state.status, MusicianStatus::Idle);
    assert!(state.current_task.is_none());
    assert!(state.output_lines.is_empty());
}

#[test]
fn set_model_override() {
    let mut m = Musician::new("m1".into(), 0, "sonnet".into(), 50);
    assert_eq!(m.model, "sonnet");
    m.set_model_override("opus");
    assert_eq!(m.model, "opus");
    assert_eq!(m.original_model, "sonnet");
}

#[test]
fn reset_restores_original_model() {
    let mut m = Musician::new("m1".into(), 0, "sonnet".into(), 50);
    m.set_model_override("opus");
    m.reset();
    assert_eq!(m.model, "sonnet");
    assert_eq!(m.get_state().status, MusicianStatus::Idle);
    assert!(m.get_state().current_task.is_none());
}

#[test]
fn pause_sets_status() {
    let mut m = Musician::new("m1".into(), 0, "sonnet".into(), 50);
    m.pause();
    assert_eq!(m.get_state().status, MusicianStatus::Paused);
}

#[test]
fn set_waiting_with_deps() {
    let mut m = Musician::new("m1".into(), 0, "sonnet".into(), 50);
    let mut task = make_task();
    task.dependencies = vec![1, 3];
    m.set_waiting(task);
    let state = m.get_state();
    assert_eq!(state.status, MusicianStatus::Waiting);
    assert!(state.output_lines[0].contains("Task 2"));
    assert!(state.output_lines[0].contains("Task 4"));
    assert_eq!(state.output_lines[0], "Waiting for dependencies: Task 2, Task 4");
}

#[test]
fn is_interactive_no_session() {
    let m = Musician::new("m1".into(), 0, "sonnet".into(), 50);
    assert!(!m.is_interactive());
}

#[test]
fn push_output_respects_line_limit() {
    let mut m = Musician::new("m1".into(), 0, "sonnet".into(), 50);
    for i in 0..250 {
        m.push_output(&format!("line {i}"));
    }
    assert_eq!(m.state.output_lines.len(), OUTPUT_BUFFER_SIZE);
    assert!(m.state.output_lines.last().unwrap().contains("249"));
    assert!(m.state.output_lines.first().unwrap().contains("50"));
}

#[test]
fn push_output_respects_char_limit() {
    let mut m = Musician::new("m1".into(), 0, "sonnet".into(), 50);
    let big_line = "x".repeat(10_000);
    for _ in 0..15 {
        m.push_output(&big_line);
    }
    let total: usize = m.state.output_lines.iter().map(|l| l.len()).sum();
    assert!(total <= OUTPUT_BUFFER_MAX_CHARS);
    assert_eq!(m.state.output_lines.len(), 10);
}

#[test]
fn push_output_keeps_one_oversized_line() {
    let mut m = Musician::new("m1".into(), 0, "sonnet".into(), 50);
    let huge = "y".repeat(OUTPUT_BUFFER_MAX_CHARS + 1);
    m.push_output("small");
    m.push_output(&huge);
    assert_eq!(m.state.output_lines.len(), 1);
    assert_eq!(m.state.output_lines[0].len(), OUTPUT_BUFFER_MAX_CHARS + 1);
}

#[test]
fn push_output_splits_multiline() {
    let mut m = Musician::new("m1".into(), 0, "sonnet".into(), 50);
    m.push_output("line1\nline2\nline3");
    assert_eq!(m.state.output_lines.len(), 3);
    assert_eq!(m.state.output_lines[0], "line1");
    assert_eq!(m.state.output_lines[2], "line3");
}

#[test]
fn push_external_output_adds_line() {
    let mut m = Musician::new("m1".into(), 0, "sonnet".into(), 50);
    m.push_external_output("external message");
    assert_eq!(m.state.output_lines.len(), 1);
    assert_eq!(m.state.output_lines[0], "external message");
}

#[test]
fn build_prompt_includes_task_details() {
    let task = make_task();
    let prompt = build_musician_prompt(&task, "", "AGENTS.md");
    assert!(prompt.contains("**Test task**"));
    assert!(prompt.contains("Do a thing"));
    assert!(prompt.contains("src/main.rs"));
    assert!(prompt.contains("1. It works"));
    assert!(prompt.contains("Musician agent"));
    assert!(!prompt.contains("Project Conventions"));
    assert!(prompt.contains("   a. Run `npm run typecheck`"));
}

#[test]
fn build_prompt_includes_conventions_when_given() {
    let task = make_task();
    let prompt = build_musician_prompt(&task, "Use tabs.", "AGENTS.md");
    assert!(prompt.contains("## Project Conventions\nFollow these project conventions from AGENTS.md:\n\nUse tabs.\n\n---\n\n## File Scope"));
}

fn event(t: ClaudeEventType) -> ClaudeEvent {
    empty_event(t)
}

#[test]
fn session_events_build_the_result() {
    let mut m = Musician::new("m1".into(), 0, "sonnet".into(), 50);
    begin_execution(&mut m, make_task(), "/wt", "b1", "2026-01-01T00:00:00Z".into());
    let cal = TokenCalibration::new();
    let mut x = Execution::new(false);
    let (prompt, options) = prepare_session(&mut m, false, "", "AGENTS.md", Some("notes".into()), "/wt");
    assert!(prompt.contains("**Test task**"));
    assert_eq!(options.append_system_prompt.as_deref(), Some("\n\n# Shared Memory (from other musicians)\nnotes"));
    assert!(options.allowed_tools.is_none());

    let mut e = event(ClaudeEventType::Assistant);
    e.message = Some("hello there".into());
    let out = on_session_event(&mut m, &mut x, &e, &cal, None, 10);
    assert!(matches!(out.notices[0], MusicianNotice::Output(ref s) if s == "hello there"));
    assert!(matches!(out.notices[1], MusicianNotice::StatusChange));
    assert_eq!(m.state.token_usage.output, 3);

    let mut e = event(ClaudeEventType::ToolUse);
    e.tool_name = Some("Write".into());
    e.tool_input = Some(JsonValue::Object(vec![("file_path".into(), JsonValue::Str("src/a.rs".into()))]));
    on_session_event(&mut m, &mut x, &e, &cal, Some(24), 20);
    assert_eq!(x.files_modified, vec!["src/a.rs".to_string()]);
    assert_eq!(x.turn_count, 1);
    assert_eq!(m.state.output_lines.last().unwrap(), "> Writing src/a.rs");

    let mut e = event(ClaudeEventType::ToolUse);
    e.tool_name = Some("Bash".into());
    e.tool_input = Some(JsonValue::Object(vec![("command".into(), JsonValue::Str("git commit -m x".into()))]));
    on_session_event(&mut m, &mut x, &e, &cal, None, 30);
    let cp = m.state.checkpoint.as_ref().unwrap();
    assert_eq!(cp.turn_number, 2);
    assert_eq!(cp.files_modified, vec!["src/a.rs".to_string()]);

    let mut e = event(ClaudeEventType::Result);
    e.usage = Some(TokenUsage { input: 100, output: 50, cache_read: 0, cache_creation: 0 });
    let out = on_session_event(&mut m, &mut x, &e, &cal, None, 40);
    assert!(matches!(out.notices[0], MusicianNotice::Calibrate { tokens: 150, .. }));
    assert!(matches!(out.notices[1], MusicianNotice::CloseSession));
    assert_eq!(m.state.tokens_used, 150);
    assert!(!m.state.tokens_estimated);

    let r = finish_execution(&mut m, &x, 50);
    assert!(r.success);
    assert_eq!(r.summary, "hello there");
    assert_eq!(r.tokens_used, 150);
    assert_eq!(r.duration_ms, 50);
    assert_eq!(m.state.status, MusicianStatus::Completed);
}

#[test]
fn rate_limit_error_ends_the_task() {
    let mut m = Musician::new("m1".into(), 0, "sonnet".into(), 50);
    begin_execution(&mut m, make_task(), "/wt", "b1", "now".into());
    let cal = TokenCalibration::new();
    let x0 = Execution::new(true);
    let mut x = x0;
    let mut e = event(ClaudeEventType::Error);
    e.subtype = Some("rate_limit".into());
    let out = on_session_event(&mut m, &mut x, &e, &cal, None, 7);
    let r = out.finished.unwrap();
    assert!(!r.success);
    assert_eq!(r.summary, "Rate limited — paused for resume");
    assert_eq!(r.error.as_deref(), Some("rate_limited"));
    assert_eq!(m.state.status, MusicianStatus::Paused);
    assert!(matches!(out.notices[1], MusicianNotice::RateLimit));
}

#[test]
fn session_without_result_fails() {
    let mut m = Musician::new("m1".into(), 0, "sonnet".into(), 50);
    let x = Execution::new(false);
    let r = finish_execution(&mut m, &x, 3);
    assert!(!r.success);
    assert_eq!(r.summary, "Session closed unexpectedly");
    assert_eq!(r.error.as_deref(), Some("Session closed without successful result"));
    assert_eq!(m.state.status, MusicianStatus::Failed);
}

#[test]
fn read_only_session_uses_description_and_limited_tools() {
    let mut m = Musician::new("m2".into(), 1, "haiku".into(), 10);
    begin_execution(&mut m, make_task(), "/wt2", "b2", "now".into());
    let (prompt, options) = prepare_session(&mut m, true, "ignored", "AGENTS.md", Some("mem".into()), "/wt2");
    assert_eq!(prompt, "Do a thing");
    assert!(options.append_system_prompt.is_none());
    assert_eq!(options.allowed_tools.unwrap().len(), 5);
    assert_eq!(options.max_turns, Some(10));
    assert_eq!(m.state.prompt_sent.as_deref(), Some("Do a thing"));
}

#[test]
fn ensure_musicians_creates_correct_count() {
    let mut musicians: Vec<Option<Musician>> = Vec::new();
    let mut states = Vec::new();
    conductor::musician::ensure_musicians(&mut musicians, &mut states, 3, "sonnet", 50);
    assert_eq!(musicians.len(), 3);
    assert_eq!(states.len(), 3);
    assert_eq!(musicians[0].as_ref().unwrap().get_state().id, "m1");
    assert_eq!(musicians[2].as_ref().unwrap().get_state().id, "m3");
}

#[test]
fn ensure_musicians_is_idempotent() {
    let mut musicians: Vec<Option<Musician>> = Vec::new();
    let mut states = Vec::new();
    conductor::musician::ensure_musicians(&mut musicians, &mut states, 3, "sonnet", 50);
    conductor::musician::ensure_musicians(&mut musicians, &mut states, 3, "sonnet", 50);
    assert_eq!(musicians.len(), 3);
}

#[test]
fn ensure_musicians_can_grow() {
    let mut musicians: Vec<Option<Musician>> = Vec::new();
    let mut states = Vec::new();
    conductor::musician::ensure_musicians(&mut musicians, &mut states, 2, "sonnet", 50);
    assert_eq!(musicians.len(), 2);
    conductor::musician::ensure_musicians(&mut musicians, &mut states, 5, "sonnet", 50);
    assert_eq!(musicians.len(), 5);
    assert_eq!(states[4].id, "m5");
}
