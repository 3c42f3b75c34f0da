use conductor::json::{JsonNumber, JsonValue};
use conductor::plan_parse::{decompose_from_value, parse_tasks, plan_from_value, validate_phase_review_result};
use conductor::state::{PhaseReviewAction, PhaseStatus, TaskStatus};

fn s(v: &str) -> JsonValue {
    JsonValue::Str(v.to_string())
}

fn obj(members: Vec<(&str, JsonValue)>) -> JsonValue {
    JsonValue::Object(members.into_iter().map(|(k, v)| (k.to_string(), v)).collect())
}

fn num(n: u64) -> JsonValue {
    JsonValue::Number(JsonNumber::PosInt(n))
}

fn arr(items: Vec<JsonValue>) -> JsonValue {
    JsonValue::Array(items)
}

#[test]
fn parse_tasks_basic() {
    let raw = vec![obj(vec![
        ("title", s("Task 1")),
        ("description", s("Do something")),
        ("why", s("Because")),
        ("fileScope", arr(vec![s("src/main.rs")])),
        ("dependencies", arr(vec![])),
        ("acceptanceCriteria", arr(vec![s("It works")])),
        ("estimatedTurns", num(10)),
        ("model", s("sonnet")),
    ])];
    let tasks = parse_tasks(&raw);
    assert_eq!(tasks.len(), 1);
    assert_eq!(tasks[0].title, "Task 1");
    assert_eq!(tasks[0].status, TaskStatus::Ready);
    assert_eq!(tasks[0].model, Some("sonnet".into()));
}

#[test]
fn parse_tasks_with_dependencies() {
    let raw = vec![
        obj(vec![
            ("title", s("A")),
            ("description", s("first")),
            ("why", s("x")),
            ("fileScope", arr(vec![])),
            ("dependencies", arr(vec![])),
            ("acceptanceCriteria", arr(vec![s("ok")])),
            ("estimatedTurns", num(5)),
        ]),
        obj(vec![
            ("title", s("B")),
            ("description", s("second")),
            ("why", s("y")),
            ("fileScope", arr(vec![])),
            ("dependencies", arr(vec![num(0)])),
            ("acceptanceCriteria", arr(vec![s("ok")])),
            ("estimatedTurns", num(5)),
        ]),
    ];
    let tasks = parse_tasks(&raw);
    assert_eq!(tasks[0].status, TaskStatus::Ready);
    assert_eq!(tasks[1].status, TaskStatus::Queued);
    assert_eq!(tasks[1].dependencies, vec![0]);
}

#[test]
fn parse_tasks_truncated_detection() {
    let raw = vec![obj(vec![("title", s("Truncated")), ("description", s("Some description"))])];
    let tasks = parse_tasks(&raw);
    assert!(tasks[0].description.contains("[NOTE: This \
        task may have been truncated"));
    assert!(!tasks[0].why.is_empty());
    assert!(!tasks[0].acceptance_criteria.is_empty());
}

#[test]
fn parse_tasks_defaults() {
    let raw = vec![obj(vec![])];
    let tasks = parse_tasks(&raw);
    assert_eq!(tasks[0].estimated_turns, 15);
    assert!(tasks[0].model.is_none());
}

#[test]
fn parse_tasks_truncated_fills_exact_text() {
    let raw = vec![obj(vec![("title", s("Cut")), ("description", s("desc"))])];
    let tasks = parse_tasks(&raw);
    assert_eq!(tasks[0].why, "Part of task: Cut");
    assert_eq!(
        tasks[0].acceptance_criteria,
        vec!["Complete the task described in \"Cut\"".to_string(), "cargo check passes".to_string()]
    );
    assert_eq!(tasks[0].index, 0);
}

#[test]
fn parse_tasks_untitled_gets_position_title() {
    let raw = vec![obj(vec![]), obj(vec![("fileScope", arr(vec![s(""), s("a.rs"), num(3)]))])];
    let tasks = parse_tasks(&raw);
    assert_eq!(tasks[0].title, "Task 1");
    assert_eq!(tasks[1].title, "Task 2");
    assert_eq!(tasks[1].file_scope, vec!["a.rs".to_string()]);
    assert_ne!(tasks[0].id, tasks[1].id);
    assert!(!tasks[0].id.is_empty());
}

#[test]
fn validate_phase_review_continue() {
    let raw = obj(vec![("action", s("continue")), ("summary", s("All good"))]);
    let result = validate_phase_review_result(&raw);
    assert_eq!(result.action, PhaseReviewAction::Continue);
    assert_eq!(result.summary, "All good");
}

#[test]
fn validate_phase_review_invalid_action() {
    let raw = obj(vec![("action", s("invalid")), ("summary", s("oops"))]);
    let result = validate_phase_review_result(&raw);
    assert_eq!(result.action, PhaseReviewAction::Continue);
    assert_eq!(result.summary, "oops");
}

#[test]
fn validate_phase_review_invalid_action_without_summary() {
    let raw = obj(vec![("action", s("dance"))]);
    let result = validate_phase_review_result(&raw);
    assert_eq!(result.action, PhaseReviewAction::Continue);
    assert_eq!(result.summary, "Invalid action — defaulting to continue");
}

#[test]
fn validate_phase_review_retry_no_indices() {
    let raw = obj(vec![("action", s("retry_tasks")), ("summary", s("failed"))]);
    let result = validate_phase_review_result(&raw);
    assert_eq!(result.action, PhaseReviewAction::Continue);
    assert!(result.summary.contains("taskIndices"));
}

#[test]
fn validate_phase_review_retry_with_indices() {
    let raw = obj(vec![
        ("action", s("retry_tasks")),
        ("taskIndices", arr(vec![num(0), num(2)])),
        ("summary", s("retry these")),
    ]);
    let result = validate_phase_review_result(&raw);
    assert_eq!(result.action, PhaseReviewAction::RetryTasks);
    assert_eq!(result.task_indices, Some(vec![0, 2]));
}

#[test]
fn validate_phase_review_revise_no_phases() {
    let raw = obj(vec![("action", s("revise_remaining_phases")), ("summary", s("need changes"))]);
    let result = validate_phase_review_result(&raw);
    assert_eq!(result.action, PhaseReviewAction::Continue);
    assert!(result.summary.contains("revisedPhases"));
}

#[test]
fn validate_phase_review_abort() {
    let raw = obj(vec![("action", s("abort")), ("summary", s("critical failure"))]);
    let result = validate_phase_review_result(&raw);
    assert_eq!(result.action, PhaseReviewAction::Abort);
}

#[test]
fn validate_phase_review_missing_action_continues() {
    let raw = obj(vec![]);
    let result = validate_phase_review_result(&raw);
    assert_eq!(result.action, PhaseReviewAction::Continue);
    assert_eq!(result.summary, "");
}

#[test]
fn plan_from_value_reads_fields_with_defaults() {
    let v = obj(vec![
        ("summary", s("Build it")),
        ("tasks", arr(vec![obj(vec![("title", s("T")), ("description", s("d")), ("fileScope", arr(vec![s("a.rs")]))])])),
        ("workerAssignment", s("two workers")),
        ("learningNotes", arr(vec![s("note"), num(3), s("more")])),
        ("estimatedMinutes", num(4_294_967_297)),
    ]);
    let plan = plan_from_value(&v, None);
    assert_eq!(plan.summary, "Build it");
    assert_eq!(plan.tasks.len(), 1);
    assert_eq!(plan.tasks[0].title, "T");
    assert_eq!(plan.tasks[0].status, TaskStatus::Ready);
    assert_eq!(plan.dependency_graph, "");
    assert_eq!(plan.musician_assignment, "two workers");
    assert_eq!(plan.learning_notes, vec!["note".to_string(), "more".to_string()]);
    assert_eq!(plan.estimated_minutes, 1);
    assert!(plan.insights.is_none());
}

#[test]
fn plan_musician_assignment_wins_even_when_not_text() {
    let v = obj(vec![("musicianAssignment", num(1)), ("workerAssignment", s("w"))]);
    let plan = plan_from_value(&v, None);
    assert_eq!(plan.musician_assignment, "");
    assert!(plan.tasks.is_empty());
}

#[test]
fn decompose_from_value_builds_pending_phases() {
    let v = obj(vec![
        ("phases", arr(vec![
            obj(vec![("title", s("Setup")), ("description", s("first")), ("tasks", arr(vec![obj(vec![("title", s("a"))])]))]),
            obj(vec![("tasks", arr(vec![]))]),
        ])),
        ("summary", s("two phases")),
        ("estimatedMinutes", num(30)),
    ]);
    let r = decompose_from_value(&v, None);
    assert_eq!(r.phases.len(), 2);
    assert_eq!(r.phases[0].title, "Setup");
    assert_eq!(r.phases[0].index, 0);
    assert_eq!(r.phases[0].status, PhaseStatus::Pending);
    assert_eq!(r.phases[0].tasks.len(), 1);
    assert_eq!(r.phases[1].title, "Phase 2");
    assert_eq!(r.phases[1].description, "");
    assert_ne!(r.phases[0].id, r.phases[1].id);
    assert_eq!(r.summary, "two phases");
    assert!(r.learning_notes.is_empty());
    assert_eq!(r.estimated_minutes, 30);
}
