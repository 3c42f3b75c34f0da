use conductor::insights::{filename, is_guard_file, is_service_file, is_test_file, InsightGenerator};
use conductor::json::JsonValue;
use conductor::state::{Insight, InsightCategory, Task, TaskResult, TaskStatus};

fn obj1(k: &str, v: &str) -> JsonValue {
    JsonValue::Object(vec![(k.to_string(), JsonValue::Str(v.to_string()))])
}

fn sample_task() -> Task {
    Task {
        id: "t1".into(),
        index: 0,
        title: "Fix auth bug".into(),
        description: "Fix the authentication issue".into(),
        why: "Users can't log in".into(),
        file_scope: vec!["src/auth.ts".into()],
        dependencies: vec![],
        acceptance_criteria: vec!["Login works".into()],
        estimated_turns: 5,
        model: Some("opus".into()),
        status: TaskStatus::Queued,
        assigned_musician: None,
        result: None,
    }
}

#[test]
fn grep_tool_generates_insight() {
    let mut generator = InsightGenerator::new();
    generator.on_tool_use(
        "m1",
        "Grep",
        Some(obj1("pattern", "handleAuth")),
        None,
    );
    let insights = generator.get_all_insights();
    assert_eq!(insights.len(), 1);
    assert_eq!(insights[0].title, "Grep before editing");
    assert!(insights[0].body.contains("\"handleAuth\""));
    assert_eq!(insights[0].source, "m1");
}

#[test]
fn grep_with_task_context() {
    let mut generator = InsightGenerator::new();
    let task = sample_task();
    generator.on_tool_use(
        "m1",
        "Grep",
        Some(obj1("pattern", "login")),
        Some(&task),
    );
    let insights = generator.get_all_insights();
    assert_eq!(insights.len(), 1);
    assert!(insights[0].body.contains("Fix auth bug"));
}

#[test]
fn glob_tool_generates_insight() {
    let mut generator = InsightGenerator::new();
    generator.on_tool_use(
        "m1",
        "Glob",
        Some(obj1("pattern", "**/*.ts")),
        None,
    );
    let insights = generator.get_all_insights();
    assert_eq!(insights.len(), 1);
    assert_eq!(insights[0].title, "Glob for file discovery");
    assert!(insights[0].body.contains("\"**/*.ts\""));
}

#[test]
fn reading_test_file_generates_reading_tests_insight() {
    let mut generator = InsightGenerator::new();
    generator.on_tool_use(
        "m1",
        "Read",
        Some(obj1("file_path", "src/auth.spec.ts")),
        None,
    );
    let insights = generator.get_all_insights();
    assert_eq!(insights.len(), 1);
    assert_eq!(insights[0].title, "Reading tests first");
    assert!(insights[0].body.contains("auth.spec.ts"));
}

#[test]
fn reading_source_file_generates_reading_insight() {
    let mut generator = InsightGenerator::new();
    generator.on_tool_use(
        "m1",
        "Read",
        Some(obj1("file_path", "src/auth.ts")),
        None,
    );
    let insights = generator.get_all_insights();
    assert_eq!(insights.len(), 1);
    assert_eq!(insights[0].title, "Reading source file");
}

#[test]
fn git_diff_generates_self_review_insight() {
    let mut generator = InsightGenerator::new();
    generator.on_tool_use(
        "m1",
        "Bash",
        Some(obj1("command", "git diff --stat")),
        None,
    );
    let insights = generator.get_all_insights();
    assert_eq!(insights.len(), 1);
    assert_eq!(insights[0].title, "Self-review via git diff");
}

#[test]
fn service_file_write_generates_service_extraction_insight() {
    let mut generator = InsightGenerator::new();
    generator.on_tool_use(
        "m1",
        "Write",
        Some(obj1("file_path", "src/upload/r2.service.ts")),
        None,
    );
    let insights = generator.get_all_insights();
    assert_eq!(insights.len(), 1);
    assert_eq!(insights[0].title, "Service extraction");
    assert!(insights[0].body.contains("r2.service.ts"));
}

#[test]
fn guard_file_edit_generates_guard_insight() {
    let mut generator = InsightGenerator::new();
    generator.on_tool_use(
        "m1",
        "Edit",
        Some(obj1("file_path", "src/auth/jwt.guard.ts")),
        None,
    );
    let insights = generator.get_all_insights();
    assert_eq!(insights.len(), 1);
    assert_eq!(insights[0].title, "Guard pattern");
}

#[test]
fn writing_test_file_generates_test_driven_insight() {
    let mut generator = InsightGenerator::new();
    generator.on_tool_use(
        "m1",
        "Write",
        Some(obj1("file_path", "src/auth.spec.ts")),
        None,
    );
    let insights = generator.get_all_insights();
    assert_eq!(insights.len(), 1);
    assert_eq!(insights[0].title, "Test-driven approach");
}

#[test]
fn edit_file_generates_modifying_insight() {
    let mut generator = InsightGenerator::new();
    generator.on_tool_use(
        "m1",
        "Edit",
        Some(obj1("file_path", "src/main.ts")),
        None,
    );
    let insights = generator.get_all_insights();
    assert_eq!(insights.len(), 1);
    assert_eq!(insights[0].title, "Modifying file");
}

#[test]
fn task_complete_success() {
    let mut generator = InsightGenerator::new();
    let task = sample_task();
    let result = TaskResult {
        success: true,
        files_modified: vec!["src/auth.ts".into()],
        summary: "Fixed it".into(),
        error: None,
        tokens_used: 500,
        duration_ms: 3000,
        diff: None,
        verification_output: None,
        verification_passed: None,
    };
    generator.on_task_complete("m1", &task, &result);
    let insights = generator.get_all_insights();
    assert_eq!(insights.len(), 1);
    assert_eq!(insights[0].title, "Task completed successfully");
    assert!(insights[0].body.contains("src/auth.ts"));
}

#[test]
fn task_complete_failure() {
    let mut generator = InsightGenerator::new();
    let task = sample_task();
    let result = TaskResult {
        success: false,
        files_modified: vec![],
        summary: "Failed".into(),
        error: Some("compilation error".into()),
        tokens_used: 200,
        duration_ms: 1000,
        diff: None,
        verification_output: None,
        verification_passed: None,
    };
    generator.on_task_complete("m1", &task, &result);
    let insights = generator.get_all_insights();
    assert_eq!(insights.len(), 1);
    assert_eq!(insights[0].title, "Task failed — retry possible");
    assert!(insights[0].body.contains("compilation error"));
}

#[test]
fn rate_limit_generates_insight() {
    let mut generator = InsightGenerator::new();
    generator.on_rate_limit();
    let insights = generator.get_all_insights();
    assert_eq!(insights.len(), 1);
    assert_eq!(insights[0].title, "Rate limit — rolling window");
    assert_eq!(insights[0].source, "system");
}

#[test]
fn worktree_merge_generates_insight() {
    let mut generator = InsightGenerator::new();
    generator.on_worktree_merge("m2");
    let insights = generator.get_all_insights();
    assert_eq!(insights.len(), 1);
    assert_eq!(insights[0].title, "Worktree merge");
    assert_eq!(insights[0].source, "m2");
}

#[test]
fn conductor_decision_recorded() {
    let mut generator = InsightGenerator::new();
    generator.on_conductor_decision("Reassign task 2", "Musician 1 is rate-limited");
    let insights = generator.get_all_insights();
    assert_eq!(insights.len(), 1);
    assert_eq!(insights[0].title, "Reassign task 2");
    assert_eq!(insights[0].body, "Musician 1 is rate-limited");
    assert_eq!(insights[0].source, "conductor");
}

#[test]
fn task_assigned_generates_why_insight() {
    let mut generator = InsightGenerator::new();
    let task = sample_task();
    generator.on_task_assigned("m1", &task);
    let insights = generator.get_all_insights();
    assert_eq!(insights.len(), 1);
    assert_eq!(insights[0].category, InsightCategory::Why);
    assert!(insights[0].title.contains("Fix auth bug"));
    assert!(insights[0].body.contains("Users can't log in"));
    assert!(insights[0].body.contains("opus"));
    assert!(insights[0].body.contains("src/auth.ts"));
    assert!(insights[0].body.contains("Login works"));
}

#[test]
fn task_assigned_with_dependencies() {
    let mut generator = InsightGenerator::new();
    let mut task = sample_task();
    task.dependencies = vec![0, 2];
    generator.on_task_assigned("m1", &task);
    let insights = generator.get_all_insights();
    assert!(insights[0].body.contains("Task 1"));
    assert!(insights[0].body.contains("Task 3"));
}

#[test]
fn dedup_same_rule_same_source() {
    let mut generator = InsightGenerator::new();
    generator.on_tool_use("m1", "Grep", Some(obj1("pattern", "foo")), None);
    generator.on_tool_use("m1", "Grep", Some(obj1("pattern", "bar")), None);
    // Second Grep from same musician should be deduped
    assert_eq!(generator.get_all_insights().len(), 1);
}

#[test]
fn different_sources_not_deduped() {
    let mut generator = InsightGenerator::new();
    generator.on_tool_use("m1", "Grep", Some(obj1("pattern", "foo")), None);
    generator.on_tool_use("m2", "Grep", Some(obj1("pattern", "bar")), None);
    // Different musicians can trigger the same insight type
    assert_eq!(generator.get_all_insights().len(), 2);
}

#[test]
fn add_insight_deduplicates_by_title() {
    let mut generator = InsightGenerator::new();
    let insight = Insight {
        timestamp: "2026-01-01T00:00:00Z".into(),
        category: InsightCategory::Concept,
        title: "Custom insight".into(),
        body: "First".into(),
        source: "test".into(),
    };
    generator.add_insight(insight.clone());
    let insight2 = Insight {
        body: "Second".into(),
        ..insight
    };
    generator.add_insight(insight2);
    assert_eq!(generator.get_all_insights().len(), 1);
    assert_eq!(generator.get_all_insights()[0].body, "First");
}

#[test]
fn get_insights_returns_latest_n() {
    let mut generator = InsightGenerator::new();
    generator.on_conductor_decision("D1", "R1");
    generator.on_conductor_decision("D2", "R2");
    generator.on_conductor_decision("D3", "R3");
    assert_eq!(generator.get_insights(2).len(), 2);
    assert_eq!(generator.get_insights(2)[0].title, "D2");
    assert_eq!(generator.get_insights(2)[1].title, "D3");
}

#[test]
fn get_insights_with_count_larger_than_available() {
    let mut generator = InsightGenerator::new();
    generator.on_conductor_decision("D1", "R1");
    assert_eq!(generator.get_insights(10).len(), 1);
}

#[test]
fn one_insight_per_event() {
    let mut generator = InsightGenerator::new();
    // Edit on a guard file could match both "Guard pattern" and "Modifying file"
    // but should only produce one insight
    generator.on_tool_use(
        "m1",
        "Edit",
        Some(obj1("file_path", "src/auth.guard.ts")),
        None,
    );
    assert_eq!(generator.get_all_insights().len(), 1);
}

#[test]
fn grep_body_is_exact() {
    let mut generator = InsightGenerator::new();
    let task = sample_task();
    generator.on_tool_use("m1", "Grep", Some(obj1("pattern", "login")), Some(&task));
    assert_eq!(
        generator.get_all_insights()[0].body,
        "Searching for \"login\" for task \"Fix auth bug\" — finding all references before modifying code prevents breaking callers in other files."
    );
}

#[test]
fn unknown_tool_generates_nothing() {
    let mut generator = InsightGenerator::new();
    generator.on_tool_use("m1", "Fly", None, None);
    assert!(generator.get_all_insights().is_empty());
}

#[test]
fn modifying_file_lists_scope() {
    let mut generator = InsightGenerator::new();
    let task = sample_task();
    generator.on_tool_use("m1", "Edit", Some(obj1("file_path", "src/a/main.ts")), Some(&task));
    assert_eq!(
        generator.get_all_insights()[0].body,
        "Editing main.ts for \"Fix auth bug\". Files in scope: src/auth.ts"
    );
}

#[test]
fn task_assigned_text_is_exact() {
    let mut generator = InsightGenerator::new();
    let mut task = sample_task();
    task.dependencies = vec![0, 2];
    task.model = Some("sonnet".into());
    generator.on_task_assigned("m1", &task);
    let i = &generator.get_all_insights()[0];
    assert_eq!(i.title, "Task 1 — \"Fix auth bug\"");
    assert_eq!(
        i.body,
        "Users can't log in\nDepends on: Task 1, Task 3\nModel: sonnet (standard complexity)\nFiles: src/auth.ts\nSuccess criteria: Login works"
    );
}

#[test]
fn path_helpers() {
    assert_eq!(filename("a/b/c.ts"), "c.ts");
    assert_eq!(filename("c.ts"), "c.ts");
    assert_eq!(filename("dir/"), "");
    assert!(is_test_file("x.test.jsx"));
    assert!(!is_test_file("x.ts"));
    assert!(is_service_file("a.service.js"));
    assert!(is_guard_file("a.guard.ts"));
}
