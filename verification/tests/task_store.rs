use conductor::state::{
    OrchestraConfig, OrchestraPhase, SessionData, Task, TaskResult, TaskStatus, TokenUsage,
};
use conductor::task_store::{session_summary, slugify, task_file_name_of, truncate, TaskStore};

#[test]
fn slugify_works() {
    assert_eq!(slugify("Hello World!"), "hello-world");
    assert_eq!(slugify("foo/bar.ts"), "foo-bar-ts");
}

#[test]
fn slugify_caps_length_and_trims_dashes() {
    let long = "x".repeat(80);
    assert_eq!(slugify(&long).len(), 50);
    assert_eq!(slugify("--Add API--"), "add-api");
    assert_eq!(slugify("***"), "");
}

#[test]
fn truncate_works() {
    assert_eq!(truncate("hello", 10), "hello");
    assert_eq!(truncate("hello world", 5), "hello");
}

#[test]
fn task_file_names_are_padded() {
    assert_eq!(task_file_name_of(3, "Add login"), "003-add-login.json");
    assert_eq!(task_file_name_of(42, "X"), "042-x.json");
    assert_eq!(task_file_name_of(1234, "Y z"), "1234-y-z.json");
}

#[test]
fn store_paths_live_under_the_session() {
    let store = TaskStore::in_root("/home/u/.conductor/sessions", "abc");
    assert_eq!(store.session_id(), "abc");
    assert_eq!(store.base_path(), "/home/u/.conductor/sessions/abc");
    assert_eq!(store.tasks_dir(), "/home/u/.conductor/sessions/abc/tasks");
    assert_eq!(store.logs_dir(), "/home/u/.conductor/sessions/abc/logs");
    assert_eq!(store.memory_dir(), "/home/u/.conductor/sessions/abc/memory");
    assert_eq!(store.session_file(), "/home/u/.conductor/sessions/abc/session.json");
}

#[test]
fn new_store_ends_with_session_id() {
    let store = TaskStore::new("sess-1");
    assert!(store.base_path().ends_with("/.conductor/sessions/sess-1"));
}

fn config() -> OrchestraConfig {
    OrchestraConfig {
        project_path: "/tmp".into(),
        task_description: "Build it".into(),
        musician_count: 2,
        conductor_model: "opus".into(),
        musician_model: "sonnet".into(),
        max_turns: 10,
        dry_run: false,
        session_id: "s1".into(),
        reference_session_id: None,
        verification: None,
        headless: false,
    }
}

fn task(index: usize, title: &str, status: TaskStatus, result: Option<TaskResult>) -> Task {
    Task {
        id: format!("task-{index}"),
        index,
        title: title.into(),
        description: "Do the thing".into(),
        why: String::new(),
        file_scope: vec![],
        dependencies: vec![],
        acceptance_criteria: vec![],
        estimated_turns: 5,
        model: None,
        status,
        assigned_musician: None,
        result,
    }
}

#[test]
fn session_summary_lists_tasks_and_memory() {
    let session = SessionData {
        id: "s1".into(),
        config: config(),
        phase: OrchestraPhase::Complete,
        started_at: "2026-01-01T00:00:00Z".into(),
        last_updated_at: "2026-01-01T01:00:00Z".into(),
        tokens: TokenUsage::default(),
        tokens_estimated: false,
        tasks: vec![],
        phases: None,
        current_phase_index: None,
        worktree_state: None,
    };
    let done = TaskResult {
        success: true,
        files_modified: vec!["a.rs".into(), "b.rs".into()],
        summary: "Done".into(),
        error: None,
        tokens_used: 0,
        duration_ms: 0,
        diff: None,
        verification_output: None,
        verification_passed: None,
    };
    let tasks = vec![
        task(0, "First", TaskStatus::Completed, Some(done)),
        task(1, "Second", TaskStatus::Queued, None),
    ];
    let text = session_summary("s1", &session, &tasks, Some("learned things"));
    let expected = "## Previous Session: s1\n**Task**: Build it\n**Phase**: Complete\n**Date**: 2026-01-01T01:00:00Z\n\n### Tasks and Results\n✓ **First** [Completed]\n  Description: Do the thing\n  Result: Done\n  Files: a.rs, b.rs\n○ **Second** [Queued]\n  Description: Do the thing\n\n### Shared Memory (musician discoveries)\nlearned things";
    assert_eq!(text, expected);
    let blank = session_summary("s1", &session, &[], Some("   \n"));
    assert!(blank.ends_with("### Tasks and Results"));
}

#[test]
fn resolve_session_id_exact_prefix_and_ambiguous() {
    let names = vec!["abc123".to_string(), "abd456".to_string(), "xyz".to_string()];
    assert_eq!(conductor::task_store::resolve_session_id("abc", false, &names), Some("abc123".to_string()));
    assert_eq!(conductor::task_store::resolve_session_id("ab", false, &names), None);
    assert_eq!(conductor::task_store::resolve_session_id("q", false, &names), None);
    assert_eq!(conductor::task_store::resolve_session_id("ab", true, &names), Some("ab".to_string()));
}

#[test]
fn restore_session_takes_over_the_saved_state() {
    let mut running = task(0, "Build", TaskStatus::InProgress, None);
    running.assigned_musician = Some("m1".into());
    let session = SessionData {
        id: "saved-42".into(),
        config: config(),
        phase: OrchestraPhase::PhaseExecuting,
        started_at: "2026-01-01T00:00:00Z".into(),
        last_updated_at: "2026-01-01T01:00:00Z".into(),
        tokens: TokenUsage::default(),
        tokens_estimated: false,
        tasks: vec![running, task(1, "Test", TaskStatus::Completed, None)],
        phases: None,
        current_phase_index: Some(1),
        worktree_state: None,
    };
    let r = conductor::orchestra::restore_session(session, vec![]);
    assert_eq!(r.session_id, "saved-42");
    assert_eq!(r.phase, OrchestraPhase::PhaseExecuting);
    assert_eq!(r.current_phase_index, Some(1));
    assert_eq!(r.tasks.len(), 2);
    assert_eq!(r.tasks[0].status, TaskStatus::Queued);
    assert!(r.tasks[0].assigned_musician.is_none());
    assert_eq!(r.tasks[1].status, TaskStatus::Completed);
    assert_eq!(r.plan_summary, Some("Resumed session saved-42".to_string()));
    assert!(r.phases.is_empty());
}
