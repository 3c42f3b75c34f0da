use conductor::analysis::{analyst_tasks, collect_analysis, fill_directive_ids};
use conductor::json::{JsonNumber, JsonValue};
use conductor::merge::{
    has_conflict_markers, merge_request, merge_step, resolution_is_clean, resolution_prompt, task_slug, worktree_names,
    MergeAction, MergeEvent, MergeFlow,
};
use conductor::orchestra::{flatten_phase_tasks, requeue_running_phases, settle_phase_review, PhaseNext};
use conductor::plan_view::{task_detail_rows, RowKind};
use conductor::agent::{reply_cut_short, reply_step, ReplyState};
use conductor::plan_parse::{phase_review_from_value, revised_phases_from_value};
use conductor::planning::{plan_notes_for, plan_step, Decomposition, PlanAction, PlanEnd, PlanEvent, PlanState};
use conductor::review::{final_review_step, review_evidence, review_result_from_value, review_task_results, FinalStep, ReviewResult};
use conductor::state::{
    ClaudeEventType,
    AnalysisDirective, MusicianStatus, OrchestraPhase, Phase, PhaseReviewAction, PhaseStatus, Task, TaskResult, TaskStatus,
};
use conductor::worktree::{TaskContext, WorktreeManager};
use conductor::memory::{append_section, entries_since, memory_stats, MEMORY_HEADER};

fn s(v: &str) -> JsonValue {
    JsonValue::Str(v.to_string())
}

fn obj(members: Vec<(&str, JsonValue)>) -> JsonValue {
    JsonValue::Object(members.into_iter().map(|(k, v)| (k.to_string(), v)).collect())
}

fn num(n: u64) -> JsonValue {
    JsonValue::Number(JsonNumber::PosInt(n))
}

fn arr(items: Vec<JsonValue>) -> JsonValue {
    JsonValue::Array(items)
}

fn task(index: usize, status: TaskStatus) -> Task {
    Task {
        id: format!("t{index}"),
        index,
        title: format!("Task {index}"),
        description: format!("Do {index}"),
        why: String::new(),
        file_scope: vec![],
        dependencies: vec![],
        acceptance_criteria: vec![],
        estimated_turns: 10,
        model: None,
        status,
        assigned_musician: None,
        result: None,
    }
}

fn result(success: bool, summary: &str) -> TaskResult {
    TaskResult {
        success,
        files_modified: vec!["src/a.rs".into(), "src/b.rs".into()],
        summary: summary.into(),
        error: if success { None } else { Some("boom".into()) },
        tokens_used: 120,
        duration_ms: 3400,
        diff: Some("+x".into()),
        verification_output: None,
        verification_passed: Some(true),
    }
}

fn phase(index: usize, tasks: Vec<Task>) -> Phase {
    Phase {
        id: format!("p{index}"),
        index,
        title: format!("Phase {}", index + 1),
        description: String::new(),
        status: PhaseStatus::Pending,
        tasks,
        review_result: None,
        token_used: 0,
    }
}

fn directive(id: &str, area: &str) -> AnalysisDirective {
    AnalysisDirective {
        id: id.into(),
        area: area.into(),
        question: format!("How does {area} work?"),
        file_hints: vec!["src/lib.rs".into()],
        estimated_turns: 8,
    }
}

fn verdict(action: &str) -> ReviewResult {
    ReviewResult {
        action: action.into(),
        summary: None,
        task_indices: None,
        new_tasks: None,
        instructions: None,
        adjusted_instructions: None,
        insights: None,
    }
}

fn fresh(dry_run: bool, headless: bool) -> PlanState {
    PlanState { phase: OrchestraPhase::Init, analysed: false, dry_run, headless }
}

// ─── Planning ────────────────────────────────────────────────────

#[test]
fn planning_explores_then_analyses_when_asked() {
    let (s1, a1) = plan_step(fresh(false, false), PlanEvent::Start);
    assert_eq!(a1, PlanAction::Explore);
    assert_eq!(s1.phase, OrchestraPhase::Exploring);
    let (s2, a2) = plan_step(s1, PlanEvent::Explored { analysis_needed: Some(true), directives: 2 });
    assert_eq!(a2, PlanAction::Analyze(2));
    assert_eq!(s2.phase, OrchestraPhase::Analyzing);
    let (s3, a3) = plan_step(s2, PlanEvent::Analyzed(1));
    assert_eq!(a3, PlanAction::Decompose { with_analysis: true });
    assert!(s3.analysed);
    let (s4, a4) = plan_step(s3, PlanEvent::Decomposed(Decomposition::Phases(3)));
    assert_eq!(a4, PlanAction::Review);
    assert_eq!(s4.phase, OrchestraPhase::PlanReview);
}

#[test]
fn planning_skips_analysis_without_directives() {
    let (s1, _) = plan_step(fresh(false, false), PlanEvent::Start);
    let (_, a) = plan_step(s1, PlanEvent::Explored { analysis_needed: Some(true), directives: 0 });
    assert_eq!(a, PlanAction::Decompose { with_analysis: false });
    let (_, b) = plan_step(s1, PlanEvent::Explored { analysis_needed: None, directives: 4 });
    assert_eq!(b, PlanAction::Decompose { with_analysis: false });
    let (_, c) = plan_step(s1, PlanEvent::Explored { analysis_needed: Some(false), directives: 4 });
    assert_eq!(c, PlanAction::Decompose { with_analysis: false });
}

#[test]
fn planning_ends_on_unreadable_empty_or_dry_run() {
    let dec = PlanState { phase: OrchestraPhase::Decomposing, analysed: false, dry_run: false, headless: false };
    let (s1, a1) = plan_step(dec, PlanEvent::Decomposed(Decomposition::Unreadable));
    assert_eq!(a1, PlanAction::Finish(PlanEnd::NoPlan));
    assert_eq!(s1.phase, OrchestraPhase::Complete);
    let (_, a2) = plan_step(dec, PlanEvent::Decomposed(Decomposition::Phases(0)));
    assert_eq!(a2, PlanAction::Finish(PlanEnd::EmptyPlan));
    let (s3, a3) = plan_step(dec, PlanEvent::Decomposed(Decomposition::Failed));
    assert_eq!(a3, PlanAction::Fail);
    assert_eq!(s3.phase, OrchestraPhase::Failed);
    let dry = PlanState { dry_run: true, ..dec };
    let (_, a4) = plan_step(dry, PlanEvent::Decomposed(Decomposition::Phases(2)));
    assert_eq!(a4, PlanAction::Finish(PlanEnd::DryRun));
    let headless = PlanState { headless: true, ..dec };
    let (_, a5) = plan_step(headless, PlanEvent::Decomposed(Decomposition::Phases(2)));
    assert_eq!(a5, PlanAction::Execute);
}

#[test]
fn planning_ignores_events_out_of_turn() {
    let st = fresh(false, false);
    let (s1, a1) = plan_step(st, PlanEvent::Analyzed(3));
    assert_eq!(a1, PlanAction::Wait);
    assert_eq!(s1, st);
}

#[test]
fn planning_notes() {
    assert_eq!(plan_notes_for(PlanAction::Explore, ""), vec!["Pass 1/3: Exploring codebase...".to_string()]);
    assert_eq!(plan_notes_for(PlanAction::Analyze(2), ""), vec!["Deep analysis: 2 analyst(s) investigating...".to_string()]);
    assert_eq!(
        plan_notes_for(PlanAction::Decompose { with_analysis: true }, ""),
        vec!["Pass 3/3: Decomposing into phases...".to_string()]
    );
    assert_eq!(
        plan_notes_for(PlanAction::Decompose { with_analysis: false }, ""),
        vec!["Pass 2/3: Decomposing into phases...".to_string()]
    );
    let no_plan = plan_notes_for(PlanAction::Finish(PlanEnd::NoPlan), "");
    assert_eq!(no_plan.len(), 3);
    assert_eq!(no_plan[0], "");
    assert_eq!(no_plan[2], "Tip: describe a specific coding task, e.g. \"Add retry logic to the API client\"");
    let empty = plan_notes_for(PlanAction::Finish(PlanEnd::EmptyPlan), "Nothing to do");
    assert_eq!(empty, vec!["Decomposition produced no phases \u{2014} nothing to execute.".to_string(), "Summary: Nothing to do".to_string()]);
    assert!(plan_notes_for(PlanAction::Review, "x").is_empty());
}

// ─── Flattening and restoring phases ─────────────────────────────

#[test]
fn flatten_numbers_tasks_across_phases() {
    let mut phases = vec![
        phase(0, vec![task(7, TaskStatus::Ready), task(9, TaskStatus::Queued)]),
        phase(1, vec![]),
        phase(2, vec![task(0, TaskStatus::Queued)]),
    ];
    let flat = flatten_phase_tasks(&mut phases);
    assert_eq!(flat.len(), 3);
    for (g, t) in flat.iter().enumerate() {
        assert_eq!(t.index, g);
    }
    assert_eq!(flat[0].id, "t7");
    assert_eq!(flat[2].id, "t0");
    assert_eq!(phases[0].tasks[1].index, 1);
    assert_eq!(phases[2].tasks[0].index, 2);
    assert_eq!(phases[2].tasks[0].status, TaskStatus::Queued);
}

#[test]
fn requeue_running_phases_requeues_in_progress_only() {
    let mut running = task(0, TaskStatus::InProgress);
    running.assigned_musician = Some("m1".into());
    let mut phases = vec![phase(0, vec![running, task(1, TaskStatus::Completed)]), phase(1, vec![task(2, TaskStatus::InProgress)])];
    requeue_running_phases(&mut phases);
    assert_eq!(phases[0].tasks[0].status, TaskStatus::Queued);
    assert_eq!(phases[0].tasks[1].status, TaskStatus::Completed);
    assert_eq!(phases[1].tasks[0].status, TaskStatus::Queued);
    assert!(phases.iter().all(|p| p.tasks.iter().all(|t| t.status != TaskStatus::InProgress)));
}

// ─── Phase review ────────────────────────────────────────────────

#[test]
fn revised_phases_default_titles() {
    let v = obj(vec![("revisedPhases", arr(vec![obj(vec![("title", s("Polish"))]), obj(vec![("description", s("More"))])]))]);
    let phases = revised_phases_from_value(&v).unwrap();
    assert_eq!(phases.len(), 2);
    assert_eq!(phases[0].title, "Polish");
    assert_eq!(phases[1].title, "Phase 2");
    assert_eq!(phases[1].description, "More");
    assert_eq!(phases[1].status, PhaseStatus::Pending);
    assert!(phases[1].tasks.is_empty());
    assert!(revised_phases_from_value(&obj(vec![])).is_none());
}

#[test]
fn phase_review_keeps_revised_phases() {
    let v = obj(vec![
        ("action", s("revise_remaining_phases")),
        ("summary", s("Change course")),
        ("revisedPhases", arr(vec![obj(vec![("title", s("New"))])])),
    ]);
    let r = phase_review_from_value(&v);
    assert_eq!(r.action, PhaseReviewAction::ReviseRemainingPhases);
    let revised = r.revised_phases.unwrap();
    assert_eq!(revised.len(), 1);
    assert_eq!(revised[0].title, "New");
}

// ─── Final review ────────────────────────────────────────────────

#[test]
fn final_review_reads_verdict() {
    let v = obj(vec![("action", s("retry")), ("taskIndices", arr(vec![num(1)])), ("adjustedInstructions", s("Be careful"))]);
    let r = review_result_from_value(&v, None);
    assert_eq!(r.action, "retry");
    assert_eq!(r.task_indices, Some(vec![1]));
    assert_eq!(r.adjusted_instructions, Some("Be careful".into()));
    let d = review_result_from_value(&obj(vec![]), None);
    assert_eq!(d.action, "complete");
}

#[test]
fn final_review_complete_and_unknown_actions_complete() {
    let mut tasks = vec![task(0, TaskStatus::Completed)];
    assert_eq!(final_review_step(&mut tasks, &verdict("complete"), 0), FinalStep::Complete);
    assert_eq!(final_review_step(&mut tasks, &verdict("integrate"), 0), FinalStep::Complete);
    assert_eq!(tasks[0].status, TaskStatus::Completed);
}

#[test]
fn final_review_retry_requeues_with_instructions() {
    let mut done = task(1, TaskStatus::Failed);
    done.result = Some(result(false, "broke"));
    let mut tasks = vec![task(0, TaskStatus::Completed), done];
    let mut v = verdict("retry");
    v.task_indices = Some(vec![1, 5]);
    v.adjusted_instructions = Some("Check the edge case".into());
    assert_eq!(final_review_step(&mut tasks, &v, 0), FinalStep::Restart);
    assert_eq!(tasks[1].status, TaskStatus::Queued);
    assert!(tasks[1].result.is_none());
    assert_eq!(tasks[1].description, "Do 1\n\n[Conductor retry instructions]: Check the edge case");
    assert_eq!(tasks[0].status, TaskStatus::Completed);
    assert_eq!(tasks.len(), 2);
}

#[test]
fn final_review_retry_past_limit_completes() {
    let mut tasks = vec![task(0, TaskStatus::Failed)];
    let mut v = verdict("retry");
    v.task_indices = Some(vec![0]);
    assert_eq!(final_review_step(&mut tasks, &v, 3), FinalStep::ForcedComplete);
    assert_eq!(tasks[0].status, TaskStatus::Failed);
    assert_eq!(final_review_step(&mut tasks, &v, 2), FinalStep::Restart);
    let mut none = verdict("retry");
    none.task_indices = None;
    assert_eq!(final_review_step(&mut tasks, &none, 0), FinalStep::Stay);
}

#[test]
fn final_review_extend_appends_defaults() {
    let mut tasks = vec![task(0, TaskStatus::Completed), task(1, TaskStatus::Completed)];
    let mut v = verdict("extend");
    v.new_tasks = Some(vec![obj(vec![("description", s("Add docs"))]), obj(vec![("title", s("Tests")), ("estimatedTurns", num(5))])]);
    assert_eq!(final_review_step(&mut tasks, &v, 0), FinalStep::Restart);
    assert_eq!(tasks.len(), 4);
    assert_eq!(tasks[2].index, 2);
    assert_eq!(tasks[2].title, "Extended Task");
    assert_eq!(tasks[2].why, "Added during review");
    assert_eq!(tasks[2].estimated_turns, 15);
    assert_eq!(tasks[2].status, TaskStatus::Queued);
    assert_eq!(tasks[3].title, "Tests");
    assert_eq!(tasks[3].estimated_turns, 5);
    let mut none = verdict("extend");
    none.new_tasks = None;
    assert_eq!(final_review_step(&mut tasks, &none, 0), FinalStep::Complete);
    assert_eq!(tasks.len(), 4);
}

#[test]
fn final_review_task_results_text() {
    let mut t0 = task(0, TaskStatus::Completed);
    t0.result = Some(result(true, "Did it"));
    let t1 = task(1, TaskStatus::Queued);
    let text = review_task_results(&[t0, t1]);
    assert_eq!(
        text,
        "Task 1: Task 0\nStatus: Completed\nFiles: src/a.rs, src/b.rs\nVerification: PASS\nSummary: Did it\n\n\
         Task 2: Task 1\nStatus: Queued\nFiles: none\nVerification: N/A\nSummary: N/A"
    );
}

#[test]
fn final_review_evidence_lists_diffs() {
    let mut t0 = task(0, TaskStatus::Completed);
    let mut r = result(true, "ok");
    r.verification_output = Some("all green".into());
    t0.result = Some(r);
    let (diffs, outputs) = review_evidence(&[t0, task(1, TaskStatus::Queued)]);
    assert_eq!(diffs, vec![(0, "+x".to_string())]);
    assert_eq!(outputs, vec![(0, "all green".to_string())]);
}

// ─── Analysis ────────────────────────────────────────────────────

#[test]
fn analyst_tasks_follow_directives() {
    let d = vec![directive("d1", "storage"), directive("d2", "network")];
    let tasks = analyst_tasks(&d);
    assert_eq!(tasks.len(), 2);
    assert_eq!(tasks[1].id, "d2");
    assert_eq!(tasks[1].index, 1);
    assert_eq!(tasks[1].title, "Analyze: network");
    assert_eq!(tasks[1].description, "How does network work?");
    assert_eq!(tasks[1].acceptance_criteria, vec!["Produce JSON findings".to_string()]);
    assert_eq!(tasks[1].status, TaskStatus::InProgress);
    assert_eq!(tasks[1].assigned_musician, Some("analyst-1".into()));
    assert_eq!(tasks[1].estimated_turns, 8);
}

#[test]
fn collect_analysis_reports_successes() {
    let d = vec![directive("d1", "storage"), directive("d2", "network"), directive("d3", "ui")];
    let outcomes = vec![Ok(result(true, "Found it")), Ok(result(false, "no")), Err("task 2 panicked".to_string())];
    let (reports, statuses, notes) = collect_analysis(&d, &outcomes);
    assert_eq!(reports.len(), 1);
    assert_eq!(reports[0].directive_id, "d1");
    assert_eq!(reports[0].findings, "Found it");
    assert_eq!(reports[0].duration_ms, 3400);
    assert_eq!(statuses, vec![MusicianStatus::Completed, MusicianStatus::Failed, MusicianStatus::Failed]);
    assert_eq!(notes, vec!["Analyst 1 (network) failed: boom".to_string(), "Analyst 2 (ui) panicked: task 2 panicked".to_string()]);
}

#[test]
fn directive_ids_are_filled() {
    let mut d = vec![directive("", "a"), directive("keep", "b"), directive("", "c")];
    fill_directive_ids(&mut d);
    assert_eq!(d[0].id, "analyst-1");
    assert_eq!(d[1].id, "keep");
    assert_eq!(d[2].id, "analyst-3");
    assert_eq!(d[2].area, "c");
}

// ─── Merging ─────────────────────────────────────────────────────

#[test]
fn worktree_names_and_slug() {
    let (b, dir) = worktree_names("m1", "add-login");
    assert_eq!(b, "conductor/m1/add-login");
    assert_eq!(dir, ".conductor-worktrees/m1-add-login");
    assert_eq!(task_slug("Add Login Page!"), "add-login-page-");
    assert_eq!(task_slug("A very long title that keeps on going and going"), "a-very-long-title-that-keeps-o");
}

#[test]
fn merge_request_needs_a_worktree() {
    let mut m = WorktreeManager::new("/proj");
    let missing = merge_request(&m, "m1").unwrap_err();
    assert!(!missing.success);
    assert_eq!(missing.conflicts, vec!["No worktree found".to_string()]);
    m.register("m1", "/proj/.conductor-worktrees/m1-x", "conductor/m1/x");
    let (branch, msg) = merge_request(&m, "m1").unwrap();
    assert_eq!(branch, "conductor/m1/x");
    assert_eq!(msg, "conductor: merge conductor/m1/x");
}

fn empty_flow() -> MergeFlow {
    MergeFlow { details: String::new(), files: Vec::new() }
}

#[test]
fn merge_clean_succeeds() {
    let (_, a) = merge_step(empty_flow(), MergeEvent::Merged(Ok(())));
    match a {
        MergeAction::Finish(r) => {
            assert!(r.success && !r.resolved && r.conflicts.is_empty());
        }
        _ => panic!("expected a finished merge"),
    }
}

#[test]
fn merge_conflict_resolved_and_committed() {
    let (f1, a1) = merge_step(empty_flow(), MergeEvent::Merged(Err("git merge failed".into())));
    assert!(matches!(a1, MergeAction::ListConflicts));
    assert_eq!(f1.details, "git merge failed");
    let (f2, a2) = merge_step(f1, MergeEvent::Listed(Some("  src/a.rs\n\nsrc/b.rs\n".into())));
    match &a2 {
        MergeAction::Resolve(files) => assert_eq!(files, &vec!["src/a.rs".to_string(), "src/b.rs".to_string()]),
        _ => panic!("expected resolution"),
    }
    let (f3, a3) = merge_step(f2, MergeEvent::Resolved(true));
    assert!(matches!(a3, MergeAction::Commit(ref fs) if fs.len() == 2));
    let (_, a4) = merge_step(f3, MergeEvent::Committed(true));
    match a4 {
        MergeAction::Finish(r) => {
            assert!(r.success && r.resolved);
            assert_eq!(r.conflicts, vec!["src/a.rs".to_string(), "src/b.rs".to_string()]);
        }
        _ => panic!("expected a finished merge"),
    }
}

#[test]
fn merge_conflict_unresolved_aborts() {
    let flow = MergeFlow { details: "git merge failed".into(), files: vec!["src/a.rs".into()] };
    match merge_step(flow, MergeEvent::Resolved(false)).1 {
        MergeAction::AbortThen(r) => {
            assert!(!r.success && !r.resolved);
            assert_eq!(r.conflicts, vec!["CONFLICT: src/a.rs".to_string()]);
        }
        _ => panic!("expected an abort"),
    }
    let flow2 = MergeFlow { details: "git merge failed".into(), files: vec!["src/a.rs".into()] };
    match merge_step(flow2, MergeEvent::Committed(false)).1 {
        MergeAction::AbortThen(r) => assert_eq!(r.conflicts, vec!["CONFLICT: src/a.rs".to_string()]),
        _ => panic!("expected an abort"),
    }
}

#[test]
fn merge_without_listed_files_aborts_with_details() {
    let flow = MergeFlow { details: "git merge failed: oops".into(), files: vec![] };
    match merge_step(flow, MergeEvent::Listed(Some("\n  \n".into()))).1 {
        MergeAction::AbortThen(r) => assert_eq!(r.conflicts, vec!["git merge failed: oops".to_string()]),
        _ => panic!("expected an abort"),
    }
    let flow2 = MergeFlow { details: "bad".into(), files: vec![] };
    match merge_step(flow2, MergeEvent::Listed(None)).1 {
        MergeAction::AbortThen(r) => assert_eq!(r.conflicts, vec!["bad".to_string()]),
        _ => panic!("expected an abort"),
    }
}

#[test]
fn conflict_markers_and_clean_resolutions() {
    assert!(has_conflict_markers("<<<<<<< HEAD\na\n=======\nb\n>>>>>>> x"));
    assert!(!has_conflict_markers("<<<<<<< only the start"));
    assert!(resolution_is_clean("fn main() {}"));
    assert!(!resolution_is_clean("a\n=======\nb"));
}

#[test]
fn resolution_prompt_names_branch_and_task() {
    let ctx = TaskContext { title: "Login".into(), summary: "Added login".into() };
    let p = resolution_prompt("src/a.rs", "<<<<<<<", "conductor/m1/login", Some(&ctx));
    assert!(p.starts_with("Resolve the merge conflicts in this file. Output ONLY the resolved file content with no explanation"));
    assert!(p.contains("\nThe branch \"conductor/m1/login\" was implementing: \"Login\"\nSummary: Added login"));
    assert!(p.contains("File: src/a.rs\n```\n<<<<<<<\n```"));
    assert!(p.ends_with("Output the complete resolved file content:"));
    let long = "x".repeat(9000);
    let q = resolution_prompt("f", &long, "b", None);
    assert!(q.contains("\nThe branch being merged is: \"b\""));
    assert!(q.contains(&"x".repeat(8000)));
    assert!(!q.contains(&"x".repeat(8001)));
}

// ─── Shared memory ───────────────────────────────────────────────

#[test]
fn memory_append_adds_then_replaces_section() {
    let first = append_section(MEMORY_HEADER, "Worker 1", "First result");
    assert_eq!(first, "# Shared Memory\n\n## Worker 1\nFirst result\n");
    let second = append_section(&first, "Worker 2", "Other");
    assert_eq!(second, "# Shared Memory\n\n## Worker 1\nFirst result\n\n## Worker 2\nOther\n");
    let third = append_section(&second, "Worker 1", "Updated result");
    assert_eq!(third, "# Shared Memory\n\n## Worker 1\nUpdated result\n\n## Worker 2\nOther\n");
    assert_eq!(third.matches("## Worker 1").count(), 1);
    let stats = memory_stats(&third);
    assert_eq!(stats.sections, 2);
    assert_eq!(stats.size_bytes, third.len());
    assert_eq!(memory_stats("## Top\nx\n## Next").sections, 2);
}

#[test]
fn memory_entries_since_offset() {
    let first = append_section(MEMORY_HEADER, "First", "data 1");
    let offset = first.len();
    let second = append_section(&first, "Second", "data 2");
    let (new_content, new_offset) = entries_since(&second, offset);
    assert!(new_content.contains("Second"));
    assert!(new_offset > offset);
    assert_eq!(new_offset, second.len());
    let (none, same) = entries_since(&second, second.len() + 5);
    assert!(none.is_empty());
    assert_eq!(same, second.len() + 5);
}

#[test]
fn restored_session_has_nothing_running() {
    let mut tasks = vec![task(0, TaskStatus::InProgress), task(1, TaskStatus::Completed)];
    tasks[0].assigned_musician = Some("m1".into());
    let mut phases = vec![phase(0, vec![task(0, TaskStatus::InProgress), task(1, TaskStatus::Completed)])];
    conductor::orchestra::requeue_interrupted(&mut tasks, &mut phases);
    assert_eq!(tasks[0].status, TaskStatus::Queued);
    assert!(tasks[0].assigned_musician.is_none());
    assert_eq!(tasks[1].status, TaskStatus::Completed);
    assert_eq!(phases[0].tasks[0].status, TaskStatus::Queued);
    assert_eq!(phases[0].tasks[1].status, TaskStatus::Completed);
}

#[test]
fn plan_review_lines() {
    let mut t = task(2, TaskStatus::Ready);
    t.title = "Add \u{1b}[1mlogin\u{1b}[0m page".into();
    assert_eq!(conductor::plan_view::plan_task_title(&t, 40), "3. Add login page");
    assert_eq!(conductor::plan_view::plan_task_detail(&t), "Files: \u{2014}  Deps: none");
    t.file_scope = vec!["src/a.rs".into(), "src/b.rs".into()];
    t.dependencies = vec![0, 1];
    assert_eq!(conductor::plan_view::plan_task_detail(&t), "Files: src/a.rs, src/b.rs  Deps: 1, 2");
    assert_eq!(conductor::plan_view::plan_size_line(4, 25), "4 tasks \u{b7} ~25 min");
}

#[test]
fn memory_read_truncated_keeps_latest_sections() {
    let full = "# Shared Memory\n\n## A\naaaaaaaaaa\n\n## B\nbbbb\n";
    assert_eq!(conductor::memory::read_truncated(full, 1000), full);
    // the mark counts against the limit
    let r = conductor::memory::read_truncated(full, 42);
    assert_eq!(r, "[...earlier entries truncated]\n## B\nbbbb\n");
    assert!(r.len() <= 42);
    // where the mark does not fit with the latest section, the section alone
    let small = "# M\n## A\naaaa\n## B\nbb";
    let s = conductor::memory::read_truncated(small, 10);
    assert_eq!(s, "\n## B\nbb");
    assert!(s.len() <= 10);
    // a latest section longer than the limit is kept alone
    assert_eq!(conductor::memory::read_truncated(small, 5), "\n## B\nbb");
    // without sections: the mark, a blank line, and the last bytes within the limit
    let plain = "x".repeat(50);
    let p = conductor::memory::read_truncated(&plain, 40);
    assert_eq!(p, format!("[...earlier entries truncated]\n\n{}", "x".repeat(8)));
    assert_eq!(p.len(), 40);
    assert_eq!(conductor::memory::read_truncated(&plain, 10), "x".repeat(10));
}

#[test]
fn memory_append_matches_whole_header_lines() {
    let mem = "# Shared Memory\n\n## Worker 10\nx\n";
    assert_eq!(append_section(mem, "Worker 1", "y"), "# Shared Memory\n\n## Worker 10\nx\n\n## Worker 1\ny\n");
    let both = "# Shared Memory\n\n## Worker 10\nx\n\n## Worker 1\ny\n";
    assert_eq!(append_section(both, "Worker 1", "z"), "# Shared Memory\n\n## Worker 10\nx\n\n## Worker 1\nz\n");
    assert_eq!(append_section(both, "Worker 10", "w"), "# Shared Memory\n\n## Worker 10\nw\n\n## Worker 1\ny\n");
}

// ─── Settling a phase review ─────────────────────────────────────


fn two_phases() -> (Vec<Phase>, Vec<Task>) {
    let mut done = task(0, TaskStatus::Completed);
    done.result = Some(result(true, "ok"));
    let mut failed = task(1, TaskStatus::Failed);
    failed.result = Some(result(false, "no"));
    let tasks = vec![done.clone(), failed.clone()];
    (vec![phase(0, vec![done, failed]), phase(1, vec![])], tasks)
}

#[test]
fn settle_phase_review_cases() {
    // continue
    let (mut phases, mut tasks) = two_phases();
    let mut retries = 0u32;
    let (next, notes) = settle_phase_review(&mut phases, &mut tasks, 0, PhaseReviewAction::Continue, None, None, &mut retries);
    assert_eq!(next, PhaseNext::Next);
    assert!(notes.is_empty());
    assert_eq!(phases[0].status, PhaseStatus::Completed);
    // retry: the failed task goes back, the phase runs again
    let (mut phases, mut tasks) = two_phases();
    let (next, _) = settle_phase_review(&mut phases, &mut tasks, 0, PhaseReviewAction::RetryTasks, None, None, &mut retries);
    assert_eq!(next, PhaseNext::Again);
    assert_eq!(retries, 1);
    assert_eq!(phases[0].tasks[1].status, TaskStatus::Queued);
    assert_eq!(phases[0].tasks[0].status, TaskStatus::Completed);
    assert_eq!(tasks[1].status, TaskStatus::Queued);
    // retry naming only the succeeded task: nothing to retry
    let (mut phases, mut tasks) = two_phases();
    let mut r2 = 0u32;
    let (next, notes) = settle_phase_review(&mut phases, &mut tasks, 0, PhaseReviewAction::RetryTasks, Some(vec![0]), None, &mut r2);
    assert_eq!(next, PhaseNext::Next);
    assert_eq!(notes, vec!["Phase 1 review requested retry but all tasks succeeded \u{2014} continuing".to_string()]);
    assert_eq!(phases[0].status, PhaseStatus::Completed);
    // retry past the limit
    let (mut phases, mut tasks) = two_phases();
    let mut r3 = 3u32;
    let (next, notes) = settle_phase_review(&mut phases, &mut tasks, 0, PhaseReviewAction::RetryTasks, None, None, &mut r3);
    assert_eq!(next, PhaseNext::Next);
    assert_eq!(r3, 4);
    assert_eq!(notes, vec!["[WARN] Phase 1 exceeded max retries (3) \u{2014} forcing continue".to_string()]);
    assert_eq!(phases[0].tasks[1].status, TaskStatus::Failed);
    // revise
    let (mut phases, mut tasks) = two_phases();
    let mut r4 = 0u32;
    let revised = vec![phase(7, vec![]), phase(8, vec![])];
    let (next, notes) = settle_phase_review(&mut phases, &mut tasks, 0, PhaseReviewAction::ReviseRemainingPhases, None, Some(revised), &mut r4);
    assert_eq!(next, PhaseNext::Next);
    assert_eq!(phases.len(), 3);
    assert_eq!(phases[1].index, 1);
    assert_eq!(phases[2].index, 2);
    assert_eq!(notes, vec!["Revised remaining phases based on Phase 1 results".to_string()]);
    // abort
    let (mut phases, mut tasks) = two_phases();
    let (next, _) = settle_phase_review(&mut phases, &mut tasks, 1, PhaseReviewAction::Abort, None, None, &mut r4);
    assert_eq!(next, PhaseNext::Abort);
    assert_eq!(phases[1].status, PhaseStatus::Failed);
}

// ─── Task detail view ────────────────────────────────────────────

#[test]
fn task_detail_rows_list_sections() {
    let mut t = task(1, TaskStatus::Completed);
    t.description = "First line\nSecond \u{1b}[1mline\u{1b}[0m".into();
    t.file_scope = vec!["src/a.rs".into()];
    t.dependencies = vec![0, 9];
    t.result = Some(result(false, "Tried\nhard"));
    let all = vec![task(0, TaskStatus::Completed), t.clone()];
    let rows = task_detail_rows(&t, &all);
    let texts: Vec<(RowKind, &str)> = rows.iter().map(|(k, s)| (*k, s.as_str())).collect();
    assert_eq!(
        texts,
        vec![
            (RowKind::Status, ""),
            (RowKind::Musician, "\u{2014}"),
            (RowKind::Blank, ""),
            (RowKind::Header, "DESCRIPTION"),
            (RowKind::Text, "First line"),
            (RowKind::Text, "Second line"),
            (RowKind::Blank, ""),
            (RowKind::Header, "FILES"),
            (RowKind::Text, "  \u{2022} src/a.rs"),
            (RowKind::Blank, ""),
            (RowKind::Header, "DEPENDENCIES"),
            (RowKind::Text, "  \u{2022} Task 1: Task 0"),
            (RowKind::Text, "  \u{2022} Task 10: ?"),
            (RowKind::Blank, ""),
            (RowKind::Header, "RESULT"),
            (RowKind::Failure, "Failed"),
            (RowKind::Text, "  Tried"),
            (RowKind::Text, "  hard"),
            (RowKind::Error, "  Error: boom"),
            (RowKind::Header, "FILES MODIFIED"),
            (RowKind::Text, "  \u{2022} src/a.rs"),
            (RowKind::Text, "  \u{2022} src/b.rs"),
        ]
    );
}

// ─── Collecting the conductor's answer ───────────────────────────

#[test]
fn reply_steps_collect_the_answer() {
    let mut acc = ReplyState { text: String::new(), in_json: false };
    let mut thinking = conductor::bridge::empty_event(ClaudeEventType::Assistant);
    thinking.subtype = Some("thinking".into());
    thinking.message = Some("hmm".into());
    assert_eq!(reply_step(&mut acc, &thinking), (vec!["Thinking...".to_string()], false));
    let mut msg = conductor::bridge::empty_event(ClaudeEventType::Assistant);
    msg.subtype = Some("text".into());
    msg.message = Some("Plan:\n```json\n{\"a\": 1}".into());
    assert_eq!(reply_step(&mut acc, &msg), (vec!["Plan:".to_string()], false));
    assert!(acc.in_json);
    let mut err = conductor::bridge::empty_event(ClaudeEventType::Error);
    err.message = None;
    assert_eq!(reply_step(&mut acc, &err), (vec!["Error: Unknown error".to_string()], false));
    let mut res = conductor::bridge::empty_event(ClaudeEventType::Result);
    res.result = Some("\n```".into());
    assert_eq!(reply_step(&mut acc, &res), (vec![], true));
    assert_eq!(acc.text, "Plan:\n```json\n{\"a\": 1}\n```");
    assert_eq!(reply_cut_short(acc, false), Ok("Plan:\n```json\n{\"a\": 1}\n```".to_string()));
    let empty = ReplyState { text: String::new(), in_json: false };
    assert_eq!(reply_cut_short(empty, true), Err("send_and_collect timed out after 300s".to_string()));
}

// ─── Cutting text at a character boundary ────────────────────────

#[test]
fn truncate_str_keeps_longest_prefix_on_a_boundary() {
    let s = "ab\u{e9}cd"; // é takes two bytes, at offsets 2 and 3
    assert_eq!(conductor::text::truncate_str(s, 3), "ab");
    assert_eq!(conductor::text::truncate_str(s, 4), "ab\u{e9}");
    assert_eq!(conductor::text::truncate_str(s, 10), s);
}
