use conductor::state::{
    GuidanceActions, NewTaskSpec, Phase, PhaseReviewAction, PhaseStatus, TaskModification, TaskResult,
};
use conductor::orchestra::{
    apply_guidance_actions, decide_review_step, retry_phase_tasks, revise_remaining_phases,
    sync_task_to_phase, ReviewStep,
};
use conductor::orchestra::{
    extract_session_reference, get_next_ready_task, has_remaining_tasks, push_conductor_output,
    requeue_running, session_reference_in, update_task_readiness,
};
use conductor::orchestra::{config_timeouts_fit, parse_conductor_config, parse_u64_exec};
use conductor::musician::Musician;
use conductor::orchestra::{
    absorb_detailed_tasks, action_step, apply_status_change, assign_ready_tasks, record_completion, record_verification,
    resume_failure_message, resume_step, settle_finished_tasks, ActionStep, ResumeStep,
};
use conductor::events::UserAction;
use conductor::state::OrchestraPhase;
use conductor::state::{WorktreeSnapshot, WorktreeStatus};
use conductor::state::{MusicianStatus, Task, TaskStatus};

fn task(index: usize, title: &str, deps: Vec<usize>, status: TaskStatus) -> Task {
    Task {
        id: format!("t{index}"),
        index,
        title: title.into(),
        description: "".into(),
        why: "".into(),
        file_scope: vec![],
        dependencies: deps,
        acceptance_criteria: vec![],
        estimated_turns: 5,
        model: None,
        status,
        assigned_musician: None,
        result: None,
    }
}

#[test]
fn update_task_readiness_marks_ready() {
    let mut tasks = vec![task(0, "Test", vec![], TaskStatus::Queued)];
    update_task_readiness(&mut tasks);
    assert_eq!(tasks[0].status, TaskStatus::Ready);
}

#[test]
fn update_task_readiness_blocks_on_deps() {
    let mut tasks = vec![
        task(0, "First", vec![], TaskStatus::InProgress),
        task(1, "Second", vec![0], TaskStatus::Queued),
    ];
    update_task_readiness(&mut tasks);
    assert_eq!(tasks[1].status, TaskStatus::Blocked);
}

#[test]
fn update_task_readiness_cascades_failure() {
    let mut tasks = vec![
        task(0, "First", vec![], TaskStatus::Failed),
        task(1, "Second", vec![0], TaskStatus::Queued),
    ];
    update_task_readiness(&mut tasks);
    assert_eq!(tasks[1].status, TaskStatus::Failed);
    assert!(tasks[1].result.as_ref().unwrap().summary.contains("dependency"));
}

#[test]
fn update_task_readiness_failure_reaches_later_tasks_in_one_pass() {
    let mut tasks = vec![
        task(0, "Base", vec![], TaskStatus::Failed),
        task(1, "Middle", vec![0], TaskStatus::Queued),
        task(2, "Top", vec![1], TaskStatus::Blocked),
    ];
    update_task_readiness(&mut tasks);
    assert_eq!(tasks[2].status, TaskStatus::Failed);
    let r = tasks[2].result.as_ref().unwrap();
    assert_eq!(r.summary, "Skipped — dependency Task 2 (\"Middle\") failed");
    assert_eq!(r.error.as_deref(), Some("dependency_failed:1"));
    assert!(!r.success);
}

#[test]
fn update_task_readiness_ready_after_completed_or_cancelled() {
    let mut tasks = vec![
        task(0, "A", vec![], TaskStatus::Completed),
        task(1, "B", vec![], TaskStatus::Cancelled),
        task(2, "C", vec![0, 1, 7], TaskStatus::Blocked),
        task(3, "D", vec![], TaskStatus::InProgress),
    ];
    update_task_readiness(&mut tasks);
    assert_eq!(tasks[2].status, TaskStatus::Ready);
    assert_eq!(tasks[3].status, TaskStatus::InProgress);
}

#[test]
fn extract_session_reference_works() {
    assert_eq!(extract_session_reference("fix session 0481dc issues"), Some("0481dc".into()));
    assert_eq!(extract_session_reference("improve on 0481dc2d"), Some("0481dc2d".into()));
    assert_eq!(extract_session_reference("just do the thing"), None);
}

#[test]
fn extract_session_reference_lowercases_and_bounds_length() {
    assert_eq!(extract_session_reference("Continue ABCDEF12"), Some("abcdef12".into()));
    assert_eq!(extract_session_reference("session 12345"), None);
    assert_eq!(extract_session_reference("session 123456789"), None);
    assert_eq!(session_reference_in("build on 00ff00", "build on 00ff00"), Some("00ff00".into()));
}

#[test]
fn push_conductor_output_caps_at_100() {
    let mut out: Vec<String> = Vec::new();
    for i in 0..150 {
        push_conductor_output(&mut out, &format!("line {i}"));
    }
    assert_eq!(out.len(), 100);
    assert!(out.last().unwrap().contains("149"));
    assert_eq!(out[0], "line 50");
}

#[test]
fn has_remaining_tasks_checks_correctly() {
    let mut tasks: Vec<Task> = Vec::new();
    assert!(!has_remaining_tasks(&tasks, None));
    tasks.push(task(0, "Test", vec![], TaskStatus::Ready));
    assert!(has_remaining_tasks(&tasks, None));
    let scope = vec![5];
    assert!(!has_remaining_tasks(&tasks, Some(&scope)));
}

#[test]
fn next_ready_task_is_marked_running() {
    let mut tasks = vec![
        task(0, "A", vec![], TaskStatus::Completed),
        task(1, "B", vec![], TaskStatus::Ready),
        task(2, "C", vec![], TaskStatus::Ready),
    ];
    let scope = vec![2];
    assert_eq!(get_next_ready_task(&mut tasks, Some(&scope)), Some(2));
    assert_eq!(tasks[2].status, TaskStatus::InProgress);
    assert_eq!(get_next_ready_task(&mut tasks, None), Some(1));
    assert_eq!(get_next_ready_task(&mut tasks, None), None);
}

#[test]
fn requeue_running_resets_in_progress_tasks() {
    let mut tasks = vec![
        task(0, "A", vec![], TaskStatus::InProgress),
        task(1, "B", vec![], TaskStatus::Completed),
    ];
    tasks[0].assigned_musician = Some("m1".into());
    requeue_running(&mut tasks);
    assert_eq!(tasks[0].status, TaskStatus::Queued);
    assert!(tasks[0].assigned_musician.is_none());
    assert_eq!(tasks[1].status, TaskStatus::Completed);
}


fn result(success: bool) -> TaskResult {
    TaskResult {
        success,
        files_modified: vec![],
        summary: "done".into(),
        error: None,
        tokens_used: 0,
        duration_ms: 0,
        diff: None,
        verification_output: None,
        verification_passed: None,
    }
}

fn phase(index: usize, tasks: Vec<Task>) -> Phase {
    Phase {
        id: format!("p{index}"),
        index,
        title: format!("Phase {index}"),
        description: "".into(),
        status: PhaseStatus::Pending,
        tasks,
        review_result: None,
        token_used: 0,
    }
}

#[test]
fn guidance_cancels_adds_and_modifies() {
    let mut tasks = vec![
        task(0, "A", vec![], TaskStatus::Queued),
        task(1, "B", vec![], TaskStatus::InProgress),
        task(2, "C", vec![], TaskStatus::Ready),
    ];
    let actions = GuidanceActions {
        add_tasks: Some(vec![NewTaskSpec {
            title: "New".into(),
            description: "added".into(),
            why: "asked".into(),
            file_scope: vec![],
            dependencies: vec![1],
            acceptance_criteria: vec![],
            estimated_turns: 3,
            model: None,
        }]),
        cancel_tasks: Some(vec![0, 1, 9]),
        modify_tasks: Some(vec![
            TaskModification { index: 2, new_description: "be quick".into() },
            TaskModification { index: 1, new_description: "ignored".into() },
        ]),
        guidance: Some("general".into()),
        insights: None,
    };
    let g = apply_guidance_actions(&mut tasks, actions);
    assert_eq!(g.as_deref(), Some("general"));
    assert_eq!(tasks[0].status, TaskStatus::Cancelled);
    assert_eq!(tasks[0].result.as_ref().unwrap().summary, "Cancelled by user guidance");
    assert_eq!(tasks[1].status, TaskStatus::InProgress);
    assert_eq!(tasks.len(), 4);
    assert_eq!(tasks[3].index, 3);
    assert_eq!(tasks[3].status, TaskStatus::Blocked);
    assert_eq!(tasks[2].description, "\n\n[USER GUIDANCE]: be quick");
    assert_eq!(tasks[1].description, "");
}

#[test]
fn retry_resets_failed_but_not_succeeded_tasks() {
    let mut ok = task(10, "ok", vec![], TaskStatus::Completed);
    ok.result = Some(result(true));
    let mut bad = task(11, "bad", vec![], TaskStatus::Failed);
    bad.result = Some(result(false));
    let mut phase_tasks = vec![ok, bad];
    let mut all = vec![
        task(10, "ok", vec![], TaskStatus::Completed),
        task(11, "bad", vec![], TaskStatus::Failed),
    ];
    let n = retry_phase_tasks(&mut phase_tasks, &mut all, Some(vec![0, 1]));
    assert_eq!(n, 1);
    assert_eq!(phase_tasks[0].status, TaskStatus::Completed);
    assert_eq!(phase_tasks[1].status, TaskStatus::Queued);
    assert!(phase_tasks[1].result.is_none());
    assert_eq!(all[1].status, TaskStatus::Queued);
    assert_eq!(all[0].status, TaskStatus::Completed);
}

#[test]
fn retry_defaults_to_unfinished_tasks() {
    let mut phase_tasks = vec![
        task(0, "a", vec![], TaskStatus::Completed),
        task(1, "b", vec![], TaskStatus::Failed),
    ];
    let mut all: Vec<Task> = vec![];
    let n = retry_phase_tasks(&mut phase_tasks, &mut all, None);
    assert_eq!(n, 1);
    assert_eq!(phase_tasks[1].status, TaskStatus::Queued);
    assert_eq!(phase_tasks[0].status, TaskStatus::Completed);
}

#[test]
fn review_steps_follow_the_verdict() {
    assert_eq!(decide_review_step(PhaseReviewAction::Continue, 0), ReviewStep::Advance);
    assert_eq!(decide_review_step(PhaseReviewAction::RetryTasks, 3), ReviewStep::Retry);
    assert_eq!(decide_review_step(PhaseReviewAction::RetryTasks, 4), ReviewStep::ForcedAdvance);
    assert_eq!(decide_review_step(PhaseReviewAction::ReviseRemainingPhases, 1), ReviewStep::Revise);
    assert_eq!(decide_review_step(PhaseReviewAction::Abort, 0), ReviewStep::Abort);
}

#[test]
fn revision_replaces_later_phases() {
    let mut phases = vec![phase(0, vec![]), phase(1, vec![]), phase(2, vec![])];
    revise_remaining_phases(&mut phases, 0, vec![phase(7, vec![])]);
    assert_eq!(phases.len(), 2);
    assert_eq!(phases[1].index, 1);
    assert_eq!(phases[1].id, "p7");
    revise_remaining_phases(&mut phases, 0, vec![]);
    assert_eq!(phases.len(), 2);
}

#[test]
fn sync_task_to_phase_updates_first_match() {
    let mut phases = vec![
        phase(0, vec![task(0, "a", vec![], TaskStatus::InProgress)]),
        phase(1, vec![task(1, "b", vec![], TaskStatus::InProgress)]),
    ];
    sync_task_to_phase(&mut phases, 1, TaskStatus::Completed, Some(result(true)));
    assert_eq!(phases[1].tasks[0].status, TaskStatus::Completed);
    assert_eq!(phases[0].tasks[0].status, TaskStatus::InProgress);
    sync_task_to_phase(&mut phases, 5, TaskStatus::Failed, None);
    assert_eq!(phases[0].tasks[0].status, TaskStatus::InProgress);
}

#[test]
fn config_reads_commands_and_timeout() {
    let content = "name: demo\nverification:\n  - cargo test\n  - cargo clippy\nverificationTimeout: 30\nother: x\n";
    assert!(config_timeouts_fit(content));
    let (cmds, timeout) = parse_conductor_config(content);
    assert_eq!(cmds, Some(vec!["cargo test".to_string(), "cargo clippy".to_string()]));
    assert_eq!(timeout, Some(30_000));
}

#[test]
fn config_without_commands_gives_none() {
    let (cmds, timeout) = parse_conductor_config("verification:\nname: x\n- stray\n");
    assert_eq!(cmds, None);
    assert_eq!(timeout, None);
}

#[test]
fn config_list_ends_at_other_key_and_crlf_is_dropped() {
    let content = "verification:\r\n- make\r\nbuild: yes\n- not a command\nverificationTimeout: abc\n";
    let (cmds, timeout) = parse_conductor_config(content);
    assert_eq!(cmds, Some(vec!["make".to_string()]));
    assert_eq!(timeout, None);
}

#[test]
fn config_timeout_out_of_range_is_flagged() {
    assert!(!config_timeouts_fit("verificationTimeout: 18446744073709551615"));
    assert!(config_timeouts_fit("verificationTimeout: 120"));
}

#[test]
fn parse_u64_exec_matches_std() {
    assert_eq!(parse_u64_exec("42"), Some(42));
    assert_eq!(parse_u64_exec("+7"), Some(7));
    assert_eq!(parse_u64_exec("+"), None);
    assert_eq!(parse_u64_exec(""), None);
    assert_eq!(parse_u64_exec("-1"), None);
    assert_eq!(parse_u64_exec("18446744073709551615"), Some(u64::MAX));
    assert_eq!(parse_u64_exec("18446744073709551616"), None);
    assert_eq!(parse_u64_exec("1a"), None);
}

#[test]
fn assign_gives_each_free_musician_the_next_ready_task() {
    let mut tasks = vec![
        task(0, "a", vec![], TaskStatus::Completed),
        task(1, "b", vec![], TaskStatus::Ready),
        task(2, "c", vec![], TaskStatus::Queued),
        task(3, "d", vec![], TaskStatus::Ready),
        task(4, "e", vec![], TaskStatus::Ready),
    ];
    let m0 = Musician::new("m0".into(), 0, "sonnet".into(), 50);
    let mut m1 = Musician::new("m1".into(), 1, "sonnet".into(), 50);
    m1.state.status = MusicianStatus::Running;
    let mut m2 = Musician::new("m2".into(), 2, "sonnet".into(), 50);
    m2.state.status = MusicianStatus::Completed;
    let states = vec![m0.state.clone(), m1.state.clone(), m2.state.clone()];
    let musicians = vec![Some(m0), Some(m1), Some(m2)];
    let pairs = assign_ready_tasks(&mut tasks, None, &states, &musicians);
    assert_eq!(pairs, vec![(0, 1), (2, 3)]);
    assert_eq!(tasks[1].status, TaskStatus::InProgress);
    assert_eq!(tasks[1].assigned_musician.as_deref(), Some("m0"));
    assert_eq!(tasks[3].status, TaskStatus::InProgress);
    assert_eq!(tasks[3].assigned_musician.as_deref(), Some("m2"));
    assert_eq!(tasks[4].status, TaskStatus::Ready);
    assert_eq!(tasks[4].assigned_musician, None);
}

#[test]
fn assign_skips_absent_musicians_and_respects_scope() {
    let mut tasks = vec![
        task(0, "a", vec![], TaskStatus::Ready),
        task(1, "b", vec![], TaskStatus::Ready),
    ];
    let m0 = Musician::new("m0".into(), 0, "sonnet".into(), 50);
    let m1 = Musician::new("m1".into(), 1, "sonnet".into(), 50);
    let states = vec![m0.state.clone(), m1.state.clone()];
    let musicians = vec![None, Some(m1)];
    let scope = vec![1usize];
    let pairs = assign_ready_tasks(&mut tasks, Some(&scope), &states, &musicians);
    assert_eq!(pairs, vec![(1, 1)]);
    assert_eq!(tasks[0].status, TaskStatus::Ready);
    assert_eq!(tasks[1].assigned_musician.as_deref(), Some("m1"));
}

#[test]
fn assign_with_no_ready_task_changes_nothing() {
    let mut tasks = vec![task(0, "a", vec![], TaskStatus::Queued)];
    let m0 = Musician::new("m0".into(), 0, "sonnet".into(), 50);
    let states = vec![m0.state.clone()];
    let musicians = vec![Some(m0)];
    assert!(assign_ready_tasks(&mut tasks, None, &states, &musicians).is_empty());
    assert_eq!(tasks[0].status, TaskStatus::Queued);
}

fn result_with(summary: &str) -> TaskResult {
    TaskResult {
        success: true,
        files_modified: vec!["a.rs".into()],
        summary: summary.into(),
        error: None,
        tokens_used: 10,
        duration_ms: 5,
        diff: None,
        verification_output: None,
        verification_passed: None,
    }
}

#[test]
fn settle_moves_finished_tasks_and_lists_completed_with_worktree() {
    let mut tasks = vec![
        task(0, "a", vec![], TaskStatus::InProgress),
        task(1, "b", vec![], TaskStatus::InProgress),
        task(2, "c", vec![], TaskStatus::Completed),
    ];
    tasks[0].result = Some(result_with("done a"));
    let mut m0 = Musician::new("m0".into(), 0, "sonnet".into(), 50);
    m0.state.status = MusicianStatus::Completed;
    m0.state.current_task = Some(tasks[0].clone());
    let mut m1 = Musician::new("m1".into(), 1, "sonnet".into(), 50);
    m1.state.status = MusicianStatus::Failed;
    m1.state.current_task = Some(tasks[1].clone());
    let mut m2 = Musician::new("m2".into(), 2, "sonnet".into(), 50);
    m2.state.status = MusicianStatus::Completed;
    m2.state.current_task = Some(tasks[2].clone());
    let states = vec![m0.state.clone(), m1.state.clone(), m2.state.clone()];
    let snaps = vec![WorktreeSnapshot {
        worker_id: "m0".into(),
        task_index: 0,
        branch: "b0".into(),
        path: "/wt/0".into(),
        last_commit_sha: String::new(),
        status: WorktreeStatus::Active,
    }];
    let (syncs, done) = settle_finished_tasks(&mut tasks, &states, &snaps);
    assert_eq!(tasks[0].status, TaskStatus::Completed);
    assert_eq!(tasks[1].status, TaskStatus::Failed);
    assert_eq!(tasks[2].status, TaskStatus::Completed);
    assert_eq!(syncs.len(), 2);
    assert_eq!((syncs[0].0, syncs[0].1), (0, TaskStatus::Completed));
    assert_eq!(syncs[0].2.as_ref().map(|r| r.summary.as_str()), Some("done a"));
    assert_eq!((syncs[1].0, syncs[1].1), (1, TaskStatus::Failed));
    assert_eq!(done, vec![(0, Some("/wt/0".to_string()))]);
}

#[test]
fn record_verification_sets_outcome_or_skip_note() {
    let mut tasks = vec![task(0, "a", vec![], TaskStatus::Completed), task(1, "b", vec![], TaskStatus::Completed)];
    tasks[0].result = Some(result_with("x"));
    tasks[1].result = Some(result_with("y"));
    let r = record_verification(&mut tasks, 0, Some(("diff".into(), "ok".into(), true))).unwrap();
    assert_eq!(r.0, 0);
    let res = tasks[0].result.as_ref().unwrap();
    assert_eq!(res.diff.as_deref(), Some("diff"));
    assert_eq!(res.verification_output.as_deref(), Some("ok"));
    assert_eq!(res.verification_passed, Some(true));
    record_verification(&mut tasks, 1, None).unwrap();
    let res = tasks[1].result.as_ref().unwrap();
    assert_eq!(res.verification_output.as_deref(), Some("Skipped: no worktree available"));
    assert_eq!(res.verification_passed, None);
    assert_eq!(res.diff, None);
    assert!(record_verification(&mut tasks, 9, None).is_none());
}

#[test]
fn completion_updates_state_task_and_phase_copy() {
    let mut tasks = vec![task(0, "a", vec![], TaskStatus::InProgress)];
    let mut phases = vec![Phase {
        id: "p".into(),
        index: 0,
        title: "P".into(),
        description: String::new(),
        status: PhaseStatus::Active,
        tasks: vec![task(0, "a", vec![], TaskStatus::InProgress)],
        review_result: None,
        token_used: 0,
    }];
    let mut m0 = Musician::new("m0".into(), 0, "sonnet".into(), 50);
    m0.state.status = MusicianStatus::Running;
    m0.state.current_task = Some(tasks[0].clone());
    let mut states = vec![m0.state.clone()];
    record_completion(&mut states, &mut tasks, &mut phases, "m0", result_with("built"));
    assert_eq!(states[0].status, MusicianStatus::Completed);
    assert_eq!(tasks[0].status, TaskStatus::Completed);
    assert_eq!(tasks[0].result.as_ref().unwrap().summary, "built");
    assert_eq!(phases[0].tasks[0].status, TaskStatus::Completed);
    assert_eq!(phases[0].tasks[0].result.as_ref().unwrap().summary, "built");
}

#[test]
fn completion_of_unknown_musician_changes_nothing() {
    let mut tasks = vec![task(0, "a", vec![], TaskStatus::InProgress)];
    let mut phases: Vec<Phase> = vec![];
    let mut states = vec![Musician::new("m0".into(), 0, "sonnet".into(), 50).state];
    let mut failed = result_with("no");
    failed.success = false;
    record_completion(&mut states, &mut tasks, &mut phases, "zz", failed);
    assert_eq!(states[0].status, MusicianStatus::Idle);
    assert_eq!(tasks[0].status, TaskStatus::InProgress);
}

#[test]
fn status_change_replaces_named_state() {
    let mut states = vec![
        Musician::new("m0".into(), 0, "sonnet".into(), 50).state,
        Musician::new("m1".into(), 1, "sonnet".into(), 50).state,
    ];
    let mut new_state = Musician::new("m1".into(), 1, "sonnet".into(), 50).state;
    new_state.status = MusicianStatus::Waiting;
    apply_status_change(&mut states, "m1", new_state);
    assert_eq!(states[1].status, MusicianStatus::Waiting);
    assert_eq!(states[0].status, MusicianStatus::Idle);
}

#[test]
fn action_steps_follow_the_phase() {
    assert_eq!(action_step(OrchestraPhase::Executing, &UserAction::Quit), ActionStep::Shutdown);
    assert_eq!(action_step(OrchestraPhase::PlanReview, &UserAction::ApprovePlan), ActionStep::StartExecution);
    assert_eq!(action_step(OrchestraPhase::Init, &UserAction::ApprovePlan), ActionStep::Ignore);
    let refine = UserAction::RefinePlan { text: "x".into(), images: None };
    assert_eq!(action_step(OrchestraPhase::PlanReview, &refine), ActionStep::Replan);
    let submit = UserAction::SubmitTask { text: "t".into(), images: None };
    assert_eq!(action_step(OrchestraPhase::Init, &submit), ActionStep::Plan);
    assert_eq!(action_step(OrchestraPhase::PlanReview, &submit), ActionStep::Ignore);
    let guide = UserAction::SubmitGuidance { text: "g".into(), images: None };
    assert_eq!(action_step(OrchestraPhase::PhaseExecuting, &guide), ActionStep::QueueGuidance);
    let resume = UserAction::ResumeSession { session_id: "abc".into() };
    assert_eq!(action_step(OrchestraPhase::Init, &resume), ActionStep::Resume);
    assert_eq!(action_step(OrchestraPhase::Init, &UserAction::ScrollUp), ActionStep::Ignore);
}

#[test]
fn resume_steps_and_messages() {
    assert_eq!(resume_step(OrchestraPhase::PlanReview, None), (ResumeStep::ReviewPlan, Some("Resumed — plan ready for review.".to_string())));
    assert_eq!(
        resume_step(OrchestraPhase::PhaseExecuting, Some(2)),
        (ResumeStep::ContinuePhase, Some("Resumed — continuing from phase 3. Approve to proceed.".to_string()))
    );
    assert_eq!(
        resume_step(OrchestraPhase::PhaseReviewing, None).1.as_deref(),
        Some("Resumed — continuing from phase 1. Approve to proceed.")
    );
    assert_eq!(resume_step(OrchestraPhase::Failed, None).0, ResumeStep::AlreadyFinished);
    assert_eq!(resume_step(OrchestraPhase::Decomposing, None), (ResumeStep::Replan, None));
    assert_eq!(resume_failure_message("abc", false, None), "Session 'abc' not found");
    assert_eq!(resume_failure_message("abc", true, None), "Session 'abc' not found or ambiguous");
    assert_eq!(resume_failure_message("abc", false, Some("io")), "Failed to load session: io");
}

#[test]
fn absorbed_tasks_are_renumbered_with_phase_local_dependencies() {
    let mut tasks = vec![task(0, "old", vec![], TaskStatus::Completed)];
    let mut phase_tasks: Vec<Task> = vec![];
    let detailed = vec![
        task(0, "a", vec![0, 1], TaskStatus::Ready),
        task(1, "b", vec![0, 5], TaskStatus::Queued),
    ];
    absorb_detailed_tasks(&mut tasks, &mut phase_tasks, detailed);
    assert_eq!(tasks.len(), 3);
    assert_eq!(tasks[1].index, 1);
    assert_eq!(tasks[1].dependencies, vec![1]);
    assert_eq!(tasks[2].index, 2);
    assert_eq!(tasks[2].dependencies, vec![0]);
    assert_eq!(phase_tasks.len(), 2);
    assert_eq!(phase_tasks[1].title, "b");
    assert_eq!(phase_tasks[1].index, 2);
}
