use conductor::prompts::{
    analyst_prompt, decompose_prompt, decompose_with_analysis_prompt, detail_phase_prompt,
    explore_prompt, guidance_prompt, phase_review_prompt, plan_prompt, refine_prompt, review_prompt,
    sort_entries, ReviewInput,
};
use conductor::state::{
    AnalysisDirective, AnalysisResult, GuidanceInput, GuidanceMessage, Phase, PhaseStatus, Task,
    TaskResult, TaskStatus,
};

#[test]
fn plan_prompt_includes_project() {
    let prompt = plan_prompt("/my/project", "build feature X", None, "", "INSTRUCTIONS.md");
    assert!(prompt.contains("/my/project"));
    assert!(prompt.contains("build feature X"));
    assert!(prompt.contains("Conductor agent"));
    assert!(!prompt.contains("## Project Conventions"));
}

#[test]
fn plan_prompt_with_conventions_and_reference() {
    let prompt = plan_prompt("/p", "t", Some("earlier work"), "use tabs", "INSTRUCTIONS.md");
    assert!(prompt.contains(
        "## Project Conventions & Instructions\nThe following is from the project's INSTRUCTIONS.md — musicians MUST follow these conventions:\n\nuse tabs\n\n---\n\n"
    ));
    assert!(prompt.contains("earlier work\n\n---\n\n## Instructions"));
    assert!(prompt.starts_with("You are the Conductor agent in the Orchestra orchestration system. Your role"));
}

#[test]
fn explore_prompt_includes_task() {
    let prompt = explore_prompt("/proj", "port module", None, "", "INSTRUCTIONS.md");
    assert!(prompt.contains("port module"));
    assert!(prompt.contains("Exploration"));
    assert!(prompt.contains("Convention 1 from INSTRUCTIONS.md or discovered"));
}

#[test]
fn analyst_prompt_includes_directive() {
    let directive = AnalysisDirective {
        id: "d1".into(),
        area: "auth module".into(),
        question: "How does auth work?".into(),
        file_hints: vec!["src/auth.rs".into()],
        estimated_turns: 10,
    };
    let prompt = analyst_prompt(&directive, "Project summary", "/proj", "");
    assert!(prompt.contains("auth module"));
    assert!(prompt.contains("How does auth work?"));
    assert!(prompt.contains("`src/auth.rs`"));
}

#[test]
fn analyst_prompt_lists_hints() {
    let directive = AnalysisDirective {
        id: "d1".into(),
        area: "a".into(),
        question: "q".into(),
        file_hints: vec!["x.rs".into(), "y.rs".into()],
        estimated_turns: 1,
    };
    let prompt = analyst_prompt(&directive, "S", "/p", "rules");
    assert!(prompt.contains("**Starting Points**: `x.rs`, `y.rs`\n\n"));
    assert!(prompt.contains("## Project Conventions\nrules\n\n---\n\n## Codebase Context\nS\n\n"));
}

#[test]
fn decompose_prompt_includes_task() {
    let prompt = decompose_prompt("implement feature");
    assert!(prompt.contains("implement feature"));
    assert!(prompt.contains("Decomposition"));
}

#[test]
fn decompose_with_analysis_includes_reports() {
    let r = AnalysisResult {
        directive_id: "d".into(),
        area: "db".into(),
        findings: "uses sqlite".into(),
        key_files: vec!["a.rs".into(), "b.rs".into()],
        patterns: vec!["p1".into(), "p2".into()],
        risks: vec![],
        tokens_used: 0,
        duration_ms: 0,
    };
    let prompt = decompose_with_analysis_prompt("do it", &[r]);
    assert!(prompt.contains("### db\nuses sqlite\n\n**Key files**: a.rs, b.rs\n**Patterns**: p1; p2\n**Risks**: \n\n---"));
    assert!(prompt.contains("TASK: do it"));
}

fn task(title: &str, summary: Option<&str>) -> Task {
    Task {
        id: "i".into(),
        index: 0,
        title: title.into(),
        description: String::new(),
        why: String::new(),
        file_scope: vec![],
        dependencies: vec![],
        acceptance_criteria: vec![],
        estimated_turns: 1,
        model: None,
        status: TaskStatus::Completed,
        assigned_musician: None,
        result: summary.map(|s| TaskResult {
            success: true,
            files_modified: vec![],
            summary: s.into(),
            error: None,
            tokens_used: 0,
            duration_ms: 0,
            diff: None,
            verification_output: None,
            verification_passed: None,
        }),
    }
}

fn phase(title: &str, tasks: Vec<Task>) -> Phase {
    Phase {
        id: "p".into(),
        index: 0,
        title: title.into(),
        description: "desc".into(),
        status: PhaseStatus::Completed,
        tasks,
        review_result: None,
        token_used: 0,
    }
}

#[test]
fn detail_phase_prompt_recaps_completed_phases() {
    let done = phase("Setup", vec![task("A", Some("did A")), task("B", None)]);
    let next = phase("Build", vec![]);
    let prompt = detail_phase_prompt(&next, &[done]);
    assert!(prompt.starts_with(
        "## Phase Detailing\n\n## Completed Phases\n### Setup\ndesc\nTasks:\n- A [Completed]: did A\n- B [Completed]\n\nNow detail"
    ));
    assert!(prompt.contains("### Build\ndesc\n\n"));
    let first = detail_phase_prompt(&next, &[]);
    assert!(first.starts_with("## Phase Detailing\n\nNow detail the tasks for the next phase:"));
}

#[test]
fn guidance_prompt_includes_messages() {
    let input = GuidanceInput {
        user_messages: vec![GuidanceMessage {
            message: "focus on tests".into(),
            timestamp: "2026-01-01T00:00:00Z".into(),
        }],
        task_status: "3/5 complete".into(),
        shared_memory: "some memory".into(),
    };
    let prompt = guidance_prompt(&input);
    assert!(prompt.contains("focus on tests"));
    assert!(prompt.contains("3/5 complete"));
    assert!(prompt.contains("[2026-01-01T00:00:00Z] focus on tests"));
}

#[test]
fn guidance_prompt_keeps_tail_of_long_memory() {
    let input = GuidanceInput {
        user_messages: vec![],
        task_status: "s".into(),
        shared_memory: format!("{}END", "x".repeat(3000)),
    };
    let prompt = guidance_prompt(&input);
    assert!(prompt.contains("[...earlier entries truncated]\n\n"));
    assert!(prompt.contains("xEND\n\n## Instructions"));
}

#[test]
fn refine_prompt_asks_for_complete_plan() {
    assert!(refine_prompt().contains("COMPLETE updated plan"));
}

fn review_task(index: usize, title: &str, passed: Option<bool>) -> Task {
    Task {
        id: format!("t{index}"),
        index,
        title: title.into(),
        description: String::new(),
        why: String::new(),
        file_scope: vec![],
        dependencies: vec![],
        acceptance_criteria: vec![],
        estimated_turns: 5,
        model: None,
        status: TaskStatus::Completed,
        assigned_musician: None,
        result: Some(TaskResult {
            success: true,
            files_modified: vec![],
            summary: "ok".into(),
            error: None,
            tokens_used: 0,
            duration_ms: 0,
            diff: None,
            verification_output: None,
            verification_passed: passed,
        }),
    }
}

fn review_phase(title: &str, description: &str, status: PhaseStatus, tasks: Vec<Task>) -> Phase {
    Phase {
        id: title.into(),
        index: 0,
        title: title.into(),
        description: description.into(),
        status,
        tasks,
        review_result: None,
        token_used: 0,
    }
}

#[test]
fn phase_review_prompt_lists_results_sorted_diffs_and_pending_phases() {
    let current = review_phase("P1", "first", PhaseStatus::Active, vec![review_task(0, "A", Some(true))]);
    let all = vec![
        review_phase("P1", "first", PhaseStatus::Active, vec![]),
        review_phase("P2", "next", PhaseStatus::Pending, vec![]),
    ];
    let diffs = vec![(2, "d2".to_string()), (0, "d0".to_string())];
    let prompt = phase_review_prompt(&current, &all, &diffs, 1);
    assert!(prompt.starts_with(
        "## Phase Review: P1\n\n**NOTE**: This is retry attempt 1/3. If the issues are minor or cosmetic, prefer \"continue\" over another retry.\n\n### Completed Task Results\nTask 0: A\nStatus: Completed\nVerification: PASS\nSummary: ok\n\n### Git Diffs\n### Task 0\n```diff\nd0\n```\n\n### Task 2\n```diff\nd2\n```\n\n### Remaining Phases\n- P2: next\n\n## Instructions\n\nReview the completed phase."
    ));
    assert!(prompt.ends_with("- The JSON block must be the LAST thing in your response"));
    assert!(prompt.contains("{\n\"action\": \"continue|retry_tasks|revise_remaining_phases|abort\",\n\"taskIndices\": [0, 2],"));
}

#[test]
fn phase_review_prompt_last_phase_without_retry() {
    let current = review_phase("Only", "", PhaseStatus::Active, vec![review_task(3, "B", None)]);
    let prompt = phase_review_prompt(&current, &[], &vec![], 0);
    assert!(prompt.starts_with("## Phase Review: Only\n\n### Completed Task Results\nTask 3: B\nStatus: Completed\nVerification: N/A\nSummary: ok\n\n### Git Diffs\n\n\n### Remaining Phases\nNone — this was the last phase\n\n"));
}

#[test]
fn sort_entries_orders_by_task_number() {
    let e = vec![(5, "e".to_string()), (1, "a".to_string()), (3, "c".to_string())];
    let sorted = sort_entries(&e);
    assert_eq!(sorted.iter().map(|x| x.0).collect::<Vec<_>>(), vec![1, 3, 5]);
}

#[test]
fn review_prompt_splits_older_and_recent_diffs() {
    let diffs: Vec<(usize, String)> = (0..12).rev().map(|i| (i, format!("diff{i}"))).collect();
    let input = ReviewInput {
        task_results: "all done".into(),
        shared_memory: "mem".into(),
        diffs: Some(diffs),
        verification_results: Some(vec![(0, "passed".into())]),
    };
    let prompt = review_prompt(&input);
    assert!(prompt.starts_with("Review the completed work from musicians.\n\n## Completed Task Results\nall done\n\n## Older Task Diffs (summary only)\n- Task 1: diff available but omitted for context budget\n- Task 2: diff available but omitted for context budget\n\n## Git Diffs (recent tasks)\n### Task 3\n```diff\ndiff2\n```\n\n"));
    assert!(prompt.contains("### Task 12\n```diff\ndiff11\n```\n\n## Verification Results\n### Task 1\n```\npassed\n```\n\n## Shared Memory (musician discoveries)\nmem\n\n## Instructions"));
    assert!(prompt.ends_with("The JSON block must be the LAST thing in your response."));
}

#[test]
fn review_prompt_without_diffs_or_verification() {
    let input = ReviewInput {
        task_results: "r".into(),
        shared_memory: "x".repeat(4001),
        diffs: None,
        verification_results: Some(vec![]),
    };
    let prompt = review_prompt(&input);
    assert!(prompt.starts_with("Review the completed work from musicians.\n\n## Completed Task Results\nr\n\n## Shared Memory (musician discoveries)\n[...earlier entries truncated]\n\n"));
}
