use conductor::dag::{detect_dependency_cycles, validate_plan};
use conductor::state::{Task, TaskStatus, ValidationSeverity};

fn make_task(index: usize, dependencies: Vec<usize>, file_scope: Vec<String>) -> Task {
    Task {
        id: format!("task-{index}"),
        index,
        title: format!("Task {index}"),
        description: String::new(),
        why: String::new(),
        file_scope,
        dependencies,
        acceptance_criteria: vec![],
        estimated_turns: 10,
        model: None,
        status: TaskStatus::Queued,
        assigned_musician: None,
        result: None,
    }
}

#[test]
fn valid_dag_returns_empty() {
    let tasks = vec![
        make_task(0, vec![], vec![]),
        make_task(1, vec![0], vec![]),
        make_task(2, vec![1], vec![]),
    ];
    assert!(detect_dependency_cycles(&tasks).is_empty());
}

#[test]
fn independent_tasks_returns_empty() {
    let tasks = vec![
        make_task(0, vec![], vec![]),
        make_task(1, vec![], vec![]),
        make_task(2, vec![], vec![]),
    ];
    assert!(detect_dependency_cycles(&tasks).is_empty());
}

#[test]
fn detects_two_node_cycle() {
    let tasks = vec![
        make_task(0, vec![1], vec![]),
        make_task(1, vec![0], vec![]),
    ];
    let cycles = detect_dependency_cycles(&tasks);
    assert!(!cycles.is_empty());
    assert!(cycles[0].contains(&0));
    assert!(cycles[0].contains(&1));
}

#[test]
fn detects_three_node_cycle() {
    let tasks = vec![
        make_task(0, vec![2], vec![]),
        make_task(1, vec![0], vec![]),
        make_task(2, vec![1], vec![]),
    ];
    let cycles = detect_dependency_cycles(&tasks);
    assert!(!cycles.is_empty());
}

#[test]
fn handles_self_dependency() {
    let tasks = vec![make_task(0, vec![0], vec![])];
    let cycles = detect_dependency_cycles(&tasks);
    assert!(!cycles.is_empty());
}

#[test]
fn ignores_out_of_bounds_dependencies() {
    let tasks = vec![
        make_task(0, vec![99], vec![]),
        make_task(1, vec![0], vec![]),
    ];
    assert!(detect_dependency_cycles(&tasks).is_empty());
}

#[test]
fn validate_clean_plan() {
    let tasks = vec![
        make_task(0, vec![], vec!["a.ts".into()]),
        make_task(1, vec![0], vec!["b.ts".into()]),
    ];
    let result = validate_plan(&tasks);
    assert!(result.valid);
    assert!(result.issues.is_empty());
}

#[test]
fn validate_detects_invalid_dependency() {
    let tasks = vec![make_task(0, vec![5], vec![])];
    let result = validate_plan(&tasks);
    assert!(!result.valid);
    assert!(result.issues.iter().any(|i| i.severity == ValidationSeverity::Error));
}

#[test]
fn validate_detects_self_dependency() {
    let tasks = vec![make_task(0, vec![0], vec![])];
    let result = validate_plan(&tasks);
    assert!(!result.valid);
}

#[test]
fn validate_warns_on_overlapping_file_scope() {
    let tasks = vec![
        make_task(0, vec![], vec!["shared.ts".into()]),
        make_task(1, vec![], vec!["shared.ts".into()]),
    ];
    let result = validate_plan(&tasks);
    assert!(result.valid); // warnings don't make it invalid
    assert!(result.issues.iter().any(|i| i.severity == ValidationSeverity::Warning));
}

#[test]
fn validate_no_warning_when_overlap_has_dep() {
    let tasks = vec![
        make_task(0, vec![], vec!["shared.ts".into()]),
        make_task(1, vec![0], vec!["shared.ts".into()]),
    ];
    let result = validate_plan(&tasks);
    assert!(result.valid);
    assert!(result.issues.is_empty());
}

#[test]
fn handles_non_contiguous_indices() {
    // Simulates phase 2 tasks with global indices 5,6,7,8 (not 0,1,2,3)
    // This was causing a panic before the fix
    let tasks = vec![
        make_task(5, vec![], vec![]),
        make_task(6, vec![5], vec![]),
        make_task(7, vec![6], vec![]),
        make_task(8, vec![7], vec![]),
    ];
    assert!(detect_dependency_cycles(&tasks).is_empty());
    let result = validate_plan(&tasks);
    assert!(result.valid);
    assert!(result.issues.is_empty());
}

#[test]
fn non_contiguous_detects_cycle() {
    // Cycle: 10 → 11 → 12 → 10
    let tasks = vec![
        make_task(10, vec![12], vec![]),
        make_task(11, vec![10], vec![]),
        make_task(12, vec![11], vec![]),
    ];
    let cycles = detect_dependency_cycles(&tasks);
    assert!(!cycles.is_empty());
    let result = validate_plan(&tasks);
    assert!(!result.valid);
}

#[test]
fn non_contiguous_overlap_warning() {
    // Two tasks with non-contiguous indices sharing a file, no dependency
    let tasks = vec![
        make_task(5, vec![], vec!["shared.rs".into()]),
        make_task(8, vec![], vec!["shared.rs".into()]),
    ];
    let result = validate_plan(&tasks);
    assert!(result.valid); // warnings don't invalidate
    assert!(result.issues.iter().any(|i| i.severity == ValidationSeverity::Warning));
}

#[test]
fn non_contiguous_overlap_with_dep_no_warning() {
    // Two tasks with non-contiguous indices sharing a file, WITH dependency
    let tasks = vec![
        make_task(5, vec![], vec!["shared.rs".into()]),
        make_task(8, vec![5], vec!["shared.rs".into()]),
    ];
    let result = validate_plan(&tasks);
    assert!(result.valid);
    assert!(result.issues.is_empty());
}

#[test]
fn dependent_of_a_cycle_is_not_reported() {
    let tasks = vec![
        make_task(0, vec![1], vec![]),
        make_task(1, vec![0], vec![]),
        make_task(2, vec![0], vec![]),
    ];
    let r = detect_dependency_cycles(&tasks);
    assert_eq!(r.len(), 1);
    let mut c = r[0].clone();
    c.sort();
    assert_eq!(c, vec![0, 1]);
}

#[test]
fn separate_cycles_come_in_separate_groups() {
    let tasks = vec![
        make_task(0, vec![1], vec![]),
        make_task(1, vec![0], vec![]),
        make_task(2, vec![3, 0], vec![]),
        make_task(3, vec![2], vec![]),
    ];
    let r = detect_dependency_cycles(&tasks);
    assert_eq!(r, vec![vec![0, 1], vec![2, 3]]);
}
