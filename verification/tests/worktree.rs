use conductor::state::{WorktreeSnapshot, WorktreeStatus};
use conductor::worktree::{merge_order, BatchTaskContext, MergeResult, WorktreeManager};

#[test]
fn new_creates_empty_manager() {
    let mgr = WorktreeManager::new("/tmp/test");
    assert!(mgr.is_empty());
    assert!(mgr.git_repo_cached().is_none());
}

#[test]
fn get_worktree_returns_none_for_unknown() {
    let mgr = WorktreeManager::new("/tmp/test");
    assert!(mgr.get_worktree("unknown").is_none());
}

#[test]
fn worktree_exists_returns_false_for_unknown() {
    let mgr = WorktreeManager::new("/tmp/test");
    assert!(!mgr.worktree_exists("unknown"));
}

#[test]
fn restore_from_snapshots_only_restores_active() {
    let mut mgr = WorktreeManager::new("/tmp/test");
    let snapshots = vec![
        WorktreeSnapshot {
            worker_id: "m1".to_string(),
            task_index: 0,
            branch: "conductor/m1/task".to_string(),
            path: "/tmp/nonexistent-path-xyz".to_string(),
            last_commit_sha: "abc123".to_string(),
            status: WorktreeStatus::Active,
        },
        WorktreeSnapshot {
            worker_id: "m2".to_string(),
            task_index: 1,
            branch: "conductor/m2/task".to_string(),
            path: "/tmp".to_string(),
            last_commit_sha: "def456".to_string(),
            status: WorktreeStatus::Active,
        },
        WorktreeSnapshot {
            worker_id: "m3".to_string(),
            task_index: 2,
            branch: "conductor/m3/task".to_string(),
            path: "/tmp".to_string(),
            last_commit_sha: "ghi789".to_string(),
            status: WorktreeStatus::Completed,
        },
    ];

    mgr.restore_from_snapshots(&snapshots);

    assert!(mgr.get_worktree("m1").is_none());
    assert!(mgr.get_worktree("m2").is_some());
    let (path, branch) = mgr.get_worktree("m2").unwrap();
    assert_eq!(path, "/tmp");
    assert_eq!(branch, "conductor/m2/task");
    assert!(mgr.get_worktree("m3").is_none());
}

#[test]
fn merge_result_defaults() {
    let result = MergeResult { success: true, conflicts: vec![], resolved: false };
    assert!(result.success);
    assert!(result.conflicts.is_empty());
    assert!(!result.resolved);
}

#[test]
fn register_and_unregister() {
    let mut mgr = WorktreeManager::new("/p");
    mgr.register("w1", "/p/.conductor-worktrees/w1-a", "conductor/w1/a");
    mgr.register("w2", "/p/.conductor-worktrees/w2-b", "conductor/w2/b");
    mgr.register("w1", "/p/.conductor-worktrees/w1-c", "conductor/w1/c");
    assert_eq!(mgr.get_worktree("w1"), Some(("/p/.conductor-worktrees/w1-c", "conductor/w1/c")));
    mgr.unregister("w1");
    assert!(mgr.get_worktree("w1").is_none());
    assert!(mgr.get_worktree("w2").is_some());
    mgr.unregister("w2");
    assert!(mgr.is_empty());
}

fn ctx(files: &[&str]) -> BatchTaskContext {
    BatchTaskContext {
        title: "t".into(),
        summary: "s".into(),
        files_modified: files.iter().map(|f| f.to_string()).collect(),
    }
}

#[test]
fn merge_order_puts_least_overlap_first() {
    let ids: Vec<String> = vec!["a".into(), "b".into(), "c".into()];
    let contexts = vec![
        ("a".to_string(), ctx(&["x.rs", "y.rs"])),
        ("b".to_string(), ctx(&["z.rs"])),
        ("c".to_string(), ctx(&["x.rs"])),
    ];
    // a overlaps c on x.rs (1), b overlaps nobody (0), c overlaps a (1)
    assert_eq!(merge_order(&ids, &contexts), vec![1, 0, 2]);
}

#[test]
fn merge_order_keeps_ties_in_order() {
    let ids: Vec<String> = vec!["a".into(), "b".into()];
    assert_eq!(merge_order(&ids, &[]), vec![0, 1]);
}
