use conductor::state::{MusicianStatus, OrchestraPhase, PhaseStatus, TaskStatus, TokenUsage, WorktreeStatus};

#[test]
fn enum_defaults() {
    assert_eq!(OrchestraPhase::default(), OrchestraPhase::Init);
    assert_eq!(TaskStatus::default(), TaskStatus::Queued);
    assert_eq!(PhaseStatus::default(), PhaseStatus::Pending);
    assert_eq!(MusicianStatus::default(), MusicianStatus::Idle);
    assert_eq!(WorktreeStatus::default(), WorktreeStatus::Active);
}

#[test]
fn token_usage_default_is_zero() {
    let t = TokenUsage::default();
    assert_eq!(t.input, 0);
    assert_eq!(t.output, 0);
    assert_eq!(t.cache_read, 0);
    assert_eq!(t.cache_creation, 0);
}
