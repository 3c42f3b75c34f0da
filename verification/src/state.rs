//! Shared data model of the orchestrator: phases, tasks, plans, musicians,
//! rate limits, insights and persisted sessions.
use vstd::prelude::*;

verus! {

// ─── Orchestra state machine ─────────────────────────────────────

/// The phase the orchestra is currently in.
#[derive(Clone, Copy, Debug, PartialEq, Eq, Structural)]
pub enum OrchestraPhase {
    Init,
    /// Kept for sessions written by the single-pass planner.
    Planning,
    Exploring,
    Analyzing,
    Decomposing,
    PlanReview,
    PhaseDetailing,
    PhaseExecuting,
    PhaseMerging,
    PhaseReviewing,
    /// Flat (phase-less) execution.
    Executing,
    /// End-of-run review of a flat execution.
    Reviewing,
    FinalReview,
    Integrating,
    Paused,
    Probing,
    Complete,
    Failed,
}

impl Default for OrchestraPhase {
    fn default() -> (r: Self)
        ensures
            r == OrchestraPhase::Init,
    {
        OrchestraPhase::Init
    }
}

/// Configuration of one orchestration run.
#[derive(Clone, Debug)]
pub struct OrchestraConfig {
    pub project_path: String,
    pub task_description: String,
    pub musician_count: usize,
    pub conductor_model: String,
    pub musician_model: String,
    pub max_turns: u32,
    pub dry_run: bool,
    pub session_id: String,
    pub reference_session_id: Option<String>,
    pub verification: Option<Vec<String>>,
    pub headless: bool,
}

// ─── Tasks ───────────────────────────────────────────────────────

/// Life-cycle status of a task.
#[derive(Clone, Copy, Debug, PartialEq, Eq, Structural)]
pub enum TaskStatus {
    Queued,
    Ready,
    InProgress,
    Review,
    Completed,
    Failed,
    Blocked,
    Cancelled,
}

impl Default for TaskStatus {
    fn default() -> (r: Self)
        ensures
            r == TaskStatus::Queued,
    {
        TaskStatus::Queued
    }
}

/// One unit of work assigned to a musician.
#[derive(Clone, Debug)]
pub struct Task {
    pub id: String,
    pub index: usize,
    pub title: String,
    pub description: String,
    pub why: String,
    pub file_scope: Vec<String>,
    pub dependencies: Vec<usize>,
    pub acceptance_criteria: Vec<String>,
    pub estimated_turns: u32,
    pub model: Option<String>,
    pub status: TaskStatus,
    pub assigned_musician: Option<String>,
    pub result: Option<TaskResult>,
}

/// Outcome of executing a task.
#[derive(Clone, Debug)]
pub struct TaskResult {
    pub success: bool,
    pub files_modified: Vec<String>,
    pub summary: String,
    pub error: Option<String>,
    pub tokens_used: u64,
    pub duration_ms: u64,
    pub diff: Option<String>,
    pub verification_output: Option<String>,
    pub verification_passed: Option<bool>,
}

// ─── Phases ──────────────────────────────────────────────────────

/// Life-cycle status of a phase.
#[derive(Clone, Copy, Debug, PartialEq, Eq, Structural)]
pub enum PhaseStatus {
    Pending,
    Active,
    Completed,
    Failed,
}

impl Default for PhaseStatus {
    fn default() -> (r: Self)
        ensures
            r == PhaseStatus::Pending,
    {
        PhaseStatus::Pending
    }
}

/// A group of tasks that run in parallel; phases run one after another.
#[derive(Debug)]
pub struct Phase {
    pub id: String,
    pub index: usize,
    pub title: String,
    pub description: String,
    pub status: PhaseStatus,
    pub tasks: Vec<Task>,
    pub review_result: Option<PhaseReviewResult>,
    pub token_used: u64,
}

/// The conductor's verdict after a phase.
#[derive(Debug)]
pub struct PhaseReviewResult {
    pub action: PhaseReviewAction,
    pub task_indices: Option<Vec<usize>>,
    pub revised_phases: Option<Vec<Phase>>,
    pub summary: String,
}

/// What happens after a phase review.
#[derive(Clone, Copy, Debug, PartialEq, Eq, Structural)]
pub enum PhaseReviewAction {
    Continue,
    RetryTasks,
    ReviseRemainingPhases,
    Abort,
}

// ─── Checkpoints ─────────────────────────────────────────────────

/// A progress checkpoint committed by a musician.
#[derive(Clone, Debug)]
pub struct Checkpoint {
    pub turn_number: u32,
    pub files_modified: Vec<String>,
    pub timestamp: String,
    pub token_used: u64,
    pub commit_sha: Option<String>,
}

// ─── Worktree snapshots ──────────────────────────────────────────

/// Persisted description of a musician's git worktree.
#[derive(Clone, Debug)]
pub struct WorktreeSnapshot {
    pub worker_id: String,
    pub task_index: usize,
    pub branch: String,
    pub path: String,
    pub last_commit_sha: String,
    pub status: WorktreeStatus,
}

/// Life-cycle status of a worktree.
#[derive(Clone, Copy, Debug, PartialEq, Eq, Structural)]
pub enum WorktreeStatus {
    Active,
    Completed,
    Abandoned,
}

impl Default for WorktreeStatus {
    fn default() -> (r: Self)
        ensures
            r == WorktreeStatus::Active,
    {
        WorktreeStatus::Active
    }
}

// ─── Analysis ────────────────────────────────────────────────────

/// A question handed to an analyst before decomposition.
#[derive(Clone, Debug)]
pub struct AnalysisDirective {
    pub id: String,
    pub area: String,
    pub question: String,
    pub file_hints: Vec<String>,
    pub estimated_turns: u32,
}

/// What an analyst reported back.
#[derive(Clone, Debug)]
pub struct AnalysisResult {
    pub directive_id: String,
    pub area: String,
    pub findings: String,
    pub key_files: Vec<String>,
    pub patterns: Vec<String>,
    pub risks: Vec<String>,
    pub tokens_used: u64,
    pub duration_ms: u64,
}

/// Live state of one analyst.
#[derive(Clone, Debug)]
pub struct AnalystState {
    pub id: String,
    pub index: usize,
    pub status: MusicianStatus,
    pub directive: Option<AnalysisDirective>,
    pub output_lines: Vec<String>,
    pub tokens_used: u64,
    pub token_usage: TokenUsage,
    pub tokens_estimated: bool,
    pub started_at: Option<String>,
    pub elapsed_ms: u64,
}

// ─── Musicians ───────────────────────────────────────────────────

/// Life-cycle status of a musician (or analyst).
#[derive(Clone, Copy, Debug, PartialEq, Eq, Structural)]
pub enum MusicianStatus {
    Idle,
    Running,
    Waiting,
    Paused,
    Completed,
    Failed,
}

impl Default for MusicianStatus {
    fn default() -> (r: Self)
        ensures
            r == MusicianStatus::Idle,
    {
        MusicianStatus::Idle
    }
}

// ─── Codebase map ────────────────────────────────────────────────

/// The conductor's map of the explored codebase.
#[derive(Clone, Debug)]
pub struct CodebaseMap {
    pub summary: String,
    pub modules: Vec<CodebaseModule>,
    pub patterns: Vec<String>,
    pub conventions: Vec<String>,
    pub analysis_needed: Option<bool>,
    pub analysis_directives: Option<Vec<AnalysisDirective>>,
}

/// One module of the codebase map.
#[derive(Clone, Debug)]
pub struct CodebaseModule {
    pub path: String,
    pub purpose: String,
    pub key_files: Vec<String>,
    pub dependencies: Vec<String>,
}

// ─── Plan ────────────────────────────────────────────────────────

/// A single-pass execution plan.
#[derive(Clone, Debug)]
pub struct Plan {
    pub summary: String,
    pub tasks: Vec<Task>,
    pub dependency_graph: String,
    pub musician_assignment: String,
    pub learning_notes: Vec<String>,
    pub estimated_tokens: u64,
    pub estimated_minutes: u32,
    pub insights: Option<Vec<PlanInsight>>,
}

/// An educational note attached to a plan.
#[derive(Clone, Debug)]
pub struct PlanInsight {
    pub category: InsightCategory,
    pub title: String,
    pub body: String,
}

// ─── Plan refinement ─────────────────────────────────────────────

/// One message of the plan refinement conversation.
#[derive(Clone, Debug)]
pub struct PlanRefinementMessage {
    pub role: RefinementRole,
    pub text: String,
    pub images: Option<Vec<String>>,
    pub timestamp: String,
}

/// Who wrote a refinement message.
#[derive(Clone, Copy, Debug, PartialEq, Eq, Structural)]
pub enum RefinementRole {
    User,
    Conductor,
}

// ─── Guidance ────────────────────────────────────────────────────

/// Input of a guidance review by the conductor.
#[derive(Clone, Debug)]
pub struct GuidanceInput {
    pub user_messages: Vec<GuidanceMessage>,
    pub task_status: String,
    pub shared_memory: String,
}

/// A message the user sent during execution.
#[derive(Clone, Debug)]
pub struct GuidanceMessage {
    pub message: String,
    pub timestamp: String,
}

/// What the conductor decided to do about user guidance.
#[derive(Clone, Debug)]
pub struct GuidanceActions {
    pub add_tasks: Option<Vec<NewTaskSpec>>,
    pub cancel_tasks: Option<Vec<usize>>,
    pub modify_tasks: Option<Vec<TaskModification>>,
    pub guidance: Option<String>,
    pub insights: Option<Vec<PlanInsight>>,
}

/// A task the conductor wants to add.
#[derive(Clone, Debug)]
pub struct NewTaskSpec {
    pub title: String,
    pub description: String,
    pub why: String,
    pub file_scope: Vec<String>,
    pub dependencies: Vec<usize>,
    pub acceptance_criteria: Vec<String>,
    pub estimated_turns: u32,
    pub model: Option<String>,
}

/// A change to the description of a pending task.
#[derive(Clone, Debug)]
pub struct TaskModification {
    pub index: usize,
    pub new_description: String,
}

// ─── Token usage ─────────────────────────────────────────────────

/// Token counters reported by the model.
#[derive(Clone, Copy, Debug)]
pub struct TokenUsage {
    pub input: u64,
    pub output: u64,
    pub cache_read: u64,
    pub cache_creation: u64,
}

impl Default for TokenUsage {
    fn default() -> (r: Self)
        ensures
            r.input == 0 && r.output == 0 && r.cache_read == 0 && r.cache_creation == 0,
    {
        TokenUsage { input: 0, output: 0, cache_read: 0, cache_creation: 0 }
    }
}

// ─── Agent events ───────────────────────────────────────────────

/// Kind of an event streamed by an agent session.
#[derive(Clone, Copy, Debug, PartialEq, Eq, Structural)]
pub enum ClaudeEventType {
    System,
    Assistant,
    ToolUse,
    ToolResult,
    Result,
    Error,
}

// ─── Rate limiting ───────────────────────────────────────────────

/// Coarse rate-limit status.
#[derive(Clone, Copy, Debug, PartialEq, Eq, Structural)]
pub enum RateLimitStatus {
    Available,
    Warning,
    Limited,
}

/// Rate-limit state shown to the user.
#[derive(Clone, Debug)]
pub struct RateLimitState {
    pub status: RateLimitStatus,
    pub resets_at: Option<String>,
    pub last_probe_at: Option<String>,
    pub probe_count: u32,
    pub next_probe_in: Option<u64>,
}

impl Default for RateLimitState {
    fn default() -> (r: Self)
        ensures
            r.status == RateLimitStatus::Available,
            r.resets_at is None,
            r.last_probe_at is None,
            r.probe_count == 0,
            r.next_probe_in is None,
    {
        RateLimitState {
            status: RateLimitStatus::Available,
            resets_at: None,
            last_probe_at: None,
            probe_count: 0,
            next_probe_in: None,
        }
    }
}

// ─── Insights ────────────────────────────────────────────────────

/// Topic of an insight.
#[derive(Clone, Copy, Debug, PartialEq, Eq, Structural)]
pub enum InsightCategory {
    Pattern,
    Architecture,
    Tool,
    Decision,
    Concept,
    Why,
}

/// An educational insight shown in the side panel.
#[derive(Clone, Debug)]
pub struct Insight {
    pub timestamp: String,
    pub category: InsightCategory,
    pub title: String,
    pub body: String,
    pub source: String,
}

// ─── Plan validation ─────────────────────────────────────────────

/// Result of checking a plan before execution.
#[derive(Clone, Debug)]
pub struct PlanValidation {
    pub valid: bool,
    pub issues: Vec<ValidationIssue>,
    pub cycles: Option<Vec<Vec<usize>>>,
}

/// One problem found in a plan.
#[derive(Clone, Debug)]
pub struct ValidationIssue {
    pub severity: ValidationSeverity,
    pub message: String,
    pub task_indices: Option<Vec<usize>>,
}

/// How serious a validation issue is.
#[derive(Clone, Copy, Debug, PartialEq, Eq, Structural)]
pub enum ValidationSeverity {
    Error,
    Warning,
}

// ─── Project config file ─────────────────────────────────────────

/// Settings read from the project's `conductor.yml`.
#[derive(Clone, Debug)]
pub struct ConductorProjectConfig {
    pub verification: Option<Vec<String>>,
}

// ─── Session persistence ─────────────────────────────────────────

/// Everything persisted about a session.
#[derive(Debug)]
pub struct SessionData {
    pub id: String,
    pub config: OrchestraConfig,
    pub phase: OrchestraPhase,
    pub started_at: String,
    pub last_updated_at: String,
    pub tokens: TokenUsage,
    pub tokens_estimated: bool,
    pub tasks: Vec<Task>,
    pub phases: Option<Vec<Phase>>,
    pub current_phase_index: Option<i32>,
    pub worktree_state: Option<Vec<WorktreeSnapshot>>,
}

} // verus!
