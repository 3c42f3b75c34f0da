//! The planner's decisions: explore, analyse when the codebase map asks for
//! it, decompose into phases, then hand the plan to review, to execution or
//! to completion. The conductor's calls are made by the caller, who feeds
//! their outcomes back as events.
use crate::state::OrchestraPhase;
use crate::text::{decimal, push_decimal, push_str, views};
use vstd::prelude::*;

verus! {

broadcast use vstd::string::group_string_axioms;

/// Where planning stands, and the run's switches that planning obeys.
#[derive(Clone, Copy, Debug, PartialEq, Eq, Structural)]
pub struct PlanState {
    pub phase: OrchestraPhase,
    /// Whether analysts produced reports to decompose with.
    pub analysed: bool,
    pub dry_run: bool,
    pub headless: bool,
}

/// How decomposition ended.
#[derive(Clone, Copy, Debug, PartialEq, Eq, Structural)]
pub enum Decomposition {
    /// A plan with this many phases.
    Phases(usize),
    /// The conductor answered without a plan that could be read.
    Unreadable,
    /// The call failed.
    Failed,
}

/// What the caller reports back to the planner.
#[derive(Clone, Copy, Debug, PartialEq, Eq, Structural)]
pub enum PlanEvent {
    /// Planning starts.
    Start,
    /// Exploration ended: whether the map asked for analysis (`None` when
    /// exploration gave no map) and how many analysis directives it holds.
    Explored { analysis_needed: Option<bool>, directives: usize },
    /// The analysts ended, with this many reports.
    Analyzed(usize),
    /// Decomposition ended.
    Decomposed(Decomposition),
}

/// Why planning completes without executing.
#[derive(Clone, Copy, Debug, PartialEq, Eq, Structural)]
pub enum PlanEnd {
    /// No plan could be read from the conductor's answer.
    NoPlan,
    /// The plan has no phases.
    EmptyPlan,
    /// A dry run stops once the plan is made.
    DryRun,
}

/// What the caller does next.
#[derive(Clone, Copy, Debug, PartialEq, Eq, Structural)]
pub enum PlanAction {
    /// Explore the codebase.
    Explore,
    /// Run this many analysts.
    Analyze(usize),
    /// Decompose the task into phases, with the analysts' reports or not.
    Decompose { with_analysis: bool },
    /// Show the plan for approval.
    Review,
    /// Approve the plan at once and start executing (headless runs).
    Execute,
    /// Planning is over; the run is complete.
    Finish(PlanEnd),
    /// Planning failed.
    Fail,
    /// The event does not fit the current phase: nothing to do.
    Wait,
}

/// The planner's transition on an event.
pub open spec fn plan_transition(s: PlanState, e: PlanEvent) -> (PlanState, PlanAction) {
    match (s.phase, e) {
        (OrchestraPhase::Init, PlanEvent::Start) =>
            (PlanState { phase: OrchestraPhase::Exploring, analysed: false, ..s }, PlanAction::Explore),
        (OrchestraPhase::Exploring, PlanEvent::Explored { analysis_needed, directives }) =>
            if analysis_needed == Some(true) && directives > 0 {
                (PlanState { phase: OrchestraPhase::Analyzing, ..s }, PlanAction::Analyze(directives))
            } else {
                (PlanState { phase: OrchestraPhase::Decomposing, analysed: false, ..s },
                 PlanAction::Decompose { with_analysis: false })
            },
        (OrchestraPhase::Analyzing, PlanEvent::Analyzed(n)) =>
            (PlanState { phase: OrchestraPhase::Decomposing, analysed: n > 0, ..s },
             PlanAction::Decompose { with_analysis: n > 0 }),
        (OrchestraPhase::Decomposing, PlanEvent::Decomposed(d)) => match d {
            Decomposition::Unreadable =>
                (PlanState { phase: OrchestraPhase::Complete, ..s }, PlanAction::Finish(PlanEnd::NoPlan)),
            Decomposition::Failed =>
                (PlanState { phase: OrchestraPhase::Failed, ..s }, PlanAction::Fail),
            Decomposition::Phases(n) =>
                if n == 0 {
                    (PlanState { phase: OrchestraPhase::Complete, ..s }, PlanAction::Finish(PlanEnd::EmptyPlan))
                } else if s.dry_run {
                    (PlanState { phase: OrchestraPhase::Complete, ..s }, PlanAction::Finish(PlanEnd::DryRun))
                } else if s.headless {
                    (PlanState { phase: OrchestraPhase::PlanReview, ..s }, PlanAction::Execute)
                } else {
                    (PlanState { phase: OrchestraPhase::PlanReview, ..s }, PlanAction::Review)
                },
        },
        _ => (s, PlanAction::Wait),
    }
}

/// Takes one planning step: the next state and what to do (see
/// `plan_transition`).
pub fn plan_step(s: PlanState, e: PlanEvent) -> (r: (PlanState, PlanAction))
    ensures
        r == plan_transition(s, e),
{
    match (s.phase, e) {
        (OrchestraPhase::Init, PlanEvent::Start) =>
            (PlanState { phase: OrchestraPhase::Exploring, analysed: false, ..s }, PlanAction::Explore),
        (OrchestraPhase::Exploring, PlanEvent::Explored { analysis_needed, directives }) => {
            let wanted = match analysis_needed {
                Some(b) => b,
                None => false,
            };
            if wanted && directives > 0 {
                (PlanState { phase: OrchestraPhase::Analyzing, ..s }, PlanAction::Analyze(directives))
            } else {
                (PlanState { phase: OrchestraPhase::Decomposing, analysed: false, ..s },
                 PlanAction::Decompose { with_analysis: false })
            }
        },
        (OrchestraPhase::Analyzing, PlanEvent::Analyzed(n)) =>
            (PlanState { phase: OrchestraPhase::Decomposing, analysed: n > 0, ..s },
             PlanAction::Decompose { with_analysis: n > 0 }),
        (OrchestraPhase::Decomposing, PlanEvent::Decomposed(d)) => match d {
            Decomposition::Unreadable =>
                (PlanState { phase: OrchestraPhase::Complete, ..s }, PlanAction::Finish(PlanEnd::NoPlan)),
            Decomposition::Failed => (PlanState { phase: OrchestraPhase::Failed, ..s }, PlanAction::Fail),
            Decomposition::Phases(n) => {
                if n == 0 {
                    (PlanState { phase: OrchestraPhase::Complete, ..s }, PlanAction::Finish(PlanEnd::EmptyPlan))
                } else if s.dry_run {
                    (PlanState { phase: OrchestraPhase::Complete, ..s }, PlanAction::Finish(PlanEnd::DryRun))
                } else if s.headless {
                    (PlanState { phase: OrchestraPhase::PlanReview, ..s }, PlanAction::Execute)
                } else {
                    (PlanState { phase: OrchestraPhase::PlanReview, ..s }, PlanAction::Review)
                }
            },
        },
        _ => (s, PlanAction::Wait),
    }
}

/// Planning reaches review or execution only from a decomposition with at
/// least one phase, and never in a dry run.
pub proof fn lemma_plan_reaches_execution_only_with_phases(s: PlanState, e: PlanEvent)
    ensures
        (plan_transition(s, e).1 == PlanAction::Review || plan_transition(s, e).1 == PlanAction::Execute) ==> (
            s.phase == OrchestraPhase::Decomposing
            && !s.dry_run
            && exists|n: usize| n > 0 && e == PlanEvent::Decomposed(Decomposition::Phases(n))
        ),
{
    if plan_transition(s, e).1 == PlanAction::Review || plan_transition(s, e).1 == PlanAction::Execute {
        if let PlanEvent::Decomposed(Decomposition::Phases(n)) = e {
            assert(n > 0 && e == PlanEvent::Decomposed(Decomposition::Phases(n)));
        }
    }
}

/// Analysts run exactly when the codebase map asks for analysis and holds
/// at least one directive.
pub proof fn lemma_analysis_only_when_asked(s: PlanState, e: PlanEvent)
    ensures
        plan_transition(s, e).1 is Analyze <==> (
            s.phase == OrchestraPhase::Exploring
            && (e matches PlanEvent::Explored { analysis_needed, directives }
            && analysis_needed == Some(true) && directives > 0)
        ),
{
}

/// The lines planning reports when it takes `a`; `summary` is the plan's
/// summary, reported with an empty plan.
pub open spec fn plan_notes(a: PlanAction, summary: Seq<char>) -> Seq<Seq<char>> {
    match a {
        PlanAction::Explore => seq!["Pass 1/3: Exploring codebase..."@],
        PlanAction::Analyze(n) => seq!["Deep analysis: "@ + decimal(n as nat) + " analyst(s) investigating..."@],
        PlanAction::Decompose { with_analysis } =>
            seq![(if with_analysis { "Pass 3/3"@ } else { "Pass 2/3"@ }) + ": Decomposing into phases..."@],
        PlanAction::Finish(PlanEnd::NoPlan) => seq![
            ""@,
            "No actionable plan was produced. The task may be too vague or conversational."@,
            "Tip: describe a specific coding task, e.g. \"Add retry logic to the API client\""@,
        ],
        PlanAction::Finish(PlanEnd::EmptyPlan) => seq![
            "Decomposition produced no phases \u{2014} nothing to execute."@,
            "Summary: "@ + summary,
        ],
        _ => Seq::empty(),
    }
}

fn owned_str(s: &str) -> (r: String)
    ensures
        r@ == s@,
{
    let mut out = String::new();
    proof {
        reveal_strlit("");
    }
    push_str(&mut out, s);
    out
}

/// The lines planning reports when it takes `a` (see `plan_notes`).
pub fn plan_notes_for(a: PlanAction, summary: &str) -> (r: Vec<String>)
    ensures
        views(r@) == plan_notes(a, summary@),
{
    let mut out: Vec<String> = Vec::new();
    match a {
        PlanAction::Explore => {
            out.push(owned_str("Pass 1/3: Exploring codebase..."));
        },
        PlanAction::Analyze(n) => {
            let mut l = owned_str("Deep analysis: ");
            push_decimal(&mut l, n as u64);
            push_str(&mut l, " analyst(s) investigating...");
            out.push(l);
        },
        PlanAction::Decompose { with_analysis } => {
            let mut l = if with_analysis { owned_str("Pass 3/3") } else { owned_str("Pass 2/3") };
            push_str(&mut l, ": Decomposing into phases...");
            out.push(l);
        },
        PlanAction::Finish(PlanEnd::NoPlan) => {
            out.push(owned_str(""));
            out.push(owned_str("No actionable plan was produced. The task may be too vague or conversational."));
            out.push(owned_str("Tip: describe a specific coding task, e.g. \"Add retry logic to the API client\""));
        },
        PlanAction::Finish(PlanEnd::EmptyPlan) => {
            out.push(owned_str("Decomposition produced no phases \u{2014} nothing to execute."));
            let mut l = owned_str("Summary: ");
            push_str(&mut l, summary);
            out.push(l);
        },
        _ => {},
    }
    assert(views(out@) =~= plan_notes(a, summary@));
    out
}

} // verus!
