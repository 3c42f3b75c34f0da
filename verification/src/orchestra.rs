//! The decisions of the orchestra over its task list: which tasks are ready,
//! what a finished or failed task does to those that depend on it, what a
//! phase review asks for, and how user guidance changes pending work.
use crate::state::{
    GuidanceActions, NewTaskSpec, Phase, PhaseReviewAction, PhaseStatus, Task, TaskModification, TaskResult,
    TaskStatus,
};
use crate::text::{decimal, lowercase, push_char, push_decimal, push_str, to_lowercase, views};
use vstd::string::StringSliceAdditionalSpecFns;
use vstd::utf8::is_char_boundary;
use crate::musician::{Musician, MusicianState};
use crate::state::{SessionData, WorktreeSnapshot};
use crate::state::MusicianStatus;
use crate::state::OrchestraPhase;
use crate::events::UserAction;
use vstd::prelude::*;

verus! {

broadcast use vstd::string::group_string_axioms;

// ─── Conductor output ────────────────────────────────────────────

/// The conductor output panel keeps this many lines.
pub const CONDUCTOR_OUTPUT_LINES: usize = 100;

/// The last `n` items of `s` (all of them when there are fewer).
pub open spec fn keep_last<T>(s: Seq<T>, n: nat) -> Seq<T> {
    if s.len() > n { s.skip(s.len() - n) } else { s }
}

/// Appends a line to the conductor output, dropping the oldest lines beyond
/// the last hundred.
pub fn push_conductor_output(output: &mut Vec<String>, line: &str)
    ensures
        views(final(output)@) == keep_last(views(old(output)@).push(line@), CONDUCTOR_OUTPUT_LINES as nat),
{
    let ghost before = views(output@);
    output.push(line.to_owned());
    assert(views(output@) =~= before.push(line@));
    if output.len() > CONDUCTOR_OUTPUT_LINES {
        let excess = output.len() - CONDUCTOR_OUTPUT_LINES;
        let ghost all = output@;
        let tail = output.split_off(excess);
        *output = tail;
        assert(views(output@) =~= views(all).skip(excess as int));
    }
}

// ─── Task scheduling ─────────────────────────────────────────────

/// A task still to be done: queued, ready, running or blocked.
pub open spec fn is_pending(s: TaskStatus) -> bool {
    s == TaskStatus::Queued || s == TaskStatus::Ready || s == TaskStatus::InProgress || s == TaskStatus::Blocked
}

/// Whether task `t` belongs to the phase being run (every task when no
/// phase limits them).
pub open spec fn in_scope(t: Task, scope: Option<Seq<usize>>) -> bool {
    match scope {
        Some(ix) => ix.contains(t.index),
        None => true,
    }
}

/// The view of an optional list of task indices.
pub open spec fn scope_view(scope: Option<&Vec<usize>>) -> Option<Seq<usize>> {
    match scope {
        Some(v) => Some(v@),
        None => None,
    }
}

fn scope_contains(scope: Option<&Vec<usize>>, index: usize) -> (r: bool)
    ensures
        r == match scope_view(scope) {
            Some(ix) => ix.contains(index),
            None => true,
        },
{
    match scope {
        None => true,
        Some(v) => {
            assert(scope_view(scope) == Some(v@));
            let mut k: usize = 0;
            while k < v.len()
                invariant
                    k <= v.len(),
                    scope_view(scope) == Some(v@),
                    forall|j: int| 0 <= j < k ==> v@[j] != index,
                decreases v.len() - k,
            {
                if v[k] == index {
                    assert(v@[k as int] == index);
                    assert(v@.contains(index));
                    return true;
                }
                k = k + 1;
            }
            false
        },
    }
}

/// Whether any task in scope is still to be done.
pub fn has_remaining_tasks(tasks: &Vec<Task>, scope: Option<&Vec<usize>>) -> (r: bool)
    ensures
        r == exists|i: int|
            0 <= i < tasks@.len() && in_scope(#[trigger] tasks@[i], scope_view(scope)) && is_pending(tasks@[i].status),
{
    let mut i: usize = 0;
    while i < tasks.len()
        invariant
            i <= tasks.len(),
            forall|j: int|
                0 <= j < i ==> !(in_scope(#[trigger] tasks@[j], scope_view(scope)) && is_pending(tasks@[j].status)),
        decreases tasks.len() - i,
    {
        let t = &tasks[i];
        let pending = match t.status {
            TaskStatus::Queued | TaskStatus::Ready | TaskStatus::InProgress | TaskStatus::Blocked => true,
            _ => false,
        };
        if pending && scope_contains(scope, t.index) {
            return true;
        }
        i = i + 1;
    }
    false
}

/// A task with nothing in it, to stand in while a task is edited.
fn blank_task() -> (r: Task)
    ensures
        r.id@.len() == 0 && r.title@.len() == 0 && r.description@.len() == 0 && r.why@.len() == 0,
        r.index == 0 && r.estimated_turns == 0 && r.status == TaskStatus::Queued,
        r.file_scope@.len() == 0 && r.dependencies@.len() == 0 && r.acceptance_criteria@.len() == 0,
        r.model is None && r.assigned_musician is None && r.result is None,
{
    Task {
        id: String::new(),
        index: 0,
        title: String::new(),
        description: String::new(),
        why: String::new(),
        file_scope: Vec::new(),
        dependencies: Vec::new(),
        acceptance_criteria: Vec::new(),
        estimated_turns: 0,
        model: None,
        status: TaskStatus::Queued,
        assigned_musician: None,
        result: None,
    }
}

/// Sets the status of task `i`.
fn set_status(tasks: &mut Vec<Task>, i: usize, status: TaskStatus)
    requires
        i < old(tasks)@.len(),
    ensures
        final(tasks)@ == old(tasks)@.update(i as int, Task { status, ..old(tasks)@[i as int] }),
{
    let mut t = blank_task();
    tasks.set_and_swap(i, &mut t);
    t.status = status;
    tasks.set(i, t);
}

/// Sets the status and result of task `i`.
fn set_outcome(tasks: &mut Vec<Task>, i: usize, status: TaskStatus, result: Option<TaskResult>)
    requires
        i < old(tasks)@.len(),
    ensures
        final(tasks)@ == old(tasks)@.update(i as int, Task { status, result, ..old(tasks)@[i as int] }),
{
    let mut t = blank_task();
    tasks.set_and_swap(i, &mut t);
    t.status = status;
    t.result = result;
    tasks.set(i, t);
}

/// Takes the first ready task in scope and marks it running; returns its
/// position in the list.
pub fn get_next_ready_task(tasks: &mut Vec<Task>, scope: Option<&Vec<usize>>) -> (r: Option<usize>)
    ensures
        match r {
            Some(i) => {
                &&& i < old(tasks)@.len()
                &&& in_scope(old(tasks)@[i as int], scope_view(scope))
                &&& old(tasks)@[i as int].status == TaskStatus::Ready
                &&& forall|j: int| 0 <= j < i ==> !(in_scope(#[trigger] old(tasks)@[j], scope_view(scope))
                    && old(tasks)@[j].status == TaskStatus::Ready)
                &&& final(tasks)@ == old(tasks)@.update(
                    i as int,
                    Task { status: TaskStatus::InProgress, ..old(tasks)@[i as int] },
                )
            },
            None => {
                &&& final(tasks)@ == old(tasks)@
                &&& forall|j: int| 0 <= j < old(tasks)@.len() ==> !(in_scope(#[trigger] old(tasks)@[j], scope_view(scope))
                    && old(tasks)@[j].status == TaskStatus::Ready)
            },
        },
{
    let mut i: usize = 0;
    while i < tasks.len()
        invariant
            i <= tasks.len(),
            tasks@ == old(tasks)@,
            forall|j: int| 0 <= j < i ==> !(in_scope(#[trigger] tasks@[j], scope_view(scope))
                && tasks@[j].status == TaskStatus::Ready),
        decreases tasks.len() - i,
    {
        let ready = tasks[i].status == TaskStatus::Ready;
        if ready && scope_contains(scope, tasks[i].index) {
            set_status(tasks, i, TaskStatus::InProgress);
            return Some(i);
        }
        i = i + 1;
    }
    None
}

/// After a restart no musician is running: tasks that were running go back
/// to the queue, unassigned and without a result.
pub open spec fn requeued(t: Task) -> Task {
    if t.status == TaskStatus::InProgress {
        Task { status: TaskStatus::Queued, assigned_musician: None, result: None, ..t }
    } else {
        t
    }
}

/// Puts tasks that were running back in the queue.
pub fn requeue_running(tasks: &mut Vec<Task>)
    ensures
        final(tasks)@ == old(tasks)@.map_values(|t: Task| requeued(t)),
{
    let mut i: usize = 0;
    while i < tasks.len()
        invariant
            i <= tasks.len(),
            tasks@.len() == old(tasks)@.len(),
            forall|j: int| 0 <= j < i ==> tasks@[j] == requeued(old(tasks)@[j]),
            forall|j: int| i <= j < tasks@.len() ==> tasks@[j] == old(tasks)@[j],
        decreases tasks.len() - i,
    {
        if tasks[i].status == TaskStatus::InProgress {
            let mut t = blank_task();
            tasks.set_and_swap(i, &mut t);
            t.status = TaskStatus::Queued;
            t.assigned_musician = None;
            t.result = None;
            tasks.set(i, t);
        }
        i = i + 1;
    }
    assert(tasks@ =~= old(tasks)@.map_values(|t: Task| requeued(t)));
}


// ─── Readiness ───────────────────────────────────────────────────

/// The statuses of the tasks, in order.
pub open spec fn statuses(ts: Seq<Task>) -> Seq<TaskStatus> {
    ts.map_values(|t: Task| t.status)
}

/// A task waiting for its dependencies: queued or blocked.
pub open spec fn waiting(s: TaskStatus) -> bool {
    s == TaskStatus::Queued || s == TaskStatus::Blocked
}

/// The first of `deps` whose task has failed, if any.
pub open spec fn failed_dep(st: Seq<TaskStatus>, deps: Seq<usize>) -> Option<usize>
    decreases deps.len(),
{
    if deps.len() == 0 {
        None
    } else if deps[0] < st.len() && st[deps[0] as int] == TaskStatus::Failed {
        Some(deps[0])
    } else {
        failed_dep(st, deps.drop_first())
    }
}

/// Every dependency is done (completed or cancelled) or names no task.
pub open spec fn deps_done(st: Seq<TaskStatus>, deps: Seq<usize>) -> bool {
    forall|k: int| 0 <= k < deps.len() ==> (#[trigger] deps[k] >= st.len()
        || st[deps[k] as int] == TaskStatus::Completed || st[deps[k] as int] == TaskStatus::Cancelled)
}

/// Task `i`, with dependencies `deps`, looked at once: a waiting task fails
/// when a dependency failed, becomes ready when all are done, and is blocked
/// otherwise.
pub open spec fn readiness_step(st: Seq<TaskStatus>, deps: Seq<usize>, i: int) -> Seq<TaskStatus> {
    if !waiting(st[i]) {
        st
    } else if failed_dep(st, deps) is Some {
        st.update(i, TaskStatus::Failed)
    } else if deps_done(st, deps) {
        st.update(i, TaskStatus::Ready)
    } else if deps.len() > 0 {
        st.update(i, TaskStatus::Blocked)
    } else {
        st
    }
}

/// The statuses after looking at the first `i` tasks in order (a failure
/// found early reaches later tasks in the same pass).
pub open spec fn readiness_upto(ts: Seq<Task>, i: nat) -> Seq<TaskStatus>
    decreases i,
{
    if i == 0 {
        statuses(ts)
    } else {
        readiness_step(readiness_upto(ts, (i - 1) as nat), ts[i - 1].dependencies@, i - 1)
    }
}

/// Positions at or after `m` keep their status through the first `m` looks.
proof fn lemma_readiness_untouched(ts: Seq<Task>, m: nat, j: int)
    requires
        m <= j < ts.len(),
    ensures
        readiness_upto(ts, m).len() == ts.len(),
        readiness_upto(ts, m)[j] == ts[j].status,
    decreases m,
{
    if m > 0 {
        lemma_readiness_untouched(ts, (m - 1) as nat, j);
        lemma_readiness_len(ts, (m - 1) as nat);
    }
}

proof fn lemma_readiness_len(ts: Seq<Task>, m: nat)
    requires
        m <= ts.len(),
    ensures
        readiness_upto(ts, m).len() == ts.len(),
    decreases m,
{
    if m > 0 {
        lemma_readiness_len(ts, (m - 1) as nat);
    }
}

/// After task `i` was looked at, later looks leave its status alone.
proof fn lemma_readiness_settled(ts: Seq<Task>, i: int, m: nat)
    requires
        0 <= i < m <= ts.len(),
    ensures
        readiness_upto(ts, m)[i] == readiness_upto(ts, (i + 1) as nat)[i],
    decreases m,
{
    if m > i + 1 {
        lemma_readiness_settled(ts, i, (m - 1) as nat);
        lemma_readiness_len(ts, (m - 1) as nat);
    }
}

proof fn lemma_failed_dep_none(st: Seq<TaskStatus>, deps: Seq<usize>)
    ensures
        failed_dep(st, deps) is None <==> forall|k: int| 0 <= k < deps.len() && (#[trigger] deps[k]) < st.len()
            ==> st[deps[k] as int] != TaskStatus::Failed,
    decreases deps.len(),
{
    if deps.len() > 0 {
        lemma_failed_dep_none(st, deps.drop_first());
        if failed_dep(st, deps) is None {
            assert forall|k: int| 0 <= k < deps.len() && (#[trigger] deps[k]) < st.len() implies st[deps[k] as int] != TaskStatus::Failed by {
                if k > 0 {
                    assert(deps[k] == deps.drop_first()[k - 1]);
                }
            }
        } else if !(deps[0] < st.len() && st[deps[0] as int] == TaskStatus::Failed) {
            let k = choose|k: int| 0 <= k < deps.drop_first().len() && (#[trigger] deps.drop_first()[k]) < st.len()
                && st[deps.drop_first()[k] as int] == TaskStatus::Failed;
            assert(deps[k + 1] == deps.drop_first()[k]);
        }
    }
}

/// What one pass of `update_task_readiness` decides for task `i`, in terms
/// of the statuses its dependencies have when its turn comes (`before`):
/// a waiting task becomes ready only when every dependency that names a
/// task is completed or cancelled; with no failed dependency and one still
/// ready, queued, blocked or running, it is blocked; with a failed one, it
/// fails; a task that is not waiting keeps its status.
pub proof fn lemma_readiness_decision(ts: Seq<Task>, i: int)
    requires
        0 <= i < ts.len(),
    ensures
        ({
            let before = readiness_upto(ts, i as nat);
            let after = readiness_upto(ts, ts.len());
            let deps = ts[i].dependencies@;
            &&& after.len() == ts.len()
            &&& !(ts[i].status == TaskStatus::Queued || ts[i].status == TaskStatus::Blocked) ==> after[i] == ts[i].status
            &&& (ts[i].status == TaskStatus::Queued || ts[i].status == TaskStatus::Blocked) && after[i] == TaskStatus::Ready
                ==> forall|k: int| 0 <= k < deps.len() && (#[trigger] deps[k]) < ts.len()
                    ==> before[deps[k] as int] == TaskStatus::Completed || before[deps[k] as int] == TaskStatus::Cancelled
            &&& (ts[i].status == TaskStatus::Queued || ts[i].status == TaskStatus::Blocked)
                && (forall|k: int| 0 <= k < deps.len() && (#[trigger] deps[k]) < ts.len() ==> before[deps[k] as int] != TaskStatus::Failed)
                && (exists|k: int| 0 <= k < deps.len() && (#[trigger] deps[k]) < ts.len() && (
                    before[deps[k] as int] == TaskStatus::Ready || before[deps[k] as int] == TaskStatus::Queued
                    || before[deps[k] as int] == TaskStatus::Blocked || before[deps[k] as int] == TaskStatus::InProgress))
                ==> after[i] == TaskStatus::Blocked
            &&& (ts[i].status == TaskStatus::Queued || ts[i].status == TaskStatus::Blocked)
                && (exists|k: int| 0 <= k < deps.len() && (#[trigger] deps[k]) < ts.len() && before[deps[k] as int] == TaskStatus::Failed)
                ==> after[i] == TaskStatus::Failed
        }),
{
    let before = readiness_upto(ts, i as nat);
    let deps = ts[i].dependencies@;
    lemma_readiness_untouched(ts, i as nat, i);
    lemma_readiness_len(ts, ts.len());
    lemma_readiness_len(ts, (i + 1) as nat);
    lemma_readiness_settled(ts, i, ts.len());
    lemma_failed_dep_none(before, deps);
    assert(readiness_upto(ts, (i + 1) as nat) == readiness_step(before, deps, i));
}

/// The failed dependency that made task `i` fail in the pass, if any.
pub open spec fn failed_by(ts: Seq<Task>, i: int) -> Option<usize> {
    let st = readiness_upto(ts, i as nat);
    if waiting(st[i]) { failed_dep(st, ts[i].dependencies@) } else { None }
}

/// The summary of a task skipped because dependency `d`, titled `title`,
/// failed.
pub open spec fn skip_summary(d: usize, title: Seq<char>) -> Seq<char> {
    "Skipped — dependency Task "@ + decimal((d + 1) as nat) + " (\""@ + title + "\") failed"@
}

/// The error of a task skipped because dependency `d` failed.
pub open spec fn skip_error(d: usize) -> Seq<char> {
    "dependency_failed:"@ + decimal(d as nat)
}

/// `r` is the result of a task skipped because dependency `d`, titled
/// `title`, failed.
pub open spec fn is_skip_result(r: Option<TaskResult>, d: usize, title: Seq<char>) -> bool {
    match r {
        Some(r) => {
            &&& !r.success
            &&& r.files_modified@.len() == 0
            &&& r.summary@ == skip_summary(d, title)
            &&& r.error matches Some(e) && e@ == skip_error(d)
            &&& r.tokens_used == 0 && r.duration_ms == 0
            &&& r.diff is None && r.verification_output is None && r.verification_passed is None
        },
        None => false,
    }
}

/// `t` is `old` with only its status and result changed.
pub open spec fn same_task(t: Task, old: Task) -> bool {
    t == Task { status: t.status, result: t.result, ..old }
}

fn skip_result(d: usize, title: &str) -> (r: TaskResult)
    requires
        d < usize::MAX,
    ensures
        is_skip_result(Some(r), d, title@),
{
    let mut summary = String::new();
    push_str(&mut summary, "Skipped — dependency Task ");
    push_decimal(&mut summary, (d + 1) as u64);
    push_str(&mut summary, " (\"");
    push_str(&mut summary, title);
    push_str(&mut summary, "\") failed");
    let mut error = String::new();
    push_str(&mut error, "dependency_failed:");
    push_decimal(&mut error, d as u64);
    TaskResult {
        success: false,
        files_modified: Vec::new(),
        summary,
        error: Some(error),
        tokens_used: 0,
        duration_ms: 0,
        diff: None,
        verification_output: None,
        verification_passed: None,
    }
}

proof fn lemma_failed_dep_bound(st: Seq<TaskStatus>, deps: Seq<usize>)
    ensures
        failed_dep(st, deps) matches Some(d) ==> d < st.len() && st[d as int] == TaskStatus::Failed,
    decreases deps.len(),
{
    if deps.len() > 0 {
        lemma_failed_dep_bound(st, deps.drop_first());
    }
}

fn find_failed_dep(tasks: &Vec<Task>, deps: &Vec<usize>) -> (r: Option<usize>)
    ensures
        r == failed_dep(statuses(tasks@), deps@),
{
    let ghost st = statuses(tasks@);
    let mut k: usize = 0;
    assert(deps@.skip(0) =~= deps@);
    while k < deps.len()
        invariant
            k <= deps.len(),
            st == statuses(tasks@),
            failed_dep(st, deps@) == failed_dep(st, deps@.skip(k as int)),
        decreases deps.len() - k,
    {
        assert(deps@.skip(k as int).drop_first() =~= deps@.skip(k + 1));
        let d = deps[k];
        if d < tasks.len() && tasks[d].status == TaskStatus::Failed {
            return Some(d);
        }
        k = k + 1;
    }
    None
}

fn all_deps_done(tasks: &Vec<Task>, deps: &Vec<usize>) -> (r: bool)
    ensures
        r == deps_done(statuses(tasks@), deps@),
{
    let mut k: usize = 0;
    while k < deps.len()
        invariant
            k <= deps.len(),
            forall|j: int| 0 <= j < k ==> (#[trigger] deps@[j] >= tasks@.len()
                || tasks@[deps@[j] as int].status == TaskStatus::Completed
                || tasks@[deps@[j] as int].status == TaskStatus::Cancelled),
        decreases deps.len() - k,
    {
        let d = deps[k];
        if d < tasks.len() {
            let s = tasks[d].status;
            if s != TaskStatus::Completed && s != TaskStatus::Cancelled {
                return false;
            }
        }
        k = k + 1;
    }
    true
}

/// Looks at every waiting task in order: it fails (with a result that names
/// the dependency) when one of its dependencies failed, becomes ready when
/// all are done, and is blocked otherwise.
#[verifier::rlimit(30)]
pub fn update_task_readiness(tasks: &mut Vec<Task>)
    ensures
        final(tasks)@.len() == old(tasks)@.len(),
        statuses(final(tasks)@) == readiness_upto(old(tasks)@, old(tasks)@.len()),
        forall|i: int| 0 <= i < final(tasks)@.len() ==> same_task(#[trigger] final(tasks)@[i], old(tasks)@[i]),
        forall|i: int| 0 <= i < final(tasks)@.len() ==> match #[trigger] failed_by(old(tasks)@, i) {
            Some(d) => is_skip_result(final(tasks)@[i].result, d, old(tasks)@[d as int].title@),
            None => final(tasks)@[i].result == old(tasks)@[i].result,
        },
{
    let ghost orig = tasks@;
    let n = tasks.len();
    let mut i: usize = 0;
    while i < n
        invariant
            i <= n,
            n == orig.len(),
            tasks@.len() == n,
            statuses(tasks@) == readiness_upto(orig, i as nat),
            forall|j: int| 0 <= j < n ==> same_task(#[trigger] tasks@[j], orig[j]),
            forall|j: int| 0 <= j < i ==> match #[trigger] failed_by(orig, j) {
                Some(d) => is_skip_result(tasks@[j].result, d, orig[d as int].title@),
                None => tasks@[j].result == orig[j].result,
            },
            forall|j: int| i <= j < n ==> #[trigger] tasks@[j].result == orig[j].result,
        decreases n - i,
    {
        let ghost st = statuses(tasks@);
        assert(st[i as int] == tasks@[i as int].status);
        assert(tasks@[i as int].dependencies@ == orig[i as int].dependencies@);
        let status = tasks[i].status;
        if status == TaskStatus::Blocked || status == TaskStatus::Queued {
            match find_failed_dep(tasks, &tasks[i].dependencies) {
                Some(d) => {
                    proof {
                        lemma_failed_dep_bound(st, tasks@[i as int].dependencies@);
                        assert(same_task(tasks@[d as int], orig[d as int]));
                    }
                    assert(tasks@[d as int].title == orig[d as int].title);
                    let r = skip_result(d, tasks[d].title.as_str());
                    set_outcome(tasks, i, TaskStatus::Failed, Some(r));
                    assert(statuses(tasks@) =~= st.update(i as int, TaskStatus::Failed));
                },
                None => {
                    if all_deps_done(tasks, &tasks[i].dependencies) {
                        set_status(tasks, i, TaskStatus::Ready);
                        assert(statuses(tasks@) =~= st.update(i as int, TaskStatus::Ready));
                    } else if tasks[i].dependencies.len() > 0 {
                        set_status(tasks, i, TaskStatus::Blocked);
                        assert(statuses(tasks@) =~= st.update(i as int, TaskStatus::Blocked));
                    }
                },
            }
        }
        i = i + 1;
    }
}


// ─── Session references in a task description ────────────────────

/// The phrases after which a task description may name an earlier session,
/// tried in this order.
pub open spec fn reference_keywords() -> Seq<Seq<char>> {
    seq![
        "session "@, "improve on "@, "build on "@, "iterate on "@, "continue on "@,
        "improve on top of "@, "build on top of "@, "iterate on top of "@, "continue on top of "@,
        "improve "@, "build "@, "iterate "@, "continue "@,
    ]
}

/// Whether `b` encodes an ASCII hexadecimal digit.
pub open spec fn is_hex_byte(b: u8) -> bool {
    (48 <= b && b <= 57) || (65 <= b && b <= 70) || (97 <= b && b <= 102)
}

/// The number of hexadecimal digits in `b` from offset `i` on.
pub open spec fn hex_run(b: Seq<u8>, i: int) -> nat
    decreases b.len() - i,
{
    if 0 <= i < b.len() && is_hex_byte(b[i]) { 1 + hex_run(b, i + 1) } else { 0 }
}

/// A hexadecimal digit byte as a lowercase character.
pub open spec fn hex_lower(b: u8) -> char {
    if 65 <= b && b <= 70 { ((b + 32) as u8) as char } else { b as char }
}

/// Whether `pat` occurs in `b` at offset `i`.
pub open spec fn bytes_at(b: Seq<u8>, pat: Seq<u8>, i: int) -> bool {
    0 <= i && i + pat.len() <= b.len() && b.subrange(i, i + pat.len()) == pat
}

/// The first offset at which `pat` occurs in `b`, if any.
#[verifier::opaque]
pub open spec fn first_bytes(b: Seq<u8>, pat: Seq<u8>) -> Option<int> {
    if exists|i: int| bytes_at(b, pat, i) {
        Some(choose|i: int| bytes_at(b, pat, i) && forall|j: int| 0 <= j < i ==> !bytes_at(b, pat, j))
    } else {
        None
    }
}

/// What phrase `kw` yields: `Some(Some(id))` when it is found in the
/// lowercase bytes `lb` and followed, in the original bytes `tb`, by six to
/// eight hexadecimal digits (given in lowercase); `Some(None)` when it is
/// absent or not followed so; `None` when it ends at an offset that is no
/// character boundary of the original text, where taking the text after it
/// fails.
#[verifier::opaque]
pub open spec fn reference_at(tb: Seq<u8>, lb: Seq<u8>, kw: Seq<char>) -> Option<Option<Seq<char>>> {
    let kb = crate::keys::bytes_of(kw);
    match first_bytes(lb, kb) {
        None => Some(None),
        Some(pos) => {
            let start = pos + kb.len();
            if start > tb.len() || !is_char_boundary(tb, start) {
                None
            } else {
                let n = hex_run(tb, start);
                if 6 <= n <= 8 {
                    Some(Some(tb.subrange(start, start + n).map_values(|b: u8| hex_lower(b))))
                } else {
                    Some(None)
                }
            }
        },
    }
}

/// The search for a session reference over the phrases `kws` in order: the
/// first that yields one gives it; the outer `None` is a failing offset.
pub open spec fn reference_search(tb: Seq<u8>, lb: Seq<u8>, kws: Seq<Seq<char>>) -> Option<Option<Seq<char>>>
    decreases kws.len(),
{
    if kws.len() == 0 {
        Some(None)
    } else {
        match reference_at(tb, lb, kws[0]) {
            None => None,
            Some(Some(id)) => Some(Some(id)),
            Some(None) => reference_search(tb, lb, kws.drop_first()),
        }
    }
}

pub(crate) proof fn lemma_first_bytes(b: Seq<u8>, pat: Seq<u8>, i: int)
    requires
        bytes_at(b, pat, i),
        forall|j: int| 0 <= j < i ==> !bytes_at(b, pat, j),
    ensures
        first_bytes(b, pat) == Some(i),
{
    reveal(first_bytes);
    let c = choose|k: int| bytes_at(b, pat, k) && forall|j: int| 0 <= j < k ==> !bytes_at(b, pat, j);
    assert(bytes_at(b, pat, c));
    if c < i {
        assert(!bytes_at(b, pat, c));
    }
    if c > i {
        assert(!bytes_at(b, pat, i));
    }
}

pub(crate) fn find_bytes(b: &[u8], pat: &[u8]) -> (r: Option<usize>)
    ensures
        match r {
            Some(i) => first_bytes(b@, pat@) == Some(i as int) && i + pat@.len() <= b@.len(),
            None => first_bytes(b@, pat@) is None,
        },
{
    reveal(first_bytes);
    if pat.len() > b.len() {
        assert(forall|i: int| !bytes_at(b@, pat@, i));
        return None;
    }
    let bl = b.len();
    let last = bl - pat.len();
    let mut i: usize = 0;
    while i <= last
        invariant
            bl == b@.len(),
            last + pat@.len() == b@.len(),
            forall|j: int| 0 <= j < i ==> !bytes_at(b@, pat@, j),
        decreases last + 1 - i,
    {
        let mut k: usize = 0;
        while k < pat.len() && b[i + k] == pat[k]
            invariant
                k <= pat@.len(),
                i <= last,
                bl == b@.len(),
                last + pat@.len() == b@.len(),
                forall|m: int| 0 <= m < k ==> b@[i + m] == pat@[m],
            decreases pat.len() - k,
        {
            k = k + 1;
        }
        if k == pat.len() {
            assert(b@.subrange(i as int, i + pat@.len()) =~= pat@);
            proof {
                lemma_first_bytes(b@, pat@, i as int);
            }
            return Some(i);
        }
        assert(b@.subrange(i as int, i + pat@.len())[k as int] != pat@[k as int]);
        i = i + 1;
    }
    assert forall|j: int| !bytes_at(b@, pat@, j) by {
        if 0 <= j && j + pat@.len() <= b@.len() {
            assert(j < i);
        }
    }
    None
}

fn is_hex(c: u8) -> (r: bool)
    ensures
        r == is_hex_byte(c),
{
    (48u8 <= c && c <= 57u8) || (65u8 <= c && c <= 70u8) || (97u8 <= c && c <= 102u8)
}

fn hex_digits_from(b: &[u8], start: usize) -> (r: usize)
    requires
        start <= b@.len(),
    ensures
        r == hex_run(b@, start as int),
        start + r <= b@.len(),
{
    let bl = b.len();
    let mut n: usize = 0;
    while start + n < bl && is_hex(b[start + n])
        invariant
            bl == b@.len(),
            start + n <= b@.len(),
            hex_run(b@, start as int) == n + hex_run(b@, start + n),
        decreases b@.len() - start - n,
    {
        n = n + 1;
    }
    n
}

fn reference_keyword_list() -> (r: Vec<&'static str>)
    ensures
        r@.map_values(|k: &str| k@) == reference_keywords(),
{
    let r = vec![
        "session ", "improve on ", "build on ", "iterate on ", "continue on ",
        "improve on top of ", "build on top of ", "iterate on top of ", "continue on top of ",
        "improve ", "build ", "iterate ", "continue ",
    ];
    assert(r@.map_values(|k: &str| k@) =~= reference_keywords());
    r
}

fn lower_hex(tb: &[u8], start: usize, n: usize) -> (r: String)
    requires
        start + n <= tb@.len(),
    ensures
        r@ == tb@.subrange(start as int, start + n).map_values(|b: u8| hex_lower(b)),
{
    let tl = tb.len();
    let mut id = String::new();
    let mut m: usize = 0;
    while m < n
        invariant
            m <= n,
            tl == tb@.len(),
            start + n <= tb@.len(),
            id@ == tb@.subrange(start as int, start + m).map_values(|b: u8| hex_lower(b)),
        decreases n - m,
    {
        let b = tb[start + m];
        let c = if 65u8 <= b && b <= 70u8 { (b + 32) as char } else { b as char };
        push_char(&mut id, c);
        m = m + 1;
        assert(id@ =~= tb@.subrange(start as int, start + m).map_values(|b: u8| hex_lower(b)));
    }
    id
}

fn reference_from(task: &str, tb: &[u8], lb: &[u8], kw: &str) -> (r: Option<Option<String>>)
    requires
        tb@ == task.spec_bytes(),
    ensures
        match reference_at(tb@, lb@, kw@) {
            Some(x) => r matches Some(y) && crate::events::opt_view(y) == x,
            None => r is None,
        },
{
    reveal(reference_at);
    let kb = kw.as_bytes();
    let ll = lb.len();
    match find_bytes(lb, kb) {
        None => Some(None),
        Some(pos) => {
            let start = pos + kb.len();
            if start > tb.len() || !task.is_char_boundary(start) {
                return None;
            }
            let n = hex_digits_from(tb, start);
            if 6 <= n && n <= 8 {
                let id = lower_hex(tb, start, n);
                Some(Some(id))
            } else {
                Some(None)
            }
        },
    }
}

fn search_references(task: &str, lower: &str) -> (r: Option<Option<String>>)
    ensures
        match reference_search(task.spec_bytes(), lower.spec_bytes(), reference_keywords()) {
            Some(x) => r matches Some(y) && crate::events::opt_view(y) == x,
            None => r is None,
        },
{
    let tb = task.as_bytes();
    let lb = lower.as_bytes();
    let kws = reference_keyword_list();
    let ghost kv = kws@.map_values(|k: &str| k@);
    let mut k: usize = 0;
    assert(kv.skip(0) =~= kv);
    while k < kws.len()
        invariant
            k <= kws.len(),
            kv == kws@.map_values(|k: &str| k@),
            tb@ == task.spec_bytes(),
            lb@ == lower.spec_bytes(),
            reference_search(tb@, lb@, reference_keywords()) == reference_search(tb@, lb@, kv.skip(k as int)),
        decreases kws.len() - k,
    {
        let ghost rest = kv.skip(k as int);
        assert(rest[0] == kws@[k as int]@);
        assert(rest.drop_first() =~= kv.skip(k + 1));
        match reference_from(task, tb, lb, kws[k]) {
            None => return None,
            Some(Some(id)) => return Some(Some(id)),
            Some(None) => {},
        }
        k = k + 1;
    }
    Some(None)
}

/// The earlier session that a task description names, given the description
/// and its lowercase form: six to eight hexadecimal digits after the first
/// of the phrases `reference_keywords` found, lowercased.
pub fn session_reference_in(task: &str, lower: &str) -> (r: Option<String>)
    requires
        reference_search(task.spec_bytes(), lower.spec_bytes(), reference_keywords()) is Some,
    ensures
        Some(crate::events::opt_view(r)) == reference_search(task.spec_bytes(), lower.spec_bytes(), reference_keywords()),
{
    match search_references(task, lower) {
        Some(x) => x,
        None => None,
    }
}

/// The earlier session that a task description names, such as `0481dc` in
/// "improve on 0481dc". Where the lowercase form of the text puts a phrase
/// at an offset that is no character boundary of the text itself, none.
pub fn extract_session_reference(task: &str) -> (r: Option<String>)
    ensures
        match reference_search(task.spec_bytes(), crate::keys::bytes_of(lowercase(task@)), reference_keywords()) {
            Some(x) => crate::events::opt_view(r) == x,
            None => r is None,
        },
{
    let lower = to_lowercase(task);
    if search_references(task, lower.as_str()).is_none() {
        return None;
    }
    session_reference_in(task, lower.as_str())
}


// ─── User guidance ───────────────────────────────────────────────

/// A task that guidance may still change: queued or ready.
pub open spec fn changeable(s: TaskStatus) -> bool {
    s == TaskStatus::Queued || s == TaskStatus::Ready
}

/// The result of a task cancelled by guidance.
pub open spec fn is_cancel_result(r: Option<TaskResult>) -> bool {
    match r {
        Some(x) => {
            &&& !x.success && x.files_modified@.len() == 0
            &&& x.summary@ == "Cancelled by user guidance"@
            &&& x.error is None && x.tokens_used == 0 && x.duration_ms == 0
            &&& x.diff is None && x.verification_output is None && x.verification_passed is None
        },
        None => false,
    }
}

/// Whether `idxs` names position `i`.
pub open spec fn names(idxs: Seq<usize>, i: int) -> bool {
    exists|j: int| 0 <= j < idxs.len() && #[trigger] idxs[j] == i
}

/// `t1` is `t0` after cancelling the changeable tasks at `idxs`.
pub open spec fn cancelled(t0: Seq<Task>, t1: Seq<Task>, idxs: Seq<usize>) -> bool {
    &&& t1.len() == t0.len()
    &&& forall|i: int| 0 <= i < t0.len() ==> if names(idxs, i) && changeable(t0[i].status) {
        t1[i] == (Task { status: TaskStatus::Cancelled, result: t1[i].result, ..t0[i] }) && is_cancel_result(t1[i].result)
    } else {
        #[trigger] t1[i] == t0[i]
    }
}

fn cancel_result() -> (r: TaskResult)
    ensures
        is_cancel_result(Some(r)),
{
    let mut summary = String::new();
    push_str(&mut summary, "Cancelled by user guidance");
    TaskResult {
        success: false,
        files_modified: Vec::new(),
        summary,
        error: None,
        tokens_used: 0,
        duration_ms: 0,
        diff: None,
        verification_output: None,
        verification_passed: None,
    }
}

/// Cancels the tasks at `idxs` that are still queued or ready.
pub fn cancel_tasks(tasks: &mut Vec<Task>, idxs: &Vec<usize>)
    ensures
        cancelled(old(tasks)@, final(tasks)@, idxs@),
{
    let ghost t0 = tasks@;
    let mut k: usize = 0;
    while k < idxs.len()
        invariant
            k <= idxs@.len(),
            tasks@.len() == t0.len(),
            forall|i: int| 0 <= i < t0.len() ==> if names(idxs@.take(k as int), i) && changeable(t0[i].status) {
                tasks@[i] == (Task { status: TaskStatus::Cancelled, result: tasks@[i].result, ..t0[i] })
                    && is_cancel_result(tasks@[i].result)
            } else {
                #[trigger] tasks@[i] == t0[i]
            },
        decreases idxs@.len() - k,
    {
        let idx = idxs[k];
        let ghost before = tasks@;
        let ghost prev = idxs@.take(k as int);
        let ghost next = idxs@.take(k + 1);
        proof {
            assert forall|i: int| names(next, i) <==> (names(prev, i) || i == idx as int) by {
                if names(next, i) {
                    let j = choose|j: int| 0 <= j < next.len() && #[trigger] next[j] == i;
                    if j < k {
                        assert(prev[j] == i);
                    }
                }
                if names(prev, i) {
                    let j = choose|j: int| 0 <= j < prev.len() && #[trigger] prev[j] == i;
                    assert(next[j] == i);
                }
                if i == idx as int {
                    assert(next[k as int] == i);
                }
            }
        }
        if idx < tasks.len() && (tasks[idx].status == TaskStatus::Queued || tasks[idx].status == TaskStatus::Ready) {
            proof {
                if names(prev, idx as int) && changeable(t0[idx as int].status) {
                    assert(before[idx as int].status == TaskStatus::Cancelled);
                }
            }
            set_outcome(tasks, idx, TaskStatus::Cancelled, Some(cancel_result()));
        }
        k = k + 1;
    }
    assert(idxs@.take(idxs@.len() as int) =~= idxs@);
}

/// `t` is the task that guidance adds from `spec` at position `index`.
pub open spec fn added_task(t: Task, spec: NewTaskSpec, index: int) -> bool {
    &&& t.index == index
    &&& t.title == spec.title && t.description == spec.description && t.why == spec.why
    &&& t.file_scope == spec.file_scope && t.dependencies == spec.dependencies
    &&& t.acceptance_criteria == spec.acceptance_criteria && t.estimated_turns == spec.estimated_turns
    &&& t.model == spec.model
    &&& t.status == TaskStatus::Queued && t.assigned_musician is None && t.result is None
}

/// `t1` is `t0` with a task added for each of `specs`, numbered on from the
/// end of the list (each with a fresh identifier).
pub open spec fn appended(t0: Seq<Task>, t1: Seq<Task>, specs: Seq<NewTaskSpec>) -> bool {
    &&& t1.len() == t0.len() + specs.len()
    &&& forall|i: int| 0 <= i < t0.len() ==> #[trigger] t1[i] == t0[i]
    &&& forall|j: int| 0 <= j < specs.len() ==> added_task(#[trigger] t1[t0.len() + j], specs[j], t0.len() + j)
}

/// Adds a queued task for each of `specs`.
pub fn add_tasks(tasks: &mut Vec<Task>, specs: Vec<NewTaskSpec>)
    ensures
        appended(old(tasks)@, final(tasks)@, specs@),
{
    let ghost t0 = tasks@;
    let ghost s0 = specs@;
    let base = tasks.len();
    let n = specs.len();
    let mut specs = specs;
    let mut k: usize = 0;
    assert(specs@ =~= s0.skip(0));
    while k < n
        invariant
            k <= n == s0.len(),
            base == t0.len(),
            specs@ == s0.skip(k as int),
            tasks@.len() == t0.len() + k,
            forall|i: int| 0 <= i < t0.len() ==> #[trigger] tasks@[i] == t0[i],
            forall|j: int| 0 <= j < k ==> added_task(#[trigger] tasks@[t0.len() + j], s0[j], t0.len() + j),
        decreases n - k,
    {
        let spec = specs.remove(0);
        assert(spec == s0[k as int]);
        assert(specs@ =~= s0.skip(k + 1));
        let index = tasks.len();
        let t = Task {
            id: crate::plan_parse::new_id(),
            index,
            title: spec.title,
            description: spec.description,
            why: spec.why,
            file_scope: spec.file_scope,
            dependencies: spec.dependencies,
            acceptance_criteria: spec.acceptance_criteria,
            estimated_turns: spec.estimated_turns,
            model: spec.model,
            status: TaskStatus::Queued,
            assigned_musician: None,
            result: None,
        };
        tasks.push(t);
        k = k + 1;
    }
}

/// The note guidance adds to a task's description.
pub open spec fn guidance_note(text: Seq<char>) -> Seq<char> {
    "\n\n[USER GUIDANCE]: "@ + text
}

/// The notes that `mods` add to the task at position `i`, in order.
pub open spec fn notes_for(mods: Seq<TaskModification>, i: int) -> Seq<char>
    decreases mods.len(),
{
    if mods.len() == 0 {
        Seq::empty()
    } else {
        notes_for(mods.drop_last(), i) + (if mods.last().index == i { guidance_note(mods.last().new_description@) } else { Seq::empty() })
    }
}

/// `t1` is `t0` with the guidance notes of `mods` added to the descriptions
/// of the changeable tasks they name.
pub open spec fn modified(t0: Seq<Task>, t1: Seq<Task>, mods: Seq<TaskModification>) -> bool {
    &&& t1.len() == t0.len()
    &&& forall|i: int| 0 <= i < t0.len() ==> if changeable(t0[i].status) {
        t1[i] == (Task { description: t1[i].description, ..t0[i] })
            && t1[i].description@ == t0[i].description@ + notes_for(mods, i)
    } else {
        #[trigger] t1[i] == t0[i]
    }
}

/// Adds the guidance notes of `mods` to the tasks they name that are still
/// queued or ready.
pub fn modify_tasks(tasks: &mut Vec<Task>, mods: &Vec<TaskModification>)
    ensures
        modified(old(tasks)@, final(tasks)@, mods@),
{
    let ghost t0 = tasks@;
    let mut k: usize = 0;
    while k < mods.len()
        invariant
            k <= mods@.len(),
            tasks@.len() == t0.len(),
            forall|i: int| 0 <= i < t0.len() ==> #[trigger] tasks@[i].status == t0[i].status,
            forall|i: int| 0 <= i < t0.len() ==> if changeable(t0[i].status) {
                tasks@[i] == (Task { description: tasks@[i].description, ..t0[i] })
                    && tasks@[i].description@ == t0[i].description@ + notes_for(mods@.take(k as int), i)
            } else {
                #[trigger] tasks@[i] == t0[i]
            },
        decreases mods@.len() - k,
    {
        let m = &mods[k];
        let ghost before = tasks@;
        proof {
            assert(mods@.take(k + 1).drop_last() =~= mods@.take(k as int));
            assert(mods@.take(k + 1).last() == mods@[k as int]);
        }
        if m.index < tasks.len() && (tasks[m.index].status == TaskStatus::Queued || tasks[m.index].status == TaskStatus::Ready) {
            let i = m.index;
            let mut t = blank_task();
            tasks.set_and_swap(i, &mut t);
            push_str(&mut t.description, "\n\n[USER GUIDANCE]: ");
            push_str(&mut t.description, m.new_description.as_str());
            tasks.set(i, t);
        }
        proof {
            assert forall|i: int| 0 <= i < t0.len() && changeable(t0[i].status) implies
                tasks@[i].description@ == t0[i].description@ + notes_for(mods@.take(k + 1), i) by {
                if i == m.index as int {
                    assert(t0[i].description@ + notes_for(mods@.take(k + 1), i) =~= before[i].description@
                        + guidance_note(m.new_description@));
                } else {
                    assert(tasks@[i] == before[i]);
                    assert(notes_for(mods@.take(k + 1), i) =~= notes_for(mods@.take(k as int), i));
                }
            }
        }
        k = k + 1;
    }
    assert(mods@.take(mods@.len() as int) =~= mods@);
}

/// Applies the conductor's reading of user guidance to the task list:
/// cancels the named queued or ready tasks, adds new tasks (and looks at
/// readiness again), and adds notes to the named queued or ready tasks.
/// The general guidance, for shared memory, is handed back.
pub fn apply_guidance_actions(tasks: &mut Vec<Task>, actions: GuidanceActions) -> (r: Option<String>)
    ensures
        ({
            let t0 = old(tasks)@;
            let t3 = final(tasks)@;
            exists|t1: Seq<Task>, t2: Seq<Task>| #![trigger guidance_stages(t1, t2)] {
                &&& match actions.cancel_tasks {
                    Some(idxs) => cancelled(t0, t1, idxs@),
                    None => t1 == t0,
                }
                &&& match actions.add_tasks {
                    Some(specs) => added_then_ready(t1, t2, specs@),
                    None => t2 == t1,
                }
                &&& match actions.modify_tasks {
                    Some(mods) => modified(t2, t3, mods@),
                    None => t3 == t2,
                }
            }
        }),
        r == actions.guidance,
{
    let ghost t0 = tasks@;
    match &actions.cancel_tasks {
        Some(idxs) => cancel_tasks(tasks, idxs),
        None => {},
    }
    let ghost t1 = tasks@;
    let GuidanceActions { add_tasks: adds, cancel_tasks: _, modify_tasks: mods, guidance, insights: _ } = actions;
    match adds {
        Some(specs) => {
            add_tasks(tasks, specs);
            let ghost ta = tasks@;
            update_task_readiness(tasks);
            assert(readiness_of(ta, tasks@));
            assert(appended(t1, ta, specs@));
        },
        None => {},
    }
    let ghost t2 = tasks@;
    match &mods {
        Some(m) => modify_tasks(tasks, m),
        None => {},
    }
    assert(guidance_stages(t1, t2));
    guidance
}

/// Marks the intermediate task lists of applying guidance.
pub open spec fn guidance_stages(after_cancel: Seq<Task>, after_add: Seq<Task>) -> bool {
    true
}

/// `t2` is `t1` with tasks added for `specs` and readiness looked at again.
pub open spec fn added_then_ready(t1: Seq<Task>, t2: Seq<Task>, specs: Seq<NewTaskSpec>) -> bool {
    exists|ta: Seq<Task>| #![trigger appended(t1, ta, specs)] appended(t1, ta, specs) && readiness_of(ta, t2)
}

/// `t1` is `t0` after one readiness pass (see `update_task_readiness`).
pub open spec fn readiness_of(t0: Seq<Task>, t1: Seq<Task>) -> bool {
    &&& t1.len() == t0.len()
    &&& statuses(t1) == readiness_upto(t0, t0.len())
    &&& forall|i: int| 0 <= i < t1.len() ==> same_task(#[trigger] t1[i], t0[i])
    &&& forall|i: int| 0 <= i < t1.len() ==> match #[trigger] failed_by(t0, i) {
        Some(d) => is_skip_result(t1[i].result, d, t0[d as int].title@),
        None => t1[i].result == t0[i].result,
    }
}


// ─── Phase reviews ───────────────────────────────────────────────

/// A phase review may ask for a retry this many times before the phase is
/// taken as done.
pub const MAX_PHASE_RETRIES: u32 = 3;

/// A task that completed successfully: a retry leaves it alone.
pub open spec fn succeeded(t: Task) -> bool {
    t.status == TaskStatus::Completed && (t.result matches Some(r) && r.success)
}

/// The positions of the phase's tasks that are not completed, in order.
pub open spec fn unfinished_positions(pt: Seq<Task>) -> Seq<usize>
    decreases pt.len(),
{
    if pt.len() == 0 {
        Seq::empty()
    } else {
        unfinished_positions(pt.drop_last()) + (if pt.last().status != TaskStatus::Completed {
            seq![(pt.len() - 1) as usize]
        } else {
            Seq::empty()
        })
    }
}

/// The number of entries of `list` that name a task of `pt` that did not
/// succeed: the tasks a retry resets, a task named twice counting twice.
pub open spec fn retry_count(pt: Seq<Task>, list: Seq<usize>) -> nat
    decreases list.len(),
{
    if list.len() == 0 {
        0
    } else {
        retry_count(pt, list.drop_last()) + (if list.last() < pt.len() && !succeeded(pt[list.last() as int]) { 1nat } else { 0nat })
    }
}

/// Back in the queue, without a result.
pub open spec fn requeue(t: Task) -> Task {
    Task { status: TaskStatus::Queued, result: None, ..t }
}

/// `pt1` is the phase's task list after a retry of the positions in `list`:
/// each named task that did not succeed is back in the queue.
pub open spec fn phase_retried(pt0: Seq<Task>, pt1: Seq<Task>, list: Seq<usize>) -> bool {
    &&& pt1.len() == pt0.len()
    &&& forall|i: int| 0 <= i < pt0.len() ==> #[trigger] pt1[i] == if names(list, i) && !succeeded(pt0[i]) {
        requeue(pt0[i])
    } else {
        pt0[i]
    }
}

/// The first position from `g` on of the task numbered `index`.
pub open spec fn index_from(ts: Seq<Task>, index: usize, g: int) -> Option<int>
    decreases ts.len() - g,
{
    if g >= ts.len() || g < 0 {
        None
    } else if ts[g].index == index {
        Some(g)
    } else {
        index_from(ts, index, g + 1)
    }
}

/// The first position of the task list holding the task numbered `index`.
pub open spec fn first_with_index(ts: Seq<Task>, index: usize) -> Option<int> {
    index_from(ts, index, 0)
}

proof fn lemma_index_from_bound(ts: Seq<Task>, index: usize, g: int)
    requires
        0 <= g,
    ensures
        index_from(ts, index, g) matches Some(p) ==> g <= p < ts.len() && ts[p].index == index,
    decreases ts.len() - g,
{
    if g < ts.len() && ts[g].index != index {
        lemma_index_from_bound(ts, index, g + 1);
    }
}

/// Requeueing tasks keeps where each task number first occurs.
proof fn lemma_index_from_stable(t0: Seq<Task>, t1: Seq<Task>, index: usize, g: int)
    requires
        t1.len() == t0.len(),
        forall|h: int| 0 <= h < t0.len() ==> (#[trigger] t1[h]).index == t0[h].index,
    ensures
        index_from(t1, index, g) == index_from(t0, index, g),
    decreases t0.len() - g,
{
    if 0 <= g < t0.len() {
        assert(t1[g].index == t0[g].index);
        lemma_index_from_stable(t0, t1, index, g + 1);
    }
}

fn find_task_index(tasks: &Vec<Task>, index: usize) -> (r: Option<usize>)
    ensures
        match r {
            Some(g) => first_with_index(tasks@, index) == Some(g as int) && g < tasks@.len(),
            None => first_with_index(tasks@, index) is None,
        },
{
    let mut g: usize = 0;
    while g < tasks.len()
        invariant
            g <= tasks@.len(),
            first_with_index(tasks@, index) == index_from(tasks@, index, g as int),
        decreases tasks@.len() - g,
    {
        if tasks[g].index == index {
            return Some(g);
        }
        g = g + 1;
    }
    None
}

/// Puts the task numbered `index` (its first occurrence in the list) back
/// in the queue.
pub fn requeue_by_index(tasks: &mut Vec<Task>, index: usize)
    ensures
        match first_with_index(old(tasks)@, index) {
            Some(g) => final(tasks)@ == old(tasks)@.update(g, requeue(old(tasks)@[g])),
            None => final(tasks)@ == old(tasks)@,
        },
{
    proof {
        lemma_index_from_bound(tasks@, index, 0);
    }
    match find_task_index(tasks, index) {
        Some(g) => set_outcome(tasks, g, TaskStatus::Queued, None),
        None => {},
    }
}

/// The numbers of the tasks that a retry of the positions in `list`
/// resets, in order (a task named twice appears twice).
pub open spec fn reset_numbers(pt: Seq<Task>, list: Seq<usize>) -> Seq<usize>
    decreases list.len(),
{
    if list.len() == 0 {
        Seq::empty()
    } else {
        reset_numbers(pt, list.drop_last()) + (if list.last() < pt.len() && !succeeded(pt[list.last() as int]) {
            seq![pt[list.last() as int].index]
        } else {
            Seq::empty()
        })
    }
}

/// Whether global position `g` is where one of `numbers` first occurs.
pub open spec fn hit(t0: Seq<Task>, numbers: Seq<usize>, g: int) -> bool {
    exists|j: int| 0 <= j < numbers.len() && first_with_index(t0, #[trigger] numbers[j]) == Some(g)
}

/// `t1` is `t0` with the first task of each of `numbers` back in the queue.
pub open spec fn requeued_numbers(t0: Seq<Task>, t1: Seq<Task>, numbers: Seq<usize>) -> bool {
    &&& t1.len() == t0.len()
    &&& forall|g: int| 0 <= g < t0.len() ==> #[trigger] t1[g] == if hit(t0, numbers, g) { requeue(t0[g]) } else { t0[g] }
}

/// Puts the first task of each of `numbers` back in the queue.
pub fn requeue_numbers(tasks: &mut Vec<Task>, numbers: &Vec<usize>)
    ensures
        requeued_numbers(old(tasks)@, final(tasks)@, numbers@),
{
    let ghost t0 = tasks@;
    let mut k: usize = 0;
    while k < numbers.len()
        invariant
            k <= numbers@.len(),
            requeued_numbers(t0, tasks@, numbers@.take(k as int)),
        decreases numbers@.len() - k,
    {
        let number = numbers[k];
        let ghost before = tasks@;
        let ghost prev = numbers@.take(k as int);
        let ghost next = numbers@.take(k + 1);
        proof {
            assert forall|h: int| 0 <= h < t0.len() implies (#[trigger] before[h]).index == t0[h].index by {
                assert(before[h] == if hit(t0, prev, h) { requeue(t0[h]) } else { t0[h] });
            }
            lemma_index_from_stable(t0, before, number, 0);
            lemma_index_from_bound(t0, number, 0);
        }
        requeue_by_index(tasks, number);
        proof {
            assert forall|g: int| 0 <= g < t0.len() implies #[trigger] tasks@[g] == if hit(t0, next, g) {
                requeue(t0[g])
            } else {
                t0[g]
            } by {
                assert(hit(t0, next, g) == (hit(t0, prev, g) || first_with_index(t0, number) == Some(g))) by {
                    if hit(t0, next, g) {
                        let j = choose|j: int| 0 <= j < next.len() && first_with_index(t0, #[trigger] next[j]) == Some(g);
                        if j < k {
                            assert(prev[j] == next[j]);
                        }
                    }
                    if hit(t0, prev, g) {
                        let j = choose|j: int| 0 <= j < prev.len() && first_with_index(t0, #[trigger] prev[j]) == Some(g);
                        assert(next[j] == prev[j]);
                    }
                    if first_with_index(t0, number) == Some(g) {
                        assert(next[k as int] == number);
                    }
                }
            }
        }
        k = k + 1;
    }
    assert(numbers@.take(numbers@.len() as int) =~= numbers@);
}

/// Retries a phase's tasks after its review: those at the positions the
/// review names (by default, those not completed) go back in the queue,
/// except tasks that succeeded, in the phase and in the whole list; returns
/// how many were reset.
pub fn retry_phase_tasks(phase_tasks: &mut Vec<Task>, tasks: &mut Vec<Task>, indices: Option<Vec<usize>>) -> (r: usize)
    ensures
        ({
            let list = match indices {
                Some(v) => v@,
                None => unfinished_positions(old(phase_tasks)@),
            };
            &&& phase_retried(old(phase_tasks)@, final(phase_tasks)@, list)
            &&& r == retry_count(old(phase_tasks)@, list)
            &&& requeued_numbers(old(tasks)@, final(tasks)@, reset_numbers(old(phase_tasks)@, list))
        }),
{
    let list = match indices {
        Some(v) => v,
        None => unfinished_list(phase_tasks),
    };
    let ghost pt0 = phase_tasks@;
    let mut numbers: Vec<usize> = Vec::new();
    let mut retried: usize = 0;
    let mut k: usize = 0;
    while k < list.len()
        invariant
            k <= list@.len(),
            phase_tasks@.len() == pt0.len(),
            retried == retry_count(pt0, list@.take(k as int)),
            retried <= k,
            numbers@ == reset_numbers(pt0, list@.take(k as int)),
            forall|i: int| 0 <= i < pt0.len() ==> #[trigger] phase_tasks@[i] == if names(list@.take(k as int), i)
                && !succeeded(pt0[i]) {
                requeue(pt0[i])
            } else {
                pt0[i]
            },
        decreases list@.len() - k,
    {
        let idx = list[k];
        let ghost before = phase_tasks@;
        let ghost prev = list@.take(k as int);
        let ghost next = list@.take(k + 1);
        proof {
            assert(next.drop_last() =~= prev);
            assert(next.last() == idx);
            assert forall|i: int| names(next, i) <==> (names(prev, i) || i == idx as int) by {
                if names(next, i) {
                    let j = choose|j: int| 0 <= j < next.len() && #[trigger] next[j] == i;
                    if j < k {
                        assert(prev[j] == i);
                    }
                }
                if names(prev, i) {
                    let j = choose|j: int| 0 <= j < prev.len() && #[trigger] prev[j] == i;
                    assert(next[j] == i);
                }
                if i == idx as int {
                    assert(next[k as int] == i);
                }
            }
        }
        if idx < phase_tasks.len() {
            let t = &phase_tasks[idx];
            let done = t.status == TaskStatus::Completed && match &t.result {
                Some(res) => res.success,
                None => false,
            };
            proof {
                assert(done == succeeded(before[idx as int]));
                assert(succeeded(before[idx as int]) == succeeded(pt0[idx as int])) by {
                    if names(prev, idx as int) && !succeeded(pt0[idx as int]) {
                        assert(before[idx as int] == requeue(pt0[idx as int]));
                    }
                }
            }
            if !done {
                let number = phase_tasks[idx].index;
                assert(number == pt0[idx as int].index);
                set_outcome(phase_tasks, idx, TaskStatus::Queued, None);
                retried = retried + 1;
                numbers.push(number);
            }
        }
        k = k + 1;
    }
    assert(list@.take(list@.len() as int) =~= list@);
    requeue_numbers(tasks, &numbers);
    retried
}

fn unfinished_list(pt: &Vec<Task>) -> (r: Vec<usize>)
    ensures
        r@ == unfinished_positions(pt@),
{
    let mut out: Vec<usize> = Vec::new();
    let mut i: usize = 0;
    while i < pt.len()
        invariant
            i <= pt@.len(),
            out@ == unfinished_positions(pt@.take(i as int)),
        decreases pt@.len() - i,
    {
        assert(pt@.take(i + 1).drop_last() =~= pt@.take(i as int));
        if pt[i].status != TaskStatus::Completed {
            out.push(i);
        }
        i = i + 1;
    }
    assert(pt@.take(pt@.len() as int) =~= pt@);
    out
}

/// What happens after a phase review.
#[derive(Debug, Clone, Copy, PartialEq, Eq, Structural)]
pub enum ReviewStep {
    /// The phase is done; go on to the next.
    Advance,
    /// The review asked for too many retries; the phase is taken as done.
    ForcedAdvance,
    /// Retry the phase's tasks and run the phase again.
    Retry,
    /// The phase is done and the phases after it are replaced.
    Revise,
    /// The run stops and fails.
    Abort,
}

/// The step a review verdict leads to, given the retries the phase has had
/// (counting this one).
pub open spec fn review_step(action: PhaseReviewAction, retries: u32) -> ReviewStep {
    match action {
        PhaseReviewAction::Continue => ReviewStep::Advance,
        PhaseReviewAction::RetryTasks => if retries > MAX_PHASE_RETRIES { ReviewStep::ForcedAdvance } else { ReviewStep::Retry },
        PhaseReviewAction::ReviseRemainingPhases => ReviewStep::Revise,
        PhaseReviewAction::Abort => ReviewStep::Abort,
    }
}

/// How many of the first `n` retry requests of one phase, counted one by one
/// as they come, are granted.
pub open spec fn retries_granted(n: nat) -> nat
    decreases n,
{
    if n == 0 {
        0
    } else {
        retries_granted((n - 1) as nat) + if review_step(PhaseReviewAction::RetryTasks, n as u32) == ReviewStep::Retry { 1nat } else { 0nat }
    }
}

/// However many times a phase review asks for a retry, the phase is retried
/// at most `MAX_PHASE_RETRIES` times; the request after that advances.
pub proof fn lemma_phase_retries_bounded(n: nat)
    requires
        n <= u32::MAX,
    ensures
        retries_granted(n) <= MAX_PHASE_RETRIES,
        n > MAX_PHASE_RETRIES ==> review_step(PhaseReviewAction::RetryTasks, n as u32) == ReviewStep::ForcedAdvance,
{
    lemma_granted_saturates(n);
}

proof fn lemma_granted_saturates(n: nat)
    requires
        n <= u32::MAX,
    ensures
        n >= MAX_PHASE_RETRIES ==> retries_granted(n) == MAX_PHASE_RETRIES,
        n < MAX_PHASE_RETRIES ==> retries_granted(n) == n,
    decreases n,
{
    if n > 0 {
        lemma_granted_saturates((n - 1) as nat);
    }
}


/// The step a review verdict leads to (see `review_step`).
pub fn decide_review_step(action: PhaseReviewAction, retries: u32) -> (r: ReviewStep)
    ensures
        r == review_step(action, retries),
{
    match action {
        PhaseReviewAction::Continue => ReviewStep::Advance,
        PhaseReviewAction::RetryTasks => if retries > MAX_PHASE_RETRIES { ReviewStep::ForcedAdvance } else { ReviewStep::Retry },
        PhaseReviewAction::ReviseRemainingPhases => ReviewStep::Revise,
        PhaseReviewAction::Abort => ReviewStep::Abort,
    }
}

/// Replaces the phases after `pi` with the revised ones, numbered on from
/// it; an empty revision changes nothing.
pub fn revise_remaining_phases(phases: &mut Vec<Phase>, pi: usize, revised: Vec<Phase>)
    requires
        pi < old(phases)@.len(),
        pi + 1 + revised@.len() <= usize::MAX,
    ensures
        revised@.len() == 0 ==> final(phases)@ == old(phases)@,
        revised@.len() > 0 ==> {
            &&& final(phases)@.len() == pi + 1 + revised@.len()
            &&& forall|i: int| 0 <= i <= pi ==> #[trigger] final(phases)@[i] == old(phases)@[i]
            &&& forall|j: int| 0 <= j < revised@.len() ==> #[trigger] final(phases)@[pi + 1 + j]
                == (Phase { index: (pi + 1 + j) as usize, ..revised@[j] })
        },
{
    if revised.len() == 0 {
        return;
    }
    phases.truncate(pi + 1);
    let ghost kept = phases@;
    let ghost rv = revised@;
    let n = revised.len();
    let mut revised = revised;
    let mut k: usize = 0;
    assert(revised@ =~= rv.skip(0));
    while k < n
        invariant
            k <= n == rv.len(),
            pi + 1 + n <= usize::MAX,
            revised@ == rv.skip(k as int),
            kept.len() == pi + 1,
            phases@.len() == pi + 1 + k,
            forall|i: int| 0 <= i <= pi ==> #[trigger] phases@[i] == kept[i],
            forall|j: int| 0 <= j < k ==> #[trigger] phases@[pi + 1 + j] == (Phase { index: (pi + 1 + j) as usize, ..rv[j] }),
        decreases n - k,
    {
        let mut p = revised.remove(0);
        assert(p == rv[k as int]);
        assert(revised@ =~= rv.skip(k + 1));
        p.index = pi + 1 + k;
        phases.push(p);
        k = k + 1;
    }
}

/// `new` is `old` with the status and result of the first phase task
/// numbered `task_index`, in the first phase that has one, replaced.
pub open spec fn phase_synced(new: Seq<Phase>, old: Seq<Phase>, task_index: usize, status: TaskStatus, result: Option<TaskResult>) -> bool {
    &&& new.len() == old.len()
    &&& match first_phase_with(old, task_index) {
        Some(p) => {
            let pt = old[p].tasks@;
            let g = first_with_index(pt, task_index)->0;
            &&& new[p] == (Phase { tasks: new[p].tasks, ..old[p] })
            &&& new[p].tasks@ == pt.update(g, Task { status, result, ..pt[g] })
            &&& forall|q: int| 0 <= q < old.len() && q != p ==> #[trigger] new[q] == old[q]
        },
        None => new == old,
    }
}

/// Sets the status and result of the first phase task numbered
/// `task_index`, in the first phase that has one.
pub fn sync_task_to_phase(phases: &mut Vec<Phase>, task_index: usize, status: TaskStatus, result: Option<TaskResult>)
    ensures
        phase_synced(final(phases)@, old(phases)@, task_index, status, result),
{
    let mut p: usize = 0;
    while p < phases.len()
        invariant
            p <= phases@.len(),
            phases@ == old(phases)@,
            forall|q: int| 0 <= q < p ==> first_with_index(#[trigger] phases@[q].tasks@, task_index) is None,
        decreases phases@.len() - p,
    {
        match find_task_index(&phases[p].tasks, task_index) {
            Some(g) => {
                proof {
                    assert(first_phase_with(old(phases)@, task_index) == Some(p as int)) by {
                        lemma_first_phase(old(phases)@, task_index, p as int);
                    }
                }
                let mut ph = Phase {
                    id: String::new(),
                    index: 0,
                    title: String::new(),
                    description: String::new(),
                    status: PhaseStatus::Pending,
                    tasks: Vec::new(),
                    review_result: None,
                    token_used: 0,
                };
                phases.set_and_swap(p, &mut ph);
                set_outcome(&mut ph.tasks, g, status, result);
                phases.set(p, ph);
                return;
            },
            None => {},
        }
        p = p + 1;
    }
    proof {
        lemma_no_phase(old(phases)@, task_index);
    }
}

/// The first phase holding a task numbered `index`, if any.
pub open spec fn first_phase_with(phases: Seq<Phase>, index: usize) -> Option<int> {
    if exists|p: int| 0 <= p < phases.len() && first_with_index(phases[p].tasks@, index) is Some {
        Some(choose|p: int| 0 <= p < phases.len() && first_with_index(phases[p].tasks@, index) is Some
            && forall|q: int| 0 <= q < p ==> first_with_index((#[trigger] phases[q]).tasks@, index) is None)
    } else {
        None
    }
}

proof fn lemma_first_phase(phases: Seq<Phase>, index: usize, p: int)
    requires
        0 <= p < phases.len(),
        first_with_index(phases[p].tasks@, index) is Some,
        forall|q: int| 0 <= q < p ==> first_with_index((#[trigger] phases[q]).tasks@, index) is None,
    ensures
        first_phase_with(phases, index) == Some(p),
{
    let c = choose|c: int| 0 <= c < phases.len() && first_with_index(phases[c].tasks@, index) is Some
        && forall|q: int| 0 <= q < c ==> first_with_index((#[trigger] phases[q]).tasks@, index) is None;
    if c < p {
        assert(first_with_index(phases[c].tasks@, index) is None);
    }
    if c > p {
        assert(first_with_index(phases[p].tasks@, index) is None);
    }
}

proof fn lemma_no_phase(phases: Seq<Phase>, index: usize)
    requires
        forall|q: int| 0 <= q < phases.len() ==> first_with_index((#[trigger] phases[q]).tasks@, index) is None,
    ensures
        first_phase_with(phases, index) is None,
{
}


// ─── Project configuration ───────────────────────────────────────

/// The lines of `s` as `str::lines` gives them: split at newlines, a
/// carriage return before a newline dropped, and no empty line after a
/// final newline.
pub open spec fn text_lines(s: Seq<char>) -> Seq<Seq<char>> {
    let pieces = crate::musician::split_lines(s);
    let kept = if s.len() == 0 || s.last() == '\n' { pieces.drop_last() } else { pieces };
    kept.map_values(|l: Seq<char>| if l.len() > 0 && l.last() == '\r' { l.drop_last() } else { l })
}

/// Whether `c` is an ASCII digit.
pub open spec fn is_digit(c: char) -> bool {
    '0' <= c && c <= '9'
}

/// The value of the digits `d`.
pub open spec fn digits_value(d: Seq<char>) -> nat
    decreases d.len(),
{
    if d.len() == 0 { 0 } else { (digits_value(d.drop_last()) * 10 + (d.last() as int - '0' as int)) as nat }
}

/// `s` read as an unsigned 64-bit number the way `str::parse::<u64>` reads
/// it: an optional `+`, then one or more digits, within range.
pub open spec fn parse_u64(s: Seq<char>) -> Option<u64> {
    let d = number_body(s);
    if d.len() > 0 && all_digits(d) && digits_value(d) <= u64::MAX {
        Some(digits_value(d) as u64)
    } else {
        None
    }
}

/// `s` without a leading `+`.
pub open spec fn number_body(s: Seq<char>) -> Seq<char> {
    if s.len() > 0 && s[0] == '+' { s.drop_first() } else { s }
}

/// Every character of `d` is an ASCII digit.
pub open spec fn all_digits(d: Seq<char>) -> bool {
    forall|i: int| 0 <= i < d.len() ==> is_digit(#[trigger] d[i])
}

/// The state of reading a project configuration: the verification commands
/// so far, the timeout, and whether a list of commands is open.
pub ghost struct ConfigScan {
    pub commands: Seq<Seq<char>>,
    pub timeout_ms: Option<int>,
    pub in_list: bool,
}

/// One line of a project configuration read in state `st`.
pub open spec fn config_line(st: ConfigScan, line: Seq<char>) -> ConfigScan {
    let t = crate::text::trimmed(line);
    if has_prefix_spec(t, "verification:"@) {
        ConfigScan { in_list: true, ..st }
    } else if has_prefix_spec(t, "verificationTimeout:"@) {
        let v = crate::text::trimmed(t.skip(20));
        ConfigScan {
            timeout_ms: match parse_u64(v) { Some(n) => Some(n * 1000), None => st.timeout_ms },
            in_list: false,
            ..st
        }
    } else if st.in_list && has_prefix_spec(t, "- "@) {
        ConfigScan { commands: st.commands.push(t.skip(2)), ..st }
    } else if !has_prefix_spec(t, "-"@) && t.len() > 0 {
        ConfigScan { in_list: false, ..st }
    } else {
        st
    }
}

/// `s` begins with `p`.
pub open spec fn has_prefix_spec(s: Seq<char>, p: Seq<char>) -> bool {
    crate::text::has_prefix(s, p)
}

/// The configuration after its first `n` lines.
pub open spec fn config_scan(lines: Seq<Seq<char>>, n: nat) -> ConfigScan
    decreases n,
{
    if n == 0 || n > lines.len() {
        ConfigScan { commands: Seq::empty(), timeout_ms: None, in_list: false }
    } else {
        config_line(config_scan(lines, (n - 1) as nat), lines[n - 1])
    }
}

/// The timeouts the lines give stay within range once in milliseconds.
pub open spec fn timeouts_fit(lines: Seq<Seq<char>>) -> bool {
    forall|i: int| 0 <= i < lines.len() ==> line_timeout_fits(#[trigger] lines[i])
}

/// A `verificationTimeout:` line, if `line` is one, gives a number of
/// seconds whose milliseconds stay within range.
pub open spec fn line_timeout_fits(line: Seq<char>) -> bool {
    let t = crate::text::trimmed(line);
    has_prefix_spec(t, "verificationTimeout:"@) && !has_prefix_spec(t, "verification:"@)
        ==> (parse_u64(crate::text::trimmed(t.skip(20))) matches Some(n) ==> n * 1000 <= u64::MAX)
}


pub(crate) fn text_lines_exec(content: &str) -> (r: Vec<String>)
    ensures
        views(r@) == text_lines(content@),
{
    let mut pieces = crate::musician::split_text(content);
    let cs = crate::text::chars_of(content);
    let ghost all = views(pieces@);
    if cs.len() == 0 || cs[cs.len() - 1] == '\n' {
        proof {
            crate::musician::lemma_split_nonempty(content@);
        }
        pieces.pop();
        assert(views(pieces@) =~= all.drop_last());
    }
    let ghost kept = views(pieces@);
    let mut out: Vec<String> = Vec::new();
    let mut k: usize = 0;
    while k < pieces.len()
        invariant
            k <= pieces@.len(),
            kept == views(pieces@),
            out@.len() == k,
            forall|m: int| 0 <= m < k ==> (#[trigger] out@[m])@ == strip_cr(kept[m]),
        decreases pieces@.len() - k,
    {
        let lc = crate::text::chars_of(pieces[k].as_str());
        assert(lc@ == kept[k as int]);
        let line = if lc.len() > 0 && lc[lc.len() - 1] == '\r' {
            let n = lc.len() - 1;
            let mut v: Vec<char> = Vec::new();
            let mut j: usize = 0;
            while j < n
                invariant
                    n + 1 == lc@.len(),
                    j <= n,
                    v@ == lc@.take(j as int),
                decreases n - j,
            {
                v.push(lc[j]);
                j = j + 1;
                assert(v@ =~= lc@.take(j as int));
            }
            assert(v@ =~= lc@.drop_last());
            string_of(&v)
        } else {
            string_of(&lc)
        };
        out.push(line);
        k = k + 1;
    }
    assert(views(out@) =~= text_lines(content@));
    out
}

/// A line without a carriage return at its end.
pub open spec fn strip_cr(l: Seq<char>) -> Seq<char> {
    if l.len() > 0 && l.last() == '\r' { l.drop_last() } else { l }
}

fn string_of(v: &Vec<char>) -> (r: String)
    ensures
        r@ == v@,
{
    crate::text::string_from_chars(v.as_slice())
}

/// Reads `s` as an unsigned 64-bit number (see `parse_u64`).
pub fn parse_u64_exec(s: &str) -> (r: Option<u64>)
    ensures
        r == parse_u64(s@),
{
    let cs = crate::text::chars_of(s);
    let start: usize = if cs.len() > 0 && cs[0] == '+' { 1 } else { 0 };
    let ghost d = number_body(s@);
    assert(d =~= cs@.skip(start as int));
    if start >= cs.len() {
        return None;
    }
    let mut i = start;
    while i < cs.len()
        invariant
            start <= i <= cs@.len(),
            d == cs@.skip(start as int),
            d == number_body(s@),
            forall|j: int| start <= j < i ==> is_digit(#[trigger] cs@[j]),
        decreases cs@.len() - i,
    {
        let c = cs[i];
        if !('0' <= c && c <= '9') {
            assert(d[i - start] == c);
            assert(!is_digit(d[i - start]));
            assert(parse_u64(s@) is None);
            return None;
        }
        i = i + 1;
    }
    assert forall|j: int| 0 <= j < d.len() implies is_digit(#[trigger] d[j]) by {
        assert(d[j] == cs@[j + start]);
    }
    let mut value: u64 = 0;
    i = start;
    while i < cs.len()
        invariant
            start <= i <= cs@.len(),
            d == cs@.skip(start as int),
            d == number_body(s@),
            forall|j: int| 0 <= j < d.len() ==> is_digit(#[trigger] d[j]),
            value == digits_value(d.take(i - start)),
        decreases cs@.len() - i,
    {
        let c = cs[i];
        assert(c == d[i - start]);
        assert(is_digit(d[i - start]));
        assert(d.take(i + 1 - start).drop_last() =~= d.take(i - start));
        let digit = (c as u32 - '0' as u32) as u64;
        if value > (u64::MAX - digit) / 10 {
            proof {
                let m = (u64::MAX - digit) as int;
                assert(value * 10 + digit > u64::MAX) by (nonlinear_arith)
                    requires value > m / 10, m == u64::MAX - digit, 0 <= digit <= 9;
                lemma_digits_monotone(d, (i + 1 - start) as int);
                assert(d.take(i + 1 - start).last() == c);
                assert(digits_value(d.take(i + 1 - start)) == value * 10 + digit);
                assert(digits_value(d) > u64::MAX);
            }
            return None;
        }
        assert(value * 10 + digit <= u64::MAX) by (nonlinear_arith)
            requires value <= (u64::MAX - digit) / 10, 0 <= digit <= 9;
        value = value * 10 + digit;
        i = i + 1;
    }
    assert(d.take(d.len() as int) =~= d);
    Some(value)
}

/// A longer run of digits reads as no smaller a number.
proof fn lemma_digits_monotone(d: Seq<char>, k: int)
    requires
        0 <= k <= d.len(),
        forall|j: int| 0 <= j < d.len() ==> is_digit(#[trigger] d[j]),
    ensures
        digits_value(d.take(k)) <= digits_value(d),
    decreases d.len() - k,
{
    if k < d.len() {
        lemma_digits_monotone(d, k + 1);
        assert(d.take(k + 1).drop_last() =~= d.take(k));
    } else {
        assert(d.take(k) =~= d);
    }
}

/// What the lines of a project configuration give: its verification
/// commands, `None` where it lists none, and its timeout in milliseconds.
pub open spec fn config_result(content: Seq<char>) -> (Option<Seq<Seq<char>>>, Option<int>) {
    let lines = text_lines(content);
    let st = config_scan(lines, lines.len());
    (if st.commands.len() == 0 { None } else { Some(st.commands) }, st.timeout_ms)
}

/// Reads the settings of a project configuration (`conductor.yml`): the
/// commands listed under `verification:`, one per `- ` line, and the
/// `verificationTimeout:` in seconds, given back in milliseconds. A later
/// timeout line replaces an earlier one; one whose value is no number is
/// passed over.
pub fn parse_conductor_config(content: &str) -> (r: (Option<Vec<String>>, Option<u64>))
    requires
        timeouts_fit(text_lines(content@)),
    ensures
        match (r.0, config_result(content@).0) {
            (Some(v), Some(c)) => views(v@) == c,
            (None, None) => true,
            _ => false,
        },
        match (r.1, config_result(content@).1) {
            (Some(n), Some(m)) => n as int == m,
            (None, None) => true,
            _ => false,
        },
{
    let lines = text_lines_exec(content);
    let ghost ls = text_lines(content@);
    let mut commands: Vec<String> = Vec::new();
    let mut timeout_ms: Option<u64> = None;
    let mut in_list = false;
    let mut k: usize = 0;
    while k < lines.len()
        invariant
            k <= lines@.len(),
            views(lines@) == ls,
            timeouts_fit(ls),
            views(commands@) == config_scan(ls, k as nat).commands,
            in_list == config_scan(ls, k as nat).in_list,
            match (timeout_ms, config_scan(ls, k as nat).timeout_ms) {
                (Some(n), Some(m)) => n as int == m,
                (None, None) => true,
                _ => false,
            },
        decreases lines@.len() - k,
    {
        let ghost line = ls[k as int];
        assert(lines@[k as int]@ == line);
        let t = crate::text::trim_string(lines[k].as_str());
        let tc = crate::text::chars_of(t.as_str());
        let ghost before = views(commands@);
        proof {
            reveal_strlit("verificationTimeout:");
        }
        if crate::text::starts_with_str(t.as_str(), "verification:") {
            in_list = true;
        } else if crate::text::starts_with_str(t.as_str(), "verificationTimeout:") {
            let rest = crate::keys::chars_from(&tc, 20);
            let v = crate::text::trim_string(string_of(&rest).as_str());
            match parse_u64_exec(v.as_str()) {
                Some(secs) => {
                    assert(ls[k as int] == line);
                    assert(secs * 1000 <= u64::MAX);
                    timeout_ms = Some(secs * 1000);
                },
                None => {},
            }
            in_list = false;
        } else if in_list && crate::text::starts_with_str(t.as_str(), "- ") {
            proof {
                reveal_strlit("- ");
            }
            let rest = crate::keys::chars_from(&tc, 2);
            commands.push(string_of(&rest));
            assert(views(commands@) =~= before.push(t@.skip(2)));
        } else if !crate::text::starts_with_str(t.as_str(), "-") && tc.len() > 0 {
            in_list = false;
        }
        k = k + 1;
    }
    let ghost n = ls.len();
    assert(k == n);
    if commands.len() == 0 {
        (None, timeout_ms)
    } else {
        (Some(commands), timeout_ms)
    }
}

/// Whether every `verificationTimeout:` of a project configuration stays
/// within range once in milliseconds, as `parse_conductor_config` needs.
pub fn config_timeouts_fit(content: &str) -> (r: bool)
    ensures
        r == timeouts_fit(text_lines(content@)),
{
    let lines = text_lines_exec(content);
    let ghost ls = text_lines(content@);
    let mut k: usize = 0;
    while k < lines.len()
        invariant
            k <= lines@.len(),
            views(lines@) == ls,
            ls == text_lines(content@),
            forall|i: int| 0 <= i < k ==> line_timeout_fits(#[trigger] ls[i]),
        decreases lines@.len() - k,
    {
        assert(lines@[k as int]@ == ls[k as int]);
        let t = crate::text::trim_string(lines[k].as_str());
        proof {
            reveal_strlit("verificationTimeout:");
        }
        if crate::text::starts_with_str(t.as_str(), "verificationTimeout:")
            && !crate::text::starts_with_str(t.as_str(), "verification:") {
            let tc = crate::text::chars_of(t.as_str());
            let rest = crate::keys::chars_from(&tc, 20);
            let v = crate::text::trim_string(string_of(&rest).as_str());
            match parse_u64_exec(v.as_str()) {
                Some(secs) => {
                    if secs > u64::MAX / 1000 {
                        assert(!line_timeout_fits(ls[k as int]));
                        return false;
                    }
                },
                None => {},
            }
        }
        k = k + 1;
    }
    true
}

// ─── Assigning tasks to musicians ───────────────────────────────

/// Task `t` can be handed out: it is ready and in scope.
pub open spec fn ready_in(t: Task, scope: Option<Seq<usize>>) -> bool {
    in_scope(t, scope) && t.status == TaskStatus::Ready
}

/// The first position from `i` on of a task that can be handed out.
pub open spec fn ready_from(ts: Seq<Task>, scope: Option<Seq<usize>>, i: int) -> Option<int>
    decreases ts.len() - i,
{
    if i < 0 || i >= ts.len() {
        None
    } else if ready_in(ts[i], scope) {
        Some(i)
    } else {
        ready_from(ts, scope, i + 1)
    }
}

/// Whether musician slot `m` can take a task: idle or done with its last
/// one, and present.
pub open spec fn slot_free(states: Seq<MusicianState>, musicians: Seq<Option<Musician>>, m: int) -> bool {
    &&& 0 <= m < states.len()
    &&& (states[m].status == MusicianStatus::Idle || states[m].status == MusicianStatus::Completed)
    &&& m < musicians.len()
    &&& musicians[m] is Some
}

/// The free slots among the first `n`, in order.
pub open spec fn free_slots(states: Seq<MusicianState>, musicians: Seq<Option<Musician>>, n: nat) -> Seq<usize>
    decreases n,
{
    if n == 0 {
        Seq::empty()
    } else {
        let before = free_slots(states, musicians, (n - 1) as nat);
        if slot_free(states, musicians, n - 1) { before.push((n - 1) as usize) } else { before }
    }
}

/// Taking a ready task `n` times: the task list after, and the positions
/// taken, each marked running.
pub open spec fn take_ready(ts: Seq<Task>, scope: Option<Seq<usize>>, n: nat) -> (Seq<Task>, Seq<usize>)
    decreases n,
{
    if n == 0 {
        (ts, Seq::empty())
    } else {
        let (t1, ps) = take_ready(ts, scope, (n - 1) as nat);
        match ready_from(t1, scope, 0) {
            Some(i) => (t1.update(i, Task { status: TaskStatus::InProgress, ..t1[i] }), ps.push(i as usize)),
            None => (t1, ps),
        }
    }
}

/// The id of the musician in slot `m`.
pub open spec fn slot_id(musicians: Seq<Option<Musician>>, m: usize) -> Seq<char> {
    musicians[m as int]->Some_0.state.id@
}

/// Marking the first `n` assignments: the task numbered as the one taken
/// is set running and given the musician's id.
pub open spec fn mark_assigned(
    ts: Seq<Task>,
    musicians: Seq<Option<Musician>>,
    pairs: Seq<(usize, usize)>,
    n: nat,
) -> Seq<Task>
    decreases n,
{
    if n == 0 || n > pairs.len() {
        ts
    } else {
        let t1 = mark_assigned(ts, musicians, pairs, (n - 1) as nat);
        let (m, pos) = pairs[n - 1];
        match first_with_index(t1, t1[pos as int].index) {
            Some(j) => t1.update(j, Task {
                status: TaskStatus::InProgress,
                assigned_musician: Some(musicians[m as int]->Some_0.state.id),
                ..t1[j]
            }),
            None => t1,
        }
    }
}

/// Pairs each free slot with a position taken, in order.
pub open spec fn pair_up(slots: Seq<usize>, positions: Seq<usize>) -> Seq<(usize, usize)> {
    Seq::new(positions.len(), |k: int| (slots[k], positions[k]))
}

/// What assigning ready tasks to free musicians gives: the pairs of
/// musician slot and task position, and the task list after.
pub open spec fn assignment_plan(
    ts: Seq<Task>,
    scope: Option<Seq<usize>>,
    states: Seq<MusicianState>,
    musicians: Seq<Option<Musician>>,
) -> (Seq<(usize, usize)>, Seq<Task>) {
    let slots = free_slots(states, musicians, states.len());
    let (t1, ps) = take_ready(ts, scope, slots.len());
    let pairs = pair_up(slots, ps);
    (pairs, mark_assigned(t1, musicians, pairs, pairs.len()))
}

proof fn lemma_ready_from_first(ts: Seq<Task>, scope: Option<Seq<usize>>, i: int, r: Option<int>)
    requires
        0 <= i <= ts.len(),
        forall|j: int| 0 <= j < i ==> !ready_in(#[trigger] ts[j], scope),
        match r {
            Some(p) => i <= p < ts.len() && ready_in(ts[p], scope)
                && forall|j: int| i <= j < p ==> !ready_in(#[trigger] ts[j], scope),
            None => forall|j: int| i <= j < ts.len() ==> !ready_in(#[trigger] ts[j], scope),
        },
    ensures
        ready_from(ts, scope, 0) == r,
    decreases i,
{
    if i > 0 {
        lemma_ready_from_first(ts, scope, i - 1, r);
    } else {
        lemma_ready_from_rest(ts, scope, 0, r);
    }
}

proof fn lemma_ready_from_rest(ts: Seq<Task>, scope: Option<Seq<usize>>, i: int, r: Option<int>)
    requires
        0 <= i <= ts.len(),
        match r {
            Some(p) => i <= p < ts.len() && ready_in(ts[p], scope)
                && forall|j: int| i <= j < p ==> !ready_in(#[trigger] ts[j], scope),
            None => forall|j: int| i <= j < ts.len() ==> !ready_in(#[trigger] ts[j], scope),
        },
    ensures
        ready_from(ts, scope, i) == r,
    decreases ts.len() - i,
{
    if i < ts.len() {
        if !ready_in(ts[i], scope) {
            lemma_ready_from_rest(ts, scope, i + 1, r);
        }
    }
}

/// Taking ready tasks keeps the list's length and takes positions in it,
/// at most one per try.
proof fn lemma_take_ready_shape(ts: Seq<Task>, scope: Option<Seq<usize>>, n: nat)
    ensures
        take_ready(ts, scope, n).0.len() == ts.len(),
        take_ready(ts, scope, n).1.len() <= n,
        forall|k: int| 0 <= k < take_ready(ts, scope, n).1.len() ==> #[trigger] take_ready(ts, scope, n).1[k] < ts.len(),
    decreases n,
{
    if n > 0 {
        lemma_take_ready_shape(ts, scope, (n - 1) as nat);
        let (t1, ps) = take_ready(ts, scope, (n - 1) as nat);
        match ready_from(t1, scope, 0) {
            Some(i) => {
                lemma_ready_from_bound(t1, scope, 0);
                assert(forall|k: int| 0 <= k < ps.len() ==> #[trigger] ps.push(i as usize)[k] == ps[k]);
            },
            None => {},
        }
    }
}

proof fn lemma_ready_from_bound(ts: Seq<Task>, scope: Option<Seq<usize>>, i: int)
    ensures
        ready_from(ts, scope, i) matches Some(p) ==> 0 <= i <= p < ts.len(),
    decreases ts.len() - i,
{
    if 0 <= i < ts.len() && !ready_in(ts[i], scope) {
        lemma_ready_from_bound(ts, scope, i + 1);
    }
}

/// The free slots are free, in range, and no more than looked at.
proof fn lemma_free_slots(states: Seq<MusicianState>, musicians: Seq<Option<Musician>>, n: nat)
    requires
        n <= usize::MAX,
    ensures
        free_slots(states, musicians, n).len() <= n,
        forall|k: int| 0 <= k < free_slots(states, musicians, n).len()
            ==> slot_free(states, musicians, #[trigger] free_slots(states, musicians, n)[k] as int),
    decreases n,
{
    if n > 0 {
        lemma_free_slots(states, musicians, (n - 1) as nat);
        let before = free_slots(states, musicians, (n - 1) as nat);
        assert(forall|k: int| 0 <= k < before.len() ==> #[trigger] before.push((n - 1) as usize)[k] == before[k]);
    }
}

/// Marking assignments keeps the list's length.
proof fn lemma_mark_len(ts: Seq<Task>, musicians: Seq<Option<Musician>>, pairs: Seq<(usize, usize)>, n: nat)
    ensures
        mark_assigned(ts, musicians, pairs, n).len() == ts.len(),
    decreases n,
{
    if n > 0 && n <= pairs.len() {
        lemma_mark_len(ts, musicians, pairs, (n - 1) as nat);
        let t1 = mark_assigned(ts, musicians, pairs, (n - 1) as nat);
        let (m, pos) = pairs[n - 1];
        lemma_index_from_bound(t1, t1[pos as int].index, 0);
    }
}

/// The free musician slots, in order.
fn free_slot_list(states: &Vec<MusicianState>, musicians: &Vec<Option<Musician>>) -> (r: Vec<usize>)
    ensures
        r@ == free_slots(states@, musicians@, states@.len()),
{
    let mut out: Vec<usize> = Vec::new();
    let mut m: usize = 0;
    while m < states.len()
        invariant
            m <= states@.len(),
            out@ == free_slots(states@, musicians@, m as nat),
        decreases states@.len() - m,
    {
        let st = states[m].status;
        let free = (st == MusicianStatus::Idle || st == MusicianStatus::Completed)
            && m < musicians.len() && musicians[m].is_some();
        if free {
            out.push(m);
        }
        m = m + 1;
    }
    out
}

/// Sets task `j` running under musician `id`.
fn set_assignment(tasks: &mut Vec<Task>, j: usize, id: String)
    requires
        j < old(tasks)@.len(),
    ensures
        final(tasks)@ == old(tasks)@.update(j as int, Task {
            status: TaskStatus::InProgress,
            assigned_musician: Some(id),
            ..old(tasks)@[j as int]
        }),
{
    let mut t = blank_task();
    tasks.set_and_swap(j, &mut t);
    t.status = TaskStatus::InProgress;
    t.assigned_musician = Some(id);
    tasks.set(j, t);
}

/// Hands ready tasks to the free musicians: each free musician, in slot
/// order, takes the first ready task in scope (marked running); then the
/// task numbered as each one taken is given that musician's id. Returns the
/// pairs of musician slot and task position.
pub fn assign_ready_tasks(
    tasks: &mut Vec<Task>,
    scope: Option<&Vec<usize>>,
    states: &Vec<MusicianState>,
    musicians: &Vec<Option<Musician>>,
) -> (r: Vec<(usize, usize)>)
    ensures
        (r@, final(tasks)@) == assignment_plan(old(tasks)@, scope_view(scope), states@, musicians@),
{
    let slots = free_slot_list(states, musicians);
    let ghost ts0 = tasks@;
    let ghost sv = scope_view(scope);
    let mut positions: Vec<usize> = Vec::new();
    let mut k: usize = 0;
    while k < slots.len()
        invariant
            k <= slots@.len(),
            (tasks@, positions@) == take_ready(ts0, sv, k as nat),
            sv == scope_view(scope),
            positions@.len() <= k,
        decreases slots@.len() - k,
    {
        let ghost before = tasks@;
        let got = get_next_ready_task(tasks, scope);
        proof {
            lemma_ready_from_first(before, sv, 0, match got { Some(i) => Some(i as int), None => None });
        }
        match got {
            Some(i) => {
                positions.push(i);
            },
            None => {},
        }
        k = k + 1;
    }
    let ghost t1 = tasks@;
    let ghost pairs = pair_up(slots@, positions@);
    proof {
        lemma_take_ready_shape(ts0, sv, slots@.len());
        assert(states@.len() == states.len());
        lemma_free_slots(states@, musicians@, states@.len());
    }
    let mut out: Vec<(usize, usize)> = Vec::new();
    let mut q: usize = 0;
    while q < positions.len()
        invariant
            q <= positions@.len(),
            positions@.len() <= slots@.len(),
            pairs == pair_up(slots@, positions@),
            t1.len() == ts0.len(),
            forall|k: int| 0 <= k < positions@.len() ==> #[trigger] positions@[k] < ts0.len(),
            forall|k: int| 0 <= k < slots@.len() ==> slot_free(states@, musicians@, #[trigger] slots@[k] as int),
            tasks@ == mark_assigned(t1, musicians@, pairs, q as nat),
            out@ == pairs.take(q as int),
        decreases positions@.len() - q,
    {
        proof {
            lemma_mark_len(t1, musicians@, pairs, q as nat);
            assert(slot_free(states@, musicians@, slots@[q as int] as int));
            assert(positions@[q as int] < ts0.len());
        }
        let m = slots[q];
        let pos = positions[q];
        let idx = tasks[pos].index;
        let id = musicians[m].as_ref().unwrap().get_state().id.clone();
        let ghost cur = tasks@;
        match find_task_index(tasks, idx) {
            Some(j) => {
                set_assignment(tasks, j, id);
            },
            None => {},
        }
        assert(pairs[q as int] == (m, pos));
        out.push((m, pos));
        q = q + 1;
        assert(out@ =~= pairs.take(q as int));
    }
    assert(out@ =~= pairs);
    out
}

proof fn lemma_take_ready_distinct(ts: Seq<Task>, scope: Option<Seq<usize>>, n: nat)
    requires
        ts.len() <= usize::MAX,
    ensures
        forall|k: int| 0 <= k < take_ready(ts, scope, n).1.len()
            ==> (#[trigger] take_ready(ts, scope, n).0[take_ready(ts, scope, n).1[k] as int]).status == TaskStatus::InProgress,
        forall|a: int, b: int| 0 <= a < b < take_ready(ts, scope, n).1.len()
            ==> take_ready(ts, scope, n).1[a] != take_ready(ts, scope, n).1[b],
    decreases n,
{
    if n > 0 {
        lemma_take_ready_distinct(ts, scope, (n - 1) as nat);
        lemma_take_ready_shape(ts, scope, (n - 1) as nat);
        let (t1, ps) = take_ready(ts, scope, (n - 1) as nat);
        match ready_from(t1, scope, 0) {
            Some(i) => {
                lemma_ready_from_ready(t1, scope, 0);
                lemma_ready_from_bound(t1, scope, 0);
                let t2 = t1.update(i, Task { status: TaskStatus::InProgress, ..t1[i] });
                let ps2 = ps.push(i as usize);
                assert forall|k: int| 0 <= k < ps2.len() implies (#[trigger] t2[ps2[k] as int]).status == TaskStatus::InProgress by {
                    if k < ps.len() {
                        assert(ps2[k] == ps[k]);
                        assert(t1[ps[k] as int].status == TaskStatus::InProgress);
                    }
                }
                assert forall|a: int, b: int| 0 <= a < b < ps2.len() implies ps2[a] != ps2[b] by {
                    if b < ps.len() {
                        assert(ps2[a] == ps[a] && ps2[b] == ps[b]);
                    } else {
                        assert(ps2[a] == ps[a]);
                        assert(t1[ps[a] as int].status == TaskStatus::InProgress);
                    }
                }
            },
            None => {},
        }
    }
}

proof fn lemma_ready_from_ready(ts: Seq<Task>, scope: Option<Seq<usize>>, i: int)
    ensures
        ready_from(ts, scope, i) matches Some(p) ==> ready_in(ts[p], scope),
    decreases ts.len() - i,
{
    if 0 <= i < ts.len() && !ready_in(ts[i], scope) {
        lemma_ready_from_ready(ts, scope, i + 1);
    }
}

proof fn lemma_free_slots_increasing(states: Seq<MusicianState>, musicians: Seq<Option<Musician>>, n: nat)
    requires
        n <= usize::MAX,
    ensures
        forall|a: int, b: int| 0 <= a < b < free_slots(states, musicians, n).len()
            ==> free_slots(states, musicians, n)[a] < free_slots(states, musicians, n)[b],
        forall|k: int| 0 <= k < free_slots(states, musicians, n).len()
            ==> #[trigger] free_slots(states, musicians, n)[k] < n,
    decreases n,
{
    if n > 0 {
        lemma_free_slots_increasing(states, musicians, (n - 1) as nat);
        let before = free_slots(states, musicians, (n - 1) as nat);
        assert(forall|k: int| 0 <= k < before.len() ==> #[trigger] before.push((n - 1) as usize)[k] == before[k]);
    }
}

/// No two pairs share a musician slot or a task position.
pub open spec fn pairs_distinct(pairs: Seq<(usize, usize)>) -> bool {
    forall|a: int, b: int| #![trigger pairs[a], pairs[b]]
        0 <= a < b < pairs.len() ==> pairs[a].0 != pairs[b].0 && pairs[a].1 != pairs[b].1
}

/// Assignment hands no task position to two musicians and no musician
/// two tasks, and each task handed out was ready and in scope.
pub proof fn lemma_assignments_distinct(
    ts: Seq<Task>,
    scope: Option<Seq<usize>>,
    states: Seq<MusicianState>,
    musicians: Seq<Option<Musician>>,
)
    requires
        states.len() <= usize::MAX,
        ts.len() <= usize::MAX,
    ensures
        pairs_distinct(assignment_plan(ts, scope, states, musicians).0),
{
    let slots = free_slots(states, musicians, states.len());
    lemma_free_slots_increasing(states, musicians, states.len());
    lemma_take_ready_distinct(ts, scope, slots.len());
    lemma_take_ready_shape(ts, scope, slots.len());
}

// ─── Settling finished tasks ─────────────────────────────────────

/// What a task result holds, its texts by their characters.
pub open spec fn result_view(r: TaskResult) -> (bool, Seq<Seq<char>>, Seq<char>, Option<Seq<char>>, u64, u64, Option<Seq<char>>, Option<Seq<char>>, Option<bool>) {
    (r.success, views(r.files_modified@), r.summary@, opt_view(r.error), r.tokens_used, r.duration_ms,
        opt_view(r.diff), opt_view(r.verification_output), r.verification_passed)
}

/// The characters of an optional text.
pub open spec fn opt_view(o: Option<String>) -> Option<Seq<char>> {
    match o {
        Some(s) => Some(s@),
        None => None,
    }
}

/// What an optional task result holds.
pub open spec fn opt_result_view(o: Option<TaskResult>) -> Option<(bool, Seq<Seq<char>>, Seq<char>, Option<Seq<char>>, u64, u64, Option<Seq<char>>, Option<Seq<char>>, Option<bool>)> {
    match o {
        Some(r) => Some(result_view(r)),
        None => None,
    }
}

fn copy_text(s: &Option<String>) -> (r: Option<String>)
    ensures
        r == *s,
{
    match s {
        Some(t) => Some(t.clone()),
        None => None,
    }
}

/// A copy of a task result.
fn copy_result(o: &Option<TaskResult>) -> (c: Option<TaskResult>)
    ensures
        opt_result_view(c) == opt_result_view(*o),
{
    match o {
        None => None,
        Some(r) => Some(copy_one(r)),
    }
}

fn copy_one(r: &TaskResult) -> (c: TaskResult)
    ensures
        result_view(c) == result_view(*r),
{
    {
        {
            let mut files: Vec<String> = Vec::new();
            let mut k: usize = 0;
            while k < r.files_modified.len()
                invariant
                    k <= r.files_modified@.len(),
                    files@ == r.files_modified@.take(k as int),
                decreases r.files_modified@.len() - k,
            {
                files.push(r.files_modified[k].clone());
                k = k + 1;
                assert(files@ =~= r.files_modified@.take(k as int));
            }
            assert(r.files_modified@.take(k as int) =~= r.files_modified@);
            TaskResult {
                success: r.success,
                files_modified: files,
                summary: r.summary.clone(),
                error: copy_text(&r.error),
                tokens_used: r.tokens_used,
                duration_ms: r.duration_ms,
                diff: copy_text(&r.diff),
                verification_output: copy_text(&r.verification_output),
                verification_passed: r.verification_passed,
            }
        }
    }
}

/// The first position from `g` on of a worktree snapshot for task `index`.
pub open spec fn snapshot_from(snaps: Seq<WorktreeSnapshot>, index: usize, g: int) -> Option<int>
    decreases snaps.len() - g,
{
    if g < 0 || g >= snaps.len() {
        None
    } else if snaps[g].task_index == index {
        Some(g)
    } else {
        snapshot_from(snaps, index, g + 1)
    }
}

/// The worktree path recorded for task `index`, if any.
pub open spec fn snapshot_path(snaps: Seq<WorktreeSnapshot>, index: usize) -> Option<Seq<char>> {
    match snapshot_from(snaps, index, 0) {
        Some(g) => Some(snaps[g].path@),
        None => None,
    }
}

/// Settling the musicians' states up to slot `n`: a musician that
/// finished (or failed) its current task moves that task, if still
/// running, to completed (or failed). Gives the task list after, the
/// numbers and new statuses of the tasks settled, and the completed ones
/// with their worktree path.
pub open spec fn settle_upto(
    ts: Seq<Task>,
    states: Seq<MusicianState>,
    snaps: Seq<WorktreeSnapshot>,
    n: nat,
) -> (Seq<Task>, Seq<(usize, TaskStatus)>, Seq<(usize, Option<Seq<char>>)>)
    decreases n,
{
    if n == 0 || n > states.len() {
        (ts, Seq::empty(), Seq::empty())
    } else {
        let (t1, syncs, done) = settle_upto(ts, states, snaps, (n - 1) as nat);
        let ms = states[n - 1];
        if (ms.status == MusicianStatus::Completed || ms.status == MusicianStatus::Failed) && ms.current_task is Some {
            let idx = ms.current_task->Some_0.index;
            match first_with_index(t1, idx) {
                Some(j) => if t1[j].status == TaskStatus::InProgress {
                    let st = if ms.status == MusicianStatus::Completed { TaskStatus::Completed } else { TaskStatus::Failed };
                    let t2 = t1.update(j, Task { status: st, ..t1[j] });
                    let done2 = if st == TaskStatus::Completed { done.push((t1[j].index, snapshot_path(snaps, t1[j].index))) } else { done };
                    (t2, syncs.push((t1[j].index, st)), done2)
                } else {
                    (t1, syncs, done)
                },
                None => (t1, syncs, done),
            }
        } else {
            (t1, syncs, done)
        }
    }
}

fn find_snapshot_path(snaps: &Vec<WorktreeSnapshot>, index: usize) -> (r: Option<String>)
    ensures
        opt_view(r) == snapshot_path(snaps@, index),
{
    let mut g: usize = 0;
    while g < snaps.len()
        invariant
            g <= snaps@.len(),
            snapshot_from(snaps@, index, 0) == snapshot_from(snaps@, index, g as int),
        decreases snaps@.len() - g,
    {
        if snaps[g].task_index == index {
            return Some(snaps[g].path.clone());
        }
        g = g + 1;
    }
    None
}

proof fn lemma_settle_keeps(ts: Seq<Task>, states: Seq<MusicianState>, snaps: Seq<WorktreeSnapshot>, n: nat)
    ensures
        settle_upto(ts, states, snaps, n).0.len() == ts.len(),
        forall|i: int| 0 <= i < ts.len() ==> (#[trigger] settle_upto(ts, states, snaps, n).0[i]).index == ts[i].index
            && settle_upto(ts, states, snaps, n).0[i].result == ts[i].result,
    decreases n,
{
    if n > 0 && n <= states.len() {
        lemma_settle_keeps(ts, states, snaps, (n - 1) as nat);
        let (t1, syncs, done) = settle_upto(ts, states, snaps, (n - 1) as nat);
        let ms = states[n - 1];
        if ms.current_task is Some {
            lemma_index_from_bound(t1, ms.current_task->Some_0.index, 0);
        }
    }
}

/// Moves the tasks whose musicians finished to completed or failed (see
/// `settle_upto`). Returns, for each task settled, its number, new status
/// and a copy of its result, and, for each one completed, its number and
/// worktree path.
pub fn settle_finished_tasks(
    tasks: &mut Vec<Task>,
    states: &Vec<MusicianState>,
    snapshots: &Vec<WorktreeSnapshot>,
) -> (r: (Vec<(usize, TaskStatus, Option<TaskResult>)>, Vec<(usize, Option<String>)>))
    ensures
        ({
            let (ts, syncs, done) = settle_upto(old(tasks)@, states@, snapshots@, states@.len());
            &&& final(tasks)@ == ts
            &&& r.0@.len() == syncs.len()
            &&& forall|k: int| 0 <= k < syncs.len() ==> {
                let (i, st, res) = #[trigger] r.0@[k];
                &&& (i, st) == syncs[k]
                &&& first_with_index(old(tasks)@, i) matches Some(j)
                &&& opt_result_view(res) == opt_result_view(old(tasks)@[j].result)
            }
            &&& r.1@.len() == done.len()
            &&& forall|k: int| 0 <= k < done.len() ==> (#[trigger] r.1@[k]).0 == done[k].0 && opt_view(r.1@[k].1) == done[k].1
        }),
{
    let ghost ts0 = tasks@;
    let mut syncs: Vec<(usize, TaskStatus, Option<TaskResult>)> = Vec::new();
    let mut done: Vec<(usize, Option<String>)> = Vec::new();
    let mut m: usize = 0;
    while m < states.len()
        invariant
            m <= states@.len(),
            ({
                let (ts, sy, dn) = settle_upto(ts0, states@, snapshots@, m as nat);
                &&& tasks@ == ts
                &&& syncs@.len() == sy.len()
                &&& forall|k: int| 0 <= k < sy.len() ==> {
                    let (i, st, res) = #[trigger] syncs@[k];
                    &&& (i, st) == sy[k]
                    &&& first_with_index(ts0, i) matches Some(j)
                    &&& opt_result_view(res) == opt_result_view(ts0[j].result)
                }
                &&& done@.len() == dn.len()
                &&& forall|k: int| 0 <= k < dn.len() ==> (#[trigger] done@[k]).0 == dn[k].0 && opt_view(done@[k].1) == dn[k].1
            }),
        decreases states@.len() - m,
    {
        proof {
            lemma_settle_keeps(ts0, states@, snapshots@, m as nat);
        }
        let ghost before_t = tasks@;
        let ghost before_s = syncs@;
        let ghost before_d = done@;
        let st = states[m].status;
        if st == MusicianStatus::Completed || st == MusicianStatus::Failed {
            match &states[m].current_task {
                Some(ct) => {
                    match find_task_index(tasks, ct.index) {
                        Some(j) => {
                            proof {
                                lemma_index_from_bound(tasks@, ct.index, 0);
                                lemma_first_with_same_index(ts0, tasks@, ct.index);
                            }
                            if tasks[j].status == TaskStatus::InProgress {
                                let ns = if st == MusicianStatus::Completed { TaskStatus::Completed } else { TaskStatus::Failed };
                                let idx = tasks[j].index;
                                let res = copy_result(&tasks[j].result);
                                set_status(tasks, j, ns);
                                syncs.push((idx, ns, res));
                                if ns == TaskStatus::Completed {
                                    let path = find_snapshot_path(snapshots, idx);
                                    done.push((idx, path));
                                }
                                proof {
                                    assert(forall|k: int| 0 <= k < before_s.len() ==> #[trigger] syncs@[k] == before_s[k]);
                                    assert(forall|k: int| 0 <= k < before_d.len() ==> #[trigger] done@[k] == before_d[k]);
                                }
                            }
                        },
                        None => {},
                    }
                },
                None => {},
            }
        }
        m = m + 1;
    }
    (syncs, done)
}

/// Lists numbered alike find the same first position for a number.
proof fn lemma_first_with_same_index(a: Seq<Task>, b: Seq<Task>, index: usize)
    requires
        a.len() == b.len(),
        forall|i: int| 0 <= i < a.len() ==> (#[trigger] a[i]).index == b[i].index,
    ensures
        first_with_index(a, index) == first_with_index(b, index),
{
    lemma_index_from_same(a, b, index, 0);
}

proof fn lemma_index_from_same(a: Seq<Task>, b: Seq<Task>, index: usize, g: int)
    requires
        a.len() == b.len(),
        forall|i: int| 0 <= i < a.len() ==> (#[trigger] a[i]).index == b[i].index,
    ensures
        index_from(a, index, g) == index_from(b, index, g),
    decreases a.len() - g,
{
    if 0 <= g < a.len() {
        assert(a[g].index == b[g].index);
        lemma_index_from_same(a, b, index, g + 1);
    }
}

/// `new` is `old` after verification: with an outcome (diff, output,
/// passed), all three recorded; without one (no worktree), a note that it
/// was skipped and no verdict. A task without a result keeps none.
pub open spec fn verified_as(new: Option<TaskResult>, old: Option<TaskResult>, outcome: Option<(String, String, bool)>) -> bool {
    match old {
        None => new is None,
        Some(res) => match outcome {
            Some((diff, out, passed)) => new == Some(TaskResult {
                diff: Some(diff),
                verification_output: Some(out),
                verification_passed: Some(passed),
                ..res
            }),
            None => new matches Some(x) && x.verification_output matches Some(note)
                && note@ == "Skipped: no worktree available"@
                && x == (TaskResult { verification_output: Some(note), verification_passed: None, ..res }),
        },
    }
}

/// Records the verification of task number `task_index` in the first task
/// so numbered (see `verified_as`), and returns its number, status and a
/// copy of its result; `None`, with nothing changed, where no task has that
/// number.
pub fn record_verification(
    tasks: &mut Vec<Task>,
    task_index: usize,
    outcome: Option<(String, String, bool)>,
) -> (r: Option<(usize, TaskStatus, Option<TaskResult>)>)
    ensures
        match first_with_index(old(tasks)@, task_index) {
            Some(j) => {
                &&& final(tasks)@.len() == old(tasks)@.len()
                &&& final(tasks)@[j] == (Task { result: final(tasks)@[j].result, ..old(tasks)@[j] })
                &&& verified_as(final(tasks)@[j].result, old(tasks)@[j].result, outcome)
                &&& forall|i: int| 0 <= i < old(tasks)@.len() && i != j ==> #[trigger] final(tasks)@[i] == old(tasks)@[i]
                &&& r matches Some((i, st, res)) && i == task_index && st == old(tasks)@[j].status
                    && opt_result_view(res) == opt_result_view(final(tasks)@[j].result)
            },
            None => final(tasks)@ == old(tasks)@ && r is None,
        },
{
    match find_task_index(tasks, task_index) {
        None => None,
        Some(j) => {
            proof {
                lemma_index_from_bound(tasks@, task_index, 0);
            }
            let mut t = blank_task();
            tasks.set_and_swap(j, &mut t);
            let ghost old_t = t;
            let new_result = match t.result {
                None => None,
                Some(mut res) => {
                    match outcome {
                        Some((diff, out, passed)) => {
                            res.diff = Some(diff);
                            res.verification_output = Some(out);
                            res.verification_passed = Some(passed);
                        },
                        None => {
                            res.verification_output = Some(skipped_note());
                            res.verification_passed = None;
                        },
                    }
                    Some(res)
                },
            };
            t.result = new_result;
            let copy = copy_result(&t.result);
            let status = t.status;
            tasks.set(j, t);
            Some((task_index, status, copy))
        },
    }
}

fn skipped_note() -> (r: String)
    ensures
        r@ == "Skipped: no worktree available"@,
{
    let mut s = String::new();
    push_str(&mut s, "Skipped: no worktree available");
    s
}

// ─── Musician events ─────────────────────────────────────────────

/// The first position from `i` on of the musician state with id `id`.
pub open spec fn state_from(states: Seq<MusicianState>, id: Seq<char>, i: int) -> Option<int>
    decreases states.len() - i,
{
    if i < 0 || i >= states.len() {
        None
    } else if states[i].id@ == id {
        Some(i)
    } else {
        state_from(states, id, i + 1)
    }
}

/// The first position of the musician state with id `id`.
pub open spec fn state_pos(states: Seq<MusicianState>, id: Seq<char>) -> Option<int> {
    state_from(states, id, 0)
}

proof fn lemma_state_from_bound(states: Seq<MusicianState>, id: Seq<char>, i: int)
    requires
        0 <= i,
    ensures
        state_from(states, id, i) matches Some(p) ==> i <= p < states.len() && states[p].id@ == id,
    decreases states.len() - i,
{
    if i < states.len() && states[i].id@ != id {
        lemma_state_from_bound(states, id, i + 1);
    }
}

fn find_state(states: &Vec<MusicianState>, id: &str) -> (r: Option<usize>)
    ensures
        match r {
            Some(i) => state_pos(states@, id@) == Some(i as int) && i < states@.len(),
            None => state_pos(states@, id@) is None,
        },
{
    let mut i: usize = 0;
    while i < states.len()
        invariant
            i <= states@.len(),
            state_pos(states@, id@) == state_from(states@, id@, i as int),
        decreases states@.len() - i,
    {
        if crate::json::str_eq(states[i].id.as_str(), id) {
            return Some(i);
        }
        i = i + 1;
    }
    None
}

/// A placeholder state, swapped in while a state is edited.
fn blank_state() -> (r: MusicianState)
    ensures
        r.id@.len() == 0 && r.index == 0 && r.status == MusicianStatus::Idle && r.current_task is None,
        r.output_lines@.len() == 0 && r.tokens_used == 0 && !r.tokens_estimated && r.elapsed_ms == 0,
        r.token_usage == (crate::state::TokenUsage { input: 0, output: 0, cache_read: 0, cache_creation: 0 }),
        r.started_at is None && r.worktree_path is None && r.branch is None,
        r.checkpoint is None && r.prompt_sent is None,
{
    MusicianState {
        id: String::new(),
        index: 0,
        status: MusicianStatus::Idle,
        current_task: None,
        output_lines: Vec::new(),
        tokens_used: 0,
        token_usage: crate::state::TokenUsage { input: 0, output: 0, cache_read: 0, cache_creation: 0 },
        tokens_estimated: false,
        started_at: None,
        elapsed_ms: 0,
        worktree_path: None,
        branch: None,
        checkpoint: None,
        prompt_sent: None,
    }
}

/// Replaces the state of the musician with id `musician_id`, the first so
/// named; nothing changes where no musician has that id.
pub fn apply_status_change(states: &mut Vec<MusicianState>, musician_id: &str, state: MusicianState)
    ensures
        match state_pos(old(states)@, musician_id@) {
            Some(i) => final(states)@ == old(states)@.update(i, state),
            None => final(states)@ == old(states)@,
        },
{
    match find_state(states, musician_id) {
        Some(i) => {
            states.set(i, state);
        },
        None => {},
    }
}

/// The task status a finished run leads to.
pub open spec fn finish_status(success: bool) -> TaskStatus {
    if success { TaskStatus::Completed } else { TaskStatus::Failed }
}

/// What a musician's completion does: its state turns completed (or
/// failed); the task it was running, the first so numbered, takes the
/// result and, if still running, the new status; the phase copy of that
/// task takes both.
pub open spec fn completion_recorded(
    new_states: Seq<MusicianState>,
    new_tasks: Seq<Task>,
    new_phases: Seq<Phase>,
    states: Seq<MusicianState>,
    tasks: Seq<Task>,
    phases: Seq<Phase>,
    id: Seq<char>,
    result: TaskResult,
) -> bool {
    match state_pos(states, id) {
        None => new_states == states && new_tasks == tasks && new_phases == phases,
        Some(i) => {
            let ms = if result.success { MusicianStatus::Completed } else { MusicianStatus::Failed };
            &&& new_states == states.update(i, MusicianState { status: ms, ..states[i] })
            &&& match states[i].current_task {
                None => new_tasks == tasks && new_phases == phases,
                Some(ct) => {
                    let st = finish_status(result.success);
                    &&& match first_with_index(tasks, ct.index) {
                        Some(j) => {
                            &&& new_tasks.len() == tasks.len()
                            &&& new_tasks[j] == (Task {
                                result: new_tasks[j].result,
                                status: if tasks[j].status == TaskStatus::InProgress { st } else { tasks[j].status },
                                ..tasks[j]
                            })
                            &&& opt_result_view(new_tasks[j].result) == Some(result_view(result))
                            &&& forall|k: int| 0 <= k < tasks.len() && k != j ==> #[trigger] new_tasks[k] == tasks[k]
                        },
                        None => new_tasks == tasks,
                    }
                    &&& phase_synced(new_phases, phases, ct.index, st, Some(result))
                },
            }
        },
    }
}

/// Records that the musician `musician_id` finished with `result` (see
/// `completion_recorded`).
pub fn record_completion(
    states: &mut Vec<MusicianState>,
    tasks: &mut Vec<Task>,
    phases: &mut Vec<Phase>,
    musician_id: &str,
    result: TaskResult,
)
    ensures
        completion_recorded(final(states)@, final(tasks)@, final(phases)@, old(states)@, old(tasks)@, old(phases)@, musician_id@, result),
{
    let ghost s0 = states@;
    let ghost t0 = tasks@;
    let ghost p0 = phases@;
    match find_state(states, musician_id) {
        None => {},
        Some(i) => {
            let ms = if result.success { MusicianStatus::Completed } else { MusicianStatus::Failed };
            let task_index: Option<usize> = match &states[i].current_task {
                Some(ct) => Some(ct.index),
                None => None,
            };
            let mut s = blank_state();
            states.set_and_swap(i, &mut s);
            s.status = ms;
            states.set(i, s);
            assert(states@ == s0.update(i as int, MusicianState { status: ms, ..s0[i as int] }));
            match task_index {
                None => {},
                Some(ti) => {
                    let st = if result.success { TaskStatus::Completed } else { TaskStatus::Failed };
                    match find_task_index(tasks, ti) {
                        Some(j) => {
                            let copy = Some(copy_one(&result));
                            let mut t = blank_task();
                            tasks.set_and_swap(j, &mut t);
                            let ghost tj = t;
                            t.result = copy;
                            if t.status == TaskStatus::InProgress {
                                t.status = st;
                            }
                            tasks.set(j, t);
                            assert(tasks@.len() == t0.len());
                            assert(tasks@[j as int] == (Task {
                                result: tasks@[j as int].result,
                                status: if t0[j as int].status == TaskStatus::InProgress { st } else { t0[j as int].status },
                                ..t0[j as int]
                            }));
                            assert(forall|k: int| 0 <= k < t0.len() && k != j ==> #[trigger] tasks@[k] == t0[k]);
                        },
                        None => {},
                    }
                    sync_task_to_phase(phases, ti, st, Some(result));
                },
            }
        },
    }
}

// ─── User actions ────────────────────────────────────────────────

/// What the orchestra does with a user action.
#[derive(Clone, Copy, Debug, PartialEq, Eq, Structural)]
pub enum ActionStep {
    /// Stop every musician and finish.
    Shutdown,
    /// Start executing the approved plan.
    StartExecution,
    /// Plan again with the user's feedback.
    Replan,
    /// Plan the submitted task.
    Plan,
    /// Queue the guidance and pass it to the running musicians.
    QueueGuidance,
    /// Resume the named session.
    Resume,
    /// Nothing: the interface handles it, or the phase does not allow it.
    Ignore,
}

/// The step a user action leads to in `phase`: approving and refining
/// only during plan review, submitting a task and resuming only before
/// any planning.
pub open spec fn action_step_of(phase: OrchestraPhase, action: UserAction) -> ActionStep {
    match action {
        UserAction::Quit => ActionStep::Shutdown,
        UserAction::ApprovePlan => if phase == OrchestraPhase::PlanReview { ActionStep::StartExecution } else { ActionStep::Ignore },
        UserAction::RefinePlan { .. } => if phase == OrchestraPhase::PlanReview { ActionStep::Replan } else { ActionStep::Ignore },
        UserAction::SubmitTask { .. } => if phase == OrchestraPhase::Init { ActionStep::Plan } else { ActionStep::Ignore },
        UserAction::SubmitGuidance { .. } => ActionStep::QueueGuidance,
        UserAction::ResumeSession { .. } => if phase == OrchestraPhase::Init { ActionStep::Resume } else { ActionStep::Ignore },
        _ => ActionStep::Ignore,
    }
}

/// Decides what a user action does in `phase` (see `action_step_of`).
pub fn action_step(phase: OrchestraPhase, action: &UserAction) -> (r: ActionStep)
    ensures
        r == action_step_of(phase, *action),
{
    match action {
        UserAction::Quit => ActionStep::Shutdown,
        UserAction::ApprovePlan => if phase == OrchestraPhase::PlanReview { ActionStep::StartExecution } else { ActionStep::Ignore },
        UserAction::RefinePlan { .. } => if phase == OrchestraPhase::PlanReview { ActionStep::Replan } else { ActionStep::Ignore },
        UserAction::SubmitTask { .. } => if phase == OrchestraPhase::Init { ActionStep::Plan } else { ActionStep::Ignore },
        UserAction::SubmitGuidance { .. } => ActionStep::QueueGuidance,
        UserAction::ResumeSession { .. } => if phase == OrchestraPhase::Init { ActionStep::Resume } else { ActionStep::Ignore },
        _ => ActionStep::Ignore,
    }
}

/// What resuming a saved session does, by the phase it was saved in.
#[derive(Clone, Copy, Debug, PartialEq, Eq, Structural)]
pub enum ResumeStep {
    /// The plan awaits review again.
    ReviewPlan,
    /// Back to plan review, to continue from the saved phase once approved.
    ContinuePhase,
    /// The session had finished; nothing to do.
    AlreadyFinished,
    /// Planning was not done: plan again.
    Replan,
}

/// The resume step for a session saved in phase `saved`.
pub open spec fn resume_step_of(saved: OrchestraPhase) -> ResumeStep {
    match saved {
        OrchestraPhase::PlanReview => ResumeStep::ReviewPlan,
        OrchestraPhase::PhaseDetailing | OrchestraPhase::PhaseExecuting | OrchestraPhase::PhaseMerging
        | OrchestraPhase::PhaseReviewing => ResumeStep::ContinuePhase,
        OrchestraPhase::Complete | OrchestraPhase::Failed => ResumeStep::AlreadyFinished,
        _ => ResumeStep::Replan,
    }
}

/// The message shown on resuming, where there is one.
pub open spec fn resume_message_of(saved: OrchestraPhase, current_phase_index: Option<usize>) -> Option<Seq<char>> {
    match resume_step_of(saved) {
        ResumeStep::ReviewPlan => Some("Resumed — plan ready for review."@),
        ResumeStep::ContinuePhase => Some("Resumed — continuing from phase "@ + decimal(match current_phase_index {
            Some(i) => (i + 1) as nat,
            None => 1,
        }) + ". Approve to proceed."@),
        ResumeStep::AlreadyFinished => Some("Session already finished."@),
        ResumeStep::Replan => None,
    }
}

/// Decides what resuming a session saved in phase `saved` does, and the
/// message to show (phases counted from one).
pub fn resume_step(saved: OrchestraPhase, current_phase_index: Option<usize>) -> (r: (ResumeStep, Option<String>))
    requires
        current_phase_index matches Some(i) ==> i < usize::MAX,
    ensures
        r.0 == resume_step_of(saved),
        opt_view(r.1) == resume_message_of(saved, current_phase_index),
{
    let step = match saved {
        OrchestraPhase::PlanReview => ResumeStep::ReviewPlan,
        OrchestraPhase::PhaseDetailing | OrchestraPhase::PhaseExecuting | OrchestraPhase::PhaseMerging
        | OrchestraPhase::PhaseReviewing => ResumeStep::ContinuePhase,
        OrchestraPhase::Complete | OrchestraPhase::Failed => ResumeStep::AlreadyFinished,
        _ => ResumeStep::Replan,
    };
    let mut msg = String::new();
    match step {
        ResumeStep::ReviewPlan => {
            push_str(&mut msg, "Resumed — plan ready for review.");
        },
        ResumeStep::ContinuePhase => {
            let n: u64 = match current_phase_index {
                Some(i) => (i + 1) as u64,
                None => 1,
            };
            push_str(&mut msg, "Resumed — continuing from phase ");
            push_decimal(&mut msg, n);
            push_str(&mut msg, ". Approve to proceed.");
        },
        ResumeStep::AlreadyFinished => {
            push_str(&mut msg, "Session already finished.");
        },
        ResumeStep::Replan => {
            return (step, None);
        },
    }
    proof {
        reveal_strlit("");
    }
    assert(msg@ =~= resume_message_of(saved, current_phase_index)->Some_0);
    (step, Some(msg))
}

/// The message shown when a session to resume cannot be had: not found,
/// named ambiguously, or failing to load with `error`.
pub fn resume_failure_message(session_id: &str, ambiguous: bool, error: Option<&str>) -> (r: String)
    ensures
        r@ == match error {
            Some(e) => "Failed to load session: "@ + e@,
            None => "Session '"@ + session_id@ + (if ambiguous { "' not found or ambiguous"@ } else { "' not found"@ }),
        },
{
    let mut msg = String::new();
    match error {
        Some(e) => {
            push_str(&mut msg, "Failed to load session: ");
            push_str(&mut msg, e);
        },
        None => {
            push_str(&mut msg, "Session '");
            push_str(&mut msg, session_id);
            if ambiguous {
                push_str(&mut msg, "' not found or ambiguous");
            } else {
                push_str(&mut msg, "' not found");
            }
        },
    }
    proof {
        reveal_strlit("");
    }
    msg
}

// ─── Detailed phase tasks ────────────────────────────────────────

/// `a` holds what `b` holds, texts compared by their characters.
pub open spec fn task_same(a: Task, b: Task) -> bool {
    &&& a.id@ == b.id@
    &&& a.index == b.index
    &&& a.title@ == b.title@
    &&& a.description@ == b.description@
    &&& a.why@ == b.why@
    &&& views(a.file_scope@) == views(b.file_scope@)
    &&& a.dependencies@ == b.dependencies@
    &&& views(a.acceptance_criteria@) == views(b.acceptance_criteria@)
    &&& a.estimated_turns == b.estimated_turns
    &&& opt_view(a.model) == opt_view(b.model)
    &&& a.status == b.status
    &&& opt_view(a.assigned_musician) == opt_view(b.assigned_musician)
    &&& opt_result_view(a.result) == opt_result_view(b.result)
}

fn copy_strings_of(v: &Vec<String>) -> (r: Vec<String>)
    ensures
        r@ == v@,
{
    let mut out: Vec<String> = Vec::new();
    let mut k: usize = 0;
    while k < v.len()
        invariant
            k <= v@.len(),
            out@ == v@.take(k as int),
        decreases v@.len() - k,
    {
        out.push(v[k].clone());
        k = k + 1;
        assert(out@ =~= v@.take(k as int));
    }
    assert(v@.take(k as int) =~= v@);
    out
}

fn copy_task(t: &Task) -> (r: Task)
    ensures
        task_same(r, *t),
{
    let mut deps: Vec<usize> = Vec::new();
    let mut k: usize = 0;
    while k < t.dependencies.len()
        invariant
            k <= t.dependencies@.len(),
            deps@ == t.dependencies@.take(k as int),
        decreases t.dependencies@.len() - k,
    {
        deps.push(t.dependencies[k]);
        k = k + 1;
        assert(deps@ =~= t.dependencies@.take(k as int));
    }
    assert(t.dependencies@.take(k as int) =~= t.dependencies@);
    Task {
        id: t.id.clone(),
        index: t.index,
        title: t.title.clone(),
        description: t.description.clone(),
        why: t.why.clone(),
        file_scope: copy_strings_of(&t.file_scope),
        dependencies: deps,
        acceptance_criteria: copy_strings_of(&t.acceptance_criteria),
        estimated_turns: t.estimated_turns,
        model: copy_text(&t.model),
        status: t.status,
        assigned_musician: copy_text(&t.assigned_musician),
        result: copy_result(&t.result),
    }
}

/// The dependencies among `deps` that name another task of a phase of
/// `n` tasks: in range and not the task itself (position `ti`).
pub open spec fn kept_deps(deps: Seq<usize>, n: int, ti: int) -> Seq<usize>
    decreases deps.len(),
{
    if deps.len() == 0 {
        Seq::empty()
    } else {
        let rest = kept_deps(deps.drop_last(), n, ti);
        let d = deps.last();
        if d < n && d != ti { rest.push(d) } else { rest }
    }
}

/// Adds the tasks a phase was detailed into to the task list and to the
/// phase: numbered on from the tasks there are, their dependencies kept to
/// the other tasks of the phase (in range, not themselves).
pub fn absorb_detailed_tasks(tasks: &mut Vec<Task>, phase_tasks: &mut Vec<Task>, detailed: Vec<Task>)
    requires
        old(tasks)@.len() + detailed@.len() <= usize::MAX,
    ensures
        final(tasks)@.len() == old(tasks)@.len() + detailed@.len(),
        final(phase_tasks)@.len() == old(phase_tasks)@.len() + detailed@.len(),
        forall|i: int| 0 <= i < old(tasks)@.len() ==> #[trigger] final(tasks)@[i] == old(tasks)@[i],
        forall|i: int| 0 <= i < old(phase_tasks)@.len() ==> #[trigger] final(phase_tasks)@[i] == old(phase_tasks)@[i],
        forall|ti: int| 0 <= ti < detailed@.len() ==> {
            let t = #[trigger] final(tasks)@[old(tasks)@.len() + ti];
            &&& t == (Task { index: (old(tasks)@.len() + ti) as usize, dependencies: t.dependencies, ..detailed@[ti] })
            &&& t.dependencies@ == kept_deps(detailed@[ti].dependencies@, detailed@.len() as int, ti)
            &&& task_same(final(phase_tasks)@[old(phase_tasks)@.len() + ti], t)
        },
{
    let base = tasks.len();
    let n = detailed.len();
    let ghost t0 = tasks@;
    let ghost p0 = phase_tasks@;
    let ghost d0 = detailed@;
    let mut rest = detailed;
    let mut ti: usize = 0;
    while rest.len() > 0
        invariant
            ti + rest@.len() == n,
            n == d0.len(),
            rest@ == d0.skip(ti as int),
            base == t0.len(),
            base + n <= usize::MAX,
            tasks@.len() == base + ti,
            phase_tasks@.len() == p0.len() + ti,
            forall|i: int| 0 <= i < t0.len() ==> #[trigger] tasks@[i] == t0[i],
            forall|i: int| 0 <= i < p0.len() ==> #[trigger] phase_tasks@[i] == p0[i],
            forall|k: int| 0 <= k < ti ==> {
                let t = #[trigger] tasks@[base + k];
                &&& t == (Task { index: (base + k) as usize, dependencies: t.dependencies, ..d0[k] })
                &&& t.dependencies@ == kept_deps(d0[k].dependencies@, n as int, k)
                &&& task_same(phase_tasks@[p0.len() + k], t)
            },
        decreases rest@.len(),
    {
        let mut t = rest.remove(0);
        assert(t == d0[ti as int]);
        let ghost orig = t;
        let mut deps: Vec<usize> = Vec::new();
        let mut k: usize = 0;
        while k < t.dependencies.len()
            invariant
                k <= t.dependencies@.len(),
                t.dependencies@ == orig.dependencies@,
                deps@ == kept_deps(orig.dependencies@.take(k as int), n as int, ti as int),
            decreases t.dependencies@.len() - k,
        {
            assert(orig.dependencies@.take(k + 1).drop_last() =~= orig.dependencies@.take(k as int));
            let d = t.dependencies[k];
            if d < n && d != ti {
                deps.push(d);
            }
            k = k + 1;
        }
        assert(orig.dependencies@.take(k as int) =~= orig.dependencies@);
        t.index = base + ti;
        t.dependencies = deps;
        let c = copy_task(&t);
        tasks.push(t);
        phase_tasks.push(c);
        ti = ti + 1;
        assert(rest@ =~= d0.skip(ti as int));
    }
}

// ─── The flat task list ──────────────────────────────────────────

/// How many tasks the first `p` phases hold.
pub open spec fn tasks_before(phases: Seq<Phase>, p: int) -> int
    decreases p,
{
    if p <= 0 || phases.len() == 0 {
        0
    } else if p > phases.len() {
        tasks_before(phases, phases.len() as int)
    } else {
        tasks_before(phases, p - 1) + phases[p - 1].tasks@.len()
    }
}

proof fn lemma_tasks_before_mono(phases: Seq<Phase>, a: int, b: int)
    requires
        0 <= a <= b <= phases.len(),
    ensures
        tasks_before(phases, a) <= tasks_before(phases, b),
        a < b ==> tasks_before(phases, a) + phases[a].tasks@.len() <= tasks_before(phases, b),
    decreases b - a,
{
    if a < b {
        lemma_tasks_before_mono(phases, a, b - 1);
        if a < b - 1 {
            lemma_tasks_before_mono(phases, a + 1, b);
        }
    }
}

fn blank_phase() -> (r: Phase)
    ensures
        r.tasks@.len() == 0,
{
    Phase {
        id: String::new(),
        index: 0,
        title: String::new(),
        description: String::new(),
        status: PhaseStatus::Pending,
        tasks: Vec::new(),
        review_result: None,
        token_used: 0,
    }
}

/// Numbers the phases' tasks from zero across all phases, in phase order,
/// and gives the flat task list: a copy of each task so numbered.
pub fn flatten_phase_tasks(phases: &mut Vec<Phase>) -> (r: Vec<Task>)
    ensures
        final(phases)@.len() == old(phases)@.len(),
        forall|p: int| 0 <= p < old(phases)@.len() ==> #[trigger] final(phases)@[p] == (Phase { tasks: final(phases)@[p].tasks, ..old(phases)@[p] }),
        forall|p: int| 0 <= p < old(phases)@.len() ==> (#[trigger] final(phases)@[p]).tasks@.len() == old(phases)@[p].tasks@.len(),
        forall|p: int, k: int| 0 <= p < old(phases)@.len() && 0 <= k < old(phases)@[p].tasks@.len() ==>
            #[trigger] final(phases)@[p].tasks@[k] == (Task { index: (tasks_before(old(phases)@, p) + k) as usize, ..old(phases)@[p].tasks@[k] }),
        r@.len() == tasks_before(old(phases)@, old(phases)@.len() as int),
        forall|g: int| 0 <= g < r@.len() ==> (#[trigger] r@[g]).index == g,
        forall|p: int, k: int| 0 <= p < old(phases)@.len() && 0 <= k < old(phases)@[p].tasks@.len() ==>
            task_same(r@[tasks_before(old(phases)@, p) + k], #[trigger] final(phases)@[p].tasks@[k]),
{
    let ghost ph0 = phases@;
    let mut out: Vec<Task> = Vec::new();
    let mut p: usize = 0;
    while p < phases.len()
        invariant
            p <= phases@.len(),
            phases@.len() == ph0.len(),
            out@.len() == tasks_before(ph0, p as int),
            forall|q: int| p <= q < ph0.len() ==> #[trigger] phases@[q] == ph0[q],
            forall|q: int| 0 <= q < p ==> #[trigger] phases@[q] == (Phase { tasks: phases@[q].tasks, ..ph0[q] }),
            forall|q: int| 0 <= q < p ==> (#[trigger] phases@[q]).tasks@.len() == ph0[q].tasks@.len(),
            forall|q: int, k: int| 0 <= q < p && 0 <= k < ph0[q].tasks@.len() ==>
                #[trigger] phases@[q].tasks@[k] == (Task { index: (tasks_before(ph0, q) + k) as usize, ..ph0[q].tasks@[k] }),
            forall|g: int| 0 <= g < out@.len() ==> (#[trigger] out@[g]).index == g,
            forall|q: int, k: int| 0 <= q < p && 0 <= k < ph0[q].tasks@.len() ==>
                task_same(out@[tasks_before(ph0, q) + k], #[trigger] phases@[q].tasks@[k]),
        decreases ph0.len() - p,
    {
        let mut ph = blank_phase();
        phases.set_and_swap(p, &mut ph);
        let ghost orig = ph;
        assert(orig == ph0[p as int]);
        let ghost base = out@.len();
        let ghost out_start = out@;
        let ghost phases_mid = phases@;
        let mut k: usize = 0;
        while k < ph.tasks.len()
            invariant
                k <= ph.tasks@.len(),
                out_start.len() == base,
                forall|g: int| 0 <= g < base ==> #[trigger] out@[g] == out_start[g],
                ph.tasks@.len() == orig.tasks@.len(),
                ph == (Phase { tasks: ph.tasks, ..orig }),
                out@.len() == base + k,
                base == tasks_before(ph0, p as int),
                forall|j: int| k <= j < orig.tasks@.len() ==> #[trigger] ph.tasks@[j] == orig.tasks@[j],
                forall|j: int| 0 <= j < k ==> #[trigger] ph.tasks@[j] == (Task { index: (base + j) as usize, ..orig.tasks@[j] }),
                forall|g: int| 0 <= g < out@.len() ==> (#[trigger] out@[g]).index == g,
                forall|j: int| 0 <= j < k ==> task_same(out@[base + j], #[trigger] ph.tasks@[j]),
            decreases orig.tasks@.len() - k,
        {
            let mut t = blank_task();
            ph.tasks.set_and_swap(k, &mut t);
            t.index = out.len();
            let c = copy_task(&t);
            ph.tasks.set(k, t);
            let ghost before_out = out@;
            out.push(c);
            proof {
                assert forall|g: int| 0 <= g < base implies #[trigger] out@[g] == out_start[g] by {
                    assert(out@[g] == before_out[g]);
                }
                assert forall|j: int| 0 <= j < k + 1 implies task_same(out@[base + j], #[trigger] ph.tasks@[j]) by {
                    if j < k {
                        assert(out@[base + j] == before_out[base + j]);
                    }
                }
                assert forall|g: int| 0 <= g < out@.len() implies (#[trigger] out@[g]).index == g by {
                    if g < before_out.len() {
                        assert(out@[g] == before_out[g]);
                    }
                }
            }
            k = k + 1;
        }
        let ghost before_out2 = out@;
        phases.set(p, ph);
        proof {
            lemma_tasks_before_mono(ph0, p as int, p + 1);
            assert(tasks_before(ph0, p + 1) == tasks_before(ph0, p as int) + ph0[p as int].tasks@.len());
            assert forall|q: int, j: int| 0 <= q < p + 1 && 0 <= j < ph0[q].tasks@.len() implies
                task_same(out@[tasks_before(ph0, q) + j], #[trigger] phases@[q].tasks@[j]) by {
                if q < p {
                    lemma_tasks_before_mono(ph0, q, p as int);
                    assert(phases@[q] == phases_mid[q]);
                    lemma_tasks_before_mono(ph0, 0, q);
                    assert(tasks_before(ph0, q) + j < base);
                    assert(out@[tasks_before(ph0, q) + j] == out_start[tasks_before(ph0, q) + j]);
                } else {
                    assert(phases@[q] == ph);
                    assert(task_same(out@[base + j], ph.tasks@[j]));
                }
            }
        }
        p = p + 1;
    }
    out
}

/// Puts the running tasks of every phase back in the queue (their
/// musicians are gone after a restart).
pub fn requeue_running_phases(phases: &mut Vec<Phase>)
    ensures
        final(phases)@.len() == old(phases)@.len(),
        forall|p: int| 0 <= p < old(phases)@.len() ==> #[trigger] final(phases)@[p] == (Phase { tasks: final(phases)@[p].tasks, ..old(phases)@[p] }),
        forall|p: int| 0 <= p < old(phases)@.len() ==> (#[trigger] final(phases)@[p]).tasks@ == old(phases)@[p].tasks@.map_values(|t: Task| requeued(t)),
{
    let ghost ph0 = phases@;
    let mut p: usize = 0;
    while p < phases.len()
        invariant
            p <= phases@.len(),
            phases@.len() == ph0.len(),
            forall|q: int| p <= q < ph0.len() ==> #[trigger] phases@[q] == ph0[q],
            forall|q: int| 0 <= q < p ==> #[trigger] phases@[q] == (Phase { tasks: phases@[q].tasks, ..ph0[q] }),
            forall|q: int| 0 <= q < p ==> (#[trigger] phases@[q]).tasks@ == ph0[q].tasks@.map_values(|t: Task| requeued(t)),
        decreases ph0.len() - p,
    {
        let mut ph = blank_phase();
        phases.set_and_swap(p, &mut ph);
        requeue_running(&mut ph.tasks);
        phases.set(p, ph);
        p = p + 1;
    }
}

/// A task with nothing in it, for other modules to swap in while a task
/// is edited.
pub(crate) fn placeholder_task() -> (r: Task)
    ensures
        r.id@.len() == 0 && r.title@.len() == 0 && r.description@.len() == 0 && r.why@.len() == 0,
        r.index == 0 && r.estimated_turns == 0 && r.status == TaskStatus::Queued,
{
    blank_task()
}


/// Every task that was running, in the flat list and in the phases, goes
/// back to the queue (see `requeued`); afterwards no task is running.
pub fn requeue_interrupted(tasks: &mut Vec<Task>, phases: &mut Vec<Phase>)
    ensures
        final(tasks)@ == old(tasks)@.map_values(|t: Task| requeued(t)),
        final(phases)@.len() == old(phases)@.len(),
        forall|p: int| 0 <= p < old(phases)@.len() ==> #[trigger] final(phases)@[p] == (Phase { tasks: final(phases)@[p].tasks, ..old(phases)@[p] }),
        forall|p: int| 0 <= p < old(phases)@.len() ==> (#[trigger] final(phases)@[p]).tasks@ == old(phases)@[p].tasks@.map_values(|t: Task| requeued(t)),
        forall|i: int| 0 <= i < final(tasks)@.len() ==> (#[trigger] final(tasks)@[i]).status != TaskStatus::InProgress,
        forall|p: int, k: int| 0 <= p < final(phases)@.len() && 0 <= k < final(phases)@[p].tasks@.len() ==>
            (#[trigger] final(phases)@[p].tasks@[k]).status != TaskStatus::InProgress,
{
    requeue_running(tasks);
    requeue_running_phases(phases);
    assert forall|p: int, k: int| 0 <= p < phases@.len() && 0 <= k < phases@[p].tasks@.len() implies
        (#[trigger] phases@[p].tasks@[k]).status != TaskStatus::InProgress by {
        assert(phases@[p].tasks@[k] == requeued(old(phases)@[p].tasks@[k]));
    }
}


/// The orchestra's state as a saved session gives it back.
pub struct RestoredState {
    /// The session's own id, which the orchestra takes over.
    pub session_id: String,
    pub task_description: String,
    pub phase: OrchestraPhase,
    pub started_at: String,
    pub tasks: Vec<Task>,
    pub phases: Vec<Phase>,
    pub current_phase_index: Option<i32>,
    pub worktree_state: Option<Vec<WorktreeSnapshot>>,
    /// The summary of the rebuilt plan, when there are tasks.
    pub plan_summary: Option<String>,
}

/// Restores the orchestra's state from a saved session: its id, task,
/// phase, start time, tasks, phases (the current ones where the session
/// saved none), phase position and worktrees; every task that was running
/// goes back to the queue, so that no task is running afterwards; a plan is
/// rebuilt, summarised as "Resumed session " and the id, when there are
/// tasks.
pub fn restore_session(session: SessionData, current_phases: Vec<Phase>) -> (r: RestoredState)
    ensures
        r.session_id@ == session.id@,
        r.task_description@ == session.config.task_description@,
        r.phase == session.phase,
        r.started_at@ == session.started_at@,
        r.current_phase_index == session.current_phase_index,
        r.worktree_state == session.worktree_state,
        r.tasks@ == session.tasks@.map_values(|t: Task| requeued(t)),
        ({
            let ps = match session.phases {
                Some(p) => p@,
                None => current_phases@,
            };
            &&& r.phases@.len() == ps.len()
            &&& forall|p: int| 0 <= p < ps.len() ==> #[trigger] r.phases@[p] == (Phase { tasks: r.phases@[p].tasks, ..ps[p] })
            &&& forall|p: int| 0 <= p < ps.len() ==> (#[trigger] r.phases@[p]).tasks@ == ps[p].tasks@.map_values(|t: Task| requeued(t))
        }),
        forall|i: int| 0 <= i < r.tasks@.len() ==> (#[trigger] r.tasks@[i]).status != TaskStatus::InProgress,
        forall|p: int, k: int| 0 <= p < r.phases@.len() && 0 <= k < r.phases@[p].tasks@.len() ==>
            (#[trigger] r.phases@[p].tasks@[k]).status != TaskStatus::InProgress,
        match r.plan_summary {
            Some(s) => session.tasks@.len() > 0 && s@ == "Resumed session "@ + session.id@,
            None => session.tasks@.len() == 0,
        },
{
    let SessionData { id, config, phase, started_at, tasks, phases, current_phase_index, worktree_state, .. } = session;
    let mut tasks = tasks;
    let mut phases = match phases {
        Some(p) => p,
        None => current_phases,
    };
    requeue_interrupted(&mut tasks, &mut phases);
    let plan_summary = if tasks.len() > 0 {
        let mut s = String::new();
        proof {
            reveal_strlit("");
        }
        crate::text::push_str(&mut s, "Resumed session ");
        crate::text::push_str(&mut s, id.as_str());
        Some(s)
    } else {
        None
    };
    RestoredState {
        session_id: id,
        task_description: config.task_description,
        phase,
        started_at,
        tasks,
        phases,
        current_phase_index,
        worktree_state,
        plan_summary,
    }
}

/// Where the phase loop goes after a phase's review.
#[derive(Debug, Clone, Copy, PartialEq, Eq, Structural)]
pub enum PhaseNext {
    /// On to the next phase.
    Next,
    /// Run this phase again: tasks were sent back.
    Again,
    /// The run stops and fails.
    Abort,
}

/// `p` with the status `st`.
pub open spec fn with_status(p: Phase, st: PhaseStatus) -> Phase {
    Phase { status: st, ..p }
}

/// What the phase loop reports on a retry request past the limit.
pub open spec fn forced_note(pi: int) -> Seq<char> {
    "[WARN] Phase "@ + decimal((pi + 1) as nat) + " exceeded max retries (3) \u{2014} forcing continue"@
}

/// What the phase loop reports when a retry finds nothing to retry.
pub open spec fn nothing_to_retry_note(pi: int) -> Seq<char> {
    "Phase "@ + decimal((pi + 1) as nat) + " review requested retry but all tasks succeeded \u{2014} continuing"@
}

/// What the phase loop reports when the remaining phases were revised.
pub open spec fn revised_note(pi: int) -> Seq<char> {
    "Revised remaining phases based on Phase "@ + decimal((pi + 1) as nat) + " results"@
}

fn phase_note(pre: &str, pi: usize, post: &str) -> (r: String)
    requires
        pi < usize::MAX,
    ensures
        r@ == pre@ + decimal((pi + 1) as nat) + post@,
{
    let mut s = String::new();
    proof {
        reveal_strlit("");
    }
    push_str(&mut s, pre);
    push_decimal(&mut s, (pi + 1) as u64);
    push_str(&mut s, post);
    s
}

/// Carries out a phase review's verdict on phase `pi`, with `retries` the
/// retry requests the phase has had before this one:
/// - continue: the phase is completed; on to the next;
/// - retry: one more request is counted; past the limit the phase is
///   completed and a warning noted; otherwise the named tasks (by default
///   the unfinished ones) go back to the queue, except those that
///   succeeded (see `retry_phase_tasks`), and the phase runs again, unless
///   none went back: then that is noted and the phase is completed;
/// - revise: the phase is completed and the phases after it are replaced
///   by the revised ones, when there are any (noted);
/// - abort: the phase fails and the run stops.
/// Returns where the loop goes and the notes to report.
pub fn settle_phase_review(
    phases: &mut Vec<Phase>,
    tasks: &mut Vec<Task>,
    pi: usize,
    action: PhaseReviewAction,
    task_indices: Option<Vec<usize>>,
    revised: Option<Vec<Phase>>,
    retries: &mut u32,
) -> (r: (PhaseNext, Vec<String>))
    requires
        pi < old(phases)@.len(),
        pi < usize::MAX,
        *old(retries) < u32::MAX,
        revised matches Some(v) ==> pi + 1 + v@.len() <= usize::MAX,
    ensures
        action == PhaseReviewAction::Continue ==> {
            &&& final(phases)@ == old(phases)@.update(pi as int, with_status(old(phases)@[pi as int], PhaseStatus::Completed))
            &&& final(tasks)@ == old(tasks)@ && *final(retries) == *old(retries)
            &&& r.0 == PhaseNext::Next && r.1@.len() == 0
        },
        action == PhaseReviewAction::Abort ==> {
            &&& final(phases)@ == old(phases)@.update(pi as int, with_status(old(phases)@[pi as int], PhaseStatus::Failed))
            &&& final(tasks)@ == old(tasks)@ && *final(retries) == *old(retries)
            &&& r.0 == PhaseNext::Abort && r.1@.len() == 0
        },
        action == PhaseReviewAction::ReviseRemainingPhases ==> {
            let done = with_status(old(phases)@[pi as int], PhaseStatus::Completed);
            &&& final(tasks)@ == old(tasks)@ && *final(retries) == *old(retries)
            &&& r.0 == PhaseNext::Next
            &&& match revised {
                Some(v) if v@.len() > 0 => {
                    &&& final(phases)@.len() == pi + 1 + v@.len()
                    &&& forall|i: int| 0 <= i < pi ==> #[trigger] final(phases)@[i] == old(phases)@[i]
                    &&& final(phases)@[pi as int] == done
                    &&& forall|j: int| 0 <= j < v@.len() ==> #[trigger] final(phases)@[pi + 1 + j]
                        == (Phase { index: (pi + 1 + j) as usize, ..v@[j] })
                    &&& views(r.1@) == seq![revised_note(pi as int)]
                },
                _ => final(phases)@ == old(phases)@.update(pi as int, done) && r.1@.len() == 0,
            }
        },
        action == PhaseReviewAction::RetryTasks ==> {
            let pt0 = old(phases)@[pi as int].tasks@;
            let list = match task_indices {
                Some(v) => v@,
                None => unfinished_positions(pt0),
            };
            &&& *final(retries) == *old(retries) + 1
            &&& (*old(retries) + 1 > MAX_PHASE_RETRIES) ==> {
                &&& final(phases)@ == old(phases)@.update(pi as int, with_status(old(phases)@[pi as int], PhaseStatus::Completed))
                &&& final(tasks)@ == old(tasks)@
                &&& r.0 == PhaseNext::Next && views(r.1@) == seq![forced_note(pi as int)]
            }
            &&& (*old(retries) + 1 <= MAX_PHASE_RETRIES) ==> {
                let pt1 = final(phases)@[pi as int].tasks@;
                &&& final(phases)@.len() == old(phases)@.len()
                &&& forall|i: int| 0 <= i < old(phases)@.len() && i != pi ==> #[trigger] final(phases)@[i] == old(phases)@[i]
                &&& phase_retried(pt0, pt1, list)
                &&& requeued_numbers(old(tasks)@, final(tasks)@, reset_numbers(pt0, list))
                &&& if retry_count(pt0, list) == 0 {
                    &&& final(phases)@[pi as int] == (Phase { tasks: final(phases)@[pi as int].tasks, status: PhaseStatus::Completed, ..old(phases)@[pi as int] })
                    &&& r.0 == PhaseNext::Next && views(r.1@) == seq![nothing_to_retry_note(pi as int)]
                } else {
                    &&& final(phases)@[pi as int] == (Phase { tasks: final(phases)@[pi as int].tasks, ..old(phases)@[pi as int] })
                    &&& r.0 == PhaseNext::Again && r.1@.len() == 0
                }
            }
        },
{
    let mut notes: Vec<String> = Vec::new();
    proof {
        reveal_strlit("[WARN] Phase ");
        reveal_strlit(" exceeded max retries (3) \u{2014} forcing continue");
        reveal_strlit("Phase ");
        reveal_strlit(" review requested retry but all tasks succeeded \u{2014} continuing");
        reveal_strlit("Revised remaining phases based on Phase ");
        reveal_strlit(" results");
    }
    match action {
        PhaseReviewAction::Continue => {
            let mut ph = phases.remove(pi);
            ph.status = PhaseStatus::Completed;
            phases.insert(pi, ph);
            assert(phases@ =~= old(phases)@.update(pi as int, with_status(old(phases)@[pi as int], PhaseStatus::Completed)));
            (PhaseNext::Next, notes)
        },
        PhaseReviewAction::Abort => {
            let mut ph = phases.remove(pi);
            ph.status = PhaseStatus::Failed;
            phases.insert(pi, ph);
            assert(phases@ =~= old(phases)@.update(pi as int, with_status(old(phases)@[pi as int], PhaseStatus::Failed)));
            (PhaseNext::Abort, notes)
        },
        PhaseReviewAction::ReviseRemainingPhases => {
            let mut ph = phases.remove(pi);
            ph.status = PhaseStatus::Completed;
            phases.insert(pi, ph);
            assert(phases@ =~= old(phases)@.update(pi as int, with_status(old(phases)@[pi as int], PhaseStatus::Completed)));
            match revised {
                Some(v) => {
                    if v.len() > 0 {
                        revise_remaining_phases(phases, pi, v);
                        notes.push(phase_note("Revised remaining phases based on Phase ", pi, " results"));
                        assert(views(notes@) =~= seq![revised_note(pi as int)]);
                    }
                },
                None => {},
            }
            (PhaseNext::Next, notes)
        },
        PhaseReviewAction::RetryTasks => {
            *retries = *retries + 1;
            if *retries > MAX_PHASE_RETRIES {
                let mut ph = phases.remove(pi);
                ph.status = PhaseStatus::Completed;
                phases.insert(pi, ph);
                assert(phases@ =~= old(phases)@.update(pi as int, with_status(old(phases)@[pi as int], PhaseStatus::Completed)));
                notes.push(phase_note("[WARN] Phase ", pi, " exceeded max retries (3) \u{2014} forcing continue"));
                assert(views(notes@) =~= seq![forced_note(pi as int)]);
                (PhaseNext::Next, notes)
            } else {
                let ghost ph0 = phases@;
                let mut ph = phases.remove(pi);
                let n = retry_phase_tasks(&mut ph.tasks, tasks, task_indices);
                if n == 0 {
                    ph.status = PhaseStatus::Completed;
                    notes.push(phase_note("Phase ", pi, " review requested retry but all tasks succeeded \u{2014} continuing"));
                    assert(views(notes@) =~= seq![nothing_to_retry_note(pi as int)]);
                }
                phases.insert(pi, ph);
                assert forall|i: int| 0 <= i < ph0.len() && i != pi implies #[trigger] phases@[i] == ph0[i] by {
                    if i < pi {
                        assert(phases@[i] == ph0[i]);
                    } else {
                        assert(phases@[i] == ph0[i]);
                    }
                }
                if n == 0 {
                    (PhaseNext::Next, notes)
                } else {
                    (PhaseNext::Again, notes)
                }
            }
        },
    }
}
} // verus!
