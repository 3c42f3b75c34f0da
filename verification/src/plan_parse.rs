//! Turning the JSON a conductor wrote into tasks, phases and review
//! verdicts. Missing fields get defaults; tasks that look cut short are
//! completed with notes that tell the musician to infer what is missing.
use crate::bridge::{get_in, or_else, str_at};
use crate::json::{as_array, as_str, as_u64, get, json_get, str_eq, JsonNumber, JsonValue, JsonView};
use crate::state::{
    Phase, PhaseReviewAction, PhaseReviewResult, PhaseStatus, Plan, PlanInsight, Task, TaskStatus,
};
use crate::text::{decimal, push_decimal, push_str, views};
use vstd::prelude::*;

verus! {

broadcast use vstd::string::group_string_axioms;

/// Calls `uuid::Uuid::new_v4` and formats it: a fresh random identifier.
/// Nothing is stated of it, as it is random.
#[verifier::external_body]
pub(crate) fn new_id() -> String {
    uuid::Uuid::new_v4().to_string()
}

/// The non-empty strings among the elements of an array, in order.
pub open spec fn nonempty_strs(a: Seq<JsonView>) -> Seq<Seq<char>>
    decreases a.len(),
{
    if a.len() == 0 {
        Seq::empty()
    } else {
        let rest = nonempty_strs(a.drop_last());
        match a.last() {
            JsonView::Str(s) => if s.len() > 0 { rest.push(s) } else { rest },
            _ => rest,
        }
    }
}

/// The unsigned integers among the elements of an array, in order.
pub open spec fn uints(a: Seq<JsonView>) -> Seq<usize>
    decreases a.len(),
{
    if a.len() == 0 {
        Seq::empty()
    } else {
        let rest = uints(a.drop_last());
        match a.last() {
            JsonView::Number(JsonNumber::PosInt(n)) => rest.push(n as usize),
            _ => rest,
        }
    }
}

/// The unsigned integers of an array are its elements that are
/// non-negative integers, each taken as a number, in their order.
pub proof fn lemma_uints_are_the_unsigned_elements(a: Seq<JsonView>)
    ensures
        uints(a) == a.filter(|v: JsonView| v matches JsonView::Number(JsonNumber::PosInt(_))).map_values(|v: JsonView| match v {
            JsonView::Number(JsonNumber::PosInt(n)) => n as usize,
            _ => 0usize,
        }),
    decreases a.len(),
{
    reveal(Seq::filter);
    let p = |v: JsonView| v matches JsonView::Number(JsonNumber::PosInt(_));
    let f = |v: JsonView| match v {
        JsonView::Number(JsonNumber::PosInt(n)) => n as usize,
        _ => 0usize,
    };
    if a.len() > 0 {
        lemma_uints_are_the_unsigned_elements(a.drop_last());
        let sub = a.drop_last().filter(p);
        if p(a.last()) {
            assert(a.filter(p) == sub.push(a.last()));
            assert(sub.push(a.last()).map_values(f) =~= sub.map_values(f).push(f(a.last())));
        } else {
            assert(a.filter(p) == sub);
        }
    } else {
        assert(a.filter(p).map_values(f) =~= Seq::<usize>::empty());
    }
}

/// A task read from the plan depends on every non-negative integer of its
/// "dependencies" array, in order and nothing else: the dependencies are
/// exactly those elements, each taken as a number.
pub proof fn lemma_task_dependencies_from_json(task: Task, t: JsonView, i: int)
    requires
        task_from_json(task, t, i),
    ensures
        task.dependencies@ == array_at(t, "dependencies"@).filter(
            |v: JsonView| v matches JsonView::Number(JsonNumber::PosInt(_)),
        ).map_values(|v: JsonView| match v {
            JsonView::Number(JsonNumber::PosInt(n)) => n as usize,
            _ => 0usize,
        }),
{
    lemma_uints_are_the_unsigned_elements(array_at(t, "dependencies"@));
}

/// The strings among the elements of an array, in order.
pub open spec fn strs(a: Seq<JsonView>) -> Seq<Seq<char>>
    decreases a.len(),
{
    if a.len() == 0 {
        Seq::empty()
    } else {
        let rest = strs(a.drop_last());
        match a.last() {
            JsonView::Str(s) => rest.push(s),
            _ => rest,
        }
    }
}

/// The elements of member `key` of `v` when it is an array, else none.
pub open spec fn array_at(v: JsonView, key: Seq<char>) -> Seq<JsonView> {
    match as_array(get(v, key)) {
        Some(a) => a,
        None => Seq::empty(),
    }
}

/// The note added to a task that looks cut short.
pub open spec fn truncation_note() -> Seq<char> {
    "\n\n[NOTE: This \
        task may have been truncated during planning. Infer file scope and acceptance criteria from the description.]"@
}

/// The title of the task at position `i`.
pub open spec fn task_title(t: JsonView, i: int) -> Seq<char> {
    or_else(str_at(t, "title"@), "Task "@ + decimal((i + 1) as nat))
}

/// A task has a description and nothing else that a planner should give.
pub open spec fn looks_truncated(t: JsonView) -> bool {
    &&& or_else(str_at(t, "description"@), ""@).len() > 0
    &&& nonempty_strs(array_at(t, "fileScope"@)).len() == 0
    &&& or_else(str_at(t, "why"@), ""@).len() == 0
    &&& nonempty_strs(array_at(t, "acceptanceCriteria"@)).len() == 0
}

/// `task` is what the planner's JSON object `t` at position `i` describes
/// (its identifier aside).
pub open spec fn task_from_json(task: Task, t: JsonView, i: int) -> bool {
    let title = task_title(t, i);
    let description = or_else(str_at(t, "description"@), ""@);
    let why = or_else(str_at(t, "why"@), ""@);
    let criteria = nonempty_strs(array_at(t, "acceptanceCriteria"@));
    let cut = looks_truncated(t);
    &&& task.index == i
    &&& task.title@ == title
    &&& task.description@ == (if cut { description + truncation_note() } else { description })
    &&& task.why@ == (if why.len() == 0 && cut { "Part of task: "@ + title } else { why })
    &&& views(task.file_scope@) == nonempty_strs(array_at(t, "fileScope"@))
    &&& task.dependencies@ == uints(array_at(t, "dependencies"@))
    &&& views(task.acceptance_criteria@) == (if criteria.len() == 0 && cut {
        seq!["Complete the task described in \""@ + title + "\""@, "cargo check passes"@]
    } else {
        criteria
    })
    &&& task.estimated_turns == (match as_u64(get(t, "estimatedTurns"@)) {
        Some(n) => n,
        None => 15,
    }) as u32
    &&& crate::events::opt_view(task.model) == str_at(t, "model"@)
    &&& task.status == (if task.dependencies@.len() == 0 { TaskStatus::Ready } else { TaskStatus::Queued })
    &&& task.assigned_musician is None
    &&& task.result is None
}

pub(crate) fn owned(s: &str) -> (r: String)
    ensures
        r@ == s@,
{
    let mut out = String::new();
    push_str(&mut out, s);
    assert(out@ =~= s@);
    out
}

pub(crate) fn str_field<'a>(v: &'a JsonValue, key: &str) -> (r: Option<&'a str>)
    ensures
        match r {
            Some(s) => str_at(v@, key@) == Some(s@),
            None => str_at(v@, key@) is None,
        },
{
    match json_get(v, key) {
        Some(x) => x.as_str(),
        None => None,
    }
}

pub(crate) fn array_field<'a>(v: &'a JsonValue, key: &str) -> (r: Option<&'a Vec<JsonValue>>)
    ensures
        match r {
            Some(a) => as_array(get(v@, key@)) == Some(a@.map_values(|x: JsonValue| x@)),
            None => as_array(get(v@, key@)) is None,
        },
{
    match json_get(v, key) {
        Some(JsonValue::Array(a)) => {
            assert(a@.map_values(|x: JsonValue| x@) =~= match get(v@, key@) {
                Some(JsonView::Array(b)) => b,
                _ => Seq::empty(),
            });
            Some(a)
        },
        _ => None,
    }
}

fn nonempty_strings(a: Option<&Vec<JsonValue>>) -> (r: Vec<String>)
    ensures
        views(r@) == match a {
            Some(a) => nonempty_strs(a@.map_values(|x: JsonValue| x@)),
            None => Seq::empty(),
        },
{
    let mut out: Vec<String> = Vec::new();
    match a {
        Some(a) => {
            let ghost av = a@.map_values(|x: JsonValue| x@);
            let mut k: usize = 0;
            while k < a.len()
                invariant
                    k <= a.len(),
                    av == a@.map_values(|x: JsonValue| x@),
                    views(out@) == nonempty_strs(av.take(k as int)),
                decreases a.len() - k,
            {
                proof {
                    assert(av.take(k + 1).drop_last() =~= av.take(k as int));
                    assert(av.take(k + 1).last() == a@[k as int]@);
                }
                let ghost before = views(out@);
                match a[k].as_str() {
                    Some(s) => {
                        if !s.is_empty() {
                            out.push(owned(s));
                            assert(views(out@) =~= before.push(s@));
                        }
                    },
                    None => {},
                }
                k = k + 1;
            }
            assert(av.take(a.len() as int) =~= av);
        },
        None => {},
    }
    out
}

pub(crate) fn all_strings(a: Option<&Vec<JsonValue>>) -> (r: Vec<String>)
    ensures
        views(r@) == match a {
            Some(a) => strs(a@.map_values(|x: JsonValue| x@)),
            None => Seq::empty(),
        },
{
    let mut out: Vec<String> = Vec::new();
    match a {
        Some(a) => {
            let ghost av = a@.map_values(|x: JsonValue| x@);
            let mut k: usize = 0;
            while k < a.len()
                invariant
                    k <= a.len(),
                    av == a@.map_values(|x: JsonValue| x@),
                    views(out@) == strs(av.take(k as int)),
                decreases a.len() - k,
            {
                proof {
                    assert(av.take(k + 1).drop_last() =~= av.take(k as int));
                    assert(av.take(k + 1).last() == a@[k as int]@);
                }
                let ghost before = views(out@);
                match a[k].as_str() {
                    Some(s) => {
                        out.push(owned(s));
                        assert(views(out@) =~= before.push(s@));
                    },
                    None => {},
                }
                k = k + 1;
            }
            assert(av.take(a.len() as int) =~= av);
        },
        None => {},
    }
    out
}

pub(crate) fn unsigned_values(a: Option<&Vec<JsonValue>>) -> (r: Vec<usize>)
    ensures
        r@ == match a {
            Some(a) => uints(a@.map_values(|x: JsonValue| x@)),
            None => Seq::empty(),
        },
{
    let mut out: Vec<usize> = Vec::new();
    match a {
        Some(a) => {
            let ghost av = a@.map_values(|x: JsonValue| x@);
            let mut k: usize = 0;
            while k < a.len()
                invariant
                    k <= a.len(),
                    av == a@.map_values(|x: JsonValue| x@),
                    out@ == uints(av.take(k as int)),
                decreases a.len() - k,
            {
                proof {
                    assert(av.take(k + 1).drop_last() =~= av.take(k as int));
                    assert(av.take(k + 1).last() == a@[k as int]@);
                }
                match a[k].as_u64() {
                    Some(n) => {
                        out.push(#[verifier::truncate] (n as usize));
                    },
                    None => {},
                }
                k = k + 1;
            }
            assert(av.take(a.len() as int) =~= av);
        },
        None => {},
    }
    out
}

proof fn lemma_actions_distinct()
    ensures
        "continue"@ != "retry_tasks"@,
        "continue"@ != "revise_remaining_phases"@,
        "continue"@ != "abort"@,
        "retry_tasks"@ != "revise_remaining_phases"@,
        "retry_tasks"@ != "abort"@,
        "revise_remaining_phases"@ != "abort"@,
{
    reveal_strlit("continue");
    reveal_strlit("retry_tasks");
    reveal_strlit("revise_remaining_phases");
    reveal_strlit("abort");
    assert("continue"@[0] != "retry_tasks"@[0]);
    assert("continue"@[0] != "abort"@[0]);
    assert("retry_tasks"@[2] != "revise_remaining_phases"@[2]);
    assert("continue"@[0] != "revise_remaining_phases"@[0]);
    assert("retry_tasks"@[0] != "abort"@[0]);
    assert("revise_remaining_phases"@[0] != "abort"@[0]);
}

pub(crate) proof fn lemma_empty_lit()
    ensures
        ""@ == Seq::<char>::empty(),
{
    reveal_strlit("");
}

/// The task that the planner's JSON object `t` at position `i` describes,
/// with identifier `id`.
pub fn task_from_value(t: &JsonValue, i: usize, id: String) -> (r: Task)
    requires
        i < usize::MAX,
    ensures
        task_from_json(r, t@, i as int),
        r.id@ == id@,
{
    proof {
        lemma_empty_lit();
    }
    let title = match str_field(t, "title") {
        Some(s) => owned(s),
        None => {
            let mut s = String::new();
            push_str(&mut s, "Task ");
            push_decimal(&mut s, (i + 1) as u64);
            s
        },
    };
    let description = match str_field(t, "description") {
        Some(s) => owned(s),
        None => String::new(),
    };
    let why = match str_field(t, "why") {
        Some(s) => owned(s),
        None => String::new(),
    };
    let file_scope = nonempty_strings(array_field(t, "fileScope"));
    let acceptance_criteria = nonempty_strings(array_field(t, "acceptanceCriteria"));
    let dependencies = unsigned_values(array_field(t, "dependencies"));
    let estimated_turns = match json_get(t, "estimatedTurns") {
        Some(x) => match x.as_u64() {
            Some(n) => #[verifier::truncate] (n as u32),
            None => 15,
        },
        None => 15,
    };
    let model = match str_field(t, "model") {
        Some(s) => Some(owned(s)),
        None => None,
    };
    let is_truncated = !description.as_str().is_empty() && file_scope.len() == 0
        && why.as_str().is_empty() && acceptance_criteria.len() == 0;
    let final_description = if is_truncated {
        let mut d = description;
        push_str(&mut d, "\n\n[NOTE: This \
        task may have been truncated during planning. Infer file scope and acceptance criteria from the description.]");
        d
    } else {
        description
    };
    let final_why = if why.as_str().is_empty() && is_truncated {
        let mut w = String::new();
        push_str(&mut w, "Part of task: ");
        push_str(&mut w, title.as_str());
        w
    } else {
        why
    };
    let final_criteria = if acceptance_criteria.len() == 0 && is_truncated {
        let mut c: Vec<String> = Vec::new();
        let mut first = String::new();
        push_str(&mut first, "Complete the task described in \"");
        push_str(&mut first, title.as_str());
        push_str(&mut first, "\"");
        c.push(first);
        c.push(owned("cargo check passes"));
        assert(views(c@) =~= seq!["Complete the task described in \""@ + title@ + "\""@, "cargo check passes"@]);
        c
    } else {
        acceptance_criteria
    };
    let status = if dependencies.len() == 0 { TaskStatus::Ready } else { TaskStatus::Queued };
    let task = Task {
        id,
        index: i,
        title,
        description: final_description,
        why: final_why,
        file_scope,
        dependencies,
        acceptance_criteria: final_criteria,
        estimated_turns,
        model,
        status,
        assigned_musician: None,
        result: None,
    };
    let ghost tv = t@;
    assert(task.title@ == task_title(tv, i as int));
    assert(task.description@ == (if looks_truncated(tv) { or_else(str_at(tv, "description"@), ""@) + truncation_note() } else { or_else(str_at(tv, "description"@), ""@) }));
    assert(task.why@ == (if or_else(str_at(tv, "why"@), ""@).len() == 0 && looks_truncated(tv) { "Part of task: "@ + task_title(tv, i as int) } else { or_else(str_at(tv, "why"@), ""@) }));
    assert(views(task.file_scope@) == nonempty_strs(array_at(tv, "fileScope"@)));
    assert(task.dependencies@ == uints(array_at(tv, "dependencies"@)));
    assert(task.estimated_turns == (match as_u64(get(tv, "estimatedTurns"@)) { Some(n) => n, None => 15 }) as u32);
    assert(crate::events::opt_view(task.model) == str_at(tv, "model"@));
    assert(views(task.acceptance_criteria@) == (if nonempty_strs(array_at(tv, "acceptanceCriteria"@)).len() == 0 && looks_truncated(tv) {
        seq!["Complete the task described in \""@ + task_title(tv, i as int) + "\""@, "cargo check passes"@]
    } else {
        nonempty_strs(array_at(tv, "acceptanceCriteria"@))
    }));
    assert(task_from_json(task, t@, i as int));
    task
}

/// Turns the task objects a planner wrote into tasks, numbered by position.
/// Each gets a fresh identifier; tasks without dependencies start ready.
pub fn parse_tasks(raw_tasks: &[JsonValue]) -> (r: Vec<Task>)
    requires
        raw_tasks.len() < usize::MAX,
    ensures
        r@.len() == raw_tasks@.len(),
        forall|i: int| 0 <= i < r@.len() ==> #[trigger] task_from_json(r@[i], raw_tasks@[i]@, i),
{
    let mut out: Vec<Task> = Vec::new();
    let mut i: usize = 0;
    while i < raw_tasks.len()
        invariant
            i <= raw_tasks.len(),
            raw_tasks.len() < usize::MAX,
            out@.len() == i,
            forall|k: int| 0 <= k < i ==> #[trigger] task_from_json(out@[k], raw_tasks@[k]@, k),
        decreases raw_tasks.len() - i,
    {
        let t = task_from_value(&raw_tasks[i], i, new_id());
        out.push(t);
        i = i + 1;
    }
    out
}

// ─── Phase review verdicts ───────────────────────────────────────

/// The verdict that a review object `raw` stands for, once checked: an
/// unknown action, a retry without task indices and a revision without
/// revised phases all fall back to continuing, with a note in the summary.
pub open spec fn review_verdict(raw: JsonView) -> (PhaseReviewAction, Option<Seq<usize>>, Seq<char>) {
    let action = or_else(str_at(raw, "action"@), "continue"@);
    let summary = or_else(str_at(raw, "summary"@), ""@);
    if action == "continue"@ {
        (PhaseReviewAction::Continue, None, summary)
    } else if action == "retry_tasks"@ {
        match as_array(get(raw, "taskIndices"@)) {
            Some(a) => if uints(a).len() > 0 {
                (PhaseReviewAction::RetryTasks, Some(uints(a)), summary)
            } else {
                (PhaseReviewAction::Continue, None, summary + " (retry_tasks lacked taskIndices — continuing instead)"@)
            },
            None => (PhaseReviewAction::Continue, None, summary + " (retry_tasks lacked taskIndices — continuing instead)"@),
        }
    } else if action == "revise_remaining_phases"@ {
        if array_at(raw, "revisedPhases"@).len() > 0 {
            (PhaseReviewAction::ReviseRemainingPhases, None, summary)
        } else {
            (PhaseReviewAction::Continue, None, summary + " (revise_remaining_phases lacked revisedPhases — continuing instead)"@)
        }
    } else if action == "abort"@ {
        (PhaseReviewAction::Abort, None, summary)
    } else {
        (PhaseReviewAction::Continue, None, or_else(str_at(raw, "summary"@), "Invalid action — defaulting to continue"@))
    }
}

/// Checks the verdict the conductor wrote after a phase, falling back to
/// continuing where it is incomplete or unknown. Revised phases are never
/// carried over.
pub fn validate_phase_review_result(raw: &JsonValue) -> (r: PhaseReviewResult)
    ensures
        ({
            let (action, indices, summary) = review_verdict(raw@);
            &&& r.action == action
            &&& match r.task_indices {
                Some(v) => indices == Some(v@),
                None => indices is None,
            }
            &&& r.summary@ == summary
            &&& r.revised_phases is None
        }),
{
    proof {
        lemma_empty_lit();
        lemma_actions_distinct();
    }
    let action_str: &str = match str_field(raw, "action") {
        Some(s) => s,
        None => "continue",
    };
    let summary_field = str_field(raw, "summary");
    let action = if str_eq(action_str, "continue") {
        PhaseReviewAction::Continue
    } else if str_eq(action_str, "retry_tasks") {
        PhaseReviewAction::RetryTasks
    } else if str_eq(action_str, "revise_remaining_phases") {
        PhaseReviewAction::ReviseRemainingPhases
    } else if str_eq(action_str, "abort") {
        PhaseReviewAction::Abort
    } else {
        let summary = match summary_field {
            Some(s) => owned(s),
            None => owned("Invalid action — defaulting to continue"),
        };
        return PhaseReviewResult { action: PhaseReviewAction::Continue, task_indices: None, revised_phases: None, summary };
    };
    let mut summary = match summary_field {
        Some(s) => owned(s),
        None => String::new(),
    };
    if str_eq(action_str, "retry_tasks") {
        let arr = array_field(raw, "taskIndices");
        let indices = unsigned_values(arr);
        if arr.is_none() || indices.len() == 0 {
            push_str(&mut summary, " (retry_tasks lacked taskIndices — continuing instead)");
            return PhaseReviewResult { action: PhaseReviewAction::Continue, task_indices: None, revised_phases: None, summary };
        }
        return PhaseReviewResult { action, task_indices: Some(indices), revised_phases: None, summary };
    }
    if str_eq(action_str, "revise_remaining_phases") {
        let has_revised = match array_field(raw, "revisedPhases") {
            Some(a) => a.len() > 0,
            None => false,
        };
        if !has_revised {
            push_str(&mut summary, " (revise_remaining_phases lacked revisedPhases — continuing instead)");
            return PhaseReviewResult { action: PhaseReviewAction::Continue, task_indices: None, revised_phases: None, summary };
        }
    }
    PhaseReviewResult { action, task_indices: None, revised_phases: None, summary }
}

// ─── Plans and phase decompositions ─────────────────────────────

/// The text of member `key`, or empty.
pub open spec fn text_at(v: JsonView, key: Seq<char>) -> Seq<char> {
    or_else(str_at(v, key), ""@)
}

/// The estimate in minutes that `v` gives, cut to 32 bits as a cast does.
pub open spec fn minutes_at(v: JsonView) -> u32 {
    (match as_u64(get(v, "estimatedMinutes"@)) {
        Some(n) => n,
        None => 0,
    }) as u32
}

/// The musician assignment note: `musicianAssignment`, or where that
/// member is missing, `workerAssignment`; empty unless a string.
pub open spec fn assignment_note(v: JsonView) -> Seq<char> {
    or_else(
        match get(v, "musicianAssignment"@) {
            Some(x) => as_str(Some(x)),
            None => str_at(v, "workerAssignment"@),
        },
        ""@,
    )
}

pub(crate) fn text_field(v: &JsonValue, key: &str) -> (r: String)
    ensures
        r@ == text_at(v@, key@),
{
    proof {
        lemma_empty_lit();
    }
    match str_field(v, key) {
        Some(s) => owned(s),
        None => String::new(),
    }
}

fn minutes_field(v: &JsonValue) -> (r: u32)
    ensures
        r == minutes_at(v@),
{
    let n: u64 = match json_get(v, "estimatedMinutes") {
        Some(x) => match x.as_u64() {
            Some(n) => n,
            None => 0,
        },
        None => 0,
    };
    n as u32
}

/// Turns the plan object a planner wrote into a plan: its summary, tasks
/// (see `parse_tasks`), dependency graph, assignment note, learning notes
/// (the strings among them), and estimate in minutes; `insights` are those
/// the object held, read beforehand.
pub fn plan_from_value(parsed: &JsonValue, insights: Option<Vec<PlanInsight>>) -> (r: Plan)
    requires
        array_at(parsed@, "tasks"@).len() < usize::MAX,
    ensures
        r.summary@ == text_at(parsed@, "summary"@),
        r.tasks@.len() == array_at(parsed@, "tasks"@).len(),
        forall|i: int| 0 <= i < r.tasks@.len() ==> #[trigger] task_from_json(r.tasks@[i], array_at(parsed@, "tasks"@)[i], i),
        r.dependency_graph@ == text_at(parsed@, "dependencyGraph"@),
        r.musician_assignment@ == assignment_note(parsed@),
        views(r.learning_notes@) == strs(array_at(parsed@, "learningNotes"@)),
        r.estimated_tokens == 0,
        r.estimated_minutes == minutes_at(parsed@),
        r.insights == insights,
{
    let empty: Vec<JsonValue> = Vec::new();
    let raw = match array_field(parsed, "tasks") {
        Some(a) => a,
        None => &empty,
    };
    assert(raw@.map_values(|x: JsonValue| x@) =~= array_at(parsed@, "tasks"@));
    let tasks = parse_tasks(raw.as_slice());
    assert forall|i: int| 0 <= i < tasks@.len() implies #[trigger] task_from_json(tasks@[i], array_at(parsed@, "tasks"@)[i], i) by {
        assert(raw@[i]@ == array_at(parsed@, "tasks"@)[i]);
    }
    let assignment = match json_get(parsed, "musicianAssignment") {
        Some(x) => match x.as_str() {
            Some(s) => owned(s),
            None => String::new(),
        },
        None => text_field(parsed, "workerAssignment"),
    };
    proof {
        lemma_empty_lit();
    }
    let notes = all_strings(array_field(parsed, "learningNotes"));
    Plan {
        summary: text_field(parsed, "summary"),
        tasks,
        dependency_graph: text_field(parsed, "dependencyGraph"),
        musician_assignment: assignment,
        learning_notes: notes,
        estimated_tokens: 0,
        estimated_minutes: minutes_field(parsed),
        insights,
    }
}

/// A decomposition into phases, as the conductor wrote it.
pub struct DecomposeResult {
    pub phases: Vec<Phase>,
    pub summary: String,
    pub learning_notes: Vec<String>,
    pub insights: Option<Vec<PlanInsight>>,
    pub estimated_minutes: u32,
}

/// The title of the phase at position `i`.
pub open spec fn phase_title(p: JsonView, i: int) -> Seq<char> {
    or_else(str_at(p, "title"@), "Phase "@ + decimal((i + 1) as nat))
}

/// `phase` is what the phase object `p` at position `i` describes (its
/// identifier and the tasks' identifiers aside): pending, not reviewed.
pub open spec fn phase_from_json(phase: Phase, p: JsonView, i: int) -> bool {
    &&& phase.index == i
    &&& phase.title@ == phase_title(p, i)
    &&& phase.description@ == text_at(p, "description"@)
    &&& phase.status == PhaseStatus::Pending
    &&& phase.tasks@.len() == array_at(p, "tasks"@).len()
    &&& forall|k: int| 0 <= k < phase.tasks@.len() ==> #[trigger] task_from_json(phase.tasks@[k], array_at(p, "tasks"@)[k], k)
    &&& phase.review_result is None
    &&& phase.token_used == 0
}

fn phase_from_value(p: &JsonValue, i: usize) -> (r: Phase)
    requires
        i < usize::MAX,
        array_at(p@, "tasks"@).len() < usize::MAX,
    ensures
        phase_from_json(r, p@, i as int),
{
    let title = match str_field(p, "title") {
        Some(s) => owned(s),
        None => {
            let mut t = String::new();
            push_str(&mut t, "Phase ");
            push_decimal(&mut t, (i + 1) as u64);
            t
        },
    };
    let empty: Vec<JsonValue> = Vec::new();
    let raw = match array_field(p, "tasks") {
        Some(a) => a,
        None => &empty,
    };
    assert(raw@.map_values(|x: JsonValue| x@) =~= array_at(p@, "tasks"@));
    let tasks = parse_tasks(raw.as_slice());
    assert forall|k: int| 0 <= k < tasks@.len() implies #[trigger] task_from_json(tasks@[k], array_at(p@, "tasks"@)[k], k) by {
        assert(raw@[k]@ == array_at(p@, "tasks"@)[k]);
    }
    Phase {
        id: new_id(),
        index: i,
        title,
        description: text_field(p, "description"),
        status: PhaseStatus::Pending,
        tasks,
        review_result: None,
        token_used: 0,
    }
}

/// Every phase object holds fewer tasks than the machine can count.
pub open spec fn phase_tasks_fit(phases: Seq<JsonView>) -> bool {
    forall|i: int| 0 <= i < phases.len() ==> array_at(#[trigger] phases[i], "tasks"@).len() < usize::MAX
}

/// Turns the decomposition object the conductor wrote into phases (see
/// `phase_from_json`), with its summary, learning notes and estimate;
/// `insights` are those the object held, read beforehand.
pub fn decompose_from_value(parsed: &JsonValue, insights: Option<Vec<PlanInsight>>) -> (r: DecomposeResult)
    requires
        array_at(parsed@, "phases"@).len() < usize::MAX,
        phase_tasks_fit(array_at(parsed@, "phases"@)),
    ensures
        r.phases@.len() == array_at(parsed@, "phases"@).len(),
        forall|i: int| 0 <= i < r.phases@.len() ==> #[trigger] phase_from_json(r.phases@[i], array_at(parsed@, "phases"@)[i], i),
        r.summary@ == text_at(parsed@, "summary"@),
        views(r.learning_notes@) == strs(array_at(parsed@, "learningNotes"@)),
        r.estimated_minutes == minutes_at(parsed@),
        r.insights == insights,
{
    let empty: Vec<JsonValue> = Vec::new();
    let raw = match array_field(parsed, "phases") {
        Some(a) => a,
        None => &empty,
    };
    let ghost av = array_at(parsed@, "phases"@);
    assert(raw@.map_values(|x: JsonValue| x@) =~= av);
    let mut phases: Vec<Phase> = Vec::new();
    let mut i: usize = 0;
    while i < raw.len()
        invariant
            i <= raw@.len(),
            raw@.len() == av.len(),
            av.len() < usize::MAX,
            phase_tasks_fit(av),
            forall|k: int| 0 <= k < raw@.len() ==> #[trigger] raw@[k]@ == av[k],
            phases@.len() == i,
            forall|k: int| 0 <= k < i ==> #[trigger] phase_from_json(phases@[k], av[k], k),
        decreases raw@.len() - i,
    {
        assert(raw@[i as int]@ == av[i as int]);
        assert(array_at(av[i as int], "tasks"@).len() < usize::MAX);
        let ph = phase_from_value(&raw[i], i);
        phases.push(ph);
        i = i + 1;
    }
    let notes = all_strings(array_field(parsed, "learningNotes"));
    DecomposeResult {
        phases,
        summary: text_field(parsed, "summary"),
        learning_notes: notes,
        insights,
        estimated_minutes: minutes_field(parsed),
    }
}

// ─── Revised phases ──────────────────────────────────────────────

/// `phase` is the skeleton that the revised phase object `p` at position
/// `i` describes: its title (by default "Phase i+1") and description,
/// pending, with no task yet.
pub open spec fn revised_phase(phase: Phase, p: JsonView, i: int) -> bool {
    &&& phase.index == i
    &&& phase.title@ == phase_title(p, i)
    &&& phase.description@ == text_at(p, "description"@)
    &&& phase.status == PhaseStatus::Pending
    &&& phase.tasks@.len() == 0
    &&& phase.review_result is None
    &&& phase.token_used == 0
}

/// The revised phases a phase review object lists under `revisedPhases`,
/// as skeletons (see `revised_phase`); `None` where that member is no list.
pub fn revised_phases_from_value(parsed: &JsonValue) -> (r: Option<Vec<Phase>>)
    ensures
        match as_array(get(parsed@, "revisedPhases"@)) {
            Some(a) => r matches Some(v) && v@.len() == a.len()
                && forall|i: int| 0 <= i < a.len() ==> #[trigger] revised_phase(v@[i], a[i], i),
            None => r is None,
        },
{
    let raw = match array_field(parsed, "revisedPhases") {
        Some(a) => a,
        None => return None,
    };
    let ghost av = raw@.map_values(|x: JsonValue| x@);
    let mut out: Vec<Phase> = Vec::new();
    let mut i: usize = 0;
    while i < raw.len()
        invariant
            i <= raw@.len(),
            av == raw@.map_values(|x: JsonValue| x@),
            out@.len() == i,
            forall|k: int| 0 <= k < i ==> #[trigger] revised_phase(out@[k], av[k], k),
        decreases raw@.len() - i,
    {
        let p = &raw[i];
        assert(av[i as int] == p@);
        let title = match str_field(p, "title") {
            Some(s) => owned(s),
            None => {
                let mut t = String::new();
                push_str(&mut t, "Phase ");
                push_decimal(&mut t, i as u64 + 1);
                t
            },
        };
        out.push(Phase {
            id: new_id(),
            index: i,
            title,
            description: text_field(p, "description"),
            status: PhaseStatus::Pending,
            tasks: Vec::new(),
            review_result: None,
            token_used: 0,
        });
        i = i + 1;
    }
    Some(out)
}

/// The review of a phase that a review object describes: the checked
/// verdict (see `validate_phase_review_result`), and, when the verdict is
/// to revise the remaining phases, the revised phases it lists.
pub fn phase_review_from_value(parsed: &JsonValue) -> (r: PhaseReviewResult)
    ensures
        ({
            let (action, indices, summary) = review_verdict(parsed@);
            &&& r.action == action
            &&& match r.task_indices {
                Some(v) => indices == Some(v@),
                None => indices is None,
            }
            &&& r.summary@ == summary
            &&& if action == PhaseReviewAction::ReviseRemainingPhases {
                match as_array(get(parsed@, "revisedPhases"@)) {
                    Some(a) => r.revised_phases matches Some(v) && v@.len() == a.len()
                        && forall|i: int| 0 <= i < a.len() ==> #[trigger] revised_phase(v@[i], a[i], i),
                    None => r.revised_phases is None,
                }
            } else {
                r.revised_phases is None
            }
        }),
{
    let mut r = validate_phase_review_result(parsed);
    if r.action == PhaseReviewAction::ReviseRemainingPhases {
        r.revised_phases = revised_phases_from_value(parsed);
    }
    r
}

} // verus!
