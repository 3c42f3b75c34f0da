//! The conductor's final review of a run: the text of the task results it
//! is shown, the verdict it gives back, and what that verdict does to the
//! task list.
use crate::bridge::{or_else, str_at};
use crate::json::{as_array, as_str, as_u64, copy_json, get, json_get, JsonValue, JsonView};
use crate::plan_parse::{
    all_strings, array_at, array_field, lemma_empty_lit, new_id, owned, str_field, strs, text_at,
    text_field, uints, unsigned_values,
};
use crate::prompts::verify_label;
use crate::state::{PlanInsight, Task, TaskStatus};
use crate::task_store::status_name;
use crate::text::{decimal, join, join_strings, push_decimal, push_str, views};
use vstd::prelude::*;

verus! {

broadcast use vstd::string::group_string_axioms;

/// How many times the final review may send tasks back before the run
/// completes regardless.
pub const MAX_REVIEW_RETRIES: u32 = 3;

/// The final review's verdict, as the conductor wrote it.
pub struct ReviewResult {
    /// `complete`, `retry`, `extend` or `integrate`.
    pub action: String,
    pub summary: Option<String>,
    pub task_indices: Option<Vec<usize>>,
    pub new_tasks: Option<Vec<JsonValue>>,
    pub instructions: Option<String>,
    pub adjusted_instructions: Option<String>,
    pub insights: Option<Vec<PlanInsight>>,
}

/// The characters of an optional text.
pub open spec fn opt_text(o: Option<String>) -> Option<Seq<char>> {
    match o {
        Some(s) => Some(s@),
        None => None,
    }
}

/// The verdict that a review object `v` stands for: its action (by default
/// `complete`), summary, task indices (the unsigned numbers listed), new
/// task objects, instructions and retry instructions; `insights` are those
/// the object held, read beforehand.
pub open spec fn verdict_from(r: ReviewResult, v: JsonView, insights: Option<Vec<PlanInsight>>) -> bool {
    &&& r.action@ == or_else(str_at(v, "action"@), "complete"@)
    &&& opt_text(r.summary) == str_at(v, "summary"@)
    &&& match r.task_indices {
        Some(t) => as_array(get(v, "taskIndices"@)) matches Some(a) && t@ == uints(a),
        None => as_array(get(v, "taskIndices"@)) is None,
    }
    &&& match r.new_tasks {
        Some(t) => as_array(get(v, "newTasks"@)) matches Some(a) && t@.len() == a.len()
            && forall|i: int| 0 <= i < a.len() ==> (#[trigger] t@[i])@ == a[i],
        None => as_array(get(v, "newTasks"@)) is None,
    }
    &&& opt_text(r.instructions) == str_at(v, "instructions"@)
    &&& opt_text(r.adjusted_instructions) == str_at(v, "adjustedInstructions"@)
    &&& r.insights == insights
}

fn opt_owned(s: Option<&str>) -> (r: Option<String>)
    ensures
        match s {
            Some(x) => r matches Some(y) && y@ == x@,
            None => r is None,
        },
{
    match s {
        Some(x) => Some(owned(x)),
        None => None,
    }
}

/// Reads the final review's verdict from the object the conductor wrote
/// (see `verdict_from`).
pub fn review_result_from_value(parsed: &JsonValue, insights: Option<Vec<PlanInsight>>) -> (r: ReviewResult)
    ensures
        verdict_from(r, parsed@, insights),
{
    proof {
        reveal_strlit("complete");
    }
    let action = match str_field(parsed, "action") {
        Some(s) => owned(s),
        None => owned("complete"),
    };
    let task_indices = match array_field(parsed, "taskIndices") {
        Some(a) => Some(unsigned_values(Some(a))),
        None => None,
    };
    let new_tasks = match array_field(parsed, "newTasks") {
        Some(a) => {
            let mut out: Vec<JsonValue> = Vec::new();
            let mut k: usize = 0;
            while k < a.len()
                invariant
                    k <= a@.len(),
                    out@.len() == k,
                    forall|i: int| 0 <= i < k ==> (#[trigger] out@[i])@ == a@[i]@,
                decreases a@.len() - k,
            {
                let c = copy_json(&a[k]);
                out.push(c);
                k = k + 1;
            }
            assert(a@.map_values(|x: JsonValue| x@).len() == a@.len());
            Some(out)
        },
        None => None,
    };
    ReviewResult {
        action,
        summary: opt_owned(str_field(parsed, "summary")),
        task_indices,
        new_tasks,
        instructions: opt_owned(str_field(parsed, "instructions")),
        adjusted_instructions: opt_owned(str_field(parsed, "adjustedInstructions")),
        insights,
    }
}

// ─── What the verdict does ───────────────────────────────────────

/// What the run does after the final review.
#[derive(Clone, Copy, Debug, PartialEq, Eq, Structural)]
pub enum FinalStep {
    /// The run is complete.
    Complete,
    /// The review asked for more retries than allowed; the run completes.
    ForcedComplete,
    /// Tasks were sent back or added: execution starts again.
    Restart,
    /// A retry named no task: nothing happens.
    Stay,
}

/// The task list after sending back the first `n` listed positions: each
/// position in range goes back to the queue without its result, with the
/// retry instructions, when given, appended to its description.
pub open spec fn retried_upto(ts: Seq<Task>, idxs: Seq<usize>, instr: Option<Seq<char>>, n: int) -> Seq<Task>
    decreases n,
{
    if n <= 0 || n > idxs.len() {
        ts
    } else {
        let t1 = retried_upto(ts, idxs, instr, n - 1);
        let i = idxs[n - 1] as int;
        if i < t1.len() {
            t1.update(i, Task {
                status: TaskStatus::Queued,
                result: None,
                description: t1[i].description,
                ..t1[i]
            })
        } else {
            t1
        }
    }
}

/// The description of a task sent back, after `k` of the listed positions.
pub open spec fn retried_description(d: Seq<char>, idxs: Seq<usize>, instr: Option<Seq<char>>, pos: int, n: int) -> Seq<char>
    decreases n,
{
    if n <= 0 || n > idxs.len() {
        d
    } else {
        let before = retried_description(d, idxs, instr, pos, n - 1);
        if idxs[n - 1] as int == pos {
            match instr {
                Some(x) => before + "\n\n[Conductor retry instructions]: "@ + x,
                None => before,
            }
        } else {
            before
        }
    }
}

/// A task added by the review from its object `t`, numbered `index`:
/// title (by default "Extended Task"), description, why (by default
/// "Added during review"), the files named, estimated turns (by default
/// 15, cut to 32 bits), model; queued, with no dependency, criteria or
/// result.
pub open spec fn extension_task(task: Task, t: JsonView, index: int) -> bool {
    &&& task.index == index
    &&& task.title@ == or_else(str_at(t, "title"@), "Extended Task"@)
    &&& task.description@ == text_at(t, "description"@)
    &&& task.why@ == or_else(str_at(t, "why"@), "Added during review"@)
    &&& views(task.file_scope@) == strs(array_at(t, "fileScope"@))
    &&& task.dependencies@.len() == 0
    &&& task.acceptance_criteria@.len() == 0
    &&& task.estimated_turns == (match as_u64(get(t, "estimatedTurns"@)) {
        Some(n) => n,
        None => 15,
    }) as u32
    &&& crate::events::opt_view(task.model) == str_at(t, "model"@)
    &&& task.status == TaskStatus::Queued
    &&& task.assigned_musician is None
    &&& task.result is None
}

fn extension_from(t: &JsonValue, index: usize) -> (r: Task)
    ensures
        extension_task(r, t@, index as int),
{
    proof {
        reveal_strlit("Extended Task");
        reveal_strlit("Added during review");
        lemma_empty_lit();
    }
    let title = match str_field(t, "title") {
        Some(s) => owned(s),
        None => owned("Extended Task"),
    };
    let why = match str_field(t, "why") {
        Some(s) => owned(s),
        None => owned("Added during review"),
    };
    let turns: u64 = match json_get(t, "estimatedTurns") {
        Some(x) => match x.as_u64() {
            Some(n) => n,
            None => 15,
        },
        None => 15,
    };
    let model = match str_field(t, "model") {
        Some(s) => Some(owned(s)),
        None => None,
    };
    Task {
        id: new_id(),
        index,
        title,
        description: text_field(t, "description"),
        why,
        file_scope: all_strings(array_field(t, "fileScope")),
        dependencies: Vec::new(),
        acceptance_criteria: Vec::new(),
        estimated_turns: turns as u32,
        model,
        status: TaskStatus::Queued,
        assigned_musician: None,
        result: None,
    }
}

/// What the final review's verdict does, after `retries` earlier retries:
/// `complete` completes; `retry` past the limit completes; `retry` with
/// task positions sends those tasks back (see `retried_upto`) and
/// restarts, and without them does nothing; `extend` with new tasks adds
/// them numbered on from the tasks there are (see `extension_task`) and
/// restarts, and without them completes; anything else completes.
pub open spec fn final_step_of(action: Seq<char>, retries: u32, has_indices: bool, has_new: bool) -> FinalStep {
    if action == "retry"@ {
        if retries >= MAX_REVIEW_RETRIES {
            FinalStep::ForcedComplete
        } else if has_indices {
            FinalStep::Restart
        } else {
            FinalStep::Stay
        }
    } else if action == "extend"@ {
        if has_new { FinalStep::Restart } else { FinalStep::Complete }
    } else {
        FinalStep::Complete
    }
}

/// Carries out the final review's verdict on the task list (see
/// `final_step_of`).
pub fn final_review_step(tasks: &mut Vec<Task>, verdict: &ReviewResult, retries: u32) -> (r: FinalStep)
    requires
        verdict.new_tasks matches Some(n) ==> old(tasks)@.len() + n@.len() <= usize::MAX,
    ensures
        r == final_step_of(verdict.action@, retries, verdict.task_indices is Some, verdict.new_tasks is Some),
        (r == FinalStep::Restart && verdict.action@ == "retry"@) ==> {
            let idxs = verdict.task_indices->Some_0@;
            let instr = opt_text(verdict.adjusted_instructions);
            &&& final(tasks)@.len() == old(tasks)@.len()
            &&& forall|i: int| 0 <= i < old(tasks)@.len() ==> {
                let t = #[trigger] final(tasks)@[i];
                let u = retried_upto(old(tasks)@, idxs, instr, idxs.len() as int)[i];
                &&& t == (Task { description: t.description, ..u })
                &&& t.description@ == retried_description(old(tasks)@[i].description@, idxs, instr, i, idxs.len() as int)
            }
        },
        (r == FinalStep::Restart && verdict.action@ == "extend"@) ==> {
            let news = verdict.new_tasks->Some_0@;
            &&& final(tasks)@.len() == old(tasks)@.len() + news.len()
            &&& forall|i: int| 0 <= i < old(tasks)@.len() ==> #[trigger] final(tasks)@[i] == old(tasks)@[i]
            &&& forall|k: int| 0 <= k < news.len() ==> #[trigger] extension_task(final(tasks)@[old(tasks)@.len() + k], news[k]@, old(tasks)@.len() + k)
        },
        r != FinalStep::Restart ==> final(tasks)@ == old(tasks)@,
{
    proof {
        reveal_strlit("retry");
        reveal_strlit("extend");
    }
    assert("retry"@.len() == 5 && "extend"@.len() == 6);
    let is_retry = crate::json::str_eq(verdict.action.as_str(), "retry");
    let is_extend = crate::json::str_eq(verdict.action.as_str(), "extend");
    if is_retry {
        if retries >= MAX_REVIEW_RETRIES {
            return FinalStep::ForcedComplete;
        }
        match &verdict.task_indices {
            None => FinalStep::Stay,
            Some(idxs) => {
                let ghost t0 = tasks@;
                let ghost instr = opt_text(verdict.adjusted_instructions);
                let mut n: usize = 0;
                while n < idxs.len()
                    invariant
                        n <= idxs@.len(),
                        instr == opt_text(verdict.adjusted_instructions),
                        tasks@.len() == t0.len(),
                        forall|i: int| 0 <= i < t0.len() ==> {
                            let t = #[trigger] tasks@[i];
                            let u = retried_upto(t0, idxs@, instr, n as int)[i];
                            &&& t == (Task { description: t.description, ..u })
                            &&& t.description@ == retried_description(t0[i].description@, idxs@, instr, i, n as int)
                        },
                    decreases idxs@.len() - n,
                {
                    let i = idxs[n];
                    let ghost before = tasks@;
                    if i < tasks.len() {
                        let mut t = crate::orchestra::placeholder_task();
                        tasks.set_and_swap(i, &mut t);
                        t.status = TaskStatus::Queued;
                        t.result = None;
                        match &verdict.adjusted_instructions {
                            Some(x) => {
                                push_str(&mut t.description, "\n\n[Conductor retry instructions]: ");
                                push_str(&mut t.description, x.as_str());
                            },
                            None => {},
                        }
                        tasks.set(i, t);
                    }
                    proof {
                        assert forall|j: int| 0 <= j < t0.len() implies {
                            let t = #[trigger] tasks@[j];
                            let u = retried_upto(t0, idxs@, instr, n + 1)[j];
                            &&& t == (Task { description: t.description, ..u })
                            &&& t.description@ == retried_description(t0[j].description@, idxs@, instr, j, n + 1)
                        } by {
                            let tb = before[j];
                            assert(retried_upto(t0, idxs@, instr, n as int).len() == t0.len()) by {
                                lemma_retried_len(t0, idxs@, instr, n as int);
                            }
                        }
                    }
                    n = n + 1;
                }
                FinalStep::Restart
            },
        }
    } else if is_extend {
        match &verdict.new_tasks {
            None => FinalStep::Complete,
            Some(news) => {
                let base = tasks.len();
                let ghost t0 = tasks@;
                let mut k: usize = 0;
                while k < news.len()
                    invariant
                        k <= news@.len(),
                        verdict.new_tasks matches Some(v) && v@ == news@,
                        base == t0.len(),
                        base + news@.len() <= usize::MAX,
                        tasks@.len() == base + k,
                        forall|i: int| 0 <= i < base ==> #[trigger] tasks@[i] == t0[i],
                        forall|j: int| 0 <= j < k ==> #[trigger] extension_task(tasks@[base + j], news@[j]@, base + j),
                    decreases news@.len() - k,
                {
                    let t = extension_from(&news[k], base + k);
                    let ghost before = tasks@;
                    tasks.push(t);
                    proof {
                        assert forall|i: int| 0 <= i < base implies #[trigger] tasks@[i] == t0[i] by {
                            assert(tasks@[i] == before[i]);
                        }
                        assert forall|j: int| 0 <= j < k + 1 implies #[trigger] extension_task(tasks@[base + j], news@[j]@, base + j) by {
                            if j < k {
                                assert(tasks@[base + j] == before[base + j]);
                            }
                        }
                    }
                    k = k + 1;
                }
                assert(verdict.action@ == "extend"@);
                assert(verdict.new_tasks->Some_0@ == news@);
                FinalStep::Restart
            },
        }
    } else {
        FinalStep::Complete
    }
}

proof fn lemma_retried_len(ts: Seq<Task>, idxs: Seq<usize>, instr: Option<Seq<char>>, n: int)
    ensures
        retried_upto(ts, idxs, instr, n).len() == ts.len(),
    decreases n,
{
    if n > 0 && n <= idxs.len() {
        lemma_retried_len(ts, idxs, instr, n - 1);
    }
}

// ─── The task results shown to the review ────────────────────────

/// The files a task's result names, joined; `none` without a result.
pub open spec fn files_text(t: Task) -> Seq<char> {
    match t.result {
        Some(r) => join(views(r.files_modified@), ", "@),
        None => "none"@,
    }
}

/// The entry of one task in the final review (numbered from one).
pub open spec fn review_entry(t: Task) -> Seq<char> {
    "Task "@ + decimal((t.index + 1) as nat) + ": "@ + t.title@ + "\nStatus: "@ + status_name(t.status)
        + "\nFiles: "@ + files_text(t) + "\nVerification: "@ + verify_label(t) + "\nSummary: "@ + match t.result {
            Some(r) => r.summary@,
            None => "N/A"@,
        }
}

/// The entries of all tasks.
pub open spec fn review_entries(ts: Seq<Task>) -> Seq<Seq<char>> {
    Seq::new(ts.len(), |i: int| review_entry(ts[i]))
}

/// Every task is numbered below the largest machine number.
pub open spec fn indices_fit(ts: Seq<Task>) -> bool {
    forall|i: int| 0 <= i < ts.len() ==> (#[trigger] ts[i]).index < usize::MAX
}

fn review_entry_text(t: &Task) -> (r: String)
    requires
        t.index < usize::MAX,
    ensures
        r@ == review_entry(*t),
{
    let mut out = String::new();
    push_str(&mut out, "Task ");
    push_decimal(&mut out, (t.index + 1) as u64);
    push_str(&mut out, ": ");
    push_str(&mut out, t.title.as_str());
    push_str(&mut out, "\nStatus: ");
    push_str(&mut out, crate::task_store::status_name_of(t.status));
    push_str(&mut out, "\nFiles: ");
    match &t.result {
        Some(r) => {
            let j = join_strings(&r.files_modified, ", ");
            push_str(&mut out, j.as_str());
        },
        None => push_str(&mut out, "none"),
    }
    push_str(&mut out, "\nVerification: ");
    let label = match &t.result {
        Some(r) => match r.verification_passed {
            Some(true) => "PASS",
            Some(false) => "FAIL",
            None => "N/A",
        },
        None => "N/A",
    };
    push_str(&mut out, label);
    push_str(&mut out, "\nSummary: ");
    match &t.result {
        Some(r) => push_str(&mut out, r.summary.as_str()),
        None => push_str(&mut out, "N/A"),
    }
    assert(out@ =~= review_entry(*t));
    out
}

/// The task results as the final review is shown them: one entry per task
/// (see `review_entry`), separated by blank lines.
pub fn review_task_results(tasks: &[Task]) -> (r: String)
    requires
        indices_fit(tasks@),
    ensures
        r@ == join(review_entries(tasks@), "\n\n"@),
{
    let mut parts: Vec<String> = Vec::new();
    let mut k: usize = 0;
    while k < tasks.len()
        invariant
            k <= tasks.len(),
            indices_fit(tasks@),
            views(parts@) == review_entries(tasks@.take(k as int)),
        decreases tasks.len() - k,
    {
        assert(tasks@[k as int].index < usize::MAX);
        let p = review_entry_text(&tasks[k]);
        let ghost before = views(parts@);
        let ghost pv = p@;
        parts.push(p);
        assert(views(parts@) =~= before.push(pv));
        assert(review_entries(tasks@.take(k + 1)) =~= review_entries(tasks@.take(k as int)).push(pv));
        k = k + 1;
    }
    assert(tasks@.take(tasks.len() as int) =~= tasks@);
    join_strings(&parts, "\n\n")
}

/// The diffs and the verification outputs that the tasks' results hold,
/// each with its task's number, in task order.
pub fn review_evidence(tasks: &[Task]) -> (r: (Vec<(usize, String)>, Vec<(usize, String)>))
    ensures
        r.0@.map_values(|e: (usize, String)| (e.0, e.1@)) == diffs_of(tasks@),
        r.1@.map_values(|e: (usize, String)| (e.0, e.1@)) == outputs_of(tasks@),
{
    let mut diffs: Vec<(usize, String)> = Vec::new();
    let mut outs: Vec<(usize, String)> = Vec::new();
    let mut k: usize = 0;
    while k < tasks.len()
        invariant
            k <= tasks.len(),
            diffs@.map_values(|e: (usize, String)| (e.0, e.1@)) == diffs_of(tasks@.take(k as int)),
            outs@.map_values(|e: (usize, String)| (e.0, e.1@)) == outputs_of(tasks@.take(k as int)),
        decreases tasks.len() - k,
    {
        let t = &tasks[k];
        assert(tasks@.take(k + 1).drop_last() =~= tasks@.take(k as int));
        match &t.result {
            Some(res) => {
                match &res.diff {
                    Some(d) => {
                        let ghost b = diffs@;
                        diffs.push((t.index, d.clone()));
                        assert(diffs@.map_values(|e: (usize, String)| (e.0, e.1@)) =~= b.map_values(|e: (usize, String)| (e.0, e.1@)).push((t.index, d@)));
                    },
                    None => {},
                }
                match &res.verification_output {
                    Some(o) => {
                        let ghost b = outs@;
                        outs.push((t.index, o.clone()));
                        assert(outs@.map_values(|e: (usize, String)| (e.0, e.1@)) =~= b.map_values(|e: (usize, String)| (e.0, e.1@)).push((t.index, o@)));
                    },
                    None => {},
                }
            },
            None => {},
        }
        k = k + 1;
    }
    assert(tasks@.take(tasks.len() as int) =~= tasks@);
    (diffs, outs)
}

/// The diffs of the tasks' results with their task numbers, in order.
pub open spec fn diffs_of(ts: Seq<Task>) -> Seq<(usize, Seq<char>)>
    decreases ts.len(),
{
    if ts.len() == 0 {
        Seq::empty()
    } else {
        let rest = diffs_of(ts.drop_last());
        match ts.last().result {
            Some(r) => match r.diff {
                Some(d) => rest.push((ts.last().index, d@)),
                None => rest,
            },
            None => rest,
        }
    }
}

/// The verification outputs of the tasks' results with their task
/// numbers, in order.
pub open spec fn outputs_of(ts: Seq<Task>) -> Seq<(usize, Seq<char>)>
    decreases ts.len(),
{
    if ts.len() == 0 {
        Seq::empty()
    } else {
        let rest = outputs_of(ts.drop_last());
        match ts.last().result {
            Some(r) => match r.verification_output {
                Some(o) => rest.push((ts.last().index, o@)),
                None => rest,
            },
            None => rest,
        }
    }
}

} // verus!
