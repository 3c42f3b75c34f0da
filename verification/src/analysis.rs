//! Deep analysis before decomposition: each directive of the conductor's
//! codebase map becomes a read-only task for an analyst, and the analysts'
//! results become the reports that decomposition is given.
use crate::state::{AnalysisDirective, AnalysisResult, MusicianStatus, Task, TaskResult, TaskStatus};
use crate::text::{decimal, push_decimal, push_str, views};
use vstd::prelude::*;

verus! {

broadcast use vstd::string::group_string_axioms;

/// The id of analyst number `k`.
pub open spec fn analyst_id(k: int) -> Seq<char> {
    "analyst-"@ + decimal(k as nat)
}

/// `t` is the task that analyst number `k` runs for directive `d`: the
/// directive's id, "Analyze: " and its area as title, its question as
/// description and reason, its file hints as scope, JSON findings as the
/// one criterion, its turn budget; running, assigned to the analyst.
pub open spec fn analyst_task(t: Task, d: AnalysisDirective, k: int) -> bool {
    &&& t.id@ == d.id@
    &&& t.index == k
    &&& t.title@ == "Analyze: "@ + d.area@
    &&& t.description@ == d.question@
    &&& t.why@ == d.question@
    &&& views(t.file_scope@) == views(d.file_hints@)
    &&& t.dependencies@.len() == 0
    &&& views(t.acceptance_criteria@) == seq!["Produce JSON findings"@]
    &&& t.estimated_turns == d.estimated_turns
    &&& t.model is None
    &&& t.status == TaskStatus::InProgress
    &&& crate::events::opt_view(t.assigned_musician) == Some(analyst_id(k))
    &&& t.result is None
}

fn copy_strings(v: &Vec<String>) -> (r: Vec<String>)
    ensures
        r@ == v@,
{
    let mut out: Vec<String> = Vec::new();
    let mut k: usize = 0;
    while k < v.len()
        invariant
            k <= v@.len(),
            out@ == v@.take(k as int),
        decreases v@.len() - k,
    {
        out.push(v[k].clone());
        k = k + 1;
        assert(out@ =~= v@.take(k as int));
    }
    assert(v@.take(k as int) =~= v@);
    out
}

/// The directives with an id given to each that has none: the one at
/// position `i` becomes "analyst-" and `i + 1`.
pub fn fill_directive_ids(d: &mut Vec<AnalysisDirective>)
    requires
        old(d)@.len() < usize::MAX,
    ensures
        final(d)@.len() == old(d)@.len(),
        forall|i: int| #![trigger final(d)@[i]] 0 <= i < old(d)@.len() ==> final(d)@[i] == (AnalysisDirective { id: final(d)@[i].id, ..old(d)@[i] })
            && final(d)@[i].id@ == (if old(d)@[i].id@.len() == 0 { analyst_id(i + 1) } else { old(d)@[i].id@ }),
{
    let ghost d0 = d@;
    let mut i: usize = 0;
    while i < d.len()
        invariant
            i <= d@.len(),
            d@.len() == d0.len(),
            d0.len() < usize::MAX,
            forall|k: int| i <= k < d0.len() ==> #[trigger] d@[k] == d0[k],
            forall|k: int| #![trigger d@[k]] 0 <= k < i ==> d@[k] == (AnalysisDirective { id: d@[k].id, ..d0[k] })
                && d@[k].id@ == (if d0[k].id@.len() == 0 { analyst_id(k + 1) } else { d0[k].id@ }),
        decreases d@.len() - i,
    {
        if crate::text::chars_of(d[i].id.as_str()).len() == 0 {
            let mut id = String::new();
            proof {
                reveal_strlit("");
            }
            push_str(&mut id, "analyst-");
            push_decimal(&mut id, (i + 1) as u64);
            assert(id@ =~= analyst_id(i + 1));
            let ghost before = d@;
            let mut x = d.remove(i);
            x.id = id;
            d.insert(i, x);
            assert(d@ =~= before.update(i as int, x));
        }
        i = i + 1;
    }
}

/// The tasks the analysts run, one per directive (see `analyst_task`).
pub fn analyst_tasks(d: &[AnalysisDirective]) -> (r: Vec<Task>)
    ensures
        r@.len() == d@.len(),
        forall|k: int| 0 <= k < d@.len() ==> #[trigger] analyst_task(r@[k], d@[k], k),
{
    let mut out: Vec<Task> = Vec::new();
    let mut k: usize = 0;
    while k < d.len()
        invariant
            k <= d@.len(),
            out@.len() == k,
            forall|j: int| 0 <= j < k ==> #[trigger] analyst_task(out@[j], d@[j], j),
        decreases d@.len() - k,
    {
        let dir = &d[k];
        let mut title = String::new();
        push_str(&mut title, "Analyze: ");
        push_str(&mut title, dir.area.as_str());
        let mut who = String::new();
        push_str(&mut who, "analyst-");
        push_decimal(&mut who, k as u64);
        let mut criteria: Vec<String> = Vec::new();
        let mut c = String::new();
        push_str(&mut c, "Produce JSON findings");
        criteria.push(c);
        proof {
            reveal_strlit("");
        }
        let t = Task {
            id: dir.id.clone(),
            index: k,
            title,
            description: dir.question.clone(),
            why: dir.question.clone(),
            file_scope: copy_strings(&dir.file_hints),
            dependencies: Vec::new(),
            acceptance_criteria: criteria,
            estimated_turns: dir.estimated_turns,
            model: None,
            status: TaskStatus::InProgress,
            assigned_musician: Some(who),
            result: None,
        };
        assert(views(t.acceptance_criteria@) =~= seq!["Produce JSON findings"@]);
        let ghost before = out@;
        out.push(t);
        assert forall|j: int| 0 <= j < k + 1 implies #[trigger] analyst_task(out@[j], d@[j], j) by {
            if j < k {
                assert(out@[j] == before[j]);
            }
        }
        k = k + 1;
    }
    out
}

/// The report an analyst's successful result gives: the directive's id and
/// area, the result's summary as findings, its tokens and time.
pub open spec fn report_of(a: AnalysisResult, d: AnalysisDirective, r: TaskResult) -> bool {
    &&& a.directive_id@ == d.id@
    &&& a.area@ == d.area@
    &&& a.findings@ == r.summary@
    &&& a.key_files@.len() == 0 && a.patterns@.len() == 0 && a.risks@.len() == 0
    &&& a.tokens_used == r.tokens_used
    &&& a.duration_ms == r.duration_ms
}

/// The positions, among the first `n`, of the analysts that succeeded.
pub open spec fn succeeded_upto(o: Seq<Result<TaskResult, String>>, n: int) -> Seq<int>
    decreases n,
{
    if n <= 0 {
        Seq::empty()
    } else {
        succeeded_upto(o, n - 1) + if o[n - 1] matches Ok(r) && r.success { seq![n - 1] } else { Seq::empty() }
    }
}

/// The status an analyst ends with: completed on success, else failed (an
/// analyst whose run broke off failed too).
pub open spec fn analyst_status(o: Result<TaskResult, String>) -> MusicianStatus {
    match o {
        Ok(r) => if r.success { MusicianStatus::Completed } else { MusicianStatus::Failed },
        Err(_) => MusicianStatus::Failed,
    }
}

/// What is said of a failed analyst.
pub open spec fn failure_note(k: int, d: AnalysisDirective, o: Result<TaskResult, String>) -> Seq<char> {
    match o {
        Ok(r) => "Analyst "@ + decimal(k as nat) + " ("@ + d.area@ + ") failed: "@ + match r.error {
            Some(e) => e@,
            None => "unknown"@,
        },
        Err(e) => "Analyst "@ + decimal(k as nat) + " ("@ + d.area@ + ") panicked: "@ + e@,
    }
}

/// The notes on the failed analysts among the first `n`, in order.
pub open spec fn failure_notes(d: Seq<AnalysisDirective>, o: Seq<Result<TaskResult, String>>, n: int) -> Seq<Seq<char>>
    decreases n,
{
    if n <= 0 {
        Seq::empty()
    } else {
        failure_notes(d, o, n - 1) + if analyst_status(o[n - 1]) == MusicianStatus::Failed {
            seq![failure_note(n - 1, d[n - 1], o[n - 1])]
        } else {
            Seq::empty()
        }
    }
}

/// Gathers the analysts' outcomes (an error for an analyst whose run broke
/// off): a report for each success, in order (see `report_of`), each
/// analyst's final status, and a note on each failure.
pub fn collect_analysis(d: &[AnalysisDirective], outcomes: &[Result<TaskResult, String>]) -> (r: (Vec<AnalysisResult>, Vec<MusicianStatus>, Vec<String>))
    requires
        d@.len() == outcomes@.len(),
    ensures
        r.0@.len() == succeeded_upto(outcomes@, outcomes@.len() as int).len(),
        forall|j: int| #![trigger r.0@[j]] 0 <= j < r.0@.len() ==> report_of(
            r.0@[j],
            d@[succeeded_upto(outcomes@, outcomes@.len() as int)[j]],
            outcomes@[succeeded_upto(outcomes@, outcomes@.len() as int)[j]]->Ok_0,
        ),
        r.1@.len() == d@.len(),
        forall|k: int| 0 <= k < d@.len() ==> #[trigger] r.1@[k] == analyst_status(outcomes@[k]),
        views(r.2@) == failure_notes(d@, outcomes@, outcomes@.len() as int),
{
    let mut reports: Vec<AnalysisResult> = Vec::new();
    let mut statuses: Vec<MusicianStatus> = Vec::new();
    let mut notes: Vec<String> = Vec::new();
    let mut k: usize = 0;
    while k < d.len()
        invariant
            k <= d@.len(),
            d@.len() == outcomes@.len(),
            reports@.len() == succeeded_upto(outcomes@, k as int).len(),
            forall|j: int| #![trigger reports@[j]] 0 <= j < reports@.len() ==> report_of(
                reports@[j],
                d@[succeeded_upto(outcomes@, k as int)[j]],
                outcomes@[succeeded_upto(outcomes@, k as int)[j]]->Ok_0,
            ),
            statuses@.len() == k,
            forall|i: int| 0 <= i < k ==> #[trigger] statuses@[i] == analyst_status(outcomes@[i]),
            views(notes@) == failure_notes(d@, outcomes@, k as int),
        decreases d@.len() - k,
    {
        let dir = &d[k];
        let ghost before_r = reports@;
        let ghost before_n = views(notes@);
        let ghost su = succeeded_upto(outcomes@, k as int);
        match &outcomes[k] {
            Ok(res) => {
                if res.success {
                    reports.push(AnalysisResult {
                        directive_id: dir.id.clone(),
                        area: dir.area.clone(),
                        findings: res.summary.clone(),
                        key_files: Vec::new(),
                        patterns: Vec::new(),
                        risks: Vec::new(),
                        tokens_used: res.tokens_used,
                        duration_ms: res.duration_ms,
                    });
                    statuses.push(MusicianStatus::Completed);
                    proof {
                        assert(succeeded_upto(outcomes@, k + 1) == su.push(k as int));
                        assert forall|j: int| #![trigger reports@[j]] 0 <= j < reports@.len() implies report_of(
                            reports@[j],
                            d@[succeeded_upto(outcomes@, k + 1)[j]],
                            outcomes@[succeeded_upto(outcomes@, k + 1)[j]]->Ok_0,
                        ) by {
                            if j < before_r.len() {
                                assert(reports@[j] == before_r[j]);
                                assert(succeeded_upto(outcomes@, k + 1)[j] == su[j]);
                            }
                        }
                        assert(views(notes@) =~= failure_notes(d@, outcomes@, k + 1));
                    }
                } else {
                    let mut msg = String::new();
                    push_str(&mut msg, "Analyst ");
                    push_decimal(&mut msg, k as u64);
                    push_str(&mut msg, " (");
                    push_str(&mut msg, dir.area.as_str());
                    push_str(&mut msg, ") failed: ");
                    match &res.error {
                        Some(e) => push_str(&mut msg, e.as_str()),
                        None => push_str(&mut msg, "unknown"),
                    }
                    let ghost mv = msg@;
                    notes.push(msg);
                    statuses.push(MusicianStatus::Failed);
                    proof {
                        assert(succeeded_upto(outcomes@, k + 1) =~= su);
                        assert(mv =~= failure_note(k as int, d@[k as int], outcomes@[k as int]));
                        assert(views(notes@) =~= before_n.push(mv));
                    }
                }
            },
            Err(e) => {
                let mut msg = String::new();
                push_str(&mut msg, "Analyst ");
                push_decimal(&mut msg, k as u64);
                push_str(&mut msg, " (");
                push_str(&mut msg, dir.area.as_str());
                push_str(&mut msg, ") panicked: ");
                push_str(&mut msg, e.as_str());
                let ghost mv = msg@;
                notes.push(msg);
                statuses.push(MusicianStatus::Failed);
                proof {
                    assert(succeeded_upto(outcomes@, k + 1) =~= su);
                    assert(mv =~= failure_note(k as int, d@[k as int], outcomes@[k as int]));
                    assert(views(notes@) =~= before_n.push(mv));
                }
            },
        }
        k = k + 1;
    }
    (reports, statuses, notes)
}

} // verus!
