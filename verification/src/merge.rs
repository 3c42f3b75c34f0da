//! Merging a worker's branch back: the decisions taken on the outcome of
//! each git command and of the conflict resolution. The commands themselves
//! are run by the caller, who reports each outcome as an event.
use crate::musician::split_lines;
use crate::text::{push_str, trimmed, views, seq_contains};
use crate::worktree::{MergeResult, TaskContext, WorktreeManager};
use vstd::prelude::*;

verus! {

broadcast use vstd::string::group_string_axioms;

/// The branch that holds a worker's work on a task.
pub open spec fn branch_name(worker_id: Seq<char>, task_slug: Seq<char>) -> Seq<char> {
    "conductor/"@ + worker_id + "/"@ + task_slug
}

/// The worktree directory of a worker's task, relative to the project.
pub open spec fn worktree_dir(worker_id: Seq<char>, task_slug: Seq<char>) -> Seq<char> {
    ".conductor-worktrees/"@ + worker_id + "-"@ + task_slug
}

/// The branch and the worktree directory (relative to the project) of a
/// worker's task.
pub fn worktree_names(worker_id: &str, task_slug: &str) -> (r: (String, String))
    ensures
        r.0@ == branch_name(worker_id@, task_slug@),
        r.1@ == worktree_dir(worker_id@, task_slug@),
{
    let mut b = String::new();
    proof {
        reveal_strlit("");
    }
    push_str(&mut b, "conductor/");
    push_str(&mut b, worker_id);
    push_str(&mut b, "/");
    push_str(&mut b, task_slug);
    let mut d = String::new();
    push_str(&mut d, ".conductor-worktrees/");
    push_str(&mut d, worker_id);
    push_str(&mut d, "-");
    push_str(&mut d, task_slug);
    (b, d)
}

/// Whether `c` is alphabetic or numeric in Unicode's sense, as
/// `char::is_alphanumeric` answers.
pub uninterp spec fn alphanumeric(c: char) -> bool;

/// Calls `char::is_alphanumeric`. Its answer is named `alphanumeric`; on
/// ASCII it holds exactly of letters and digits, as the documentation of
/// `is_alphabetic` and `is_numeric` gives for that range.
#[verifier::external_body]
fn is_alphanumeric(c: char) -> (r: bool)
    ensures
        r == alphanumeric(c),
        (c as u32) < 128 ==> r == (('a' <= c && c <= 'z') || ('A' <= c && c <= 'Z') || ('0' <= c && c <= '9')),
{
    c.is_alphanumeric()
}

/// The title's characters, lowered, with every one that is not
/// alphanumeric replaced by '-'.
pub open spec fn slug_chars(title: Seq<char>) -> Seq<char> {
    crate::text::lowercase(title).map_values(|c: char| if alphanumeric(c) { c } else { '-' })
}

/// The slug a task's branch and worktree are named by: `slug_chars` of
/// its title, cut to at most thirty bytes at a character boundary.
pub fn task_slug(title: &str) -> (r: String)
    ensures
        vstd::utf8::encode_utf8(slug_chars(title@)).len() <= 30 ==> r@ == slug_chars(title@),
        vstd::utf8::encode_utf8(slug_chars(title@)).len() > 30 ==> vstd::utf8::encode_utf8(r@)
            == vstd::utf8::encode_utf8(slug_chars(title@)).subrange(
            0,
            crate::text::floor_boundary(vstd::utf8::encode_utf8(slug_chars(title@)), 30),
        ),
{
    let lower = crate::text::to_lowercase(title);
    let cs = crate::text::chars_of(lower.as_str());
    let mut out: Vec<char> = Vec::new();
    let mut k: usize = 0;
    while k < cs.len()
        invariant
            k <= cs@.len(),
            cs@ == crate::text::lowercase(title@),
            out@ == cs@.take(k as int).map_values(|c: char| if alphanumeric(c) { c } else { '-' }),
        decreases cs@.len() - k,
    {
        let c = cs[k];
        if is_alphanumeric(c) {
            out.push(c);
        } else {
            out.push('-');
        }
        k = k + 1;
        assert(out@ =~= cs@.take(k as int).map_values(|c: char| if alphanumeric(c) { c } else { '-' }));
    }
    assert(cs@.take(k as int) =~= cs@);
    let full = crate::text::string_from_chars(&out);
    let cut = crate::text::truncate_str(full.as_str(), 30);
    let mut r = String::new();
    proof {
        reveal_strlit("");
    }
    push_str(&mut r, cut);
    assert(r@ =~= cut@);
    r
}

/// The commit message of the merge of `branch`.
pub open spec fn merge_message(branch: Seq<char>) -> Seq<char> {
    "conductor: merge "@ + branch
}

/// What merging a worker's branch starts with: its branch and the merge
/// message, or, for a worker with no worktree, the failed result at once.
pub fn merge_request(m: &WorktreeManager, worker_id: &str) -> (r: Result<(String, String), MergeResult>)
    ensures
        match r {
            Ok((b, msg)) => m@.worktrees.contains_key(worker_id@)
                && b@ == m@.worktrees[worker_id@].1
                && msg@ == merge_message(b@),
            Err(res) => !m@.worktrees.contains_key(worker_id@)
                && failed_with(res, seq!["No worktree found"@]),
        },
{
    proof {
        reveal_strlit("");
    }
    match m.get_worktree(worker_id) {
        Some((_, branch)) => {
            let mut b = String::new();
            push_str(&mut b, branch);
            let mut msg = String::new();
            push_str(&mut msg, "conductor: merge ");
            push_str(&mut msg, branch);
            Ok((b, msg))
        },
        None => {
            let mut c = String::new();
            push_str(&mut c, "No worktree found");
            let mut conflicts: Vec<String> = Vec::new();
            conflicts.push(c);
            assert(views(conflicts@) =~= seq!["No worktree found"@]);
            Err(MergeResult { success: false, conflicts, resolved: false })
        },
    }
}

/// `res` is a failed, unresolved merge that reports `conflicts`.
pub open spec fn failed_with(res: MergeResult, conflicts: Seq<Seq<char>>) -> bool {
    !res.success && !res.resolved && views(res.conflicts@) == conflicts
}

/// The files that `git diff --name-only --diff-filter=U` listed in `out`:
/// its trimmed lines that are not empty.
pub open spec fn conflict_files(out: Seq<char>) -> Seq<Seq<char>> {
    split_lines(trimmed(out)).filter(|l: Seq<char>| l.len() > 0)
}

/// How each conflicted file is reported when the conflict stays.
pub open spec fn conflict_lines(files: Seq<Seq<char>>) -> Seq<Seq<char>> {
    files.map_values(|f: Seq<char>| "CONFLICT: "@ + f)
}

/// What merging has learned so far: the merge command's error text and the
/// conflicted files.
pub struct MergeFlow {
    pub details: String,
    pub files: Vec<String>,
}

/// The outcome of the command or of the resolution the caller last ran.
pub enum MergeEvent {
    /// The merge command succeeded, or failed with this error text.
    Merged(Result<(), String>),
    /// The listing of conflicted files: its output, or `None` when it failed.
    Listed(Option<String>),
    /// Whether every conflicted file was resolved.
    Resolved(bool),
    /// Whether staging the resolved files and committing succeeded.
    Committed(bool),
}

/// What the caller does next.
pub enum MergeAction {
    /// List the conflicted files.
    ListConflicts,
    /// Try to resolve the conflicts in these files.
    Resolve(Vec<String>),
    /// Stage these files and commit the merge.
    Commit(Vec<String>),
    /// Abort the merge, then report this result.
    AbortThen(MergeResult),
    /// The merge is over with this result.
    Finish(MergeResult),
}

fn copy_strings(v: &Vec<String>) -> (r: Vec<String>)
    ensures
        views(r@) == views(v@),
{
    let mut out: Vec<String> = Vec::new();
    let mut k: usize = 0;
    while k < v.len()
        invariant
            k <= v@.len(),
            out@ == v@.take(k as int),
        decreases v@.len() - k,
    {
        out.push(v[k].clone());
        k = k + 1;
        assert(out@ =~= v@.take(k as int));
    }
    assert(v@.take(k as int) =~= v@);
    out
}

fn nonempty_lines(out: &str) -> (r: Vec<String>)
    ensures
        views(r@) == conflict_files(out@),
{
    let t = crate::text::trim_string(out);
    let pieces = crate::musician::split_text(t.as_str());
    let ghost ls = split_lines(trimmed(out@));
    let mut kept: Vec<String> = Vec::new();
    let mut k: usize = 0;
    while k < pieces.len()
        invariant
            k <= pieces@.len(),
            views(pieces@) == ls,
            views(kept@) == ls.take(k as int).filter(|l: Seq<char>| l.len() > 0),
        decreases pieces@.len() - k,
    {
        proof {
            assert(ls.take(k + 1).drop_last() =~= ls.take(k as int));
            ls.take(k as int).lemma_filter_push(ls[k as int], |l: Seq<char>| l.len() > 0);
            assert(ls.take(k as int).push(ls[k as int]) =~= ls.take(k + 1));
        }
        if crate::text::chars_of(pieces[k].as_str()).len() > 0 {
            let mut s = String::new();
            proof {
                reveal_strlit("");
            }
            push_str(&mut s, pieces[k].as_str());
            kept.push(s);
        }
        k = k + 1;
        assert(views(kept@) =~= ls.take(k as int).filter(|l: Seq<char>| l.len() > 0));
    }
    assert(ls.take(k as int) =~= ls);
    kept
}

fn conflict_report(files: &Vec<String>) -> (r: Vec<String>)
    ensures
        views(r@) == conflict_lines(views(files@)),
{
    let mut out: Vec<String> = Vec::new();
    let mut k: usize = 0;
    while k < files.len()
        invariant
            k <= files@.len(),
            out@.len() == k,
            forall|m: int| 0 <= m < k ==> (#[trigger] out@[m])@ == "CONFLICT: "@ + files@[m]@,
        decreases files@.len() - k,
    {
        let mut s = String::new();
        proof {
            reveal_strlit("");
        }
        push_str(&mut s, "CONFLICT: ");
        push_str(&mut s, files[k].as_str());
        out.push(s);
        k = k + 1;
    }
    assert(views(out@) =~= conflict_lines(views(files@)));
    out
}

fn single(s: &String) -> (r: Vec<String>)
    ensures
        views(r@) == seq![s@],
{
    let mut c = String::new();
    proof {
        reveal_strlit("");
    }
    push_str(&mut c, s.as_str());
    let mut v: Vec<String> = Vec::new();
    v.push(c);
    assert(views(v@) =~= seq![s@]);
    v
}

/// Takes one merging step on the outcome of the last command:
/// - a clean merge is a success with no conflicts;
/// - a failed merge keeps its error text and lists the conflicted files;
/// - when the listing fails or names no file, the merge is aborted and
///   fails with the error text;
/// - otherwise the files are resolved; when that succeeds they are staged
///   and committed, and a commit that succeeds makes the merge a resolved
///   success that reports the files;
/// - a resolution or commit that fails aborts the merge, which fails with
///   "CONFLICT: " and each file.
pub fn merge_step(flow: MergeFlow, e: MergeEvent) -> (r: (MergeFlow, MergeAction))
    ensures
        match e {
            MergeEvent::Merged(Ok(())) => r.1 matches MergeAction::Finish(res)
                && res.success && !res.resolved && res.conflicts@.len() == 0,
            MergeEvent::Merged(Err(d)) => r.0.details@ == d@ && r.1 is ListConflicts,
            MergeEvent::Listed(None) => r.1 matches MergeAction::AbortThen(res)
                && failed_with(res, seq![flow.details@]),
            MergeEvent::Listed(Some(out)) => if conflict_files(out@).len() == 0 {
                r.1 matches MergeAction::AbortThen(res) && failed_with(res, seq![flow.details@])
            } else {
                views(r.0.files@) == conflict_files(out@) && r.0.details@ == flow.details@
                    && (r.1 matches MergeAction::Resolve(fs) && views(fs@) == conflict_files(out@))
            },
            MergeEvent::Resolved(true) => r.1 matches MergeAction::Commit(fs)
                && views(fs@) == views(flow.files@) && views(r.0.files@) == views(flow.files@),
            MergeEvent::Resolved(false) => r.1 matches MergeAction::AbortThen(res)
                && failed_with(res, conflict_lines(views(flow.files@))),
            MergeEvent::Committed(true) => r.1 matches MergeAction::Finish(res)
                && res.success && res.resolved && views(res.conflicts@) == views(flow.files@),
            MergeEvent::Committed(false) => r.1 matches MergeAction::AbortThen(res)
                && failed_with(res, conflict_lines(views(flow.files@))),
        },
{
    match e {
        MergeEvent::Merged(Ok(())) => {
            let res = MergeResult { success: true, conflicts: Vec::new(), resolved: false };
            (flow, MergeAction::Finish(res))
        },
        MergeEvent::Merged(Err(d)) => (MergeFlow { details: d, files: flow.files }, MergeAction::ListConflicts),
        MergeEvent::Listed(None) => {
            let res = MergeResult { success: false, conflicts: single(&flow.details), resolved: false };
            (flow, MergeAction::AbortThen(res))
        },
        MergeEvent::Listed(Some(out)) => {
            let files = nonempty_lines(out.as_str());
            if files.len() == 0 {
                let res = MergeResult { success: false, conflicts: single(&flow.details), resolved: false };
                (flow, MergeAction::AbortThen(res))
            } else {
                let to_resolve = copy_strings(&files);
                (MergeFlow { details: flow.details, files }, MergeAction::Resolve(to_resolve))
            }
        },
        MergeEvent::Resolved(true) => {
            let fs = copy_strings(&flow.files);
            (flow, MergeAction::Commit(fs))
        },
        MergeEvent::Resolved(false) => {
            let res = MergeResult { success: false, conflicts: conflict_report(&flow.files), resolved: false };
            (flow, MergeAction::AbortThen(res))
        },
        MergeEvent::Committed(true) => {
            let res = MergeResult { success: true, conflicts: copy_strings(&flow.files), resolved: true };
            (flow, MergeAction::Finish(res))
        },
        MergeEvent::Committed(false) => {
            let res = MergeResult { success: false, conflicts: conflict_report(&flow.files), resolved: false };
            (flow, MergeAction::AbortThen(res))
        },
    }
}

/// `c` is `content` cut to at most `max` bytes at the last character
/// boundary that fits.
pub open spec fn cut_to(content: Seq<char>, max: nat, c: Seq<char>) -> bool {
    &&& vstd::utf8::encode_utf8(content).len() <= max ==> c == content
    &&& vstd::utf8::encode_utf8(content).len() > max ==> vstd::utf8::encode_utf8(c)
        == vstd::utf8::encode_utf8(content).subrange(0, crate::text::floor_boundary(vstd::utf8::encode_utf8(content), max as int))
}

/// What the resolver is told of the branch being merged.
pub open spec fn branch_info(branch: Seq<char>, ctx: Option<TaskContext>) -> Seq<char> {
    match ctx {
        Some(c) => "\nThe branch \""@ + branch + "\" was implementing: \""@ + c.title@ + "\"\nSummary: "@ + c.summary@,
        None => "\nThe branch being merged is: \""@ + branch + "\""@,
    }
}

/// The request to resolve the conflicts of `file`, whose (cut) content is
/// `slice`.
pub open spec fn resolution_text(file: Seq<char>, slice: Seq<char>, branch: Seq<char>, ctx: Option<TaskContext>) -> Seq<char> {
    "Resolve the merge conflicts in this file. Output ONLY the resolved file content with no explanation, no markdown fences, no commentary."@
        + branch_info(branch, ctx)
        + "\n\nThe goal is to keep BOTH sides' changes integrated correctly. If the changes are in different parts of the file, include both. If they modify the same code, merge the intent of both changes.\n\nFile: "@
        + file + "\n```\n"@ + slice + "\n```\n\nOutput the complete resolved file content:"@
}

/// The request to resolve the conflicts of `file`, with its content cut to
/// eight thousand bytes.
pub fn resolution_prompt(file: &str, content: &str, branch: &str, ctx: Option<&TaskContext>) -> (r: String)
    ensures
        exists|c: Seq<char>| cut_to(content@, 8000, c) && r@ == resolution_text(file@, c, branch@, match ctx {
            Some(x) => Some(*x),
            None => None,
        }),
{
    let slice = crate::text::truncate_str(content, 8000);
    let mut out = String::new();
    proof {
        reveal_strlit("");
    }
    push_str(&mut out, "Resolve the merge conflicts in this file. Output ONLY the resolved file content with no explanation, no markdown fences, no commentary.");
    match ctx {
        Some(c) => {
            push_str(&mut out, "\nThe branch \"");
            push_str(&mut out, branch);
            push_str(&mut out, "\" was implementing: \"");
            push_str(&mut out, c.title.as_str());
            push_str(&mut out, "\"\nSummary: ");
            push_str(&mut out, c.summary.as_str());
        },
        None => {
            push_str(&mut out, "\nThe branch being merged is: \"");
            push_str(&mut out, branch);
            push_str(&mut out, "\"");
        },
    }
    push_str(&mut out, "\n\nThe goal is to keep BOTH sides' changes integrated correctly. If the changes are in different parts of the file, include both. If they modify the same code, merge the intent of both changes.\n\nFile: ");
    push_str(&mut out, file);
    push_str(&mut out, "\n```\n");
    push_str(&mut out, slice);
    push_str(&mut out, "\n```\n\nOutput the complete resolved file content:");
    let ghost cv = match ctx {
        Some(x) => Some(*x),
        None => None,
    };
    assert(out@ =~= resolution_text(file@, slice@, branch@, cv));
    assert(cut_to(content@, 8000, slice@));
    out
}

/// Whether a file holds both an opening and a closing conflict marker, the
/// condition for trying to resolve it.
pub fn has_conflict_markers(content: &str) -> (r: bool)
    ensures
        r == (seq_contains(content@, "<<<<<<<"@) && seq_contains(content@, ">>>>>>>"@)),
{
    crate::text::contains_str(content, "<<<<<<<") && crate::text::contains_str(content, ">>>>>>>")
}

/// Whether a proposed resolution is free of conflict markers and may be
/// written over the file.
pub fn resolution_is_clean(result: &str) -> (r: bool)
    ensures
        r == !(seq_contains(result@, "<<<<<<<"@) || seq_contains(result@, ">>>>>>>"@)
            || seq_contains(result@, "======="@)),
{
    !(crate::text::contains_str(result, "<<<<<<<") || crate::text::contains_str(result, ">>>>>>>")
        || crate::text::contains_str(result, "======="))
}

} // verus!
