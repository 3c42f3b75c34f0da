//! Book-keeping of the git worktrees that isolate musicians, and the order
//! in which their branches are merged back.
use crate::state::{WorktreeSnapshot, WorktreeStatus};
use crate::json::str_eq;
use vstd::prelude::*;

verus! {

broadcast use vstd::string::group_string_axioms;

/// Result of merging one worker branch.
#[derive(Debug, Clone)]
pub struct MergeResult {
    pub success: bool,
    pub conflicts: Vec<String>,
    pub resolved: bool,
}

/// What the conflict resolver is told about the task being merged.
#[derive(Debug, Clone)]
pub struct TaskContext {
    pub title: String,
    pub summary: String,
}

/// What batch merging knows of a worker's task.
#[derive(Debug, Clone)]
pub struct BatchTaskContext {
    pub title: String,
    pub summary: String,
    pub files_modified: Vec<String>,
}

/// Where a worker's worktree is and which branch it holds.
#[derive(Debug)]
struct WorktreeInfo {
    path: String,
    branch: String,
}

/// The worktrees of the workers of one project.
pub struct WorktreeManager {
    project_path: String,
    worktrees: Vec<(String, WorktreeInfo)>,
    is_git_repo: Option<bool>,
}

/// The worktree map of a list of entries: worker → (path, branch).
spec fn entries_map(e: Seq<(String, WorktreeInfo)>) -> Map<Seq<char>, (Seq<char>, Seq<char>)>
    decreases e.len(),
{
    if e.len() == 0 {
        Map::empty()
    } else {
        entries_map(e.drop_last()).insert(e.last().0@, (e.last().1.path@, e.last().1.branch@))
    }
}

/// A worktree manager as plain values.
pub ghost struct WorktreeView {
    pub project_path: Seq<char>,
    pub worktrees: Map<Seq<char>, (Seq<char>, Seq<char>)>,
    pub is_git_repo: Option<bool>,
}

impl View for WorktreeManager {
    type V = WorktreeView;

    closed spec fn view(&self) -> WorktreeView {
        WorktreeView {
            project_path: self.project_path@,
            worktrees: entries_map(self.worktrees@),
            is_git_repo: self.is_git_repo,
        }
    }
}

/// The worktree map after registering the active snapshots that `present`
/// marks as still on disk, in order.
pub open spec fn restored(
    m: Map<Seq<char>, (Seq<char>, Seq<char>)>,
    snaps: Seq<WorktreeSnapshot>,
    present: Seq<bool>,
) -> Map<Seq<char>, (Seq<char>, Seq<char>)>
    decreases snaps.len(),
{
    if snaps.len() == 0 {
        m
    } else {
        let before = restored(m, snaps.drop_last(), present);
        let s = snaps.last();
        if s.status == WorktreeStatus::Active && present[snaps.len() - 1] {
            before.insert(s.worker_id@, (s.path@, s.branch@))
        } else {
            before
        }
    }
}

/// Calls `std::path::Path::exists`: whether something is at `path` on disk
/// now. Nothing is stated of the result, which depends on the disk.
#[verifier::external_body]
fn path_exists(path: &str) -> bool {
    std::path::Path::new(path).exists()
}

fn copy_string(s: &String) -> (r: String)
    ensures
        r@ == s@,
{
    s.clone()
}

impl WorktreeManager {
    /// A manager for `project_path` with no worktrees and no cached answer
    /// to whether the project is a git repository.
    pub fn new(project_path: &str) -> (r: Self)
        ensures
            r@.project_path == project_path@,
            r@.worktrees == Map::<Seq<char>, (Seq<char>, Seq<char>)>::empty(),
            r@.is_git_repo is None,
    {
        let mut p = String::new();
        crate::text::push_str(&mut p, project_path);
        assert(p@ =~= project_path@);
        WorktreeManager { project_path: p, worktrees: Vec::new(), is_git_repo: None }
    }

    /// The project directory.
    pub fn project_path(&self) -> (r: &str)
        ensures
            r@ == self@.project_path,
    {
        self.project_path.as_str()
    }

    /// The cached answer to whether the project is a git repository.
    pub fn git_repo_cached(&self) -> (r: Option<bool>)
        ensures
            r == self@.is_git_repo,
    {
        self.is_git_repo
    }

    /// Records whether the project is a git repository.
    pub fn set_git_repo(&mut self, is_repo: bool)
        ensures
            final(self)@ == (WorktreeView { is_git_repo: Some(is_repo), ..old(self)@ }),
    {
        self.is_git_repo = Some(is_repo);
    }

    /// The worktree path and branch of a worker, if it has one.
    pub fn get_worktree(&self, worker_id: &str) -> (r: Option<(&str, &str)>)
        ensures
            match r {
                Some((p, b)) => self@.worktrees.contains_key(worker_id@) && self@.worktrees[worker_id@] == (p@, b@),
                None => !self@.worktrees.contains_key(worker_id@),
            },
    {
        match self.find(worker_id) {
            Some(i) => {
                let e = &self.worktrees[i];
                Some((e.1.path.as_str(), e.1.branch.as_str()))
            },
            None => None,
        }
    }

    /// Whether a worker has a worktree whose directory is still on disk.
    pub fn worktree_exists(&self, worker_id: &str) -> (r: bool)
        ensures
            r ==> self@.worktrees.contains_key(worker_id@),
    {
        match self.find(worker_id) {
            Some(i) => path_exists(self.worktrees[i].1.path.as_str()),
            None => false,
        }
    }

    /// Registers (or replaces) the worktree of a worker.
    pub fn register(&mut self, worker_id: &str, path: &str, branch: &str)
        ensures
            final(self)@ == (WorktreeView {
                worktrees: old(self)@.worktrees.insert(worker_id@, (path@, branch@)),
                ..old(self)@
            }),
    {
        let mut id = String::new();
        crate::text::push_str(&mut id, worker_id);
        let mut p = String::new();
        crate::text::push_str(&mut p, path);
        let mut b = String::new();
        crate::text::push_str(&mut b, branch);
        assert(id@ =~= worker_id@);
        assert(p@ =~= path@);
        assert(b@ =~= branch@);
        self.insert_entry(id, WorktreeInfo { path: p, branch: b });
    }

    /// Forgets the worktree of a worker.
    pub fn unregister(&mut self, worker_id: &str)
        ensures
            final(self)@ == (WorktreeView { worktrees: old(self)@.worktrees.remove(worker_id@), ..old(self)@ }),
    {
        let n = self.worktrees.len();
        let mut kept: Vec<(String, WorktreeInfo)> = Vec::new();
        let mut i: usize = 0;
        while i < n
            invariant
                i <= n,
                n == self.worktrees.len(),
                self.worktrees@ == old(self).worktrees@,
                entries_map(kept@) == entries_map(self.worktrees@.take(i as int)).remove(worker_id@),
            decreases n - i,
        {
            let ghost before = kept@;
            proof {
                assert(self.worktrees@.take(i + 1).drop_last() =~= self.worktrees@.take(i as int));
            }
            if !str_eq(self.worktrees[i].0.as_str(), worker_id) {
                let id = copy_string(&self.worktrees[i].0);
                let p = copy_string(&self.worktrees[i].1.path);
                let b = copy_string(&self.worktrees[i].1.branch);
                kept.push((id, WorktreeInfo { path: p, branch: b }));
                proof {
                    assert(kept@.drop_last() =~= before);
                    assert(entries_map(kept@) =~= entries_map(self.worktrees@.take(i + 1)).remove(worker_id@));
                }
            } else {
                proof {
                    assert(entries_map(kept@) =~= entries_map(self.worktrees@.take(i + 1)).remove(worker_id@));
                }
            }
            i = i + 1;
        }
        assert(self.worktrees@.take(n as int) =~= self.worktrees@);
        self.worktrees = kept;
    }

    /// Whether no worker has a registered worktree.
    pub fn is_empty(&self) -> (r: bool)
        ensures
            r == (self@.worktrees =~= Map::<Seq<char>, (Seq<char>, Seq<char>)>::empty()),
    {
        proof {
            if self.worktrees@.len() > 0 {
                let e = self.worktrees@;
                assert(entries_map(e).contains_key(e.last().0@));
            }
        }
        self.worktrees.len() == 0
    }

    /// Position of the entry of `worker_id`, if any.
    fn find(&self, worker_id: &str) -> (r: Option<usize>)
        ensures
            match r {
                Some(i) => i < self.worktrees.len() && self.worktrees@[i as int].0@ == worker_id@
                    && entries_map(self.worktrees@).contains_key(worker_id@)
                    && entries_map(self.worktrees@)[worker_id@] == (self.worktrees@[i as int].1.path@, self.worktrees@[i as int].1.branch@),
                None => !entries_map(self.worktrees@).contains_key(worker_id@),
            },
    {
        let mut i = self.worktrees.len();
        while i > 0
            invariant
                i <= self.worktrees.len(),
                forall|k: int| i <= k < self.worktrees.len() ==> self.worktrees@[k].0@ != worker_id@,
            decreases i,
        {
            if str_eq(self.worktrees[i - 1].0.as_str(), worker_id) {
                proof {
                    lemma_map_last_wins(self.worktrees@, (i - 1) as int, worker_id@);
                }
                return Some(i - 1);
            }
            i = i - 1;
        }
        proof {
            lemma_map_absent(self.worktrees@, worker_id@);
        }
        None
    }

    fn insert_entry(&mut self, id: String, info: WorktreeInfo)
        ensures
            entries_map(final(self).worktrees@) == entries_map(old(self).worktrees@).insert(id@, (info.path@, info.branch@)),
            final(self).project_path == old(self).project_path,
            final(self).is_git_repo == old(self).is_git_repo,
    {
        self.worktrees.push((id, info));
        let ghost e = self.worktrees@;
        assert(e.drop_last() =~= old(self).worktrees@);
    }

    /// Registers the active snapshots whose worktree is still on disk, as
    /// `present` tells it; later snapshots of a worker win.
    pub fn restore_checked(&mut self, snapshots: &[WorktreeSnapshot], present: &[bool])
        requires
            present.len() == snapshots.len(),
        ensures
            final(self)@ == (WorktreeView {
                worktrees: restored(old(self)@.worktrees, snapshots@, present@),
                ..old(self)@
            }),
    {
        let mut k: usize = 0;
        while k < snapshots.len()
            invariant
                k <= snapshots.len(),
                present.len() == snapshots.len(),
                self@ == (WorktreeView {
                    worktrees: restored(old(self)@.worktrees, snapshots@.take(k as int), present@),
                    ..old(self)@
                }),
            decreases snapshots.len() - k,
        {
            let snap = &snapshots[k];
            proof {
                assert(snapshots@.take(k + 1).drop_last() =~= snapshots@.take(k as int));
            }
            if snap.status == WorktreeStatus::Active && present[k] {
                let id = copy_string(&snap.worker_id);
                let p = copy_string(&snap.path);
                let b = copy_string(&snap.branch);
                self.insert_entry(id, WorktreeInfo { path: p, branch: b });
            }
            k = k + 1;
        }
        assert(snapshots@.take(snapshots.len() as int) =~= snapshots@);
    }

    /// Rebuilds the worktree map from session snapshots after a restart:
    /// registers each active snapshot whose directory is still on disk.
    pub fn restore_from_snapshots(&mut self, snapshots: &[WorktreeSnapshot])
        ensures
            exists|present: Seq<bool>|
                present.len() == snapshots@.len() && final(self)@ == (WorktreeView {
                    worktrees: #[trigger] restored(old(self)@.worktrees, snapshots@, present),
                    ..old(self)@
                }),
    {
        let mut present: Vec<bool> = Vec::new();
        let mut k: usize = 0;
        while k < snapshots.len()
            invariant
                k <= snapshots.len(),
                present.len() == k,
            decreases snapshots.len() - k,
        {
            present.push(path_exists(snapshots[k].path.as_str()));
            k = k + 1;
        }
        self.restore_checked(snapshots, present.as_slice());
    }
}

proof fn lemma_map_last_wins(e: Seq<(String, WorktreeInfo)>, i: int, key: Seq<char>)
    requires
        0 <= i < e.len(),
        e[i].0@ == key,
        forall|k: int| i < k < e.len() ==> e[k].0@ != key,
    ensures
        entries_map(e).contains_key(key),
        entries_map(e)[key] == (e[i].1.path@, e[i].1.branch@),
    decreases e.len(),
{
    if i < e.len() - 1 {
        lemma_map_last_wins(e.drop_last(), i, key);
    }
}

proof fn lemma_map_absent(e: Seq<(String, WorktreeInfo)>, key: Seq<char>)
    requires
        forall|k: int| 0 <= k < e.len() ==> e[k].0@ != key,
    ensures
        !entries_map(e).contains_key(key),
    decreases e.len(),
{
    if e.len() > 0 {
        lemma_map_absent(e.drop_last(), key);
    }
}


// ─── Merge order ─────────────────────────────────────────────────

/// The files of the first context of worker `id`, if there is one.
pub open spec fn ctx_files(ctx: Seq<(String, BatchTaskContext)>, id: Seq<char>) -> Option<Seq<Seq<char>>>
    decreases ctx.len(),
{
    if ctx.len() == 0 {
        None
    } else if ctx[0].0@ == id {
        Some(crate::text::views(ctx[0].1.files_modified@))
    } else {
        ctx_files(ctx.drop_first(), id)
    }
}

/// How many entries of `files` occur in `mine`.
pub open spec fn shared_count(files: Seq<Seq<char>>, mine: Seq<Seq<char>>) -> nat
    decreases files.len(),
{
    if files.len() == 0 {
        0
    } else {
        shared_count(files.drop_last(), mine) + if mine.contains(files.last()) { 1nat } else { 0nat }
    }
}

/// The overlap of worker `ids[i]` with the workers among the first `j`
/// that have another identifier: how many of their files it also modified.
pub open spec fn overlap_upto(ids: Seq<Seq<char>>, ctx: Seq<(String, BatchTaskContext)>, i: int, j: int) -> nat
    decreases j,
{
    if j <= 0 {
        0
    } else {
        let rest = overlap_upto(ids, ctx, i, j - 1);
        let mine = match ctx_files(ctx, ids[i]) {
            Some(f) => f,
            None => Seq::empty(),
        };
        if ids[j - 1] != ids[i] && ctx_files(ctx, ids[j - 1]) is Some {
            rest + shared_count(ctx_files(ctx, ids[j - 1])->0, mine)
        } else {
            rest
        }
    }
}

/// The overlap score of worker `ids[i]`.
pub open spec fn overlap_score(ids: Seq<Seq<char>>, ctx: Seq<(String, BatchTaskContext)>, i: int) -> nat {
    overlap_upto(ids, ctx, i, ids.len() as int)
}

/// `order` lists every position below `n` once, by increasing score and,
/// among equal scores, by position.
pub open spec fn sorted_order(order: Seq<usize>, scores: Seq<nat>, n: nat) -> bool {
    &&& order.len() == n
    &&& forall|a: int| 0 <= a < n ==> (#[trigger] order[a]) < n
    &&& forall|a: int, b: int| #![trigger order[a], order[b]] 0 <= a < b < n ==> {
        let (x, y) = (order[a] as int, order[b] as int);
        scores[x] < scores[y] || (scores[x] == scores[y] && x < y)
    }
}

fn lookup_files<'a>(ctx: &'a [(String, BatchTaskContext)], id: &str) -> (r: Option<&'a Vec<String>>)
    ensures
        match r {
            Some(f) => ctx_files(ctx@, id@) == Some(crate::text::views(f@)),
            None => ctx_files(ctx@, id@) is None,
        },
{
    let mut k: usize = 0;
    assert(ctx@.skip(0) =~= ctx@);
    while k < ctx.len()
        invariant
            k <= ctx.len(),
            ctx_files(ctx@, id@) == ctx_files(ctx@.skip(k as int), id@),
        decreases ctx.len() - k,
    {
        proof {
            assert(ctx@.skip(k as int).drop_first() =~= ctx@.skip(k + 1));
        }
        if str_eq(ctx[k].0.as_str(), id) {
            return Some(&ctx[k].1.files_modified);
        }
        k = k + 1;
    }
    None
}

fn contains_string(v: &Vec<String>, s: &String) -> (r: bool)
    ensures
        r == crate::text::views(v@).contains(s@),
{
    let mut k: usize = 0;
    while k < v.len()
        invariant
            k <= v.len(),
            forall|m: int| 0 <= m < k ==> v@[m]@ != s@,
        decreases v.len() - k,
    {
        if str_eq(v[k].as_str(), s.as_str()) {
            assert(crate::text::views(v@)[k as int] == s@);
            return true;
        }
        k = k + 1;
    }
    proof {
        if crate::text::views(v@).contains(s@) {
            let m = choose|m: int| 0 <= m < v@.len() && crate::text::views(v@)[m] == s@;
            assert(v@[m]@ == s@);
        }
    }
    false
}

fn count_shared(files: &Vec<String>, mine: &Vec<String>) -> (r: usize)
    ensures
        r == shared_count(crate::text::views(files@), crate::text::views(mine@)),
        r <= files.len(),
{
    let mut c: usize = 0;
    let mut k: usize = 0;
    while k < files.len()
        invariant
            k <= files.len(),
            c <= k,
            c == shared_count(crate::text::views(files@).take(k as int), crate::text::views(mine@)),
        decreases files.len() - k,
    {
        proof {
            assert(crate::text::views(files@).take(k + 1).drop_last() =~= crate::text::views(files@).take(k as int));
        }
        if contains_string(mine, &files[k]) {
            c = c + 1;
        }
        k = k + 1;
    }
    assert(crate::text::views(files@).take(files.len() as int) =~= crate::text::views(files@));
    c
}

/// The order in which worker branches are merged: by increasing overlap of
/// modified files with the other workers, ties kept in the given order, so
/// that the least entangled branches go in first.
pub fn merge_order(worker_ids: &[String], ctx: &[(String, BatchTaskContext)]) -> (r: Vec<usize>)
    requires
        forall|k: int| 0 <= k < ctx.len() ==> (#[trigger] ctx[k]).1.files_modified.len() * worker_ids.len() <= usize::MAX,
    ensures
        sorted_order(r@, Seq::new(worker_ids.len() as nat, |i: int| overlap_score(crate::text::views(worker_ids@), ctx@, i)), worker_ids.len() as nat),
{
    let n = worker_ids.len();
    let ghost ids = crate::text::views(worker_ids@);
    let mut scores: Vec<usize> = Vec::new();
    let mut i: usize = 0;
    while i < n
        invariant
            i <= n,
            n == worker_ids.len(),
            ids == crate::text::views(worker_ids@),
            forall|k: int| 0 <= k < ctx.len() ==> (#[trigger] ctx[k]).1.files_modified.len() * n <= usize::MAX,
            scores.len() == i,
            forall|a: int| 0 <= a < i ==> #[trigger] scores@[a] == overlap_score(ids, ctx@, a),
        decreases n - i,
    {
        let empty: Vec<String> = Vec::new();
        let mine: &Vec<String> = match lookup_files(ctx, worker_ids[i].as_str()) {
            Some(f) => f,
            None => &empty,
        };
        let mut score: usize = 0;
        let mut j: usize = 0;
        let ghost mine_v = match ctx_files(ctx@, ids[i as int]) {
            Some(f) => f,
            None => Seq::empty(),
        };
        assert(crate::text::views(mine@) =~= mine_v);
        while j < n
            invariant
                j <= n,
                i < n,
                n == worker_ids.len(),
                ids == crate::text::views(worker_ids@),
                crate::text::views(mine@) == mine_v,
                mine_v == match ctx_files(ctx@, ids[i as int]) {
                    Some(f) => f,
                    None => Seq::empty(),
                },
                forall|k: int| 0 <= k < ctx.len() ==> (#[trigger] ctx[k]).1.files_modified.len() * n <= usize::MAX,
                score == overlap_upto(ids, ctx@, i as int, j as int),
                score <= j * max_files(ctx@),
            decreases n - j,
        {
            if !str_eq(worker_ids[j].as_str(), worker_ids[i].as_str()) {
                match lookup_files(ctx, worker_ids[j].as_str()) {
                    Some(f) => {
                        let c = count_shared(f, mine);
                        proof {
                            lemma_max_files(ctx@, worker_ids@[j as int]@);
                            assert(c <= max_files(ctx@));
                            assert(score + c <= (j + 1) * max_files(ctx@)) by (nonlinear_arith)
                                requires score <= j * max_files(ctx@), c <= max_files(ctx@);
                            lemma_budget(ctx@, n as nat, (j + 1) as nat);
                        }
                        score = score + c;
                    },
                    None => {
                        proof {
                            assert(score <= (j + 1) * max_files(ctx@)) by (nonlinear_arith)
                                requires score <= j * max_files(ctx@);
                        }
                    },
                }
            } else {
                proof {
                    assert(score <= (j + 1) * max_files(ctx@)) by (nonlinear_arith)
                        requires score <= j * max_files(ctx@);
                }
            }
            j = j + 1;
        }
        scores.push(score);
        i = i + 1;
    }
    // stable insertion sort of positions by score
    let mut order: Vec<usize> = Vec::new();
    let mut k: usize = 0;
    let ghost sv = Seq::new(n as nat, |a: int| overlap_score(ids, ctx@, a));
    while k < n
        invariant
            k <= n,
            n == scores.len(),
            forall|a: int| 0 <= a < n ==> #[trigger] scores@[a] == sv[a],
            sv.len() == n,
            sorted_order(order@, sv, k as nat),
            forall|a: int| 0 <= a < order.len() ==> #[trigger] order@[a] < k,
            order@.no_duplicates(),
        decreases n - k,
    {
        // position: after every entry with score <= scores[k]
        let mut p: usize = order.len();
        while p > 0 && scores[order[p - 1]] > scores[k]
            invariant
                p <= order.len(),
                order.len() == k,
                k < n,
                n == scores.len(),
                forall|a: int| 0 <= a < order.len() ==> #[trigger] order@[a] < k,
                forall|a: int| p <= a < order.len() ==> scores@[order@[a] as int] > scores@[k as int],
            decreases p,
        {
            p = p - 1;
        }
        let ghost before = order@;
        order.insert(p, k);
        proof {
            assert forall|a: int, b: int| #![trigger order@[a], order@[b]] 0 <= a < b < k + 1 implies ({
                let (x, y) = (order@[a] as int, order@[b] as int);
                sv[x] < sv[y] || (sv[x] == sv[y] && x < y)
            }) by {
                if a < p && b < p {
                    assert(order@[a] == before[a] && order@[b] == before[b]);
                } else if a < p && b == p {
                    assert(order@[a] == before[a]);
                    assert(before[a] < k);
                    assert(scores@[before[a] as int] <= scores@[k as int]) by {
                        if p > 0 {
                            assert(scores@[before[p - 1] as int] <= scores@[k as int]);
                            if a < p - 1 {
                                assert(sv[before[a] as int] <= sv[before[p - 1] as int]);
                            }
                        }
                    }
                } else if a < p && b > p {
                    assert(order@[a] == before[a] && order@[b] == before[b - 1]);
                } else if a == p {
                    assert(order@[b] == before[b - 1]);
                    assert(scores@[before[b - 1] as int] > scores@[k as int]);
                } else {
                    assert(order@[a] == before[a - 1] && order@[b] == before[b - 1]);
                }
            }
            assert forall|a: int| 0 <= a < order.len() implies #[trigger] order@[a] < k + 1 by {
                if a < p {
                    assert(order@[a] == before[a]);
                } else if a > p {
                    assert(order@[a] == before[a - 1]);
                }
            }
            assert(order@.no_duplicates()) by {
                assert forall|a: int, b: int| 0 <= a < b < order.len() implies order@[a] != order@[b] by {
                    if a < p && b < p {
                        assert(order@[a] == before[a] && order@[b] == before[b]);
                    } else if a < p && b == p {
                        assert(order@[a] == before[a]);
                    } else if a < p {
                        assert(order@[a] == before[a] && order@[b] == before[b - 1]);
                    } else if a == p {
                        assert(order@[b] == before[b - 1]);
                    } else {
                        assert(order@[a] == before[a - 1] && order@[b] == before[b - 1]);
                    }
                }
            }
        }
        k = k + 1;
    }
    order
}

/// The largest number of files in one context.
pub open spec fn max_files(ctx: Seq<(String, BatchTaskContext)>) -> nat
    decreases ctx.len(),
{
    if ctx.len() == 0 {
        0
    } else {
        let rest = max_files(ctx.drop_first());
        let here = ctx[0].1.files_modified@.len();
        if here > rest { here } else { rest }
    }
}

proof fn lemma_max_files(ctx: Seq<(String, BatchTaskContext)>, id: Seq<char>)
    ensures
        ctx_files(ctx, id) matches Some(f) ==> f.len() <= max_files(ctx),
        forall|k: int| 0 <= k < ctx.len() ==> (#[trigger] ctx[k]).1.files_modified@.len() <= max_files(ctx),
        ctx.len() == 0 ==> max_files(ctx) == 0,
        ctx.len() > 0 ==> exists|k: int| 0 <= k < ctx.len() && (#[trigger] ctx[k]).1.files_modified@.len() == max_files(ctx),
    decreases ctx.len(),
{
    if ctx.len() > 0 {
        lemma_max_files(ctx.drop_first(), id);
        assert forall|k: int| 0 <= k < ctx.len() implies (#[trigger] ctx[k]).1.files_modified@.len() <= max_files(ctx) by {
            if k > 0 {
                assert(ctx[k] == ctx.drop_first()[k - 1]);
            }
        }
        if ctx.len() > 1 && max_files(ctx.drop_first()) >= ctx[0].1.files_modified@.len() {
            let k = choose|k: int| 0 <= k < ctx.len() - 1 && (#[trigger] ctx.drop_first()[k]).1.files_modified@.len() == max_files(ctx.drop_first());
            assert(ctx[k + 1] == ctx.drop_first()[k]);
        }
    }
}

proof fn lemma_budget(ctx: Seq<(String, BatchTaskContext)>, n: nat, j: nat)
    requires
        j <= n,
        forall|k: int| 0 <= k < ctx.len() ==> (#[trigger] ctx[k]).1.files_modified.len() * n <= usize::MAX,
    ensures
        j * max_files(ctx) <= usize::MAX,
{
    lemma_max_files(ctx, Seq::empty());
    if ctx.len() > 0 {
        let k = choose|k: int| 0 <= k < ctx.len() && (#[trigger] ctx[k]).1.files_modified@.len() == max_files(ctx);
        let m = max_files(ctx);
        assert(ctx[k].1.files_modified@.len() == m);
        assert(m * n <= usize::MAX);
        assert(j * m <= usize::MAX) by (nonlinear_arith)
            requires j <= n, m * n <= usize::MAX;
    }
}

} // verus!
