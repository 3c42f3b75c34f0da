//! Dependency graph analysis of task lists: cycle detection and plan
//! validation.
//!
//! Tasks name their dependencies by `task.index`; positions in the slice are
//! used internally, so lists with non-contiguous indices are handled.
use crate::state::{PlanValidation, Task, ValidationIssue, ValidationSeverity};
use crate::text::{decimal, join, join_strings, push_decimal, push_str, views};
use vstd::prelude::*;

verus! {

// ─── Graph model ─────────────────────────────────────────────────

/// Position of the last task among the first `n` whose `index` is `idx`, or -1.
pub open spec fn last_pos(tasks: Seq<Task>, idx: usize, n: int) -> int
    decreases n,
{
    if n <= 0 {
        -1
    } else if tasks[n - 1].index == idx {
        n - 1
    } else {
        last_pos(tasks, idx, n - 1)
    }
}

/// Position that a dependency on task index `idx` refers to (the last task
/// carrying that index), or -1 when no task carries it.
pub open spec fn pos_of(tasks: Seq<Task>, idx: usize) -> int {
    last_pos(tasks, idx, tasks.len() as int)
}

/// Task at position `a` is a dependency of the task at position `b`.
pub open spec fn dep_edge(tasks: Seq<Task>, a: int, b: int) -> bool {
    &&& 0 <= a < tasks.len()
    &&& 0 <= b < tasks.len()
    &&& exists|j: int|
        0 <= j < tasks[b].dependencies.len() && pos_of(tasks, #[trigger] tasks[b].dependencies@[j])
            == a
}

/// `p` is a walk along dependency edges (from a dependency to its dependents).
pub open spec fn is_dep_path(tasks: Seq<Task>, p: Seq<int>) -> bool {
    &&& p.len() >= 1
    &&& forall|k: int| 0 <= k < p.len() ==> 0 <= #[trigger] p[k] < tasks.len()
    &&& forall|k: int| 0 <= k < p.len() - 1 ==> dep_edge(tasks, #[trigger] p[k], p[k + 1])
}

/// The task at position `v` lies on a dependency cycle.
pub open spec fn on_cycle(tasks: Seq<Task>, v: int) -> bool {
    exists|p: Seq<int>| #[trigger]
        is_dep_path(tasks, p) && p.len() >= 2 && p[0] == v && p[p.len() - 1] == v
}

proof fn lemma_last_pos_range(tasks: Seq<Task>, idx: usize, n: int)
    requires
        0 <= n <= tasks.len(),
    ensures
        -1 <= last_pos(tasks, idx, n) < n,
        last_pos(tasks, idx, n) >= 0 ==> tasks[last_pos(tasks, idx, n)].index == idx,
    decreases n,
{
    if n > 0 {
        lemma_last_pos_range(tasks, idx, n - 1);
    }
}

/// Position in `tasks` that a dependency on index `idx` refers to.
fn position_of(tasks: &[Task], idx: usize) -> (r: Option<usize>)
    ensures
        match r {
            Some(p) => p == pos_of(tasks@, idx) && p < tasks.len(),
            None => pos_of(tasks@, idx) == -1,
        },
{
    let mut n = tasks.len();
    while n > 0
        invariant
            n <= tasks.len(),
            pos_of(tasks@, idx) == last_pos(tasks@, idx, n as int),
        decreases n,
    {
        if tasks[n - 1].index == idx {
            return Some(n - 1);
        }
        n = n - 1;
    }
    None
}

/// Edges into `b` contributed by the first `j` dependencies of task `b`.
spec fn partial_edge(tasks: Seq<Task>, a: int, b: int, j: int) -> bool {
    0 <= a && exists|k: int|
        0 <= k < j && k < tasks[b].dependencies.len() && pos_of(
            tasks,
            #[trigger] tasks[b].dependencies@[k],
        ) == a
}

/// For every position, the positions of the tasks that depend on it, in the
/// order of the dependency lists.
fn build_dependents(tasks: &[Task]) -> (adj: Vec<Vec<usize>>)
    ensures
        adj.len() == tasks.len(),
        forall|a: int, b: usize|
            0 <= a < tasks.len() ==> (#[trigger] adj[a]@.contains(b) <==> dep_edge(tasks@, a, b as int)),
        forall|a: int, k: int|
            0 <= a < tasks.len() && 0 <= k < adj[a].len() ==> #[trigger] adj[a]@[k] < tasks.len(),
{
    let n = tasks.len();
    let mut adj: Vec<Vec<usize>> = Vec::new();
    let mut i: usize = 0;
    while i < n
        invariant
            i <= n,
            n == tasks.len(),
            adj.len() == i,
            forall|a: int| 0 <= a < i ==> (#[trigger] adj[a]).len() == 0,
        decreases n - i,
    {
        adj.push(Vec::new());
        i = i + 1;
    }
    let mut pos: usize = 0;
    while pos < n
        invariant
            pos <= n,
            n == tasks.len(),
            adj.len() == n,
            forall|a: int, b: usize|
                0 <= a < n ==> (#[trigger] adj[a]@.contains(b) <==> (b < pos && dep_edge(tasks@, a, b as int))),
            forall|a: int, k: int|
                0 <= a < n && 0 <= k < adj[a].len() ==> #[trigger] adj[a]@[k] < pos,
        decreases n - pos,
    {
        let deps = &tasks[pos].dependencies;
        let mut j: usize = 0;
        while j < deps.len()
            invariant
                pos < n,
                n == tasks.len(),
                j <= deps.len(),
                deps@ == tasks@[pos as int].dependencies@,
                adj.len() == n,
                forall|a: int, b: usize|
                    0 <= a < n ==> (#[trigger] adj[a]@.contains(b) <==> ((b < pos && dep_edge(tasks@, a, b as int))
                        || (b == pos && partial_edge(tasks@, a, b as int, j as int)))),
                forall|a: int, k: int|
                    0 <= a < n && 0 <= k < adj[a].len() ==> #[trigger] adj[a]@[k] <= pos,
            decreases deps.len() - j,
        {
            let dep = deps[j];
            match position_of(tasks, dep) {
                Some(dp) => {
                    let ghost old_adj = adj@;
                    let mut row = adj[dp].clone();
                    assert(row@ =~= old_adj[dp as int]@);
                    row.push(pos);
                    adj.set(dp, row);
                    assert forall|a: int, b: usize| 0 <= a < n implies (#[trigger] adj[a]@.contains(b)
                        <==> ((b < pos && dep_edge(tasks@, a, b as int)) || (b == pos
                        && partial_edge(tasks@, a, b as int, j + 1)))) by {
                        if a == dp {
                            assert(adj[a]@ == old_adj[a]@.push(pos));
                            if b == pos {
                                assert(adj[a]@[adj[a].len() - 1] == pos);
                                assert(tasks@[pos as int].dependencies@[j as int] == dep);
                            }
                            if adj[a]@.contains(b) && b != pos {
                                let k = choose|k: int| 0 <= k < adj[a]@.len() && adj[a]@[k] == b;
                                assert(old_adj[a]@[k] == b);
                            }
                            if old_adj[a]@.contains(b) {
                                let k = choose|k: int| 0 <= k < old_adj[a]@.len() && old_adj[a]@[k] == b;
                                assert(adj[a]@[k] == b);
                            }
                        } else {
                            assert(adj[a] == old_adj[a]);
                        }
                        if b == pos && partial_edge(tasks@, a, b as int, j + 1) && !partial_edge(tasks@, a, b as int, j as int) {
                            assert(pos_of(tasks@, tasks@[pos as int].dependencies@[j as int]) == a);
                        }
                    }
                },
                None => {
                    assert forall|a: int, b: int|
                        0 <= a < n && b == pos && partial_edge(tasks@, a, b, j + 1) implies partial_edge(
                        tasks@,
                        a,
                        b,
                        j as int,
                    ) by {
                        let k = choose|k: int|
                            0 <= k < j + 1 && k < tasks@[b].dependencies.len() && pos_of(
                                tasks@,
                                #[trigger] tasks@[b].dependencies@[k],
                            ) == a;
                        if k == j {
                            assert(pos_of(tasks@, dep) == -1);
                        }
                    }
                },
            }
            j = j + 1;
        }
        assert forall|a: int, b: int| 0 <= a < n && b == pos implies (partial_edge(tasks@, a, b, deps.len() as int)
            <==> dep_edge(tasks@, a, b)) by {
            if dep_edge(tasks@, a, b) {
                let k = choose|k: int|
                    0 <= k < tasks@[b].dependencies.len() && pos_of(
                        tasks@,
                        #[trigger] tasks@[b].dependencies@[k],
                    ) == a;
                assert(partial_edge(tasks@, a, b, deps.len() as int));
            }
        }
        pos = pos + 1;
    }
    adj
}

// ─── Counting ────────────────────────────────────────────────────

/// Number of `true` entries.
pub open spec fn count_true(s: Seq<bool>) -> nat
    decreases s.len(),
{
    if s.len() == 0 {
        0
    } else {
        count_true(s.drop_last()) + if s.last() {
            1nat
        } else {
            0nat
        }
    }
}

proof fn lemma_count_true_bound(s: Seq<bool>)
    ensures
        count_true(s) <= s.len(),
    decreases s.len(),
{
    if s.len() > 0 {
        lemma_count_true_bound(s.drop_last());
    }
}

proof fn lemma_count_true_set(s: Seq<bool>, i: int)
    requires
        0 <= i < s.len(),
        !s[i],
    ensures
        count_true(s.update(i, true)) == count_true(s) + 1,
    decreases s.len(),
{
    let t = s.update(i, true);
    if i == s.len() - 1 {
        assert(t.drop_last() =~= s.drop_last());
    } else {
        assert(t.drop_last() =~= s.drop_last().update(i, true));
        lemma_count_true_set(s.drop_last(), i);
    }
}

// ─── Cycle detection ─────────────────────────────────────────────

/// The groups of positions as sequences.
pub open spec fn groups_view(groups: Seq<Vec<usize>>) -> Seq<Seq<usize>> {
    groups.map_values(|g: Vec<usize>| g@)
}

/// All positions of all groups, in order.
pub open spec fn all_members(groups: Seq<Vec<usize>>) -> Seq<usize> {
    groups_view(groups).flatten()
}

proof fn lemma_seq_contains_concat(a: Seq<usize>, b: Seq<usize>, x: usize)
    ensures
        (a + b).contains(x) <==> a.contains(x) || b.contains(x),
{
    if (a + b).contains(x) {
        let k = choose|k: int| 0 <= k < (a + b).len() && (a + b)[k] == x;
        if k < a.len() {
            assert(a[k] == x);
        } else {
            assert(b[k - a.len()] == x);
        }
    }
    if a.contains(x) {
        let k = choose|k: int| 0 <= k < a.len() && a[k] == x;
        assert((a + b)[k] == x);
    }
    if b.contains(x) {
        let k = choose|k: int| 0 <= k < b.len() && b[k] == x;
        assert((a + b)[a.len() + k] == x);
    }
}

/// The task at position `b` can be reached from position `a` along
/// dependency edges (every position reaches itself).
pub open spec fn reaches(tasks: Seq<Task>, a: int, b: int) -> bool {
    exists|p: Seq<int>| #[trigger] is_dep_path(tasks, p) && p[0] == a && p[p.len() - 1] == b
}

/// Positions `a` and `b` lie on one dependency cycle: `a` is on a cycle
/// and each reaches the other.
pub open spec fn same_cycle(tasks: Seq<Task>, a: int, b: int) -> bool {
    on_cycle(tasks, a) && reaches(tasks, a, b) && reaches(tasks, b, a)
}

/// Position `s` is the first position of its cycle.
pub open spec fn leads_cycle(tasks: Seq<Task>, s: int) -> bool {
    on_cycle(tasks, s) && forall|u: int| 0 <= u < s ==> !#[trigger] same_cycle(tasks, s, u)
}

/// The positions below `v` on the cycle of `s`, in increasing order.
pub open spec fn cycle_members_upto(tasks: Seq<Task>, s: int, v: int) -> Seq<usize>
    decreases v,
{
    if v <= 0 {
        Seq::empty()
    } else {
        cycle_members_upto(tasks, s, v - 1) + if same_cycle(tasks, s, v - 1) { seq![(v - 1) as usize] } else { Seq::empty() }
    }
}

/// The cycles whose first position is below `s`, in order of that
/// position, each as its positions in increasing order.
pub open spec fn cycle_groups_upto(tasks: Seq<Task>, s: int) -> Seq<Seq<usize>>
    decreases s,
{
    if s <= 0 {
        Seq::empty()
    } else {
        cycle_groups_upto(tasks, s - 1) + if leads_cycle(tasks, s - 1) {
            seq![cycle_members_upto(tasks, s - 1, tasks.len() as int)]
        } else {
            Seq::empty()
        }
    }
}

/// The dependency cycles of `tasks`: one group per cycle (the positions
/// that all reach one another), ordered by their first position.
pub open spec fn cycle_groups(tasks: Seq<Task>) -> Seq<Seq<usize>> {
    cycle_groups_upto(tasks, tasks.len() as int)
}

proof fn lemma_path_extend(tasks: Seq<Task>, p: Seq<int>, w: int)
    requires
        is_dep_path(tasks, p),
        dep_edge(tasks, p[p.len() - 1], w),
    ensures
        is_dep_path(tasks, p.push(w)),
{
    let q = p.push(w);
    assert forall|k: int| 0 <= k < q.len() - 1 implies dep_edge(tasks, #[trigger] q[k], q[k + 1]) by {
        if k < p.len() - 1 {
            assert(q[k] == p[k] && q[k + 1] == p[k + 1]);
        }
    }
}

proof fn lemma_path_concat(tasks: Seq<Task>, p: Seq<int>, q: Seq<int>)
    requires
        is_dep_path(tasks, p),
        is_dep_path(tasks, q),
        p[p.len() - 1] == q[0],
    ensures
        is_dep_path(tasks, p + q.skip(1)),
        (p + q.skip(1))[0] == p[0],
        (p + q.skip(1))[(p + q.skip(1)).len() - 1] == q[q.len() - 1],
        (p + q.skip(1)).len() == p.len() + q.len() - 1,
{
    let r = p + q.skip(1);
    assert forall|k: int| 0 <= k < r.len() implies 0 <= #[trigger] r[k] < tasks.len() by {
        if k >= p.len() {
            assert(r[k] == q[k - p.len() + 1]);
        }
    }
    assert forall|k: int| 0 <= k < r.len() - 1 implies dep_edge(tasks, #[trigger] r[k], r[k + 1]) by {
        if k < p.len() - 1 {
            assert(r[k] == p[k] && r[k + 1] == p[k + 1]);
        } else if k == p.len() - 1 {
            assert(r[k] == q[0] && r[k + 1] == q[1]);
        } else {
            assert(r[k] == q[k - p.len() + 1] && r[k + 1] == q[k - p.len() + 2]);
        }
    }
    if q.len() > 1 {
        assert(r[r.len() - 1] == q[q.len() - 1]);
    } else {
        assert(r =~= p);
    }
}

/// A position on a cycle has a dependent that reaches back to it, and a
/// position with such a dependent is on a cycle.
proof fn lemma_on_cycle_edge(tasks: Seq<Task>, v: int)
    requires
        on_cycle(tasks, v),
    ensures
        exists|w: int| #[trigger] dep_edge(tasks, v, w) && reaches(tasks, w, v),
{
    let p = choose|p: Seq<int>| #[trigger] is_dep_path(tasks, p) && p.len() >= 2 && p[0] == v && p[p.len() - 1] == v;
    let w = p[1];
    assert(dep_edge(tasks, p[0], p[1]));
    let q = p.skip(1);
    assert forall|k: int| 0 <= k < q.len() - 1 implies dep_edge(tasks, #[trigger] q[k], q[k + 1]) by {
        assert(q[k] == p[k + 1] && q[k + 1] == p[k + 2]);
    }
    assert(is_dep_path(tasks, q));
    assert(q[q.len() - 1] == v);
}

proof fn lemma_edge_on_cycle(tasks: Seq<Task>, v: int, w: int)
    requires
        dep_edge(tasks, v, w),
        reaches(tasks, w, v),
    ensures
        on_cycle(tasks, v),
{
    let q = choose|q: Seq<int>| #[trigger] is_dep_path(tasks, q) && q[0] == w && q[q.len() - 1] == v;
    let p = seq![v];
    assert(is_dep_path(tasks, p));
    lemma_path_extend(tasks, p, w);
    lemma_path_concat(tasks, p.push(w), q);
}

/// Two positions that reach each other, one on a cycle, are both on it.
proof fn lemma_same_cycle_member(tasks: Seq<Task>, s: int, v: int)
    requires
        same_cycle(tasks, s, v),
    ensures
        on_cycle(tasks, v),
{
    if v != s {
        let p = choose|p: Seq<int>| #[trigger] is_dep_path(tasks, p) && p[0] == v && p[p.len() - 1] == s;
        let q = choose|q: Seq<int>| #[trigger] is_dep_path(tasks, q) && q[0] == s && q[q.len() - 1] == v;
        assert(p.len() >= 2);
        lemma_path_concat(tasks, p, q);
    }
}

/// A position on a cycle has a first position of its cycle at or below it.
proof fn lemma_leader_exists(tasks: Seq<Task>, v: int)
    requires
        0 <= v < tasks.len(),
        on_cycle(tasks, v),
    ensures
        exists|u: int| 0 <= u <= v && #[trigger] leads_cycle(tasks, u),
    decreases v,
{
    if !leads_cycle(tasks, v) {
        let u = choose|u: int| 0 <= u < v && #[trigger] same_cycle(tasks, v, u);
        lemma_same_cycle_member(tasks, v, u);
        lemma_leader_exists(tasks, u);
        let w = choose|w: int| 0 <= w <= u && #[trigger] leads_cycle(tasks, w);
        assert(0 <= w <= v && leads_cycle(tasks, w));
    }
}

proof fn lemma_groups_upto_nonempty(tasks: Seq<Task>, s: int, u: int)
    requires
        0 <= u < s,
        leads_cycle(tasks, u),
    ensures
        cycle_groups_upto(tasks, s).len() > 0,
    decreases s,
{
    if u < s - 1 {
        lemma_groups_upto_nonempty(tasks, s - 1, u);
    }
}

proof fn lemma_groups_upto_members(tasks: Seq<Task>, s: int)
    requires
        s <= tasks.len(),
        tasks.len() <= usize::MAX,
    ensures
        forall|g: int| 0 <= g < cycle_groups_upto(tasks, s).len() ==> (#[trigger] cycle_groups_upto(tasks, s)[g]).len() > 0,
        forall|g: int, m: int| 0 <= g < cycle_groups_upto(tasks, s).len() && 0 <= m < cycle_groups_upto(tasks, s)[g].len()
            ==> (#[trigger] cycle_groups_upto(tasks, s)[g][m]) < tasks.len() && on_cycle(tasks, cycle_groups_upto(tasks, s)[g][m] as int),
        cycle_groups_upto(tasks, s).len() > 0 ==> exists|u: int| 0 <= u < s && #[trigger] leads_cycle(tasks, u),
    decreases s,
{
    if s > 0 {
        lemma_groups_upto_members(tasks, s - 1);
        let before = cycle_groups_upto(tasks, s - 1);
        if leads_cycle(tasks, s - 1) {
            let grp = cycle_members_upto(tasks, s - 1, tasks.len() as int);
            lemma_members_upto(tasks, s - 1, tasks.len() as int);
            assert(cycle_groups_upto(tasks, s) =~= before.push(grp));
        } else {
            assert(cycle_groups_upto(tasks, s) =~= before);
        }
    }
}

proof fn lemma_members_upto(tasks: Seq<Task>, s: int, v: int)
    requires
        tasks.len() <= usize::MAX,
        0 <= s,
        v <= tasks.len(),
        on_cycle(tasks, s),
    ensures
        forall|m: int| 0 <= m < cycle_members_upto(tasks, s, v).len()
            ==> (#[trigger] cycle_members_upto(tasks, s, v)[m]) < tasks.len() && on_cycle(tasks, cycle_members_upto(tasks, s, v)[m] as int),
        s < v ==> cycle_members_upto(tasks, s, v).len() > 0,
    decreases v,
{
    if v > 0 {
        lemma_members_upto(tasks, s, v - 1);
        let before = cycle_members_upto(tasks, s, v - 1);
        if same_cycle(tasks, s, v - 1) {
            lemma_same_cycle_member(tasks, s, v - 1);
            let now = cycle_members_upto(tasks, s, v);
            assert(now =~= before.push((v - 1) as usize));
            assert forall|m: int| 0 <= m < now.len() implies (#[trigger] now[m]) < tasks.len() && on_cycle(tasks, now[m] as int) by {
                if m < before.len() {
                    assert(now[m] == before[m]);
                } else {
                    assert(now[m] == (v - 1) as usize);
                }
            }
        } else {
            assert(cycle_members_upto(tasks, s, v) =~= before);
            if s == v - 1 {
                assert(is_dep_path(tasks, seq![s]));
                assert(reaches(tasks, s, s));
            }
        }
    }
}

// ─── The cycle groups partition the positions on cycles ──────────

proof fn lemma_reaches_trans(tasks: Seq<Task>, a: int, b: int, c: int)
    requires
        reaches(tasks, a, b),
        reaches(tasks, b, c),
    ensures
        reaches(tasks, a, c),
{
    let p = choose|p: Seq<int>| #[trigger] is_dep_path(tasks, p) && p[0] == a && p[p.len() - 1] == b;
    let q = choose|q: Seq<int>| #[trigger] is_dep_path(tasks, q) && q[0] == b && q[q.len() - 1] == c;
    lemma_path_concat(tasks, p, q);
}

proof fn lemma_same_cycle_sym(tasks: Seq<Task>, a: int, b: int)
    requires
        same_cycle(tasks, a, b),
    ensures
        same_cycle(tasks, b, a),
{
    lemma_same_cycle_member(tasks, a, b);
}

proof fn lemma_same_cycle_trans(tasks: Seq<Task>, a: int, b: int, c: int)
    requires
        same_cycle(tasks, a, b),
        same_cycle(tasks, b, c),
    ensures
        same_cycle(tasks, a, c),
{
    lemma_reaches_trans(tasks, a, b, c);
    lemma_reaches_trans(tasks, c, b, a);
}

/// A position on a cycle is on the cycle of a first position at or below it.
proof fn lemma_class_leader(tasks: Seq<Task>, v: int)
    requires
        0 <= v < tasks.len(),
        on_cycle(tasks, v),
    ensures
        exists|s: int| 0 <= s <= v && #[trigger] leads_cycle(tasks, s) && same_cycle(tasks, s, v),
    decreases v,
{
    assert(is_dep_path(tasks, seq![v]));
    assert(reaches(tasks, v, v));
    if leads_cycle(tasks, v) {
        assert(same_cycle(tasks, v, v));
    } else {
        let u = choose|u: int| 0 <= u < v && #[trigger] same_cycle(tasks, v, u);
        lemma_same_cycle_member(tasks, v, u);
        lemma_class_leader(tasks, u);
        let s = choose|s: int| 0 <= s <= u && #[trigger] leads_cycle(tasks, s) && same_cycle(tasks, s, u);
        lemma_same_cycle_sym(tasks, v, u);
        lemma_same_cycle_trans(tasks, s, u, v);
        assert(0 <= s <= v && leads_cycle(tasks, s) && same_cycle(tasks, s, v));
    }
}

/// The positions below `x` that lead a cycle, in increasing order.
pub open spec fn leaders_upto(tasks: Seq<Task>, x: int) -> Seq<int>
    decreases x,
{
    if x <= 0 {
        Seq::empty()
    } else {
        leaders_upto(tasks, x - 1) + if leads_cycle(tasks, x - 1) { seq![x - 1] } else { Seq::empty() }
    }
}

proof fn lemma_groups_leaders(tasks: Seq<Task>, x: int)
    requires
        0 <= x,
    ensures
        cycle_groups_upto(tasks, x).len() == leaders_upto(tasks, x).len(),
        forall|g: int| 0 <= g < leaders_upto(tasks, x).len() ==> {
            &&& 0 <= #[trigger] leaders_upto(tasks, x)[g] < x
            &&& leads_cycle(tasks, leaders_upto(tasks, x)[g])
            &&& cycle_groups_upto(tasks, x)[g] == cycle_members_upto(tasks, leaders_upto(tasks, x)[g], tasks.len() as int)
        },
        forall|g1: int, g2: int| 0 <= g1 < g2 < leaders_upto(tasks, x).len() ==>
            #[trigger] leaders_upto(tasks, x)[g1] < #[trigger] leaders_upto(tasks, x)[g2],
        forall|s: int| 0 <= s < x && #[trigger] leads_cycle(tasks, s) ==> exists|g: int|
            0 <= g < leaders_upto(tasks, x).len() && leaders_upto(tasks, x)[g] == s,
    decreases x,
{
    if x > 0 {
        lemma_groups_leaders(tasks, x - 1);
        let l0 = leaders_upto(tasks, x - 1);
        let g0 = cycle_groups_upto(tasks, x - 1);
        if leads_cycle(tasks, x - 1) {
            assert(leaders_upto(tasks, x) =~= l0.push(x - 1));
            assert(cycle_groups_upto(tasks, x) =~= g0.push(cycle_members_upto(tasks, x - 1, tasks.len() as int)));
            assert forall|s: int| 0 <= s < x && #[trigger] leads_cycle(tasks, s) implies exists|g: int|
                0 <= g < leaders_upto(tasks, x).len() && leaders_upto(tasks, x)[g] == s by {
                if s == x - 1 {
                    assert(leaders_upto(tasks, x)[l0.len() as int] == s);
                } else {
                    let g = choose|g: int| 0 <= g < l0.len() && l0[g] == s;
                    assert(leaders_upto(tasks, x)[g] == s);
                }
            }
        } else {
            assert(leaders_upto(tasks, x) =~= l0);
            assert(cycle_groups_upto(tasks, x) =~= g0);
        }
    }
}

proof fn lemma_members_contains(tasks: Seq<Task>, s: int, y: int, v: int)
    requires
        tasks.len() <= usize::MAX,
        0 <= v < tasks.len(),
        0 <= y <= tasks.len(),
    ensures
        cycle_members_upto(tasks, s, y).contains(v as usize) <==> (v < y && same_cycle(tasks, s, v)),
    decreases y,
{
    if y > 0 {
        lemma_members_contains(tasks, s, y - 1, v);
        let before = cycle_members_upto(tasks, s, y - 1);
        if same_cycle(tasks, s, y - 1) {
            let now = before.push((y - 1) as usize);
            assert(cycle_members_upto(tasks, s, y) =~= now);
            if now.contains(v as usize) && !before.contains(v as usize) {
                let k = choose|k: int| 0 <= k < now.len() && now[k] == v as usize;
                assert(k == before.len());
            }
            if before.contains(v as usize) {
                let k = choose|k: int| 0 <= k < before.len() && before[k] == v as usize;
                assert(now[k] == v as usize);
            }
            if v == y - 1 {
                assert(now[before.len() as int] == v as usize);
            }
        } else {
            assert(cycle_members_upto(tasks, s, y) =~= before);
        }
    } else {
        assert(!cycle_members_upto(tasks, s, y).contains(v as usize));
    }
}

/// The cycle groups partition the positions on dependency cycles: every
/// position on a cycle is in a group, no position is in two groups, and
/// the positions of one group all lie on one cycle.
pub proof fn lemma_cycle_groups_partition(tasks: Seq<Task>)
    requires
        tasks.len() <= usize::MAX,
    ensures
        forall|v: int| 0 <= v < tasks.len() && #[trigger] on_cycle(tasks, v) ==> exists|g: int|
            0 <= g < cycle_groups(tasks).len() && cycle_groups(tasks)[g].contains(v as usize),
        forall|g1: int, g2: int, v: usize| 0 <= g1 < g2 < cycle_groups(tasks).len() ==>
            !(#[trigger] cycle_groups(tasks)[g1].contains(v) && #[trigger] cycle_groups(tasks)[g2].contains(v)),
        forall|g: int, a: usize, b: usize| 0 <= g < cycle_groups(tasks).len() && #[trigger] cycle_groups(tasks)[g].contains(a)
            && #[trigger] cycle_groups(tasks)[g].contains(b) ==> same_cycle(tasks, a as int, b as int),
{
    let n = tasks.len() as int;
    lemma_groups_leaders(tasks, n);
    let ls = leaders_upto(tasks, n);
    let gs = cycle_groups(tasks);
    assert forall|v: int| 0 <= v < tasks.len() && #[trigger] on_cycle(tasks, v) implies exists|g: int|
        0 <= g < gs.len() && gs[g].contains(v as usize) by {
        lemma_class_leader(tasks, v);
        let s = choose|s: int| 0 <= s <= v && #[trigger] leads_cycle(tasks, s) && same_cycle(tasks, s, v);
        let g = choose|g: int| 0 <= g < ls.len() && ls[g] == s;
        lemma_members_contains(tasks, s, n, v);
    }
    assert forall|g1: int, g2: int, v: usize| 0 <= g1 < g2 < gs.len() implies
        !(#[trigger] gs[g1].contains(v) && #[trigger] gs[g2].contains(v)) by {
        if gs[g1].contains(v) && gs[g2].contains(v) {
            let k = choose|k: int| 0 <= k < gs[g1].len() && gs[g1][k] == v;
            lemma_members_upto(tasks, ls[g1], n);
            assert((v as int) < n);
            lemma_members_contains(tasks, ls[g1], n, v as int);
            lemma_members_contains(tasks, ls[g2], n, v as int);
            lemma_same_cycle_sym(tasks, ls[g1], v as int);
            lemma_same_cycle_trans(tasks, ls[g2], v as int, ls[g1]);
            assert(ls[g1] < ls[g2]);
            assert(!same_cycle(tasks, ls[g2], ls[g1]));
        }
    }
    assert forall|g: int, a: usize, b: usize| 0 <= g < gs.len() && #[trigger] gs[g].contains(a)
        && #[trigger] gs[g].contains(b) implies same_cycle(tasks, a as int, b as int) by {
        let ka = choose|k: int| 0 <= k < gs[g].len() && gs[g][k] == a;
        let kb = choose|k: int| 0 <= k < gs[g].len() && gs[g][k] == b;
        lemma_members_upto(tasks, ls[g], n);
        lemma_members_contains(tasks, ls[g], n, a as int);
        lemma_members_contains(tasks, ls[g], n, b as int);
        lemma_same_cycle_sym(tasks, ls[g], a as int);
        lemma_same_cycle_trans(tasks, a as int, ls[g], b as int);
    }
}

/// Everything reachable from `s`.
fn reach_from(tasks: &[Task], adj: &Vec<Vec<usize>>, s: usize) -> (r: Vec<bool>)
    requires
        s < tasks.len(),
        adj.len() == tasks.len(),
        forall|a: int, b: usize| 0 <= a < tasks.len() ==> (#[trigger] adj[a]@.contains(b) <==> dep_edge(tasks@, a, b as int)),
        forall|a: int, k: int| 0 <= a < tasks.len() && 0 <= k < adj[a].len() ==> #[trigger] adj[a]@[k] < tasks.len(),
    ensures
        r.len() == tasks.len(),
        forall|b: int| 0 <= b < tasks.len() ==> (#[trigger] r[b] <==> reaches(tasks@, s as int, b)),
{
    let n = tasks.len();
    let mut visited: Vec<bool> = Vec::new();
    let mut i: usize = 0;
    while i < n
        invariant
            i <= n,
            visited.len() == i,
            forall|a: int| 0 <= a < i ==> !#[trigger] visited[a],
        decreases n - i,
    {
        visited.push(false);
        i = i + 1;
    }
    proof {
        lemma_count_true_set(visited@, s as int);
        assert(is_dep_path(tasks@, seq![s as int]));
        assert(reaches(tasks@, s as int, s as int));
    }
    let ghost unvisited = visited@;
    visited.set(s, true);
    let mut stack: Vec<usize> = Vec::new();
    stack.push(s);
    proof {
        lemma_count_true_bound(visited@);
        assert(stack@[0] == s);
        assert forall|u: int, w: int| 0 <= u < n && visited@[u] && !stack@.contains(u as usize) && #[trigger] dep_edge(tasks@, u, w)
            implies visited@[w] by {
            if u != s as int {
                assert(!unvisited[u]);
            }
        }
        assert forall|b: int| 0 <= b < n && #[trigger] visited@[b] implies reaches(tasks@, s as int, b) by {
            if b != s as int {
                assert(!unvisited[b]);
            }
        }
    }
    while stack.len() > 0
        invariant
            n == tasks.len(),
            s < n,
            visited.len() == n,
            adj.len() == n,
            forall|a: int, b: usize| 0 <= a < n ==> (#[trigger] adj[a]@.contains(b) <==> dep_edge(tasks@, a, b as int)),
            forall|a: int, k: int| 0 <= a < n && 0 <= k < adj[a].len() ==> #[trigger] adj[a]@[k] < n,
            visited@[s as int],
            forall|b: int| 0 <= b < n && #[trigger] visited@[b] ==> reaches(tasks@, s as int, b),
            forall|k: int| 0 <= k < stack.len() ==> #[trigger] stack@[k] < n && visited@[stack@[k] as int],
            forall|u: int, w: int| 0 <= u < n && visited@[u] && !stack@.contains(u as usize) && #[trigger] dep_edge(tasks@, u, w)
                ==> visited@[w],
            count_true(visited@) <= n,
        decreases n - count_true(visited@), stack.len(),
    {
        let ghost old_stack = stack@;
        let u = stack.pop().unwrap();
        let ghost popped = stack@;
        proof {
            assert(old_stack == popped.push(u));
            assert(u < n && visited@[u as int]);
        }
        let row = &adj[u];
        let ghost before_visited = visited@;
        let mut k: usize = 0;
        while k < row.len()
            invariant
                n == tasks.len(),
                u < n,
                row@ == adj[u as int]@,
                k <= row.len(),
                visited.len() == n,
                adj.len() == n,
                forall|a: int, k2: int| 0 <= a < n && 0 <= k2 < adj[a].len() ==> #[trigger] adj[a]@[k2] < n,
                forall|a: int, b: usize| 0 <= a < n ==> (#[trigger] adj[a]@.contains(b) <==> dep_edge(tasks@, a, b as int)),
                visited@[s as int],
                visited@[u as int],
                reaches(tasks@, s as int, u as int),
                forall|b: int| 0 <= b < n && #[trigger] visited@[b] ==> reaches(tasks@, s as int, b),
                forall|q: int| 0 <= q < stack.len() ==> #[trigger] stack@[q] < n && visited@[stack@[q] as int],
                stack@.len() >= popped.len(),
                forall|q: int| 0 <= q < popped.len() ==> #[trigger] stack@[q] == popped[q],
                forall|b: int| 0 <= b < n && #[trigger] visited@[b] && !before_visited[b] ==> stack@.contains(b as usize),
                forall|b: int| 0 <= b < n && #[trigger] before_visited[b] ==> visited@[b],
                forall|j: int| 0 <= j < k ==> visited@[#[trigger] row@[j] as int],
                count_true(visited@) <= n,
                stack@.len() - popped.len() <= count_true(visited@) - count_true(before_visited),
            decreases row.len() - k,
        {
            let w = row[k];
            proof {
                assert(adj[u as int]@.contains(w));
                assert(dep_edge(tasks@, u as int, w as int));
            }
            if !visited[w] {
                proof {
                    let p = choose|p: Seq<int>| #[trigger] is_dep_path(tasks@, p) && p[0] == s as int && p[p.len() - 1] == u as int;
                    lemma_path_extend(tasks@, p, w as int);
                    assert(p.push(w as int)[0] == s as int);
                    assert(reaches(tasks@, s as int, w as int));
                    lemma_count_true_set(visited@, w as int);
                    lemma_count_true_bound(visited@.update(w as int, true));
                }
                let ghost vb = visited@;
                visited.set(w, true);
                let ghost sb = stack@;
                stack.push(w);
                proof {
                    assert(stack@[stack@.len() - 1] == w);
                    assert forall|b: int| 0 <= b < n && #[trigger] visited@[b] && !before_visited[b] implies stack@.contains(b as usize) by {
                        if b != w as int {
                            assert(vb[b]);
                            let q = choose|q: int| 0 <= q < sb.len() && sb[q] == b as usize;
                            assert(stack@[q] == b as usize);
                        }
                    }
                }
            }
            k = k + 1;
        }
        proof {
            assert forall|u2: int, w: int| 0 <= u2 < n && visited@[u2] && !stack@.contains(u2 as usize) && #[trigger] dep_edge(tasks@, u2, w)
                implies visited@[w] by {
                if u2 == u as int {
                    assert(adj[u as int]@.contains(w as usize));
                    let j = choose|j: int| 0 <= j < row@.len() && row@[j] == w as usize;
                    assert(visited@[row@[j] as int]);
                } else {
                    assert(before_visited[u2]) by {
                        if !before_visited[u2] {
                            assert(stack@.contains(u2 as usize));
                        }
                    };
                    if old_stack.contains(u2 as usize) {
                        let q = choose|q: int| 0 <= q < old_stack.len() && old_stack[q] == u2 as usize;
                        assert(q < popped.len());
                        assert(stack@[q] == u2 as usize);
                    }
                    assert(before_visited[w]);
                }
            }
        }
    }
    proof {
        assert forall|b: int| 0 <= b < n implies (#[trigger] visited@[b] <==> reaches(tasks@, s as int, b)) by {
            if reaches(tasks@, s as int, b) {
                let p = choose|p: Seq<int>| #[trigger] is_dep_path(tasks@, p) && p[0] == s as int && p[p.len() - 1] == b;
                lemma_path_visited(tasks@, visited@, p, p.len() - 1);
            }
        }
    }
    visited
}

proof fn lemma_path_visited(tasks: Seq<Task>, visited: Seq<bool>, p: Seq<int>, k: int)
    requires
        is_dep_path(tasks, p),
        visited.len() == tasks.len(),
        visited[p[0]],
        forall|u: int, w: int| 0 <= u < tasks.len() && visited[u] && #[trigger] dep_edge(tasks, u, w) ==> visited[w],
        0 <= k < p.len(),
    ensures
        visited[p[k]],
    decreases k,
{
    if k > 0 {
        lemma_path_visited(tasks, visited, p, k - 1);
        assert(dep_edge(tasks, p[k - 1], p[k]));
    }
}

/// Detects dependency cycles among `tasks`.
///
/// Dependencies refer to `task.index`; a dependency on an index that no task
/// carries is ignored. Each returned group is one cycle: the array positions
/// of the tasks that all reach one another along dependencies, in increasing
/// order; groups come in the order of their first position. An empty result
/// means the dependencies form a valid DAG.
pub fn detect_dependency_cycles(tasks: &[Task]) -> (cycles: Vec<Vec<usize>>)
    ensures
        groups_view(cycles@) == cycle_groups(tasks@),
        forall|g: int| 0 <= g < cycles.len() ==> (#[trigger] cycles[g]).len() > 0,
        forall|v: usize| #[trigger] all_members(cycles@).contains(v) ==> v < tasks.len() && on_cycle(tasks@, v as int),
        cycles.len() == 0 <==> forall|v: int| 0 <= v < tasks.len() ==> !#[trigger] on_cycle(tasks@, v),
        forall|v: int| 0 <= v < tasks.len() && #[trigger] on_cycle(tasks@, v) ==> exists|g: int|
            0 <= g < cycles.len() && cycles@[g]@.contains(v as usize),
        forall|g1: int, g2: int, v: usize| 0 <= g1 < g2 < cycles.len() ==>
            !(#[trigger] cycles@[g1]@.contains(v) && #[trigger] cycles@[g2]@.contains(v)),
{
    let n = tasks.len();
    let adj = build_dependents(tasks);
    let mut reach: Vec<Vec<bool>> = Vec::new();
    let mut a: usize = 0;
    while a < n
        invariant
            a <= n,
            n == tasks.len(),
            adj.len() == n,
            forall|x: int, b: usize| 0 <= x < n ==> (#[trigger] adj[x]@.contains(b) <==> dep_edge(tasks@, x, b as int)),
            forall|x: int, k: int| 0 <= x < n && 0 <= k < adj[x].len() ==> #[trigger] adj[x]@[k] < n,
            reach.len() == a,
            forall|x: int| 0 <= x < a ==> (#[trigger] reach[x]).len() == n,
            forall|x: int, b: int| 0 <= x < a && 0 <= b < n ==> (#[trigger] reach[x]@[b] <==> reaches(tasks@, x, b)),
        decreases n - a,
    {
        let r = reach_from(tasks, &adj, a);
        reach.push(r);
        a = a + 1;
    }
    let mut oncyc: Vec<bool> = Vec::new();
    let mut v: usize = 0;
    while v < n
        invariant
            v <= n,
            n == tasks.len(),
            adj.len() == n,
            forall|x: int, b: usize| 0 <= x < n ==> (#[trigger] adj[x]@.contains(b) <==> dep_edge(tasks@, x, b as int)),
            forall|x: int, k: int| 0 <= x < n && 0 <= k < adj[x].len() ==> #[trigger] adj[x]@[k] < n,
            reach.len() == n,
            forall|x: int| 0 <= x < n ==> (#[trigger] reach[x]).len() == n,
            forall|x: int, b: int| 0 <= x < n && 0 <= b < n ==> (#[trigger] reach[x]@[b] <==> reaches(tasks@, x, b)),
            oncyc.len() == v,
            forall|x: int| 0 <= x < v ==> (#[trigger] oncyc[x] <==> on_cycle(tasks@, x)),
        decreases n - v,
    {
        let row = &adj[v];
        let mut found = false;
        let mut k: usize = 0;
        while k < row.len()
            invariant
                n == tasks.len(),
                v < n,
                row@ == adj[v as int]@,
                k <= row.len(),
                forall|x: int, k2: int| 0 <= x < n && 0 <= k2 < adj[x].len() ==> #[trigger] adj[x]@[k2] < n,
                forall|x: int, b: usize| 0 <= x < n ==> (#[trigger] adj[x]@.contains(b) <==> dep_edge(tasks@, x, b as int)),
                reach.len() == n,
                forall|x: int| 0 <= x < n ==> (#[trigger] reach[x]).len() == n,
                forall|x: int, b: int| 0 <= x < n && 0 <= b < n ==> (#[trigger] reach[x]@[b] <==> reaches(tasks@, x, b)),
                found ==> on_cycle(tasks@, v as int),
                !found ==> forall|j: int| 0 <= j < k ==> !reaches(tasks@, #[trigger] row@[j] as int, v as int),
            decreases row.len() - k,
        {
            let w = row[k];
            proof {
                assert(adj[v as int]@.contains(w));
            }
            if reach[w][v] {
                proof {
                    lemma_edge_on_cycle(tasks@, v as int, w as int);
                }
                found = true;
            }
            k = k + 1;
        }
        proof {
            if !found && on_cycle(tasks@, v as int) {
                lemma_on_cycle_edge(tasks@, v as int);
                let w = choose|w: int| #[trigger] dep_edge(tasks@, v as int, w) && reaches(tasks@, w, v as int);
                assert(adj[v as int]@.contains(w as usize));
                let j = choose|j: int| 0 <= j < row@.len() && row@[j] == w as usize;
                assert(!reaches(tasks@, row@[j] as int, v as int));
            }
        }
        oncyc.push(found);
        v = v + 1;
    }
    let mut cycles: Vec<Vec<usize>> = Vec::new();
    let mut s: usize = 0;
    while s < n
        invariant
            s <= n,
            n == tasks.len(),
            reach.len() == n,
            forall|x: int| 0 <= x < n ==> (#[trigger] reach[x]).len() == n,
            forall|x: int, b: int| 0 <= x < n && 0 <= b < n ==> (#[trigger] reach[x]@[b] <==> reaches(tasks@, x, b)),
            oncyc.len() == n,
            forall|x: int| 0 <= x < n ==> (#[trigger] oncyc[x] <==> on_cycle(tasks@, x)),
            groups_view(cycles@) == cycle_groups_upto(tasks@, s as int),
        decreases n - s,
    {
        let ghost before = cycles@;
        if oncyc[s] {
            let mut lead = true;
            let mut u: usize = 0;
            while u < s
                invariant
                    u <= s,
                    s < n,
                    n == tasks.len(),
                    reach.len() == n,
                    forall|x: int| 0 <= x < n ==> (#[trigger] reach[x]).len() == n,
                    forall|x: int, b: int| 0 <= x < n && 0 <= b < n ==> (#[trigger] reach[x]@[b] <==> reaches(tasks@, x, b)),
                    on_cycle(tasks@, s as int),
                    lead <==> forall|w: int| 0 <= w < u ==> !#[trigger] same_cycle(tasks@, s as int, w),
                decreases s - u,
            {
                proof {
                    assert(same_cycle(tasks@, s as int, u as int) <==> (reach[s as int]@[u as int] && reach[u as int]@[s as int]));
                }
                if reach[s][u] && reach[u][s] {
                    lead = false;
                }
                u = u + 1;
            }
            if lead {
                let mut grp: Vec<usize> = Vec::new();
                let mut m: usize = 0;
                while m < n
                    invariant
                        m <= n,
                        s < n,
                        n == tasks.len(),
                        reach.len() == n,
                        forall|x: int| 0 <= x < n ==> (#[trigger] reach[x]).len() == n,
                        forall|x: int, b: int| 0 <= x < n && 0 <= b < n ==> (#[trigger] reach[x]@[b] <==> reaches(tasks@, x, b)),
                        on_cycle(tasks@, s as int),
                        grp@ == cycle_members_upto(tasks@, s as int, m as int),
                    decreases n - m,
                {
                    if reach[s][m] && reach[m][s] {
                        grp.push(m);
                    }
                    m = m + 1;
                }
                cycles.push(grp);
                proof {
                    assert(groups_view(cycles@) =~= groups_view(before).push(cycle_members_upto(tasks@, s as int, n as int)));
                }
            } else {
                proof {
                    assert(cycle_groups_upto(tasks@, s + 1) =~= cycle_groups_upto(tasks@, s as int));
                }
            }
        } else {
            proof {
                assert(cycle_groups_upto(tasks@, s + 1) =~= cycle_groups_upto(tasks@, s as int));
            }
        }
        s = s + 1;
    }
    proof {
        lemma_groups_upto_members(tasks@, n as int);
        let gs = cycle_groups(tasks@);
        assert forall|g: int| 0 <= g < cycles.len() implies (#[trigger] cycles[g]).len() > 0 by {
            assert(groups_view(cycles@)[g] == cycles[g]@);
            assert(gs[g].len() > 0);
        }
        assert forall|x: usize| #[trigger] all_members(cycles@).contains(x) implies x < tasks.len() && on_cycle(tasks@, x as int) by {
            lemma_flatten_member(groups_view(cycles@), x);
        }
        if cycles.len() == 0 {
            assert forall|x: int| 0 <= x < n implies !#[trigger] on_cycle(tasks@, x) by {
                if on_cycle(tasks@, x) {
                    lemma_leader_exists(tasks@, x);
                    let u = choose|u: int| 0 <= u <= x && #[trigger] leads_cycle(tasks@, u);
                    lemma_groups_upto_nonempty(tasks@, n as int, u);
                }
            }
        } else {
            assert(groups_view(cycles@).len() > 0);
            let u = choose|u: int| 0 <= u < n && #[trigger] leads_cycle(tasks@, u);
            assert(on_cycle(tasks@, u));
        }
    }
    proof {
        lemma_cycle_groups_partition(tasks@);
        assert forall|g: int| 0 <= g < cycles.len() implies cycles@[g]@ == #[trigger] cycle_groups(tasks@)[g] by {
            assert(groups_view(cycles@)[g] == cycles@[g]@);
        }
        assert forall|g1: int, g2: int, v: usize| 0 <= g1 < g2 < cycles.len() implies
            !(#[trigger] cycles@[g1]@.contains(v) && #[trigger] cycles@[g2]@.contains(v)) by {
            assert(cycles@[g1]@ == cycle_groups(tasks@)[g1]);
            assert(cycles@[g2]@ == cycle_groups(tasks@)[g2]);
        }
    }
    cycles
}

proof fn lemma_flatten_member(gs: Seq<Seq<usize>>, x: usize)
    requires
        gs.flatten().contains(x),
    ensures
        exists|g: int, m: int| 0 <= g < gs.len() && 0 <= m < gs[g].len() && #[trigger] gs[g][m] == x,
    decreases gs.len(),
{
    if gs.len() > 0 {
        assert(gs.flatten() == gs[0] + gs.drop_first().flatten());
        lemma_seq_contains_concat(gs[0], gs.drop_first().flatten(), x);
        if gs[0].contains(x) {
            let m = choose|m: int| 0 <= m < gs[0].len() && gs[0][m] == x;
            assert(gs[0][m] == x);
        } else {
            lemma_flatten_member(gs.drop_first(), x);
            let (g, m) = choose|g: int, m: int| 0 <= g < gs.drop_first().len() && 0 <= m < gs.drop_first()[g].len() && #[trigger] gs.drop_first()[g][m] == x;
            assert(gs[g + 1][m] == x);
        }
    } else {
        assert(gs.flatten() =~= Seq::<usize>::empty());
    }
}

// ─── Plan validation ─────────────────────────────────────────────

/// A validation issue as plain values: severity, message, task indices.
pub type IssueView = (ValidationSeverity, Seq<char>, Option<Seq<usize>>);

/// The plain view of an issue.
pub open spec fn issue_view(i: ValidationIssue) -> IssueView {
    (
        i.severity,
        i.message@,
        match i.task_indices {
            Some(v) => Some(v@),
            None => None,
        },
    )
}

/// The plain views of a list of issues.
pub open spec fn issues_view(v: Seq<ValidationIssue>) -> Seq<IssueView> {
    v.map_values(|i: ValidationIssue| issue_view(i))
}

/// `3 ("Title")`: how a task is named in messages.
pub open spec fn task_label(t: Task) -> Seq<char> {
    decimal(t.index as nat) + " (\""@ + t.title@ + "\")"@
}

/// Some task carries index `idx`.
pub open spec fn index_exists(tasks: Seq<Task>, idx: usize) -> bool {
    exists|p: int| 0 <= p < tasks.len() && #[trigger] tasks[p].index == idx
}

/// Issues raised by one dependency `dep` of task `t`.
pub open spec fn dep_issues(tasks: Seq<Task>, t: Task, dep: usize) -> Seq<IssueView> {
    (if !index_exists(tasks, dep) {
        seq![
            (
                ValidationSeverity::Error,
                "Task "@ + task_label(t) + " references non-existent dependency index "@ + decimal(
                    dep as nat,
                ),
                Some(seq![t.index]),
            ),
        ]
    } else {
        Seq::empty()
    }) + (if dep == t.index {
        seq![(ValidationSeverity::Error, "Task "@ + task_label(t) + " depends on itself"@, Some(seq![t.index]))]
    } else {
        Seq::empty()
    })
}

/// Issues raised by the first `j` dependencies of task `t`.
pub open spec fn task_dep_issues(tasks: Seq<Task>, t: Task, j: int) -> Seq<IssueView>
    decreases j,
{
    if j <= 0 {
        Seq::empty()
    } else {
        task_dep_issues(tasks, t, j - 1) + dep_issues(tasks, t, t.dependencies@[j - 1])
    }
}

/// Dependency issues of the first `k` tasks, in task order.
pub open spec fn dependency_issues(tasks: Seq<Task>, k: int) -> Seq<IssueView>
    decreases k,
{
    if k <= 0 {
        Seq::empty()
    } else {
        dependency_issues(tasks, k - 1) + task_dep_issues(
            tasks,
            tasks[k - 1],
            tasks[k - 1].dependencies.len() as int,
        )
    }
}

/// Labels of the tasks at the given positions.
pub open spec fn group_labels(tasks: Seq<Task>, group: Seq<usize>) -> Seq<Seq<char>> {
    Seq::new(group.len(), |m: int| task_label(tasks[group[m] as int]))
}

/// Indices of the tasks at the given positions.
pub open spec fn group_indices(tasks: Seq<Task>, group: Seq<usize>) -> Seq<usize> {
    Seq::new(group.len(), |m: int| tasks[group[m] as int].index)
}

/// The issue reporting one group of cycle positions.
pub open spec fn cycle_issue(tasks: Seq<Task>, group: Seq<usize>) -> IssueView {
    (
        ValidationSeverity::Error,
        "Dependency cycle detected: "@ + join(group_labels(tasks, group), " → "@),
        Some(group_indices(tasks, group)),
    )
}

/// The issues reporting the cycle groups.
pub open spec fn cycle_issues(tasks: Seq<Task>, groups: Seq<Seq<usize>>) -> Seq<IssueView> {
    groups.map_values(|g: Seq<usize>| cycle_issue(tasks, g))
}

/// Files of `a` (in order, repeats kept) that also occur in `b`.
pub open spec fn shared_files(a: Seq<Seq<char>>, b: Seq<Seq<char>>) -> Seq<Seq<char>> {
    a.filter(|f: Seq<char>| b.contains(f))
}

/// One of the two tasks lists the other among its dependencies.
pub open spec fn dep_linked(a: Task, b: Task) -> bool {
    a.dependencies@.contains(b.index) || b.dependencies@.contains(a.index)
}

/// The warning for the pair of positions `i < j`, if any.
pub open spec fn pair_warning(tasks: Seq<Task>, i: int, j: int) -> Seq<IssueView> {
    let shared = shared_files(views(tasks[i].file_scope@), views(tasks[j].file_scope@));
    if shared.len() > 0 && !dep_linked(tasks[i], tasks[j]) {
        seq![
            (
                ValidationSeverity::Warning,
                "Tasks "@ + task_label(tasks[i]) + " and "@ + task_label(tasks[j]) + " share files ["@
                    + join(shared, ", "@) + "] but have no dependency — merge conflict risk"@,
                Some(seq![tasks[i].index, tasks[j].index]),
            ),
        ]
    } else {
        Seq::empty()
    }
}

/// Warnings for the pairs `(i, j)` with `i < j < end`.
pub open spec fn row_warnings(tasks: Seq<Task>, i: int, end: int) -> Seq<IssueView>
    decreases end - i,
{
    if end <= i + 1 {
        Seq::empty()
    } else {
        row_warnings(tasks, i, end - 1) + pair_warning(tasks, i, end - 1)
    }
}

/// Overlap warnings for all pairs whose first position is below `k`.
pub open spec fn overlap_warnings(tasks: Seq<Task>, k: int) -> Seq<IssueView>
    decreases k,
{
    if k <= 0 {
        Seq::empty()
    } else {
        overlap_warnings(tasks, k - 1) + row_warnings(tasks, k - 1, tasks.len() as int)
    }
}

/// A file is among the shared files of two file lists exactly when it
/// occurs in both, wherever it stands in each.
pub proof fn lemma_shared_files_are_common(a: Seq<Seq<char>>, b: Seq<Seq<char>>, f: Seq<char>)
    ensures
        shared_files(a, b).contains(f) <==> (a.contains(f) && b.contains(f)),
    decreases a.len(),
{
    reveal(Seq::filter);
    if a.len() > 0 {
        let a0 = a.drop_last();
        lemma_shared_files_are_common(a0, b, f);
        let sub = shared_files(a0, b);
        let all = shared_files(a, b);
        if b.contains(a.last()) {
            assert(all == sub.push(a.last()));
        } else {
            assert(all == sub);
        }
        if all.contains(f) {
            let k = choose|k: int| 0 <= k < all.len() && all[k] == f;
            if k < sub.len() {
                assert(sub[k] == f);
                let m = choose|m: int| 0 <= m < a0.len() && a0[m] == f;
                assert(a[m] == f);
            } else {
                assert(f == a.last());
                assert(a[a.len() - 1] == f);
            }
        }
        if a.contains(f) && b.contains(f) {
            let m = choose|m: int| 0 <= m < a.len() && a[m] == f;
            if m < a.len() - 1 {
                assert(a0[m] == f);
                let k = choose|k: int| 0 <= k < sub.len() && sub[k] == f;
                if b.contains(a.last()) {
                    assert(all[k] == f);
                }
            } else {
                assert(all[all.len() - 1] == f);
            }
        }
    }
}

/// Two tasks, neither depending on the other, draw an overlap warning
/// exactly when some file of the first occurs anywhere among the files of
/// the second; tasks linked by a dependency never do.
pub proof fn lemma_overlap_warning_exact(tasks: Seq<Task>, i: int, j: int)
    requires
        0 <= i < j < tasks.len(),
    ensures
        pair_warning(tasks, i, j).len() <= 1,
        pair_warning(tasks, i, j).len() == 1 <==> (
            !(tasks[i].dependencies@.contains(tasks[j].index) || tasks[j].dependencies@.contains(tasks[i].index))
            && exists|f: Seq<char>| views(tasks[i].file_scope@).contains(f) && views(tasks[j].file_scope@).contains(f)
        ),
        pair_warning(tasks, i, j).len() == 1 ==> pair_warning(tasks, i, j)[0].0 == ValidationSeverity::Warning
            && pair_warning(tasks, i, j)[0].2 == Some(seq![tasks[i].index, tasks[j].index]),
{
    let a = views(tasks[i].file_scope@);
    let b = views(tasks[j].file_scope@);
    let sh = shared_files(a, b);
    if exists|f: Seq<char>| a.contains(f) && b.contains(f) {
        let f = choose|f: Seq<char>| a.contains(f) && b.contains(f);
        lemma_shared_files_are_common(a, b, f);
    }
    if sh.len() > 0 {
        assert(sh.contains(sh[0]));
        lemma_shared_files_are_common(a, b, sh[0]);
    }
}

fn push_task_label(out: &mut String, t: &Task)
    ensures
        final(out)@ == old(out)@ + task_label(*t),
{
    push_decimal(out, t.index as u64);
    push_str(out, " (\"");
    push_str(out, t.title.as_str());
    push_str(out, "\")");
    assert(final(out)@ =~= old(out)@ + task_label(*t));
}

fn index_present(tasks: &[Task], idx: usize) -> (r: bool)
    ensures
        r == index_exists(tasks@, idx),
{
    let mut p: usize = 0;
    while p < tasks.len()
        invariant
            p <= tasks.len(),
            forall|q: int| 0 <= q < p ==> #[trigger] tasks@[q].index != idx,
        decreases tasks.len() - p,
    {
        if tasks[p].index == idx {
            return true;
        }
        p = p + 1;
    }
    false
}

fn vec_contains_usize(v: &Vec<usize>, x: usize) -> (r: bool)
    ensures
        r == v@.contains(x),
{
    let mut i: usize = 0;
    while i < v.len()
        invariant
            i <= v.len(),
            forall|q: int| 0 <= q < i ==> v@[q] != x,
        decreases v.len() - i,
    {
        if v[i] == x {
            return true;
        }
        i = i + 1;
    }
    false
}

fn vec_contains_string(v: &Vec<String>, x: &String) -> (r: bool)
    ensures
        r == views(v@).contains(x@),
{
    let mut i: usize = 0;
    while i < v.len()
        invariant
            i <= v.len(),
            forall|q: int| 0 <= q < i ==> v@[q]@ != x@,
        decreases v.len() - i,
    {
        if v[i] == *x {
            assert(views(v@)[i as int] == x@);
            return true;
        }
        i = i + 1;
    }
    proof {
        if views(v@).contains(x@) {
            let q = choose|q: int| 0 <= q < views(v@).len() && views(v@)[q] == x@;
            assert(v@[q]@ == x@);
        }
    }
    false
}

fn error_issue(message: String, index: usize) -> (r: ValidationIssue)
    ensures
        issue_view(r) == (ValidationSeverity::Error, message@, Some(seq![index])),
{
    let mut v = Vec::new();
    v.push(index);
    assert(v@ =~= seq![index]);
    ValidationIssue { severity: ValidationSeverity::Error, message, task_indices: Some(v) }
}

fn shared_file_list(a: &Vec<String>, b: &Vec<String>) -> (r: Vec<String>)
    ensures
        views(r@) == shared_files(views(a@), views(b@)),
{
    let mut out: Vec<String> = Vec::new();
    let mut i: usize = 0;
    while i < a.len()
        invariant
            i <= a.len(),
            views(out@) == shared_files(views(a@.take(i as int)), views(b@)),
        decreases a.len() - i,
    {
        let ghost before = views(a@.take(i as int));
        let keep = vec_contains_string(b, &a[i]);
        if keep {
            out.push(a[i].clone());
        }
        proof {
            let after = views(a@.take(i + 1));
            assert(after =~= before.push(a@[i as int]@));
            before.lemma_filter_push(a@[i as int]@, |f: Seq<char>| views(b@).contains(f));
            assert(views(out@) =~= shared_files(after, views(b@)));
        }
        i = i + 1;
    }
    assert(a@.take(a.len() as int) =~= a@);
    out
}

/// Validates a plan before execution.
///
/// Reports, in this order: dependencies on indices that no task carries and
/// tasks that depend on themselves (errors), dependency cycles (errors), and
/// pairs of tasks that share files without a dependency between them
/// (warnings, a merge-conflict risk). The plan is valid when no error was
/// found.
pub fn validate_plan(tasks: &[Task]) -> (r: PlanValidation)
    ensures
        issues_view(r.issues@) == dependency_issues(tasks@, tasks.len() as int) + cycle_issues(tasks@, cycle_groups(tasks@))
            + overlap_warnings(tasks@, tasks.len() as int),
        match r.cycles {
            Some(c) => c.len() > 0 && groups_view(c@) == cycle_groups(tasks@),
            None => cycle_groups(tasks@).len() == 0,
        },
        r.cycles is None <==> forall|v: int| 0 <= v < tasks.len() ==> !#[trigger] on_cycle(tasks@, v),
        r.valid <==> !exists|k: int|
            0 <= k < r.issues.len() && (#[trigger] r.issues@[k]).severity == ValidationSeverity::Error,
{
    let n = tasks.len();
    let mut issues: Vec<ValidationIssue> = Vec::new();

    // 1. dependency references
    let mut k: usize = 0;
    while k < n
        invariant
            k <= n,
            n == tasks.len(),
            issues_view(issues@) == dependency_issues(tasks@, k as int),
        decreases n - k,
    {
        let t = &tasks[k];
        let ghost base = issues_view(issues@);
        let mut j: usize = 0;
        while j < t.dependencies.len()
            invariant
                k < n,
                n == tasks.len(),
                *t == tasks@[k as int],
                j <= t.dependencies.len(),
                issues_view(issues@) == base + task_dep_issues(tasks@, *t, j as int),
            decreases t.dependencies.len() - j,
        {
            let dep = t.dependencies[j];
            let ghost before = issues_view(issues@);
            if !index_present(tasks, dep) {
                let mut msg = String::new();
                push_str(&mut msg, "Task ");
                push_task_label(&mut msg, t);
                push_str(&mut msg, " references non-existent dependency index ");
                push_decimal(&mut msg, dep as u64);
                issues.push(error_issue(msg, t.index));
            }
            let ghost mid = issues_view(issues@);
            if dep == t.index {
                let mut msg = String::new();
                push_str(&mut msg, "Task ");
                push_task_label(&mut msg, t);
                push_str(&mut msg, " depends on itself");
                issues.push(error_issue(msg, t.index));
            }
            proof {
                assert(issues_view(issues@) =~= before + dep_issues(tasks@, *t, dep));
                assert(t.dependencies@[j as int] == dep);
            }
            j = j + 1;
        }
        k = k + 1;
    }

    // 2. cycles
    let cycles = detect_dependency_cycles(tasks);
    let ghost base2 = issues_view(issues@);
    let mut g: usize = 0;
    while g < cycles.len()
        invariant
            g <= cycles.len(),
            n == tasks.len(),
            forall|v: usize| #[trigger] all_members(cycles@).contains(v) ==> v < n,
            issues_view(issues@) == base2 + cycle_issues(tasks@, groups_view(cycles@.take(g as int))),
        decreases cycles.len() - g,
    {
        let group = &cycles[g];
        let mut names: Vec<String> = Vec::new();
        let mut idxs: Vec<usize> = Vec::new();
        let mut q: usize = 0;
        proof {
            assert(groups_view(cycles@)[g as int] == group@);
            assert forall|m: int| 0 <= m < group@.len() implies (#[trigger] group@[m]) < n by {
                lemma_member_of_group(cycles@, g as int, m);
            }
        }
        while q < group.len()
            invariant
                q <= group.len(),
                n == tasks.len(),
                forall|m: int| 0 <= m < group@.len() ==> (#[trigger] group@[m]) < n,
                views(names@) == group_labels(tasks@, group@.take(q as int)),
                idxs@ == group_indices(tasks@, group@.take(q as int)),
            decreases group.len() - q,
        {
            let p = group[q];
            let mut name = String::new();
            push_task_label(&mut name, &tasks[p]);
            let ghost label = name@;
            let ghost names_before = names@;
            names.push(name);
            idxs.push(tasks[p].index);
            proof {
                assert(label =~= task_label(tasks@[p as int]));
                assert(views(names@) =~= views(names_before).push(label));
                assert(group@.take(q + 1) =~= group@.take(q as int).push(p));
                assert(views(names@) =~= group_labels(tasks@, group@.take(q + 1)));
                assert(idxs@ =~= group_indices(tasks@, group@.take(q + 1)));
            }
            q = q + 1;
        }
        proof {
            assert(group@.take(group.len() as int) =~= group@);
        }
        let mut msg = String::new();
        push_str(&mut msg, "Dependency cycle detected: ");
        let joined = join_strings(&names, " → ");
        push_str(&mut msg, joined.as_str());
        let ghost before = issues@;
        let issue = ValidationIssue { severity: ValidationSeverity::Error, message: msg, task_indices: Some(idxs) };
        proof {
            assert(issue_view(issue) == cycle_issue(tasks@, group@));
        }
        issues.push(issue);
        proof {
            assert(issues_view(issues@) =~= issues_view(before).push(cycle_issue(tasks@, group@)));
            assert(groups_view(cycles@.take(g + 1)) =~= groups_view(cycles@.take(g as int)).push(group@));
            assert(cycle_issues(tasks@, groups_view(cycles@.take(g + 1))) =~= cycle_issues(tasks@, groups_view(cycles@.take(g as int))).push(cycle_issue(tasks@, group@)));
            assert(issues_view(issues@) =~= base2 + cycle_issues(tasks@, groups_view(cycles@.take(g + 1))));
        }
        g = g + 1;
    }
    proof {
        assert(cycles@.take(cycles.len() as int) =~= cycles@);
    }

    // 3. overlapping file scopes
    let ghost base3 = issues_view(issues@);
    let mut i: usize = 0;
    while i < n
        invariant
            i <= n,
            n == tasks.len(),
            issues_view(issues@) == base3 + overlap_warnings(tasks@, i as int),
        decreases n - i,
    {
        let ghost row_base = issues_view(issues@);
        let mut j: usize = i + 1;
        while j < n
            invariant
                i < n,
                i + 1 <= j <= n,
                n == tasks.len(),
                issues_view(issues@) == row_base + row_warnings(tasks@, i as int, j as int),
            decreases n - j,
        {
            let shared = shared_file_list(&tasks[i].file_scope, &tasks[j].file_scope);
            if shared.len() > 0 {
                let linked = vec_contains_usize(&tasks[i].dependencies, tasks[j].index)
                    || vec_contains_usize(&tasks[j].dependencies, tasks[i].index);
                if !linked {
                    let mut msg = String::new();
                    push_str(&mut msg, "Tasks ");
                    push_task_label(&mut msg, &tasks[i]);
                    push_str(&mut msg, " and ");
                    push_task_label(&mut msg, &tasks[j]);
                    push_str(&mut msg, " share files [");
                    let files = join_strings(&shared, ", ");
                    push_str(&mut msg, files.as_str());
                    push_str(&mut msg, "] but have no dependency — merge conflict risk");
                    let mut idxs = Vec::new();
                    idxs.push(tasks[i].index);
                    idxs.push(tasks[j].index);
                    let ghost before = issues_view(issues@);
                    issues.push(ValidationIssue { severity: ValidationSeverity::Warning, message: msg, task_indices: Some(idxs) });
                    proof {
                        assert(idxs@ =~= seq![tasks@[i as int].index, tasks@[j as int].index]);
                        assert(issues_view(issues@) =~= before + pair_warning(tasks@, i as int, j as int));
                    }
                }
            }
            proof {
                assert(row_warnings(tasks@, i as int, j + 1) == row_warnings(tasks@, i as int, j as int) + pair_warning(tasks@, i as int, j as int));
                assert(issues_view(issues@) =~= row_base + row_warnings(tasks@, i as int, j + 1));
            }
            j = j + 1;
        }
        proof {
            assert(issues_view(issues@) =~= base3 + overlap_warnings(tasks@, i + 1));
        }
        i = i + 1;
    }

    // validity
    let mut has_errors = false;
    let mut e: usize = 0;
    while e < issues.len()
        invariant
            e <= issues.len(),
            has_errors <==> exists|k: int| 0 <= k < e && (#[trigger] issues@[k]).severity == ValidationSeverity::Error,
        decreases issues.len() - e,
    {
        if issues[e].severity == ValidationSeverity::Error {
            has_errors = true;
        }
        e = e + 1;
    }
    let cycles_opt = if cycles.len() == 0 { None } else { Some(cycles) };
    PlanValidation { valid: !has_errors, issues, cycles: cycles_opt }
}

proof fn lemma_member_of_group(groups: Seq<Vec<usize>>, g: int, m: int)
    requires
        0 <= g < groups.len(),
        0 <= m < groups[g]@.len(),
    ensures
        all_members(groups).contains(groups[g]@[m]),
    decreases groups.len(),
{
    let gv = groups_view(groups);
    assert(gv[g] == groups[g]@);
    if g == 0 {
        assert(gv.flatten() == gv[0] + gv.drop_first().flatten());
        assert(all_members(groups)[m] == groups[g]@[m]);
    } else {
        assert(groups_view(groups.drop_first()) =~= gv.drop_first());
        lemma_member_of_group(groups.drop_first(), g - 1, m);
        let rest = gv.drop_first().flatten();
        assert(rest.contains(groups[g]@[m]));
        let q = choose|q: int| 0 <= q < rest.len() && rest[q] == groups[g]@[m];
        assert(gv.flatten() == gv[0] + rest);
        assert(all_members(groups)[gv[0].len() + q] == groups[g]@[m]);
    }
}

} // verus!
