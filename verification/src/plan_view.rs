//! The text of the plan review: the plan's size, and for each task its
//! numbered title and a line naming its files and dependencies.
use crate::state::{Task, TaskStatus};
use crate::text::{decimal, join, join_strings, push_decimal, push_str, views};
use crate::tui::{strip_controls, trunc_text};
use vstd::prelude::*;

verus! {

broadcast use vstd::string::group_string_axioms;

/// The size of the plan: its tasks and estimated minutes.
pub open spec fn plan_size_text(tasks: nat, minutes: nat) -> Seq<char> {
    decimal(tasks) + " tasks \u{b7} ~"@ + decimal(minutes) + " min"@
}

/// The size of the plan (see `plan_size_text`).
pub fn plan_size_line(tasks: usize, minutes: u32) -> (r: String)
    ensures
        r@ == plan_size_text(tasks as nat, minutes as nat),
{
    let mut s = String::new();
    proof {
        reveal_strlit("");
    }
    push_decimal(&mut s, tasks as u64);
    push_str(&mut s, " tasks \u{b7} ~");
    push_decimal(&mut s, minutes as u64);
    push_str(&mut s, " min");
    s
}

/// The numbered title of a task, its control characters removed and cut to
/// the width less ten columns.
pub open spec fn plan_task_title_text(t: Task, width: nat) -> Seq<char> {
    decimal((t.index + 1) as nat) + ". "@ + trunc_text(strip_controls(t.title@, 0), if width >= 10 { (width - 10) as nat } else { 0 })
}

/// The numbered title of a task (see `plan_task_title_text`).
pub fn plan_task_title(t: &Task, width: usize) -> (r: String)
    requires
        t.index < usize::MAX,
    ensures
        r@ == plan_task_title_text(*t, width as nat),
{
    let mut s = String::new();
    proof {
        reveal_strlit("");
    }
    push_decimal(&mut s, (t.index + 1) as u64);
    push_str(&mut s, ". ");
    let clean = crate::tui::strip_control_chars(t.title.as_str());
    let room = if width >= 10 { width - 10 } else { 0 };
    let cut = crate::tui::trunc(clean.as_str(), room);
    push_str(&mut s, cut.as_str());
    s
}

/// The numbers (from one) of the dependencies.
pub open spec fn dependency_numbers(deps: Seq<usize>) -> Seq<Seq<char>> {
    deps.map_values(|d: usize| decimal((d + 1) as nat))
}

/// The line under a task's title: its files ("—" for none) and the numbers
/// of its dependencies ("none" for none).
pub open spec fn plan_task_detail_text(t: Task) -> Seq<char> {
    "Files: "@ + (if t.file_scope@.len() == 0 { "\u{2014}"@ } else { join(views(t.file_scope@), ", "@) })
        + "  Deps: "@ + (if t.dependencies@.len() == 0 { "none"@ } else { join(dependency_numbers(t.dependencies@), ", "@) })
}

/// The line under a task's title (see `plan_task_detail_text`).
pub fn plan_task_detail(t: &Task) -> (r: String)
    requires
        forall|k: int| 0 <= k < t.dependencies@.len() ==> #[trigger] t.dependencies@[k] < usize::MAX,
    ensures
        r@ == plan_task_detail_text(*t),
{
    let mut s = String::new();
    proof {
        reveal_strlit("");
    }
    push_str(&mut s, "Files: ");
    if t.file_scope.len() == 0 {
        push_str(&mut s, "\u{2014}");
    } else {
        let files = join_strings(&t.file_scope, ", ");
        push_str(&mut s, files.as_str());
    }
    push_str(&mut s, "  Deps: ");
    if t.dependencies.len() == 0 {
        push_str(&mut s, "none");
    } else {
        let mut nums: Vec<String> = Vec::new();
        let mut k: usize = 0;
        while k < t.dependencies.len()
            invariant
                k <= t.dependencies@.len(),
                forall|m: int| 0 <= m < t.dependencies@.len() ==> #[trigger] t.dependencies@[m] < usize::MAX,
                nums@.len() == k,
                forall|m: int| 0 <= m < k ==> (#[trigger] nums@[m])@ == decimal((t.dependencies@[m] + 1) as nat),
            decreases t.dependencies@.len() - k,
        {
            let mut n = String::new();
            push_decimal(&mut n, (t.dependencies[k] + 1) as u64);
            nums.push(n);
            k = k + 1;
        }
        assert(views(nums@) =~= dependency_numbers(t.dependencies@));
        let deps = join_strings(&nums, ", ");
        push_str(&mut s, deps.as_str());
    }
    s
}


// ─── A task's detail view ────────────────────────────────────────

/// How a row of the detail view is drawn.
#[derive(Debug, Clone, Copy, PartialEq, Eq, Structural)]
pub enum RowKind {
    /// The task's status, drawn with its status mark.
    Status,
    /// The musician the task is assigned to.
    Musician,
    Blank,
    /// A section's header.
    Header,
    Text,
    /// The result's outcome: success.
    Success,
    /// The result's outcome: failure.
    Failure,
    /// The result's error.
    Error,
}

/// Rows of one kind, one per text.
pub open spec fn rows_of(kind: RowKind, texts: Seq<Seq<char>>) -> Seq<(RowKind, Seq<char>)> {
    texts.map_values(|t: Seq<char>| (kind, t))
}

/// A section: its header, its rows, then a blank row.
pub open spec fn section(header: Seq<char>, texts: Seq<Seq<char>>) -> Seq<(RowKind, Seq<char>)> {
    seq![(RowKind::Header, header)] + rows_of(RowKind::Text, texts) + seq![(RowKind::Blank, Seq::<char>::empty())]
}

/// Each text as a list item.
pub open spec fn bullets(texts: Seq<Seq<char>>) -> Seq<Seq<char>> {
    texts.map_values(|t: Seq<char>| "  \u{2022} "@ + t)
}

/// The title of the task at position `d`, or "?".
pub open spec fn title_at(all: Seq<Task>, d: usize) -> Seq<char> {
    if d < all.len() { all[d as int].title@ } else { "?"@ }
}

/// The dependencies of a task, each with the title of the task it names.
pub open spec fn dependency_items(deps: Seq<usize>, all: Seq<Task>) -> Seq<Seq<char>> {
    deps.map_values(|d: usize| "  \u{2022} Task "@ + decimal((d + 1) as nat) + ": "@ + title_at(all, d))
}

/// The rows of a task's result: its outcome, its summary's lines indented,
/// its error, and the files it modified.
pub open spec fn result_rows(t: Task) -> Seq<(RowKind, Seq<char>)> {
    match t.result {
        Some(r) => seq![(RowKind::Header, "RESULT"@)]
            + (if r.success { seq![(RowKind::Success, "Success"@)] } else { seq![(RowKind::Failure, "Failed"@)] })
            + rows_of(RowKind::Text, crate::orchestra::text_lines(r.summary@).map_values(|l: Seq<char>| "  "@ + l))
            + (match r.error {
                Some(e) => seq![(RowKind::Error, "  Error: "@ + e@)],
                None => Seq::empty(),
            })
            + (if r.files_modified@.len() > 0 {
                seq![(RowKind::Header, "FILES MODIFIED"@)] + rows_of(RowKind::Text, bullets(views(r.files_modified@)))
            } else {
                Seq::empty()
            }),
        None => Seq::empty(),
    }
}

/// The first rows of a task's detail view: status, musician ("—" when
/// none), a blank row.
pub open spec fn head_rows(t: Task) -> Seq<(RowKind, Seq<char>)> {
    seq![
        (RowKind::Status, Seq::<char>::empty()),
        (RowKind::Musician, match t.assigned_musician { Some(m) => m@, None => "\u{2014}"@ }),
        (RowKind::Blank, Seq::<char>::empty()),
    ]
}

/// The text rows of a task's detail view: its description (control
/// characters removed) line by line, and its reason line by line when it
/// has one.
pub open spec fn text_rows(t: Task) -> Seq<(RowKind, Seq<char>)> {
    section("DESCRIPTION"@, crate::orchestra::text_lines(crate::tui::strip_controls(t.description@, 0)))
        + (if t.why@.len() > 0 { section("WHY"@, crate::orchestra::text_lines(t.why@)) } else { Seq::empty() })
}

/// The list rows of a task's detail view, each section where it has
/// items: its files, its dependencies with their titles, its acceptance
/// criteria.
pub open spec fn list_rows(t: Task, all: Seq<Task>) -> Seq<(RowKind, Seq<char>)> {
    (if t.file_scope@.len() > 0 { section("FILES"@, bullets(views(t.file_scope@))) } else { Seq::empty() })
        + (if t.dependencies@.len() > 0 {
            section("DEPENDENCIES"@, dependency_items(t.dependencies@, all))
        } else {
            Seq::empty()
        })
        + (if t.acceptance_criteria@.len() > 0 {
            section("ACCEPTANCE CRITERIA"@, bullets(views(t.acceptance_criteria@)))
        } else {
            Seq::empty()
        })
}

/// The rows of a task's detail view.
pub open spec fn detail_rows(t: Task, all: Seq<Task>) -> Seq<(RowKind, Seq<char>)> {
    head_rows(t) + text_rows(t) + list_rows(t, all) + result_rows(t)
}

/// The rows as plain values.
pub open spec fn row_views(v: Seq<(RowKind, String)>) -> Seq<(RowKind, Seq<char>)> {
    v.map_values(|x: (RowKind, String)| (x.0, x.1@))
}

fn lit(s: &str) -> (r: String)
    ensures
        r@ == s@,
{
    let mut o = String::new();
    proof {
        reveal_strlit("");
    }
    push_str(&mut o, s);
    o
}

fn push_rows(out: &mut Vec<(RowKind, String)>, kind: RowKind, pre: &str, texts: &Vec<String>)
    ensures
        row_views(final(out)@) == row_views(old(out)@)
            + rows_of(kind, views(texts@).map_values(|t: Seq<char>| pre@ + t)),
{
    let ghost o0 = old(out)@;
    let ghost target = rows_of(kind, views(texts@).map_values(|t: Seq<char>| pre@ + t));
    let mut k: usize = 0;
    while k < texts.len()
        invariant
            k <= texts@.len(),
            target == rows_of(kind, views(texts@).map_values(|t: Seq<char>| pre@ + t)),
            out@.len() == o0.len() + k,
            forall|m: int| 0 <= m < o0.len() ==> #[trigger] out@[m] == o0[m],
            forall|m: int| 0 <= m < k ==> (#[trigger] out@[o0.len() + m]).0 == kind && out@[o0.len() + m].1@ == pre@ + texts@[m]@,
        decreases texts@.len() - k,
    {
        let mut s = lit(pre);
        push_str(&mut s, texts[k].as_str());
        out.push((kind, s));
        k = k + 1;
    }
    assert(row_views(out@) =~= row_views(o0) + target) by {
        assert forall|m: int| 0 <= m < out@.len() implies #[trigger] row_views(out@)[m]
            == (row_views(o0) + target)[m] by {
            if m >= o0.len() {
                assert(out@[m] == out@[o0.len() + (m - o0.len())]);
            }
        }
    }
}

fn push_one(out: &mut Vec<(RowKind, String)>, kind: RowKind, text: String)
    ensures
        row_views(final(out)@) == row_views(old(out)@) + seq![(kind, text@)],
{
    out.push((kind, text));
    assert(row_views(out@) =~= row_views(old(out)@) + seq![(kind, text@)]);
}

fn push_section(out: &mut Vec<(RowKind, String)>, header: &str, pre: &str, texts: &Vec<String>)
    ensures
        row_views(final(out)@) == row_views(old(out)@) + section(header@, views(texts@).map_values(|t: Seq<char>| pre@ + t)),
{
    proof {
        reveal_strlit("");
    }
    let ghost o0 = row_views(out@);
    let ghost rows = rows_of(RowKind::Text, views(texts@).map_values(|t: Seq<char>| pre@ + t));
    push_one(out, RowKind::Header, lit(header));
    let ghost o1 = row_views(out@);
    push_rows(out, RowKind::Text, pre, texts);
    let ghost o2 = row_views(out@);
    push_one(out, RowKind::Blank, lit(""));
    assert(""@ =~= Seq::<char>::empty());
    let ghost sec = section(header@, views(texts@).map_values(|t: Seq<char>| pre@ + t));
    assert(sec =~= seq![(RowKind::Header, header@)] + rows + seq![(RowKind::Blank, Seq::<char>::empty())]);
    assert(o2 == o0 + seq![(RowKind::Header, header@)] + rows);
    assert(row_views(out@) =~= o0 + sec);
}

proof fn lemma_no_prefix(v: Seq<Seq<char>>)
    ensures
        v.map_values(|t: Seq<char>| ""@ + t) == v,
{
    reveal_strlit("");
    assert(v.map_values(|t: Seq<char>| ""@ + t) =~= v);
}

fn push_head(out: &mut Vec<(RowKind, String)>, t: &Task)
    ensures
        row_views(final(out)@) == row_views(old(out)@) + head_rows(*t),
{
    proof {
        reveal_strlit("");
        reveal_strlit("\u{2014}");
    }
    assert(""@ =~= Seq::<char>::empty());
    push_one(out, RowKind::Status, lit(""));
    let who = match &t.assigned_musician {
        Some(m) => lit(m.as_str()),
        None => lit("\u{2014}"),
    };
    push_one(out, RowKind::Musician, who);
    push_one(out, RowKind::Blank, lit(""));
    assert(row_views(out@) =~= row_views(old(out)@) + head_rows(*t));
}

fn push_text(out: &mut Vec<(RowKind, String)>, t: &Task)
    ensures
        row_views(final(out)@) == row_views(old(out)@) + text_rows(*t),
{
    let ghost p0 = row_views(out@);
    let clean = crate::tui::strip_control_chars(t.description.as_str());
    let desc = crate::orchestra::text_lines_exec(clean.as_str());
    push_section(out, "DESCRIPTION", "", &desc);
    proof {
        lemma_no_prefix(views(desc@));
    }
    let ghost p1 = row_views(out@);
    if crate::text::chars_of(t.why.as_str()).len() > 0 {
        let why = crate::orchestra::text_lines_exec(t.why.as_str());
        push_section(out, "WHY", "", &why);
        proof {
            lemma_no_prefix(views(why@));
        }
    }
    assert(row_views(out@) =~= p0 + text_rows(*t));
}

fn dependency_texts(t: &Task, all: &[Task]) -> (r: Vec<String>)
    requires
        forall|k: int| 0 <= k < t.dependencies@.len() ==> #[trigger] t.dependencies@[k] < usize::MAX,
    ensures
        views(r@) == dependency_items(t.dependencies@, all@),
{
    let mut items: Vec<String> = Vec::new();
    let mut k: usize = 0;
    while k < t.dependencies.len()
        invariant
            k <= t.dependencies@.len(),
            forall|m: int| 0 <= m < t.dependencies@.len() ==> #[trigger] t.dependencies@[m] < usize::MAX,
            items@.len() == k,
            forall|m: int| 0 <= m < k ==> (#[trigger] items@[m])@ == dependency_items(t.dependencies@, all@)[m],
        decreases t.dependencies@.len() - k,
    {
        let d = t.dependencies[k];
        let mut s = lit("  \u{2022} Task ");
        push_decimal(&mut s, (d + 1) as u64);
        push_str(&mut s, ": ");
        if d < all.len() {
            push_str(&mut s, all[d].title.as_str());
        } else {
            push_str(&mut s, "?");
        }
        items.push(s);
        k = k + 1;
    }
    assert(views(items@) =~= dependency_items(t.dependencies@, all@));
    items
}

fn push_lists(out: &mut Vec<(RowKind, String)>, t: &Task, all: &[Task])
    requires
        forall|k: int| 0 <= k < t.dependencies@.len() ==> #[trigger] t.dependencies@[k] < usize::MAX,
    ensures
        row_views(final(out)@) == row_views(old(out)@) + list_rows(*t, all@),
{
    let ghost p0 = row_views(out@);
    if t.file_scope.len() > 0 {
        push_section(out, "FILES", "  \u{2022} ", &t.file_scope);
    }
    let ghost p1 = row_views(out@);
    if t.dependencies.len() > 0 {
        let items = dependency_texts(t, all);
        push_section(out, "DEPENDENCIES", "", &items);
        proof {
            lemma_no_prefix(views(items@));
        }
    }
    let ghost p2 = row_views(out@);
    if t.acceptance_criteria.len() > 0 {
        push_section(out, "ACCEPTANCE CRITERIA", "  \u{2022} ", &t.acceptance_criteria);
    }
    assert(row_views(out@) =~= p0 + list_rows(*t, all@));
}

fn push_result(out: &mut Vec<(RowKind, String)>, t: &Task)
    ensures
        row_views(final(out)@) == row_views(old(out)@) + result_rows(*t),
{
    let ghost p0 = row_views(out@);
    match &t.result {
        Some(r) => {
            push_one(out, RowKind::Header, lit("RESULT"));
            if r.success {
                push_one(out, RowKind::Success, lit("Success"));
            } else {
                push_one(out, RowKind::Failure, lit("Failed"));
            }
            let sl = crate::orchestra::text_lines_exec(r.summary.as_str());
            push_rows(out, RowKind::Text, "  ", &sl);
            match &r.error {
                Some(e) => {
                    let mut s = lit("  Error: ");
                    push_str(&mut s, e.as_str());
                    push_one(out, RowKind::Error, s);
                },
                None => {},
            }
            if r.files_modified.len() > 0 {
                push_one(out, RowKind::Header, lit("FILES MODIFIED"));
                push_rows(out, RowKind::Text, "  \u{2022} ", &r.files_modified);
            }
            assert(row_views(out@) =~= p0 + result_rows(*t));
        },
        None => {
            assert(row_views(out@) =~= p0 + result_rows(*t));
        },
    }
}

/// The rows of a task's detail view (see `detail_rows`).
pub fn task_detail_rows(t: &Task, all: &[Task]) -> (r: Vec<(RowKind, String)>)
    requires
        forall|k: int| 0 <= k < t.dependencies@.len() ==> #[trigger] t.dependencies@[k] < usize::MAX,
    ensures
        row_views(r@) == detail_rows(*t, all@),
{
    let mut out: Vec<(RowKind, String)> = Vec::new();
    assert(row_views(out@) =~= Seq::<(RowKind, Seq<char>)>::empty());
    push_head(&mut out, t);
    push_text(&mut out, t);
    push_lists(&mut out, t, all);
    push_result(&mut out, t);
    assert(row_views(out@) =~= detail_rows(*t, all@));
    out
}

} // verus!
