//! Insights drawn from what musicians do, by matching their events against a
//! built-in set of rules. No model call and no I/O: pure rule matching.
//!
//! Each event yields at most one insight: the first rule that matches and
//! has not yet fired for the same source.
use crate::json::{as_str, get, json_get, str_eq, JsonValue, JsonView};
use crate::rate_limiter::now_rfc3339;
use crate::state::{Insight, InsightCategory, Task, TaskResult};
use crate::text::{
    decimal, ends_with_str, has_suffix, join, join_strings, push_decimal, push_str, views,
    contains_str, seq_contains,
};
use vstd::prelude::*;

verus! {

broadcast use vstd::string::group_string_axioms;

/// The kind of event being looked at.
#[derive(Debug, Clone, Copy, PartialEq, Eq, Structural)]
pub enum InsightEvent {
    ToolUse,
    TaskComplete,
    RateLimit,
    WorktreeMerge,
    TaskAssigned,
}

/// What the rules see of an event.
#[derive(Debug)]
pub struct InsightContext<'a> {
    pub event: InsightEvent,
    pub tool_name: Option<String>,
    pub tool_input: Option<JsonValue>,
    pub task: Option<&'a Task>,
    pub result: Option<&'a TaskResult>,
    pub decision: Option<String>,
    pub reasoning: Option<String>,
}

/// One rule: the topic and title of the insight it produces. What it
/// matches and what it says are given by its position in `build_rules`.
#[derive(Debug, Clone, Copy)]
pub struct InsightRule {
    pub category: InsightCategory,
    pub title: &'static str,
}

// ─── Paths ───────────────────────────────────────────────────────

/// The part of a path after its last slash.
pub open spec fn file_name(path: Seq<char>) -> Seq<char>
    decreases path.len(),
{
    if path.len() == 0 {
        path
    } else if path.last() == '/' {
        Seq::empty()
    } else {
        file_name(path.drop_last()).push(path.last())
    }
}

/// A test file of a JavaScript or TypeScript project.
pub open spec fn test_file(p: Seq<char>) -> bool {
    ||| has_suffix(p, ".spec.ts"@) || has_suffix(p, ".test.ts"@)
    ||| has_suffix(p, ".spec.js"@) || has_suffix(p, ".test.js"@)
    ||| has_suffix(p, ".spec.tsx"@) || has_suffix(p, ".test.tsx"@)
    ||| has_suffix(p, ".spec.jsx"@) || has_suffix(p, ".test.jsx"@)
}

/// A service file.
pub open spec fn service_file(p: Seq<char>) -> bool {
    has_suffix(p, ".service.ts"@) || has_suffix(p, ".service.js"@)
}

/// A guard file.
pub open spec fn guard_file(p: Seq<char>) -> bool {
    has_suffix(p, ".guard.ts"@) || has_suffix(p, ".guard.js"@)
}

/// The part of a path after its last slash.
pub fn filename(path: &str) -> (r: String)
    ensures
        r@ == file_name(path@),
{
    let cs = crate::text::chars_of(path);
    let mut start: usize = cs.len();
    assert(path@.take(start as int) =~= path@);
    assert(file_name(path@) =~= file_name(path@.take(start as int)) + path@.subrange(start as int, path@.len() as int));
    while start > 0 && cs[start - 1] != '/'
        invariant
            start <= cs.len(),
            cs@ == path@,
            file_name(path@) == file_name(path@.take(start as int)) + path@.subrange(start as int, path@.len() as int),
        decreases start,
    {
        proof {
            let t = path@.take(start as int);
            assert(t.drop_last() =~= path@.take(start - 1));
            assert(path@.subrange(start - 1, path@.len() as int) =~= seq![t.last()] + path@.subrange(start as int, path@.len() as int));
            assert(file_name(t) =~= file_name(t.drop_last()).push(t.last()));
        }
        start = start - 1;
    }
    proof {
        if start > 0 {
            assert(file_name(path@.take(start as int)) =~= Seq::<char>::empty());
        } else {
            assert(path@.take(0) =~= Seq::<char>::empty());
        }
    }
    let mut out = String::new();
    let mut i = start;
    while i < cs.len()
        invariant
            start <= i <= cs.len(),
            cs@ == path@,
            out@ == path@.subrange(start as int, i as int),
        decreases cs.len() - i,
    {
        crate::text::push_char(&mut out, cs[i]);
        i = i + 1;
        assert(out@ =~= path@.subrange(start as int, i as int));
    }
    assert(out@ =~= file_name(path@));
    out
}

/// Whether a path names a test file (`.spec.ts`, `.test.js` and the like).
pub fn is_test_file(path: &str) -> (r: bool)
    ensures
        r == test_file(path@),
{
    ends_with_str(path, ".spec.ts") || ends_with_str(path, ".test.ts") || ends_with_str(path, ".spec.js")
        || ends_with_str(path, ".test.js") || ends_with_str(path, ".spec.tsx") || ends_with_str(
        path,
        ".test.tsx",
    ) || ends_with_str(path, ".spec.jsx") || ends_with_str(path, ".test.jsx")
}

/// Whether a path names a service file.
pub fn is_service_file(path: &str) -> (r: bool)
    ensures
        r == service_file(path@),
{
    ends_with_str(path, ".service.ts") || ends_with_str(path, ".service.js")
}

/// Whether a path names a guard file.
pub fn is_guard_file(path: &str) -> (r: bool)
    ensures
        r == guard_file(path@),
{
    ends_with_str(path, ".guard.ts") || ends_with_str(path, ".guard.js")
}

// ─── Rules ───────────────────────────────────────────────────────

/// How many rules there are.
pub open spec fn rule_count() -> nat {
    13
}

/// The topic of rule `k`.
pub open spec fn rule_category(k: int) -> InsightCategory {
    if k == 0 || k == 1 || k == 7 || k == 8 {
        InsightCategory::Tool
    } else if k == 2 || k == 3 || k == 6 {
        InsightCategory::Pattern
    } else if k == 4 || k == 5 || k == 12 {
        InsightCategory::Architecture
    } else if k == 9 || k == 10 {
        InsightCategory::Decision
    } else {
        InsightCategory::Concept
    }
}

/// The title of rule `k`.
pub open spec fn rule_title(k: int) -> Seq<char> {
    if k == 0 {
        "Grep before editing"@
    } else if k == 1 {
        "Glob for file discovery"@
    } else if k == 2 {
        "Reading tests first"@
    } else if k == 3 {
        "Self-review via git diff"@
    } else if k == 4 {
        "Service extraction"@
    } else if k == 5 {
        "Guard pattern"@
    } else if k == 6 {
        "Test-driven approach"@
    } else if k == 7 {
        "Reading source file"@
    } else if k == 8 {
        "Modifying file"@
    } else if k == 9 {
        "Task completed successfully"@
    } else if k == 10 {
        "Task failed — retry possible"@
    } else if k == 11 {
        "Rate limit — rolling window"@
    } else {
        "Worktree merge"@
    }
}

/// The rules, in the order they are tried.
pub fn build_rules() -> (r: Vec<InsightRule>)
    ensures
        r@.len() == rule_count(),
        forall|k: int| 0 <= k < rule_count() ==> (#[trigger] r@[k]).category == rule_category(k) && r@[k].title@ == rule_title(k),
{
    let mut v: Vec<InsightRule> = Vec::new();
    v.push(InsightRule { category: InsightCategory::Tool, title: "Grep before editing" });
    v.push(InsightRule { category: InsightCategory::Tool, title: "Glob for file discovery" });
    v.push(InsightRule { category: InsightCategory::Pattern, title: "Reading tests first" });
    v.push(InsightRule { category: InsightCategory::Pattern, title: "Self-review via git diff" });
    v.push(InsightRule { category: InsightCategory::Architecture, title: "Service extraction" });
    v.push(InsightRule { category: InsightCategory::Architecture, title: "Guard pattern" });
    v.push(InsightRule { category: InsightCategory::Pattern, title: "Test-driven approach" });
    v.push(InsightRule { category: InsightCategory::Tool, title: "Reading source file" });
    v.push(InsightRule { category: InsightCategory::Tool, title: "Modifying file" });
    v.push(InsightRule { category: InsightCategory::Decision, title: "Task completed successfully" });
    v.push(InsightRule { category: InsightCategory::Decision, title: "Task failed — retry possible" });
    v.push(InsightRule { category: InsightCategory::Concept, title: "Rate limit — rolling window" });
    v.push(InsightRule { category: InsightCategory::Architecture, title: "Worktree merge" });
    v
}

/// The text of string field `key` of the event's tool input.
pub open spec fn input_str(ctx: InsightContext<'_>, key: Seq<char>) -> Option<Seq<char>> {
    match ctx.tool_input {
        Some(v) => as_str(get(v@, key)),
        None => None,
    }
}

/// The event is a call of tool `name`.
pub open spec fn tool_is(ctx: InsightContext<'_>, name: Seq<char>) -> bool {
    ctx.event == InsightEvent::ToolUse && ctx.tool_name is Some && ctx.tool_name->0@ == name
}

/// The file path of the tool input satisfies `p`.
pub open spec fn path_is(ctx: InsightContext<'_>, p: spec_fn(Seq<char>) -> bool) -> bool {
    input_str(ctx, "file_path"@) is Some && p(input_str(ctx, "file_path"@)->0)
}

/// Whether rule `k` matches the event.
pub open spec fn rule_matches(k: int, ctx: InsightContext) -> bool {
    if k == 0 {
        tool_is(ctx, "Grep"@)
    } else if k == 1 {
        tool_is(ctx, "Glob"@)
    } else if k == 2 {
        tool_is(ctx, "Read"@) && path_is(ctx, |p: Seq<char>| test_file(p))
    } else if k == 3 {
        tool_is(ctx, "Bash"@) && input_str(ctx, "command"@) is Some && seq_contains(input_str(ctx, "command"@)->0, "git diff"@)
    } else if k == 4 {
        tool_is(ctx, "Write"@) && path_is(ctx, |p: Seq<char>| service_file(p))
    } else if k == 5 {
        (tool_is(ctx, "Write"@) || tool_is(ctx, "Edit"@)) && path_is(ctx, |p: Seq<char>| guard_file(p))
    } else if k == 6 {
        (tool_is(ctx, "Write"@) || tool_is(ctx, "Edit"@)) && path_is(ctx, |p: Seq<char>| test_file(p))
    } else if k == 7 {
        tool_is(ctx, "Read"@) && path_is(ctx, |p: Seq<char>| !test_file(p))
    } else if k == 8 {
        tool_is(ctx, "Edit"@) && ctx.tool_input is Some && get(ctx.tool_input->0@, "file_path"@) is Some
    } else if k == 9 {
        ctx.event == InsightEvent::TaskComplete && ctx.result is Some && ctx.result->0.success
    } else if k == 10 {
        ctx.event == InsightEvent::TaskComplete && ctx.result is Some && !ctx.result->0.success
    } else if k == 11 {
        ctx.event == InsightEvent::RateLimit
    } else if k == 12 {
        ctx.event == InsightEvent::WorktreeMerge
    } else {
        false
    }
}

/// `"text"`.
pub open spec fn quoted(s: Seq<char>) -> Seq<char> {
    "\""@ + s + "\""@
}

/// The file name of the tool input's path, or `d`.
pub open spec fn input_file_or(ctx: InsightContext<'_>, d: Seq<char>) -> Seq<char> {
    match input_str(ctx, "file_path"@) {
        Some(p) => file_name(p),
        None => d,
    }
}

/// `pre + title + post` when the event has a task, else nothing.
pub open spec fn task_note(ctx: InsightContext<'_>, pre: Seq<char>, post: Seq<char>) -> Seq<char> {
    match ctx.task {
        Some(t) => pre + t.title@ + post,
        None => Seq::empty(),
    }
}

/// The body of the insight of rule `k`.
pub open spec fn rule_body(k: int, ctx: InsightContext) -> Seq<char> {
    if k == 0 {
        let pattern = match input_str(ctx, "pattern"@) {
            Some(p) => quoted(p),
            None => "references"@,
        };
        "Searching for "@ + pattern + task_note(ctx, " for task \""@, "\""@)
            + " — finding all references before modifying code prevents breaking callers in other files."@
    } else if k == 1 {
        let pattern = match input_str(ctx, "pattern"@) {
            Some(p) => quoted(p),
            None => "files"@,
        };
        "Scanning "@ + pattern + " to understand project structure. More efficient than reading directories manually."@
    } else if k == 2 {
        "Reading "@ + input_file_or(ctx, "test file"@)
            + " before implementation helps understand expected behavior — tests are executable documentation."@
    } else if k == 3 {
        "Reviewing own changes before finishing — a quality gate that catches unintended modifications."@
    } else if k == 4 {
        "Creating "@ + input_file_or(ctx, "service"@)
            + " follows the Single Responsibility Principle — isolating logic makes it testable and reusable via dependency injection."@
    } else if k == 5 {
        "NestJS guards run before route handlers in the request pipeline. One decorator protects any endpoint — DRY and consistent authorization."@
    } else if k == 6 {
        "Writing tests alongside implementation catches regressions early. Each service change gets a corresponding test update."@
    } else if k == 7 {
        "Reading "@ + input_file_or(ctx, "file"@) + task_note(ctx, " to understand context for \""@, "\""@)
            + ". Understanding existing code before modifying prevents breaking changes."@
    } else if k == 8 {
        let scope = match ctx.task {
            Some(t) => if t.file_scope@.len() > 0 {
                ". Files in scope: "@ + join(views(t.file_scope@), ", "@)
            } else {
                Seq::empty()
            },
            None => Seq::empty(),
        };
        "Editing "@ + input_file_or(ctx, "file"@) + task_note(ctx, " for \""@, "\""@) + scope
    } else if k == 9 {
        let title = match ctx.task {
            Some(t) => t.title@,
            None => "Task"@,
        };
        let files = match ctx.result {
            Some(r) => if r.files_modified@.len() > 0 { join(views(r.files_modified@), ", "@) } else { "none"@ },
            None => "none"@,
        };
        "\""@ + title + "\" finished. Modified files: "@ + files
            + ". File-scoping prevents merge conflicts — like team code ownership at the file level."@
    } else if k == 10 {
        let title = match ctx.task {
            Some(t) => t.title@,
            None => "Task"@,
        };
        let error = match ctx.result {
            Some(r) => match r.error {
                Some(e) => e@,
                None => "unknown error"@,
            },
            None => "unknown error"@,
        };
        "\""@ + title + "\" hit an issue: "@ + error
            + ". Conductor will review and decide: retry with adjusted instructions, reassign, or mark as blocked."@
    } else if k == 11 {
        "5-hour rolling window: tokens expire from the oldest edge. Capacity returns gradually, not all at once. Probe checks every 30 seconds."@
    } else {
        "Git worktrees let musicians branch in parallel. Merging is clean because file scopes minimize overlap — like feature branches on steroids."@
    }
}

fn input_str_exec<'a>(ctx: &'a InsightContext, key: &str) -> (r: Option<&'a str>)
    ensures
        match r {
            Some(s) => input_str(*ctx, key@) == Some(s@),
            None => input_str(*ctx, key@) is None,
        },
{
    match &ctx.tool_input {
        Some(v) => match json_get(v, key) {
            Some(x) => x.as_str(),
            None => None,
        },
        None => None,
    }
}

fn tool_is_exec(ctx: &InsightContext, name: &str) -> (r: bool)
    ensures
        r == tool_is(*ctx, name@),
{
    ctx.event == InsightEvent::ToolUse && match &ctx.tool_name {
        Some(t) => str_eq(t.as_str(), name),
        None => false,
    }
}

/// Whether rule `k` matches the event.
pub fn rule_matches_exec(k: usize, ctx: &InsightContext) -> (r: bool)
    ensures
        r == rule_matches(k as int, *ctx),
{
    let path = input_str_exec(ctx, "file_path");
    if k == 0 {
        tool_is_exec(ctx, "Grep")
    } else if k == 1 {
        tool_is_exec(ctx, "Glob")
    } else if k == 2 {
        tool_is_exec(ctx, "Read") && match path {
            Some(p) => is_test_file(p),
            None => false,
        }
    } else if k == 3 {
        tool_is_exec(ctx, "Bash") && match input_str_exec(ctx, "command") {
            Some(c) => contains_str(c, "git diff"),
            None => false,
        }
    } else if k == 4 {
        tool_is_exec(ctx, "Write") && match path {
            Some(p) => is_service_file(p),
            None => false,
        }
    } else if k == 5 {
        (tool_is_exec(ctx, "Write") || tool_is_exec(ctx, "Edit")) && match path {
            Some(p) => is_guard_file(p),
            None => false,
        }
    } else if k == 6 {
        (tool_is_exec(ctx, "Write") || tool_is_exec(ctx, "Edit")) && match path {
            Some(p) => is_test_file(p),
            None => false,
        }
    } else if k == 7 {
        tool_is_exec(ctx, "Read") && match path {
            Some(p) => !is_test_file(p),
            None => false,
        }
    } else if k == 8 {
        tool_is_exec(ctx, "Edit") && match &ctx.tool_input {
            Some(v) => json_get(v, "file_path").is_some(),
            None => false,
        }
    } else if k == 9 {
        ctx.event == InsightEvent::TaskComplete && match &ctx.result {
            Some(r) => r.success,
            None => false,
        }
    } else if k == 10 {
        ctx.event == InsightEvent::TaskComplete && match &ctx.result {
            Some(r) => !r.success,
            None => false,
        }
    } else if k == 11 {
        ctx.event == InsightEvent::RateLimit
    } else if k == 12 {
        ctx.event == InsightEvent::WorktreeMerge
    } else {
        false
    }
}

fn push_input_file_or(out: &mut String, ctx: &InsightContext, d: &str)
    ensures
        final(out)@ == old(out)@ + input_file_or(*ctx, d@),
{
    match input_str_exec(ctx, "file_path") {
        Some(p) => {
            let f = filename(p);
            push_str(out, f.as_str());
        },
        None => push_str(out, d),
    }
}

fn push_task_note(out: &mut String, ctx: &InsightContext, pre: &str, post: &str)
    ensures
        final(out)@ == old(out)@ + task_note(*ctx, pre@, post@),
{
    match &ctx.task {
        Some(t) => {
            push_str(out, pre);
            push_str(out, t.title.as_str());
            push_str(out, post);
        },
        None => {
            proof {
                assert(old(out)@ + Seq::<char>::empty() =~= old(out)@);
            }
        },
    }
}

/// The body of the insight of rule `k`.
pub fn rule_body_exec(k: usize, ctx: &InsightContext) -> (r: String)
    ensures
        r@ == rule_body(k as int, *ctx),
{
    let mut out = String::new();
    if k == 0 {
        push_str(&mut out, "Searching for ");
        match input_str_exec(ctx, "pattern") {
            Some(p) => {
                push_str(&mut out, "\"");
                push_str(&mut out, p);
                push_str(&mut out, "\"");
            },
            None => push_str(&mut out, "references"),
        }
        push_task_note(&mut out, ctx, " for task \"", "\"");
        push_str(&mut out, " — finding all references before modifying code prevents breaking callers in other files.");
    } else if k == 1 {
        push_str(&mut out, "Scanning ");
        match input_str_exec(ctx, "pattern") {
            Some(p) => {
                push_str(&mut out, "\"");
                push_str(&mut out, p);
                push_str(&mut out, "\"");
            },
            None => push_str(&mut out, "files"),
        }
        push_str(&mut out, " to understand project structure. More efficient than reading directories manually.");
    } else if k == 2 {
        push_str(&mut out, "Reading ");
        push_input_file_or(&mut out, ctx, "test file");
        push_str(&mut out, " before implementation helps understand expected behavior — tests are executable documentation.");
    } else if k == 3 {
        push_str(&mut out, "Reviewing own changes before finishing — a quality gate that catches unintended modifications.");
    } else if k == 4 {
        push_str(&mut out, "Creating ");
        push_input_file_or(&mut out, ctx, "service");
        push_str(&mut out, " follows the Single Responsibility Principle — isolating logic makes it testable and reusable via dependency injection.");
    } else if k == 5 {
        push_str(&mut out, "NestJS guards run before route handlers in the request pipeline. One decorator protects any endpoint — DRY and consistent authorization.");
    } else if k == 6 {
        push_str(&mut out, "Writing tests alongside implementation catches regressions early. Each service change gets a corresponding test update.");
    } else if k == 7 {
        push_str(&mut out, "Reading ");
        push_input_file_or(&mut out, ctx, "file");
        push_task_note(&mut out, ctx, " to understand context for \"", "\"");
        push_str(&mut out, ". Understanding existing code before modifying prevents breaking changes.");
    } else if k == 8 {
        push_str(&mut out, "Editing ");
        push_input_file_or(&mut out, ctx, "file");
        push_task_note(&mut out, ctx, " for \"", "\"");
        match &ctx.task {
            Some(t) => {
                if t.file_scope.len() > 0 {
                    push_str(&mut out, ". Files in scope: ");
                    let j = join_strings(&t.file_scope, ", ");
                    push_str(&mut out, j.as_str());
                }
            },
            None => {},
        }
    } else if k == 9 {
        push_str(&mut out, "\"");
        match &ctx.task {
            Some(t) => push_str(&mut out, t.title.as_str()),
            None => push_str(&mut out, "Task"),
        }
        push_str(&mut out, "\" finished. Modified files: ");
        match &ctx.result {
            Some(r) => {
                if r.files_modified.len() > 0 {
                    let j = join_strings(&r.files_modified, ", ");
                    push_str(&mut out, j.as_str());
                } else {
                    push_str(&mut out, "none");
                }
            },
            None => push_str(&mut out, "none"),
        }
        push_str(&mut out, ". File-scoping prevents merge conflicts — like team code ownership at the file level.");
    } else if k == 10 {
        push_str(&mut out, "\"");
        match &ctx.task {
            Some(t) => push_str(&mut out, t.title.as_str()),
            None => push_str(&mut out, "Task"),
        }
        push_str(&mut out, "\" hit an issue: ");
        match &ctx.result {
            Some(r) => match &r.error {
                Some(e) => push_str(&mut out, e.as_str()),
                None => push_str(&mut out, "unknown error"),
            },
            None => push_str(&mut out, "unknown error"),
        }
        push_str(&mut out, ". Conductor will review and decide: retry with adjusted instructions, reassign, or mark as blocked.");
    } else if k == 11 {
        push_str(&mut out, "5-hour rolling window: tokens expire from the oldest edge. Capacity returns gradually, not all at once. Probe checks every 30 seconds.");
    } else {
        push_str(&mut out, "Git worktrees let musicians branch in parallel. Merging is clean because file scopes minimize overlap — like feature branches on steroids.");
    }
    proof {
        reveal_strlit("");
    }
    assert(out@ =~= rule_body(k as int, *ctx));
    out
}


// ─── Generator ───────────────────────────────────────────────────

/// How a topic is written in keys (its `Debug` name).
pub open spec fn category_name(c: InsightCategory) -> Seq<char> {
    match c {
        InsightCategory::Pattern => "Pattern"@,
        InsightCategory::Architecture => "Architecture"@,
        InsightCategory::Tool => "Tool"@,
        InsightCategory::Decision => "Decision"@,
        InsightCategory::Concept => "Concept"@,
        InsightCategory::Why => "Why"@,
    }
}

fn category_name_of(c: InsightCategory) -> (r: &'static str)
    ensures
        r@ == category_name(c),
{
    match c {
        InsightCategory::Pattern => "Pattern",
        InsightCategory::Architecture => "Architecture",
        InsightCategory::Tool => "Tool",
        InsightCategory::Decision => "Decision",
        InsightCategory::Concept => "Concept",
        InsightCategory::Why => "Why",
    }
}

/// The key under which rule `k` fires at most once per source.
pub open spec fn dedup_key(k: int, source: Seq<char>) -> Seq<char> {
    rule_title(k) + ":"@ + category_name(rule_category(k)) + ":"@ + source
}

/// The first rule at or after `k` that matches the event and has not fired
/// for `source`.
pub open spec fn first_fire(ctx: InsightContext<'_>, seen: Set<Seq<char>>, source: Seq<char>, k: int) -> Option<int>
    decreases rule_count() - k,
{
    if k < 0 || k >= rule_count() {
        None
    } else if rule_matches(k, ctx) && !seen.contains(dedup_key(k, source)) {
        Some(k)
    } else {
        first_fire(ctx, seen, source, k + 1)
    }
}

/// An insight as plain values, without its time stamp.
pub ghost struct InsightView {
    pub category: InsightCategory,
    pub title: Seq<char>,
    pub body: Seq<char>,
    pub source: Seq<char>,
}

/// The plain view of an insight, without its time stamp.
pub open spec fn insight_view(i: Insight) -> InsightView {
    InsightView { category: i.category, title: i.title@, body: i.body@, source: i.source@ }
}

/// The insights a generator holds and the keys it has seen.
pub ghost struct GeneratorView {
    pub insights: Seq<InsightView>,
    pub seen: Set<Seq<char>>,
}

/// Produces insights from the events of a run, each rule at most once per
/// source.
pub struct InsightGenerator {
    insights: Vec<Insight>,
    seen_keys: Vec<String>,
}

impl View for InsightGenerator {
    type V = GeneratorView;

    closed spec fn view(&self) -> GeneratorView {
        GeneratorView {
            insights: self.insights@.map_values(|i: Insight| insight_view(i)),
            seen: views(self.seen_keys@).to_set(),
        }
    }
}

/// The insight of rule `k` for the event, from `source`.
pub open spec fn rule_insight(k: int, ctx: InsightContext<'_>, source: Seq<char>) -> InsightView {
    InsightView { category: rule_category(k), title: rule_title(k), body: rule_body(k, ctx), source }
}

/// What evaluating an event does: the first rule that fires adds its
/// insight and marks its key; when none fires nothing changes.
pub open spec fn evaluated(old: GeneratorView, new: GeneratorView, ctx: InsightContext<'_>, source: Seq<char>) -> bool {
    match first_fire(ctx, old.seen, source, 0) {
        Some(k) => new.insights == old.insights.push(rule_insight(k, ctx, source)) && new.seen == old.seen.insert(
            dedup_key(k, source),
        ),
        None => new == old,
    }
}

/// The rule `first_fire` finds matches the event and has not fired for the
/// source.
proof fn lemma_first_fire(ctx: InsightContext<'_>, seen: Set<Seq<char>>, source: Seq<char>, j: int, k: int)
    requires
        first_fire(ctx, seen, source, j) == Some(k),
    ensures
        j <= k < rule_count(),
        rule_matches(k, ctx),
        !seen.contains(dedup_key(k, source)),
    decreases rule_count() - j,
{
    if j >= 0 && j < rule_count() && !(rule_matches(j, ctx) && !seen.contains(dedup_key(j, source))) {
        lemma_first_fire(ctx, seen, source, j + 1, k);
    }
}

/// An event adds at most one insight, from the event's source, after the
/// ones held; the keys seen only grow; an added insight is that of a rule
/// whose key for the source was not seen before and is seen after.
pub proof fn lemma_event_adds_at_most_one(old: GeneratorView, new: GeneratorView, ctx: InsightContext<'_>, source: Seq<char>)
    requires
        evaluated(old, new, ctx, source),
    ensures
        new.insights.len() <= old.insights.len() + 1,
        new.insights.take(old.insights.len() as int) == old.insights,
        old.seen.subset_of(new.seen),
        new.insights.len() == old.insights.len() + 1 ==> new.insights.last().source == source && exists|k: int|
            0 <= k < rule_count() && !old.seen.contains(#[trigger] dedup_key(k, source))
            && new.seen.contains(dedup_key(k, source)) && new.insights.last() == rule_insight(k, ctx, source),
{
    match first_fire(ctx, old.seen, source, 0) {
        Some(k) => {
            lemma_first_fire(ctx, old.seen, source, 0, k);
            assert(new.insights.take(old.insights.len() as int) =~= old.insights);
        },
        None => {
            assert(new.insights.take(old.insights.len() as int) =~= old.insights);
        },
    }
}

/// Once a rule has fired for a source, later events from that source never
/// fire it again, whatever happened in between, as long as the keys seen
/// were kept.
pub proof fn lemma_rule_fires_once_per_source(
    g0: GeneratorView,
    g1: GeneratorView,
    later: Set<Seq<char>>,
    ctx1: InsightContext<'_>,
    ctx2: InsightContext<'_>,
    source: Seq<char>,
    k: int,
)
    requires
        evaluated(g0, g1, ctx1, source),
        first_fire(ctx1, g0.seen, source, 0) == Some(k),
        g1.seen.subset_of(later),
    ensures
        first_fire(ctx2, later, source, 0) != Some(k),
{
    if first_fire(ctx2, later, source, 0) == Some(k) {
        lemma_first_fire(ctx2, later, source, 0, k);
        assert(g1.seen.contains(dedup_key(k, source)));
    }
}

/// `i` carries the title and category of rule `k`.
pub open spec fn is_rule_insight(i: InsightView, k: int) -> bool {
    i.title == rule_title(k) && i.category == rule_category(k)
}

/// The generator holds an insight of rule `k` from `source`.
pub open spec fn rule_held(g: GeneratorView, k: int, source: Seq<char>) -> bool {
    exists|j: int| 0 <= j < g.insights.len() && #[trigger] is_rule_insight(g.insights[j], k) && g.insights[j].source == source
}

/// Every rule insight the generator holds has its key, for its source,
/// among the keys seen.
pub open spec fn keys_cover(g: GeneratorView) -> bool {
    forall|k: int, source: Seq<char>| #[trigger] rule_held(g, k, source) ==> g.seen.contains(dedup_key(k, source))
}

/// Evaluating an event keeps every held rule insight covered by a seen key;
/// and an insight of a rule already held from a source keeps the rule from
/// firing again for that source.
pub proof fn lemma_held_insight_blocks_rule(old: GeneratorView, new: GeneratorView, ctx: InsightContext<'_>, source: Seq<char>)
    requires
        keys_cover(old),
        evaluated(old, new, ctx, source),
    ensures
        keys_cover(new),
        forall|k: int| #[trigger] rule_held(old, k, source) ==> first_fire(ctx, old.seen, source, 0) != Some(k),
{
    assert forall|k: int| #[trigger] rule_held(old, k, source) implies first_fire(ctx, old.seen, source, 0) != Some(k) by {
        if first_fire(ctx, old.seen, source, 0) == Some(k) {
            lemma_first_fire(ctx, old.seen, source, 0, k);
        }
    }
    match first_fire(ctx, old.seen, source, 0) {
        Some(k0) => {
            assert forall|k: int, src: Seq<char>| #[trigger] rule_held(new, k, src) implies new.seen.contains(dedup_key(k, src)) by {
                let j = choose|j: int| 0 <= j < new.insights.len() && #[trigger] is_rule_insight(new.insights[j], k) && new.insights[j].source == src;
                if j < old.insights.len() {
                    assert(new.insights[j] == old.insights[j]);
                    assert(rule_held(old, k, src));
                } else {
                    assert(new.insights[j] == rule_insight(k0, ctx, source));
                    assert(dedup_key(k, src) == dedup_key(k0, source));
                }
            }
        },
        None => {},
    }
}

/// A generator with no insight covers its (no) rule insights.
pub proof fn lemma_empty_keys_cover(g: GeneratorView)
    requires
        g.insights.len() == 0,
    ensures
        keys_cover(g),
{
}

fn owned_str(s: &str) -> (r: String)
    ensures
        r@ == s@,
{
    let mut out = String::new();
    push_str(&mut out, s);
    assert(out@ =~= s@);
    out
}

impl InsightGenerator {
    /// A generator with no insight and no key seen.
    pub fn new() -> (r: Self)
        ensures
            r@.insights.len() == 0,
            r@.seen == Set::<Seq<char>>::empty(),
    {
        let r = InsightGenerator { insights: Vec::new(), seen_keys: Vec::new() };
        assert(views(r.seen_keys@).to_set() =~= Set::<Seq<char>>::empty());
        r
    }

    fn seen(&self, key: &String) -> (r: bool)
        ensures
            r == self@.seen.contains(key@),
    {
        let mut k: usize = 0;
        while k < self.seen_keys.len()
            invariant
                k <= self.seen_keys.len(),
                forall|m: int| 0 <= m < k ==> self.seen_keys@[m]@ != key@,
            decreases self.seen_keys.len() - k,
        {
            if str_eq(self.seen_keys[k].as_str(), key.as_str()) {
                assert(views(self.seen_keys@)[k as int] == key@);
                return true;
            }
            k = k + 1;
        }
        proof {
            if views(self.seen_keys@).contains(key@) {
                let m = choose|m: int| 0 <= m < self.seen_keys@.len() && views(self.seen_keys@)[m] == key@;
                assert(self.seen_keys@[m]@ == key@);
            }
        }
        false
    }

    fn mark(&mut self, key: String)
        ensures
            final(self)@ == (GeneratorView { seen: old(self)@.seen.insert(key@), ..old(self)@ }),
    {
        let ghost k = key@;
        self.seen_keys.push(key);
        assert(views(self.seen_keys@) =~= views(old(self).seen_keys@).push(k));
        proof {
            views(old(self).seen_keys@).lemma_push_to_set_commute(k);
        }
    }

    fn record(&mut self, insight: Insight)
        ensures
            final(self)@ == (GeneratorView { insights: old(self)@.insights.push(insight_view(insight)), ..old(self)@ }),
    {
        let ghost v = insight_view(insight);
        self.insights.push(insight);
        assert(self.insights@.map_values(|i: Insight| insight_view(i)) =~= old(self).insights@.map_values(
            |i: Insight| insight_view(i),
        ).push(v));
    }

    /// Runs the rules on an event, in order: the first that matches and has
    /// not yet fired for `source` adds its insight. One insight per event.
    pub fn evaluate(&mut self, context: &InsightContext, source: &str)
        ensures
            evaluated(old(self)@, final(self)@, *context, source@),
    {
        let titles = build_rules();
        let mut k: usize = 0;
        while k < 13
            invariant
                k <= 13,
                self@ == old(self)@,
                titles@.len() == rule_count(),
                forall|m: int| 0 <= m < rule_count() ==> (#[trigger] titles@[m]).category == rule_category(m) && titles@[m].title@ == rule_title(m),
                first_fire(*context, self@.seen, source@, 0) == first_fire(*context, self@.seen, source@, k as int),
            decreases 13 - k,
        {
            let rule = titles[k];
            let mut key = String::new();
            push_str(&mut key, rule.title);
            push_str(&mut key, ":");
            push_str(&mut key, category_name_of(rule.category));
            push_str(&mut key, ":");
            push_str(&mut key, source);
            assert(key@ =~= dedup_key(k as int, source@));
            if rule_matches_exec(k, context) && !self.seen(&key) {
                self.mark(key);
                let body = rule_body_exec(k, context);
                let insight = Insight {
                    timestamp: now_rfc3339(),
                    category: rule.category,
                    title: owned_str(rule.title),
                    body,
                    source: owned_str(source),
                };
                self.record(insight);
                return;
            }
            k = k + 1;
        }
    }

    /// An agent's tool call, with the task it works on if known.
    pub fn on_tool_use(&mut self, worker_id: &str, tool_name: &str, tool_input: Option<JsonValue>, task: Option<&Task>)
        ensures
            exists|ctx: InsightContext| ctx.event == InsightEvent::ToolUse && crate::events::opt_view(ctx.tool_name) == Some(tool_name@) && ctx.tool_input == tool_input
                && ctx.task == task && ctx.result is None && evaluated(old(self)@, final(self)@, ctx, worker_id@),
    {
        let ctx = InsightContext {
            event: InsightEvent::ToolUse,
            tool_name: Some(owned_str(tool_name)),
            tool_input,
            task,
            result: None,
            decision: None,
            reasoning: None,
        };
        self.evaluate(&ctx, worker_id);
    }

    /// A finished task and its result.
    pub fn on_task_complete(&mut self, worker_id: &str, task: &Task, result: &TaskResult)
        ensures
            exists|ctx: InsightContext| ctx.event == InsightEvent::TaskComplete && ctx.tool_name is None
                && ctx.tool_input is None && ctx.task == Some(task) && ctx.result == Some(result)
                && evaluated(old(self)@, final(self)@, ctx, worker_id@),
    {
        let ctx = InsightContext {
            event: InsightEvent::TaskComplete,
            tool_name: None,
            tool_input: None,
            task: Some(task),
            result: Some(result),
            decision: None,
            reasoning: None,
        };
        self.evaluate(&ctx, worker_id);
    }

    /// A rate limit, reported from the system.
    pub fn on_rate_limit(&mut self)
        ensures
            exists|ctx: InsightContext| ctx.event == InsightEvent::RateLimit && evaluated(old(self)@, final(self)@, ctx, "system"@),
    {
        let ctx = InsightContext {
            event: InsightEvent::RateLimit,
            tool_name: None,
            tool_input: None,
            task: None,
            result: None,
            decision: None,
            reasoning: None,
        };
        self.evaluate(&ctx, "system");
    }

    /// A worker branch merged back.
    pub fn on_worktree_merge(&mut self, worker_id: &str)
        ensures
            exists|ctx: InsightContext| ctx.event == InsightEvent::WorktreeMerge && evaluated(old(self)@, final(self)@, ctx, worker_id@),
    {
        let ctx = InsightContext {
            event: InsightEvent::WorktreeMerge,
            tool_name: None,
            tool_input: None,
            task: None,
            result: None,
            decision: None,
            reasoning: None,
        };
        self.evaluate(&ctx, worker_id);
    }

    /// Records a planning decision of the conductor, with its reasoning.
    pub fn on_conductor_decision(&mut self, decision: &str, reasoning: &str)
        ensures
            final(self)@ == (GeneratorView {
                insights: old(self)@.insights.push(InsightView {
                    category: InsightCategory::Decision,
                    title: decision@,
                    body: reasoning@,
                    source: "conductor"@,
                }),
                ..old(self)@
            }),
    {
        let insight = Insight {
            timestamp: now_rfc3339(),
            category: InsightCategory::Decision,
            title: owned_str(decision),
            body: owned_str(reasoning),
            source: owned_str("conductor"),
        };
        self.record(insight);
    }

    /// Explains why a task was given to a musician: its reason, its
    /// dependencies, its model, its files and its success criteria.
    pub fn on_task_assigned(&mut self, worker_id: &str, task: &Task)
        requires
            task.index < usize::MAX,
            forall|k: int| 0 <= k < task.dependencies@.len() ==> #[trigger] task.dependencies@[k] < usize::MAX,
        ensures
            final(self)@ == (GeneratorView {
                insights: old(self)@.insights.push(InsightView {
                    category: InsightCategory::Why,
                    title: "Task "@ + decimal((task.index + 1) as nat) + " — \""@ + task.title@ + "\""@,
                    body: assignment_text(*task),
                    source: worker_id@,
                }),
                ..old(self)@
            }),
    {
        let mut title = String::new();
        push_str(&mut title, "Task ");
        push_decimal(&mut title, (task.index + 1) as u64);
        push_str(&mut title, " — \"");
        push_str(&mut title, task.title.as_str());
        push_str(&mut title, "\"");
        let body = assignment_body(task);
        let insight = Insight {
            timestamp: now_rfc3339(),
            category: InsightCategory::Why,
            title,
            body,
            source: owned_str(worker_id),
        };
        self.record(insight);
    }

    /// Adds an insight unless one with the same title was added before
    /// (titles share the key space of the rules).
    pub fn add_insight(&mut self, insight: Insight)
        ensures
            old(self)@.seen.contains(insight.title@) ==> final(self)@ == old(self)@,
            !old(self)@.seen.contains(insight.title@) ==> final(self)@ == (GeneratorView {
                insights: old(self)@.insights.push(insight_view(insight)),
                seen: old(self)@.seen.insert(insight.title@),
            }),
    {
        if !self.seen(&insight.title) {
            self.mark(insight.title.clone());
            self.record(insight);
        }
    }

    /// The latest `count` insights, oldest first.
    pub fn get_insights(&self, count: usize) -> (r: &[Insight])
        ensures
            r@.map_values(|i: Insight| insight_view(i)) == self@.insights.skip(
                if count >= self@.insights.len() { 0 } else { self@.insights.len() - count },
            ),
    {
        let len = self.insights.len();
        let start = if count >= len { 0 } else { len - count };
        let r = vstd::slice::slice_subrange(self.insights.as_slice(), start, len);
        assert(self.insights@.subrange(start as int, len as int) =~= self.insights@.skip(start as int));
        assert(r@.map_values(|i: Insight| insight_view(i)) =~= self@.insights.skip(start as int));
        r
    }

    /// All insights, oldest first.
    pub fn get_all_insights(&self) -> (r: &[Insight])
        ensures
            r@.map_values(|i: Insight| insight_view(i)) == self@.insights,
    {
        self.insights.as_slice()
    }
}

impl Default for InsightGenerator {
    fn default() -> (r: Self)
        ensures
            r@.insights.len() == 0,
            r@.seen == Set::<Seq<char>>::empty(),
    {
        Self::new()
    }
}

/// The text explaining a task assignment: the reason for it (or its
/// description), its dependencies, its model, its files and its criteria.
pub open spec fn assignment_text(t: Task) -> Seq<char> {
    why_part(t) + deps_part(t) + model_part(t) + files_part(t) + criteria_part(t)
}

/// Why the task exists, or what it is when no reason is given.
pub open spec fn why_part(t: Task) -> Seq<char> {
    if t.why@.len() > 0 { t.why@ } else { t.description@ }
}

/// The dependencies line of an assignment.
pub open spec fn deps_part(t: Task) -> Seq<char> {
    if t.dependencies@.len() > 0 {
        "\nDepends on: "@ + join(dependency_names(t.dependencies@), ", "@)
    } else {
        "\nNo dependencies — can start immediately."@
    }
}

/// The model line of an assignment.
pub open spec fn model_part(t: Task) -> Seq<char> {
    match t.model {
        Some(m) => "\nModel: "@ + m@ + " ("@ + model_description(m@) + ")"@,
        None => Seq::empty(),
    }
}

/// The files line of an assignment.
pub open spec fn files_part(t: Task) -> Seq<char> {
    if t.file_scope@.len() > 0 {
        "\nFiles: "@ + join(views(t.file_scope@), ", "@)
    } else {
        Seq::empty()
    }
}

/// The criteria line of an assignment.
pub open spec fn criteria_part(t: Task) -> Seq<char> {
    if t.acceptance_criteria@.len() > 0 {
        "\nSuccess criteria: "@ + join(views(t.acceptance_criteria@), "; "@)
    } else {
        Seq::empty()
    }
}

/// `Task n` for each dependency, counting tasks from one.
pub open spec fn dependency_names(deps: Seq<usize>) -> Seq<Seq<char>> {
    Seq::new(deps.len(), |i: int| "Task "@ + decimal((deps[i] + 1) as nat))
}

/// Why a model was chosen, as told in assignment insights.
pub open spec fn model_description(m: Seq<char>) -> Seq<char> {
    if m == "opus"@ {
        "complex task requiring deep reasoning"@
    } else if m == "haiku"@ {
        "simple/trivial task"@
    } else {
        "standard complexity"@
    }
}

fn dependency_list(deps: &Vec<usize>) -> (r: String)
    requires
        forall|k: int| 0 <= k < deps@.len() ==> #[trigger] deps@[k] < usize::MAX,
    ensures
        r@ == join(dependency_names(deps@), ", "@),
{
    let mut names: Vec<String> = Vec::new();
    let mut k: usize = 0;
    while k < deps.len()
        invariant
            k <= deps.len(),
            forall|m: int| 0 <= m < deps@.len() ==> #[trigger] deps@[m] < usize::MAX,
            views(names@) == dependency_names(deps@.take(k as int)),
        decreases deps.len() - k,
    {
        let mut name = String::new();
        push_str(&mut name, "Task ");
        push_decimal(&mut name, (deps[k] + 1) as u64);
        let ghost before = views(names@);
        let ghost nv = name@;
        names.push(name);
        assert(nv =~= "Task "@ + decimal((deps@[k as int] + 1) as nat));
        assert(views(names@) =~= before.push(nv));
        assert(dependency_names(deps@.take(k + 1)) =~= dependency_names(deps@.take(k as int)).push(nv));
        assert(views(names@) =~= dependency_names(deps@.take(k + 1)));
        k = k + 1;
    }
    assert(deps@.take(deps.len() as int) =~= deps@);
    let j = join_strings(&names, ", ");
    j
}

fn push_deps_part(out: &mut String, t: &Task)
    requires
        forall|k: int| 0 <= k < t.dependencies@.len() ==> #[trigger] t.dependencies@[k] < usize::MAX,
    ensures
        final(out)@ == old(out)@ + deps_part(*t),
{
    if t.dependencies.len() > 0 {
        push_str(out, "\nDepends on: ");
        let j = dependency_list(&t.dependencies);
        push_str(out, j.as_str());
        assert(final(out)@ =~= old(out)@ + deps_part(*t));
    } else {
        push_str(out, "\nNo dependencies — can start immediately.");
    }
}

fn push_model_part(out: &mut String, t: &Task)
    ensures
        final(out)@ == old(out)@ + model_part(*t),
{
    match &t.model {
        Some(m) => {
            push_str(out, "\nModel: ");
            push_str(out, m.as_str());
            push_str(out, " (");
            if str_eq(m.as_str(), "opus") {
                push_str(out, "complex task requiring deep reasoning");
            } else if str_eq(m.as_str(), "haiku") {
                push_str(out, "simple/trivial task");
            } else {
                push_str(out, "standard complexity");
            }
            push_str(out, ")");
            assert(final(out)@ =~= old(out)@ + model_part(*t));
        },
        None => {
            assert(old(out)@ + Seq::<char>::empty() =~= old(out)@);
        },
    }
}

fn push_list_part(out: &mut String, items: &Vec<String>, label: &str, sep: &str)
    ensures
        final(out)@ == old(out)@ + if items@.len() > 0 {
            label@ + join(views(items@), sep@)
        } else {
            Seq::empty()
        },
{
    if items.len() > 0 {
        push_str(out, label);
        let j = join_strings(items, sep);
        push_str(out, j.as_str());
        assert(final(out)@ =~= old(out)@ + (label@ + join(views(items@), sep@)));
    } else {
        assert(old(out)@ + Seq::<char>::empty() =~= old(out)@);
    }
}

fn assignment_body(t: &Task) -> (r: String)
    requires
        forall|k: int| 0 <= k < t.dependencies@.len() ==> #[trigger] t.dependencies@[k] < usize::MAX,
    ensures
        r@ == assignment_text(*t),
{
    let mut out = String::new();
    if !t.why.as_str().is_empty() {
        push_str(&mut out, t.why.as_str());
    } else {
        push_str(&mut out, t.description.as_str());
    }
    assert(out@ =~= why_part(*t));
    push_deps_part(&mut out, t);
    push_model_part(&mut out, t);
    push_list_part(&mut out, &t.file_scope, "\nFiles: ", ", ");
    push_list_part(&mut out, &t.acceptance_criteria, "\nSuccess criteria: ", "; ");
    assert(out@ =~= assignment_text(*t));
    out
}

/// A rule that has fired for a source does not fire for it again.
pub proof fn lemma_fires_once(ctx: InsightContext, seen: Set<Seq<char>>, source: Seq<char>, k: int, j: int)
    requires
        first_fire(ctx, seen, source, j) == Some(k),
        0 <= j,
    ensures
        0 <= k < rule_count(),
        rule_matches(k, ctx),
        !seen.contains(dedup_key(k, source)),
        forall|ctx2: InsightContext| first_fire(ctx2, seen.insert(dedup_key(k, source)), source, j) != Some(k),
    decreases rule_count() - j,
{
    if j < rule_count() {
        if rule_matches(k, ctx) && !seen.contains(dedup_key(j, source)) && j == k {
        } else {
            lemma_fires_once(ctx, seen, source, k, j + 1);
        }
        assert forall|ctx2: InsightContext| first_fire(ctx2, seen.insert(dedup_key(k, source)), source, j) != Some(k) by {
            lemma_never_fires(ctx2, seen.insert(dedup_key(k, source)), source, k, j);
        }
    }
}

/// A rule whose key is marked never fires.
pub proof fn lemma_never_fires(ctx: InsightContext, seen: Set<Seq<char>>, source: Seq<char>, k: int, j: int)
    requires
        seen.contains(dedup_key(k, source)),
    ensures
        first_fire(ctx, seen, source, j) != Some(k),
    decreases rule_count() - j,
{
    if 0 <= j < rule_count() {
        lemma_never_fires(ctx, seen, source, k, j + 1);
    }
}

} // verus!
