//! Where sessions live on disk, how task files are named, and the summary
//! of an earlier session that a new one can be given as context.
//!
//! A session is kept under `~/.conductor/sessions/{session_id}/`, with its
//! metadata in `session.json` and `tasks/`, `logs/` and `memory/` beside it.
use crate::state::{OrchestraPhase, SessionData, Task, TaskStatus};
use crate::text::{
    all_ascii, chars_of, decimal, join, join_strings, lowercase, push_char, push_decimal,
    push_str, string_from_chars, to_lowercase, trimmed, views,
};
use vstd::prelude::*;
use vstd::string::StringSliceAdditionalSpecFns;
use vstd::utf8::*;

verus! {

broadcast use vstd::string::group_string_axioms;

// ─── Paths ───────────────────────────────────────────────────────

/// `part` joined onto `base`, as `std::path::Path::join` does it.
pub uninterp spec fn joined_path(base: Seq<char>, part: Seq<char>) -> Seq<char>;

/// Calls `Path::join`; the result, as text, is named `joined_path` of the
/// arguments. Both come from text, so the path converts back losslessly.
/// As `Path::join` documents, an absolute part replaces the base; on Unix,
/// where this program runs, a path is absolute when it starts with '/'.
/// How a relative part is adjoined is left to the name.
#[verifier::external_body]
pub(crate) fn path_join(base: &str, part: &str) -> (r: String)
    ensures
        r@ == joined_path(base@, part@),
        part@.len() > 0 && part@[0] == '/' ==> r@ == part@,
{
    std::path::Path::new(base).join(part).to_string_lossy().into_owned()
}

/// Calls `dirs::home_dir`: the user's home directory, if the environment
/// gives one, as text (a path that is not valid UTF-8 is converted lossily,
/// since the library keeps paths as text). Nothing is stated of it.
#[verifier::external_body]
fn home_dir() -> Option<String> {
    dirs::home_dir().map(|p| p.to_string_lossy().into_owned())
}

/// The directory that holds all sessions, under the given home directory
/// (the current directory when there is none).
pub open spec fn sessions_root(home: Option<Seq<char>>) -> Seq<char> {
    let h = match home {
        Some(h) => h,
        None => "."@,
    };
    joined_path(joined_path(h, ".conductor"@), "sessions"@)
}

/// The directory that holds all sessions under `home`.
pub fn sessions_root_in(home: Option<String>) -> (r: String)
    ensures
        r@ == sessions_root(match home {
            Some(h) => Some(h@),
            None => None,
        }),
{
    let h = match home {
        Some(h) => h,
        None => {
            let mut d = String::new();
            push_str(&mut d, ".");
            assert(d@ =~= "."@);
            d
        },
    };
    let c = path_join(h.as_str(), ".conductor");
    path_join(c.as_str(), "sessions")
}

/// The directory that holds all sessions of this user.
pub fn conductor_home() -> (r: String)
    ensures
        exists|home: Option<Seq<char>>| r@ == sessions_root(home),
{
    let home = home_dir();
    let r = sessions_root_in(home);
    r
}

/// The paths of one session's files.
pub struct TaskStore {
    session_id: String,
    session_dir: String,
}

/// A task store as plain values: its session and its directory.
pub ghost struct TaskStoreView {
    pub session_id: Seq<char>,
    pub session_dir: Seq<char>,
}

impl View for TaskStore {
    type V = TaskStoreView;

    closed spec fn view(&self) -> TaskStoreView {
        TaskStoreView { session_id: self.session_id@, session_dir: self.session_dir@ }
    }
}

impl TaskStore {
    /// The store of session `session_id` under the directory `root`.
    pub fn in_root(root: &str, session_id: &str) -> (r: Self)
        ensures
            r@.session_id == session_id@,
            r@.session_dir == joined_path(root@, session_id@),
    {
        let mut id = String::new();
        push_str(&mut id, session_id);
        assert(id@ =~= session_id@);
        TaskStore { session_id: id, session_dir: path_join(root, session_id) }
    }

    /// The store of session `session_id` in this user's session directory.
    pub fn new(session_id: &str) -> (r: Self)
        ensures
            r@.session_id == session_id@,
            exists|home: Option<Seq<char>>| r@.session_dir == joined_path(sessions_root(home), session_id@),
    {
        let root = conductor_home();
        Self::in_root(root.as_str(), session_id)
    }

    /// The session directory.
    pub fn base_path(&self) -> (r: &str)
        ensures
            r@ == self@.session_dir,
    {
        self.session_dir.as_str()
    }

    /// The directory of task files.
    pub fn tasks_dir(&self) -> (r: String)
        ensures
            r@ == joined_path(self@.session_dir, "tasks"@),
    {
        path_join(self.session_dir.as_str(), "tasks")
    }

    /// The directory of musician logs.
    pub fn logs_dir(&self) -> (r: String)
        ensures
            r@ == joined_path(self@.session_dir, "logs"@),
    {
        path_join(self.session_dir.as_str(), "logs")
    }

    /// The directory of shared memory.
    pub fn memory_dir(&self) -> (r: String)
        ensures
            r@ == joined_path(self@.session_dir, "memory"@),
    {
        path_join(self.session_dir.as_str(), "memory")
    }

    /// The session metadata file.
    pub fn session_file(&self) -> (r: String)
        ensures
            r@ == joined_path(self@.session_dir, "session.json"@),
    {
        path_join(self.session_dir.as_str(), "session.json")
    }

    /// The file a task is saved in: `{index:03}-{slug}.json` in the tasks
    /// directory.
    pub fn task_file(&self, task: &Task) -> (r: String)
        ensures
            r@ == joined_path(joined_path(self@.session_dir, "tasks"@), task_file_name(task.index as nat, task.title@)),
    {
        let dir = self.tasks_dir();
        let name = task_file_name_of(task.index, task.title.as_str());
        path_join(dir.as_str(), name.as_str())
    }

    /// The session's identifier.
    pub fn session_id(&self) -> (r: &str)
        ensures
            r@ == self@.session_id,
    {
        self.session_id.as_str()
    }
}

// ─── Task file names ─────────────────────────────────────────────

/// An ASCII letter or digit.
pub open spec fn is_ascii_alnum(c: char) -> bool {
    ('a' <= c && c <= 'z') || ('A' <= c && c <= 'Z') || ('0' <= c && c <= '9')
}

/// Leading dashes of `s`.
pub open spec fn lead_dashes(s: Seq<char>) -> nat
    decreases s.len(),
{
    if s.len() > 0 && s[0] == '-' { 1 + lead_dashes(s.drop_first()) } else { 0 }
}

/// Trailing dashes of `s`.
pub open spec fn trail_dashes(s: Seq<char>) -> nat
    decreases s.len(),
{
    if s.len() > 0 && s.last() == '-' { 1 + trail_dashes(s.drop_last()) } else { 0 }
}

/// `s` without leading and trailing dashes.
pub open spec fn trim_dashes(s: Seq<char>) -> Seq<char> {
    let rest = s.skip(lead_dashes(s) as int);
    rest.take(rest.len() - trail_dashes(rest))
}

/// The slug of a title: lowercased, every character but ASCII letters and
/// digits turned into a dash, dashes trimmed, at most 50 characters.
pub open spec fn slug(text: Seq<char>) -> Seq<char> {
    let mapped = lowercase(text).map_values(|c: char| if is_ascii_alnum(c) { c } else { '-' });
    let t = trim_dashes(mapped);
    t.take(if t.len() < 50 { t.len() as int } else { 50 })
}

proof fn lemma_lead_dashes(s: Seq<char>, k: int)
    requires
        0 <= k <= s.len(),
        forall|m: int| 0 <= m < k ==> #[trigger] s[m] == '-',
        k == s.len() || s[k] != '-',
    ensures
        lead_dashes(s) == k,
    decreases k,
{
    if k > 0 {
        lemma_lead_dashes(s.drop_first(), k - 1);
    }
}

proof fn lemma_trail_dashes(s: Seq<char>, k: int)
    requires
        0 <= k <= s.len(),
        forall|m: int| s.len() - k <= m < s.len() ==> #[trigger] s[m] == '-',
        k == s.len() || s[s.len() - k - 1] != '-',
    ensures
        trail_dashes(s) == k,
    decreases k,
{
    if k > 0 {
        lemma_trail_dashes(s.drop_last(), k - 1);
    }
}

/// The slug of a title, used in task file names.
pub fn slugify(text: &str) -> (r: String)
    ensures
        r@ == slug(text@),
{
    let lower = to_lowercase(text);
    let cs = chars_of(lower.as_str());
    let n = cs.len();
    let mut mapped: Vec<char> = Vec::new();
    let mut i: usize = 0;
    while i < n
        invariant
            n == cs.len(),
            i <= n,
            mapped@ == cs@.take(i as int).map_values(|c: char| if is_ascii_alnum(c) { c } else { '-' }),
        decreases n - i,
    {
        let c = cs[i];
        let alnum = ('a' <= c && c <= 'z') || ('A' <= c && c <= 'Z') || ('0' <= c && c <= '9');
        mapped.push(if alnum { c } else { '-' });
        i = i + 1;
        assert(mapped@ =~= cs@.take(i as int).map_values(|c: char| if is_ascii_alnum(c) { c } else { '-' }));
    }
    assert(cs@.take(n as int) =~= cs@);
    let ghost m = mapped@;
    let mut a: usize = 0;
    while a < n && mapped[a] == '-'
        invariant
            a <= n,
            n == mapped.len(),
            forall|k: int| 0 <= k < a ==> #[trigger] m[k] == '-',
            m == mapped@,
        decreases n - a,
    {
        a = a + 1;
    }
    proof {
        lemma_lead_dashes(m, a as int);
    }
    let mut b: usize = n;
    while b > a && mapped[b - 1] == '-'
        invariant
            a <= b <= n,
            n == mapped.len(),
            forall|k: int| b <= k < n ==> #[trigger] m[k] == '-',
            m == mapped@,
        decreases b,
    {
        b = b - 1;
    }
    let ghost rest = m.skip(a as int);
    proof {
        assert forall|k: int| rest.len() - (n - b) <= k < rest.len() implies #[trigger] rest[k] == '-' by {
            assert(rest[k] == m[a + k]);
        }
        if b > a {
            assert(rest[rest.len() - (n - b) - 1] == m[b - 1]);
        }
        lemma_trail_dashes(rest, (n - b) as int);
    }
    let stop: usize = if b - a < 50 { b } else { a + 50 };
    let mut out = String::new();
    let mut j: usize = a;
    while j < stop
        invariant
            a <= j <= stop,
            stop <= b,
            b <= n,
            n == mapped.len(),
            out@ == m.subrange(a as int, j as int),
            m == mapped@,
        decreases stop - j,
    {
        push_char(&mut out, mapped[j]);
        j = j + 1;
        assert(out@ =~= m.subrange(a as int, j as int));
    }
    assert(out@ =~= slug(text@));
    out
}

/// The name of the file that holds task `index` with title `title`.
pub open spec fn task_file_name(index: nat, title: Seq<char>) -> Seq<char> {
    let digits = decimal(index);
    let padded = if digits.len() < 3 {
        Seq::new((3 - digits.len()) as nat, |i: int| '0') + digits
    } else {
        digits
    };
    padded + "-"@ + slug(title) + ".json"@
}

/// The name of the file that holds task `index` with title `title`.
pub fn task_file_name_of(index: usize, title: &str) -> (r: String)
    ensures
        r@ == task_file_name(index as nat, title@),
{
    let mut out = String::new();
    if index < 10 {
        push_str(&mut out, "00");
    } else if index < 100 {
        push_str(&mut out, "0");
    }
    push_decimal(&mut out, index as u64);
    push_str(&mut out, "-");
    let s = slugify(title);
    push_str(&mut out, s.as_str());
    push_str(&mut out, ".json");
    proof {
        reveal_strlit("00");
        reveal_strlit("0");
        crate::text::lemma_decimal_len(index as nat);
    }
    assert(out@ =~= task_file_name(index as nat, title@));
    out
}

/// Cuts `s` to at most `max` bytes; `max` must fall on a character
/// boundary when `s` is longer.
pub fn truncate(s: &str, max: usize) -> (r: &str)
    requires
        s.spec_bytes().len() > max ==> is_char_boundary(s.spec_bytes(), max as int),
    ensures
        s.spec_bytes().len() <= max ==> r@ == s@,
        s.spec_bytes().len() > max ==> r.spec_bytes() == s.spec_bytes().subrange(0, max as int),
{
    let len = s.as_bytes().len();
    if len <= max {
        s
    } else {
        proof {
            encode_utf8_valid_utf8(s@);
        }
        let (head, _tail) = s.split_at(max);
        head
    }
}


// ─── Summary of an earlier session ───────────────────────────────

/// How a phase is written in summaries (its `Debug` name).
pub open spec fn phase_name(p: OrchestraPhase) -> Seq<char> {
    match p {
        OrchestraPhase::Init => "Init"@,
        OrchestraPhase::Planning => "Planning"@,
        OrchestraPhase::Exploring => "Exploring"@,
        OrchestraPhase::Analyzing => "Analyzing"@,
        OrchestraPhase::Decomposing => "Decomposing"@,
        OrchestraPhase::PlanReview => "PlanReview"@,
        OrchestraPhase::PhaseDetailing => "PhaseDetailing"@,
        OrchestraPhase::PhaseExecuting => "PhaseExecuting"@,
        OrchestraPhase::PhaseMerging => "PhaseMerging"@,
        OrchestraPhase::PhaseReviewing => "PhaseReviewing"@,
        OrchestraPhase::Executing => "Executing"@,
        OrchestraPhase::Reviewing => "Reviewing"@,
        OrchestraPhase::FinalReview => "FinalReview"@,
        OrchestraPhase::Integrating => "Integrating"@,
        OrchestraPhase::Paused => "Paused"@,
        OrchestraPhase::Probing => "Probing"@,
        OrchestraPhase::Complete => "Complete"@,
        OrchestraPhase::Failed => "Failed"@,
    }
}

/// How a phase is written in summaries.
pub fn phase_name_of(p: OrchestraPhase) -> (r: &'static str)
    ensures
        r@ == phase_name(p),
{
    match p {
        OrchestraPhase::Init => "Init",
        OrchestraPhase::Planning => "Planning",
        OrchestraPhase::Exploring => "Exploring",
        OrchestraPhase::Analyzing => "Analyzing",
        OrchestraPhase::Decomposing => "Decomposing",
        OrchestraPhase::PlanReview => "PlanReview",
        OrchestraPhase::PhaseDetailing => "PhaseDetailing",
        OrchestraPhase::PhaseExecuting => "PhaseExecuting",
        OrchestraPhase::PhaseMerging => "PhaseMerging",
        OrchestraPhase::PhaseReviewing => "PhaseReviewing",
        OrchestraPhase::Executing => "Executing",
        OrchestraPhase::Reviewing => "Reviewing",
        OrchestraPhase::FinalReview => "FinalReview",
        OrchestraPhase::Integrating => "Integrating",
        OrchestraPhase::Paused => "Paused",
        OrchestraPhase::Probing => "Probing",
        OrchestraPhase::Complete => "Complete",
        OrchestraPhase::Failed => "Failed",
    }
}

/// How a task status is written in summaries (its `Debug` name).
pub open spec fn status_name(s: TaskStatus) -> Seq<char> {
    match s {
        TaskStatus::Queued => "Queued"@,
        TaskStatus::Ready => "Ready"@,
        TaskStatus::InProgress => "InProgress"@,
        TaskStatus::Review => "Review"@,
        TaskStatus::Completed => "Completed"@,
        TaskStatus::Failed => "Failed"@,
        TaskStatus::Blocked => "Blocked"@,
        TaskStatus::Cancelled => "Cancelled"@,
    }
}

/// How a task status is written in summaries.
pub fn status_name_of(s: TaskStatus) -> (r: &'static str)
    ensures
        r@ == status_name(s),
{
    match s {
        TaskStatus::Queued => "Queued",
        TaskStatus::Ready => "Ready",
        TaskStatus::InProgress => "InProgress",
        TaskStatus::Review => "Review",
        TaskStatus::Completed => "Completed",
        TaskStatus::Failed => "Failed",
        TaskStatus::Blocked => "Blocked",
        TaskStatus::Cancelled => "Cancelled",
    }
}

/// The icon of a task status in summaries.
pub open spec fn status_icon(s: TaskStatus) -> Seq<char> {
    match s {
        TaskStatus::Completed => "✓"@,
        TaskStatus::Failed => "✗"@,
        _ => "○"@,
    }
}

/// The first `max` bytes of `s`, as characters.
pub open spec fn byte_cut(s: Seq<char>, max: nat) -> Seq<char> {
    let b = encode_utf8(s);
    if b.len() <= max { s } else { decode_utf8(b.subrange(0, max as int)) }
}

/// `s` can be cut at `max` bytes without splitting a character.
pub open spec fn cuttable(s: Seq<char>, max: nat) -> bool {
    encode_utf8(s).len() > max ==> is_char_boundary(encode_utf8(s), max as int)
}

/// Every text that a summary of `tasks` cuts can be cut there.
pub open spec fn summary_cuttable(tasks: Seq<Task>) -> bool {
    forall|k: int| 0 <= k < tasks.len() ==> {
        let t = #[trigger] tasks[k];
        &&& cuttable(t.description@, 200)
        &&& t.result matches Some(r) ==> cuttable(r.summary@, 300) && (r.error matches Some(e) ==> cuttable(e@, 200))
    }
}

/// The summary lines of one task.
pub open spec fn task_summary_lines(t: Task) -> Seq<Seq<char>> {
    let head = seq![
        status_icon(t.status) + " **"@ + t.title@ + "** ["@ + status_name(t.status) + "]"@,
        "  Description: "@ + byte_cut(t.description@, 200),
    ];
    match t.result {
        Some(r) => {
            let files = if r.files_modified@.len() > 0 {
                seq!["  Files: "@ + join(views(r.files_modified@), ", "@)]
            } else {
                Seq::empty()
            };
            let err = match r.error {
                Some(e) => seq!["  Error: "@ + byte_cut(e@, 200)],
                None => Seq::empty(),
            };
            head + seq!["  Result: "@ + byte_cut(r.summary@, 300)] + files + err
        },
        None => head,
    }
}

/// The summary lines of a list of tasks, in order.
pub open spec fn tasks_summary_lines(tasks: Seq<Task>) -> Seq<Seq<char>>
    decreases tasks.len(),
{
    if tasks.len() == 0 {
        Seq::empty()
    } else {
        tasks_summary_lines(tasks.drop_last()) + task_summary_lines(tasks.last())
    }
}

/// The summary of an earlier session, as lines.
pub open spec fn summary_lines(resolved: Seq<char>, session: SessionData, tasks: Seq<Task>, shared: Option<Seq<char>>) -> Seq<Seq<char>> {
    let head = seq![
        "## Previous Session: "@ + resolved,
        "**Task**: "@ + session.config.task_description@,
        "**Phase**: "@ + phase_name(session.phase),
        "**Date**: "@ + session.last_updated_at@,
        Seq::empty(),
        "### Tasks and Results"@,
    ];
    let mem = match shared {
        Some(m) => if trimmed(m).len() > 0 {
            seq![Seq::empty(), "### Shared Memory (musician discoveries)"@, byte_cut(m, 2000)]
        } else {
            Seq::empty()
        },
        None => Seq::empty(),
    };
    head + tasks_summary_lines(tasks) + mem
}

fn cut_string(s: &str, max: usize) -> (r: String)
    requires
        cuttable(s@, max as nat),
    ensures
        r@ == byte_cut(s@, max as nat),
{
    let t = truncate(s, max);
    proof {
        encode_utf8_decode_utf8(t@);
        encode_utf8_decode_utf8(s@);
    }
    let mut out = String::new();
    push_str(&mut out, t);
    assert(out@ =~= t@);
    out
}

fn line(parts_a: &str, parts_b: &str) -> (r: String)
    ensures
        r@ == parts_a@ + parts_b@,
{
    let mut out = String::new();
    push_str(&mut out, parts_a);
    push_str(&mut out, parts_b);
    assert(out@ =~= parts_a@ + parts_b@);
    out
}

fn push_task_lines(lines: &mut Vec<String>, t: &Task)
    requires
        cuttable(t.description@, 200),
        t.result matches Some(r) ==> cuttable(r.summary@, 300) && (r.error matches Some(e) ==> cuttable(e@, 200)),
    ensures
        views(final(lines)@) == views(old(lines)@) + task_summary_lines(*t),
{
    let ghost before = views(lines@);
    let icon: &str = match t.status {
        TaskStatus::Completed => "✓",
        TaskStatus::Failed => "✗",
        _ => "○",
    };
    let mut first = String::new();
    push_str(&mut first, icon);
    push_str(&mut first, " **");
    push_str(&mut first, t.title.as_str());
    push_str(&mut first, "** [");
    push_str(&mut first, status_name_of(t.status));
    push_str(&mut first, "]");
    lines.push(first);
    let d = cut_string(t.description.as_str(), 200);
    lines.push(line("  Description: ", d.as_str()));
    match &t.result {
        Some(r) => {
            let sm = cut_string(r.summary.as_str(), 300);
            lines.push(line("  Result: ", sm.as_str()));
            if r.files_modified.len() > 0 {
                let f = join_strings(&r.files_modified, ", ");
                lines.push(line("  Files: ", f.as_str()));
            }
            match &r.error {
                Some(e) => {
                    let ec = cut_string(e.as_str(), 200);
                    lines.push(line("  Error: ", ec.as_str()));
                },
                None => {},
            }
        },
        None => {},
    }
    assert(views(lines@) =~= before + task_summary_lines(*t));
}

/// The summary of an earlier session, given as context to a new one: its
/// task, phase and date, each task with its status and result, and the
/// shared memory its musicians wrote, when there is any. Long texts are
/// cut to a byte budget.
pub fn session_summary(resolved: &str, session: &SessionData, tasks: &[Task], shared: Option<&str>) -> (r: String)
    requires
        summary_cuttable(tasks@),
        shared matches Some(m) ==> cuttable(m@, 2000),
    ensures
        r@ == join(summary_lines(resolved@, *session, tasks@, match shared {
            Some(m) => Some(m@),
            None => None,
        }), "\n"@),
{
    let mut lines: Vec<String> = Vec::new();
    lines.push(line("## Previous Session: ", resolved));
    lines.push(line("**Task**: ", session.config.task_description.as_str()));
    lines.push(line("**Phase**: ", phase_name_of(session.phase)));
    lines.push(line("**Date**: ", session.last_updated_at.as_str()));
    lines.push(String::new());
    lines.push(line("### Tasks and Results", ""));
    proof {
        reveal_strlit("");
        assert("### Tasks and Results"@ + ""@ =~= "### Tasks and Results"@);
    }
    let ghost head = views(lines@);
    assert(head =~= seq![
        "## Previous Session: "@ + resolved@,
        "**Task**: "@ + session.config.task_description@,
        "**Phase**: "@ + phase_name(session.phase),
        "**Date**: "@ + session.last_updated_at@,
        Seq::empty(),
        "### Tasks and Results"@,
    ]);
    let mut k: usize = 0;
    while k < tasks.len()
        invariant
            k <= tasks.len(),
            summary_cuttable(tasks@),
            views(lines@) == head + tasks_summary_lines(tasks@.take(k as int)),
        decreases tasks.len() - k,
    {
        let ghost t = tasks@[k as int];
        push_task_lines(&mut lines, &tasks[k]);
        assert(tasks@.take(k + 1).drop_last() =~= tasks@.take(k as int));
        k = k + 1;
    }
    assert(tasks@.take(tasks.len() as int) =~= tasks@);
    let ghost mid = views(lines@);
    match shared {
        Some(m) => {
            if !crate::text::is_blank(m) {
                lines.push(String::new());
                lines.push(line("### Shared Memory (musician discoveries)", ""));
                lines.push(cut_string(m, 2000));
                assert("### Shared Memory (musician discoveries)"@ + ""@ =~= "### Shared Memory (musician discoveries)"@);
                assert(views(lines@) =~= mid + seq![Seq::empty(), "### Shared Memory (musician discoveries)"@, byte_cut(m@, 2000)]);
            } else {
                assert(views(lines@) =~= mid);
            }
        },
        None => {
            assert(views(lines@) =~= mid);
        },
    }
    let ghost shared_view = match shared {
        Some(m) => Some(m@),
        None => None::<Seq<char>>,
    };
    assert(views(lines@) =~= summary_lines(resolved@, *session, tasks@, shared_view));
    join_strings(&lines, "\n")
}

// ─── Resolving session ids ───────────────────────────────────────

/// The session directory names that begin with `partial`, in order.
pub open spec fn prefixed(names: Seq<Seq<char>>, partial: Seq<char>) -> Seq<Seq<char>>
    decreases names.len(),
{
    if names.len() == 0 {
        Seq::empty()
    } else {
        let rest = prefixed(names.drop_last(), partial);
        if crate::text::has_prefix(names.last(), partial) { rest.push(names.last()) } else { rest }
    }
}

/// The session a partial id names: itself where a session has exactly
/// that id, else the one session whose id begins with it; none where no
/// session or several do.
pub open spec fn resolved_id(partial: Seq<char>, exact: bool, names: Seq<Seq<char>>) -> Option<Seq<char>> {
    if exact {
        Some(partial)
    } else if prefixed(names, partial).len() == 1 {
        Some(prefixed(names, partial)[0])
    } else {
        None
    }
}

/// Resolves a partial session id against the session directory names
/// (see `resolved_id`); `exact` tells whether a session directory of that
/// very name exists.
pub fn resolve_session_id(partial: &str, exact: bool, names: &Vec<String>) -> (r: Option<String>)
    ensures
        crate::orchestra::opt_view(r) == resolved_id(partial@, exact, views(names@)),
{
    if exact {
        return Some(partial.to_string());
    }
    let mut found: Vec<String> = Vec::new();
    let mut k: usize = 0;
    while k < names.len()
        invariant
            k <= names@.len(),
            views(found@) == prefixed(views(names@).take(k as int), partial@),
        decreases names@.len() - k,
    {
        assert(views(names@).take(k + 1).drop_last() =~= views(names@).take(k as int));
        let ghost before = views(found@);
        if crate::text::starts_with_str(names[k].as_str(), partial) {
            found.push(names[k].clone());
            assert(views(found@) =~= before.push(names@[k as int]@));
        }
        k = k + 1;
    }
    assert(views(names@).take(names@.len() as int) =~= views(names@));
    if found.len() == 1 {
        let first = found[0].clone();
        Some(first)
    } else {
        None
    }
}

} // verus!
