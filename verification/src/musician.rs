//! A musician: one agent session working on one task in its own worktree.
//! This module holds its state and the decisions it takes while its session
//! streams events; starting the session and reading its stream is the front
//! end's work.
use crate::events::ClaudeEvent;
use crate::keys::bytes_of;
use crate::state::{Checkpoint, ClaudeEventType, MusicianStatus, Task, TaskResult, TokenUsage};
use crate::text::{decimal, join, push_char, push_decimal, push_str, views};
use crate::token_estimate::TokenCalibration;
use vstd::prelude::*;
use vstd::string::StringSliceAdditionalSpecFns;

verus! {

broadcast use vstd::string::group_string_axioms;

/// The output buffer keeps at most this many lines.
pub const OUTPUT_BUFFER_SIZE: usize = 200;
/// The output buffer keeps at most this many bytes (one line at least).
pub const OUTPUT_BUFFER_MAX_CHARS: usize = 100_000;

// ─── State ───────────────────────────────────────────────────────

/// What the interface shows of a musician.
#[derive(Clone, Debug)]
pub struct MusicianState {
    pub id: String,
    pub index: usize,
    pub status: MusicianStatus,
    pub current_task: Option<Task>,
    pub output_lines: Vec<String>,
    pub tokens_used: u64,
    pub token_usage: TokenUsage,
    pub tokens_estimated: bool,
    pub started_at: Option<String>,
    pub elapsed_ms: u64,
    pub worktree_path: Option<String>,
    pub branch: Option<String>,
    pub checkpoint: Option<Checkpoint>,
    pub prompt_sent: Option<String>,
}

/// A musician and the model it runs.
#[derive(Debug)]
pub struct Musician {
    pub id: String,
    pub index: usize,
    pub model: String,
    pub original_model: String,
    pub max_turns: u32,
    pub state: MusicianState,
    pub session_open: bool,
}

// ─── The output buffer ───────────────────────────────────────────

/// The pieces of `s` between newlines, from offset `i` on, the first piece
/// starting with `cur`.
pub open spec fn split_from(s: Seq<char>, i: int, cur: Seq<char>) -> Seq<Seq<char>>
    decreases s.len() - i,
{
    if i >= s.len() || i < 0 {
        seq![cur]
    } else if s[i] == '\n' {
        seq![cur] + split_from(s, i + 1, Seq::empty())
    } else {
        split_from(s, i + 1, cur.push(s[i]))
    }
}

/// The lines of `s`: the pieces between newlines, empty ones included.
pub open spec fn split_lines(s: Seq<char>) -> Seq<Seq<char>> {
    split_from(s, 0, Seq::empty())
}

/// The total bytes of the lines.
pub open spec fn total_bytes(lines: Seq<Seq<char>>) -> nat
    decreases lines.len(),
{
    if lines.len() == 0 { 0 } else { bytes_of(lines[0]).len() + total_bytes(lines.drop_first()) }
}

/// The lines without the oldest ones while they exceed the byte limit,
/// always keeping one.
pub open spec fn trim_bytes(lines: Seq<Seq<char>>) -> Seq<Seq<char>>
    decreases lines.len(),
{
    if lines.len() > 1 && total_bytes(lines) > OUTPUT_BUFFER_MAX_CHARS {
        trim_bytes(lines.drop_first())
    } else {
        lines
    }
}

/// The buffer after appending `text`: its lines added, then the oldest
/// dropped beyond two hundred lines and while over the byte limit.
pub open spec fn buffer_after(lines: Seq<Seq<char>>, text: Seq<char>) -> Seq<Seq<char>> {
    trim_bytes(crate::orchestra::keep_last(lines + split_lines(text), OUTPUT_BUFFER_SIZE as nat))
}

/// The pieces of a text end with the piece after its last newline.
pub(crate) proof fn lemma_split_nonempty(s: Seq<char>)
    ensures
        split_lines(s).len() > 0,
        (s.len() == 0 || s.last() == '\n') ==> split_lines(s).last() == Seq::<char>::empty(),
{
    lemma_split_from_shape(s, 0, Seq::empty());
}

proof fn lemma_split_from_shape(s: Seq<char>, i: int, cur: Seq<char>)
    requires
        0 <= i <= s.len(),
    ensures
        split_from(s, i, cur).len() > 0,
        (s.len() > 0 && s.last() == '\n' && i < s.len()) ==> split_from(s, i, cur).last() == Seq::<char>::empty(),
        (i == s.len()) ==> split_from(s, i, cur).last() == cur,
    decreases s.len() - i,
{
    if i < s.len() {
        if s[i] == '\n' {
            lemma_split_from_shape(s, i + 1, Seq::empty());
        } else {
            lemma_split_from_shape(s, i + 1, cur.push(s[i]));
        }
    }
}

/// What trimming by bytes keeps: a non-empty suffix of the lines, within the
/// byte limit unless it is a single line, such that every longer suffix is
/// over the limit.
proof fn lemma_trim_bytes(s: Seq<Seq<char>>)
    requires
        s.len() >= 1,
    ensures
        1 <= trim_bytes(s).len() <= s.len(),
        trim_bytes(s) == s.skip(s.len() - trim_bytes(s).len()),
        total_bytes(trim_bytes(s)) <= OUTPUT_BUFFER_MAX_CHARS || trim_bytes(s).len() == 1,
        forall|j: int| 0 <= j < s.len() - trim_bytes(s).len() ==> total_bytes(#[trigger] s.skip(j)) > OUTPUT_BUFFER_MAX_CHARS,
    decreases s.len(),
{
    if s.len() > 1 && total_bytes(s) > OUTPUT_BUFFER_MAX_CHARS {
        let t = s.drop_first();
        lemma_trim_bytes(t);
        let n = trim_bytes(t).len();
        assert(t.skip(t.len() - n) =~= s.skip(s.len() - n));
        assert forall|j: int| 0 <= j < s.len() - n implies total_bytes(#[trigger] s.skip(j)) > OUTPUT_BUFFER_MAX_CHARS by {
            if j == 0 {
                assert(s.skip(0) =~= s);
            } else {
                assert(s.skip(j) =~= t.skip(j - 1));
            }
        }
    } else {
        assert(s.skip(0) =~= s);
    }
}

/// The output buffer after appending a text is the longest suffix of the
/// old lines followed by the text's lines that holds at most two hundred
/// lines and at most the byte limit, except that a single last line too
/// long for the limit is kept alone.
pub proof fn lemma_buffer_is_longest_fitting_suffix(lines: Seq<Seq<char>>, text: Seq<char>)
    ensures
        ({
            let all = lines + split_lines(text);
            let b = buffer_after(lines, text);
            &&& 1 <= b.len() <= OUTPUT_BUFFER_SIZE
            &&& b == all.skip(all.len() - b.len())
            &&& total_bytes(b) <= OUTPUT_BUFFER_MAX_CHARS || b.len() == 1
            &&& forall|m: int| b.len() < m <= all.len() ==>
                m > OUTPUT_BUFFER_SIZE || total_bytes(#[trigger] all.skip(all.len() - m)) > OUTPUT_BUFFER_MAX_CHARS
        }),
{
    let all = lines + split_lines(text);
    lemma_split_nonempty(text);
    let kept = crate::orchestra::keep_last(all, OUTPUT_BUFFER_SIZE as nat);
    let off = all.len() - kept.len();
    assert(kept =~= all.skip(off));
    lemma_trim_bytes(kept);
    let b = trim_bytes(kept);
    assert(b =~= all.skip(all.len() - b.len()));
    assert forall|m: int| b.len() < m <= all.len() implies
        m > OUTPUT_BUFFER_SIZE || total_bytes(#[trigger] all.skip(all.len() - m)) > OUTPUT_BUFFER_MAX_CHARS by {
        if m <= OUTPUT_BUFFER_SIZE {
            let j = kept.len() - m;
            assert(kept.skip(j) =~= all.skip(all.len() - m));
        }
    }
}

pub(crate) fn split_text(text: &str) -> (r: Vec<String>)
    ensures
        views(r@) == split_lines(text@),
{
    let cs = crate::text::chars_of(text);
    let mut out: Vec<String> = Vec::new();
    let mut cur = String::new();
    let mut i: usize = 0;
    while i < cs.len()
        invariant
            i <= cs.len(),
            cs@ == text@,
            views(out@) + split_from(cs@, i as int, cur@) == split_lines(cs@),
        decreases cs.len() - i,
    {
        if cs[i] == '\n' {
            let ghost before = views(out@);
            let done = cur;
            cur = String::new();
            out.push(done);
            assert(views(out@) =~= before.push(split_from(cs@, i as int, done@)[0]));
            assert(split_from(cs@, i as int, done@) =~= seq![done@] + split_from(cs@, i + 1, Seq::empty()));
            assert(views(out@) + split_from(cs@, i + 1, cur@) =~= before + split_from(cs@, i as int, done@));
        } else {
            push_char(&mut cur, cs[i]);
        }
        i = i + 1;
    }
    let ghost before = views(out@);
    out.push(cur);
    assert(views(out@) =~= before + split_from(cs@, i as int, views(out@).last()));
    out
}

proof fn lemma_total_bytes_first(lines: Seq<Seq<char>>)
    requires
        lines.len() > 0,
    ensures
        total_bytes(lines) == bytes_of(lines[0]).len() + total_bytes(lines.drop_first()),
{
}

fn line_bytes(lines: &Vec<String>) -> (r: u128)
    requires
        lines@.len() <= OUTPUT_BUFFER_SIZE,
    ensures
        r == total_bytes(views(lines@)),
{
    let mut total: u128 = 0;
    let mut k: usize = lines.len();
    let ghost v = views(lines@);
    while k > 0
        invariant
            k <= lines@.len() <= OUTPUT_BUFFER_SIZE,
            v == views(lines@),
            total == total_bytes(v.skip(k as int)),
            total <= (lines@.len() - k) * (usize::MAX as int),
        decreases k,
    {
        k = k - 1;
        let n = lines[k].as_str().as_bytes().len();
        assert(v.skip(k as int).drop_first() =~= v.skip(k + 1));
        assert(v.skip(k as int)[0] == lines@[k as int]@);
        proof {
            lemma_total_bytes_first(v.skip(k as int));
        }
        assert(total + n <= (lines@.len() - k) * (usize::MAX as int)) by (nonlinear_arith)
            requires
                total <= (lines@.len() - (k + 1)) * (usize::MAX as int),
                n <= usize::MAX,
                k < lines@.len(),
        {
        }
        total = total + n as u128;
    }
    assert(v.skip(0) =~= v);
    total
}

/// Appends text to the output buffer, line by line, dropping the oldest
/// lines beyond two hundred and while the buffer exceeds its byte limit.
fn push_lines(lines: &mut Vec<String>, text: &str)
    ensures
        views(final(lines)@) == buffer_after(views(old(lines)@), text@),
        final(lines)@.len() <= OUTPUT_BUFFER_SIZE,
{
    let ghost before = views(lines@);
    let mut new_lines = split_text(text);
    let ghost added = views(new_lines@);
    lines.append(&mut new_lines);
    assert(views(lines@) =~= before + added);
    if lines.len() > OUTPUT_BUFFER_SIZE {
        let excess = lines.len() - OUTPUT_BUFFER_SIZE;
        let ghost all = lines@;
        let tail = lines.split_off(excess);
        *lines = tail;
        assert(views(lines@) =~= views(all).skip(excess as int));
    }
    let mut total = line_bytes(lines);
    while total > OUTPUT_BUFFER_MAX_CHARS as u128 && lines.len() > 1
        invariant
            lines@.len() <= OUTPUT_BUFFER_SIZE,
            total == total_bytes(views(lines@)),
            trim_bytes(views(lines@)) == buffer_after(before, text@),
        decreases lines@.len(),
    {
        let ghost v = views(lines@);
        let first = lines.remove(0);
        proof {
            lemma_total_bytes_first(v);
            assert(views(lines@) =~= v.drop_first());
        }
        total = total - first.as_str().as_bytes().len() as u128;
    }
}

// ─── Prompt ──────────────────────────────────────────────────────

/// The opening of a musician's prompt.
pub open spec fn prompt_intro() -> Seq<char> {
    INTRO@
}

/// The closing instructions of a musician's prompt.
pub open spec fn prompt_instructions() -> Seq<char> {
    INSTR@
}

/// The project conventions section: empty without instructions.
pub open spec fn conventions_section(instructions: Seq<char>, file: Seq<char>) -> Seq<char> {
    if instructions.len() == 0 {
        Seq::empty()
    } else {
        "## Project Conventions\nFollow these project conventions from "@ + file + ":\n\n"@ + instructions
            + "\n\n---\n\n"@
    }
}

/// One file of a task's scope as a list item.
pub open spec fn scope_item(f: Seq<char>) -> Seq<char> {
    "- "@ + f
}

/// The file scope, one item per line.
pub open spec fn scope_list(files: Seq<Seq<char>>) -> Seq<char> {
    join(Seq::new(files.len(), |i: int| scope_item(files[i])), "\n"@)
}

/// Acceptance criterion `i` (from zero) as a numbered line.
pub open spec fn criterion_item(i: int, c: Seq<char>) -> Seq<char> {
    decimal((i + 1) as nat) + ". "@ + c
}

/// The acceptance criteria, numbered from one, one per line.
pub open spec fn criteria_list(cs: Seq<Seq<char>>) -> Seq<char> {
    join(Seq::new(cs.len(), |i: int| criterion_item(i, cs[i])), "\n"@)
}

/// The prompt a musician gets for `task`, with the project's instructions
/// (from the file named `file`) when there are any.
pub open spec fn musician_prompt(task: Task, instructions: Seq<char>, file: Seq<char>) -> Seq<char> {
    prompt_intro() + task.title@ + "**\n\n"@ + task.description@ + "\n\n"@ + conventions_section(instructions, file)
        + "## File Scope\nYou should primarily work within these files:\n"@ + scope_list(views(task.file_scope@))
        + "\n\n## Acceptance Criteria\n"@ + criteria_list(views(task.acceptance_criteria@))
        + prompt_instructions()
}

/// The prompt a musician gets for `task`: the task, the project's
/// instructions (read by the caller from the file named `instructions_file`;
/// empty when there are none), the file scope, the numbered acceptance
/// criteria and the working protocol.
pub fn build_musician_prompt(task: &Task, project_instructions: &str, instructions_file: &str) -> (r: String)
    requires
        task.acceptance_criteria@.len() < u64::MAX,
    ensures
        r@ == musician_prompt(*task, project_instructions@, instructions_file@),
{
    let mut out = String::new();
    push_str(&mut out, INTRO);
    push_str(&mut out, task.title.as_str());
    push_str(&mut out, "**\n\n");
    push_str(&mut out, task.description.as_str());
    push_str(&mut out, "\n\n");
    if !project_instructions.is_empty() {
        push_str(&mut out, "## Project Conventions\nFollow these project conventions from ");
        push_str(&mut out, instructions_file);
        push_str(&mut out, ":\n\n");
        push_str(&mut out, project_instructions);
        push_str(&mut out, "\n\n---\n\n");
    }
    push_str(&mut out, "## File Scope\nYou should primarily work within these files:\n");
    let mut items: Vec<String> = Vec::new();
    let mut k: usize = 0;
    while k < task.file_scope.len()
        invariant
            k <= task.file_scope@.len(),
            views(items@) == Seq::new(k as nat, |i: int| scope_item(task.file_scope@[i]@)),
        decreases task.file_scope@.len() - k,
    {
        let mut item = String::new();
        push_str(&mut item, "- ");
        push_str(&mut item, task.file_scope[k].as_str());
        let ghost before = views(items@);
        assert(item@ == scope_item(task.file_scope@[k as int]@));
        items.push(item);
        assert(views(items@) =~= before.push(scope_item(task.file_scope@[k as int]@)));
        k = k + 1;
        assert(views(items@) =~= Seq::new(k as nat, |i: int| scope_item(task.file_scope@[i]@)));
    }
    assert(Seq::new(k as nat, |i: int| scope_item(task.file_scope@[i]@))
        =~= Seq::new(views(task.file_scope@).len(), |i: int| scope_item(views(task.file_scope@)[i])));
    let scope = crate::text::join_strings(&items, "\n");
    push_str(&mut out, scope.as_str());
    push_str(&mut out, "\n\n## Acceptance Criteria\n");
    let mut lines: Vec<String> = Vec::new();
    let mut j: usize = 0;
    while j < task.acceptance_criteria.len()
        invariant
            j <= task.acceptance_criteria@.len() < u64::MAX,
            views(lines@) == Seq::new(j as nat, |i: int| criterion_item(i, task.acceptance_criteria@[i]@)),
        decreases task.acceptance_criteria@.len() - j,
    {
        let mut line = String::new();
        push_decimal(&mut line, (j + 1) as u64);
        push_str(&mut line, ". ");
        push_str(&mut line, task.acceptance_criteria[j].as_str());
        let ghost before = views(lines@);
        assert(line@ == criterion_item(j as int, task.acceptance_criteria@[j as int]@));
        lines.push(line);
        assert(views(lines@) =~= before.push(criterion_item(j as int, task.acceptance_criteria@[j as int]@)));
        j = j + 1;
        assert(views(lines@) =~= Seq::new(j as nat, |i: int| criterion_item(i, task.acceptance_criteria@[i]@)));
    }
    assert(Seq::new(j as nat, |i: int| criterion_item(i, task.acceptance_criteria@[i]@))
        =~= Seq::new(views(task.acceptance_criteria@).len(), |i: int| criterion_item(i, views(task.acceptance_criteria@)[i])));
    let criteria = crate::text::join_strings(&lines, "\n");
    push_str(&mut out, criteria.as_str());
    push_str(&mut out, INSTR);
    out
}

// ─── A musician ──────────────────────────────────────────────────

/// The view of an optional string.
pub open spec fn ov(o: Option<String>) -> Option<Seq<char>> {
    crate::events::opt_view(o)
}

/// `s` is the state of an idle musician `id` at position `index` that has
/// done nothing yet.
pub open spec fn fresh_state(s: MusicianState, id: Seq<char>, index: usize) -> bool {
    &&& s.id@ == id && s.index == index
    &&& s.status == MusicianStatus::Idle
    &&& s.current_task is None
    &&& s.output_lines@.len() == 0
    &&& s.tokens_used == 0 && !s.tokens_estimated && s.elapsed_ms == 0
    &&& s.token_usage == (TokenUsage { input: 0, output: 0, cache_read: 0, cache_creation: 0 })
    &&& s.started_at is None && s.worktree_path is None && s.branch is None
    &&& s.checkpoint is None && s.prompt_sent is None
}

/// The first line a waiting musician shows: the tasks it waits for,
/// numbered from one.
pub open spec fn waiting_line(deps: Seq<usize>) -> Seq<char> {
    "Waiting for dependencies: "@ + join(Seq::new(deps.len(), |i: int| "Task "@ + decimal((deps[i] + 1) as nat)), ", "@)
}

impl Musician {
    /// An idle musician with no session, running `model`.
    pub fn new(id: String, index: usize, model: String, max_turns: u32) -> (r: Self)
        ensures
            r.id@ == id@ && r.index == index && r.max_turns == max_turns,
            r.model@ == model@ && r.original_model@ == model@,
            fresh_state(r.state, id@, index),
            !r.session_open,
    {
        let state = MusicianState {
            id: id.clone(),
            index,
            status: MusicianStatus::Idle,
            current_task: None,
            output_lines: Vec::new(),
            tokens_used: 0,
            token_usage: TokenUsage { input: 0, output: 0, cache_read: 0, cache_creation: 0 },
            tokens_estimated: false,
            started_at: None,
            elapsed_ms: 0,
            worktree_path: None,
            branch: None,
            checkpoint: None,
            prompt_sent: None,
        };
        Musician { id, index, model: model.clone(), original_model: model, max_turns, state, session_open: false }
    }

    /// The musician's state.
    pub fn get_state(&self) -> (r: &MusicianState)
        ensures
            *r == self.state,
    {
        &self.state
    }

    /// The model the next task runs with.
    pub fn model(&self) -> (r: &str)
        ensures
            r@ == self.model@,
    {
        self.model.as_str()
    }

    /// The model the musician was created with.
    pub fn original_model(&self) -> (r: &str)
        ensures
            r@ == self.original_model@,
    {
        self.original_model.as_str()
    }

    /// The musician's identifier.
    pub fn id(&self) -> (r: &str)
        ensures
            r@ == self.id@,
    {
        self.id.as_str()
    }

    /// The turn limit of its sessions.
    pub fn max_turns(&self) -> (r: u32)
        ensures
            r == self.max_turns,
    {
        self.max_turns
    }

    /// Runs the next task with `model` instead.
    pub fn set_model_override(&mut self, model: &str)
        ensures
            final(self).model@ == model@,
            *final(self) == (Musician { model: final(self).model, ..*old(self) }),
    {
        self.model = model.to_owned();
    }

    /// Whether a session is open that takes further prompts.
    pub fn is_interactive(&self) -> (r: bool)
        ensures
            r == self.session_open,
    {
        self.session_open
    }

    /// Records that the musician's session has been opened or closed.
    pub fn set_session_open(&mut self, open: bool)
        ensures
            *final(self) == (Musician { session_open: open, ..*old(self) }),
    {
        self.session_open = open;
    }

    /// Waits on `task`'s dependencies: the task is shown with the list of
    /// the tasks it waits for.
    pub fn set_waiting(&mut self, task: Task)
        requires
            forall|i: int| 0 <= i < task.dependencies@.len() ==> #[trigger] task.dependencies@[i] < u64::MAX,
        ensures
            final(self).state.status == MusicianStatus::Waiting,
            final(self).state.current_task == Some(task),
            views(final(self).state.output_lines@) == seq![waiting_line(task.dependencies@)],
            *final(self) == (Musician {
                state: MusicianState {
                    status: final(self).state.status,
                    current_task: final(self).state.current_task,
                    output_lines: final(self).state.output_lines,
                    ..old(self).state
                },
                ..*old(self)
            }),
    {
        let mut parts: Vec<String> = Vec::new();
        let mut k: usize = 0;
        let ghost deps = task.dependencies@;
        while k < task.dependencies.len()
            invariant
                k <= deps.len(),
                deps == task.dependencies@,
                forall|i: int| 0 <= i < deps.len() ==> #[trigger] deps[i] < u64::MAX,
                views(parts@) == Seq::new(k as nat, |i: int| "Task "@ + decimal((deps[i] + 1) as nat)),
            decreases deps.len() - k,
        {
            let mut p = String::new();
            push_str(&mut p, "Task ");
            push_decimal(&mut p, (task.dependencies[k] as u64) + 1);
            let ghost before = views(parts@);
            parts.push(p);
            assert(views(parts@) =~= before.push("Task "@ + decimal((deps[k as int] + 1) as nat)));
            k = k + 1;
            assert(views(parts@) =~= Seq::new(k as nat, |i: int| "Task "@ + decimal((deps[i] + 1) as nat)));
        }
        let list = crate::text::join_strings(&parts, ", ");
        let mut line = String::new();
        push_str(&mut line, "Waiting for dependencies: ");
        push_str(&mut line, list.as_str());
        self.state.status = MusicianStatus::Waiting;
        self.state.current_task = Some(task);
        let mut lines: Vec<String> = Vec::new();
        lines.push(line);
        assert(views(lines@) =~= seq![line@]);
        self.state.output_lines = lines;
    }

    /// Pauses the musician (its session hit a rate limit).
    pub fn pause(&mut self)
        ensures
            *final(self) == (Musician {
                state: MusicianState { status: MusicianStatus::Paused, ..old(self).state },
                ..*old(self)
            }),
    {
        self.state.status = MusicianStatus::Paused;
    }

    /// Back to idle: no session, the original model, no task, no output.
    pub fn reset(&mut self)
        ensures
            !final(self).session_open,
            final(self).model@ == old(self).original_model@,
            final(self).state.status == MusicianStatus::Idle,
            final(self).state.current_task is None,
            final(self).state.output_lines@.len() == 0,
            final(self).id == old(self).id && final(self).index == old(self).index,
            final(self).original_model == old(self).original_model,
            final(self).max_turns == old(self).max_turns,
            final(self).state == (MusicianState {
                status: final(self).state.status,
                current_task: final(self).state.current_task,
                output_lines: final(self).state.output_lines,
                ..old(self).state
            }),
    {
        self.session_open = false;
        self.model = self.original_model.clone();
        self.state.status = MusicianStatus::Idle;
        self.state.current_task = None;
        self.state.output_lines = Vec::new();
    }

    /// Appends text to the output buffer (see `buffer_after`).
    pub fn push_output(&mut self, text: &str)
        ensures
            views(final(self).state.output_lines@) == buffer_after(views(old(self).state.output_lines@), text@),
            ({
                let all = views(old(self).state.output_lines@) + split_lines(text@);
                let b = views(final(self).state.output_lines@);
                &&& 1 <= b.len() <= OUTPUT_BUFFER_SIZE
                &&& b == all.skip(all.len() - b.len())
                &&& total_bytes(b) <= OUTPUT_BUFFER_MAX_CHARS || b.len() == 1
                &&& forall|m: int| b.len() < m <= all.len() ==>
                    m > OUTPUT_BUFFER_SIZE || total_bytes(#[trigger] all.skip(all.len() - m)) > OUTPUT_BUFFER_MAX_CHARS
            }),
            *final(self) == (Musician {
                state: MusicianState { output_lines: final(self).state.output_lines, ..old(self).state },
                ..*old(self)
            }),
    {
        proof {
            lemma_buffer_is_longest_fitting_suffix(views(self.state.output_lines@), text@);
        }
        push_lines(&mut self.state.output_lines, text);
    }

    /// Appends text from outside the session, such as queued guidance.
    pub fn push_external_output(&mut self, text: &str)
        ensures
            views(final(self).state.output_lines@) == buffer_after(views(old(self).state.output_lines@), text@),
            *final(self) == (Musician {
                state: MusicianState { output_lines: final(self).state.output_lines, ..old(self).state },
                ..*old(self)
            }),
    {
        self.push_output(text);
    }
}

// ─── Running a task ──────────────────────────────────────────────

/// What a running task has gathered from its session so far.
#[derive(Debug)]
pub struct Execution {
    /// Whether the task only reads (no checkpoints are taken then).
    pub read_only: bool,
    pub last_message: String,
    pub total_tokens: u64,
    pub turn_count: u32,
    /// The files written or edited, each once, in the order first seen.
    pub files_modified: Vec<String>,
    pub received_result: bool,
    pub result_was_error: bool,
}

impl Execution {
    /// Nothing gathered yet.
    pub fn new(read_only: bool) -> (r: Self)
        ensures
            r.read_only == read_only,
            r.last_message@.len() == 0 && r.total_tokens == 0 && r.turn_count == 0,
            r.files_modified@.len() == 0 && !r.received_result && !r.result_was_error,
    {
        Execution {
            read_only,
            last_message: String::new(),
            total_tokens: 0,
            turn_count: 0,
            files_modified: Vec::new(),
            received_result: false,
            result_was_error: false,
        }
    }
}

/// What the front end does after a session event, in order.
#[derive(Debug)]
pub enum MusicianNotice {
    /// Forward a line of output to the orchestra.
    Output(String),
    /// Forward a tool use (with the event's input) to the orchestra.
    ToolUse(String),
    /// Tell the orchestra that the session hit a rate limit.
    RateLimit,
    /// Close the session.
    CloseSession,
    /// Calibrate token estimates with these counts.
    Calibrate { chars: u64, tokens: u64 },
    /// Send the musician's state to the orchestra.
    StatusChange,
}

/// A notice as plain values.
pub ghost enum NoticeView {
    Output(Seq<char>),
    ToolUse(Seq<char>),
    RateLimit,
    CloseSession,
    Calibrate { chars: u64, tokens: u64 },
    StatusChange,
}

impl View for MusicianNotice {
    type V = NoticeView;

    open spec fn view(&self) -> NoticeView {
        match self {
            MusicianNotice::Output(s) => NoticeView::Output(s@),
            MusicianNotice::ToolUse(s) => NoticeView::ToolUse(s@),
            MusicianNotice::RateLimit => NoticeView::RateLimit,
            MusicianNotice::CloseSession => NoticeView::CloseSession,
            MusicianNotice::Calibrate { chars, tokens } => NoticeView::Calibrate { chars: *chars, tokens: *tokens },
            MusicianNotice::StatusChange => NoticeView::StatusChange,
        }
    }
}

/// The views of a list of notices.
pub open spec fn notice_views(v: Seq<MusicianNotice>) -> Seq<NoticeView> {
    v.map_values(|n: MusicianNotice| n@)
}

fn copy_strings(v: &Vec<String>) -> (r: Vec<String>)
    ensures
        views(r@) == views(v@),
{
    let mut out: Vec<String> = Vec::new();
    let mut k: usize = 0;
    while k < v.len()
        invariant
            k <= v@.len(),
            views(out@) == views(v@).take(k as int),
        decreases v@.len() - k,
    {
        let ghost before = views(out@);
        let c = v[k].clone();
        assert(c@ == views(v@)[k as int]);
        out.push(c);
        assert(views(out@) =~= before.push(c@));
        k = k + 1;
        assert(views(out@) =~= views(v@).take(k as int));
    }
    assert(views(v@).take(k as int) =~= views(v@));
    out
}

/// `files` with `f` added unless it is there.
pub open spec fn with_file(files: Seq<Seq<char>>, f: Seq<char>) -> Seq<Seq<char>> {
    if files.contains(f) { files } else { files.push(f) }
}

fn add_file(files: &mut Vec<String>, f: &str)
    ensures
        views(final(files)@) == with_file(views(old(files)@), f@),
{
    let mut k: usize = 0;
    while k < files.len()
        invariant
            k <= files@.len(),
            forall|j: int| 0 <= j < k ==> files@[j]@ != f@,
        decreases files@.len() - k,
    {
        if crate::json::str_eq(files[k].as_str(), f) {
            assert(views(files@)[k as int] == f@);
            return;
        }
        k = k + 1;
    }
    let ghost before = views(files@);
    assert(!before.contains(f@)) by {
        if before.contains(f@) {
            let j = choose|j: int| 0 <= j < before.len() && before[j] == f@;
            assert(files@[j]@ == f@);
        }
    }
    files.push(f.to_owned());
    assert(views(files@) =~= before.push(f@));
}

/// The estimated tokens of `text`.
pub open spec fn est(cal: TokenCalibration, text: Seq<char>) -> int {
    crate::token_estimate::estimate_of(cal, bytes_of(text).len() as int)
}

/// `m2` is `m` with only its output lines and token counts changed.
pub open spec fn only_output_changed(m2: Musician, m: Musician) -> bool {
    m2 == (Musician {
        state: MusicianState {
            output_lines: m2.state.output_lines,
            token_usage: m2.state.token_usage,
            tokens_used: m2.state.tokens_used,
            checkpoint: m2.state.checkpoint,
            ..m.state
        },
        ..m
    })
}

/// The view of an optional string slice.
pub open spec fn opt_str_view(o: Option<&str>) -> Option<Seq<char>> {
    match o {
        Some(t) => Some(t@),
        None => None,
    }
}

/// The effect of `assistant_event`.
pub open spec fn assistant_effect(m0: Musician, m1: Musician, x0: Execution, x1: Execution, msg: Seq<char>, cal: TokenCalibration, rv: Seq<NoticeView>) -> bool {
    &&& views(m1.state.output_lines@) == buffer_after(views(m0.state.output_lines@), msg)
    &&& m1.state.token_usage == (TokenUsage {
                output: (m0.state.token_usage.output + est(cal, msg)) as u64,
                ..m0.state.token_usage
            })
    &&& m1.state.tokens_used == m1.state.token_usage.input + m1.state.token_usage.output
    &&& m1.state.checkpoint == m0.state.checkpoint
    &&& only_output_changed(m1, m0)
    &&& x1 == (Execution { last_message: x1.last_message, ..x0 })
    &&& x1.last_message@ == msg
    &&& rv == seq![NoticeView::Output(msg)]
}

/// An assistant message: shown, forwarded and counted as output tokens.
fn assistant_event(m: &mut Musician, x: &mut Execution, msg: &str, cal: &TokenCalibration) -> (r: Vec<MusicianNotice>)
    requires
        old(m).state.token_usage.input + old(m).state.token_usage.output + bytes_of(msg@).len() <= u64::MAX,
    ensures
        assistant_effect(*old(m), *final(m), *old(x), *final(x), msg@, *cal, notice_views(r@)),

{
    x.last_message = msg.to_owned();
    m.push_output(msg);
    let e = cal.estimate_tokens(msg);
    proof {
        assert(e <= bytes_of(msg@).len()) by {
            lemma_estimate_le(*cal, bytes_of(msg@).len() as int);
        }
    }
    m.state.token_usage.output = m.state.token_usage.output + e;
    m.state.tokens_used = m.state.token_usage.input + m.state.token_usage.output;
    let mut r: Vec<MusicianNotice> = Vec::new();
    r.push(MusicianNotice::Output(msg.to_owned()));
    assert(notice_views(r@) =~= seq![NoticeView::Output(msg@)]);
    r
}

proof fn lemma_estimate_le(cal: TokenCalibration, len: int)
    requires
        len >= 0,
    ensures
        crate::token_estimate::estimate_of(cal, len) <= len,
        crate::token_estimate::estimate_of(cal, len) >= 0,
{
    let (n, d) = crate::token_estimate::ratio_of(cal);
    assert(n >= 1 && d >= 1 && n * 2 >= d * 5);
    if len > 0 {
        assert((len * d + n - 1) / n <= len) by (nonlinear_arith)
            requires
                n * 2 >= d * 5,
                n >= 1,
                d >= 1,
                len > 0,
        {
            assert(len * d <= len * n);
            assert(len * d + n - 1 < (len + 1) * n);
        }
        assert((len * d + n - 1) / n >= 0) by (nonlinear_arith)
            requires
                n >= 1,
                d >= 1,
                len > 0,
        {
        }
    }
}

/// The effect of `tool_result_event`.
pub open spec fn tool_result_effect(m0: Musician, m1: Musician, content: Seq<char>, cal: TokenCalibration) -> bool {
    &&& m1.state.token_usage == (TokenUsage {
                input: (m0.state.token_usage.input + est(cal, content)) as u64,
                ..m0.state.token_usage
            })
    &&& m1.state.tokens_used == m1.state.token_usage.input + m1.state.token_usage.output
    &&& m1.state.output_lines == m0.state.output_lines
    &&& m1.state.checkpoint == m0.state.checkpoint
    &&& only_output_changed(m1, m0)
}

/// A session event that shows tool output or a failure: forwarded to the
/// output buffer only.
fn tool_result_event(m: &mut Musician, content: &str, cal: &TokenCalibration)
    requires
        old(m).state.token_usage.input + old(m).state.token_usage.output + bytes_of(content@).len() <= u64::MAX,
    ensures
        tool_result_effect(*old(m), *final(m), content@, *cal),

{
    let e = cal.estimate_tokens(content);
    proof {
        lemma_estimate_le(*cal, bytes_of(content@).len() as int);
    }
    m.state.token_usage.input = m.state.token_usage.input + e;
    m.state.tokens_used = m.state.token_usage.input + m.state.token_usage.output;
}

/// Whether a tool use commits: a shell command that runs `git commit`.
pub open spec fn commits(name: Seq<char>, input: Option<crate::json::JsonView>) -> bool {
    &&& name == "Bash"@
    &&& crate::json::as_str(crate::bridge::get_in(input, "command"@)) matches Some(c) && crate::text::seq_contains(c, "git commit"@)
}

/// The path a tool writes or edits, if it is one that does.
pub open spec fn written_file(name: Seq<char>, input: Option<crate::json::JsonView>) -> Option<Seq<char>> {
    if name == "Write"@ || name == "Edit"@ {
        crate::json::as_str(crate::bridge::get_in(input, "file_path"@))
    } else {
        None
    }
}

/// The estimated tokens of serialized tool input of `len` bytes, if any.
pub open spec fn input_tokens(cal: TokenCalibration, len: Option<usize>) -> int {
    match len {
        Some(n) => crate::token_estimate::estimate_of(cal, n as int),
        None => 0,
    }
}

fn str_field<'a>(input: Option<&'a crate::json::JsonValue>, key: &str) -> (r: Option<&'a str>)
    ensures
        match r {
            Some(s) => crate::json::as_str(crate::bridge::get_in(crate::bridge::opt_ref_view(input), key@)) == Some(s@),
            None => crate::json::as_str(crate::bridge::get_in(crate::bridge::opt_ref_view(input), key@)) is None,
        },
{
    match input {
        Some(v) => match crate::json::json_get(v, key) {
            Some(x) => x.as_str(),
            None => None,
        },
        None => None,
    }
}

/// The effect of `tool_event`.
pub open spec fn tool_effect(m0: Musician, m1: Musician, x0: Execution, x1: Execution, name: Seq<char>, input: Option<crate::json::JsonView>, input_json_len: Option<usize>, cal: TokenCalibration, rv: Seq<NoticeView>) -> bool {
    &&& x1.turn_count == x0.turn_count + 1
    &&& views(x1.files_modified@) == match written_file(name, input) {
                Some(f) => with_file(views(x0.files_modified@), f),
                None => views(x0.files_modified@)
    }
    &&& x1 == (Execution { turn_count: x1.turn_count, files_modified: x1.files_modified, ..x0 })
    &&& views(m1.state.output_lines@) == buffer_after(
                views(m0.state.output_lines@),
                "> "@ + crate::tool_summary::tool_summary(name, input)
    )
    &&& m1.state.token_usage == (TokenUsage {
                output: (m0.state.token_usage.output + input_tokens(cal, input_json_len)) as u64,
                ..m0.state.token_usage
            })
    &&& m1.state.tokens_used == m0.state.tokens_used
    &&& if !x0.read_only && commits(name, input) {
                m1.state.checkpoint matches Some(c) && c.turn_number == x1.turn_count
                    && views(c.files_modified@) == views(x1.files_modified@)
                    && c.token_used == m0.state.tokens_used && c.commit_sha is None
            } else {
                m1.state.checkpoint == m0.state.checkpoint
            }
    &&& only_output_changed(m1, m0)
    &&& rv == seq![NoticeView::ToolUse(name)]
}

/// A tool use: counted as a turn, shown by its summary, forwarded, counted
/// as output tokens; a written or edited file is recorded, and a commit
/// (outside read-only tasks) is recorded as a checkpoint.
fn tool_event(
    m: &mut Musician,
    x: &mut Execution,
    name: &str,
    input: Option<&crate::json::JsonValue>,
    input_json_len: Option<usize>,
    cal: &TokenCalibration,
) -> (r: Vec<MusicianNotice>)
    requires
        old(x).turn_count < u32::MAX,
        old(m).state.token_usage.output + (match input_json_len { Some(n) => n as int, None => 0 }) <= u64::MAX,
    ensures
        tool_effect(*old(m), *final(m), *old(x), *final(x), name@, crate::bridge::opt_ref_view(input), input_json_len, *cal, notice_views(r@)),

{
    x.turn_count = x.turn_count + 1;
    let summary = crate::tool_summary::summarize_tool_use(name, input);
    let mut line = String::new();
    push_str(&mut line, "> ");
    push_str(&mut line, summary.as_str());
    m.push_output(line.as_str());
    match input_json_len {
        Some(n) => {
            let e = cal.estimate_len(n);
            proof {
                lemma_estimate_le(*cal, n as int);
            }
            m.state.token_usage.output = m.state.token_usage.output + e;
        },
        None => {},
    }
    if crate::json::str_eq(name, "Write") || crate::json::str_eq(name, "Edit") {
        match str_field(input, "file_path") {
            Some(fp) => add_file(&mut x.files_modified, fp),
            None => {},
        }
    }
    if !x.read_only && crate::json::str_eq(name, "Bash") {
        match str_field(input, "command") {
            Some(cmd) => {
                if crate::text::contains_str(cmd, "git commit") {
                    m.state.checkpoint = Some(Checkpoint {
                        turn_number: x.turn_count,
                        files_modified: copy_strings(&x.files_modified),
                        timestamp: crate::rate_limiter::now_rfc3339(),
                        token_used: m.state.tokens_used,
                        commit_sha: None,
                    });
                }
            },
            None => {},
        }
    }
    let mut r: Vec<MusicianNotice> = Vec::new();
    r.push(MusicianNotice::ToolUse(name.to_owned()));
    assert(notice_views(r@) =~= seq![NoticeView::ToolUse(name@)]);
    r
}

/// The effect of `result_event`.
pub open spec fn result_effect(m0: Musician, m1: Musician, x0: Execution, x1: Execution, usage: Option<TokenUsage>, is_error: Option<bool>, result: Option<Seq<char>>, rv: Seq<NoticeView>) -> bool {
    &&& x1.received_result
    &&& x1.result_was_error == (x0.result_was_error || is_error == Some(true))
    &&& x1.total_tokens == (match usage { Some(u) => (u.input + u.output) as u64, None => x0.total_tokens })
    &&& x1 == (Execution {
                received_result: true,
                result_was_error: x1.result_was_error,
                total_tokens: x1.total_tokens,
                ..x0
            })
    &&& match usage {
                Some(u) => m1.state.token_usage == u && m1.state.tokens_used == u.input + u.output
                    && !m1.state.tokens_estimated,
                None => m1.state.token_usage == m0.state.token_usage
                    && m1.state.tokens_used == m0.state.tokens_used
                    && m1.state.tokens_estimated == m0.state.tokens_estimated
    }
    &&& m1 == (Musician {
                state: MusicianState {
                    token_usage: m1.state.token_usage,
                    tokens_used: m1.state.tokens_used,
                    tokens_estimated: m1.state.tokens_estimated,
                    ..m0.state
                },
                ..m0
            })
    &&& rv == calibration_notice(m0.state.token_usage, usage) + (if is_error == Some(true)
                && (result matches Some(t) && crate::bridge::mentions_rate_limit(crate::text::lowercase(t))) {
                seq![NoticeView::RateLimit]
            } else {
                Seq::empty()
            }) + seq![NoticeView::CloseSession]
}

/// A final result event: the session is done. Actual token counts replace
/// the estimates (and calibrate them when both are known); an error result
/// is recorded, and forwarded as a rate limit when it reads as one.
fn result_event(
    m: &mut Musician,
    x: &mut Execution,
    usage: Option<TokenUsage>,
    is_error: Option<bool>,
    result: Option<&str>,
) -> (r: Vec<MusicianNotice>)
    requires
        (old(m).state.token_usage.input + old(m).state.token_usage.output) * 4 <= u64::MAX,
        usage matches Some(u) ==> u.input + u.output <= u64::MAX,
    ensures
        result_effect(*old(m), *final(m), *old(x), *final(x), usage, is_error, opt_str_view(result), notice_views(r@)),

{
    let mut r: Vec<MusicianNotice> = Vec::new();
    x.received_result = true;
    match usage {
        Some(u) => {
            let estimated = m.state.token_usage.input + m.state.token_usage.output;
            let actual = u.input + u.output;
            if estimated > 0 && actual > 0 {
                r.push(MusicianNotice::Calibrate { chars: estimated * 4, tokens: actual });
            }
            m.state.token_usage = u;
            x.total_tokens = actual;
            m.state.tokens_used = actual;
            m.state.tokens_estimated = false;
        },
        None => {},
    }
    let ghost first = notice_views(r@);
    assert(first == calibration_notice(old(m).state.token_usage, usage));
    if is_error == Some(true) {
        x.result_was_error = true;
        match result {
            Some(t) => {
                assert(opt_str_view(result) == Some(t@));
                if crate::rate_limiter::is_rate_limit_message(t) {
                    r.push(MusicianNotice::RateLimit);
                }
            },
            None => {},
        }
    }
    let ghost second = notice_views(r@);
    r.push(MusicianNotice::CloseSession);
    assert(notice_views(r@) =~= second.push(NoticeView::CloseSession));
    assert(notice_views(r@) =~= first + (second.skip(first.len() as int)) + seq![NoticeView::CloseSession]);
    assert(notice_views(r@) == calibration_notice(old(m).state.token_usage, usage) + (if is_error == Some(true)
        && (opt_str_view(result) matches Some(t) && crate::bridge::mentions_rate_limit(crate::text::lowercase(t))) {
        seq![NoticeView::RateLimit]
    } else {
        Seq::empty()
    }) + seq![NoticeView::CloseSession]);
    assert(x.result_was_error == (old(x).result_was_error || is_error == Some(true)));
    assert(*x == (Execution { received_result: true, result_was_error: x.result_was_error, total_tokens: x.total_tokens, ..*old(x) }));
    r
}

/// The calibration a result with `usage` asks for, given the estimates.
pub open spec fn calibration_notice(estimated: TokenUsage, usage: Option<TokenUsage>) -> Seq<NoticeView> {
    match usage {
        Some(u) => if estimated.input + estimated.output > 0 && u.input + u.output > 0 {
            seq![NoticeView::Calibrate {
                chars: ((estimated.input + estimated.output) * 4) as u64,
                tokens: (u.input + u.output) as u64,
            }]
        } else {
            Seq::empty()
        },
        None => Seq::empty(),
    }
}

/// `r` is a failed task result with `summary` and `error`, the files
/// gathered so far, the tokens counted and the time taken.
pub open spec fn failed_result(r: TaskResult, x: Execution, summary: Seq<char>, error: Seq<char>, elapsed_ms: u64) -> bool {
    &&& !r.success
    &&& views(r.files_modified@) == views(x.files_modified@)
    &&& r.summary@ == summary
    &&& r.error matches Some(e) && e@ == error
    &&& r.tokens_used == x.total_tokens
    &&& r.duration_ms == elapsed_ms
    &&& r.diff is None && r.verification_output is None && r.verification_passed is None
}

/// The outcome of a session event.
#[derive(Debug)]
pub struct EventOutcome {
    pub notices: Vec<MusicianNotice>,
    /// The task's result when the event ends it early (a rate limit).
    pub finished: Option<TaskResult>,
}

/// The effect of an error event: a rate limit pauses the musician and ends
/// the task with a partial result; another error is shown.
pub open spec fn error_effect(
    m0: Musician,
    m1: Musician,
    x: Execution,
    subtype: Option<Seq<char>>,
    message: Option<Seq<char>>,
    elapsed_ms: u64,
    rv: Seq<NoticeView>,
    finished: Option<TaskResult>,
) -> bool {
    if subtype == Some("rate_limit"@) {
        &&& m1 == (Musician { state: MusicianState { status: MusicianStatus::Paused, ..m0.state }, ..m0 })
        &&& rv == seq![NoticeView::StatusChange, NoticeView::RateLimit]
        &&& finished matches Some(r) && failed_result(r, x, "Rate limited — paused for resume"@, "rate_limited"@, elapsed_ms)
    } else {
        &&& match message {
            Some(msg) => views(m1.state.output_lines@) == buffer_after(views(m0.state.output_lines@), "ERROR: "@ + msg)
                && m1 == (Musician { state: MusicianState { output_lines: m1.state.output_lines, ..m0.state }, ..m0 }),
            None => m1 == m0,
        }
        &&& rv == Seq::<NoticeView>::empty()
        &&& finished is None
    }
}

fn error_event(
    m: &mut Musician,
    x: &Execution,
    subtype: Option<&str>,
    message: Option<&str>,
    elapsed_ms: u64,
) -> (r: EventOutcome)
    ensures
        error_effect(*old(m), *final(m), *x, opt_str_view(subtype), opt_str_view(message), elapsed_ms,
            notice_views(r.notices@), r.finished),
{
    let rate_limited = match subtype {
        Some(t) => crate::json::str_eq(t, "rate_limit"),
        None => false,
    };
    if rate_limited {
        m.state.status = MusicianStatus::Paused;
        let mut notices: Vec<MusicianNotice> = Vec::new();
        notices.push(MusicianNotice::StatusChange);
        notices.push(MusicianNotice::RateLimit);
        assert(notice_views(notices@) =~= seq![NoticeView::StatusChange, NoticeView::RateLimit]);
        let mut summary = String::new();
        push_str(&mut summary, "Rate limited — paused for resume");
        let mut error = String::new();
        push_str(&mut error, "rate_limited");
        let result = TaskResult {
            success: false,
            files_modified: copy_strings(&x.files_modified),
            summary,
            error: Some(error),
            tokens_used: x.total_tokens,
            duration_ms: elapsed_ms,
            diff: None,
            verification_output: None,
            verification_passed: None,
        };
        return EventOutcome { notices, finished: Some(result) };
    }
    match message {
        Some(msg) => {
            let mut line = String::new();
            push_str(&mut line, "ERROR: ");
            push_str(&mut line, msg);
            m.push_output(line.as_str());
        },
        None => {},
    }
    let notices: Vec<MusicianNotice> = Vec::new();
    assert(notice_views(notices@) =~= Seq::<NoticeView>::empty());
    EventOutcome { notices, finished: None }
}

/// The counts that a session event may add to stay within range: the token
/// counters plus the text it brings, and the turn count.
pub open spec fn event_fits(m: Musician, x: Execution, e: ClaudeEvent, input_json_len: Option<usize>) -> bool {
    let u = m.state.token_usage;
    &&& x.turn_count < u32::MAX
    &&& u.input + u.output + (match e.message { Some(t) => bytes_of(t@).len() as int, None => 0 }) <= u64::MAX
    &&& u.input + u.output + (match e.tool_result_content { Some(t) => bytes_of(t@).len() as int, None => 0 }) <= u64::MAX
    &&& u.output + (match input_json_len { Some(n) => n as int, None => 0 }) <= u64::MAX
    &&& (u.input + u.output) * 4 <= u64::MAX
    &&& e.usage matches Some(v) ==> v.input + v.output <= u64::MAX
}

/// What a session event does to the musician and the task's gatherings;
/// every event that does not end the task is followed by a status notice.
pub open spec fn event_effect(
    m0: Musician,
    m1: Musician,
    x0: Execution,
    x1: Execution,
    e: ClaudeEvent,
    cal: TokenCalibration,
    input_json_len: Option<usize>,
    elapsed_ms: u64,
    rv: Seq<NoticeView>,
    finished: Option<TaskResult>,
) -> bool {
    let m = Musician { state: MusicianState { elapsed_ms, ..m0.state }, ..m0 };
    let status_last = rv.len() > 0 && rv.last() == NoticeView::StatusChange;
    let pre = rv.drop_last();
    match e.event_type {
        ClaudeEventType::Assistant => match e.message {
            Some(msg) => assistant_effect(m, m1, x0, x1, msg@, cal, pre) && status_last && finished is None,
            None => m1 == m && x1 == x0 && rv == seq![NoticeView::StatusChange] && finished is None,
        },
        ClaudeEventType::ToolUse => match e.tool_name {
            Some(name) => tool_effect(m, m1, x0, x1, name@, crate::events::opt_json(e.tool_input), input_json_len, cal, pre)
                && status_last && finished is None,
            None => m1 == m && x1 == x0 && rv == seq![NoticeView::StatusChange] && finished is None,
        },
        ClaudeEventType::ToolResult => match e.tool_result_content {
            Some(c) => tool_result_effect(m, m1, c@, cal) && x1 == x0 && rv == seq![NoticeView::StatusChange]
                && finished is None,
            None => m1 == m && x1 == x0 && rv == seq![NoticeView::StatusChange] && finished is None,
        },
        ClaudeEventType::Result => result_effect(m, m1, x0, x1, e.usage, e.is_error, crate::events::opt_view(e.result), pre)
            && status_last && finished is None,
        ClaudeEventType::Error => x1 == x0 && if finished is Some {
            error_effect(m, m1, x0, crate::events::opt_view(e.subtype), crate::events::opt_view(e.message), elapsed_ms,
                rv, finished)
        } else {
            error_effect(m, m1, x0, crate::events::opt_view(e.subtype), crate::events::opt_view(e.message), elapsed_ms,
                pre, finished) && status_last
        },
        ClaudeEventType::System => m1 == m && x1 == x0 && rv == seq![NoticeView::StatusChange] && finished is None,
    }
}

fn opt_str<'a>(o: &'a Option<String>) -> (r: Option<&'a str>)
    ensures
        opt_str_view(r) == crate::events::opt_view(*o),
{
    match o {
        Some(s) => Some(s.as_str()),
        None => None,
    }
}

/// Handles one event of the task's session (see `event_effect`): the time
/// taken so far is recorded, the event's text is shown and counted, and the
/// front end is told what to forward. `input_json_len` is the length of the
/// tool input as JSON text, when the event has one.
pub fn on_session_event(
    m: &mut Musician,
    x: &mut Execution,
    event: &ClaudeEvent,
    cal: &TokenCalibration,
    input_json_len: Option<usize>,
    elapsed_ms: u64,
) -> (r: EventOutcome)
    requires
        event_fits(*old(m), *old(x), *event, input_json_len),
    ensures
        event_effect(*old(m), *final(m), *old(x), *final(x), *event, *cal, input_json_len, elapsed_ms,
            notice_views(r.notices@), r.finished),
{
    m.state.elapsed_ms = elapsed_ms;
    let ghost m_mid = *m;
    let notices: Vec<MusicianNotice> = match event.event_type {
        ClaudeEventType::Assistant => match &event.message {
            Some(msg) => {
                let n = assistant_event(m, x, msg.as_str(), cal);
                assert(assistant_effect(m_mid, *m, *old(x), *x, msg@, *cal, notice_views(n@)));
                n
            },
            None => Vec::new(),
        },
        ClaudeEventType::ToolUse => match &event.tool_name {
            Some(name) => {
                let input = match &event.tool_input {
                    Some(v) => Some(v),
                    None => None,
                };
                assert(crate::bridge::opt_ref_view(input) == crate::events::opt_json(event.tool_input));
                tool_event(m, x, name.as_str(), input, input_json_len, cal)
            },
            None => Vec::new(),
        },
        ClaudeEventType::ToolResult => {
            match &event.tool_result_content {
                Some(c) => tool_result_event(m, c.as_str(), cal),
                None => {},
            }
            Vec::new()
        },
        ClaudeEventType::Result => {
            let res = opt_str(&event.result);
            result_event(m, x, event.usage, event.is_error, res)
        },
        ClaudeEventType::Error => {
            let out = error_event(m, x, opt_str(&event.subtype), opt_str(&event.message), elapsed_ms);
            if out.finished.is_some() {
                return out;
            }
            out.notices
        },
        ClaudeEventType::System => Vec::new(),
    };
    let ghost pre = notice_views(notices@);
    let mut notices = notices;
    notices.push(MusicianNotice::StatusChange);
    assert(notice_views(notices@) =~= pre.push(NoticeView::StatusChange));
    assert(notice_views(notices@).drop_last() =~= pre);
    assert(notice_views(notices@).last() == NoticeView::StatusChange);
    proof {
        if pre.len() == 0 {
            assert(notice_views(notices@) =~= seq![NoticeView::StatusChange]);
        }
    }
    EventOutcome { notices, finished: None }
}

/// The result of a task whose session has closed: a success when a result
/// came and it was no error; the last message is the summary (else a fixed
/// one).
pub open spec fn final_result(r: TaskResult, x: Execution, elapsed_ms: u64) -> bool {
    let success = x.received_result && !x.result_was_error;
    &&& r.success == success
    &&& views(r.files_modified@) == views(x.files_modified@)
    &&& r.summary@ == (if x.last_message@.len() == 0 {
        if success { "Task completed"@ } else { "Session closed unexpectedly"@ }
    } else {
        x.last_message@
    })
    &&& (if success { r.error is None } else {
        r.error matches Some(e) && e@ == "Session closed without successful result"@
    })
    &&& r.tokens_used == x.total_tokens
    &&& r.duration_ms == elapsed_ms
    &&& r.diff is None && r.verification_output is None && r.verification_passed is None
}

/// Ends the task once its session has closed: the result, and the musician
/// completed or failed with its session gone.
pub fn finish_execution(m: &mut Musician, x: &Execution, elapsed_ms: u64) -> (r: TaskResult)
    ensures
        final_result(r, *x, elapsed_ms),
        *final(m) == (Musician {
            session_open: false,
            state: MusicianState {
                status: if r.success { MusicianStatus::Completed } else { MusicianStatus::Failed },
                ..old(m).state
            },
            ..*old(m)
        }),
{
    let success = x.received_result && !x.result_was_error;
    let mut summary = String::new();
    if x.last_message.as_str().is_empty() {
        if success {
            push_str(&mut summary, "Task completed");
        } else {
            push_str(&mut summary, "Session closed unexpectedly");
        }
    } else {
        push_str(&mut summary, x.last_message.as_str());
    }
    let error = if success {
        None
    } else {
        let mut e = String::new();
        push_str(&mut e, "Session closed without successful result");
        Some(e)
    };
    m.state.status = if success { MusicianStatus::Completed } else { MusicianStatus::Failed };
    m.session_open = false;
    TaskResult {
        success,
        files_modified: copy_strings(&x.files_modified),
        summary,
        error,
        tokens_used: x.total_tokens,
        duration_ms: elapsed_ms,
        diff: None,
        verification_output: None,
        verification_passed: None,
    }
}

/// Starts running `task` in a worktree: the musician is running it, with
/// nothing shown or counted yet (token counts are estimates until the
/// session reports actual ones).
pub fn begin_execution(m: &mut Musician, task: Task, worktree_path: &str, branch: &str, started_at: String)
    ensures
        final(m).id == old(m).id && final(m).index == old(m).index && final(m).model == old(m).model,
        final(m).original_model == old(m).original_model && final(m).max_turns == old(m).max_turns,
        final(m).session_open == old(m).session_open,
        final(m).state.id@ == old(m).id@ && final(m).state.index == old(m).index,
        final(m).state.status == MusicianStatus::Running,
        final(m).state.current_task == Some(task),
        final(m).state.output_lines@.len() == 0,
        final(m).state.tokens_used == 0 && final(m).state.tokens_estimated && final(m).state.elapsed_ms == 0,
        final(m).state.token_usage == (TokenUsage { input: 0, output: 0, cache_read: 0, cache_creation: 0 }),
        final(m).state.started_at == Some(started_at),
        ov(final(m).state.worktree_path) == Some(worktree_path@),
        ov(final(m).state.branch) == Some(branch@),
        final(m).state.checkpoint is None && final(m).state.prompt_sent is None,
{
    m.state = MusicianState {
        id: m.id.clone(),
        index: m.index,
        status: MusicianStatus::Running,
        current_task: Some(task),
        output_lines: Vec::new(),
        tokens_used: 0,
        token_usage: TokenUsage { input: 0, output: 0, cache_read: 0, cache_creation: 0 },
        tokens_estimated: true,
        started_at: Some(started_at),
        elapsed_ms: 0,
        worktree_path: Some(worktree_path.to_owned()),
        branch: Some(branch.to_owned()),
        checkpoint: None,
        prompt_sent: None,
    };
}

/// The tools a read-only task may use.
pub open spec fn read_only_tools() -> Seq<Seq<char>> {
    seq!["Read"@, "Glob"@, "Grep"@, "Bash(git log)"@, "Bash(git status)"@]
}

/// The shared memory section appended to the system prompt, if there is
/// memory to share and the task writes.
pub open spec fn memory_append(read_only: bool, memory: Option<Seq<char>>) -> Option<Seq<char>> {
    if read_only {
        None
    } else {
        match memory {
            Some(s) => if s.len() > 0 { Some("\n\n# Shared Memory (from other musicians)\n"@ + s) } else { None },
            None => None,
        }
    }
}

/// The prompt a task starts with: its description alone when it only
/// reads, else the full musician prompt.
pub open spec fn start_prompt(task: Task, read_only: bool, instructions: Seq<char>, file: Seq<char>) -> Seq<char> {
    if read_only { task.description@ } else { musician_prompt(task, instructions, file) }
}

/// The prompt as recorded for inspection, with the appended system prompt.
pub open spec fn recorded_prompt(prompt: Seq<char>, append: Option<Seq<char>>) -> Seq<char> {
    match append {
        Some(sys) => prompt + "\n\n───── APPENDED SYSTEM PROMPT ─────\n"@ + sys,
        None => prompt,
    }
}

/// Prepares the session for the task being run: the prompt to start it
/// with and its options (the musician's model and turn limit, the worktree,
/// the read-only tools, the shared memory); the prompt is recorded in the
/// musician's state.
pub fn prepare_session(
    m: &mut Musician,
    read_only: bool,
    instructions: &str,
    instructions_file: &str,
    shared_memory: Option<String>,
    worktree_path: &str,
) -> (r: (String, crate::bridge::ClaudeSessionOptions))
    requires
        old(m).state.current_task matches Some(t) ==> t.acceptance_criteria@.len() < u64::MAX,
    ensures
        match old(m).state.current_task {
            Some(t) => r.0@ == start_prompt(t, read_only, instructions@, instructions_file@),
            None => r.0@.len() == 0,
        },
        r.1.model@ == old(m).model@,
        r.1.max_turns == Some(old(m).max_turns),
        (match r.1.allowed_tools {
            Some(v) => read_only && views(v@) == read_only_tools(),
            None => !read_only,
        }),
        ov(r.1.append_system_prompt) == memory_append(read_only, ov(shared_memory)),
        ov(r.1.cwd) == Some(worktree_path@),
        ov(final(m).state.prompt_sent) == Some(recorded_prompt(r.0@, memory_append(read_only, ov(shared_memory)))),
        *final(m) == (Musician {
            state: MusicianState { prompt_sent: final(m).state.prompt_sent, ..old(m).state },
            ..*old(m)
        }),
{
    let prompt = match &m.state.current_task {
        Some(t) => if read_only {
            t.description.clone()
        } else {
            build_musician_prompt(t, instructions, instructions_file)
        },
        None => String::new(),
    };
    let append = if read_only {
        None
    } else {
        match shared_memory {
            Some(s) => if s.as_str().is_empty() {
                None
            } else {
                let mut a = String::new();
                push_str(&mut a, "\n\n# Shared Memory (from other musicians)\n");
                push_str(&mut a, s.as_str());
                Some(a)
            },
            None => None,
        }
    };
    let mut sent = prompt.clone();
    match &append {
        Some(sys) => {
            push_str(&mut sent, "\n\n───── APPENDED SYSTEM PROMPT ─────\n");
            push_str(&mut sent, sys.as_str());
        },
        None => {},
    }
    m.state.prompt_sent = Some(sent);
    let tools = if read_only {
        let mut v: Vec<String> = Vec::new();
        v.push("Read".to_owned());
        v.push("Glob".to_owned());
        v.push("Grep".to_owned());
        v.push("Bash(git log)".to_owned());
        v.push("Bash(git status)".to_owned());
        assert(views(v@) =~= read_only_tools());
        Some(v)
    } else {
        None
    };
    let options = crate::bridge::ClaudeSessionOptions {
        model: m.model.clone(),
        max_turns: Some(m.max_turns),
        allowed_tools: tools,
        append_system_prompt: append,
        cwd: Some(worktree_path.to_owned()),
    };
    (prompt, options)
}

/// The identifier of the musician at position `i`: `m1`, `m2`, ...
pub open spec fn musician_id(i: int) -> Seq<char> {
    "m"@ + decimal((i + 1) as nat)
}

/// Makes sure there are at least `count` musicians: new idle ones, numbered
/// on from those there are, run `model`; the orchestra's copy of each new
/// musician's state is added too.
pub fn ensure_musicians(
    musicians: &mut Vec<Option<Musician>>,
    states: &mut Vec<MusicianState>,
    count: usize,
    model: &str,
    max_turns: u32,
)
    requires
        count < u64::MAX,
    ensures
        old(musicians)@.len() >= count ==> final(musicians)@ == old(musicians)@ && final(states)@ == old(states)@,
        old(musicians)@.len() < count ==> {
            &&& final(musicians)@.len() == count
            &&& final(states)@.len() == old(states)@.len() + (count - old(musicians)@.len())
            &&& forall|i: int| 0 <= i < old(musicians)@.len() ==> #[trigger] final(musicians)@[i] == old(musicians)@[i]
            &&& forall|i: int| 0 <= i < old(states)@.len() ==> #[trigger] final(states)@[i] == old(states)@[i]
            &&& forall|i: int| old(musicians)@.len() <= i < count ==> {
                &&& #[trigger] final(musicians)@[i] matches Some(m) && m.id@ == musician_id(i) && m.index == i
                    && m.model@ == model@ && m.original_model@ == model@ && m.max_turns == max_turns
                    && fresh_state(m.state, musician_id(i), i as usize) && !m.session_open
                &&& fresh_state(final(states)@[old(states)@.len() + i - old(musicians)@.len()], musician_id(i), i as usize)
            }
        },
{
    let start = musicians.len();
    if start >= count {
        return;
    }
    let ghost m0 = musicians@;
    let ghost s0 = states@;
    let mut i = start;
    while i < count
        invariant
            start == m0.len(),
            start <= i <= count < u64::MAX,
            musicians@.len() == i,
            states@.len() == s0.len() + (i - start),
            forall|j: int| 0 <= j < start ==> #[trigger] musicians@[j] == m0[j],
            forall|j: int| 0 <= j < s0.len() ==> #[trigger] states@[j] == s0[j],
            forall|j: int| start <= j < i ==> {
                &&& #[trigger] musicians@[j] matches Some(m) && m.id@ == musician_id(j) && m.index == j
                    && m.model@ == model@ && m.original_model@ == model@ && m.max_turns == max_turns
                    && fresh_state(m.state, musician_id(j), j as usize) && !m.session_open
                &&& fresh_state(states@[s0.len() + j - start], musician_id(j), j as usize)
            },
        decreases count - i,
    {
        let mut id = String::new();
        push_str(&mut id, "m");
        push_decimal(&mut id, (i as u64) + 1);
        let mut id2 = String::new();
        push_str(&mut id2, "m");
        push_decimal(&mut id2, (i as u64) + 1);
        let m = Musician::new(id, i, model.to_owned(), max_turns);
        let st = Musician::new(id2, i, String::new(), max_turns).state;
        states.push(st);
        musicians.push(Some(m));
        i = i + 1;
    }
}

/// The opening of a musician's prompt.
pub const INTRO: &'static str = "You are a Musician agent in the Orchestra orchestration system. You have been assigned a specific task to complete.\n\
        \n\
        ## Your Task\n\
        **";

/// The closing instructions of a musician's prompt.
pub const INSTR: &'static str = "\n\
        \n\
        ## Instructions\n\
        1. Read and understand the relevant files\n\
        2. Implement the changes described in the task\n\
        3. Do NOT modify files outside your file scope unless absolutely necessary\n\
        4. **Checkpoint Protocol**: After every 5 turns of editing, or after completing a logical unit of work:\n\
        \x20\x20\x20a. Run `npm run typecheck` (or the project's verification command)\n\
        \x20\x20\x20b. If errors: fix them immediately before continuing\n\
        \x20\x20\x20c. Commit your progress: `git add -A && git commit -m \"checkpoint: <brief summary of what was done>\"`\n\
        \x20\x20\x20This protects your work against crashes and lets the system track your progress.\n\
        5. After all implementation is done, run final verification:\n\
        \x20\x20\x20- Run `npm run typecheck` in the relevant package directory\n\
        \x20\x20\x20- If typecheck fails, fix the errors before finishing\n\
        \x20\x20\x20- Report any unfixable issues in your summary\n\
        6. Write a brief summary of what you changed when done\n\
        7. If you discover something surprising (API changed, type renamed, unexpected pattern), share it clearly in your summary — other musicians may need this information\n\
        \n\
        Complete the task thoroughly. Do not ask for confirmation — execute autonomously.";

} // verus!
