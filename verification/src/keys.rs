//! What a key press does to the interface: the decisions of the terminal
//! front end, from the state and the key to the next state and the action
//! that the front end then performs (quitting, sending an action to the
//! orchestra, listing or resolving saved sessions, saving a prompt).
use crate::events::{ActionView, UserAction};
use crate::image_input::{extract_image_paths, extracted_text, image_tokens, tokens_from};
use crate::state::{OrchestraPhase, SessionData};
use crate::text::{
    chars_of, has_prefix, is_space, is_space_char, push_char, push_str, string_from_chars,
    trim_string, trimmed, views,
};
use crate::tui::{
    word_left, word_left_from, word_right, word_right_from, LayoutConfig, LogSourceFilter, Tab,
    UiState,
};
use vstd::prelude::*;
use vstd::string::StringSliceAdditionalSpecFns;
use vstd::utf8::*;

verus! {

broadcast use vstd::string::group_string_axioms;

// ─── Keys and outcomes ───────────────────────────────────────────

/// The key of a key press.
#[derive(Debug, Clone, Copy, PartialEq, Eq, Structural)]
pub enum KeyCode {
    Char(char),
    Enter,
    Esc,
    Backspace,
    Left,
    Right,
    Up,
    Down,
    Tab,
    BackTab,
    Other,
}

/// A key press with the modifiers that the interface looks at.
#[derive(Debug, Clone, Copy, PartialEq, Eq, Structural)]
pub struct KeyEvent {
    pub code: KeyCode,
    pub ctrl: bool,
    pub alt: bool,
}

/// What the front end does after a key press, beyond the new state.
#[derive(Debug)]
pub enum KeyCommand {
    /// Nothing more.
    Nothing,
    /// Send this action to the orchestra.
    Send(UserAction),
    /// List the saved sessions and keep those with a task description.
    ListSessions,
    /// Resolve this session identifier prefix and resume the session found.
    ResolveSession(String),
}

/// The outcome of a key press.
#[derive(Debug)]
pub struct KeyOutcome {
    /// The interface stops after the command.
    pub quit: bool,
    /// A submitted prompt to append to the saved prompt history.
    pub persist: Option<String>,
    pub command: KeyCommand,
}

/// A command as plain values.
pub ghost enum CommandView {
    Nothing,
    Send(ActionView),
    ListSessions,
    ResolveSession(Seq<char>),
}

/// An outcome as plain values.
pub ghost struct OutcomeView {
    pub quit: bool,
    pub persist: Option<Seq<char>>,
    pub command: CommandView,
}

impl View for KeyOutcome {
    type V = OutcomeView;

    open spec fn view(&self) -> OutcomeView {
        OutcomeView {
            quit: self.quit,
            persist: crate::events::opt_view(self.persist),
            command: match self.command {
                KeyCommand::Nothing => CommandView::Nothing,
                KeyCommand::Send(a) => CommandView::Send(a@),
                KeyCommand::ListSessions => CommandView::ListSessions,
                KeyCommand::ResolveSession(s) => CommandView::ResolveSession(s@),
            },
        }
    }
}

/// No more to do.
pub open spec fn quiet() -> OutcomeView {
    OutcomeView { quit: false, persist: None, command: CommandView::Nothing }
}

/// Send `a` and go on.
pub open spec fn sends(a: ActionView) -> OutcomeView {
    OutcomeView { quit: false, persist: None, command: CommandView::Send(a) }
}

/// Send the quit action and stop.
pub open spec fn quits() -> OutcomeView {
    OutcomeView { quit: true, persist: None, command: CommandView::Send(ActionView::Quit) }
}

fn quiet_outcome() -> (r: KeyOutcome)
    ensures
        r@ == quiet(),
{
    KeyOutcome { quit: false, persist: None, command: KeyCommand::Nothing }
}

fn send_outcome(a: UserAction) -> (r: KeyOutcome)
    ensures
        r@ == sends(a@),
{
    KeyOutcome { quit: false, persist: None, command: KeyCommand::Send(a) }
}

fn quit_outcome() -> (r: KeyOutcome)
    ensures
        r@ == quits(),
{
    KeyOutcome { quit: true, persist: None, command: KeyCommand::Send(UserAction::Quit) }
}

// ─── The interface state as plain values ─────────────────────────

/// Every field of the interface state, the text ones as characters.
#[verifier::ext_equal]
pub ghost struct UiView {
    pub tab: Tab,
    pub focused: usize,
    pub musician_scroll: Seq<u16>,
    pub focus_mode: bool,
    pub conductor_scroll: u16,
    pub plan_selected: usize,
    pub plan_scroll: u16,
    pub refinement_scroll: u16,
    pub refinement_focused: bool,
    pub task_detail: Option<usize>,
    pub task_detail_scroll: u16,
    pub stats_scroll: u16,
    pub diff_scroll: u16,
    pub expanded_files: Seq<usize>,
    pub selected_file: usize,
    pub musician_filter: Option<usize>,
    pub log_scroll: u16,
    pub log_filter: Option<Seq<char>>,
    pub auto_scroll: bool,
    pub source_filter: Option<LogSourceFilter>,
    pub last_phase: OrchestraPhase,
    pub show_help: bool,
    pub show_sessions: bool,
    pub show_insights: bool,
    pub input: Seq<char>,
    pub cursor: usize,
    pub history: Seq<Seq<char>>,
    pub history_index: Option<usize>,
    pub stash: Seq<char>,
    pub layout: LayoutConfig,
    pub session_selected: usize,
    pub sessions: Seq<SessionData>,
    pub last_was_esc: bool,
    pub needs_clear: bool,
}

impl View for UiState {
    type V = UiView;

    open spec fn view(&self) -> UiView {
        UiView {
            tab: self.active_tab,
            focused: self.tab_state.orchestra.focused_musician,
            musician_scroll: self.tab_state.orchestra.musician_scroll@,
            focus_mode: self.tab_state.orchestra.focus_mode,
            conductor_scroll: self.tab_state.orchestra.conductor_scroll,
            plan_selected: self.tab_state.plan.plan_selected,
            plan_scroll: self.tab_state.plan.plan_scroll,
            refinement_scroll: self.tab_state.plan.refinement_scroll,
            refinement_focused: self.tab_state.plan.refinement_focused,
            task_detail: self.tab_state.plan.task_detail,
            task_detail_scroll: self.tab_state.plan.task_detail_scroll,
            stats_scroll: self.tab_state.stats.scroll,
            diff_scroll: self.tab_state.diff.diff_scroll,
            expanded_files: self.tab_state.diff.expanded_files@,
            selected_file: self.tab_state.diff.selected_file,
            musician_filter: self.tab_state.diff.musician_filter,
            log_scroll: self.tab_state.log.log_scroll,
            log_filter: crate::events::opt_view(self.tab_state.log.log_filter),
            auto_scroll: self.tab_state.log.auto_scroll,
            source_filter: self.tab_state.log.source_filter,
            last_phase: self.last_phase,
            show_help: self.show_help,
            show_sessions: self.show_sessions,
            show_insights: self.show_insights,
            input: self.prompt_input@,
            cursor: self.prompt_cursor,
            history: views(self.prompt_history@),
            history_index: self.history_index,
            stash: self.history_stash@,
            layout: self.layout_config,
            session_selected: self.session_selected,
            sessions: self.sessions@,
            last_was_esc: self.last_was_esc,
            needs_clear: self.needs_clear,
        }
    }
}

// ─── Editing the prompt (byte offsets) ───────────────────────────

/// The UTF-8 bytes of `s`.
pub open spec fn bytes_of(s: Seq<char>) -> Seq<u8> {
    encode_utf8(s)
}

/// The bytes of `s` with the range `[a, b)` taken out, read back as text.
pub open spec fn cut_bytes(s: Seq<char>, a: int, b: int) -> Seq<char> {
    decode_utf8(bytes_of(s).subrange(0, a) + bytes_of(s).subrange(b, bytes_of(s).len() as int))
}

/// `s` with `c` inserted at byte offset `at`.
pub open spec fn insert_at(s: Seq<char>, at: int, c: char) -> Seq<char> {
    decode_utf8(
        bytes_of(s).subrange(0, at) + bytes_of(seq![c]) + bytes_of(s).subrange(
            at,
            bytes_of(s).len() as int,
        ),
    )
}

/// The byte offset just after the character that starts at `i`.
pub open spec fn next_boundary(s: Seq<char>, i: int) -> int {
    crate::text::ceil_boundary(bytes_of(s), i + 1)
}

/// Whether byte offset `i` of `s` starts a character or ends the text.
pub open spec fn on_boundary(s: Seq<char>, i: int) -> bool {
    is_char_boundary(bytes_of(s), i)
}

pub(crate) proof fn lemma_encode_concat(a: Seq<char>, b: Seq<char>)
    ensures
        encode_utf8(a + b) == encode_utf8(a) + encode_utf8(b),
    decreases a.len(),
{
    if a.len() == 0 {
        assert(a + b =~= b);
        assert(encode_utf8(a) + encode_utf8(b) =~= encode_utf8(b));
    } else {
        lemma_encode_concat(a.drop_first(), b);
        assert((a + b).drop_first() =~= a.drop_first() + b);
        assert((a + b)[0] == a[0]);
        assert(encode_utf8(a + b) =~= encode_utf8(a) + encode_utf8(b));
    }
}

/// In valid UTF-8, the byte after an ASCII character starts a character.
pub(crate) proof fn lemma_boundary_after_ascii(b: Seq<u8>, i: int)
    requires
        valid_utf8(b),
        0 <= i < b.len(),
        is_char_boundary(b, i),
        b[i] < 128,
    ensures
        is_char_boundary(b, i + 1),
    decreases b.len(),
{
    reveal_with_fuel(is_char_boundary, 2);
    let l = length_of_first_scalar(b);
    let rest = pop_first_scalar(b);
    assert(valid_first_scalar(b));
    assert(1 <= l <= b.len());
    assert(rest.len() == b.len() - l);
    if i == 0 {
        assert(l == 1);
        assert(is_char_boundary(rest, 0));
    } else {
        assert(is_char_boundary(rest, i - l));
        assert(i - l >= 0);
        if i - l == rest.len() {
            assert(false);
        }
        assert(rest[i - l] == b[i]);
        lemma_boundary_after_ascii(rest, i - l);
    }
}

/// The text of `s` with the bytes `[a, b)` taken out.
fn cut_range(s: &str, a: usize, b: usize) -> (r: String)
    requires
        a <= b <= s.spec_bytes().len(),
        is_char_boundary(s.spec_bytes(), a as int),
        is_char_boundary(s.spec_bytes(), b as int),
    ensures
        r@ == cut_bytes(s@, a as int, b as int),
{
    proof {
        encode_utf8_valid_utf8(s@);
    }
    let (head, rest) = s.split_at(b);
    let ghost bytes = s.spec_bytes();
    proof {
        encode_utf8_valid_utf8(head@);
        is_char_boundary_start_end_of_seq(head.spec_bytes());
        if a < b {
            is_char_boundary_iff_not_is_continuation_byte(bytes, a as int);
            is_char_boundary_iff_not_is_continuation_byte(head.spec_bytes(), a as int);
        }
    }
    let (front, _middle) = head.split_at(a);
    let mut out = front.to_owned();
    push_str(&mut out, rest);
    proof {
        lemma_encode_concat(front@, rest@);
        encode_utf8_decode_utf8(out@);
        assert(front.spec_bytes() =~= bytes.subrange(0, a as int));
    }
    out
}

proof fn lemma_word_end(b: Seq<u8>, c: int)
    requires
        0 <= c <= b.len(),
    ensures
        c <= crate::tui::word_end(b, c) <= b.len(),
        crate::tui::word_end(b, c) < b.len() ==> b[crate::tui::word_end(b, c)] == 32,
    decreases b.len() - c,
{
    if c < b.len() && b[c] != 32 {
        lemma_word_end(b, c + 1);
    }
}

proof fn lemma_space_end(b: Seq<u8>, c: int)
    requires
        0 <= c <= b.len(),
    ensures
        c <= crate::tui::space_end(b, c) <= b.len(),
        crate::tui::space_end(b, c) > c ==> b[crate::tui::space_end(b, c) - 1] == 32,
    decreases b.len() - c,
{
    if c < b.len() && b[c] == 32 {
        lemma_space_end(b, c + 1);
    }
}

/// Moving forward over a word and the spaces after it from a character
/// boundary stops on a character boundary.
proof fn lemma_word_right_boundary(s: Seq<char>, c: int)
    requires
        0 <= c <= bytes_of(s).len(),
        on_boundary(s, c),
    ensures
        c <= word_right_from(bytes_of(s), c) <= bytes_of(s).len(),
        on_boundary(s, word_right_from(bytes_of(s), c)),
{
    let b = bytes_of(s);
    encode_utf8_valid_utf8(s);
    is_char_boundary_start_end_of_seq(b);
    lemma_word_end(b, c);
    let e = crate::tui::word_end(b, c);
    lemma_space_end(b, e);
    let r = crate::tui::space_end(b, e);
    if c < r < b.len() {
        if r == e {
            is_char_boundary_iff_not_is_continuation_byte(b, r);
        } else {
            is_char_boundary_iff_not_is_continuation_byte(b, r - 1);
            lemma_boundary_after_ascii(b, r - 1);
        }
    }
}

/// Deletes the word after the cursor and the spaces after it; the cursor
/// (a byte offset) stays.
pub fn word_delete_forward(cursor: &mut usize, input: &mut String)
    requires
        *old(cursor) <= bytes_of(old(input)@).len(),
        on_boundary(old(input)@, *old(cursor) as int),
    ensures
        *final(cursor) == *old(cursor),
        final(input)@ == cut_bytes(
            old(input)@,
            *old(cursor) as int,
            word_right_from(bytes_of(old(input)@), *old(cursor) as int),
        ),
{
    let start = *cursor;
    let mut end = start;
    word_right(&mut end, input.as_str());
    proof {
        lemma_word_right_boundary(input@, start as int);
    }
    let out = cut_range(input.as_str(), start, end);
    *input = out;
}

/// The text of `s` with `c` inserted at byte offset `at`.
fn insert_char(s: &str, at: usize, c: char) -> (r: String)
    requires
        at <= s.spec_bytes().len(),
        is_char_boundary(s.spec_bytes(), at as int),
    ensures
        r@ == insert_at(s@, at as int, c),
{
    proof {
        encode_utf8_valid_utf8(s@);
    }
    let (head, tail) = s.split_at(at);
    let mut out = head.to_owned();
    push_char(&mut out, c);
    push_str(&mut out, tail);
    proof {
        lemma_encode_concat(head@, seq![c]);
        lemma_encode_concat(head@ + seq![c], tail@);
        assert(out@ == head@ + seq![c] + tail@);
        encode_utf8_decode_utf8(out@);
    }
    out
}


// ─── What a key does: overlays and navigation ────────────────────

/// `v` with the prompt emptied and history browsing ended.
pub open spec fn cleared(v: UiView) -> UiView {
    UiView { input: Seq::empty(), cursor: 0, history_index: None, stash: Seq::empty(), ..v }
}

/// One less, stopping at zero.
pub open spec fn dec16(x: u16) -> u16 {
    if x == 0 { 0 } else { (x - 1) as u16 }
}

/// One less, stopping at zero.
pub open spec fn dec(x: usize) -> usize {
    if x == 0 { 0 } else { (x - 1) as usize }
}

/// The number of musician panels to cycle through: at least one.
pub open spec fn panel_count(m: nat) -> nat {
    if m == 0 { 1 } else { m }
}

/// The next panel, wrapping round.
pub open spec fn next_panel(f: usize, m: nat) -> usize {
    ((f + 1) % (panel_count(m) as int)) as usize
}

/// The previous panel, wrapping round.
pub open spec fn prev_panel(f: usize, m: nat) -> usize {
    if f == 0 { (panel_count(m) - 1) as usize } else { (f - 1) as usize }
}

/// The keys that move over or delete words: `b`, `f` and `d`.
pub open spec fn is_word_key(c: KeyCode) -> bool {
    c == KeyCode::Char('b') || c == KeyCode::Char('f') || c == KeyCode::Char('d')
}

/// A word key: back a word, forward a word, or delete the word ahead.
pub open spec fn word_step(v: UiView, c: KeyCode) -> UiView {
    let b = bytes_of(v.input);
    if c == KeyCode::Char('b') {
        UiView { cursor: word_left_from(b, v.cursor as int) as usize, ..v }
    } else if c == KeyCode::Char('f') {
        UiView { cursor: word_right_from(b, v.cursor as int) as usize, ..v }
    } else {
        UiView { input: cut_bytes(v.input, v.cursor as int, word_right_from(b, v.cursor as int)), ..v }
    }
}

/// Deleting a word ahead needs the cursor on a character boundary.
pub open spec fn word_safe(v: UiView, c: KeyCode) -> bool {
    c == KeyCode::Char('d') ==> v.cursor <= bytes_of(v.input).len() && on_boundary(v.input, v.cursor as int)
}

/// A key while the help overlay is open: Esc, `?` or `q` close it.
pub open spec fn help_step(v: UiView, k: KeyEvent) -> UiView {
    if k.code == KeyCode::Esc || k.code == KeyCode::Char('?') || k.code == KeyCode::Char('q') {
        UiView { show_help: false, needs_clear: true, ..v }
    } else {
        v
    }
}

/// A key while the session browser is open.
pub open spec fn sessions_step(v: UiView, k: KeyEvent) -> (UiView, OutcomeView) {
    let c = k.code;
    if c == KeyCode::Esc {
        (UiView { show_sessions: false, needs_clear: true, ..v }, quiet())
    } else if c == KeyCode::Enter {
        if v.session_selected < v.sessions.len() {
            (
                UiView { show_sessions: false, needs_clear: true, ..v },
                sends(ActionView::ResumeSession { session_id: v.sessions[v.session_selected as int].id@ }),
            )
        } else {
            (v, quiet())
        }
    } else if c == KeyCode::Up || c == KeyCode::Char('k') {
        (UiView { session_selected: dec(v.session_selected), ..v }, quiet())
    } else if c == KeyCode::Down || c == KeyCode::Char('j') {
        if v.session_selected + 1 < v.sessions.len() {
            (UiView { session_selected: (v.session_selected + 1) as usize, ..v }, quiet())
        } else {
            (v, quiet())
        }
    } else {
        (v, quiet())
    }
}

/// A key while a task's detail overlay is open.
pub open spec fn detail_step(v: UiView, k: KeyEvent) -> UiView {
    let c = k.code;
    if c == KeyCode::Esc || c == KeyCode::Char('q') {
        UiView { task_detail: None, needs_clear: true, ..v }
    } else if c == KeyCode::Up || c == KeyCode::Char('k') {
        UiView { task_detail_scroll: dec16(v.task_detail_scroll), ..v }
    } else if c == KeyCode::Down || c == KeyCode::Char('j') {
        UiView { task_detail_scroll: (v.task_detail_scroll + 1) as u16, ..v }
    } else {
        v
    }
}

/// An arrow key outside the prompt, by the active tab.
pub open spec fn arrow_step(v: UiView, c: KeyCode, m: nat, t: nat) -> (UiView, OutcomeView) {
    match v.tab {
        Tab::Orchestra => if c == KeyCode::Left {
            (UiView { focused: prev_panel(v.focused, m), ..v }, quiet())
        } else if c == KeyCode::Right {
            (UiView { focused: next_panel(v.focused, m), ..v }, quiet())
        } else if c == KeyCode::Up {
            (UiView { conductor_scroll: dec16(v.conductor_scroll), ..v }, sends(ActionView::ScrollUp))
        } else if c == KeyCode::Down {
            (UiView { conductor_scroll: (v.conductor_scroll + 1) as u16, ..v }, sends(ActionView::ScrollDown))
        } else {
            (v, quiet())
        },
        Tab::Plan => if c == KeyCode::Up {
            (UiView { plan_selected: dec(v.plan_selected), ..v }, quiet())
        } else if c == KeyCode::Down && v.plan_selected + 1 < t {
            (UiView { plan_selected: (v.plan_selected + 1) as usize, ..v }, quiet())
        } else {
            (v, quiet())
        },
        Tab::Stats => if c == KeyCode::Up {
            (UiView { stats_scroll: dec16(v.stats_scroll), ..v }, quiet())
        } else if c == KeyCode::Down {
            (UiView { stats_scroll: (v.stats_scroll + 1) as u16, ..v }, quiet())
        } else {
            (v, quiet())
        },
        Tab::Diff => if c == KeyCode::Up {
            (UiView { diff_scroll: dec16(v.diff_scroll), ..v }, quiet())
        } else if c == KeyCode::Down {
            (UiView { diff_scroll: (v.diff_scroll + 1) as u16, ..v }, quiet())
        } else {
            (v, quiet())
        },
        Tab::Log => if c == KeyCode::Up {
            (UiView { auto_scroll: false, log_scroll: dec16(v.log_scroll), ..v }, quiet())
        } else if c == KeyCode::Down {
            (UiView { log_scroll: (v.log_scroll + 1) as u16, ..v }, quiet())
        } else {
            (v, quiet())
        },
    }
}

/// Arrow keys never count past the largest value they hold.
pub open spec fn arrow_safe(v: UiView, c: KeyCode) -> bool {
    match v.tab {
        Tab::Orchestra => (c == KeyCode::Right ==> v.focused < usize::MAX)
            && (c == KeyCode::Down ==> v.conductor_scroll < u16::MAX),
        Tab::Plan => c == KeyCode::Down ==> v.plan_selected < usize::MAX,
        Tab::Stats => c == KeyCode::Down ==> v.stats_scroll < u16::MAX,
        Tab::Diff => c == KeyCode::Down ==> v.diff_scroll < u16::MAX,
        Tab::Log => c == KeyCode::Down ==> v.log_scroll < u16::MAX,
    }
}

/// Whether `c` is an arrow key.
pub open spec fn is_arrow(c: KeyCode) -> bool {
    c == KeyCode::Left || c == KeyCode::Right || c == KeyCode::Up || c == KeyCode::Down
}

/// A key outside the prompt that selects no tab.
pub open spec fn nav_step(v: UiView, k: KeyEvent, phase: OrchestraPhase, m: nat, t: nat) -> (UiView, OutcomeView) {
    let c = k.code;
    if c == KeyCode::Char('q') {
        (v, quits())
    } else if c == KeyCode::Char('?') {
        (UiView { show_help: !v.show_help, ..v }, quiet())
    } else if c == KeyCode::Tab {
        (UiView { focused: next_panel(v.focused, m), ..v }, sends(ActionView::FocusNext))
    } else if c == KeyCode::BackTab {
        (UiView { focused: prev_panel(v.focused, m), ..v }, sends(ActionView::FocusPrev))
    } else if is_arrow(c) {
        arrow_step(v, c, m, t)
    } else if c == KeyCode::Enter {
        (v, if phase == OrchestraPhase::PlanReview { sends(ActionView::ApprovePlan) } else { quiet() })
    } else if c == KeyCode::Char('d') && phase == OrchestraPhase::PlanReview {
        (UiView { task_detail: Some(v.plan_selected), task_detail_scroll: 0, ..v }, quiet())
    } else if c == KeyCode::Esc {
        (UiView { focus_mode: false, ..v }, quiet())
    } else {
        (v, quiet())
    }
}

/// Navigation keys never count past the largest value they hold.
pub open spec fn nav_safe(v: UiView, k: KeyEvent) -> bool {
    &&& k.code == KeyCode::Tab ==> v.focused < usize::MAX
    &&& is_arrow(k.code) ==> arrow_safe(v, k.code)
}

/// The tab a digit key selects.
pub open spec fn tab_for(c: char) -> Option<Tab> {
    if c == '1' {
        Some(Tab::Orchestra)
    } else if c == '2' {
        Some(Tab::Plan)
    } else if c == '3' {
        Some(Tab::Stats)
    } else if c == '4' {
        Some(Tab::Diff)
    } else if c == '5' {
        Some(Tab::Log)
    } else {
        None
    }
}

/// A digit key switches to its tab when the tab can be shown.
pub open spec fn digit_step(v: UiView, c: char, phase: OrchestraPhase) -> UiView {
    match tab_for(c) {
        Some(tab) => if crate::tui::tab_visible(tab, phase) { UiView { tab, ..v } } else { v },
        None => v,
    }
}

fn help_key(ui: &mut UiState, key: KeyEvent)
    ensures
        final(ui)@ == help_step(old(ui)@, key),
{
    match key.code {
        KeyCode::Esc | KeyCode::Char('?') | KeyCode::Char('q') => {
            ui.show_help = false;
            ui.needs_clear = true;
        },
        _ => {},
    }
}

fn sessions_key(ui: &mut UiState, key: KeyEvent) -> (r: KeyOutcome)
    requires
        (key.code == KeyCode::Down || key.code == KeyCode::Char('j')) ==> old(ui).session_selected < usize::MAX,
    ensures
        (final(ui)@, r@) == sessions_step(old(ui)@, key),
{
    match key.code {
        KeyCode::Esc => {
            ui.show_sessions = false;
            ui.needs_clear = true;
            quiet_outcome()
        },
        KeyCode::Enter => {
            if ui.session_selected < ui.sessions.len() {
                let session_id = ui.sessions[ui.session_selected].id.clone();
                ui.show_sessions = false;
                ui.needs_clear = true;
                send_outcome(UserAction::ResumeSession { session_id })
            } else {
                quiet_outcome()
            }
        },
        KeyCode::Up | KeyCode::Char('k') => {
            ui.session_selected = if ui.session_selected == 0 { 0 } else { ui.session_selected - 1 };
            quiet_outcome()
        },
        KeyCode::Down | KeyCode::Char('j') => {
            if ui.session_selected + 1 < ui.sessions.len() {
                ui.session_selected = ui.session_selected + 1;
            }
            quiet_outcome()
        },
        _ => quiet_outcome(),
    }
}

fn detail_key(ui: &mut UiState, key: KeyEvent)
    requires
        (key.code == KeyCode::Down || key.code == KeyCode::Char('j')) ==> old(ui).tab_state.plan.task_detail_scroll < u16::MAX,
    ensures
        final(ui)@ == detail_step(old(ui)@, key),
{
    match key.code {
        KeyCode::Esc | KeyCode::Char('q') => {
            ui.tab_state.plan.task_detail = None;
            ui.needs_clear = true;
        },
        KeyCode::Up | KeyCode::Char('k') => {
            let s = ui.tab_state.plan.task_detail_scroll;
            ui.tab_state.plan.task_detail_scroll = if s == 0 { 0 } else { s - 1 };
        },
        KeyCode::Down | KeyCode::Char('j') => {
            ui.tab_state.plan.task_detail_scroll = ui.tab_state.plan.task_detail_scroll + 1;
        },
        _ => {},
    }
}

fn word_key(ui: &mut UiState, c: KeyCode)
    requires
        is_word_key(c),
        word_safe(old(ui)@, c),
    ensures
        final(ui)@ == word_step(old(ui)@, c),
{
    if c == KeyCode::Char('b') {
        word_left(&mut ui.prompt_cursor, ui.prompt_input.as_str());
    } else if c == KeyCode::Char('f') {
        word_right(&mut ui.prompt_cursor, ui.prompt_input.as_str());
    } else {
        word_delete_forward(&mut ui.prompt_cursor, &mut ui.prompt_input);
    }
}

/// Moves within the active tab on an arrow key.
pub fn handle_arrow_key(code: KeyCode, ui: &mut UiState, musicians: usize, tasks: usize) -> (r: KeyOutcome)
    requires
        arrow_safe(old(ui)@, code),
    ensures
        (final(ui)@, r@) == arrow_step(old(ui)@, code, musicians as nat, tasks as nat),
{
    let count = if musicians == 0 { 1 } else { musicians };
    match ui.active_tab {
        Tab::Orchestra => {
            let f = ui.tab_state.orchestra.focused_musician;
            match code {
                KeyCode::Left => {
                    ui.tab_state.orchestra.focused_musician = if f == 0 { count - 1 } else { f - 1 };
                    quiet_outcome()
                },
                KeyCode::Right => {
                    ui.tab_state.orchestra.focused_musician = (f + 1) % count;
                    quiet_outcome()
                },
                KeyCode::Up => {
                    let s = ui.tab_state.orchestra.conductor_scroll;
                    ui.tab_state.orchestra.conductor_scroll = if s == 0 { 0 } else { s - 1 };
                    send_outcome(UserAction::ScrollUp)
                },
                KeyCode::Down => {
                    ui.tab_state.orchestra.conductor_scroll = ui.tab_state.orchestra.conductor_scroll + 1;
                    send_outcome(UserAction::ScrollDown)
                },
                _ => quiet_outcome(),
            }
        },
        Tab::Plan => {
            match code {
                KeyCode::Up => {
                    let s = ui.tab_state.plan.plan_selected;
                    ui.tab_state.plan.plan_selected = if s == 0 { 0 } else { s - 1 };
                },
                KeyCode::Down => {
                    if ui.tab_state.plan.plan_selected + 1 < tasks {
                        ui.tab_state.plan.plan_selected = ui.tab_state.plan.plan_selected + 1;
                    }
                },
                _ => {},
            }
            quiet_outcome()
        },
        Tab::Stats => {
            match code {
                KeyCode::Up => {
                    let s = ui.tab_state.stats.scroll;
                    ui.tab_state.stats.scroll = if s == 0 { 0 } else { s - 1 };
                },
                KeyCode::Down => {
                    ui.tab_state.stats.scroll = ui.tab_state.stats.scroll + 1;
                },
                _ => {},
            }
            quiet_outcome()
        },
        Tab::Diff => {
            match code {
                KeyCode::Up => {
                    let s = ui.tab_state.diff.diff_scroll;
                    ui.tab_state.diff.diff_scroll = if s == 0 { 0 } else { s - 1 };
                },
                KeyCode::Down => {
                    ui.tab_state.diff.diff_scroll = ui.tab_state.diff.diff_scroll + 1;
                },
                _ => {},
            }
            quiet_outcome()
        },
        Tab::Log => {
            match code {
                KeyCode::Up => {
                    ui.tab_state.log.auto_scroll = false;
                    let s = ui.tab_state.log.log_scroll;
                    ui.tab_state.log.log_scroll = if s == 0 { 0 } else { s - 1 };
                },
                KeyCode::Down => {
                    ui.tab_state.log.log_scroll = ui.tab_state.log.log_scroll + 1;
                },
                _ => {},
            }
            quiet_outcome()
        },
    }
}

#[verifier::rlimit(40)]
fn nav_key(key: KeyEvent, ui: &mut UiState, phase: OrchestraPhase, musicians: usize, tasks: usize) -> (r: KeyOutcome)
    requires
        nav_safe(old(ui)@, key),
    ensures
        (final(ui)@, r@) == nav_step(old(ui)@, key, phase, musicians as nat, tasks as nat),
{
    let count = if musicians == 0 { 1 } else { musicians };
    match key.code {
        KeyCode::Char('q') => quit_outcome(),
        KeyCode::Char('?') => {
            ui.show_help = !ui.show_help;
            quiet_outcome()
        },
        KeyCode::Tab => {
            ui.tab_state.orchestra.focused_musician = (ui.tab_state.orchestra.focused_musician + 1) % count;
            send_outcome(UserAction::FocusNext)
        },
        KeyCode::BackTab => {
            let f = ui.tab_state.orchestra.focused_musician;
            ui.tab_state.orchestra.focused_musician = if f == 0 { count - 1 } else { f - 1 };
            send_outcome(UserAction::FocusPrev)
        },
        KeyCode::Left | KeyCode::Right | KeyCode::Up | KeyCode::Down => {
            handle_arrow_key(key.code, ui, musicians, tasks)
        },
        KeyCode::Enter => {
            if phase == OrchestraPhase::PlanReview {
                send_outcome(UserAction::ApprovePlan)
            } else {
                quiet_outcome()
            }
        },
        KeyCode::Char('d') => {
            if phase == OrchestraPhase::PlanReview {
                ui.tab_state.plan.task_detail = Some(ui.tab_state.plan.plan_selected);
                ui.tab_state.plan.task_detail_scroll = 0;
            }
            quiet_outcome()
        },
        KeyCode::Esc => {
            ui.tab_state.orchestra.focus_mode = false;
            quiet_outcome()
        },
        _ => quiet_outcome(),
    }
}

fn digit_key(ui: &mut UiState, c: char, phase: OrchestraPhase)
    ensures
        final(ui)@ == digit_step(old(ui)@, c, phase),
{
    match Tab::from_key(c) {
        Some(tab) => {
            if tab.is_visible(&phase) {
                ui.active_tab = tab;
            }
        },
        None => {},
    }
}


// ─── What a key does in the prompt ───────────────────────────────

/// Keys that navigate rather than start typing: `q`, `?`, `d`, `j`, `k`,
/// and any key held with Ctrl or Alt.
pub open spec fn is_nav_key(k: KeyEvent) -> bool {
    ||| k.code == KeyCode::Char('q') || k.code == KeyCode::Char('?') || k.code == KeyCode::Char('d')
    ||| k.code == KeyCode::Char('j') || k.code == KeyCode::Char('k')
    ||| k.ctrl || k.alt
}

/// Whether a key edits the prompt: while typing or browsing history, on a
/// character key that does not navigate, and on Up and Down before a task
/// has been given.
pub open spec fn in_prompt_mode(v: UiView, k: KeyEvent, phase: OrchestraPhase) -> bool {
    ||| v.input.len() > 0
    ||| v.history_index is Some
    ||| (k.code is Char && !is_nav_key(k))
    ||| (phase == OrchestraPhase::Init && (k.code == KeyCode::Up || k.code == KeyCode::Down))
}

/// The slash commands that the prompt completes.
pub open spec fn slash_command_list() -> Seq<Seq<char>> {
    seq!["/help"@, "/sessions"@, "/list"@, "/resume"@, "/quit"@, "/q"@]
}

/// The commands of `cmds` that properly extend `prefix`, in order.
pub open spec fn extensions(cmds: Seq<Seq<char>>, prefix: Seq<char>) -> Seq<Seq<char>>
    decreases cmds.len(),
{
    if cmds.len() == 0 {
        Seq::empty()
    } else {
        let rest = extensions(cmds.drop_last(), prefix);
        if has_prefix(cmds.last(), prefix) && cmds.last() != prefix {
            rest.push(cmds.last())
        } else {
            rest
        }
    }
}

/// The number of leading characters of `s` that are not whitespace.
pub open spec fn word_len(s: Seq<char>) -> nat
    decreases s.len(),
{
    if s.len() > 0 && !is_space(s[0]) {
        1 + word_len(s.drop_first())
    } else {
        0
    }
}

/// Tab in the prompt: a slash command that exactly one command extends is
/// completed, its arguments kept (after one space for `/resume`).
pub open spec fn completion_step(v: UiView) -> UiView {
    if v.input.len() > 0 && v.input[0] == '/' {
        let n = word_len(v.input) as int;
        let ms = extensions(slash_command_list(), v.input.take(n));
        if ms.len() == 1 {
            let rest = v.input.skip(n);
            let text = if ms[0] == "/resume"@ {
                ms[0] + " "@ + rest.skip(crate::text::lead_ws(rest) as int)
            } else {
                ms[0] + rest
            };
            UiView { input: text, cursor: bytes_of(text).len() as usize, ..v }
        } else {
            v
        }
    } else {
        v
    }
}

/// Up in the prompt: the previous history entry (the newest when browsing
/// starts, with the current text put aside).
pub open spec fn history_up(v: UiView) -> UiView {
    if v.history.len() > 0 {
        let i: usize = match v.history_index {
            None => (v.history.len() - 1) as usize,
            Some(j) => dec(j),
        };
        let stash = match v.history_index {
            None => v.input,
            Some(_) => v.stash,
        };
        UiView {
            history_index: Some(i),
            stash,
            input: v.history[i as int],
            cursor: bytes_of(v.history[i as int]).len() as usize,
            ..v
        }
    } else {
        v
    }
}

/// Down in the prompt: the next history entry, or back to the text put aside
/// after the newest.
pub open spec fn history_down(v: UiView) -> UiView {
    match v.history_index {
        Some(j) => if j + 1 < v.history.len() {
            let i = (j + 1) as usize;
            UiView {
                history_index: Some(i),
                input: v.history[i as int],
                cursor: bytes_of(v.history[i as int]).len() as usize,
                ..v
            }
        } else {
            UiView {
                history_index: None,
                input: v.stash,
                stash: Seq::empty(),
                cursor: bytes_of(v.stash).len() as usize,
                ..v
            }
        },
        None => v,
    }
}

/// The action that submitted text becomes: the task before planning, a
/// plan refinement during plan review, guidance otherwise; image paths in
/// the text are sent apart.
pub open spec fn submit_view(text: Seq<char>, phase: OrchestraPhase) -> ActionView {
    let found = image_tokens(tokens_from(text, 0, Seq::empty(), None));
    let images = if found.len() == 0 { None } else { Some(found) };
    let body = extracted_text(text);
    if phase == OrchestraPhase::Init {
        ActionView::SubmitTask { text: body, images }
    } else if phase == OrchestraPhase::PlanReview {
        ActionView::RefinePlan { text: body, images }
    } else {
        ActionView::SubmitGuidance { text: body, images }
    }
}

/// Whether submitted text is kept in the history: all but slash commands.
pub open spec fn kept(text: Seq<char>) -> bool {
    !has_prefix(trimmed(text), "/"@)
}

/// The prompt emptied after Enter, its text kept in the history unless it
/// is a slash command.
pub open spec fn taken(v: UiView) -> UiView {
    UiView {
        input: Seq::empty(),
        cursor: 0,
        history_index: None,
        stash: Seq::empty(),
        history: if kept(v.input) { v.history.push(v.input) } else { v.history },
        ..v
    }
}

/// The outcome of submitted text with `command`.
pub open spec fn entered(text: Seq<char>, quit: bool, command: CommandView) -> OutcomeView {
    OutcomeView { quit, persist: if kept(text) { Some(text) } else { None }, command }
}

/// `/resume` with an argument resumes the session it names; without one it
/// opens the session browser. Other text is submitted.
pub open spec fn resume_or_submit(v: UiView, text: Seq<char>, phase: OrchestraPhase) -> (UiView, OutcomeView) {
    let tr = trimmed(text);
    if has_prefix(tr, "/resume"@) {
        let arg = trimmed(tr.skip(7));
        if arg.len() == 0 {
            (UiView { show_sessions: true, session_selected: 0, ..v }, entered(text, false, CommandView::ListSessions))
        } else {
            (v, entered(text, false, CommandView::ResolveSession(arg)))
        }
    } else {
        (v, entered(text, false, CommandView::Send(submit_view(text, phase))))
    }
}

/// Submitted text, once taken out of the prompt: the help, session and quit
/// commands, then the rest.
pub open spec fn entry_step(v: UiView, text: Seq<char>, phase: OrchestraPhase) -> (UiView, OutcomeView) {
    let tr = trimmed(text);
    if tr == "/help"@ || tr == "/?"@ {
        (UiView { show_help: !v.show_help, ..v }, entered(text, false, CommandView::Nothing))
    } else if tr == "/sessions"@ || tr == "/list"@ {
        (UiView { show_sessions: true, session_selected: 0, ..v }, entered(text, false, CommandView::ListSessions))
    } else if tr == "/quit"@ || tr == "/q"@ {
        (v, entered(text, true, CommandView::Send(ActionView::Quit)))
    } else {
        resume_or_submit(v, text, phase)
    }
}

/// Enter in the prompt: non-empty text is taken out of the prompt, kept in
/// the history unless it is a slash command, and run as a command or
/// submitted.
pub open spec fn enter_step(v: UiView, phase: OrchestraPhase) -> (UiView, OutcomeView) {
    if v.input.len() == 0 {
        (v, quiet())
    } else {
        entry_step(taken(v), v.input, phase)
    }
}

/// A character key that is typed into the prompt.
pub open spec fn is_typed(k: KeyEvent) -> bool {
    &&& k.code is Char
    &&& !(k.ctrl && (k.code == KeyCode::Char('w') || k.code == KeyCode::Char('a')
        || k.code == KeyCode::Char('e') || k.code == KeyCode::Char('u')))
}

/// An editing key in prompt mode.
pub open spec fn edit_step(v: UiView, k: KeyEvent) -> UiView {
    let c = k.code;
    let len = bytes_of(v.input).len();
    if c == KeyCode::Char('w') && k.ctrl {
        if v.cursor > 0 {
            let start = word_left_from(bytes_of(v.input), v.cursor as int);
            UiView { cursor: start as usize, input: cut_bytes(v.input, start, v.cursor as int), ..v }
        } else {
            v
        }
    } else if c == KeyCode::Backspace {
        if v.cursor > 0 {
            let at = v.cursor - 1;
            UiView { cursor: at as usize, input: cut_bytes(v.input, at, next_boundary(v.input, at)), ..v }
        } else {
            v
        }
    } else if c == KeyCode::Char('a') && k.ctrl {
        UiView { cursor: 0, ..v }
    } else if c == KeyCode::Char('e') && k.ctrl {
        UiView { cursor: len as usize, ..v }
    } else if c == KeyCode::Char('u') && k.ctrl {
        UiView { input: Seq::empty(), cursor: 0, ..v }
    } else if c == KeyCode::Left {
        UiView { cursor: dec(v.cursor), ..v }
    } else if c == KeyCode::Right {
        if v.cursor < len { UiView { cursor: (v.cursor + 1) as usize, ..v } } else { v }
    } else if c == KeyCode::Tab {
        completion_step(v)
    } else {
        match c {
            KeyCode::Char(ch) => UiView {
                input: insert_at(v.input, v.cursor as int, ch),
                cursor: (v.cursor + 1) as usize,
                history_index: None,
                ..v
            },
            _ => v,
        }
    }
}

/// A key in prompt mode.
pub open spec fn prompt_step(v: UiView, k: KeyEvent, phase: OrchestraPhase) -> (UiView, OutcomeView) {
    let c = k.code;
    if c == KeyCode::Enter {
        enter_step(v, phase)
    } else if c == KeyCode::Up {
        (history_up(v), quiet())
    } else if c == KeyCode::Down {
        (history_down(v), quiet())
    } else if c == KeyCode::Esc {
        (cleared(v), quiet())
    } else {
        (edit_step(v, k), quiet())
    }
}

/// Where a prompt key would fail: a history position past the end, or an
/// edit at an offset inside a character.
pub open spec fn prompt_safe(v: UiView, k: KeyEvent) -> bool {
    let c = k.code;
    let len = bytes_of(v.input).len();
    &&& (c == KeyCode::Up && v.history.len() > 0) ==> (v.history_index matches Some(j) ==> j <= v.history.len())
    &&& c == KeyCode::Down ==> (v.history_index matches Some(j) ==> j < usize::MAX)
    &&& (c == KeyCode::Char('w') && k.ctrl && v.cursor > 0) ==> v.cursor <= len && on_boundary(v.input, v.cursor as int)
    &&& (c == KeyCode::Backspace && v.cursor > 0) ==> v.cursor - 1 < len && on_boundary(v.input, v.cursor - 1)
    &&& is_typed(k) ==> v.cursor <= len && v.cursor < usize::MAX && on_boundary(v.input, v.cursor as int)
}


/// The action that submitted text becomes: the task before planning, a
/// plan refinement during plan review, guidance otherwise; image paths in
/// the text are sent apart.
pub fn submit_input(text: &str, phase: OrchestraPhase) -> (r: UserAction)
    ensures
        r@ == submit_view(text@, phase),
{
    let extracted = extract_image_paths(text);
    let images = if extracted.images.len() == 0 { None } else { Some(extracted.images) };
    match phase {
        OrchestraPhase::Init => UserAction::SubmitTask { text: extracted.text, images },
        OrchestraPhase::PlanReview => UserAction::RefinePlan { text: extracted.text, images },
        _ => UserAction::SubmitGuidance { text: extracted.text, images },
    }
}

/// The slash commands that the prompt completes.
pub fn slash_commands() -> (r: Vec<&'static str>)
    ensures
        r@.map_values(|c: &str| c@) == slash_command_list(),
{
    let r = vec!["/help", "/sessions", "/list", "/resume", "/quit", "/q"];
    assert(r@.map_values(|c: &str| c@) =~= slash_command_list());
    r
}

fn history_up_key(ui: &mut UiState)
    requires
        old(ui).prompt_history.len() > 0 ==> (old(ui).history_index matches Some(j) ==> j <= old(ui).prompt_history.len()),
    ensures
        final(ui)@ == history_up(old(ui)@),
{
    if ui.prompt_history.len() > 0 {
        let i = match ui.history_index {
            None => {
                ui.history_stash = ui.prompt_input.clone();
                ui.prompt_history.len() - 1
            },
            Some(j) => if j == 0 { 0 } else { j - 1 },
        };
        ui.history_index = Some(i);
        ui.prompt_input = ui.prompt_history[i].clone();
        ui.prompt_cursor = ui.prompt_input.as_str().len();
        assert(views(ui.prompt_history@)[i as int] == ui.prompt_history@[i as int]@);
    }
}

fn history_down_key(ui: &mut UiState)
    requires
        old(ui).history_index matches Some(j) ==> j < usize::MAX,
    ensures
        final(ui)@ == history_down(old(ui)@),
{
    match ui.history_index {
        Some(j) => {
            if j + 1 < ui.prompt_history.len() {
                let i = j + 1;
                ui.history_index = Some(i);
                ui.prompt_input = ui.prompt_history[i].clone();
                ui.prompt_cursor = ui.prompt_input.as_str().len();
                assert(views(ui.prompt_history@)[i as int] == ui.prompt_history@[i as int]@);
            } else {
                ui.history_index = None;
                ui.prompt_input = ui.history_stash.clone();
                ui.history_stash = String::new();
                ui.prompt_cursor = ui.prompt_input.as_str().len();
            }
        },
        None => {},
    }
}

/// The characters of `cs` from position `i` on.
pub(crate) fn chars_from(cs: &Vec<char>, i: usize) -> (r: Vec<char>)
    requires
        i <= cs.len(),
    ensures
        r@ == cs@.skip(i as int),
{
    let mut out: Vec<char> = Vec::new();
    let mut k = i;
    assert(out@ =~= cs@.subrange(i as int, i as int));
    while k < cs.len()
        invariant
            i <= k <= cs.len(),
            out@ == cs@.subrange(i as int, k as int),
        decreases cs.len() - k,
    {
        out.push(cs[k]);
        k = k + 1;
        assert(out@ =~= cs@.subrange(i as int, k as int));
    }
    assert(out@ =~= cs@.skip(i as int));
    out
}

fn complete_prompt(ui: &mut UiState)
    ensures
        final(ui)@ == completion_step(old(ui)@),
{
    let cs = chars_of(ui.prompt_input.as_str());
    if cs.len() == 0 || cs[0] != '/' {
        return;
    }
    let mut n: usize = 0;
    assert(cs@.skip(0) =~= cs@);
    while n < cs.len() && !is_space_char(cs[n])
        invariant
            n <= cs.len(),
            word_len(cs@) == n + word_len(cs@.skip(n as int)),
        decreases cs.len() - n,
    {
        assert(cs@.skip(n as int).drop_first() =~= cs@.skip(n + 1));
        n = n + 1;
    }
    proof {
        assert(word_len(cs@.skip(n as int)) == 0);
    }
    let mut prefix_chars: Vec<char> = Vec::new();
    let mut k: usize = 0;
    while k < n
        invariant
            k <= n <= cs.len(),
            prefix_chars@ == cs@.take(k as int),
        decreases n - k,
    {
        prefix_chars.push(cs[k]);
        k = k + 1;
        assert(prefix_chars@ =~= cs@.take(k as int));
    }
    let prefix = string_from_chars(prefix_chars.as_slice());
    let cmds = slash_commands();
    let ghost cv = cmds@.map_values(|c: &str| c@);
    let mut matches: Vec<&str> = Vec::new();
    let mut m: usize = 0;
    while m < cmds.len()
        invariant
            m <= cmds.len(),
            cv == cmds@.map_values(|c: &str| c@),
            cv == slash_command_list(),
            prefix@ == cs@.take(n as int),
            matches@.map_values(|c: &str| c@) == extensions(cv.take(m as int), prefix@),
        decreases cmds.len() - m,
    {
        proof {
            assert(cv.take(m + 1).drop_last() =~= cv.take(m as int));
            assert(cv.take(m + 1).last() == cmds@[m as int]@);
        }
        let c = cmds[m];
        let ghost before = matches@.map_values(|c: &str| c@);
        if crate::text::starts_with_str(c, prefix.as_str()) && !crate::json::str_eq(c, prefix.as_str()) {
            matches.push(c);
            assert(matches@.map_values(|c: &str| c@) =~= before.push(c@));
        }
        m = m + 1;
    }
    assert(cv.take(cmds.len() as int) =~= cv);
    if matches.len() != 1 {
        return;
    }
    let completed = matches[0];
    let rest_chars = chars_from(&cs, n);
    let mut text = String::new();
    push_str(&mut text, completed);
    proof {
        reveal_strlit("/resume");
    }
    if crate::json::str_eq(completed, "/resume") {
        push_str(&mut text, " ");
        let mut a: usize = 0;
        assert(rest_chars@.skip(0) =~= rest_chars@);
        while a < rest_chars.len() && is_space_char(rest_chars[a])
            invariant
                a <= rest_chars.len(),
                crate::text::lead_ws(rest_chars@) == a + crate::text::lead_ws(rest_chars@.skip(a as int)),
            decreases rest_chars.len() - a,
        {
            assert(rest_chars@.skip(a as int).drop_first() =~= rest_chars@.skip(a + 1));
            a = a + 1;
        }
        assert(crate::text::lead_ws(rest_chars@.skip(a as int)) == 0);
        let tail = chars_from(&rest_chars, a);
        let tail_s = string_from_chars(tail.as_slice());
        push_str(&mut text, tail_s.as_str());
    } else {
        let rest_s = string_from_chars(rest_chars.as_slice());
        push_str(&mut text, rest_s.as_str());
    }
    assert(matches@.map_values(|c: &str| c@)[0] == completed@);
    ui.prompt_input = text;
    ui.prompt_cursor = ui.prompt_input.as_str().len();
}


fn persist_of(text: &String) -> (r: Option<String>)
    ensures
        crate::events::opt_view(r) == (if kept(text@) { Some(text@) } else { None::<Seq<char>> }),
{
    let tr = trim_string(text.as_str());
    if crate::text::starts_with_str(tr.as_str(), "/") {
        None
    } else {
        Some(text.clone())
    }
}

fn resume_or_submit_key(ui: &mut UiState, text: String, phase: OrchestraPhase) -> (r: KeyOutcome)
    ensures
        (final(ui)@, r@) == resume_or_submit(old(ui)@, text@, phase),
{
    let persist = persist_of(&text);
    let tr = trim_string(text.as_str());
    let t = tr.as_str();
    if crate::text::starts_with_str(t, "/resume") {
        proof {
            reveal_strlit("/resume");
        }
        let cs = chars_of(t);
        let rest = chars_from(&cs, 7);
        let arg = crate::text::trim_chars(&rest);
        if arg.len() == 0 {
            ui.show_sessions = true;
            ui.session_selected = 0;
            KeyOutcome { quit: false, persist, command: KeyCommand::ListSessions }
        } else {
            let arg_s = string_from_chars(arg.as_slice());
            KeyOutcome { quit: false, persist, command: KeyCommand::ResolveSession(arg_s) }
        }
    } else {
        let action = submit_input(text.as_str(), phase);
        KeyOutcome { quit: false, persist, command: KeyCommand::Send(action) }
    }
}

fn entry_key(ui: &mut UiState, text: String, phase: OrchestraPhase) -> (r: KeyOutcome)
    ensures
        (final(ui)@, r@) == entry_step(old(ui)@, text@, phase),
{
    let tr = trim_string(text.as_str());
    let t = tr.as_str();
    if crate::json::str_eq(t, "/help") || crate::json::str_eq(t, "/?") {
        ui.show_help = !ui.show_help;
        KeyOutcome { quit: false, persist: persist_of(&text), command: KeyCommand::Nothing }
    } else if crate::json::str_eq(t, "/sessions") || crate::json::str_eq(t, "/list") {
        ui.show_sessions = true;
        ui.session_selected = 0;
        KeyOutcome { quit: false, persist: persist_of(&text), command: KeyCommand::ListSessions }
    } else if crate::json::str_eq(t, "/quit") || crate::json::str_eq(t, "/q") {
        KeyOutcome { quit: true, persist: persist_of(&text), command: KeyCommand::Send(UserAction::Quit) }
    } else {
        resume_or_submit_key(ui, text, phase)
    }
}

fn take_prompt(ui: &mut UiState) -> (text: String)
    ensures
        text@ == old(ui)@.input,
        final(ui)@ == taken(old(ui)@),
{
    let text = ui.prompt_input.clone();
    ui.prompt_input = String::new();
    ui.prompt_cursor = 0;
    ui.history_index = None;
    ui.history_stash = String::new();
    let tr = trim_string(text.as_str());
    let ghost old_history = ui.prompt_history@;
    if !crate::text::starts_with_str(tr.as_str(), "/") {
        ui.prompt_history.push(text.clone());
        assert(views(ui.prompt_history@) =~= views(old_history).push(text@));
    }
    text
}

fn enter_key(ui: &mut UiState, phase: OrchestraPhase) -> (r: KeyOutcome)
    ensures
        (final(ui)@, r@) == enter_step(old(ui)@, phase),
{
    if ui.prompt_input.as_str().is_empty() {
        return quiet_outcome();
    }
    let text = take_prompt(ui);
    entry_key(ui, text, phase)
}

fn backspace_key(ui: &mut UiState)
    requires
        old(ui).prompt_cursor > 0 ==> old(ui).prompt_cursor - 1 < bytes_of(old(ui).prompt_input@).len()
            && on_boundary(old(ui).prompt_input@, old(ui).prompt_cursor - 1),
    ensures
        final(ui)@ == (if old(ui)@.cursor > 0 {
            let at = old(ui)@.cursor - 1;
            UiView {
                cursor: at as usize,
                input: cut_bytes(old(ui)@.input, at, next_boundary(old(ui)@.input, at)),
                ..old(ui)@
            }
        } else {
            old(ui)@
        }),
{
    if ui.prompt_cursor == 0 {
        return;
    }
    let at = ui.prompt_cursor - 1;
    let s = ui.prompt_input.as_str();
    let len = s.as_bytes().len();
    let ghost b = s.spec_bytes();
    proof {
        encode_utf8_valid_utf8(s@);
        is_char_boundary_start_end_of_seq(b);
    }
    let mut end = at + 1;
    while end < len && !s.is_char_boundary(end)
        invariant
            at < end <= len,
            len == b.len(),
            b == s.spec_bytes(),
            crate::text::ceil_boundary(b, end as int) == crate::text::ceil_boundary(b, at + 1),
        decreases len - end,
    {
        end = end + 1;
    }
    let out = cut_range(s, at, end);
    ui.prompt_input = out;
    ui.prompt_cursor = at;
}

/// Moving back over spaces and a word stops at the start or after a space,
/// on a character boundary.
proof fn lemma_word_left_boundary(s: Seq<char>, c: int)
    requires
        0 <= c <= bytes_of(s).len(),
    ensures
        0 <= word_left_from(bytes_of(s), c) <= c,
        on_boundary(s, word_left_from(bytes_of(s), c)),
    decreases c,
{
    let b = bytes_of(s);
    encode_utf8_valid_utf8(s);
    is_char_boundary_start_end_of_seq(b);
    if c > 0 && b[c - 1] == 32 {
        lemma_word_left_boundary(s, c - 1);
    } else {
        lemma_word_start_boundary(s, c);
    }
}

proof fn lemma_word_start_boundary(s: Seq<char>, c: int)
    requires
        0 <= c <= bytes_of(s).len(),
    ensures
        0 <= crate::tui::word_start(bytes_of(s), c) <= c,
        on_boundary(s, crate::tui::word_start(bytes_of(s), c)),
    decreases c,
{
    let b = bytes_of(s);
    encode_utf8_valid_utf8(s);
    is_char_boundary_start_end_of_seq(b);
    if c > 0 && b[c - 1] != 32 {
        lemma_word_start_boundary(s, c - 1);
    } else if c > 0 {
        is_char_boundary_iff_not_is_continuation_byte(b, c - 1);
        lemma_boundary_after_ascii(b, c - 1);
    }
}

fn word_back_key(ui: &mut UiState)
    requires
        old(ui).prompt_cursor > 0 ==> old(ui).prompt_cursor <= bytes_of(old(ui).prompt_input@).len()
            && on_boundary(old(ui).prompt_input@, old(ui).prompt_cursor as int),
    ensures
        final(ui)@ == (if old(ui)@.cursor > 0 {
            let start = word_left_from(bytes_of(old(ui)@.input), old(ui)@.cursor as int);
            UiView { cursor: start as usize, input: cut_bytes(old(ui)@.input, start, old(ui)@.cursor as int), ..old(ui)@ }
        } else {
            old(ui)@
        }),
{
    if ui.prompt_cursor == 0 {
        return;
    }
    let old_cursor = ui.prompt_cursor;
    let mut start = old_cursor;
    word_left(&mut start, ui.prompt_input.as_str());
    proof {
        lemma_word_left_boundary(ui.prompt_input@, old_cursor as int);
    }
    let out = cut_range(ui.prompt_input.as_str(), start, old_cursor);
    ui.prompt_input = out;
    ui.prompt_cursor = start;
}

#[verifier::rlimit(40)]
fn edit_key(key: KeyEvent, ui: &mut UiState)
    requires
        prompt_safe(old(ui)@, key),
        key.code != KeyCode::Enter && key.code != KeyCode::Up && key.code != KeyCode::Down && key.code != KeyCode::Esc,
    ensures
        final(ui)@ == edit_step(old(ui)@, key),
{
    match key.code {
        KeyCode::Char('w') if key.ctrl => word_back_key(ui),
        KeyCode::Backspace => backspace_key(ui),
        KeyCode::Char('a') if key.ctrl => {
            ui.prompt_cursor = 0;
        },
        KeyCode::Char('e') if key.ctrl => {
            ui.prompt_cursor = ui.prompt_input.as_str().len();
        },
        KeyCode::Char('u') if key.ctrl => {
            ui.prompt_input = String::new();
            ui.prompt_cursor = 0;
        },
        KeyCode::Left => {
            ui.prompt_cursor = if ui.prompt_cursor == 0 { 0 } else { ui.prompt_cursor - 1 };
        },
        KeyCode::Right => {
            if ui.prompt_cursor < ui.prompt_input.as_str().as_bytes().len() {
                ui.prompt_cursor = ui.prompt_cursor + 1;
            }
        },
        KeyCode::Tab => complete_prompt(ui),
        KeyCode::Char(c) => {
            let out = insert_char(ui.prompt_input.as_str(), ui.prompt_cursor, c);
            ui.prompt_input = out;
            ui.prompt_cursor = ui.prompt_cursor + 1;
            ui.history_index = None;
        },
        _ => {},
    }
}

fn prompt_key(key: KeyEvent, ui: &mut UiState, phase: OrchestraPhase) -> (r: KeyOutcome)
    requires
        prompt_safe(old(ui)@, key),
    ensures
        (final(ui)@, r@) == prompt_step(old(ui)@, key, phase),
{
    match key.code {
        KeyCode::Enter => enter_key(ui, phase),
        KeyCode::Up => {
            history_up_key(ui);
            quiet_outcome()
        },
        KeyCode::Down => {
            history_down_key(ui);
            quiet_outcome()
        },
        KeyCode::Esc => {
            ui.prompt_input = String::new();
            ui.prompt_cursor = 0;
            ui.history_index = None;
            ui.history_stash = String::new();
            quiet_outcome()
        },
        _ => {
            edit_key(key, ui);
            quiet_outcome()
        },
    }
}


// ─── A whole key press ───────────────────────────────────────────

/// A key after any pending Esc has been dealt with: a lone Esc is held back
/// (it may start an Alt sequence), Ctrl+C quits, open overlays take keys
/// first, then Alt word keys, the prompt, digit keys and navigation.
pub open spec fn main_step(v: UiView, k: KeyEvent, phase: OrchestraPhase, m: nat, t: nat) -> (UiView, OutcomeView) {
    let c = k.code;
    if c == KeyCode::Esc && !v.show_help && !v.show_sessions && v.task_detail is None {
        (UiView { last_was_esc: true, ..v }, quiet())
    } else if k.ctrl && c == KeyCode::Char('c') {
        (v, quits())
    } else if v.show_help {
        (help_step(v, k), quiet())
    } else if v.show_sessions {
        sessions_step(v, k)
    } else if v.task_detail is Some {
        (detail_step(v, k), quiet())
    } else if k.alt && is_word_key(c) {
        (word_step(v, c), quiet())
    } else if in_prompt_mode(v, k, phase) {
        prompt_step(v, k, phase)
    } else {
        match c {
            KeyCode::Char(d) => if '1' <= d && d <= '5' {
                (digit_step(v, d, phase), quiet())
            } else {
                nav_step(v, k, phase, m, t)
            },
            _ => nav_step(v, k, phase, m, t),
        }
    }
}

/// Where `main_step` would fail.
pub open spec fn main_safe(v: UiView, k: KeyEvent, phase: OrchestraPhase) -> bool {
    let c = k.code;
    if c == KeyCode::Esc && !v.show_help && !v.show_sessions && v.task_detail is None {
        true
    } else if k.ctrl && c == KeyCode::Char('c') {
        true
    } else if v.show_help {
        true
    } else if v.show_sessions {
        (c == KeyCode::Down || c == KeyCode::Char('j')) ==> v.session_selected < usize::MAX
    } else if v.task_detail is Some {
        (c == KeyCode::Down || c == KeyCode::Char('j')) ==> v.task_detail_scroll < u16::MAX
    } else if k.alt && is_word_key(c) {
        word_safe(v, c)
    } else if in_prompt_mode(v, k, phase) {
        prompt_safe(v, k)
    } else {
        match c {
            KeyCode::Char(d) => ('1' <= d && d <= '5') || nav_safe(v, k),
            _ => nav_safe(v, k),
        }
    }
}

/// After Esc, a key that starts no Alt sequence first clears typed text or
/// history browsing.
pub open spec fn esc_followup(v: UiView) -> UiView {
    let v1 = UiView { last_was_esc: false, ..v };
    if v.input.len() > 0 || v.history_index is Some { cleared(v1) } else { v1 }
}

/// What a key press does to the interface state `v`, in `phase`, with `m`
/// musicians and `t` tasks: the next state and what the front end does.
pub open spec fn key_step(v: UiView, k: KeyEvent, phase: OrchestraPhase, m: nat, t: nat) -> (UiView, OutcomeView) {
    if v.last_was_esc {
        if is_word_key(k.code) {
            (word_step(UiView { last_was_esc: false, ..v }, k.code), quiet())
        } else {
            main_step(esc_followup(v), k, phase, m, t)
        }
    } else {
        main_step(v, k, phase, m, t)
    }
}

/// The key presses on which the interface would fail: an edit at a byte
/// offset inside a character, a history position past the end, or a counter
/// at its largest value.
pub open spec fn key_safe(v: UiView, k: KeyEvent, phase: OrchestraPhase) -> bool {
    if v.last_was_esc {
        if is_word_key(k.code) {
            word_safe(v, k.code)
        } else {
            main_safe(esc_followup(v), k, phase)
        }
    } else {
        main_safe(v, k, phase)
    }
}

fn main_key(key: KeyEvent, ui: &mut UiState, phase: OrchestraPhase, musicians: usize, tasks: usize) -> (r: KeyOutcome)
    requires
        main_safe(old(ui)@, key, phase),
    ensures
        (final(ui)@, r@) == main_step(old(ui)@, key, phase, musicians as nat, tasks as nat),
{
    if key.code == KeyCode::Esc && !ui.show_help && !ui.show_sessions && ui.tab_state.plan.task_detail.is_none() {
        ui.last_was_esc = true;
        return quiet_outcome();
    }
    if key.ctrl && key.code == KeyCode::Char('c') {
        return quit_outcome();
    }
    if ui.show_help {
        help_key(ui, key);
        return quiet_outcome();
    }
    if ui.show_sessions {
        return sessions_key(ui, key);
    }
    if ui.tab_state.plan.task_detail.is_some() {
        detail_key(ui, key);
        return quiet_outcome();
    }
    if key.alt && (key.code == KeyCode::Char('b') || key.code == KeyCode::Char('f') || key.code == KeyCode::Char('d')) {
        word_key(ui, key.code);
        return quiet_outcome();
    }
    let typed = match key.code {
        KeyCode::Char(_) => !is_navigation_key(&key),
        _ => false,
    };
    let in_prompt = !ui.prompt_input.as_str().is_empty() || ui.history_index.is_some() || typed
        || (phase == OrchestraPhase::Init && (key.code == KeyCode::Up || key.code == KeyCode::Down));
    if in_prompt {
        return prompt_key(key, ui, phase);
    }
    match key.code {
        KeyCode::Char(d) => {
            if '1' <= d && d <= '5' {
                digit_key(ui, d, phase);
                quiet_outcome()
            } else {
                nav_key(key, ui, phase, musicians, tasks)
            }
        },
        _ => nav_key(key, ui, phase, musicians, tasks),
    }
}

/// Whether the key navigates rather than starts typing: `q`, `?`, `d`, `j`,
/// `k`, or any key held with Ctrl or Alt.
pub fn is_navigation_key(key: &KeyEvent) -> (r: bool)
    ensures
        r == is_nav_key(*key),
{
    match key.code {
        KeyCode::Char('q') | KeyCode::Char('?') | KeyCode::Char('d') | KeyCode::Char('j') | KeyCode::Char('k') => true,
        _ => key.ctrl || key.alt,
    }
}

/// Handles one key press: updates the interface state and says what the
/// front end does next (see `key_step`).
pub fn handle_key(key: KeyEvent, ui: &mut UiState, phase: OrchestraPhase, musicians: usize, tasks: usize) -> (r: KeyOutcome)
    requires
        key_safe(old(ui)@, key, phase),
    ensures
        (final(ui)@, r@) == key_step(old(ui)@, key, phase, musicians as nat, tasks as nat),
{
    if ui.last_was_esc {
        ui.last_was_esc = false;
        if key.code == KeyCode::Char('b') || key.code == KeyCode::Char('f') || key.code == KeyCode::Char('d') {
            word_key(ui, key.code);
            return quiet_outcome();
        }
        if !ui.prompt_input.as_str().is_empty() || ui.history_index.is_some() {
            ui.prompt_input = String::new();
            ui.prompt_cursor = 0;
            ui.history_index = None;
            ui.history_stash = String::new();
        }
    }
    main_key(key, ui, phase, musicians, tasks)
}


// ─── Laws ────────────────────────────────────────────────────────

/// Moving to the next musician panel and back returns to the same panel,
/// and so does moving back and then forward.
pub proof fn lemma_panel_cycle(f: usize, m: nat)
    requires
        f < panel_count(m),
        panel_count(m) <= usize::MAX,
    ensures
        prev_panel(next_panel(f, m), m) == f,
        next_panel(prev_panel(f, m), m) == f,
{
    let n = panel_count(m);
    if f + 1 < n {
        vstd::arithmetic::div_mod::lemma_small_mod((f + 1) as nat, n);
    } else {
        vstd::arithmetic::div_mod::lemma_mod_self_0(n as int);
    }
    if f > 0 {
        vstd::arithmetic::div_mod::lemma_small_mod(f as nat, n);
    } else {
        vstd::arithmetic::div_mod::lemma_mod_self_0(n as int);
    }
}

/// Browsing history up from a draft and straight back down restores the
/// draft, with the cursor at its end and browsing over.
pub proof fn lemma_history_round_trip(v: UiView)
    requires
        0 < v.history.len() <= usize::MAX,
        v.history_index is None,
    ensures
        history_down(history_up(v)).input == v.input,
        history_down(history_up(v)).history_index is None,
        history_down(history_up(v)).cursor == bytes_of(v.input).len() as usize,
{
}

/// Submitting text always empties the prompt and ends history browsing.
pub proof fn lemma_enter_clears_prompt(v: UiView, phase: OrchestraPhase)
    requires
        v.input.len() > 0,
    ensures
        enter_step(v, phase).0.input.len() == 0,
        enter_step(v, phase).0.cursor == 0,
        enter_step(v, phase).0.history_index is None,
{
}

// ─── Checking a key before handling it ──────────────────────────

fn boundary_in(s: &str, i: usize) -> (r: bool)
    ensures
        r == (i <= bytes_of(s@).len() && on_boundary(s@, i as int)),
{
    let n = s.as_bytes().len();
    if i > n {
        false
    } else {
        s.is_char_boundary(i)
    }
}

fn prompt_ok(k: KeyEvent, input: &str, cursor: usize, history_len: usize, history_index: Option<usize>) -> (r: bool)
    ensures
        ({
            let c = k.code;
            let len = bytes_of(input@).len();
            r == {
                &&& (c == KeyCode::Up && history_len > 0) ==> (history_index matches Some(j) ==> j <= history_len)
                &&& c == KeyCode::Down ==> (history_index matches Some(j) ==> j < usize::MAX)
                &&& (c == KeyCode::Char('w') && k.ctrl && cursor > 0) ==> cursor <= len && on_boundary(input@, cursor as int)
                &&& (c == KeyCode::Backspace && cursor > 0) ==> cursor - 1 < len && on_boundary(input@, cursor - 1)
                &&& is_typed(k) ==> cursor <= len && cursor < usize::MAX && on_boundary(input@, cursor as int)
            }
        }),
{
    let c = k.code;
    let up_ok = !(c == KeyCode::Up && history_len > 0) || match history_index {
        Some(j) => j <= history_len,
        None => true,
    };
    let down_ok = !(c == KeyCode::Down) || match history_index {
        Some(j) => j < usize::MAX,
        None => true,
    };
    let word_ok = !(c == KeyCode::Char('w') && k.ctrl && cursor > 0) || boundary_in(input, cursor);
    let back_ok = !(c == KeyCode::Backspace && cursor > 0) || (cursor - 1 < input.as_bytes().len() && boundary_in(input, cursor - 1));
    let typed = match c {
        KeyCode::Char(_) => !(k.ctrl && (c == KeyCode::Char('w') || c == KeyCode::Char('a') || c == KeyCode::Char('e') || c == KeyCode::Char('u'))),
        _ => false,
    };
    let type_ok = !typed || (cursor < usize::MAX && boundary_in(input, cursor));
    up_ok && down_ok && word_ok && back_ok && type_ok
}

/// Whether `handle_key` may take `key` in this state (see `key_safe`): the
/// key presses it refuses are edits at a byte offset inside a character, a
/// history position past the end, and counters at their largest value.
pub fn key_is_safe(key: KeyEvent, ui: &UiState, phase: OrchestraPhase) -> (r: bool)
    ensures
        r == key_safe(ui@, key, phase),
{
    let c = key.code;
    let word_key = c == KeyCode::Char('b') || c == KeyCode::Char('f') || c == KeyCode::Char('d');
    let input = ui.prompt_input.as_str();
    if ui.last_was_esc && word_key {
        return !(c == KeyCode::Char('d')) || boundary_in(input, ui.prompt_cursor);
    }
    let nonempty = crate::text::chars_of(input).len() > 0;
    let clear = ui.last_was_esc && (nonempty || ui.history_index.is_some());
    proof {
        reveal_strlit("");
    }
    let (inp, cursor, hidx): (&str, usize, Option<usize>) = if clear { ("", 0, None) } else { (input, ui.prompt_cursor, ui.history_index) };
    let tab_state = &ui.tab_state;
    if c == KeyCode::Esc && !ui.show_help && !ui.show_sessions && tab_state.plan.task_detail.is_none() {
        true
    } else if key.ctrl && c == KeyCode::Char('c') {
        true
    } else if ui.show_help {
        true
    } else if ui.show_sessions {
        !(c == KeyCode::Down || c == KeyCode::Char('j')) || ui.session_selected < usize::MAX
    } else if tab_state.plan.task_detail.is_some() {
        !(c == KeyCode::Down || c == KeyCode::Char('j')) || tab_state.plan.task_detail_scroll < u16::MAX
    } else if key.alt && word_key {
        !(c == KeyCode::Char('d')) || boundary_in(inp, cursor)
    } else {
        let nav = is_navigation_key(&key);
        let is_char = match c {
            KeyCode::Char(_) => true,
            _ => false,
        };
        let prompt_mode = (nonempty && !clear) || hidx.is_some() || (is_char && !nav)
            || (phase == OrchestraPhase::Init && (c == KeyCode::Up || c == KeyCode::Down));
        if prompt_mode {
            prompt_ok(key, inp, cursor, ui.prompt_history.len(), hidx)
        } else {
            let digit = match c {
                KeyCode::Char(d) => '1' <= d && d <= '5',
                _ => false,
            };
            let o = &tab_state.orchestra;
            let tab_ok = !(c == KeyCode::Tab) || o.focused_musician < usize::MAX;
            let is_arrow = c == KeyCode::Left || c == KeyCode::Right || c == KeyCode::Up || c == KeyCode::Down;
            let arrow_ok = !is_arrow || match ui.active_tab {
                Tab::Orchestra => (!(c == KeyCode::Right) || o.focused_musician < usize::MAX)
                    && (!(c == KeyCode::Down) || o.conductor_scroll < u16::MAX),
                Tab::Plan => !(c == KeyCode::Down) || tab_state.plan.plan_selected < usize::MAX,
                Tab::Stats => !(c == KeyCode::Down) || tab_state.stats.scroll < u16::MAX,
                Tab::Diff => !(c == KeyCode::Down) || tab_state.diff.diff_scroll < u16::MAX,
                Tab::Log => !(c == KeyCode::Down) || tab_state.log.log_scroll < u16::MAX,
            };
            digit || (tab_ok && arrow_ok)
        }
    }
}

} // verus!
