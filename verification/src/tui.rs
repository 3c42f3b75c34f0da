//! State and pure helpers of the terminal interface: tabs, per-tab state,
//! the prompt line's word motions, layout breakpoints, the colour palette
//! and text formatting.
use crate::state::{MusicianStatus, OrchestraPhase, SessionData, TaskStatus};
use crate::text::{chars_of, decimal, push_char, push_decimal, push_str};
use vstd::prelude::*;
use vstd::string::StringSliceAdditionalSpecFns;

verus! {

broadcast use vstd::string::group_string_axioms;

// ─── Tabs ────────────────────────────────────────────────────────

/// Which content fills the main area between header and prompt bars.
#[derive(Debug, Clone, Copy, PartialEq, Eq, Structural, Hash)]
pub enum Tab {
    Orchestra,
    Plan,
    Stats,
    Diff,
    Log,
}

/// Phases from plan review on.
pub open spec fn plan_visible(p: OrchestraPhase) -> bool {
    matches!(p, OrchestraPhase::PlanReview | OrchestraPhase::PhaseDetailing
        | OrchestraPhase::PhaseExecuting | OrchestraPhase::Executing | OrchestraPhase::PhaseMerging
        | OrchestraPhase::Integrating | OrchestraPhase::PhaseReviewing | OrchestraPhase::Reviewing
        | OrchestraPhase::FinalReview | OrchestraPhase::Complete | OrchestraPhase::Failed
        | OrchestraPhase::Paused | OrchestraPhase::Probing)
}

/// Phases from detailing on.
pub open spec fn stats_visible(p: OrchestraPhase) -> bool {
    plan_visible(p) && p != OrchestraPhase::PlanReview
}

/// Phases from merging on, not counting pauses.
pub open spec fn diff_visible(p: OrchestraPhase) -> bool {
    matches!(p, OrchestraPhase::PhaseMerging | OrchestraPhase::Integrating
        | OrchestraPhase::PhaseReviewing | OrchestraPhase::Reviewing | OrchestraPhase::FinalReview
        | OrchestraPhase::Complete | OrchestraPhase::Failed)
}

/// Whether `tab` can be shown in `phase`.
pub open spec fn tab_visible(tab: Tab, phase: OrchestraPhase) -> bool {
    match tab {
        Tab::Orchestra => true,
        Tab::Log => true,
        Tab::Plan => plan_visible(phase),
        Tab::Stats => stats_visible(phase),
        Tab::Diff => diff_visible(phase),
    }
}

/// The digit key that selects `tab`.
pub open spec fn tab_key(tab: Tab) -> char {
    match tab {
        Tab::Orchestra => '1',
        Tab::Plan => '2',
        Tab::Stats => '3',
        Tab::Diff => '4',
        Tab::Log => '5',
    }
}

/// The tab the interface switches to on entering `phase`, if any.
pub open spec fn auto_tab(phase: OrchestraPhase) -> Option<Tab> {
    match phase {
        OrchestraPhase::PlanReview => Some(Tab::Plan),
        OrchestraPhase::PhaseExecuting | OrchestraPhase::Executing => Some(Tab::Orchestra),
        OrchestraPhase::PhaseMerging | OrchestraPhase::Integrating => Some(Tab::Diff),
        OrchestraPhase::FinalReview | OrchestraPhase::Complete => Some(Tab::Stats),
        OrchestraPhase::Failed => Some(Tab::Log),
        _ => None,
    }
}

impl Tab {
    /// All tabs, in key order.
    pub fn all() -> (r: Vec<Tab>)
        ensures
            r@ == seq![Tab::Orchestra, Tab::Plan, Tab::Stats, Tab::Diff, Tab::Log],
    {
        let mut v = Vec::new();
        v.push(Tab::Orchestra);
        v.push(Tab::Plan);
        v.push(Tab::Stats);
        v.push(Tab::Diff);
        v.push(Tab::Log);
        v
    }

    /// The name shown in the tab bar.
    pub fn label(&self) -> (r: &'static str)
        ensures
            r@ == match *self {
                Tab::Orchestra => "Orchestra"@,
                Tab::Plan => "Plan"@,
                Tab::Stats => "Stats"@,
                Tab::Diff => "Diff"@,
                Tab::Log => "Log"@,
            },
    {
        match self {
            Tab::Orchestra => "Orchestra",
            Tab::Plan => "Plan",
            Tab::Stats => "Stats",
            Tab::Diff => "Diff",
            Tab::Log => "Log",
        }
    }

    /// The digit key that selects the tab.
    pub fn key(&self) -> (r: char)
        ensures
            r == tab_key(*self),
    {
        match self {
            Tab::Orchestra => '1',
            Tab::Plan => '2',
            Tab::Stats => '3',
            Tab::Diff => '4',
            Tab::Log => '5',
        }
    }

    /// The tab a digit key selects.
    pub fn from_key(c: char) -> (r: Option<Tab>)
        ensures
            r matches Some(t) ==> tab_key(t) == c,
            r is None <==> !('1' <= c && c <= '5'),
    {
        match c {
            '1' => Some(Tab::Orchestra),
            '2' => Some(Tab::Plan),
            '3' => Some(Tab::Stats),
            '4' => Some(Tab::Diff),
            '5' => Some(Tab::Log),
            _ => None,
        }
    }

    /// Whether the tab can be shown in `phase`.
    pub fn is_visible(&self, phase: &OrchestraPhase) -> (r: bool)
        ensures
            r == tab_visible(*self, *phase),
    {
        match self {
            Tab::Orchestra => true,
            Tab::Log => true,
            Tab::Plan => match phase {
                OrchestraPhase::PlanReview | OrchestraPhase::PhaseDetailing
                | OrchestraPhase::PhaseExecuting | OrchestraPhase::Executing
                | OrchestraPhase::PhaseMerging | OrchestraPhase::Integrating
                | OrchestraPhase::PhaseReviewing | OrchestraPhase::Reviewing
                | OrchestraPhase::FinalReview | OrchestraPhase::Complete | OrchestraPhase::Failed
                | OrchestraPhase::Paused | OrchestraPhase::Probing => true,
                _ => false,
            },
            Tab::Stats => match phase {
                OrchestraPhase::PhaseDetailing | OrchestraPhase::PhaseExecuting
                | OrchestraPhase::Executing | OrchestraPhase::PhaseMerging
                | OrchestraPhase::Integrating | OrchestraPhase::PhaseReviewing
                | OrchestraPhase::Reviewing | OrchestraPhase::FinalReview
                | OrchestraPhase::Complete | OrchestraPhase::Failed | OrchestraPhase::Paused
                | OrchestraPhase::Probing => true,
                _ => false,
            },
            Tab::Diff => match phase {
                OrchestraPhase::PhaseMerging | OrchestraPhase::Integrating
                | OrchestraPhase::PhaseReviewing | OrchestraPhase::Reviewing
                | OrchestraPhase::FinalReview | OrchestraPhase::Complete
                | OrchestraPhase::Failed => true,
                _ => false,
            },
        }
    }

    /// The tab to switch to on entering `phase`, if any.
    pub fn auto_switch(phase: &OrchestraPhase) -> (r: Option<Tab>)
        ensures
            r == auto_tab(*phase),
    {
        match phase {
            OrchestraPhase::PlanReview => Some(Tab::Plan),
            OrchestraPhase::PhaseExecuting | OrchestraPhase::Executing => Some(Tab::Orchestra),
            OrchestraPhase::PhaseMerging | OrchestraPhase::Integrating => Some(Tab::Diff),
            OrchestraPhase::FinalReview | OrchestraPhase::Complete => Some(Tab::Stats),
            OrchestraPhase::Failed => Some(Tab::Log),
            _ => None,
        }
    }
}

/// A tab chosen automatically for a phase can always be shown in it.
pub proof fn lemma_auto_tab_visible(phase: OrchestraPhase)
    ensures
        auto_tab(phase) matches Some(t) ==> tab_visible(t, phase),
{
}

/// A digit key selects the tab that it labels.
pub proof fn lemma_key_round_trip(tab: Tab)
    ensures
        ({
            let c = tab_key(tab);
            '1' <= c && c <= '5'
        }),
{
}

// ─── Per-tab state ───────────────────────────────────────────────

/// Scroll and selection state of the orchestra tab.
#[derive(Debug)]
pub struct OrchestraTabState {
    pub focused_musician: usize,
    pub musician_scroll: Vec<u16>,
    pub focus_mode: bool,
    pub conductor_scroll: u16,
}

/// Scroll and selection state of the plan tab.
#[derive(Debug)]
pub struct PlanTabState {
    pub plan_selected: usize,
    pub plan_scroll: u16,
    pub refinement_scroll: u16,
    pub refinement_focused: bool,
    pub task_detail: Option<usize>,
    pub task_detail_scroll: u16,
}

/// Scroll state of the stats tab.
#[derive(Debug)]
pub struct StatsTabState {
    pub scroll: u16,
}

/// Scroll, selection and expansion state of the diff tab.
#[derive(Debug)]
pub struct DiffTabState {
    pub diff_scroll: u16,
    pub expanded_files: Vec<usize>,
    pub selected_file: usize,
    pub musician_filter: Option<usize>,
}

/// Which source the log tab shows.
#[derive(Debug, Clone, Copy, PartialEq, Eq, Structural)]
pub enum LogSourceFilter {
    Conductor,
    Musician(usize),
    System,
}

/// Scroll and filter state of the log tab.
#[derive(Debug)]
pub struct LogTabState {
    pub log_scroll: u16,
    pub log_filter: Option<String>,
    pub auto_scroll: bool,
    pub source_filter: Option<LogSourceFilter>,
}

/// The state of every tab.
#[derive(Debug)]
pub struct TabState {
    pub orchestra: OrchestraTabState,
    pub plan: PlanTabState,
    pub stats: StatsTabState,
    pub diff: DiffTabState,
    pub log: LogTabState,
}

impl DiffTabState {
    /// Nothing scrolled, selected or expanded.
    pub fn new() -> (r: Self)
        ensures
            r.diff_scroll == 0,
            r.expanded_files@.len() == 0,
            r.selected_file == 0,
            r.musician_filter is None,
    {
        DiffTabState { diff_scroll: 0, expanded_files: Vec::new(), selected_file: 0, musician_filter: None }
    }
}

impl LogTabState {
    /// Nothing scrolled or filtered; following new lines.
    pub fn new() -> (r: Self)
        ensures
            r.log_scroll == 0,
            r.log_filter is None,
            r.auto_scroll,
            r.source_filter is None,
    {
        LogTabState { log_scroll: 0, log_filter: None, auto_scroll: true, source_filter: None }
    }
}

/// Every tab at rest: nothing scrolled, selected or filtered.
pub open spec fn tabs_at_rest(t: TabState) -> bool {
    &&& t.orchestra.focused_musician == 0
    &&& t.orchestra.musician_scroll@.len() == 0
    &&& !t.orchestra.focus_mode
    &&& t.orchestra.conductor_scroll == 0
    &&& t.plan.plan_selected == 0 && t.plan.plan_scroll == 0 && t.plan.refinement_scroll == 0
    &&& !t.plan.refinement_focused && t.plan.task_detail is None && t.plan.task_detail_scroll == 0
    &&& t.stats.scroll == 0
    &&& t.diff.diff_scroll == 0 && t.diff.expanded_files@.len() == 0 && t.diff.selected_file == 0
    &&& t.diff.musician_filter is None
    &&& t.log.log_scroll == 0 && t.log.log_filter is None && t.log.auto_scroll
    &&& t.log.source_filter is None
}

impl Default for TabState {
    fn default() -> (r: Self)
        ensures
            tabs_at_rest(r),
    {
        TabState {
            orchestra: OrchestraTabState {
                focused_musician: 0,
                musician_scroll: Vec::new(),
                focus_mode: false,
                conductor_scroll: 0,
            },
            plan: PlanTabState {
                plan_selected: 0,
                plan_scroll: 0,
                refinement_scroll: 0,
                refinement_focused: false,
                task_detail: None,
                task_detail_scroll: 0,
            },
            stats: StatsTabState { scroll: 0 },
            diff: DiffTabState::new(),
            log: LogTabState::new(),
        }
    }
}

// ─── Interface state ─────────────────────────────────────────────

/// State local to the interface; the orchestra never sees it.
#[derive(Debug)]
pub struct UiState {
    pub active_tab: Tab,
    pub tab_state: TabState,
    pub last_phase: OrchestraPhase,
    pub show_help: bool,
    pub show_sessions: bool,
    pub show_insights: bool,
    pub prompt_input: String,
    pub prompt_cursor: usize,
    pub prompt_history: Vec<String>,
    pub history_index: Option<usize>,
    pub history_stash: String,
    pub layout_config: LayoutConfig,
    pub session_selected: usize,
    pub sessions: Vec<SessionData>,
    pub last_was_esc: bool,
    pub needs_clear: bool,
}

/// The scroll offset of the active tab's current view.
pub open spec fn active_scroll(ui: UiState) -> u16 {
    match ui.active_tab {
        Tab::Orchestra => {
            let o = ui.tab_state.orchestra;
            if o.focused_musician < o.musician_scroll@.len() {
                o.musician_scroll@[o.focused_musician as int]
            } else {
                o.conductor_scroll
            }
        },
        Tab::Plan => if ui.tab_state.plan.task_detail is Some {
            ui.tab_state.plan.task_detail_scroll
        } else {
            ui.tab_state.plan.plan_scroll
        },
        Tab::Stats => ui.tab_state.stats.scroll,
        Tab::Diff => ui.tab_state.diff.diff_scroll,
        Tab::Log => ui.tab_state.log.log_scroll,
    }
}

impl UiState {
    /// The interface at start for a terminal of the given size: orchestra
    /// tab, empty prompt, insights shown, no overlay open.
    pub fn new(width: u16, height: u16) -> (r: Self)
        ensures
            r.active_tab == Tab::Orchestra,
            tabs_at_rest(r.tab_state),
            r.last_phase == OrchestraPhase::Init,
            !r.show_help && !r.show_sessions && r.show_insights,
            r.prompt_input@.len() == 0,
            r.prompt_cursor == 0,
            r.prompt_history@.len() == 0,
            r.history_index is None,
            r.history_stash@.len() == 0,
            r.layout_config == layout_for(width, height),
            r.session_selected == 0,
            r.sessions@.len() == 0,
            !r.last_was_esc && !r.needs_clear,
    {
        UiState {
            active_tab: Tab::Orchestra,
            tab_state: TabState::default(),
            last_phase: OrchestraPhase::Init,
            show_help: false,
            show_sessions: false,
            show_insights: true,
            prompt_input: String::new(),
            prompt_cursor: 0,
            prompt_history: Vec::new(),
            history_index: None,
            history_stash: String::new(),
            layout_config: get_layout_config(width, height),
            session_selected: 0,
            sessions: Vec::new(),
            last_was_esc: false,
            needs_clear: false,
        }
    }

    /// Index of the focused musician panel.
    pub fn focused_panel(&self) -> (r: usize)
        ensures
            r == self.tab_state.orchestra.focused_musician,
    {
        self.tab_state.orchestra.focused_musician
    }

    /// Scroll offset of the active tab's current view: the focused musician's
    /// (or the conductor's when it has none) on the orchestra tab, the task
    /// detail's or the plan's on the plan tab.
    pub fn scroll_offset(&self) -> (r: u16)
        ensures
            r == active_scroll(*self),
    {
        match self.active_tab {
            Tab::Orchestra => {
                let orch = &self.tab_state.orchestra;
                if orch.focused_musician < orch.musician_scroll.len() {
                    orch.musician_scroll[orch.focused_musician]
                } else {
                    orch.conductor_scroll
                }
            },
            Tab::Plan => {
                if self.tab_state.plan.task_detail.is_some() {
                    self.tab_state.plan.task_detail_scroll
                } else {
                    self.tab_state.plan.plan_scroll
                }
            },
            Tab::Stats => self.tab_state.stats.scroll,
            Tab::Diff => self.tab_state.diff.diff_scroll,
            Tab::Log => self.tab_state.log.log_scroll,
        }
    }

    /// Index of the selected plan task.
    pub fn plan_selected(&self) -> (r: usize)
        ensures
            r == self.tab_state.plan.plan_selected,
    {
        self.tab_state.plan.plan_selected
    }

    /// Whether the single-musician view is active.
    pub fn focus_mode(&self) -> (r: bool)
        ensures
            r == self.tab_state.orchestra.focus_mode,
    {
        self.tab_state.orchestra.focus_mode
    }

    /// The task whose detail overlay is open, if any.
    pub fn show_task_detail(&self) -> (r: Option<usize>)
        ensures
            r == self.tab_state.plan.task_detail,
    {
        self.tab_state.plan.task_detail
    }
}

// ─── Layout ──────────────────────────────────────────────────────

/// Below this width, non-essential panels are hidden.
pub const NARROW: u16 = 80;
/// Above this width, multi-column layouts are used.
pub const WIDE: u16 = 160;
/// Above this height, more output lines are shown.
pub const TALL: u16 = 40;
/// Preferred width of the insights panel.
pub const INSIGHTS_WIDTH: u16 = 36;
/// Smallest width of the insights panel.
pub const INSIGHTS_WIDTH_MIN: u16 = 24;
/// Largest width of the insights panel.
pub const INSIGHTS_WIDTH_MAX: u16 = 40;
/// Cell padding on normal terminals.
pub const CELL_PADDING: u16 = 1;
/// Cell padding on narrow terminals.
pub const CELL_PADDING_MIN: u16 = 0;
/// Output lines per musician on normal terminals.
pub const MAX_OUTPUT_LINES: usize = 8;
/// Output lines per musician on short terminals.
pub const MAX_OUTPUT_LINES_MIN: usize = 3;
/// Output lines per musician on tall terminals.
pub const MAX_OUTPUT_LINES_MAX: usize = 20;
/// Default truncation column.
pub const TRUNCATE_AT: usize = 72;
/// Width below which idle musicians are collapsed.
pub const MIN_COLUMN_WIDTH: u16 = 28;
/// Width of a collapsed musician column.
pub const COLLAPSED_WIDTH: u16 = 4;

/// Layout settings derived from the terminal size.
#[derive(Debug, Clone, Copy, PartialEq, Eq, Structural)]
pub struct LayoutConfig {
    pub show_insights_panel: bool,
    pub musician_columns: usize,
    pub max_output_lines: usize,
    pub truncate_at: usize,
    pub cell_padding: u16,
    pub content_padding: u16,
    pub section_gap: u16,
    pub insights_panel_width: u16,
    pub min_column_width: u16,
}

/// `x - y`, or zero when `y` is larger.
pub open spec fn sat_sub(x: int, y: int) -> int {
    if x > y { x - y } else { 0 }
}

/// The layout for a terminal of `width` columns and `height` rows.
pub open spec fn layout_for(width: u16, height: u16) -> LayoutConfig {
    let narrow = width < NARROW;
    let wide = width > WIDE;
    let tall = height > TALL;
    let insights = if narrow {
        0
    } else if wide {
        INSIGHTS_WIDTH_MAX
    } else {
        let quarter = width / 4;
        let capped = if quarter < INSIGHTS_WIDTH { quarter } else { INSIGHTS_WIDTH };
        if capped > INSIGHTS_WIDTH_MIN { capped } else { INSIGHTS_WIDTH_MIN }
    };
    let available = if !narrow { sat_sub(width as int, insights + 4) } else { sat_sub(width as int, 4) };
    let text = sat_sub(available, 8);
    let capped_text = if text < 120 { text } else { 120 };
    LayoutConfig {
        show_insights_panel: !narrow,
        musician_columns: if wide { 4 } else if narrow { 1 } else { 3 },
        max_output_lines: if tall {
            MAX_OUTPUT_LINES_MAX
        } else if height < 24 {
            MAX_OUTPUT_LINES_MIN
        } else {
            MAX_OUTPUT_LINES
        },
        truncate_at: (if capped_text > 40 { capped_text } else { 40 }) as usize,
        cell_padding: if narrow { CELL_PADDING_MIN } else { CELL_PADDING },
        content_padding: if wide { 2 } else if narrow { 0 } else { 1 },
        section_gap: 1,
        insights_panel_width: insights,
        min_column_width: MIN_COLUMN_WIDTH,
    }
}

/// The layout for a terminal of `width` columns and `height` rows: the
/// insights panel is hidden below 80 columns and takes a quarter of the
/// width, between 24 and 36 columns, up to 160 columns and 40 above.
pub fn get_layout_config(width: u16, height: u16) -> (r: LayoutConfig)
    ensures
        r == layout_for(width, height),
{
    let is_narrow = width < NARROW;
    let is_wide = width > WIDE;
    let is_tall = height > TALL;
    let insights_panel_width: u16 = if is_narrow {
        0
    } else if is_wide {
        INSIGHTS_WIDTH_MAX
    } else {
        let quarter = width / 4;
        let capped = if quarter < INSIGHTS_WIDTH { quarter } else { INSIGHTS_WIDTH };
        if capped > INSIGHTS_WIDTH_MIN { capped } else { INSIGHTS_WIDTH_MIN }
    };
    let musician_columns: usize = if is_wide { 4 } else if is_narrow { 1 } else { 3 };
    let max_output_lines: usize = if is_tall {
        MAX_OUTPUT_LINES_MAX
    } else if height < 24 {
        MAX_OUTPUT_LINES_MIN
    } else {
        MAX_OUTPUT_LINES
    };
    let available: u16 = if !is_narrow {
        let used = insights_panel_width + 4;
        if width > used { width - used } else { 0 }
    } else {
        if width > 4 { width - 4 } else { 0 }
    };
    let text: u16 = if available > 8 { available - 8 } else { 0 };
    let capped_text: usize = if (text as usize) < 120 { text as usize } else { 120 };
    let truncate_at: usize = if capped_text > 40 { capped_text } else { 40 };
    let cell_padding: u16 = if is_narrow { CELL_PADDING_MIN } else { CELL_PADDING };
    let content_padding: u16 = if is_wide { 2 } else if is_narrow { 0 } else { 1 };
    LayoutConfig {
        show_insights_panel: !is_narrow,
        musician_columns,
        max_output_lines,
        truncate_at,
        cell_padding,
        content_padding,
        section_gap: 1,
        insights_panel_width,
        min_column_width: MIN_COLUMN_WIDTH,
    }
}

/// A rectangle of terminal cells.
#[derive(Debug, Clone, Copy, PartialEq, Eq, Structural)]
pub struct Rect {
    pub x: u16,
    pub y: u16,
    pub width: u16,
    pub height: u16,
}

/// Shrinks `area` by `h_pad` on the left and right and `v_pad` on the top
/// and bottom; width and height stop at zero.
pub fn padded_rect(area: Rect, h_pad: u16, v_pad: u16) -> (r: Rect)
    requires
        area.x + h_pad <= u16::MAX,
        area.y + v_pad <= u16::MAX,
        2 * h_pad <= u16::MAX,
        2 * v_pad <= u16::MAX,
    ensures
        r.x == area.x + h_pad,
        r.y == area.y + v_pad,
        r.width == sat_sub(area.width as int, 2 * h_pad),
        r.height == sat_sub(area.height as int, 2 * v_pad),
{
    let hw = h_pad * 2;
    let vh = v_pad * 2;
    Rect {
        x: area.x + h_pad,
        y: area.y + v_pad,
        width: if area.width > hw { area.width - hw } else { 0 },
        height: if area.height > vh { area.height - vh } else { 0 },
    }
}

/// `area` inset horizontally by the layout's content padding.
pub fn inner_content_rect(area: Rect, config: &LayoutConfig) -> (r: Rect)
    requires
        area.x + config.content_padding <= u16::MAX,
        2 * config.content_padding <= u16::MAX,
    ensures
        r.x == area.x + config.content_padding,
        r.y == area.y,
        r.width == sat_sub(area.width as int, 2 * config.content_padding),
        r.height == area.height,
{
    padded_rect(area, config.content_padding, 0)
}

// ─── Prompt line word motions ────────────────────────────────────

/// Where the cursor lands after moving back over spaces and then over the
/// word before them.
pub open spec fn word_left_from(b: Seq<u8>, c: int) -> int
    decreases c,
{
    if c <= 0 {
        0
    } else if c <= b.len() && b[c - 1] == 32 {
        word_left_from(b, c - 1)
    } else {
        word_start(b, c)
    }
}

/// The start of the word that ends at `c`.
pub open spec fn word_start(b: Seq<u8>, c: int) -> int
    decreases c,
{
    if c <= 0 {
        0
    } else if c > b.len() || b[c - 1] != 32 {
        word_start(b, c - 1)
    } else {
        c
    }
}

/// The end of the word that starts at `c`, within `len` bytes.
pub open spec fn word_end(b: Seq<u8>, c: int) -> int
    decreases b.len() - c,
{
    if c >= b.len() || c < 0 {
        c
    } else if b[c] != 32 {
        word_end(b, c + 1)
    } else {
        c
    }
}

/// The end of the spaces that start at `c`.
pub open spec fn space_end(b: Seq<u8>, c: int) -> int
    decreases b.len() - c,
{
    if c >= b.len() || c < 0 {
        c
    } else if b[c] == 32 {
        space_end(b, c + 1)
    } else {
        c
    }
}

/// Where the cursor lands after moving over the rest of the word and the
/// spaces after it.
pub open spec fn word_right_from(b: Seq<u8>, c: int) -> int {
    space_end(b, word_end(b, c))
}

/// Moves the cursor (a byte offset) back to the start of the previous word.
pub fn word_left(cursor: &mut usize, input: &str)
    ensures
        *final(cursor) == word_left_from(input.spec_bytes(), *old(cursor) as int),
{
    let bytes = input.as_bytes();
    while *cursor > 0 && *cursor - 1 < bytes.len() && bytes[*cursor - 1] == 32u8
        invariant
            bytes@ == input.spec_bytes(),
            word_left_from(bytes@, *cursor as int) == word_left_from(bytes@, *old(cursor) as int),
        decreases *cursor,
    {
        *cursor = *cursor - 1;
    }
    let ghost mid = *cursor as int;
    while *cursor > 0 && (*cursor - 1 >= bytes.len() || bytes[*cursor - 1] != 32u8)
        invariant
            bytes@ == input.spec_bytes(),
            word_start(bytes@, *cursor as int) == word_left_from(bytes@, *old(cursor) as int),
        decreases *cursor,
    {
        *cursor = *cursor - 1;
    }
}

/// Moves the cursor (a byte offset) forward past the current word and the
/// spaces after it.
pub fn word_right(cursor: &mut usize, input: &str)
    ensures
        *final(cursor) == word_right_from(input.spec_bytes(), *old(cursor) as int),
{
    let bytes = input.as_bytes();
    let len = bytes.len();
    while *cursor < len && bytes[*cursor] != 32u8
        invariant
            bytes@ == input.spec_bytes(),
            len == bytes@.len(),
            word_end(bytes@, *cursor as int) == word_end(bytes@, *old(cursor) as int),
        decreases len - *cursor,
    {
        *cursor = *cursor + 1;
    }
    while *cursor < len && bytes[*cursor] == 32u8
        invariant
            bytes@ == input.spec_bytes(),
            len == bytes@.len(),
            space_end(bytes@, *cursor as int) == word_right_from(bytes@, *old(cursor) as int),
        decreases len - *cursor,
    {
        *cursor = *cursor + 1;
    }
}

// ─── Palette ─────────────────────────────────────────────────────

/// An RGB colour, `0xRRGGBB`.
pub type Rgb = u32;

/// Near-black background.
pub const BG: u32 = 0x0A0A0A;
/// Slightly lighter surface.
pub const SURFACE: u32 = 0x141414;
/// Subtle border and separator.
pub const BORDER: u32 = 0x1E1E1E;
/// Bright primary text.
pub const TEXT_PRIMARY: u32 = 0xE8E8E8;
/// Secondary text.
pub const TEXT_SECONDARY: u32 = 0x888888;
/// Muted text.
pub const TEXT_MUTED: u32 = 0x555555;
/// Blue-cyan accent, used sparingly.
pub const ACCENT: u32 = 0x4A9EFF;
/// Success green.
pub const SUCCESS: u32 = 0x34D399;
/// Error red.
pub const ERROR: u32 = 0xF87171;
/// Warning amber.
pub const WARNING: u32 = 0xFBBF24;
/// Elevated surface for cards.
pub const SURFACE_ELEVATED: u32 = 0x191919;
/// Dimmed accent for inactive tab indicators.
pub const ACCENT_DIM: u32 = 0x2D64B4;
/// Border of focused panels.
pub const BORDER_FOCUS: u32 = 0x323232;
/// Section labels.
pub const TEXT_LABEL: u32 = 0x646464;
/// Borders and dividers (older name of the border colour).
pub const C_FRAME: u32 = 0x1E1E1E;
/// Brand (older name of the accent colour).
pub const C_BRAND: u32 = 0x4A9EFF;
/// Running and completed (older name of the success colour).
pub const C_ACTIVE: u32 = 0x34D399;
/// Failed and paused (older name of the error colour).
pub const C_ERROR: u32 = 0xF87171;

/// The colour palette of the interface.
#[derive(Debug, Clone, Copy, PartialEq, Eq, Structural)]
pub struct Theme {
    pub bg: u32,
    pub surface: u32,
    pub border: u32,
    pub text_primary: u32,
    pub text_secondary: u32,
    pub text_muted: u32,
    pub accent: u32,
    pub success: u32,
    pub error: u32,
    pub warning: u32,
    pub surface_elevated: u32,
    pub accent_dim: u32,
    pub border_focus: u32,
    pub text_label: u32,
}

/// The palette, one field per named colour.
pub open spec fn palette() -> Theme {
    Theme {
        bg: BG,
        surface: SURFACE,
        border: BORDER,
        text_primary: TEXT_PRIMARY,
        text_secondary: TEXT_SECONDARY,
        text_muted: TEXT_MUTED,
        accent: ACCENT,
        success: SUCCESS,
        error: ERROR,
        warning: WARNING,
        surface_elevated: SURFACE_ELEVATED,
        accent_dim: ACCENT_DIM,
        border_focus: BORDER_FOCUS,
        text_label: TEXT_LABEL,
    }
}

/// The palette of the interface.
pub fn theme() -> (r: Theme)
    ensures
        r == palette(),
{
    Theme {
        bg: BG,
        surface: SURFACE,
        border: BORDER,
        text_primary: TEXT_PRIMARY,
        text_secondary: TEXT_SECONDARY,
        text_muted: TEXT_MUTED,
        accent: ACCENT,
        success: SUCCESS,
        error: ERROR,
        warning: WARNING,
        surface_elevated: SURFACE_ELEVATED,
        accent_dim: ACCENT_DIM,
        border_focus: BORDER_FOCUS,
        text_label: TEXT_LABEL,
    }
}

/// The elevated colours differ from the base ones, and the older names
/// denote the same colours as the new ones.
pub proof fn lemma_palette_distinct()
    ensures
        palette().surface_elevated != palette().surface,
        palette().accent_dim != palette().accent,
        palette().border_focus != palette().border,
        palette().text_label != palette().text_muted,
        palette().text_label != palette().text_secondary,
        C_BRAND == palette().accent,
        C_ACTIVE == palette().success,
        C_ERROR == palette().error,
        C_FRAME == palette().border,
{
}

/// Foreground, background and boldness of a piece of text.
#[derive(Debug, Clone, Copy, PartialEq, Eq, Structural)]
pub struct Style {
    pub fg: Option<u32>,
    pub bg: Option<u32>,
    pub bold: bool,
}

/// Text in colour `c`.
pub open spec fn fg_style(c: u32) -> Style {
    Style { fg: Some(c), bg: None, bold: false }
}

/// A background of colour `c`.
pub open spec fn bg_style(c: u32) -> Style {
    Style { fg: None, bg: Some(c), bold: false }
}

/// Bold text in colour `c`.
pub open spec fn bold_style(c: u32) -> Style {
    Style { fg: Some(c), bg: None, bold: true }
}

impl Theme {
    /// Primary text.
    pub fn s_text(&self) -> (r: Style)
        ensures r == fg_style(self.text_primary),
    {
        Style { fg: Some(self.text_primary), bg: None, bold: false }
    }

    /// Muted text.
    pub fn s_dim(&self) -> (r: Style)
        ensures r == fg_style(self.text_muted),
    {
        Style { fg: Some(self.text_muted), bg: None, bold: false }
    }

    /// Accent text, used sparingly.
    pub fn s_accent(&self) -> (r: Style)
        ensures r == fg_style(self.accent),
    {
        Style { fg: Some(self.accent), bg: None, bold: false }
    }

    /// Success text.
    pub fn s_success(&self) -> (r: Style)
        ensures r == fg_style(self.success),
    {
        Style { fg: Some(self.success), bg: None, bold: false }
    }

    /// Error text.
    pub fn s_error(&self) -> (r: Style)
        ensures r == fg_style(self.error),
    {
        Style { fg: Some(self.error), bg: None, bold: false }
    }

    /// Warning text.
    pub fn s_warning(&self) -> (r: Style)
        ensures r == fg_style(self.warning),
    {
        Style { fg: Some(self.warning), bg: None, bold: false }
    }

    /// Headings: bold accent.
    pub fn s_heading(&self) -> (r: Style)
        ensures r == bold_style(self.accent),
    {
        Style { fg: Some(self.accent), bg: None, bold: true }
    }

    /// Thin lines, in the border colour.
    pub fn s_separator(&self) -> (r: Style)
        ensures r == fg_style(self.border),
    {
        Style { fg: Some(self.border), bg: None, bold: false }
    }

    /// Section labels.
    pub fn s_label(&self) -> (r: Style)
        ensures r == fg_style(self.text_label),
    {
        Style { fg: Some(self.text_label), bg: None, bold: false }
    }

    /// The surface background.
    pub fn s_surface(&self) -> (r: Style)
        ensures r == bg_style(self.surface),
    {
        Style { fg: None, bg: Some(self.surface), bold: false }
    }

    /// The elevated surface background, for cards.
    pub fn s_surface_elevated(&self) -> (r: Style)
        ensures r == bg_style(self.surface_elevated),
    {
        Style { fg: None, bg: Some(self.surface_elevated), bold: false }
    }

    /// The active tab: bold accent.
    pub fn s_tab_active(&self) -> (r: Style)
        ensures r == bold_style(self.accent),
    {
        Style { fg: Some(self.accent), bg: None, bold: true }
    }

    /// Inactive tabs: muted text.
    pub fn s_tab_inactive(&self) -> (r: Style)
        ensures r == fg_style(self.text_muted),
    {
        Style { fg: Some(self.text_muted), bg: None, bold: false }
    }

    /// The border colour of a panel: accent when focused.
    pub fn focus_border_color(&self, is_focused: bool) -> (r: u32)
        ensures r == if is_focused { self.accent } else { self.border },
    {
        if is_focused { self.accent } else { self.border }
    }

    /// The colour an output line gets from its prefix, if any: user input
    /// in accent, tool output muted, errors in the error colour. Other lines
    /// are coloured by how recent they are.
    pub fn prefix_color(&self, line: &str) -> (r: Option<u32>)
        ensures
            r == if crate::text::has_prefix(line@, "[USER]"@) {
                Some(self.accent)
            } else if crate::text::has_prefix(line@, ">"@) {
                Some(self.text_muted)
            } else if crate::text::has_prefix(line@, "ERROR"@) {
                Some(self.error)
            } else {
                None
            },
    {
        if crate::text::starts_with_str(line, "[USER]") {
            Some(self.accent)
        } else if crate::text::starts_with_str(line, ">") {
            Some(self.text_muted)
        } else if crate::text::starts_with_str(line, "ERROR") {
            Some(self.error)
        } else {
            None
        }
    }

    /// The tab-bar entry of a tab, `[1]Orchestra`: bold accent when active,
    /// muted otherwise, nothing when the tab is hidden.
    pub fn tab_indicator(&self, label: &str, key: char, is_active: bool, is_visible: bool) -> (r: Vec<(String, Style)>)
        ensures
            !is_visible ==> r@.len() == 0,
            is_visible ==> r@.len() == 1 && r@[0].0@ == seq!['[', key, ']'] + label@ && r@[0].1 == if is_active {
                bold_style(self.accent)
            } else {
                fg_style(self.text_muted)
            },
    {
        let mut out: Vec<(String, Style)> = Vec::new();
        if !is_visible {
            return out;
        }
        let mut text = String::new();
        push_char(&mut text, '[');
        push_char(&mut text, key);
        push_char(&mut text, ']');
        push_str(&mut text, label);
        assert(text@ =~= seq!['[', key, ']'] + label@);
        let style = if is_active { self.s_tab_active() } else { self.s_tab_inactive() };
        out.push((text, style));
        out
    }
}

/// A symbol with its colour.
#[derive(Debug, Clone, Copy, PartialEq, Eq, Structural)]
pub struct PhaseDisplay {
    pub sym: char,
    pub color: u32,
}

/// The symbol and colour of each orchestra phase.
pub open spec fn phase_look(p: OrchestraPhase) -> PhaseDisplay {
    match p {
        OrchestraPhase::Init => PhaseDisplay { sym: '○', color: TEXT_MUTED },
        OrchestraPhase::Planning | OrchestraPhase::Exploring | OrchestraPhase::Decomposing
        | OrchestraPhase::PhaseReviewing | OrchestraPhase::Reviewing | OrchestraPhase::FinalReview =>
            PhaseDisplay { sym: '◉', color: WARNING },
        OrchestraPhase::Analyzing | OrchestraPhase::PhaseDetailing | OrchestraPhase::PhaseMerging
        | OrchestraPhase::Integrating => PhaseDisplay { sym: '◉', color: ACCENT },
        OrchestraPhase::PlanReview => PhaseDisplay { sym: '◈', color: ACCENT },
        OrchestraPhase::PhaseExecuting | OrchestraPhase::Executing => PhaseDisplay { sym: '●', color: SUCCESS },
        OrchestraPhase::Paused => PhaseDisplay { sym: '◎', color: ERROR },
        OrchestraPhase::Probing => PhaseDisplay { sym: '◎', color: ACCENT },
        OrchestraPhase::Complete => PhaseDisplay { sym: '✓', color: SUCCESS },
        OrchestraPhase::Failed => PhaseDisplay { sym: '✗', color: ERROR },
    }
}

/// The symbol and colour shown for an orchestra phase.
pub fn phase_display(phase: &OrchestraPhase) -> (r: PhaseDisplay)
    ensures
        r == phase_look(*phase),
{
    match phase {
        OrchestraPhase::Init => PhaseDisplay { sym: '○', color: TEXT_MUTED },
        OrchestraPhase::Planning | OrchestraPhase::Exploring | OrchestraPhase::Decomposing
        | OrchestraPhase::PhaseReviewing | OrchestraPhase::Reviewing | OrchestraPhase::FinalReview =>
            PhaseDisplay { sym: '◉', color: WARNING },
        OrchestraPhase::Analyzing | OrchestraPhase::PhaseDetailing | OrchestraPhase::PhaseMerging
        | OrchestraPhase::Integrating => PhaseDisplay { sym: '◉', color: ACCENT },
        OrchestraPhase::PlanReview => PhaseDisplay { sym: '◈', color: ACCENT },
        OrchestraPhase::PhaseExecuting | OrchestraPhase::Executing => PhaseDisplay { sym: '●', color: SUCCESS },
        OrchestraPhase::Paused => PhaseDisplay { sym: '◎', color: ERROR },
        OrchestraPhase::Probing => PhaseDisplay { sym: '◎', color: ACCENT },
        OrchestraPhase::Complete => PhaseDisplay { sym: '✓', color: SUCCESS },
        OrchestraPhase::Failed => PhaseDisplay { sym: '✗', color: ERROR },
    }
}

/// Label, dot and colour of a musician status.
#[derive(Debug, Clone, Copy)]
pub struct StatusDisplay {
    pub color: u32,
    pub label: &'static str,
    pub dot: char,
}

/// The label, dot and colour shown for a musician status.
pub fn status_display(status: &MusicianStatus) -> (r: StatusDisplay)
    ensures
        (r.color, r.label@, r.dot) == match *status {
            MusicianStatus::Idle => (TEXT_MUTED, "IDLE"@, '○'),
            MusicianStatus::Running => (SUCCESS, "ACTIVE"@, '●'),
            MusicianStatus::Waiting => (WARNING, "WAIT"@, '◎'),
            MusicianStatus::Paused => (ERROR, "PAUSE"@, '◎'),
            MusicianStatus::Completed => (SUCCESS, "DONE"@, '✓'),
            MusicianStatus::Failed => (ERROR, "FAIL"@, '✗'),
        },
{
    match status {
        MusicianStatus::Idle => StatusDisplay { color: TEXT_MUTED, label: "IDLE", dot: '○' },
        MusicianStatus::Running => StatusDisplay { color: SUCCESS, label: "ACTIVE", dot: '●' },
        MusicianStatus::Waiting => StatusDisplay { color: WARNING, label: "WAIT", dot: '◎' },
        MusicianStatus::Paused => StatusDisplay { color: ERROR, label: "PAUSE", dot: '◎' },
        MusicianStatus::Completed => StatusDisplay { color: SUCCESS, label: "DONE", dot: '✓' },
        MusicianStatus::Failed => StatusDisplay { color: ERROR, label: "FAIL", dot: '✗' },
    }
}

/// Dot and colour of a task status.
#[derive(Debug, Clone, Copy, PartialEq, Eq, Structural)]
pub struct TaskViz {
    pub dot: char,
    pub color: u32,
}

/// The dot and colour shown for a task status.
pub fn task_viz(status: &TaskStatus) -> (r: TaskViz)
    ensures
        r == match *status {
            TaskStatus::InProgress => TaskViz { dot: '●', color: SUCCESS },
            TaskStatus::Completed => TaskViz { dot: '✓', color: SUCCESS },
            TaskStatus::Ready => TaskViz { dot: '◦', color: WARNING },
            TaskStatus::Queued => TaskViz { dot: '·', color: TEXT_MUTED },
            TaskStatus::Blocked => TaskViz { dot: '×', color: TEXT_MUTED },
            TaskStatus::Failed => TaskViz { dot: '✗', color: ERROR },
            TaskStatus::Review => TaskViz { dot: '◉', color: ACCENT },
            TaskStatus::Cancelled => TaskViz { dot: '·', color: TEXT_MUTED },
        },
{
    match status {
        TaskStatus::InProgress => TaskViz { dot: '●', color: SUCCESS },
        TaskStatus::Completed => TaskViz { dot: '✓', color: SUCCESS },
        TaskStatus::Ready => TaskViz { dot: '◦', color: WARNING },
        TaskStatus::Queued => TaskViz { dot: '·', color: TEXT_MUTED },
        TaskStatus::Blocked => TaskViz { dot: '×', color: TEXT_MUTED },
        TaskStatus::Failed => TaskViz { dot: '✗', color: ERROR },
        TaskStatus::Review => TaskViz { dot: '◉', color: ACCENT },
        TaskStatus::Cancelled => TaskViz { dot: '·', color: TEXT_MUTED },
    }
}

// ─── Formatting ──────────────────────────────────────────────────

/// `n` written with at least two digits.
pub open spec fn two_digits(n: nat) -> Seq<char> {
    if n < 10 { seq!['0'] + decimal(n) } else { decimal(n) }
}

/// A duration of `ms` milliseconds as "5s", "2m05s" or "1h30m".
pub open spec fn elapsed_text(ms: u64) -> Seq<char> {
    let s = (ms / 1000) as nat;
    let m = s / 60;
    if m >= 60 {
        decimal(m / 60) + "h"@ + decimal(m % 60) + "m"@
    } else if m > 0 {
        decimal(m) + "m"@ + two_digits(s % 60) + "s"@
    } else {
        decimal(s) + "s"@
    }
}

/// Formats a duration in milliseconds as "5s", "2m05s" or "1h30m".
pub fn elapsed(ms: u64) -> (r: String)
    ensures
        r@ == elapsed_text(ms),
{
    let s = ms / 1000;
    let m = s / 60;
    let mut out = String::new();
    if m >= 60 {
        push_decimal(&mut out, m / 60);
        push_str(&mut out, "h");
        push_decimal(&mut out, m % 60);
        push_str(&mut out, "m");
    } else if m > 0 {
        push_decimal(&mut out, m);
        push_str(&mut out, "m");
        let sec = s % 60;
        if sec < 10 {
            push_char(&mut out, '0');
        }
        push_decimal(&mut out, sec);
        push_str(&mut out, "s");
    } else {
        push_decimal(&mut out, s);
        push_str(&mut out, "s");
    }
    proof {
        reveal_strlit("");
    }
    assert(out@ =~= elapsed_text(ms));
    out
}

/// `s` cut to `max` characters, the last one replaced by an ellipsis when
/// anything was cut.
pub open spec fn trunc_text(s: Seq<char>, max: nat) -> Seq<char> {
    if s.len() <= max {
        s
    } else {
        s.take(if max > 0 { max - 1 } else { 0 }).push('…')
    }
}

/// Cuts `s` to `max` characters, ending with an ellipsis when anything was
/// cut.
pub fn trunc(s: &str, max: usize) -> (r: String)
    ensures
        r@ == trunc_text(s@, max as nat),
{
    let cs = chars_of(s);
    if cs.len() <= max {
        return crate::text::string_from_chars(&cs);
    }
    let keep: usize = if max > 0 { max - 1 } else { 0 };
    let mut out = String::new();
    let mut i: usize = 0;
    while i < keep
        invariant
            i <= keep,
            keep < cs.len(),
            out@ == cs@.take(i as int),
        decreases keep - i,
    {
        push_char(&mut out, cs[i]);
        i = i + 1;
        assert(cs@.take(i as int) =~= cs@.take(i - 1).push(cs@[i - 1]));
    }
    push_char(&mut out, '…');
    out
}

/// A control character: Unicode general category Cc.
pub open spec fn is_control(c: char) -> bool {
    (c as u32) < 0x20 || (0x7F <= (c as u32) && (c as u32) < 0xA0)
}

/// An ASCII letter or a tilde: the end of an ANSI escape sequence.
pub open spec fn ends_escape(c: char) -> bool {
    ('a' <= c && c <= 'z') || ('A' <= c && c <= 'Z') || c == '~'
}

/// The position just after the end of the escape sequence whose parameters
/// start at `k`.
pub open spec fn escape_end(c: Seq<char>, k: int) -> int
    decreases c.len() - k,
{
    if k >= c.len() || k < 0 {
        c.len() as int
    } else if ends_escape(c[k]) {
        k + 1
    } else {
        escape_end(c, k + 1)
    }
}

/// `c` from `i` on without ANSI escape sequences and control characters
/// other than newline and tab.
pub open spec fn strip_controls(c: Seq<char>, i: int) -> Seq<char>
    decreases c.len() - i,
{
    if i >= c.len() || i < 0 {
        Seq::empty()
    } else if c[i] == '\u{1b}' {
        if i + 1 < c.len() && c[i + 1] == '[' {
            if i + 2 <= escape_end(c, i + 2) <= c.len() {
                strip_controls(c, escape_end(c, i + 2))
            } else {
                Seq::empty()
            }
        } else {
            strip_controls(c, i + 1)
        }
    } else if is_control(c[i]) && c[i] != '\n' && c[i] != '\t' {
        strip_controls(c, i + 1)
    } else {
        seq![c[i]] + strip_controls(c, i + 1)
    }
}

proof fn lemma_escape_end(c: Seq<char>, k: int)
    requires
        0 <= k <= c.len(),
    ensures
        k <= escape_end(c, k) <= c.len(),
    decreases c.len() - k,
{
    if k < c.len() && !ends_escape(c[k]) {
        lemma_escape_end(c, k + 1);
    }
}

/// A character that stripping keeps: no control character, or a newline or
/// a tab.
pub open spec fn kept_char(ch: char) -> bool {
    !is_control(ch) || ch == '\n' || ch == '\t'
}

/// `f` picks, in increasing order, the positions of `c` that `r` is made of:
/// `r` is a subsequence of `c`.
pub open spec fn picks(f: Seq<int>, r: Seq<char>, c: Seq<char>) -> bool {
    &&& f.len() == r.len()
    &&& forall|j: int| 0 <= j < f.len() ==> 0 <= #[trigger] f[j] < c.len() && r[j] == c[f[j]]
    &&& forall|a: int, b: int| 0 <= a < b < f.len() ==> #[trigger] f[a] < #[trigger] f[b]
}

proof fn lemma_strip_kept(c: Seq<char>, i: int)
    requires
        0 <= i,
    ensures
        forall|j: int| 0 <= j < strip_controls(c, i).len() ==> kept_char(#[trigger] strip_controls(c, i)[j]),
    decreases c.len() - i,
{
    if i < c.len() {
        if c[i] == '\u{1b}' {
            if i + 1 < c.len() && c[i + 1] == '[' {
                if i + 2 <= escape_end(c, i + 2) <= c.len() {
                    lemma_strip_kept(c, escape_end(c, i + 2));
                    assert(strip_controls(c, i) == strip_controls(c, escape_end(c, i + 2)));
                } else {
                    assert(strip_controls(c, i) == Seq::<char>::empty());
                }
            } else {
                lemma_strip_kept(c, i + 1);
                assert(strip_controls(c, i) == strip_controls(c, i + 1));
            }
        } else if is_control(c[i]) && c[i] != '\n' && c[i] != '\t' {
            lemma_strip_kept(c, i + 1);
            assert(strip_controls(c, i) == strip_controls(c, i + 1));
        } else {
            lemma_strip_kept(c, i + 1);
            let r = strip_controls(c, i);
            assert(r == seq![c[i]] + strip_controls(c, i + 1));
            assert forall|j: int| 0 <= j < r.len() implies kept_char(#[trigger] r[j]) by {
                if j == 0 {
                    assert(r[0] == c[i]);
                } else {
                    assert(r[j] == strip_controls(c, i + 1)[j - 1]);
                }
            }
        }
    }
}

proof fn lemma_strip_unchanged(c: Seq<char>, i: int)
    requires
        0 <= i <= c.len(),
        forall|j: int| i <= j < c.len() ==> kept_char(#[trigger] c[j]),
    ensures
        strip_controls(c, i) == c.skip(i),
    decreases c.len() - i,
{
    if i < c.len() {
        assert(kept_char(c[i]));
        lemma_strip_unchanged(c, i + 1);
        assert(seq![c[i]] + c.skip(i + 1) =~= c.skip(i));
    } else {
        assert(c.skip(i) =~= Seq::<char>::empty());
    }
}

proof fn lemma_strip_picks(c: Seq<char>, i: int) -> (f: Seq<int>)
    requires
        0 <= i,
    ensures
        picks(f, strip_controls(c, i), c),
        forall|j: int| 0 <= j < f.len() ==> i <= #[trigger] f[j],
    decreases c.len() - i,
{
    if i >= c.len() {
        Seq::empty()
    } else if c[i] == '\u{1b}' {
        if i + 1 < c.len() && c[i + 1] == '[' {
            if i + 2 <= escape_end(c, i + 2) <= c.len() {
                lemma_strip_picks(c, escape_end(c, i + 2))
            } else {
                Seq::empty()
            }
        } else {
            lemma_strip_picks(c, i + 1)
        }
    } else if is_control(c[i]) && c[i] != '\n' && c[i] != '\t' {
        lemma_strip_picks(c, i + 1)
    } else {
        let g = lemma_strip_picks(c, i + 1);
        let f = seq![i] + g;
        let r = strip_controls(c, i);
        assert forall|j: int| 0 <= j < f.len() implies 0 <= #[trigger] f[j] < c.len() && r[j] == c[f[j]] && i <= f[j] by {
            if j > 0 {
                assert(f[j] == g[j - 1]);
                assert(r[j] == strip_controls(c, i + 1)[j - 1]);
            }
        }
        assert forall|a: int, b: int| 0 <= a < b < f.len() implies #[trigger] f[a] < #[trigger] f[b] by {
            if a > 0 {
                assert(f[a] == g[a - 1] && f[b] == g[b - 1]);
            } else {
                assert(f[b] == g[b - 1]);
            }
        }
        f
    }
}

/// Stripping leaves no control character but newlines and tabs, keeps a
/// subsequence of the text, leaves a clean text unchanged, and so changes
/// nothing when applied again.
pub proof fn lemma_strip_control_chars_laws(s: Seq<char>)
    ensures
        forall|j: int| 0 <= j < strip_controls(s, 0).len() ==> kept_char(#[trigger] strip_controls(s, 0)[j]),
        exists|f: Seq<int>| picks(f, strip_controls(s, 0), s),
        (forall|j: int| 0 <= j < s.len() ==> kept_char(#[trigger] s[j])) ==> strip_controls(s, 0) == s,
        strip_controls(strip_controls(s, 0), 0) == strip_controls(s, 0),
{
    lemma_strip_kept(s, 0);
    let f = lemma_strip_picks(s, 0);
    let r = strip_controls(s, 0);
    lemma_strip_unchanged(r, 0);
    assert(r.skip(0) =~= r);
    if forall|j: int| 0 <= j < s.len() ==> kept_char(#[trigger] s[j]) {
        lemma_strip_unchanged(s, 0);
        assert(s.skip(0) =~= s);
    }
}

/// Removes ANSI escape sequences and control characters other than newline
/// and tab.
pub fn strip_control_chars(s: &str) -> (r: String)
    ensures
        r@ == strip_controls(s@, 0),
        forall|j: int| 0 <= j < r@.len() ==> kept_char(#[trigger] r@[j]),
        exists|f: Seq<int>| picks(f, r@, s@),
        (forall|j: int| 0 <= j < s@.len() ==> kept_char(#[trigger] s@[j])) ==> r@ == s@,
        strip_controls(r@, 0) == r@,
{
    proof {
        lemma_strip_control_chars_laws(s@);
    }
    let c = chars_of(s);
    let n = c.len();
    let mut out = String::new();
    let mut i: usize = 0;
    while i < n
        invariant
            n == c.len(),
            i <= n,
            out@ + strip_controls(c@, i as int) == strip_controls(c@, 0),
        decreases n - i,
    {
        let ch = c[i];
        if ch == '\u{1b}' {
            if i + 1 < n && c[i + 1] == '[' {
                let mut k = i + 2;
                proof {
                    lemma_escape_end(c@, k as int);
                }
                while k < n && !(('a' <= c[k] && c[k] <= 'z') || ('A' <= c[k] && c[k] <= 'Z') || c[k] == '~')
                    invariant
                        n == c.len(),
                        i + 2 <= k <= n,
                        escape_end(c@, k as int) == escape_end(c@, i + 2),
                    decreases n - k,
                {
                    k = k + 1;
                }
                i = if k < n { k + 1 } else { n };
            } else {
                i = i + 1;
            }
        } else if ((ch as u32) < 0x20 || (0x7F <= (ch as u32) && (ch as u32) < 0xA0)) && ch != '\n' && ch != '\t' {
            i = i + 1;
        } else {
            proof {
                assert(out@.push(ch) + strip_controls(c@, i + 1) =~= out@ + strip_controls(c@, i as int));
            }
            push_char(&mut out, ch);
            i = i + 1;
        }
    }
    assert(out@ =~= strip_controls(c@, 0));
    out
}

/// A thin horizontal line of `width` characters.
pub fn separator_line(width: usize) -> (r: String)
    ensures
        r@ == Seq::new(width as nat, |i: int| '─'),
{
    let mut out = String::new();
    let mut i: usize = 0;
    while i < width
        invariant
            i <= width,
            out@ == Seq::new(i as nat, |k: int| '─'),
        decreases width - i,
    {
        push_char(&mut out, '─');
        i = i + 1;
        assert(out@ =~= Seq::new(i as nat, |k: int| '─'));
    }
    out
}

/// The thin line character.
pub fn separator_char() -> (r: &'static str)
    ensures
        r@ == "─"@,
{
    "─"
}

/// The subtle dot separator.
pub fn separator_dot() -> (r: &'static str)
    ensures
        r@ == "·"@,
{
    "·"
}

} // verus!
