//! Events streamed by an agent session, and the actions the user sends to the
//! orchestra.
use crate::json::{JsonValue, JsonView};
use crate::state::{ClaudeEventType, TokenUsage};
use vstd::prelude::*;

verus! {

/// One event of an agent session's stream.
#[derive(Debug)]
pub struct ClaudeEvent {
    pub event_type: ClaudeEventType,
    pub subtype: Option<String>,
    pub session_id: Option<String>,
    pub message: Option<String>,
    pub tool_name: Option<String>,
    pub tool_input: Option<JsonValue>,
    pub tool_result_content: Option<String>,
    pub result: Option<String>,
    pub duration_ms: Option<u64>,
    pub duration_api_ms: Option<u64>,
    pub num_turns: Option<u32>,
    pub is_error: Option<bool>,
    pub resets_at: Option<String>,
    pub usage: Option<TokenUsage>,
}

/// An agent event as plain values.
pub ghost struct EventView {
    pub event_type: ClaudeEventType,
    pub subtype: Option<Seq<char>>,
    pub session_id: Option<Seq<char>>,
    pub message: Option<Seq<char>>,
    pub tool_name: Option<Seq<char>>,
    pub tool_input: Option<JsonView>,
    pub tool_result_content: Option<Seq<char>>,
    pub result: Option<Seq<char>>,
    pub duration_ms: Option<u64>,
    pub duration_api_ms: Option<u64>,
    pub num_turns: Option<u32>,
    pub is_error: Option<bool>,
    pub resets_at: Option<Seq<char>>,
    pub usage: Option<TokenUsage>,
}

/// The characters of an optional string.
pub open spec fn opt_view(o: Option<String>) -> Option<Seq<char>> {
    match o {
        Some(s) => Some(s@),
        None => None,
    }
}

/// The plain view of an optional JSON value.
pub open spec fn opt_json(o: Option<JsonValue>) -> Option<JsonView> {
    match o {
        Some(v) => Some(v@),
        None => None,
    }
}

impl View for ClaudeEvent {
    type V = EventView;

    open spec fn view(&self) -> EventView {
        EventView {
            event_type: self.event_type,
            subtype: opt_view(self.subtype),
            session_id: opt_view(self.session_id),
            message: opt_view(self.message),
            tool_name: opt_view(self.tool_name),
            tool_input: opt_json(self.tool_input),
            tool_result_content: opt_view(self.tool_result_content),
            result: opt_view(self.result),
            duration_ms: self.duration_ms,
            duration_api_ms: self.duration_api_ms,
            num_turns: self.num_turns,
            is_error: self.is_error,
            resets_at: opt_view(self.resets_at),
            usage: self.usage,
        }
    }
}

/// The plain views of a list of events.
pub open spec fn event_views(v: Seq<ClaudeEvent>) -> Seq<EventView> {
    v.map_values(|e: ClaudeEvent| e@)
}

/// An event of the given kind with every other field absent.
pub open spec fn empty_view(event_type: ClaudeEventType) -> EventView {
    EventView {
        event_type,
        subtype: None,
        session_id: None,
        message: None,
        tool_name: None,
        tool_input: None,
        tool_result_content: None,
        result: None,
        duration_ms: None,
        duration_api_ms: None,
        num_turns: None,
        is_error: None,
        resets_at: None,
        usage: None,
    }
}

/// Actions sent from the terminal interface to the orchestra.
#[derive(Debug, Clone)]
pub enum UserAction {
    Quit,
    FocusNext,
    FocusPrev,
    ToggleFocusView,
    SubmitGuidance { text: String, images: Option<Vec<String>> },
    ApprovePlan,
    RejectPlan(String),
    RefinePlan { text: String, images: Option<Vec<String>> },
    Resize { width: u16, height: u16 },
    ScrollUp,
    ScrollDown,
    ToggleHelp,
    SubmitTask { text: String, images: Option<Vec<String>> },
    ResumeSession { session_id: String },
}

/// The plain view of optional image paths.
pub open spec fn opt_views(o: Option<Vec<String>>) -> Option<Seq<Seq<char>>> {
    match o {
        Some(v) => Some(crate::text::views(v@)),
        None => None,
    }
}

/// A user action as plain values.
pub ghost enum ActionView {
    Quit,
    FocusNext,
    FocusPrev,
    ToggleFocusView,
    SubmitGuidance { text: Seq<char>, images: Option<Seq<Seq<char>>> },
    ApprovePlan,
    RejectPlan(Seq<char>),
    RefinePlan { text: Seq<char>, images: Option<Seq<Seq<char>>> },
    Resize { width: u16, height: u16 },
    ScrollUp,
    ScrollDown,
    ToggleHelp,
    SubmitTask { text: Seq<char>, images: Option<Seq<Seq<char>>> },
    ResumeSession { session_id: Seq<char> },
}

impl View for UserAction {
    type V = ActionView;

    open spec fn view(&self) -> ActionView {
        match self {
            UserAction::Quit => ActionView::Quit,
            UserAction::FocusNext => ActionView::FocusNext,
            UserAction::FocusPrev => ActionView::FocusPrev,
            UserAction::ToggleFocusView => ActionView::ToggleFocusView,
            UserAction::SubmitGuidance { text, images } => ActionView::SubmitGuidance {
                text: text@,
                images: opt_views(*images),
            },
            UserAction::ApprovePlan => ActionView::ApprovePlan,
            UserAction::RejectPlan(t) => ActionView::RejectPlan(t@),
            UserAction::RefinePlan { text, images } => ActionView::RefinePlan {
                text: text@,
                images: opt_views(*images),
            },
            UserAction::Resize { width, height } => ActionView::Resize { width: *width, height: *height },
            UserAction::ScrollUp => ActionView::ScrollUp,
            UserAction::ScrollDown => ActionView::ScrollDown,
            UserAction::ToggleHelp => ActionView::ToggleHelp,
            UserAction::SubmitTask { text, images } => ActionView::SubmitTask {
                text: text@,
                images: opt_views(*images),
            },
            UserAction::ResumeSession { session_id } => ActionView::ResumeSession {
                session_id: session_id@,
            },
        }
    }
}

} // verus!
