//! Reading the stream of an agent session: turning its JSON lines into
//! events, spotting rate limits, and checking model names.
use crate::events::{empty_view, event_views, ClaudeEvent, EventView};
use crate::json::{
    as_array, as_bool, as_str, as_u64, copy_json, get, json_get, JsonNumber, JsonValue, JsonView,
};
use crate::state::ClaudeEventType;
use crate::text::{
    contains_str, decimal, join, join_strings, lowercase, push_decimal, push_str, seq_contains,
    to_lowercase, views,
};
use vstd::prelude::*;

verus! {

broadcast use vstd::string::group_string_axioms;

/// Errors of the session bridge.
#[derive(Debug)]
pub enum BridgeError {
    CliNotFound,
    UnknownModel(String, String),
    ProcessFailed { exit_code: i32, stderr: String },
    JsonParse(String),
    Io(String),
    SessionClosed,
}

// ─── Rate-limit text ─────────────────────────────────────────────

/// Lowercased text that reports a rate limit.
pub open spec fn mentions_rate_limit(lower: Seq<char>) -> bool {
    ||| seq_contains(lower, "429"@)
    ||| seq_contains(lower, "rate limit"@)
    ||| seq_contains(lower, "too many requests"@)
    ||| seq_contains(lower, "rate_limit"@)
}

/// Whether `text` reports a rate limit, ignoring case.
pub fn rate_limit_text(text: &str) -> (r: bool)
    ensures
        r == mentions_rate_limit(lowercase(text@)),
{
    let lower = to_lowercase(text);
    contains_str(lower.as_str(), "429") || contains_str(lower.as_str(), "rate limit")
        || contains_str(lower.as_str(), "too many requests") || contains_str(
        lower.as_str(),
        "rate_limit",
    )
}

/// Whether the stderr output of a agent CLI process reports a rate limit.
pub fn is_rate_limit_error(stderr: &str) -> (r: bool)
    ensures
        r == mentions_rate_limit(lowercase(stderr@)),
{
    rate_limit_text(stderr)
}

// ─── Models ──────────────────────────────────────────────────────

/// The model short names the CLI accepts.
pub open spec fn model_names() -> Seq<Seq<char>> {
    seq!["opus"@, "sonnet"@, "haiku"@]
}

/// The model short names the CLI accepts, in order.
pub fn valid_models() -> (r: Vec<&'static str>)
    ensures
        r@.len() == 3,
        forall|i: int| 0 <= i < 3 ==> r@[i]@ == #[trigger] model_names()[i],
{
    let mut v: Vec<&'static str> = Vec::new();
    v.push("opus");
    v.push("sonnet");
    v.push("haiku");
    v
}

/// Checks that `model` is one of the accepted short names.
pub fn validate_model(model: &str) -> (r: Result<(), BridgeError>)
    ensures
        r is Ok <==> model_names().contains(model@),
        r matches Err(e) ==> (e matches BridgeError::UnknownModel(m, list) && m@ == model@
            && list@ == "opus, sonnet, haiku"@),
{
    let ok = crate::json::str_eq(model, "opus") || crate::json::str_eq(model, "sonnet")
        || crate::json::str_eq(model, "haiku");
    proof {
        assert(model_names()[0] == "opus"@);
        assert(model_names()[1] == "sonnet"@);
        assert(model_names()[2] == "haiku"@);
        if model_names().contains(model@) {
            let i = choose|i: int| 0 <= i < 3 && model_names()[i] == model@;
        }
    }
    if ok {
        Ok(())
    } else {
        let mut name = String::new();
        push_str(&mut name, model);
        let mut list = String::new();
        push_str(&mut list, "opus, sonnet, haiku");
        assert(name@ =~= model@);
        assert(list@ =~= "opus, sonnet, haiku"@);
        Err(BridgeError::UnknownModel(name, list))
    }
}

// ─── Stream parsing ──────────────────────────────────────────────

/// The text of member `key` of `v`, if it is a string.
pub open spec fn str_at(v: JsonView, key: Seq<char>) -> Option<Seq<char>> {
    as_str(get(v, key))
}

/// Member `key` of an optional value.
pub open spec fn get_in(v: Option<JsonView>, key: Seq<char>) -> Option<JsonView> {
    match v {
        Some(x) => get(x, key),
        None => None,
    }
}

/// `o`, or `d` when absent.
pub open spec fn or_else(o: Option<Seq<char>>, d: Seq<char>) -> Seq<char> {
    match o {
        Some(s) => s,
        None => d,
    }
}

/// The seconds and nanoseconds of a timestamp number, as a float reading of
/// it gives them: the integral part and the nanoseconds of the fraction.
pub open spec fn timestamp_parts(n: JsonNumber) -> (i64, u32) {
    match n {
        JsonNumber::PosInt(u) => (if u <= i64::MAX { u as i64 } else { i64::MAX }, 0),
        JsonNumber::NegInt(i) => (i, 0),
        JsonNumber::Float { whole, nanos } => (whole, nanos),
    }
}

/// The RFC 3339 form of a UTC timestamp, as `chrono` writes it, or the empty
/// text when `chrono` cannot represent the instant.
pub uninterp spec fn rfc3339_of(secs: i64, nanos: u32) -> Seq<char>;

/// Calls `chrono::DateTime::from_timestamp` and, on success,
/// `DateTime::to_rfc3339`; the empty string where the first gives nothing.
/// The result is named `rfc3339_of` of the arguments; nothing more is stated.
#[verifier::external_body]
fn timestamp_rfc3339(secs: i64, nanos: u32) -> (r: String)
    ensures
        r@ == rfc3339_of(secs, nanos),
{
    chrono::DateTime::from_timestamp(secs, nanos).map(|dt| dt.to_rfc3339()).unwrap_or_default()
}

/// When a rate-limit report says the limit resets.
pub open spec fn resets_at_of(info: Option<JsonView>) -> Option<Seq<char>> {
    match get_in(info, "resetsAt"@) {
        Some(JsonView::Number(n)) => Some(rfc3339_of(timestamp_parts(n).0, timestamp_parts(n).1)),
        _ => None,
    }
}

/// The event of one content block of an assistant message.
pub open spec fn block_events(block: JsonView) -> Seq<EventView> {
    let t = or_else(str_at(block, "type"@), ""@);
    if t == "text"@ {
        seq![
            EventView {
                subtype: Some("text"@),
                message: str_at(block, "text"@),
                ..empty_view(ClaudeEventType::Assistant)
            },
        ]
    } else if t == "thinking"@ {
        seq![
            EventView {
                subtype: Some("thinking"@),
                message: Some("[Thinking...]"@),
                ..empty_view(ClaudeEventType::Assistant)
            },
        ]
    } else if t == "tool_use"@ {
        seq![
            EventView {
                tool_name: str_at(block, "name"@),
                tool_input: get(block, "input"@),
                ..empty_view(ClaudeEventType::ToolUse)
            },
        ]
    } else {
        Seq::empty()
    }
}

/// The events of the content blocks of an assistant message, in order.
pub open spec fn content_events(blocks: Seq<JsonView>) -> Seq<EventView>
    decreases blocks.len(),
{
    if blocks.len() == 0 {
        Seq::empty()
    } else {
        content_events(blocks.drop_last()) + block_events(blocks.last())
    }
}

/// The events that one JSON line of the stream expands to.
pub open spec fn claude_events(raw: JsonView) -> Seq<EventView> {
    let t = or_else(str_at(raw, "type"@), ""@);
    if t == "system"@ {
        seq![
            EventView {
                subtype: str_at(raw, "subtype"@),
                session_id: str_at(raw, "session_id"@),
                ..empty_view(ClaudeEventType::System)
            },
        ]
    } else if t == "assistant"@ {
        match as_array(get_in(get(raw, "message"@), "content"@)) {
            Some(blocks) => content_events(blocks),
            None => Seq::empty(),
        }
    } else if t == "user"@ {
        match get(raw, "tool_use_result"@) {
            Some(tr) => seq![
                EventView {
                    tool_result_content: Some(or_else(str_at(tr, "stdout"@), ""@)),
                    ..empty_view(ClaudeEventType::ToolResult)
                },
            ],
            None => Seq::empty(),
        }
    } else if t == "rate_limit_event"@ {
        let info = get(raw, "rate_limit_info"@);
        let status = or_else(as_str(get_in(info, "status"@)), ""@);
        if status == "rate_limited"@ || status == "blocked"@ {
            let kind = or_else(as_str(get_in(info, "rateLimitType"@)), "unknown"@);
            seq![
                EventView {
                    subtype: Some("rate_limit"@),
                    message: Some("Rate limited ("@ + kind + ")"@),
                    resets_at: resets_at_of(info),
                    ..empty_view(ClaudeEventType::Error)
                },
            ]
        } else {
            seq![
                EventView {
                    subtype: Some("rate_limit_info"@),
                    resets_at: resets_at_of(info),
                    ..empty_view(ClaudeEventType::System)
                },
            ]
        }
    } else if t == "result"@ {
        seq![
            EventView {
                subtype: str_at(raw, "subtype"@),
                result: str_at(raw, "result"@),
                duration_ms: as_u64(get(raw, "duration_ms"@)),
                duration_api_ms: as_u64(get(raw, "duration_api_ms"@)),
                num_turns: match as_u64(get(raw, "num_turns"@)) {
                    Some(n) => Some(n as u32),
                    None => None,
                },
                is_error: as_bool(get(raw, "is_error"@)),
                ..empty_view(ClaudeEventType::Result)
            },
        ]
    } else {
        Seq::empty()
    }
}

/// A "result" line gives one result event that carries the line's
/// "is_error" flag as it is (true stays true, false stays false, and no
/// flag when the member is absent or not a boolean), its "result" text and
/// its "subtype".
pub proof fn lemma_result_line_event(raw: JsonView)
    requires
        get(raw, "type"@) == Some(JsonView::Str("result"@)),
    ensures
        claude_events(raw).len() == 1,
        claude_events(raw)[0].event_type == ClaudeEventType::Result,
        forall|b: bool| get(raw, "is_error"@) == Some(JsonView::Bool(b)) ==> claude_events(raw)[0].is_error == Some(b),
        !(get(raw, "is_error"@) matches Some(JsonView::Bool(_))) ==> claude_events(raw)[0].is_error is None,
        forall|t: Seq<char>| get(raw, "result"@) == Some(JsonView::Str(t)) ==> claude_events(raw)[0].result == Some(t),
        forall|t: Seq<char>| get(raw, "subtype"@) == Some(JsonView::Str(t)) ==> claude_events(raw)[0].subtype == Some(t),
{
    reveal_strlit("result");
    reveal_strlit("system");
    reveal_strlit("assistant");
    reveal_strlit("user");
    reveal_strlit("rate_limit_event");
    assert("result"@ != "system"@ && "result"@ != "assistant"@ && "result"@ != "user"@) by {
        assert("result"@[0] != "system"@[0] && "result"@[0] != "assistant"@[0] && "result"@[0] != "user"@[0]);
    }
    assert("result"@ != "rate_limit_event"@) by {
        assert("result"@.len() != "rate_limit_event"@.len());
    }
    assert(or_else(str_at(raw, "type"@), ""@) == "result"@);
}

/// An event of the given kind with every other field absent.
pub fn empty_event(event_type: ClaudeEventType) -> (r: ClaudeEvent)
    ensures
        r@ == empty_view(event_type),
{
    ClaudeEvent {
        event_type,
        subtype: None,
        session_id: None,
        message: None,
        tool_name: None,
        tool_input: None,
        tool_result_content: None,
        result: None,
        duration_ms: None,
        duration_api_ms: None,
        num_turns: None,
        is_error: None,
        resets_at: None,
        usage: None,
    }
}

fn owned(s: &str) -> (r: String)
    ensures
        r@ == s@,
{
    let mut out = String::new();
    push_str(&mut out, s);
    assert(out@ =~= s@);
    out
}

fn str_member(v: &JsonValue, key: &str) -> (r: Option<String>)
    ensures
        r matches Some(s) ==> Some(s@) == str_at(v@, key@),
        r is None ==> str_at(v@, key@) is None,
{
    match json_get(v, key) {
        Some(x) => match x.as_str() {
            Some(s) => Some(owned(s)),
            None => None,
        },
        None => None,
    }
}

fn str_member_in(v: Option<&JsonValue>, key: &str) -> (r: Option<String>)
    ensures
        r matches Some(s) ==> Some(s@) == as_str(get_in(opt_ref_view(v), key@)),
        r is None ==> as_str(get_in(opt_ref_view(v), key@)) is None,
{
    match v {
        Some(x) => str_member(x, key),
        None => None,
    }
}

/// The view of an optional borrowed value.
pub open spec fn opt_ref_view(v: Option<&JsonValue>) -> Option<JsonView> {
    match v {
        Some(x) => Some(x@),
        None => None,
    }
}

proof fn lemma_block_tags()
    ensures
        "text"@ != "thinking"@,
        "text"@ != "tool_use"@,
        "thinking"@ != "tool_use"@,
        ""@ == Seq::<char>::empty(),
{
    reveal_strlit("");
    reveal_strlit("text");
    reveal_strlit("thinking");
    reveal_strlit("tool_use");
    assert("text"@[1] != "thinking"@[1]);
}

proof fn lemma_line_tags()
    ensures
        "system"@ != "assistant"@,
        "system"@ != "user"@,
        "system"@ != "rate_limit_event"@,
        "system"@ != "result"@,
        "assistant"@ != "user"@,
        "assistant"@ != "rate_limit_event"@,
        "assistant"@ != "result"@,
        "user"@ != "rate_limit_event"@,
        "user"@ != "result"@,
        "rate_limit_event"@ != "result"@,
        ""@ == Seq::<char>::empty(),
{
    reveal_strlit("");
    reveal_strlit("system");
    reveal_strlit("assistant");
    reveal_strlit("user");
    reveal_strlit("rate_limit_event");
    reveal_strlit("result");
    assert("system"@[0] != "assistant"@[0]);
    assert("system"@[0] != "user"@[0]);
    assert("system"@[0] != "rate_limit_event"@[0]);
    assert("system"@[0] != "result"@[0]);
    assert("assistant"@[0] != "user"@[0]);
    assert("assistant"@[0] != "rate_limit_event"@[0]);
    assert("assistant"@[0] != "result"@[0]);
    assert("user"@[0] != "rate_limit_event"@[0]);
    assert("user"@[0] != "result"@[0]);
    assert("rate_limit_event"@.len() != "result"@.len());
}

fn block_event(block: &JsonValue, out: &mut Vec<ClaudeEvent>)
    ensures
        event_views(final(out)@) == event_views(old(out)@) + block_events(block@),
{
    let t = match str_member(block, "type") {
        Some(s) => s,
        None => String::new(),
    };
    let ghost before = old(out)@;
    proof {
        lemma_block_tags();
    }
    if crate::json::str_eq(t.as_str(), "text") {
        let mut ev = empty_event(ClaudeEventType::Assistant);
        ev.subtype = Some(owned("text"));
        ev.message = str_member(block, "text");
        out.push(ev);
    } else if crate::json::str_eq(t.as_str(), "thinking") {
        let mut ev = empty_event(ClaudeEventType::Assistant);
        ev.subtype = Some(owned("thinking"));
        ev.message = Some(owned("[Thinking...]"));
        out.push(ev);
    } else if crate::json::str_eq(t.as_str(), "tool_use") {
        let mut ev = empty_event(ClaudeEventType::ToolUse);
        ev.tool_name = str_member(block, "name");
        ev.tool_input = match json_get(block, "input") {
            Some(x) => Some(copy_json(x)),
            None => None,
        };
        out.push(ev);
    }
    assert(event_views(out@) =~= event_views(before) + block_events(block@));
}

/// Parses one JSON line of an agent session's stream into the events it
/// holds: an assistant message gives one event per text, thinking or tool
/// block, in order.
pub fn parse_claude_event(raw: &JsonValue) -> (r: Vec<ClaudeEvent>)
    ensures
        event_views(r@) == claude_events(raw@),
{
    let t = match str_member(raw, "type") {
        Some(s) => s,
        None => String::new(),
    };
    let mut out: Vec<ClaudeEvent> = Vec::new();
    proof {
        lemma_line_tags();
    }
    if crate::json::str_eq(t.as_str(), "system") {
        let mut ev = empty_event(ClaudeEventType::System);
        ev.subtype = str_member(raw, "subtype");
        ev.session_id = str_member(raw, "session_id");
        out.push(ev);
        assert(event_views(out@) =~= claude_events(raw@));
    } else if crate::json::str_eq(t.as_str(), "assistant") {
        let content = match json_get(raw, "message") {
            Some(m) => json_get(m, "content"),
            None => None,
        };
        if let Some(JsonValue::Array(blocks)) = content {
            let ghost bv = as_array(get_in(get(raw@, "message"@), "content"@))->0;
            assert(bv =~= blocks@.map_values(|b: JsonValue| b@));
            let mut i: usize = 0;
            while i < blocks.len()
                invariant
                    i <= blocks.len(),
                    bv.len() == blocks@.len(),
                    forall|k: int| 0 <= k < bv.len() ==> #[trigger] bv[k] == blocks@[k]@,
                    event_views(out@) == content_events(bv.take(i as int)),
                decreases blocks.len() - i,
            {
                block_event(&blocks[i], &mut out);
                assert(bv.take(i + 1).drop_last() =~= bv.take(i as int));
                i = i + 1;
            }
            assert(bv.take(blocks.len() as int) =~= bv);
        }
    } else if crate::json::str_eq(t.as_str(), "user") {
        match json_get(raw, "tool_use_result") {
            Some(tr) => {
                let mut ev = empty_event(ClaudeEventType::ToolResult);
                ev.tool_result_content = Some(
                    match str_member(tr, "stdout") {
                        Some(s) => s,
                        None => String::new(),
                    },
                );
                out.push(ev);
                assert(event_views(out@) =~= claude_events(raw@));
            },
            None => {},
        }
    } else if crate::json::str_eq(t.as_str(), "rate_limit_event") {
        let info = json_get(raw, "rate_limit_info");
        let status = match str_member_in(info, "status") {
            Some(s) => s,
            None => String::new(),
        };
        let resets = match info {
            Some(i) => match json_get(i, "resetsAt") {
                Some(JsonValue::Number(n)) => {
                    let (secs, nanos) = match n {
                        JsonNumber::PosInt(u) => (
                            if *u <= 9223372036854775807u64 {
                                *u as i64
                            } else {
                                9223372036854775807i64
                            },
                            0u32,
                        ),
                        JsonNumber::NegInt(x) => (*x, 0u32),
                        JsonNumber::Float { whole, nanos } => (*whole, *nanos),
                    };
                    Some(timestamp_rfc3339(secs, nanos))
                },
                _ => None,
            },
            None => None,
        };
        if crate::json::str_eq(status.as_str(), "rate_limited") || crate::json::str_eq(
            status.as_str(),
            "blocked",
        ) {
            let kind = match str_member_in(info, "rateLimitType") {
                Some(s) => s,
                None => owned("unknown"),
            };
            let mut msg = String::new();
            push_str(&mut msg, "Rate limited (");
            push_str(&mut msg, kind.as_str());
            push_str(&mut msg, ")");
            let mut ev = empty_event(ClaudeEventType::Error);
            ev.subtype = Some(owned("rate_limit"));
            ev.message = Some(msg);
            ev.resets_at = resets;
            out.push(ev);
            assert(event_views(out@) =~= claude_events(raw@));
        } else {
            let mut ev = empty_event(ClaudeEventType::System);
            ev.subtype = Some(owned("rate_limit_info"));
            ev.resets_at = resets;
            out.push(ev);
            assert(event_views(out@) =~= claude_events(raw@));
        }
    } else if crate::json::str_eq(t.as_str(), "result") {
        let mut ev = empty_event(ClaudeEventType::Result);
        ev.subtype = str_member(raw, "subtype");
        ev.result = str_member(raw, "result");
        ev.duration_ms = match json_get(raw, "duration_ms") {
            Some(x) => x.as_u64(),
            None => None,
        };
        ev.duration_api_ms = match json_get(raw, "duration_api_ms") {
            Some(x) => x.as_u64(),
            None => None,
        };
        ev.num_turns = match json_get(raw, "num_turns") {
            Some(x) => match x.as_u64() {
                Some(n) => Some(#[verifier::truncate] (n as u32)),
                None => None,
            },
            None => None,
        };
        ev.is_error = match json_get(raw, "is_error") {
            Some(x) => x.as_bool(),
            None => None,
        };
        out.push(ev);
        assert(event_views(out@) =~= claude_events(raw@));
    }
    out
}


// ─── Session options ─────────────────────────────────────────────

/// Options for starting an agent session.
#[derive(Debug)]
pub struct ClaudeSessionOptions {
    pub model: String,
    pub max_turns: Option<u32>,
    pub allowed_tools: Option<Vec<String>>,
    pub append_system_prompt: Option<String>,
    pub cwd: Option<String>,
}

/// The command-line arguments that start a session with `o`.
pub open spec fn session_args(o: ClaudeSessionOptions) -> Seq<Seq<char>> {
    let base = seq![
        "-p"@,
        "--input-format"@,
        "stream-json"@,
        "--output-format"@,
        "stream-json"@,
        "--model"@,
        o.model@,
        "--permission-mode"@,
        "bypassPermissions"@,
    ];
    let turns = match o.max_turns {
        Some(n) => seq!["--max-turns"@, decimal(n as nat)],
        None => Seq::empty(),
    };
    let tools = match o.allowed_tools {
        Some(t) => if t@.len() > 0 {
            seq!["--allowedTools"@, join(views(t@), " "@)]
        } else {
            Seq::empty()
        },
        None => Seq::empty(),
    };
    let prompt = match o.append_system_prompt {
        Some(p) => seq!["--append-system-prompt"@, p@],
        None => Seq::empty(),
    };
    base + turns + tools + prompt
}

/// Builds the command-line arguments that start a session with `options`.
pub fn build_args(options: &ClaudeSessionOptions) -> (r: Vec<String>)
    ensures
        views(r@) == session_args(*options),
{
    let mut args: Vec<String> = Vec::new();
    args.push(owned("-p"));
    args.push(owned("--input-format"));
    args.push(owned("stream-json"));
    args.push(owned("--output-format"));
    args.push(owned("stream-json"));
    args.push(owned("--model"));
    args.push(options.model.clone());
    args.push(owned("--permission-mode"));
    args.push(owned("bypassPermissions"));
    let ghost base = views(args@);
    match options.max_turns {
        Some(n) => {
            args.push(owned("--max-turns"));
            let mut num = String::new();
            push_decimal(&mut num, n as u64);
            assert(num@ =~= decimal(n as nat));
            args.push(num);
        },
        None => {},
    }
    let ghost with_turns = views(args@);
    match &options.allowed_tools {
        Some(tools) => {
            if tools.len() > 0 {
                args.push(owned("--allowedTools"));
                args.push(join_strings(tools, " "));
            }
        },
        None => {},
    }
    let ghost with_tools = views(args@);
    match &options.append_system_prompt {
        Some(p) => {
            args.push(owned("--append-system-prompt"));
            args.push(p.clone());
        },
        None => {},
    }
    assert(views(args@) =~= session_args(*options));
    args
}

// ─── Media types ─────────────────────────────────────────────────

/// The extension of a path, as `std::path::Path::extension` finds it.
pub uninterp spec fn file_extension(path: Seq<char>) -> Option<Seq<char>>;

/// Calls `Path::extension` on `path` (and `OsStr::to_str`, which cannot
/// fail on text that came from a `&str`). The result is named
/// `file_extension` of the path.
#[verifier::external_body]
pub(crate) fn path_extension(path: &str) -> (r: Option<String>)
    ensures
        opt_view_string(r) == file_extension(path@),
{
    std::path::Path::new(path).extension().and_then(|e| e.to_str()).map(|e| e.to_string())
}

/// The characters of an optional string.
pub open spec fn opt_view_string(o: Option<String>) -> Option<Seq<char>> {
    match o {
        Some(s) => Some(s@),
        None => None,
    }
}

/// The MIME type announced for an image whose lowercased extension is `ext`.
pub open spec fn mime_for(ext: Option<Seq<char>>) -> Seq<char> {
    match ext {
        Some(e) => if e == "png"@ {
            "image/png"@
        } else if e == "jpg"@ || e == "jpeg"@ {
            "image/jpeg"@
        } else if e == "gif"@ {
            "image/gif"@
        } else if e == "webp"@ {
            "image/webp"@
        } else if e == "bmp"@ {
            "image/bmp"@
        } else if e == "svg"@ {
            "image/svg+xml"@
        } else if e == "tif"@ || e == "tiff"@ {
            "image/tiff"@
        } else {
            "image/png"@
        },
        None => "image/png"@,
    }
}

/// The lowercased extension of a path.
pub open spec fn lower_extension(path: Seq<char>) -> Option<Seq<char>> {
    match file_extension(path) {
        Some(e) => Some(lowercase(e)),
        None => None,
    }
}

/// The MIME type of an image file, from its extension (PNG when unknown).
pub fn mime_type_from_path(path: &str) -> (r: &'static str)
    ensures
        r@ == mime_for(lower_extension(path@)),
{
    let ext = match path_extension(path) {
        Some(e) => Some(to_lowercase(e.as_str())),
        None => None,
    };
    match ext {
        Some(e) => {
            let e = e.as_str();
            if crate::json::str_eq(e, "png") {
                "image/png"
            } else if crate::json::str_eq(e, "jpg") || crate::json::str_eq(e, "jpeg") {
                "image/jpeg"
            } else if crate::json::str_eq(e, "gif") {
                "image/gif"
            } else if crate::json::str_eq(e, "webp") {
                "image/webp"
            } else if crate::json::str_eq(e, "bmp") {
                "image/bmp"
            } else if crate::json::str_eq(e, "svg") {
                "image/svg+xml"
            } else if crate::json::str_eq(e, "tif") || crate::json::str_eq(e, "tiff") {
                "image/tiff"
            } else {
                "image/png"
            }
        },
        None => "image/png",
    }
}

} // verus!
