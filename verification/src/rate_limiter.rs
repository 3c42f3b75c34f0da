//! Rate-limit detection and recovery.
//!
//! A rate limit is seen in three ways: a `rate_limit` error event in the
//! stream, a failed result whose text reports one, or stderr text that
//! reports one. On detection the limiter turns `Limited` and starts a probe
//! countdown that the interface shows.
use crate::bridge::{mentions_rate_limit, rate_limit_text};
use crate::events::{opt_view, ClaudeEvent, EventView};
use crate::json::str_eq;
use crate::state::{ClaudeEventType, RateLimitState, RateLimitStatus};
use crate::text::lowercase;
use vstd::prelude::*;

verus! {

/// Probe interval used when none is given: thirty seconds.
pub const DEFAULT_PROBE_INTERVAL_MS: u64 = 30000;

/// Rate-limit detector and state tracker, owned by the orchestra.
pub struct RateLimiter {
    state: RateLimitState,
    probe_interval_ms: u64,
}

/// A rate limiter as plain values.
pub ghost struct LimiterView {
    pub status: RateLimitStatus,
    pub resets_at: Option<Seq<char>>,
    pub last_probe_at: Option<Seq<char>>,
    pub probe_count: u32,
    pub next_probe_in: Option<u64>,
    pub probe_interval_ms: u64,
}

/// The plain values of a rate-limit state, with the limiter's interval.
pub open spec fn state_view(s: RateLimitState, interval: u64) -> LimiterView {
    LimiterView {
        status: s.status,
        resets_at: opt_view(s.resets_at),
        last_probe_at: opt_view(s.last_probe_at),
        probe_count: s.probe_count,
        next_probe_in: s.next_probe_in,
        probe_interval_ms: interval,
    }
}

impl View for RateLimiter {
    type V = LimiterView;

    closed spec fn view(&self) -> LimiterView {
        state_view(self.state, self.probe_interval_ms)
    }
}

/// The state right after a new rate limit is detected.
pub open spec fn limited_view(interval: u64, resets_at: Option<Seq<char>>) -> LimiterView {
    LimiterView {
        status: RateLimitStatus::Limited,
        resets_at,
        last_probe_at: None,
        probe_count: 0,
        next_probe_in: Some(interval),
        probe_interval_ms: interval,
    }
}

/// The countdown after `delta` milliseconds, stopping at zero.
pub open spec fn countdown_after(next: Option<u64>, delta: u64) -> Option<u64> {
    match next {
        Some(x) => Some(if x > delta { (x - delta) as u64 } else { 0u64 }),
        None => None,
    }
}

/// The rate limit an event reports, if any, with the reset time it gives.
pub open spec fn limit_signal(e: EventView) -> Option<Option<Seq<char>>> {
    if e.event_type == ClaudeEventType::Error && e.subtype == Some("rate_limit"@) {
        Some(e.resets_at)
    } else if e.event_type == ClaudeEventType::Result && e.is_error == Some(true) && e.result is Some
        && mentions_rate_limit(lowercase(e.result->0)) {
        Some(None)
    } else {
        None
    }
}

/// What a detection does to the limiter: a new limit unless already limited.
pub open spec fn detected(old: LimiterView, new: LimiterView, resets_at: Option<Seq<char>>, r: bool) -> bool {
    if old.status == RateLimitStatus::Limited {
        !r && new == old
    } else {
        r && new == limited_view(old.probe_interval_ms, resets_at)
    }
}

/// Calls `chrono::Utc::now` and `DateTime::to_rfc3339`: the current time.
/// Nothing is stated of the result, which depends on the clock.
#[verifier::external_body]
pub(crate) fn now_rfc3339() -> String {
    chrono::Utc::now().to_rfc3339()
}

fn copy_opt_string(o: &Option<String>) -> (r: Option<String>)
    ensures
        opt_view(r) == opt_view(*o),
{
    match o {
        Some(s) => Some(s.clone()),
        None => None,
    }
}

impl RateLimiter {
    /// A limiter in the available state with the given probe interval
    /// (thirty seconds when none is given).
    pub fn new(probe_interval_ms: Option<u64>) -> (r: Self)
        ensures
            r@.status == RateLimitStatus::Available,
            r@.resets_at is None,
            r@.last_probe_at is None,
            r@.probe_count == 0,
            r@.next_probe_in is None,
            r@.probe_interval_ms == match probe_interval_ms {
                Some(ms) => ms,
                None => DEFAULT_PROBE_INTERVAL_MS,
            },
    {
        let interval = match probe_interval_ms {
            Some(ms) => ms,
            None => DEFAULT_PROBE_INTERVAL_MS,
        };
        RateLimiter { state: RateLimitState::default(), probe_interval_ms: interval }
    }

    /// The current rate-limit state.
    pub fn state(&self) -> (r: &RateLimitState)
        ensures
            state_view(*r, self@.probe_interval_ms) == self@,
    {
        &self.state
    }

    /// Whether the limiter is currently limited.
    pub fn is_limited(&self) -> (r: bool)
        ensures
            r == (self@.status == RateLimitStatus::Limited),
    {
        self.state.status == RateLimitStatus::Limited
    }

    /// Processes an event of an agent session; returns whether it reported
    /// a new rate limit.
    pub fn handle_event(&mut self, event: &ClaudeEvent) -> (r: bool)
        ensures
            match limit_signal(event@) {
                Some(resets_at) => detected(old(self)@, final(self)@, resets_at, r),
                None => !r && final(self)@ == old(self)@,
            },
    {
        let explicit = event.event_type == ClaudeEventType::Error && match &event.subtype {
            Some(s) => str_eq(s.as_str(), "rate_limit"),
            None => false,
        };
        if explicit {
            let resets = copy_opt_string(&event.resets_at);
            return self.on_limited(resets);
        }
        let failed = event.event_type == ClaudeEventType::Result && match event.is_error {
            Some(b) => b,
            None => false,
        } && match &event.result {
            Some(text) => rate_limit_text(text.as_str()),
            None => false,
        };
        if failed {
            return self.on_limited(None);
        }
        false
    }

    /// Processes stderr output of a agent CLI process; returns whether it
    /// reported a new rate limit.
    pub fn handle_stderr(&mut self, stderr: &str) -> (r: bool)
        ensures
            mentions_rate_limit(lowercase(stderr@)) ==> detected(old(self)@, final(self)@, None, r),
            !mentions_rate_limit(lowercase(stderr@)) ==> !r && final(self)@ == old(self)@,
    {
        if is_rate_limit_message(stderr) {
            return self.on_limited(None);
        }
        false
    }

    /// Marks the limit as resolved.
    pub fn mark_available(&mut self)
        ensures
            final(self)@ == (LimiterView {
                status: RateLimitStatus::Available,
                resets_at: None,
                next_probe_in: None,
                ..old(self)@
            }),
    {
        self.state.status = RateLimitStatus::Available;
        self.state.resets_at = None;
        self.state.next_probe_in = None;
    }

    /// Records a failed probe: counts it, stamps it and restarts the
    /// countdown.
    pub fn record_probe_failure(&mut self)
        requires
            old(self)@.probe_count < u32::MAX,
        ensures
            final(self)@.probe_count == old(self)@.probe_count + 1,
            final(self)@.last_probe_at is Some,
            final(self)@.next_probe_in == Some(old(self)@.probe_interval_ms),
            final(self)@.status == old(self)@.status,
            final(self)@.resets_at == old(self)@.resets_at,
            final(self)@.probe_interval_ms == old(self)@.probe_interval_ms,
    {
        self.state.probe_count = self.state.probe_count + 1;
        self.state.last_probe_at = Some(now_rfc3339());
        self.state.next_probe_in = Some(self.probe_interval_ms);
    }

    /// Records a successful probe: counts it, stamps it and marks the limit
    /// as resolved.
    pub fn record_probe_success(&mut self)
        requires
            old(self)@.probe_count < u32::MAX,
        ensures
            final(self)@.status == RateLimitStatus::Available,
            final(self)@.resets_at is None,
            final(self)@.next_probe_in is None,
            final(self)@.probe_count == old(self)@.probe_count + 1,
            final(self)@.last_probe_at is Some,
            final(self)@.probe_interval_ms == old(self)@.probe_interval_ms,
    {
        self.state.probe_count = self.state.probe_count + 1;
        self.state.last_probe_at = Some(now_rfc3339());
        self.mark_available();
    }

    /// Advances the probe countdown by `delta_ms`, stopping at zero.
    pub fn tick(&mut self, delta_ms: u64)
        ensures
            final(self)@ == (LimiterView {
                next_probe_in: countdown_after(old(self)@.next_probe_in, delta_ms),
                ..old(self)@
            }),
    {
        match self.state.next_probe_in {
            Some(remaining) => {
                let left = if remaining > delta_ms { remaining - delta_ms } else { 0 };
                self.state.next_probe_in = Some(left);
            },
            None => {},
        }
    }

    /// The probe interval in milliseconds.
    pub fn probe_interval_ms(&self) -> (r: u64)
        ensures
            r == self@.probe_interval_ms,
    {
        self.probe_interval_ms
    }

    fn on_limited(&mut self, resets_at: Option<String>) -> (r: bool)
        ensures
            detected(old(self)@, final(self)@, opt_view(resets_at), r),
    {
        if self.state.status == RateLimitStatus::Limited {
            return false;
        }
        self.state = RateLimitState {
            status: RateLimitStatus::Limited,
            resets_at,
            last_probe_at: None,
            probe_count: 0,
            next_probe_in: Some(self.probe_interval_ms),
        };
        true
    }
}

/// Whether `text` reports a rate limit, ignoring case.
pub fn is_rate_limit_message(text: &str) -> (r: bool)
    ensures
        r == mentions_rate_limit(lowercase(text@)),
{
    rate_limit_text(text)
}

/// Two countdown steps take as long as one step of their sum.
pub proof fn lemma_tick_composes(next: Option<u64>, a: u64, b: u64)
    requires
        a + b <= u64::MAX,
    ensures
        countdown_after(countdown_after(next, a), b) == countdown_after(next, (a + b) as u64),
{
}

/// After a detection the limiter is limited, and a second detection while
/// limited reports nothing and changes nothing.
pub proof fn lemma_detect_once(old: LimiterView, mid: LimiterView, resets_at: Option<Seq<char>>, r1: bool, new: LimiterView, r2: bool)
    requires
        detected(old, mid, resets_at, r1),
        detected(mid, new, resets_at, r2),
    ensures
        mid.status == RateLimitStatus::Limited,
        !r2,
        new == mid,
{
}

} // verus!
