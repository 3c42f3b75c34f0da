use conductor::bridge::empty_event;
use conductor::rate_limiter::{is_rate_limit_message, RateLimiter};
use conductor::state::{ClaudeEventType, RateLimitStatus};

#[test]
fn detects_429_status_code() {
    assert!(is_rate_limit_message("Error 429: Too Many Requests"));
}

#[test]
fn detects_rate_limit_text() {
    assert!(is_rate_limit_message("You have been rate limited"));
}

#[test]
fn detects_too_many_requests() {
    assert!(is_rate_limit_message("Too many requests, please slow down"));
}

#[test]
fn detects_rate_limit_underscore_variant() {
    assert!(is_rate_limit_message("rate_limit_exceeded"));
}

#[test]
fn is_case_insensitive() {
    assert!(is_rate_limit_message("RATE LIMIT exceeded"));
}

#[test]
fn returns_false_for_normal_errors() {
    assert!(!is_rate_limit_message("Internal server error"));
    assert!(!is_rate_limit_message("Connection refused"));
    assert!(!is_rate_limit_message(""));
}

#[test]
fn handle_event_detects_rate_limit_error() {
    let mut rl = RateLimiter::new(None);
    let mut event = empty_event(ClaudeEventType::Error);
    event.subtype = Some("rate_limit".into());
    event.resets_at = Some("2026-01-01T00:05:00Z".into());
    assert!(rl.handle_event(&event));
    assert!(rl.is_limited());
    assert_eq!(rl.state().resets_at.as_deref(), Some("2026-01-01T00:05:00Z"));
}

#[test]
fn handle_event_does_not_double_trigger() {
    let mut rl = RateLimiter::new(None);
    let mut event = empty_event(ClaudeEventType::Error);
    event.subtype = Some("rate_limit".into());
    assert!(rl.handle_event(&event));
    assert!(!rl.handle_event(&event));
}

#[test]
fn probe_success_resets_state() {
    let mut rl = RateLimiter::new(None);
    assert!(rl.handle_stderr("Error 429"));
    assert!(rl.is_limited());
    rl.record_probe_success();
    assert!(!rl.is_limited());
    assert_eq!(rl.state().status, RateLimitStatus::Available);
}

#[test]
fn tick_decrements_countdown() {
    let mut rl = RateLimiter::new(Some(10_000));
    rl.handle_stderr("429");
    assert_eq!(rl.state().next_probe_in, Some(10_000));
    rl.tick(3_000);
    assert_eq!(rl.state().next_probe_in, Some(7_000));
    rl.tick(10_000);
    assert_eq!(rl.state().next_probe_in, Some(0));
}

#[test]
fn failed_result_with_rate_limit_text_limits() {
    let mut rl = RateLimiter::new(Some(5));
    let mut event = empty_event(ClaudeEventType::Result);
    event.is_error = Some(true);
    event.result = Some("API Error: Rate limit reached".into());
    assert!(rl.handle_event(&event));
    assert_eq!(rl.state().next_probe_in, Some(5));
    assert_eq!(rl.state().probe_count, 0);
    assert!(rl.state().resets_at.is_none());
}

#[test]
fn successful_result_does_not_limit() {
    let mut rl = RateLimiter::new(None);
    let mut event = empty_event(ClaudeEventType::Result);
    event.is_error = Some(false);
    event.result = Some("rate limit discussion finished".into());
    assert!(!rl.handle_event(&event));
    assert!(!rl.is_limited());
}

#[test]
fn default_probe_interval_is_thirty_seconds() {
    let rl = RateLimiter::new(None);
    assert_eq!(rl.probe_interval_ms(), 30_000);
    assert_eq!(rl.state().status, RateLimitStatus::Available);
}

#[test]
fn probe_failure_counts_and_restarts_countdown() {
    let mut rl = RateLimiter::new(Some(1_000));
    rl.handle_stderr("429");
    rl.tick(400);
    rl.record_probe_failure();
    assert_eq!(rl.state().probe_count, 1);
    assert_eq!(rl.state().next_probe_in, Some(1_000));
    assert!(rl.state().last_probe_at.is_some());
    assert!(rl.is_limited());
}

#[test]
fn mark_available_clears_countdown() {
    let mut rl = RateLimiter::new(None);
    rl.handle_stderr("too many requests");
    rl.mark_available();
    assert!(!rl.is_limited());
    assert!(rl.state().next_probe_in.is_none());
    // a new signal limits again
    assert!(rl.handle_stderr("429"));
}

#[test]
fn tick_without_countdown_does_nothing() {
    let mut rl = RateLimiter::new(None);
    rl.tick(100);
    assert!(rl.state().next_probe_in.is_none());
}

#[test]
fn tick_steps_compose() {
    let mut a = RateLimiter::new(Some(10_000));
    let mut b = RateLimiter::new(Some(10_000));
    a.handle_stderr("429");
    b.handle_stderr("429");
    a.tick(2_500);
    a.tick(4_000);
    b.tick(6_500);
    assert_eq!(a.state().next_probe_in, b.state().next_probe_in);
}
