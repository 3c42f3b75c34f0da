use conductor::state::{MusicianStatus, OrchestraPhase, TaskStatus};
use conductor::tui::{
    elapsed, phase_display, separator_char, separator_dot, separator_line, status_display,
    strip_control_chars, task_viz, theme, trunc, C_ACTIVE, C_BRAND, C_ERROR, C_FRAME,
};

#[test]
fn elapsed_zero() {
    assert_eq!(elapsed(0), "0s");
}

#[test]
fn elapsed_seconds() {
    assert_eq!(elapsed(5000), "5s");
}

#[test]
fn elapsed_minutes() {
    assert_eq!(elapsed(65000), "1m05s");
}

#[test]
fn elapsed_hours() {
    assert_eq!(elapsed(3661000), "1h1m");
}

#[test]
fn elapsed_two_digit_seconds() {
    assert_eq!(elapsed(754_000), "12m34s");
    assert_eq!(elapsed(999), "0s");
}

#[test]
fn trunc_short() {
    assert_eq!(trunc("hello", 10), "hello");
}

#[test]
fn trunc_exact() {
    assert_eq!(trunc("hello", 5), "hello");
}

#[test]
fn trunc_long() {
    assert_eq!(trunc("hello world", 8), "hello w…");
}

#[test]
fn trunc_max_one() {
    assert_eq!(trunc("ab", 1), "…");
}

#[test]
fn trunc_max_zero() {
    assert_eq!(trunc("ab", 0), "…");
    assert_eq!(trunc("", 0), "");
}

#[test]
fn phase_display_init() {
    let d = phase_display(&OrchestraPhase::Init);
    assert_eq!(d.sym, '○');
    assert_eq!(d.color, theme().text_muted);
}

#[test]
fn phase_display_executing() {
    let d = phase_display(&OrchestraPhase::Executing);
    assert_eq!(d.sym, '●');
    assert_eq!(d.color, theme().success);
}

#[test]
fn phase_display_complete() {
    let d = phase_display(&OrchestraPhase::Complete);
    assert_eq!(d.sym, '✓');
    assert_eq!(d.color, theme().success);
}

#[test]
fn phase_display_failed() {
    let d = phase_display(&OrchestraPhase::Failed);
    assert_eq!(d.sym, '✗');
    assert_eq!(d.color, theme().error);
}

#[test]
fn phase_display_plan_review() {
    let d = phase_display(&OrchestraPhase::PlanReview);
    assert_eq!(d.sym, '◈');
    assert_eq!(d.color, theme().accent);
}

#[test]
fn status_display_idle() {
    let d = status_display(&MusicianStatus::Idle);
    assert_eq!(d.label, "IDLE");
    assert_eq!(d.dot, '○');
    assert_eq!(d.color, theme().text_muted);
}

#[test]
fn status_display_running() {
    let d = status_display(&MusicianStatus::Running);
    assert_eq!(d.label, "ACTIVE");
    assert_eq!(d.dot, '●');
    assert_eq!(d.color, theme().success);
}

#[test]
fn status_display_waiting() {
    let d = status_display(&MusicianStatus::Waiting);
    assert_eq!(d.label, "WAIT");
    assert_eq!(d.dot, '◎');
    assert_eq!(d.color, theme().warning);
}

#[test]
fn status_display_paused() {
    let d = status_display(&MusicianStatus::Paused);
    assert_eq!(d.label, "PAUSE");
    assert_eq!(d.dot, '◎');
    assert_eq!(d.color, theme().error);
}

#[test]
fn status_display_completed() {
    let d = status_display(&MusicianStatus::Completed);
    assert_eq!(d.label, "DONE");
    assert_eq!(d.dot, '✓');
    assert_eq!(d.color, theme().success);
}

#[test]
fn status_display_failed() {
    let d = status_display(&MusicianStatus::Failed);
    assert_eq!(d.label, "FAIL");
    assert_eq!(d.dot, '✗');
    assert_eq!(d.color, theme().error);
}

#[test]
fn task_viz_dots() {
    assert_eq!(task_viz(&TaskStatus::InProgress).dot, '●');
    assert_eq!(task_viz(&TaskStatus::Ready).color, theme().warning);
    assert_eq!(task_viz(&TaskStatus::Review).color, theme().accent);
    assert_eq!(task_viz(&TaskStatus::Blocked).dot, '×');
}

#[test]
fn output_line_prefix_colors() {
    let t = theme();
    assert_eq!(t.prefix_color("[USER] hello"), Some(t.accent));
    assert_eq!(t.prefix_color("> some output"), Some(t.text_muted));
    assert_eq!(t.prefix_color("ERROR: something failed"), Some(t.error));
    assert_eq!(t.prefix_color("plain"), None);
}

#[test]
fn focus_border_color_follows_focus() {
    let t = theme();
    assert_eq!(t.focus_border_color(true), t.accent);
    assert_eq!(t.focus_border_color(false), t.border);
}

#[test]
fn style_helpers() {
    let t = theme();
    assert_eq!(t.s_text().fg, Some(t.text_primary));
    assert_eq!(t.s_dim().fg, Some(t.text_muted));
    assert_eq!(t.s_accent().fg, Some(t.accent));
    assert_eq!(t.s_success().fg, Some(t.success));
    assert_eq!(t.s_error().fg, Some(t.error));
    assert_eq!(t.s_warning().fg, Some(t.warning));
    assert!(t.s_heading().bold);
    assert_eq!(t.s_separator().fg, Some(t.border));
    assert_eq!(t.s_label().fg, Some(t.text_label));
    assert_eq!(t.s_surface().bg, Some(t.surface));
    assert_eq!(t.s_surface_elevated().bg, Some(t.surface_elevated));
    assert!(t.s_tab_active().bold);
    assert_eq!(t.s_tab_inactive().fg, Some(t.text_muted));
}

#[test]
fn tab_indicator_formats() {
    let t = theme();
    assert!(t.tab_indicator("Orchestra", '1', true, false).is_empty());
    let spans = t.tab_indicator("Orchestra", '1', true, true);
    assert_eq!(spans.len(), 1);
    assert_eq!(spans[0].0, "[1]Orchestra");
    assert_eq!(spans[0].1.fg, Some(t.accent));
    assert!(spans[0].1.bold);
    let spans = t.tab_indicator("Log", '2', false, true);
    assert_eq!(spans[0].0, "[2]Log");
    assert_eq!(spans[0].1.fg, Some(t.text_muted));
    assert!(!spans[0].1.bold);
}

#[test]
fn separator_line_zero() {
    assert_eq!(separator_line(0), "");
}

#[test]
fn separator_line_repeats() {
    assert_eq!(separator_line(3), "───");
}

#[test]
fn separator_char_is_thin_line() {
    assert_eq!(separator_char(), "─");
}

#[test]
fn separator_dot_is_middle_dot() {
    assert_eq!(separator_dot(), "·");
}

#[test]
fn surface_elevated_is_distinct_from_surface() {
    assert_ne!(theme().surface_elevated, theme().surface);
}

#[test]
fn accent_dim_is_distinct_from_accent() {
    assert_ne!(theme().accent_dim, theme().accent);
}

#[test]
fn border_focus_is_distinct_from_border() {
    assert_ne!(theme().border_focus, theme().border);
}

#[test]
fn text_label_is_distinct_from_muted_and_secondary() {
    assert_ne!(theme().text_label, theme().text_muted);
    assert_ne!(theme().text_label, theme().text_secondary);
}

#[test]
fn legacy_c_brand_equals_accent() {
    assert_eq!(C_BRAND, theme().accent);
}

#[test]
fn legacy_c_active_equals_success() {
    assert_eq!(C_ACTIVE, theme().success);
}

#[test]
fn legacy_c_error_equals_error() {
    assert_eq!(C_ERROR, theme().error);
}

#[test]
fn legacy_c_frame_equals_border() {
    assert_eq!(C_FRAME, theme().border);
}

#[test]
fn strip_control_chars_removes_ansi_and_controls() {
    assert_eq!(strip_control_chars("\u{1b}[31mred\u{1b}[0m text"), "red text");
    assert_eq!(strip_control_chars("a\u{7}b\tc\nd"), "ab\tc\nd");
    assert_eq!(strip_control_chars("\u{1b}x"), "x");
    assert_eq!(strip_control_chars("\u{1b}[12"), "");
}

#[test]
fn strip_control_chars_is_idempotent_and_keeps_clean_text() {
    let once = strip_control_chars("a\u{7}b\u{1b}[1;32mc\td\ne\u{1b}x");
    assert_eq!(once, "abc\td\nex");
    assert_eq!(strip_control_chars(&once), once);
    assert_eq!(strip_control_chars("plain\ttext\n"), "plain\ttext\n");
}
