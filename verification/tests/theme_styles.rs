use conductor::tui::theme;

#[test]
fn focus_border_color_focused() {
    let t = theme();
    assert_eq!(t.focus_border_color(true), t.accent);
}

#[test]
fn focus_border_color_unfocused() {
    let t = theme();
    assert_eq!(t.focus_border_color(false), t.border);
}

#[test]
fn s_text_returns_primary() {
    let t = theme();
    assert_eq!(t.s_text().fg, Some(t.text_primary));
}

#[test]
fn s_dim_returns_muted() {
    let t = theme();
    assert_eq!(t.s_dim().fg, Some(t.text_muted));
}

#[test]
fn s_accent_returns_accent() {
    let t = theme();
    assert_eq!(t.s_accent().fg, Some(t.accent));
}

#[test]
fn s_success_returns_success() {
    let t = theme();
    assert_eq!(t.s_success().fg, Some(t.success));
}

#[test]
fn s_error_returns_error() {
    let t = theme();
    assert_eq!(t.s_error().fg, Some(t.error));
}

#[test]
fn s_warning_returns_warning() {
    let t = theme();
    assert_eq!(t.s_warning().fg, Some(t.warning));
}

#[test]
fn s_heading_has_accent_and_bold() {
    let t = theme();
    let style = t.s_heading();
    assert_eq!(style.fg, Some(t.accent));
    assert!(style.bold);
}

#[test]
fn s_separator_returns_border() {
    let t = theme();
    assert_eq!(t.s_separator().fg, Some(t.border));
}

#[test]
fn s_label_returns_text_label() {
    let t = theme();
    assert_eq!(t.s_label().fg, Some(t.text_label));
}

#[test]
fn s_surface_sets_bg() {
    let t = theme();
    assert_eq!(t.s_surface().bg, Some(t.surface));
}

#[test]
fn s_surface_elevated_sets_bg() {
    let t = theme();
    assert_eq!(t.s_surface_elevated().bg, Some(t.surface_elevated));
}

#[test]
fn s_tab_active_has_accent_and_bold() {
    let t = theme();
    let style = t.s_tab_active();
    assert_eq!(style.fg, Some(t.accent));
    assert!(style.bold);
}

#[test]
fn s_tab_inactive_returns_muted() {
    let t = theme();
    assert_eq!(t.s_tab_inactive().fg, Some(t.text_muted));
}

#[test]
fn tab_indicator_invisible_returns_empty() {
    let spans = theme().tab_indicator("Orchestra", '1', true, false);
    assert!(spans.is_empty());
}

#[test]
fn tab_indicator_active_formats_correctly() {
    let t = theme();
    let spans = t.tab_indicator("Orchestra", '1', true, true);
    assert_eq!(spans.len(), 1);
    assert_eq!(spans[0].0, "[1]Orchestra");
    assert_eq!(spans[0].1.fg, Some(t.accent));
    assert!(spans[0].1.bold);
}

#[test]
fn tab_indicator_inactive_formats_correctly() {
    let t = theme();
    let spans = t.tab_indicator("Log", '2', false, true);
    assert_eq!(spans.len(), 1);
    assert_eq!(spans[0].0, "[2]Log");
    assert_eq!(spans[0].1.fg, Some(t.text_muted));
}

#[test]
fn tab_indicator_inactive_is_not_bold() {
    let spans = theme().tab_indicator("Log", '2', false, true);
    assert!(!spans[0].1.bold);
}
