use conductor::state::OrchestraPhase;
use conductor::tui::{get_layout_config, word_left, word_right, Tab, UiState};

#[test]
fn tab_keys_round_trip() {
    for tab in Tab::all() {
        assert_eq!(Tab::from_key(tab.key()), Some(tab));
    }
    assert_eq!(Tab::from_key('6'), None);
    assert_eq!(Tab::Plan.label(), "Plan");
}

#[test]
fn tab_visibility_by_phase() {
    assert!(Tab::Orchestra.is_visible(&OrchestraPhase::Init));
    assert!(!Tab::Plan.is_visible(&OrchestraPhase::Init));
    assert!(Tab::Plan.is_visible(&OrchestraPhase::PlanReview));
    assert!(!Tab::Stats.is_visible(&OrchestraPhase::PlanReview));
    assert!(Tab::Stats.is_visible(&OrchestraPhase::Paused));
    assert!(!Tab::Diff.is_visible(&OrchestraPhase::Paused));
    assert!(Tab::Diff.is_visible(&OrchestraPhase::Complete));
}

#[test]
fn auto_switch_targets_are_visible() {
    assert_eq!(Tab::auto_switch(&OrchestraPhase::PlanReview), Some(Tab::Plan));
    assert_eq!(Tab::auto_switch(&OrchestraPhase::Integrating), Some(Tab::Diff));
    assert_eq!(Tab::auto_switch(&OrchestraPhase::Failed), Some(Tab::Log));
    assert_eq!(Tab::auto_switch(&OrchestraPhase::Planning), None);
    let tab = Tab::auto_switch(&OrchestraPhase::Complete).unwrap();
    assert!(tab.is_visible(&OrchestraPhase::Complete));
}

#[test]
fn ui_state_starts_at_rest() {
    let ui = UiState::new(120, 40);
    assert_eq!(ui.active_tab, Tab::Orchestra);
    assert_eq!(ui.focused_panel(), 0);
    assert_eq!(ui.scroll_offset(), 0);
    assert_eq!(ui.plan_selected(), 0);
    assert!(!ui.focus_mode());
    assert_eq!(ui.show_task_detail(), None);
    assert!(ui.show_insights);
    assert_eq!(ui.layout_config, get_layout_config(120, 40));
}

#[test]
fn scroll_offset_follows_tab() {
    let mut ui = UiState::new(120, 40);
    ui.tab_state.orchestra.conductor_scroll = 7;
    assert_eq!(ui.scroll_offset(), 7);
    ui.tab_state.orchestra.musician_scroll = vec![3, 4];
    ui.tab_state.orchestra.focused_musician = 1;
    assert_eq!(ui.scroll_offset(), 4);
    ui.active_tab = Tab::Plan;
    ui.tab_state.plan.plan_scroll = 9;
    assert_eq!(ui.scroll_offset(), 9);
    ui.tab_state.plan.task_detail = Some(0);
    ui.tab_state.plan.task_detail_scroll = 2;
    assert_eq!(ui.scroll_offset(), 2);
    ui.active_tab = Tab::Log;
    ui.tab_state.log.log_scroll = 11;
    assert_eq!(ui.scroll_offset(), 11);
}

#[test]
fn word_motions() {
    let input = "hello big  world";
    let mut c = input.len();
    word_left(&mut c, input);
    assert_eq!(c, 11);
    word_left(&mut c, input);
    assert_eq!(c, 6);
    word_left(&mut c, input);
    assert_eq!(c, 0);
    word_left(&mut c, input);
    assert_eq!(c, 0);
    word_right(&mut c, input);
    assert_eq!(c, 6);
    word_right(&mut c, input);
    assert_eq!(c, 11);
    word_right(&mut c, input);
    assert_eq!(c, input.len());
}
