use conductor::events::UserAction;
use conductor::keys::{
    handle_arrow_key, handle_key, is_navigation_key, slash_commands, submit_input,
    word_delete_forward, KeyCode, KeyCommand, KeyEvent,
};
use conductor::state::OrchestraPhase;
use conductor::tui::{Tab, UiState};

fn key(code: KeyCode) -> KeyEvent {
    KeyEvent { code, ctrl: false, alt: false }
}

fn ctrl(c: char) -> KeyEvent {
    KeyEvent { code: KeyCode::Char(c), ctrl: true, alt: false }
}

fn type_text(ui: &mut UiState, text: &str, phase: OrchestraPhase) {
    for c in text.chars() {
        handle_key(key(KeyCode::Char(c)), ui, phase, 0, 0);
    }
}

#[test]
fn typing_inserts_at_cursor() {
    let mut ui = UiState::new(100, 30);
    type_text(&mut ui, "helo", OrchestraPhase::Init);
    handle_key(key(KeyCode::Left), &mut ui, OrchestraPhase::Init, 0, 0);
    handle_key(key(KeyCode::Char('l')), &mut ui, OrchestraPhase::Init, 0, 0);
    assert_eq!(ui.prompt_input, "hello");
    assert_eq!(ui.prompt_cursor, 4);
}

#[test]
fn backspace_removes_whole_character() {
    let mut ui = UiState::new(100, 30);
    // 'é' takes bytes 1 and 2; the byte before the cursor starts it
    ui.prompt_input = "aé".to_string();
    ui.prompt_cursor = 2;
    handle_key(key(KeyCode::Backspace), &mut ui, OrchestraPhase::Init, 0, 0);
    assert_eq!(ui.prompt_input, "a");
    assert_eq!(ui.prompt_cursor, 1);
}

#[test]
fn ctrl_w_deletes_previous_word() {
    let mut ui = UiState::new(100, 30);
    type_text(&mut ui, "one two  ", OrchestraPhase::Init);
    handle_key(ctrl('w'), &mut ui, OrchestraPhase::Init, 0, 0);
    assert_eq!(ui.prompt_input, "one ");
    assert_eq!(ui.prompt_cursor, 4);
}

#[test]
fn ctrl_a_e_u_move_and_clear() {
    let mut ui = UiState::new(100, 30);
    type_text(&mut ui, "abc", OrchestraPhase::Init);
    handle_key(ctrl('a'), &mut ui, OrchestraPhase::Init, 0, 0);
    assert_eq!(ui.prompt_cursor, 0);
    handle_key(ctrl('e'), &mut ui, OrchestraPhase::Init, 0, 0);
    assert_eq!(ui.prompt_cursor, 3);
    handle_key(ctrl('u'), &mut ui, OrchestraPhase::Init, 0, 0);
    assert_eq!(ui.prompt_input, "");
    assert_eq!(ui.prompt_cursor, 0);
}

#[test]
fn enter_submits_task_and_keeps_history() {
    let mut ui = UiState::new(100, 30);
    type_text(&mut ui, "build it", OrchestraPhase::Init);
    let out = handle_key(key(KeyCode::Enter), &mut ui, OrchestraPhase::Init, 0, 0);
    assert!(!out.quit);
    assert_eq!(out.persist, Some("build it".to_string()));
    match out.command {
        KeyCommand::Send(UserAction::SubmitTask { text, images }) => {
            assert_eq!(text, "build it");
            assert!(images.is_none());
        }
        other => panic!("unexpected command {:?}", other),
    }
    assert_eq!(ui.prompt_input, "");
    assert_eq!(ui.prompt_history, vec!["build it".to_string()]);
}

#[test]
fn enter_during_plan_review_refines_and_elsewhere_guides() {
    let mut ui = UiState::new(100, 30);
    type_text(&mut ui, "more tests", OrchestraPhase::PlanReview);
    let out = handle_key(key(KeyCode::Enter), &mut ui, OrchestraPhase::PlanReview, 0, 0);
    assert!(matches!(out.command, KeyCommand::Send(UserAction::RefinePlan { .. })));
    type_text(&mut ui, "hurry", OrchestraPhase::Executing);
    let out = handle_key(key(KeyCode::Enter), &mut ui, OrchestraPhase::Executing, 0, 0);
    assert!(matches!(out.command, KeyCommand::Send(UserAction::SubmitGuidance { .. })));
}

#[test]
fn slash_quit_quits_without_saving() {
    let mut ui = UiState::new(100, 30);
    type_text(&mut ui, "/quit", OrchestraPhase::Init);
    let out = handle_key(key(KeyCode::Enter), &mut ui, OrchestraPhase::Init, 0, 0);
    assert!(out.quit);
    assert!(out.persist.is_none());
    assert!(matches!(out.command, KeyCommand::Send(UserAction::Quit)));
    assert!(ui.prompt_history.is_empty());
}

#[test]
fn slash_help_toggles_help() {
    let mut ui = UiState::new(100, 30);
    type_text(&mut ui, "/help", OrchestraPhase::Init);
    handle_key(key(KeyCode::Enter), &mut ui, OrchestraPhase::Init, 0, 0);
    assert!(ui.show_help);
    // any of Esc, ? or q closes the overlay
    handle_key(key(KeyCode::Char('q')), &mut ui, OrchestraPhase::Init, 0, 0);
    assert!(!ui.show_help);
    assert!(ui.needs_clear);
}

#[test]
fn slash_resume_with_and_without_argument() {
    let mut ui = UiState::new(100, 30);
    type_text(&mut ui, "/resume  abc12 ", OrchestraPhase::Init);
    let out = handle_key(key(KeyCode::Enter), &mut ui, OrchestraPhase::Init, 0, 0);
    match out.command {
        KeyCommand::ResolveSession(id) => assert_eq!(id, "abc12"),
        other => panic!("unexpected command {:?}", other),
    }
    type_text(&mut ui, "/resume", OrchestraPhase::Init);
    let out = handle_key(key(KeyCode::Enter), &mut ui, OrchestraPhase::Init, 0, 0);
    assert!(matches!(out.command, KeyCommand::ListSessions));
    assert!(ui.show_sessions);
    assert_eq!(ui.session_selected, 0);
}

#[test]
fn tab_completes_unique_slash_command() {
    let mut ui = UiState::new(100, 30);
    type_text(&mut ui, "/he", OrchestraPhase::Init);
    handle_key(key(KeyCode::Tab), &mut ui, OrchestraPhase::Init, 0, 0);
    assert_eq!(ui.prompt_input, "/help");
    assert_eq!(ui.prompt_cursor, 5);
    let mut ui = UiState::new(100, 30);
    type_text(&mut ui, "/res  x", OrchestraPhase::Init);
    handle_key(key(KeyCode::Tab), &mut ui, OrchestraPhase::Init, 0, 0);
    assert_eq!(ui.prompt_input, "/resume x");
    // "/q" extends nothing but itself, "/quit" is the one extension
    let mut ui = UiState::new(100, 30);
    type_text(&mut ui, "/q", OrchestraPhase::Init);
    handle_key(key(KeyCode::Tab), &mut ui, OrchestraPhase::Init, 0, 0);
    assert_eq!(ui.prompt_input, "/quit");
    // a bare slash matches every command: nothing is completed
    let mut ui = UiState::new(100, 30);
    type_text(&mut ui, "/", OrchestraPhase::Init);
    handle_key(key(KeyCode::Tab), &mut ui, OrchestraPhase::Init, 0, 0);
    assert_eq!(ui.prompt_input, "/");
}

#[test]
fn history_up_and_down_restore_the_draft() {
    let mut ui = UiState::new(100, 30);
    ui.prompt_history = vec!["first".to_string(), "second".to_string()];
    type_text(&mut ui, "notes", OrchestraPhase::Init);
    handle_key(key(KeyCode::Up), &mut ui, OrchestraPhase::Init, 0, 0);
    assert_eq!(ui.prompt_input, "second");
    assert_eq!(ui.history_index, Some(1));
    handle_key(key(KeyCode::Up), &mut ui, OrchestraPhase::Init, 0, 0);
    assert_eq!(ui.prompt_input, "first");
    handle_key(key(KeyCode::Up), &mut ui, OrchestraPhase::Init, 0, 0);
    assert_eq!(ui.prompt_input, "first");
    handle_key(key(KeyCode::Down), &mut ui, OrchestraPhase::Init, 0, 0);
    assert_eq!(ui.prompt_input, "second");
    handle_key(key(KeyCode::Down), &mut ui, OrchestraPhase::Init, 0, 0);
    assert_eq!(ui.prompt_input, "notes");
    assert_eq!(ui.history_index, None);
    assert_eq!(ui.prompt_cursor, 5);
}

#[test]
fn esc_then_b_moves_back_a_word() {
    let mut ui = UiState::new(100, 30);
    type_text(&mut ui, "alpha beta", OrchestraPhase::Init);
    handle_key(key(KeyCode::Esc), &mut ui, OrchestraPhase::Init, 0, 0);
    assert!(ui.last_was_esc);
    handle_key(key(KeyCode::Char('b')), &mut ui, OrchestraPhase::Init, 0, 0);
    assert_eq!(ui.prompt_cursor, 6);
    assert_eq!(ui.prompt_input, "alpha beta");
}

#[test]
fn esc_then_other_key_clears_the_prompt() {
    let mut ui = UiState::new(100, 30);
    type_text(&mut ui, "oops", OrchestraPhase::Init);
    handle_key(key(KeyCode::Esc), &mut ui, OrchestraPhase::Init, 0, 0);
    handle_key(key(KeyCode::Char('x')), &mut ui, OrchestraPhase::Init, 0, 0);
    assert_eq!(ui.prompt_input, "x");
}

#[test]
fn alt_d_deletes_word_ahead() {
    let mut ui = UiState::new(100, 30);
    type_text(&mut ui, "save drop  rest", OrchestraPhase::Init);
    ui.prompt_cursor = 5;
    let k = KeyEvent { code: KeyCode::Char('d'), ctrl: false, alt: true };
    handle_key(k, &mut ui, OrchestraPhase::Init, 0, 0);
    assert_eq!(ui.prompt_input, "save rest");
    assert_eq!(ui.prompt_cursor, 5);
}

#[test]
fn word_delete_forward_at_end_keeps_text() {
    let mut cursor = 3;
    let mut input = "abc".to_string();
    word_delete_forward(&mut cursor, &mut input);
    assert_eq!(input, "abc");
    assert_eq!(cursor, 3);
}

#[test]
fn ctrl_c_always_quits() {
    let mut ui = UiState::new(100, 30);
    ui.show_help = true;
    let out = handle_key(ctrl('c'), &mut ui, OrchestraPhase::Executing, 2, 2);
    assert!(out.quit);
}

#[test]
fn q_quits_when_not_typing() {
    let mut ui = UiState::new(100, 30);
    let out = handle_key(key(KeyCode::Char('q')), &mut ui, OrchestraPhase::Executing, 2, 2);
    assert!(out.quit);
}

#[test]
fn tab_and_backtab_cycle_musicians() {
    let mut ui = UiState::new(100, 30);
    let out = handle_key(key(KeyCode::Tab), &mut ui, OrchestraPhase::Executing, 3, 0);
    assert!(matches!(out.command, KeyCommand::Send(UserAction::FocusNext)));
    assert_eq!(ui.tab_state.orchestra.focused_musician, 1);
    handle_key(key(KeyCode::Tab), &mut ui, OrchestraPhase::Executing, 3, 0);
    handle_key(key(KeyCode::Tab), &mut ui, OrchestraPhase::Executing, 3, 0);
    assert_eq!(ui.tab_state.orchestra.focused_musician, 0);
    handle_key(key(KeyCode::BackTab), &mut ui, OrchestraPhase::Executing, 3, 0);
    assert_eq!(ui.tab_state.orchestra.focused_musician, 2);
}

#[test]
fn digit_keys_are_typed_into_the_prompt() {
    let mut ui = UiState::new(100, 30);
    handle_key(key(KeyCode::Char('5')), &mut ui, OrchestraPhase::Executing, 1, 1);
    assert_eq!(ui.active_tab, Tab::Orchestra);
    assert_eq!(ui.prompt_input, "5");
}

#[test]
fn first_navigation_letter_is_not_typed() {
    let mut ui = UiState::new(100, 30);
    handle_key(key(KeyCode::Char('k')), &mut ui, OrchestraPhase::Init, 0, 0);
    assert_eq!(ui.prompt_input, "");
    handle_key(key(KeyCode::Char('x')), &mut ui, OrchestraPhase::Init, 0, 0);
    handle_key(key(KeyCode::Char('k')), &mut ui, OrchestraPhase::Init, 0, 0);
    assert_eq!(ui.prompt_input, "xk");
}

#[test]
fn enter_approves_plan_and_d_opens_detail() {
    let mut ui = UiState::new(100, 30);
    let out = handle_key(key(KeyCode::Enter), &mut ui, OrchestraPhase::PlanReview, 0, 3);
    assert!(matches!(out.command, KeyCommand::Send(UserAction::ApprovePlan)));
    ui.active_tab = Tab::Plan;
    handle_key(key(KeyCode::Down), &mut ui, OrchestraPhase::PlanReview, 0, 3);
    handle_key(key(KeyCode::Char('d')), &mut ui, OrchestraPhase::PlanReview, 0, 3);
    assert_eq!(ui.tab_state.plan.task_detail, Some(1));
    handle_key(key(KeyCode::Esc), &mut ui, OrchestraPhase::PlanReview, 0, 3);
    assert_eq!(ui.tab_state.plan.task_detail, None);
}

#[test]
fn arrows_scroll_the_log_and_stop_following() {
    let mut ui = UiState::new(100, 30);
    ui.active_tab = Tab::Log;
    handle_arrow_key(KeyCode::Down, &mut ui, 1, 1);
    assert_eq!(ui.tab_state.log.log_scroll, 1);
    handle_arrow_key(KeyCode::Up, &mut ui, 1, 1);
    handle_arrow_key(KeyCode::Up, &mut ui, 1, 1);
    assert_eq!(ui.tab_state.log.log_scroll, 0);
    assert!(!ui.tab_state.log.auto_scroll);
}

#[test]
fn navigation_keys_are_recognised() {
    assert!(is_navigation_key(&key(KeyCode::Char('j'))));
    assert!(is_navigation_key(&ctrl('x')));
    assert!(!is_navigation_key(&key(KeyCode::Char('x'))));
}

#[test]
fn submit_input_separates_images() {
    let a = submit_input("look /tmp/a.png now", OrchestraPhase::Init);
    match a {
        UserAction::SubmitTask { text, images } => {
            assert_eq!(text, "look now");
            assert_eq!(images, Some(vec!["/tmp/a.png".to_string()]));
        }
        other => panic!("unexpected action {:?}", other),
    }
}

#[test]
fn slash_command_list() {
    assert_eq!(slash_commands(), vec!["/help", "/sessions", "/list", "/resume", "/quit", "/q"]);
}

#[test]
fn key_safety_flags_edits_inside_a_character() {
    let mut ui = UiState::new(120, 40);
    ui.prompt_input = "é".to_string();
    ui.prompt_cursor = 2;
    let back = KeyEvent { code: KeyCode::Backspace, ctrl: false, alt: false };
    assert!(!conductor::keys::key_is_safe(back, &ui, OrchestraPhase::Init));
    ui.prompt_input = "ab".to_string();
    assert!(conductor::keys::key_is_safe(back, &ui, OrchestraPhase::Init));
    let typed = KeyEvent { code: KeyCode::Char('x'), ctrl: false, alt: false };
    assert!(conductor::keys::key_is_safe(typed, &ui, OrchestraPhase::Init));
    ui.prompt_cursor = 7;
    assert!(!conductor::keys::key_is_safe(typed, &ui, OrchestraPhase::Init));
}
