//! The prompt for a session's status and name.

use threadhop_tui::keys::{KeyCode, KeyEvent, KeyEventKind, KeyModifiers};
use threadhop_tui::models::{status_order, SessionStatus};
use threadhop_tui::screens::label_prompt::{
    centered_rect, handle_key, layout, short_label, status_label, status_rows, title,
    LabelPromptResult, Mode, State,
};
use threadhop_tui::ui::Rect;

fn press(c: KeyCode) -> KeyEvent {
    KeyEvent::new(c, KeyModifiers::none())
}

fn press_char(c: char) -> KeyEvent {
    KeyEvent::new(KeyCode::Char(c), KeyModifiers::none())
}

fn state() -> State {
    State::new("sid-1".to_string(), "my session".to_string(), SessionStatus::Active)
}

#[test]
fn new_preselects_current_status_index() {
    let s = State::new("sid".to_string(), "name".to_string(), SessionStatus::InReview);
    assert_eq!(s.selected_index, 2);
    assert_eq!(s.mode, Mode::StatusPicker);
    assert_eq!(s.custom_name_input, "name");
}

#[test]
fn new_falls_back_to_zero_when_status_missing_from_options() {
    let s = State::new("sid".to_string(), "n".to_string(), SessionStatus::Active);
    assert_eq!(s.selected_index, 0);
}

#[test]
fn j_and_k_cycle_status_options_with_wrap() {
    let mut s = state();
    assert_eq!(s.selected_index, 0);
    handle_key(&mut s, press_char('j'));
    assert_eq!(s.selected_index, 1);
    handle_key(&mut s, press_char('j'));
    handle_key(&mut s, press_char('j'));
    handle_key(&mut s, press_char('j'));
    handle_key(&mut s, press_char('j'));
    assert_eq!(s.selected_index, 0);
    handle_key(&mut s, press_char('k'));
    assert_eq!(s.selected_index, status_order().len() - 1);
}

#[test]
fn arrow_keys_cycle_status_options() {
    let mut s = state();
    handle_key(&mut s, press(KeyCode::Down));
    assert_eq!(s.selected_index, 1);
    handle_key(&mut s, press(KeyCode::Up));
    assert_eq!(s.selected_index, 0);
}

#[test]
fn digit_keys_jump_to_status() {
    let mut s = state();
    handle_key(&mut s, press_char('3'));
    assert_eq!(s.selected_index, 2);
    handle_key(&mut s, press_char('5'));
    assert_eq!(s.selected_index, 4);
    handle_key(&mut s, press_char('9'));
    assert_eq!(s.selected_index, 4);
}

#[test]
fn enter_in_status_mode_posts_status_chosen() {
    let mut s = state();
    handle_key(&mut s, press_char('j'));
    let got = handle_key(&mut s, press(KeyCode::Enter));
    assert_eq!(
        got,
        Some(LabelPromptResult::StatusChosen(SessionStatus::InProgress))
    );
}

#[test]
fn tab_toggles_mode_status_to_custom_and_back() {
    let mut s = state();
    assert_eq!(s.mode, Mode::StatusPicker);
    assert!(handle_key(&mut s, press(KeyCode::Tab)).is_none());
    assert_eq!(s.mode, Mode::CustomName);
    assert!(handle_key(&mut s, press(KeyCode::Tab)).is_none());
    assert_eq!(s.mode, Mode::StatusPicker);
}

#[test]
fn typing_in_custom_name_mode_appends_to_buffer() {
    let mut s = State::new("sid".to_string(), "".to_string(), SessionStatus::Active);
    s.mode = Mode::CustomName;
    for c in "hi".chars() {
        handle_key(&mut s, press_char(c));
    }
    assert_eq!(s.custom_name_input, "hi");
}

#[test]
fn backspace_in_custom_name_mode_pops_one_char() {
    let mut s = State::new("sid".to_string(), "hello".to_string(), SessionStatus::Active);
    s.mode = Mode::CustomName;
    handle_key(&mut s, press(KeyCode::Backspace));
    assert_eq!(s.custom_name_input, "hell");
}

#[test]
fn enter_in_custom_name_mode_with_text_posts_some() {
    let mut s = State::new("sid".to_string(), "newname".to_string(), SessionStatus::Active);
    s.mode = Mode::CustomName;
    let got = handle_key(&mut s, press(KeyCode::Enter));
    assert_eq!(
        got,
        Some(LabelPromptResult::CustomNameSet(Some("newname".into())))
    );
}

#[test]
fn enter_in_custom_name_mode_with_blank_posts_none() {
    let mut s = State::new("sid".to_string(), "   ".to_string(), SessionStatus::Active);
    s.mode = Mode::CustomName;
    let got = handle_key(&mut s, press(KeyCode::Enter));
    assert_eq!(got, Some(LabelPromptResult::CustomNameSet(None)));
}

#[test]
fn ctrl_modified_chars_rejected_in_custom_name_mode() {
    let mut s = State::new("sid".to_string(), "".to_string(), SessionStatus::Active);
    s.mode = Mode::CustomName;
    let ev = KeyEvent::new(KeyCode::Char('a'), KeyModifiers::control());
    handle_key(&mut s, ev);
    assert_eq!(s.custom_name_input, "");
}

#[test]
fn esc_returns_cancelled_in_either_mode() {
    let mut s = state();
    assert_eq!(
        handle_key(&mut s, press(KeyCode::Esc)),
        Some(LabelPromptResult::Cancelled)
    );
    s.mode = Mode::CustomName;
    assert_eq!(
        handle_key(&mut s, press(KeyCode::Esc)),
        Some(LabelPromptResult::Cancelled)
    );
}

#[test]
fn ctrl_c_returns_cancelled() {
    let mut s = state();
    let ev = KeyEvent::new(KeyCode::Char('c'), KeyModifiers::control());
    assert_eq!(handle_key(&mut s, ev), Some(LabelPromptResult::Cancelled));
}

#[test]
fn label_prompt_release_events_are_ignored() {
    let mut s = state();
    let ev = KeyEvent {
        code: KeyCode::Char('j'),
        modifiers: KeyModifiers::none(),
        kind: KeyEventKind::Release,
    };
    assert!(handle_key(&mut s, ev).is_none());
    assert_eq!(s.selected_index, 0);
}

#[test]
fn short_label_truncates_with_ellipsis() {
    let long = "a".repeat(40);
    let out = short_label(&long);
    assert!(out.ends_with('…'));
    assert!(out.chars().count() <= 32);
}

#[test]
fn status_label_round_trip_covers_all_options() {
    for s in status_order() {
        let _ = status_label(s);
    }
}

#[test]
fn label_prompt_centered_rect_centers_within_parent() {
    let parent = Rect {
        x: 0,
        y: 0,
        width: 100,
        height: 50,
    };
    let r = centered_rect(50, 50, parent);
    assert_eq!(r.width, 50);
    assert_eq!(r.height, 25);
    assert_eq!(r.x, 25);
    assert_eq!(r.y, 12);
}

#[test]
fn the_status_list_marks_the_current_status() {
    let mut s = State::new("sid".to_string(), "n".to_string(), SessionStatus::InReview);
    handle_key(&mut s, press_char('j'));
    let rows = status_rows(&s);
    let labels: Vec<&str> = rows.iter().map(|r| r.label.as_str()).collect();
    assert_eq!(labels, ["active", "in_progress", "in_review", "done", "archived"]);
    assert_eq!(rows[2].marker, " * ");
    assert!(rows[2].is_current && !rows[2].selected);
    assert_eq!(rows[3].number, " 4. ");
    assert!(rows[3].selected && !rows[3].is_current);
    assert_eq!(rows[3].marker, "   ");
}

#[test]
fn the_title_carries_the_name() {
    assert_eq!(title(&state()), " Label: my session ");
}

#[test]
fn a_name_is_kept_without_the_white_space_round_it() {
    let mut s = State::new("sid".to_string(), "  two words ".to_string(), SessionStatus::Active);
    s.mode = Mode::CustomName;
    let got = handle_key(&mut s, press(KeyCode::Enter));
    assert_eq!(got, Some(LabelPromptResult::CustomNameSet(Some("two words".into()))));
}

#[test]
fn the_prompt_has_a_mode_row_and_a_hint() {
    let parts = layout(Rect { x: 0, y: 0, width: 40, height: 12 });
    assert_eq!(parts.iter().map(|r| (r.y, r.height)).collect::<Vec<_>>(), [(2, 1), (3, 6), (9, 1)]);
}
