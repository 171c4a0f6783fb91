//! The yes/no question in front of a destructive action.

use threadhop_tui::keys::{KeyCode, KeyEvent, KeyEventKind, KeyModifiers};
use threadhop_tui::screens::confirm::{centered_rect, handle_key, layout, ConfirmResult, State};
use threadhop_tui::ui::Rect;

fn press(c: KeyCode) -> KeyEvent {
    KeyEvent::new(c, KeyModifiers::none())
}

fn press_char(c: char) -> KeyEvent {
    KeyEvent::new(KeyCode::Char(c), KeyModifiers::none())
}

#[test]
fn handle_key_y_returns_yes() {
    let mut s = State::new("Delete bookmark?".to_string());
    assert_eq!(handle_key(&mut s, press_char('y')), Some(ConfirmResult::Yes));
}

#[test]
fn handle_key_uppercase_y_returns_yes() {
    let mut s = State::new("Delete bookmark?".to_string());
    assert_eq!(handle_key(&mut s, press_char('Y')), Some(ConfirmResult::Yes));
}

#[test]
fn handle_key_enter_returns_yes() {
    let mut s = State::new("Delete bookmark?".to_string());
    assert_eq!(handle_key(&mut s, press(KeyCode::Enter)), Some(ConfirmResult::Yes));
}

#[test]
fn handle_key_n_returns_no() {
    let mut s = State::new("Delete bookmark?".to_string());
    assert_eq!(handle_key(&mut s, press_char('n')), Some(ConfirmResult::No));
}

#[test]
fn handle_key_uppercase_n_returns_no() {
    let mut s = State::new("Delete bookmark?".to_string());
    assert_eq!(handle_key(&mut s, press_char('N')), Some(ConfirmResult::No));
}

#[test]
fn handle_key_esc_returns_no() {
    let mut s = State::new("Delete bookmark?".to_string());
    assert_eq!(handle_key(&mut s, press(KeyCode::Esc)), Some(ConfirmResult::No));
}

#[test]
fn handle_key_ctrl_c_returns_no() {
    let mut s = State::new("Delete bookmark?".to_string());
    let ev = KeyEvent::new(KeyCode::Char('c'), KeyModifiers::control());
    assert_eq!(handle_key(&mut s, ev), Some(ConfirmResult::No));
}

#[test]
fn handle_key_unrecognised_keeps_modal_open() {
    let mut s = State::new("Delete bookmark?".to_string());
    assert!(handle_key(&mut s, press_char('x')).is_none());
    assert!(handle_key(&mut s, press(KeyCode::Down)).is_none());
    assert!(handle_key(&mut s, press(KeyCode::Tab)).is_none());
}

#[test]
fn confirm_handle_key_release_events_ignored() {
    let mut s = State::new("Delete bookmark?".to_string());
    let ev = KeyEvent {
        code: KeyCode::Char('y'),
        modifiers: KeyModifiers::none(),
        kind: KeyEventKind::Release,
    };
    assert!(handle_key(&mut s, ev).is_none());
}

#[test]
fn handle_key_repeat_events_accepted() {
    let mut s = State::new("Delete bookmark?".to_string());
    let ev = KeyEvent {
        code: KeyCode::Char('y'),
        modifiers: KeyModifiers::none(),
        kind: KeyEventKind::Repeat,
    };
    assert_eq!(handle_key(&mut s, ev), Some(ConfirmResult::Yes));
}

#[test]
fn handle_key_ctrl_y_does_not_confirm() {
    let mut s = State::new("Delete bookmark?".to_string());
    let ev = KeyEvent::new(KeyCode::Char('y'), KeyModifiers::control());
    assert!(handle_key(&mut s, ev).is_none());
}

#[test]
fn builder_pattern_with_detail_sets_detail() {
    let s = State::new("Delete bookmark?".to_string()).with_detail("\"fix the parser\"".to_string());
    assert_eq!(s.question, "Delete bookmark?");
    assert_eq!(s.detail.as_deref(), Some("\"fix the parser\""));
}

#[test]
fn new_without_detail_leaves_it_none() {
    let s = State::new("Archive session?".to_string());
    assert_eq!(s.question, "Archive session?");
    assert!(s.detail.is_none());
}

#[test]
fn confirm_centered_rect_centers_within_parent() {
    let parent = Rect {
        x: 0,
        y: 0,
        width: 100,
        height: 50,
    };
    let r = centered_rect(50, 20, parent);
    assert_eq!(r.width, 50);
    assert_eq!(r.height, 10);
    assert_eq!(r.x, 25);
    assert_eq!(r.y, 20);
}

fn area(width: u16, height: u16) -> Rect {
    Rect { x: 0, y: 0, width, height }
}

#[test]
fn the_context_takes_a_row_of_its_own() {
    let bare = State::new("Delete bookmark?".to_string());
    let parts = layout(&bare, area(40, 10));
    assert_eq!(parts.iter().map(|r| r.height).collect::<Vec<_>>(), [1, 0, 4, 1]);
    let detailed = bare.with_detail("\"fix the parser\"".to_string());
    let parts = layout(&detailed, area(40, 10));
    assert_eq!(parts.iter().map(|r| r.height).collect::<Vec<_>>(), [1, 1, 3, 1]);
    assert_eq!(parts.iter().map(|r| r.y).collect::<Vec<_>>(), [2, 3, 4, 7]);
}

#[test]
fn alt_and_other_letters_answer_nothing() {
    let mut s = State::new("Delete bookmark?".to_string());
    for c in ['a', 'c', 'q', '1', ' '] {
        assert_eq!(handle_key(&mut s, press_char(c)), None);
    }
    assert_eq!(handle_key(&mut s, KeyEvent::new(KeyCode::Char('n'), KeyModifiers::control())), None);
}
