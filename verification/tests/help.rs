//! The overlay that lists the key bindings.

use threadhop_tui::keys::{KeyCode, KeyEvent, KeyModifiers, Scope};
use threadhop_tui::screens::help::{
    body_lines, centered_rect, format_key, handle_key, scope_line, HelpResult, State,
};
use threadhop_tui::ui::Rect;

#[test]
fn esc_closes_help() {
    let mut state = State::new(Scope::MainScreen);
    let ev = KeyEvent::new(KeyCode::Esc, KeyModifiers::none());
    assert_eq!(handle_key(&mut state, ev), Some(HelpResult::Closed));
}

#[test]
fn question_mark_closes_help() {
    let mut state = State::new(Scope::MainScreen);
    let ev = KeyEvent::new(KeyCode::Char('?'), KeyModifiers::none());
    assert_eq!(handle_key(&mut state, ev), Some(HelpResult::Closed));
}

#[test]
fn unknown_key_keeps_help_open() {
    let mut state = State::new(Scope::MainScreen);
    let ev = KeyEvent::new(KeyCode::Char('x'), KeyModifiers::none());
    assert!(handle_key(&mut state, ev).is_none());
}

#[test]
fn ctrl_c_closes_help() {
    let mut state = State::new(Scope::MainScreen);
    let ev = KeyEvent::new(KeyCode::Char('c'), KeyModifiers::control());
    assert_eq!(handle_key(&mut state, ev), Some(HelpResult::Closed));
}

#[test]
fn format_key_handles_common_shapes() {
    let ev = KeyEvent::new(KeyCode::Char('q'), KeyModifiers::none());
    assert_eq!(format_key(&ev), "q");
    let ev = KeyEvent::new(KeyCode::Char('c'), KeyModifiers::control());
    assert_eq!(format_key(&ev), "Ctrl+c");
    let ev = KeyEvent::new(KeyCode::Char('G'), KeyModifiers::shift());
    assert_eq!(format_key(&ev), "G");
    let ev = KeyEvent::new(KeyCode::PageDown, KeyModifiers::none());
    assert_eq!(format_key(&ev), "PgDn");
}

#[test]
fn the_body_lists_the_bindings_of_the_scope_and_the_global_ones() {
    let state = State::new(Scope::MainScreen);
    assert_eq!(scope_line(&state), "Scope: Main Screen");
    let shown = format!("{:?}", body_lines(&state));
    assert!(shown.contains("\"quit\""));
    assert!(shown.contains("\"next theme\""));
}

#[test]
fn the_overlay_is_in_the_middle() {
    let r = Rect { x: 0, y: 0, width: 80, height: 30 };
    assert_eq!(centered_rect(80, 80, r), Rect { x: 8, y: 3, width: 64, height: 24 });
    for width in 0..300u16 {
        for percent in [0u16, 1, 33, 50, 75, 80, 99, 100] {
            let r = Rect { x: 5, y: 1, width, height: 40 };
            let got = centered_rect(percent, 100, r);
            let side = (100 - percent as u32) / 2;
            let edge = |share: u32| ((width as u32 * share + 50) / 100) as u16;
            assert_eq!(got.x, 5 + edge(side), "{width} {percent}");
            assert_eq!(got.width, edge(side + percent as u32) - edge(side), "{width} {percent}");
        }
    }
}
