//! The prompt for a bookmark's note.

use threadhop_tui::screens::bookmark_note_prompt::{title, State};

#[test]
fn state_round_trips_fields() {
    let s = State::new(42, "important hop".to_string());
    assert_eq!(s.bookmark_id, 42);
    assert_eq!(s.text, "important hop");
}

#[test]
fn default_state_is_empty() {
    let s = State::default();
    assert_eq!(s.bookmark_id, 0);
    assert!(s.text.is_empty());
}

#[test]
fn the_title_names_the_bookmark() {
    assert_eq!(title(&State::new(42, String::new())), " edit note (bookmark #42) ");
    assert_eq!(title(&State::new(-7, String::new())), " edit note (bookmark #-7) ");
}
