//! Bookmarks and their browser.

use threadhop_tui::bookmarks::{
    collect_bookmark_rows, truncate_snippet, SessionBookmarks, StoredBookmark, StoredMessage,
};
use threadhop_tui::keys::{KeyCode, KeyEvent, KeyModifiers};
use threadhop_tui::screens::bookmark_browser::{handle_key, BookmarkKind, Result, State};

#[test]
fn a_snippet_is_one_short_line() {
    assert_eq!(truncate_snippet("a\n  b\tc  "), "a b c");
    assert_eq!(truncate_snippet(&"x".repeat(80)), "x".repeat(80));
    assert_eq!(truncate_snippet(&"x".repeat(81)), format!("{}…", "x".repeat(80)));
}

#[test]
fn cutting_a_snippet_again_changes_nothing() {
    let spaced = "ab ".repeat(60);
    for raw in ["", " a  b\n", &"x".repeat(200), &spaced, &format!("{} y z", "x".repeat(79))] {
        let once = truncate_snippet(raw);
        assert_eq!(truncate_snippet(&once), once);
        assert!(once.chars().count() <= 81);
        assert!(!once.contains("  ") && !once.contains('\n') && !once.starts_with(' '));
    }
}

fn stored(id: Option<i64>, uuid: &str, created_at: i64) -> StoredBookmark {
    StoredBookmark {
        id,
        message_uuid: uuid.to_string(),
        kind: BookmarkKind::Bookmark,
        note: None,
        created_at,
    }
}

fn two_sessions() -> State {
    let sessions = vec!["s1".to_string(), "s2".to_string(), "s3".to_string()];
    let stored = vec![
        SessionBookmarks {
            bookmarks: Some(vec![stored(Some(1), "u1", 10), stored(None, "u0", 99)]),
            messages: vec![StoredMessage { uuid: "u1".into(), text: "first\nline".into() }],
        },
        SessionBookmarks { bookmarks: None, messages: vec![] },
        SessionBookmarks { bookmarks: Some(vec![stored(Some(2), "u2", 20)]), messages: vec![] },
    ];
    let mut state = State::new();
    state.set_bookmarks(collect_bookmark_rows(&sessions, &stored));
    state
}

#[test]
fn the_newest_bookmark_comes_first() {
    let state = two_sessions();
    let seen: Vec<(&str, Option<&str>)> = state
        .bookmarks
        .iter()
        .map(|b| (b.message_uuid.as_str(), b.snippet.as_deref()))
        .collect();
    let newest: Vec<i64> = state.bookmarks.iter().map(|b| b.created_at).collect();
    assert!(newest.windows(2).all(|w| w[0] >= w[1]), "{newest:?}");
    assert!(seen.contains(&("u1", Some("first line"))), "{seen:?}");
    assert!(seen.contains(&("u2", None)), "{seen:?}");
}

fn press(code: KeyCode) -> KeyEvent {
    KeyEvent::new(code, KeyModifiers::none())
}

#[test]
fn the_browser_jumps_deletes_and_closes() {
    let mut state = two_sessions();
    let first = state.bookmarks[0].clone();
    assert_eq!(
        handle_key(&mut state, press(KeyCode::Enter)),
        Some(Result::JumpToMessage {
            session_id: first.session_id,
            message_uuid: first.message_uuid,
        })
    );
    handle_key(&mut state, press(KeyCode::Char('j')));
    let second = state.bookmarks[1].id;
    assert_eq!(
        handle_key(&mut state, press(KeyCode::Char('d'))),
        Some(Result::DeleteRequested { bookmark_id: second })
    );
    assert_eq!(handle_key(&mut state, press(KeyCode::Esc)), Some(Result::Cancelled));
}

#[test]
fn the_cursor_stays_on_a_bookmark() {
    let mut state = two_sessions();
    for _ in 0..9 {
        handle_key(&mut state, press(KeyCode::Down));
    }
    assert!(state.selected_index < state.bookmarks.len());
    state.set_bookmarks(vec![]);
    assert_eq!(state.selected_index, 0);
    assert_eq!(handle_key(&mut state, press(KeyCode::Enter)), None);
}
