//! The search modal.

use std::time::{Duration, Instant};

use rusqlite::Connection;
use threadhop_tui::keys::{KeyCode, KeyEvent, KeyEventKind, KeyModifiers};
use threadhop_tui::screens::search::{
    centered_rect, empty_message, empty_message_rect, execute_query, handle_key, handle_key_at,
    hit_lines, layout, pills, short_session, should_execute, should_execute_at, shows_recents, snippet_segments,
    status_texts, title, Answer, Filters, Hit, MessageRole, SearchResult, SearchState,
    DEBOUNCE_MILLIS,
};
use threadhop_tui::ui::Rect;

/// The filters of a query, and its other words.
fn parse(query: &str) -> (Filters, String) {
    let mut filters = Filters { project: None, role: None };
    let mut rest: Vec<&str> = Vec::new();
    for word in query.split_whitespace() {
        if let Some(project) = word.strip_prefix("project:") {
            filters.project = Some(project.to_string());
        } else if word == "user:" {
            filters.role = Some(MessageRole::User);
        } else if word == "assistant:" {
            filters.role = Some(MessageRole::Assistant);
        } else {
            rest.push(word);
        }
    }
    (filters, rest.join(" "))
}

fn reparse(s: &mut SearchState) {
    let (filters, _) = parse(&s.query_input);
    s.filters_parsed(filters);
}

fn open_in_memory_with_fts() -> Connection {
    let c = Connection::open_in_memory().unwrap();
    c.execute_batch(
        "CREATE TABLE messages (uuid TEXT, session_id TEXT, project TEXT, role TEXT, text TEXT);
         CREATE VIRTUAL TABLE messages_fts USING fts5(text, tokenize='porter unicode61');",
    )
    .unwrap();
    c
}

fn seed(conn: &Connection, sid: &str, project: Option<&str>, uuid: &str, role: &str, text: &str) {
    conn.execute(
        "INSERT INTO messages (uuid, session_id, project, role, text) VALUES (?, ?, ?, ?, ?)",
        (uuid, sid, project, role, text),
    )
    .unwrap();
    conn.execute("INSERT INTO messages_fts (text) VALUES (?)", [text]).unwrap();
}

/// What the stored messages answer to a query.
fn ask(conn: &Connection, query: &str) -> Answer {
    let (filters, rest) = parse(query);
    if rest.is_empty() {
        return Ok(Vec::new());
    }
    let mut stmt = conn
        .prepare(
            "SELECT m.uuid, m.session_id, m.text FROM messages_fts f JOIN messages m \
             ON m.rowid = f.rowid WHERE messages_fts MATCH ?1 AND (?2 IS NULL OR m.project = ?2)",
        )
        .map_err(|e| e.to_string())?;
    let rows = stmt
        .query_map((rest, filters.project), |r| {
            Ok(Hit { message_uuid: r.get(0)?, session_id: r.get(1)?, snippet: r.get(2)? })
        })
        .map_err(|e| e.to_string())?;
    rows.collect::<Result<Vec<Hit>, rusqlite::Error>>().map_err(|e| e.to_string())
}

fn press(c: KeyCode) -> KeyEvent {
    KeyEvent::new(c, KeyModifiers::none())
}

fn press_char(c: char) -> KeyEvent {
    KeyEvent::new(KeyCode::Char(c), KeyModifiers::none())
}

#[test]
fn should_execute_false_when_input_matches_committed() {
    let mut s = SearchState::new();
    s.query_input = "abc".into();
    s.committed_query = "abc".into();
    s.opened_at = Instant::now() - Duration::from_secs(1);
    assert!(!should_execute(&s));
}

#[test]
fn should_execute_false_within_debounce_window() {
    let mut s = SearchState::new();
    s.query_input = "abc".into();
    s.opened_at = Instant::now();
    assert!(!should_execute(&s));
}

#[test]
fn should_execute_true_after_debounce_when_input_diverged() {
    let mut s = SearchState::new();
    s.query_input = "abc".into();
    s.opened_at = Instant::now() - Duration::from_millis(DEBOUNCE_MILLIS as u64) - Duration::from_millis(10);
    assert!(should_execute(&s));
}

#[test]
fn handle_key_typing_appends_to_input() {
    let mut s = SearchState::new();
    assert!(handle_key(&mut s, press_char('h')).is_none());
    assert!(handle_key(&mut s, press_char('i')).is_none());
    assert_eq!(s.query_input, "hi");
}

#[test]
fn handle_key_backspace_deletes_one_char() {
    let mut s = SearchState::new();
    s.query_input = "hello".into();
    handle_key(&mut s, press(KeyCode::Backspace));
    assert_eq!(s.query_input, "hell");
}

#[test]
fn handle_key_esc_returns_cancelled() {
    let mut s = SearchState::new();
    assert_eq!(handle_key(&mut s, press(KeyCode::Esc)), Some(SearchResult::Cancelled));
}

#[test]
fn handle_key_ctrl_c_returns_cancelled() {
    let mut s = SearchState::new();
    let ev = KeyEvent::new(KeyCode::Char('c'), KeyModifiers::control());
    assert_eq!(handle_key(&mut s, ev), Some(SearchResult::Cancelled));
}

#[test]
fn handle_key_enter_with_hits_returns_jump() {
    let mut s = SearchState::new();
    s.hits = vec![Hit {
        message_uuid: "u1".into(),
        session_id: "s1".into(),
        snippet: "snip".into(),
    }];
    s.selected_index = 0;
    let got = handle_key(&mut s, press(KeyCode::Enter));
    assert_eq!(
        got,
        Some(SearchResult::JumpToMessage {
            session_id: "s1".into(),
            message_uuid: "u1".into()
        })
    );
}

#[test]
fn handle_key_enter_with_no_hits_returns_none() {
    let mut s = SearchState::new();
    assert!(handle_key(&mut s, press(KeyCode::Enter)).is_none());
}

#[test]
fn handle_key_arrow_keys_move_selection() {
    let mut s = SearchState::new();
    s.hits = (0..3)
        .map(|i| Hit {
            message_uuid: format!("u{i}"),
            session_id: "s1".into(),
            snippet: "snip".into(),
        })
        .collect();
    handle_key(&mut s, press(KeyCode::Down));
    assert_eq!(s.selected_index, 1);
    handle_key(&mut s, press(KeyCode::Down));
    assert_eq!(s.selected_index, 2);
    handle_key(&mut s, press(KeyCode::Down));
    assert_eq!(s.selected_index, 2);
    handle_key(&mut s, press(KeyCode::Up));
    assert_eq!(s.selected_index, 1);
}

#[test]
fn handle_key_typing_updates_last_keystroke() {
    let mut s = SearchState::new();
    s.opened_at = Instant::now() - Duration::from_secs(10);
    let before = s.last_keystroke_at;
    handle_key(&mut s, press_char('x'));
    assert!(s.last_keystroke_at > before);
}

#[test]
fn search_handle_key_release_events_ignored() {
    let mut s = SearchState::new();
    let ev = KeyEvent {
        code: KeyCode::Char('x'),
        modifiers: KeyModifiers::none(),
        kind: KeyEventKind::Release,
    };
    assert!(handle_key(&mut s, ev).is_none());
    assert_eq!(s.query_input, "");
}

#[test]
fn typing_project_modifier_lifts_to_pill() {
    let mut s = SearchState::new();
    for c in "project:foo bar".chars() {
        handle_key(&mut s, press_char(c));
        reparse(&mut s);
    }
    assert_eq!(s.filters.project.as_deref(), Some("foo"));
    let (_, rest) = parse(&s.query_input);
    assert_eq!(rest, "bar");
}

#[test]
fn typing_user_modifier_lifts_to_role_pill() {
    let mut s = SearchState::new();
    for c in "user: bugs".chars() {
        handle_key(&mut s, press_char(c));
        reparse(&mut s);
    }
    assert_eq!(s.filters.role, Some(MessageRole::User));
}

#[test]
fn backspace_removes_trailing_pill_when_at_end() {
    let mut s = SearchState::new();
    s.query_input = "project:foo".into();
    reparse(&mut s);
    assert!(s.filters.project.is_some());
    let popped = s.pop_last_modifier();
    assert!(popped);
    assert_eq!(s.query_input, "");
    reparse(&mut s);
    assert!(s.filters.project.is_none());
}

#[test]
fn backspace_on_non_modifier_tail_falls_through_to_char_delete() {
    let mut s = SearchState::new();
    s.query_input = "project:foo hello".into();
    reparse(&mut s);
    handle_key(&mut s, press(KeyCode::Backspace));
    assert_eq!(s.query_input, "project:foo hell");
    reparse(&mut s);
    assert_eq!(s.filters.project.as_deref(), Some("foo"));
}

#[test]
fn execute_query_populates_hits_from_seeded_db() {
    let c = open_in_memory_with_fts();
    seed(&c, "s1", Some("proj"), "u1", "user", "hello world");
    let mut s = SearchState::new();
    s.query_input = "hello".into();
    let answer = ask(&c, &s.query_input);
    execute_query(&mut s, answer);
    assert_eq!(s.hits.len(), 1);
    assert_eq!(s.hits[0].message_uuid, "u1");
    assert_eq!(s.committed_query, "hello");
    assert!(s.error.is_none());
}

#[test]
fn execute_query_applies_project_filter_from_input() {
    let c = open_in_memory_with_fts();
    seed(&c, "s1", Some("proj-a"), "u1", "user", "shared topic");
    seed(&c, "s2", Some("proj-b"), "u2", "user", "shared topic");
    let mut s = SearchState::new();
    s.query_input = "project:proj-a shared".into();
    reparse(&mut s);
    let answer = ask(&c, &s.query_input);
    execute_query(&mut s, answer);
    assert_eq!(s.hits.len(), 1);
    assert_eq!(s.hits[0].session_id, "s1");
}

#[test]
fn execute_query_empty_input_clears_hits() {
    let c = open_in_memory_with_fts();
    seed(&c, "s1", None, "u1", "user", "hello world");
    let mut s = SearchState::new();
    s.hits = vec![Hit {
        message_uuid: "stale".into(),
        session_id: "s1".into(),
        snippet: "old".into(),
    }];
    s.query_input = "".into();
    let answer = ask(&c, &s.query_input);
    execute_query(&mut s, answer);
    assert!(s.hits.is_empty());
    assert!(s.error.is_none());
}

#[test]
fn execute_query_clamps_selection_to_new_hit_count() {
    let c = open_in_memory_with_fts();
    seed(&c, "s1", None, "u1", "user", "alpha");
    let mut s = SearchState::new();
    s.selected_index = 42;
    s.query_input = "alpha".into();
    let answer = ask(&c, &s.query_input);
    execute_query(&mut s, answer);
    assert_eq!(s.selected_index, 0);
}

#[test]
fn snippet_to_spans_splits_on_brackets() {
    let spans = snippet_segments("a [b] c");
    assert_eq!(spans.len(), 3);
    assert_eq!(spans[0].text, "a ");
    assert_eq!(spans[1].text, "b");
    assert_eq!(spans[2].text, " c");
    assert!(spans[1].matched && !spans[0].matched && !spans[2].matched);
}

#[test]
fn snippet_to_spans_handles_no_brackets() {
    let spans = snippet_segments("plain text");
    assert_eq!(spans.len(), 1);
    assert_eq!(spans[0].text, "plain text");
}

#[test]
fn search_centered_rect_centers_within_parent() {
    let parent = Rect {
        x: 0,
        y: 0,
        width: 100,
        height: 50,
    };
    let r = centered_rect(50, 50, parent);
    assert_eq!(r.width, 50);
    assert_eq!(r.height, 25);
    assert_eq!(r.x, 25);
    assert_eq!(r.y, 12);
}

#[test]
fn a_query_is_due_once_typing_has_paused() {
    let mut s = SearchState::new();
    s.query_input = "abc".into();
    assert!(!should_execute_at(&s, 0));
    assert!(!should_execute_at(&s, 149));
    assert!(should_execute_at(&s, 150));
    execute_query(&mut s, Ok(Vec::new()));
    assert!(!should_execute_at(&s, 100_000));
}

#[test]
fn each_keystroke_starts_the_pause_anew() {
    let mut s = SearchState::new();
    handle_key_at(&mut s, press_char('a'), 1_000);
    assert_eq!(s.last_keystroke_at, 1_000);
    assert!(!should_execute_at(&s, 1_149));
    assert!(should_execute_at(&s, 1_150));
    handle_key_at(&mut s, press_char('b'), 1_100);
    assert!(!should_execute_at(&s, 1_150));
    assert!(!should_execute_at(&s, 1_249));
    assert!(should_execute_at(&s, 1_250));
    assert!(!should_execute_at(&s, 0), "before the keystroke");
}

#[test]
fn a_refused_query_shows_its_error_and_no_hits() {
    let mut s = SearchState::new();
    s.query_input = "abc".into();
    s.hits = vec![Hit { message_uuid: "u".into(), session_id: "s".into(), snippet: "x".into() }];
    execute_query(&mut s, Err("fts5: syntax error".to_string()));
    assert!(s.hits.is_empty());
    assert_eq!(s.committed_query, "abc");
    assert_eq!(
        status_texts(&s),
        (" 0 hits ".to_string(), Some("err: fts5: syntax error".to_string()))
    );
    assert_eq!(empty_message(&s), "");
}

#[test]
fn backspace_takes_a_whole_filter() {
    for (before, after) in [
        ("hello project:foo", "hello"),
        ("hello user:", "hello"),
        ("assistant:  ", ""),
        ("hello user:x", "hello user:"),
        ("a b", "a "),
        ("", ""),
        ("\u{3000}project:x", ""),
    ] {
        let mut s = SearchState::new();
        s.query_input = before.into();
        handle_key(&mut s, press(KeyCode::Backspace));
        assert_eq!(s.query_input, after, "from {before:?}");
    }
}

#[test]
fn filters_become_pills() {
    assert!(pills(&Filters { project: None, role: None }).is_empty());
    assert_eq!(
        pills(&Filters { project: Some("p".into()), role: Some(MessageRole::Assistant) }),
        [" project:p ", " role:assistant "]
    );
}

#[test]
fn the_title_shows_what_is_typed() {
    let mut s = SearchState::new();
    assert_eq!(title(&s), " Search ");
    s.query_input = "fox".into();
    assert_eq!(title(&s), " Search: fox ");
}

#[test]
fn draw_with_hits_renders_session_id() {
    let mut s = SearchState::new();
    s.hits = vec![Hit {
        message_uuid: "u1".into(),
        session_id: "abcdef123456".into(),
        snippet: "the [fox] jumps".into(),
    }];
    s.query_input = "fox".into();
    s.committed_query = "fox".into();
    assert!(hit_lines(&s)[0].session.contains("abcdef12"));
    assert!(title(&s).contains("Search"));
}

#[test]
fn draw_renders_pill_row_when_filter_set() {
    let mut s = SearchState::new();
    s.query_input = "project:foo".into();
    reparse(&mut s);
    assert!(pills(&s.filters).concat().contains("project:foo"));
}

#[test]
fn a_hit_is_one_line() {
    let mut s = SearchState::new();
    s.hits = vec![Hit {
        message_uuid: "u1".into(),
        session_id: "abcdef123456".into(),
        snippet: "the [fox] jumps".into(),
    }];
    let lines = hit_lines(&s);
    assert_eq!(lines.len(), 1);
    assert_eq!(lines[0].session, "abcdef12  ");
    assert!(lines[0].selected);
    assert_eq!(lines[0].segments[1].text, "fox");
    assert_eq!(status_texts(&s), (" 1 hit ".to_string(), None));
    assert_eq!(short_session("abcdef123456"), "abcdef12");
    assert_eq!(short_session("ab"), "ab");
}

#[test]
fn unpaired_brackets_are_kept_or_dropped_as_they_open_and_close() {
    let texts: Vec<(String, bool)> =
        snippet_segments("a]b[c[d]").into_iter().map(|s| (s.text, s.matched)).collect();
    assert_eq!(texts, [("a]b".to_string(), false), ("c[d".to_string(), true)]);
    assert!(snippet_segments("[]").is_empty());
}

#[test]
fn earlier_searches_are_listed_while_nothing_is_typed() {
    let mut s = SearchState::new();
    assert!(!shows_recents(&s));
    assert_eq!(empty_message(&s), "Type to search...");
    s.recents = vec!["fox".into()];
    assert!(shows_recents(&s));
    s.query_input = "x".into();
    assert!(!shows_recents(&s));
    s.committed_query = "x".into();
    assert_eq!(empty_message(&s), "No results.");
    let area = Rect { x: 10, y: 20, width: 31, height: 5 };
    assert_eq!(empty_message_rect(&s, area), Rect { x: 20, y: 22, width: 21, height: 1 });
}

#[test]
fn the_filter_row_appears_with_a_filter() {
    let mut s = SearchState::new();
    let area = Rect { x: 0, y: 0, width: 40, height: 12 };
    let heights = |s: &SearchState| layout(s, area).iter().map(|r| r.height).collect::<Vec<_>>();
    assert_eq!(heights(&s), [0, 1, 8, 1]);
    s.filters.role = Some(MessageRole::User);
    assert_eq!(heights(&s), [1, 1, 7, 1]);
}
