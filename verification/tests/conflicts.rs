//! Conflicts between the observations of sessions.

use threadhop_tui::conflicts::{
    collect_conflicts, count_for, normalize_conflict_refs, parse_iso8601, Observation, Review,
};
use threadhop_tui::keys::{KeyCode, KeyEvent, KeyModifiers};
use threadhop_tui::screens::conflict_viewer::{handle_key, ConflictViewerResult, State};

fn texts(items: &[&str]) -> Vec<String> {
    items.iter().map(|s| s.to_string()).collect()
}

fn seconds(ts: &str) -> Option<i128> {
    parse_iso8601(ts).map(|t| t.seconds)
}

#[test]
fn refs_are_compared_as_a_set() {
    let key = normalize_conflict_refs(&texts(&["b", " a ", "b"]));
    assert_eq!(key, normalize_conflict_refs(&texts(&["a", "b"])));
    assert_ne!(key, normalize_conflict_refs(&texts(&["a"])));
    assert_eq!(normalize_conflict_refs(&texts(&[" b ", "a", "", "a"])), "a\u{1f}b");
    assert_eq!(normalize_conflict_refs(&texts(&["  ", ""])), "");
}

#[test]
fn times_are_counted_from_the_epoch() {
    assert_eq!(seconds("1970-01-01T00:00:00Z"), Some(0));
    assert_eq!(seconds("2026-05-20T10:00:00Z"), Some(1779271200));
    assert_eq!(seconds("2000-02-29T23:59:59"), Some(951868799));
    assert_eq!(seconds("1969-12-31T23:59:59Z"), Some(-1));
}

#[test]
fn a_mark_for_utc_makes_no_difference() {
    let plain = seconds("2026-05-20T10:00:00");
    for mark in ["Z", "+00:00", "-00:00"] {
        assert_eq!(seconds(&format!("2026-05-20T10:00:00{mark}")), plain);
    }
}

#[test]
fn fractions_are_kept() {
    assert_eq!(parse_iso8601("1970-01-01T00:00:01.250Z").unwrap().seconds, 1);
    assert!(parse_iso8601("1970-01-01T00:00:01.250Z").unwrap().fraction.contains("25"));
}

#[test]
fn a_day_or_a_time_that_there_is_not_is_refused() {
    for ts in [
        "1970-13-01T00:00:00Z",
        "1970-00-01T00:00:00Z",
        "1970-01-00T00:00:00Z",
        "1970-01-32T00:00:00Z",
        "1970-04-31T00:00:00Z",
        "1970-02-29T00:00:00Z",
        "1900-02-29T00:00:00Z",
        "1970-01-01T24:00:01Z",
        "1970-01-01T24:01:00Z",
        "1970-01-01T25:00:00Z",
        "1970-01-01T00:60:00Z",
        "1970-01-01T00:00:61Z",
        "1970-01-01T-1:00:00Z",
        "1970-01-01-01T00:00:00Z",
        "1970-01-01T00:00:00:00Z",
        "1970-01-01T00:00:00.Z",
        "1970-01-01T00:00:00.1e5Z",
    ] {
        assert_eq!(seconds(ts), None, "{ts}");
    }
    assert!(seconds("1972-02-29T23:59:59Z").is_some());
    assert!(seconds("2000-02-29T00:00Z").is_some());
    assert!(seconds("-400-02-29T00:00:00Z").is_none());
}

#[test]
fn a_leap_second_and_the_end_of_a_day_are_times() {
    assert_eq!(seconds("1970-01-01T00:00:60Z"), Some(60));
    assert_eq!(seconds("1972-06-30T23:59:60Z"), seconds("1972-07-01T00:00:00Z"));
    assert_eq!(seconds("1970-01-01T24:00:00Z"), Some(86_400));
    assert_eq!(seconds("1971-12-31T24:00Z"), seconds("1972-01-01T00:00Z"));
}

#[test]
fn what_is_no_time_is_refused() {
    for ts in ["", "yesterday", "2026-05-20", "2026-05T10:00:00", "2026-05-20T10", "a-b-cTd:e:f"] {
        assert_eq!(seconds(ts), None, "{ts}");
    }
}

fn conflict(refs: &[&str], topic: &str, ts: &str) -> Observation {
    Observation::Conflict {
        refs: texts(refs),
        topic: topic.to_string(),
        ts: ts.to_string(),
        text: Some(format!("on {topic}")),
    }
}

#[test]
fn conflicts_are_gathered_from_the_sessions_that_were_read() {
    let sessions = texts(&["s1", "s2", "s3"]);
    let entries = vec![
        Some(vec![
            conflict(&["s9"], "cache", "2026-05-20T10:00:00Z"),
            Observation::Other,
            conflict(&["s8"], "retry", "2026-05-21T10:00:00Z"),
        ]),
        None,
        Some(vec![conflict(&["s1"], "cache", "2026-05-19T10:00:00Z")]),
    ];
    let reviews = vec![Review {
        session_id: "s1".to_string(),
        refs_key: normalize_conflict_refs(&texts(&["s8"])),
        topic: "retry".to_string(),
    }];
    let (rows, counts) = collect_conflicts(&sessions, &entries, &reviews);
    assert_eq!(rows.len(), 3);
    assert_eq!(rows.iter().filter(|r| r.reviewed).count(), 1);
    assert_eq!(count_for(&counts, "s1"), 1);
    assert_eq!(count_for(&counts, "s2"), 0);
    assert_eq!(count_for(&counts, "s3"), 1);
    assert!(rows.iter().any(|r| r.session_ids == texts(&["s3", "s1"])));
}

#[test]
fn a_conflict_keeps_its_id() {
    let sessions = texts(&["s1", "s2"]);
    let cache = || conflict(&["s9", "s7"], "cache", "2026-05-20T10:00:00Z");
    let before = vec![Some(vec![]), Some(vec![cache()])];
    let earlier = conflict(&["s8"], "retry", "2026-05-19T10:00:00Z");
    let after = vec![Some(vec![earlier]), Some(vec![cache()])];
    let (rows_before, _) = collect_conflicts(&sessions, &before, &vec![]);
    let (rows_after, _) = collect_conflicts(&sessions, &after, &vec![]);
    assert_eq!(rows_before[0].id, rows_after[1].id);
    assert_ne!(rows_after[0].id, rows_after[1].id);
    assert!(rows_before[0].id > 0);
    let turned = vec![None, Some(vec![conflict(&["s7 ", "s9"], "cache", "")])];
    assert_eq!(collect_conflicts(&sessions, &turned, &vec![]).0[0].id, rows_before[0].id);
}

#[test]
fn the_viewer_hides_what_was_resolved() {
    let sessions = texts(&["s1"]);
    let entries = vec![Some(vec![
        conflict(&["s9"], "cache", "2026-05-20T10:00:00Z"),
        conflict(&["s8"], "retry", "2026-05-21T10:00:00Z"),
    ])];
    let reviews = vec![Review {
        session_id: "s1".to_string(),
        refs_key: normalize_conflict_refs(&texts(&["s8"])),
        topic: "retry".to_string(),
    }];
    let mut viewer = State::new();
    viewer.set_conflicts(collect_conflicts(&sessions, &entries, &reviews).0);
    assert_eq!(viewer.visible_conflicts().len(), 1);
    assert_eq!(viewer.visible_conflicts()[0].text, "on cache");
    viewer.show_resolved = true;
    assert_eq!(viewer.visible_conflicts().len(), 2);
}

#[test]
fn the_viewer_closes_and_jumps() {
    let mut viewer = State::new();
    let press = |code: KeyCode| KeyEvent::new(code, KeyModifiers::none());
    assert_eq!(handle_key(&mut viewer, press(KeyCode::Enter)), None);
    assert_eq!(
        handle_key(&mut viewer, press(KeyCode::Esc)),
        Some(ConflictViewerResult::Cancelled)
    );
    let entries = vec![Some(vec![conflict(&["s9"], "cache", "2026-05-20T10:00:00Z")])];
    let (rows, _) = collect_conflicts(&texts(&["s1"]), &entries, &vec![]);
    let id = rows[0].id;
    viewer.set_conflicts(rows);
    assert_eq!(
        handle_key(&mut viewer, press(KeyCode::Enter)),
        Some(ConflictViewerResult::JumpToSession { session_id: "s1".to_string() })
    );
    assert_eq!(
        handle_key(&mut viewer, press(KeyCode::Char('r'))),
        Some(ConflictViewerResult::MarkResolved { conflict_id: id })
    );
}
