//! News from the workers, and events of the terminal.

use threadhop_tui::app::App;
use threadhop_tui::effects::Effect;
use threadhop_tui::event::{
    derive_project_for_session, handle_terminal_event, handle_worker_event, Candidate, ProjectDir,
    TerminalEvent, WorkerEvent,
};
use threadhop_tui::keys::{KeyCode, KeyEvent, KeyModifiers, MouseEvent, MouseEventKind};
use threadhop_tui::models::{CleanedMessage, SessionListItem};

fn stub_msg() -> CleanedMessage {
    CleanedMessage {
        uuid: "u1".into(),
        role_label: "You".into(),
        text: "hi".into(),
        timestamp: None,
        line: 0,
    }
}

fn item(id: &str) -> SessionListItem {
    SessionListItem {
        session_id: id.into(),
        display_name: id.into(),
        ..SessionListItem::default()
    }
}

fn refreshed(items: Vec<SessionListItem>) -> WorkerEvent {
    WorkerEvent::SessionsRefreshed {
        candidates: items
            .into_iter()
            .map(|item| Candidate { item, derived_project: None })
            .collect(),
        now: 0,
    }
}

#[test]
fn sessions_refreshed_seeds_selection_when_empty() {
    let mut app = App::new();
    handle_worker_event(&mut app, refreshed(vec![item("alpha"), item("beta")]));
    assert_eq!(app.selected_session_id.as_deref(), Some("alpha"));
    assert_eq!(app.take_effects(), vec![Effect::PublishSelection(Some("alpha".into()))]);
}

#[test]
fn sessions_refreshed_preserves_existing_selection() {
    let mut app = App::new();
    app.selected_session_id = Some("beta".into());
    app.sidebar = vec![item("alpha"), item("beta")];
    handle_worker_event(&mut app, refreshed(vec![item("beta"), item("gamma")]));
    assert_eq!(app.selected_session_id.as_deref(), Some("beta"));
    assert!(app.take_effects().is_empty());
}

#[test]
fn sessions_refreshed_falls_back_when_selection_disappears() {
    let mut app = App::new();
    app.selected_session_id = Some("gone".into());
    handle_worker_event(&mut app, refreshed(vec![item("alpha")]));
    assert_eq!(app.selected_session_id.as_deref(), Some("alpha"));
}

#[test]
fn no_sessions_leave_nothing_selected() {
    let mut app = App::new();
    app.selected_session_id = Some("gone".into());
    handle_worker_event(&mut app, refreshed(vec![]));
    assert_eq!(app.selected_session_id, None);
}

#[test]
fn active_detector_marks_only_matching_sidebar_items() {
    let mut app = App::new();
    app.sidebar = vec![item("alpha"), item("beta"), item("gamma")];
    handle_worker_event(
        &mut app,
        WorkerEvent::ActiveDetectorRefreshed(vec![Some("beta".into()), None]),
    );
    let actives: Vec<bool> = app.sidebar.iter().map(|i| i.is_active).collect();
    assert_eq!(actives, vec![false, true, false]);
}

#[test]
fn transcript_refreshed_only_adopts_matching_session() {
    let mut app = App::new();
    app.selected_session_id = Some("alpha".into());
    handle_worker_event(
        &mut app,
        WorkerEvent::TranscriptRefreshed {
            session_id: "beta".into(),
            messages: vec![stub_msg()],
        },
    );
    assert!(app.transcript.is_empty(), "stale transcript must be dropped");

    handle_worker_event(
        &mut app,
        WorkerEvent::TranscriptRefreshed {
            session_id: "alpha".into(),
            messages: vec![stub_msg()],
        },
    );
    assert_eq!(app.transcript.len(), 1);
}

#[test]
fn error_event_lands_on_status_message() {
    let mut app = App::new();
    handle_worker_event(&mut app, WorkerEvent::Error("disk on fire".into()));
    assert_eq!(app.status_message.as_deref(), Some("disk on fire"));
}

#[test]
fn filters_apply_to_what_the_scan_found() {
    let mut app = App::new();
    app.apply_cli(Some("thread-hop".to_string()), None, None);
    handle_worker_event(
        &mut app,
        WorkerEvent::SessionsRefreshed {
            candidates: vec![
                Candidate { item: item("a"), derived_project: Some("thread-hop".into()) },
                Candidate { item: item("b"), derived_project: Some("other".into()) },
            ],
            now: 0,
        },
    );
    let ids: Vec<&str> = app.sidebar.iter().map(|i| i.session_id.as_str()).collect();
    assert_eq!(ids, ["a"]);
}

#[test]
fn terminal_events_reach_the_application() {
    let mut app = App::new();
    handle_terminal_event(
        &mut app,
        TerminalEvent::Mouse(MouseEvent { kind: MouseEventKind::Moved, column: 3, row: 4 }),
    );
    assert_eq!(app.mouse_cursor, Some((3, 4)));
    handle_terminal_event(&mut app, TerminalEvent::Resize);
    handle_terminal_event(&mut app, TerminalEvent::Other);
    assert!(!app.should_quit);
    handle_terminal_event(
        &mut app,
        TerminalEvent::Key(KeyEvent::new(KeyCode::Char('q'), KeyModifiers::none())),
    );
    assert!(app.should_quit);
}

#[test]
fn a_mouse_that_is_switched_off_is_ignored() {
    let mut app = App::new();
    app.mouse_enabled = false;
    handle_terminal_event(
        &mut app,
        TerminalEvent::Mouse(MouseEvent { kind: MouseEventKind::Moved, column: 3, row: 4 }),
    );
    assert_eq!(app.mouse_cursor, None);
}

#[test]
fn the_project_of_a_session_is_the_directory_of_its_transcript() {
    let dirs = vec![
        ProjectDir { name: Some("unreadable".into()), files: None },
        ProjectDir { name: Some("alpha".into()), files: Some(vec!["x.jsonl".into()]) },
        ProjectDir { name: Some("beta".into()), files: Some(vec!["y.jsonl".into()]) },
    ];
    assert_eq!(derive_project_for_session(&dirs, "y").as_deref(), Some("beta"));
    assert_eq!(derive_project_for_session(&dirs, "z"), None);
}
