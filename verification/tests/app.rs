//! The application: keys and the mouse go in, requests come out and are
//! answered from a small store.

use std::ops::{Deref, DerefMut};
use std::time::{Duration, Instant};

use threadhop_tui::anim::Clock;
use threadhop_tui::app::App;
use threadhop_tui::bookmarks::{SessionBookmarks, StoredBookmark, StoredMessage};
use threadhop_tui::clipboard::ClipboardError;
use threadhop_tui::conflicts::{normalize_conflict_refs, Observation, Review};
use threadhop_tui::effects::{Effect, StatusOrigin};
use threadhop_tui::event::{handle_worker_event, Candidate, WorkerEvent};
use threadhop_tui::keys::{
    Command, KeyCode, KeyEvent, KeyEventKind, KeyModifiers, MouseButton, MouseEvent,
    MouseEventKind, Scope,
};
use threadhop_tui::models::{CleanedMessage, SessionListItem, SessionStatus, SidebarRowKind};
use threadhop_tui::screens::bookmark_browser::BookmarkKind;
use threadhop_tui::screens::label_prompt;
use threadhop_tui::screens::main::{open_modals, Modal};
use threadhop_tui::screens::search::Hit;
use threadhop_tui::state::{
    FindResult, HitAction, KnownStatus, PaneFocus, PendingAction, ScrollSample, HALF_PAGE,
};
use threadhop_tui::ui::Rect;

fn item(id: &str) -> SessionListItem {
    SessionListItem {
        session_id: id.to_string(),
        display_name: id.to_string(),
        ..SessionListItem::default()
    }
}

fn msg(uuid: &str, role: &str, text: &str) -> CleanedMessage {
    CleanedMessage {
        uuid: uuid.into(),
        role_label: role.into(),
        text: text.into(),
        timestamp: None,
        line: 0,
    }
}

/// Lays a transcript out: a header line, the text, and an empty line for each
/// message.
fn lined(mut messages: Vec<CleanedMessage>) -> Vec<CleanedMessage> {
    let mut line = 0;
    for m in &mut messages {
        m.line = line;
        line += 2 + m.text.lines().count() as u16;
    }
    messages
}

/// The find bar: what is typed, and the messages that hold it.
#[derive(Default)]
struct Find {
    query: String,
    matches: Vec<usize>,
}

impl Find {
    fn search(&mut self, transcript: &[CleanedMessage]) {
        let hit = |m: &CleanedMessage| !self.query.is_empty() && m.text.contains(&self.query);
        self.matches = (0..transcript.len()).filter(|i| hit(&transcript[*i])).collect();
    }

    fn key(&mut self, ev: KeyEvent, transcript: &[CleanedMessage]) -> Option<FindResult> {
        match ev.code {
            KeyCode::Esc => Some(FindResult::Closed),
            KeyCode::Enter => Some(match self.matches.first() {
                Some(i) => FindResult::JumpedToMatch { message_index: *i },
                None => FindResult::Closed,
            }),
            KeyCode::Char(c) => {
                self.query.push(c);
                self.search(transcript);
                None
            }
            _ => None,
        }
    }
}

/// What the application's requests are answered from.
#[derive(Default)]
struct Store {
    /// The stored messages: id, session and text.
    messages: Vec<(String, String, String)>,
    /// The bookmarks: id, message and note.
    bookmarks: Vec<(i64, String, Option<String>)>,
    statuses: Vec<KnownStatus>,
    names: Vec<(String, Option<String>)>,
    observations: Vec<Option<Vec<Observation>>>,
    reviews: Vec<Review>,
    recents: Vec<String>,
    published: Vec<Option<String>>,
    copied: Vec<String>,
    exported: Vec<String>,
    /// What every write is answered with, where it fails.
    fault: Option<String>,
    find: Find,
}

impl Store {
    fn of_session(&self, id: &str) -> SessionBookmarks {
        let own: Vec<&(String, String, String)> =
            self.messages.iter().filter(|m| m.1 == id).collect();
        SessionBookmarks {
            bookmarks: Some(
                self.bookmarks
                    .iter()
                    .filter(|b| own.iter().any(|m| m.0 == b.1))
                    .map(|b| StoredBookmark {
                        id: Some(b.0),
                        message_uuid: b.1.clone(),
                        kind: BookmarkKind::Bookmark,
                        note: b.2.clone(),
                        created_at: b.0,
                    })
                    .collect(),
            ),
            messages: own
                .iter()
                .map(|m| StoredMessage { uuid: m.0.clone(), text: m.2.clone() })
                .collect(),
        }
    }

    fn status_of(&self, id: &str) -> Option<SessionStatus> {
        self.statuses.iter().find(|k| k.session_id == id).map(|k| k.status)
    }

    fn write(&self) -> Result<(), String> {
        match &self.fault {
            Some(e) => Err(e.clone()),
            None => Ok(()),
        }
    }
}

/// The application together with the store that answers it.
struct Rig {
    app: App,
    store: Store,
}

impl Deref for Rig {
    type Target = App;

    fn deref(&self) -> &App {
        &self.app
    }
}

impl DerefMut for Rig {
    fn deref_mut(&mut self) -> &mut App {
        &mut self.app
    }
}

impl Rig {
    /// An application without animations over an empty store.
    fn new() -> Rig {
        let app = App::new_with_theme_name(None, &None, None, Some("1".to_string()));
        Rig { app, store: Store::default() }
    }

    fn handle_key(&mut self, ev: KeyEvent) -> Option<Command> {
        let command = self.app.handle_key(ev);
        self.settle();
        command
    }

    fn press(&mut self, code: KeyCode) -> Option<Command> {
        self.handle_key(KeyEvent::new(code, KeyModifiers::none()))
    }

    /// Performs requests until none is left.
    fn settle(&mut self) {
        loop {
            let effects = self.app.take_effects();
            if effects.is_empty() {
                return;
            }
            for effect in effects {
                self.perform(effect);
            }
        }
    }

    fn stored_bookmarks(&self) -> Vec<SessionBookmarks> {
        self.app.sidebar.iter().map(|i| self.store.of_session(&i.session_id)).collect()
    }

    fn perform(&mut self, effect: Effect) {
        match effect {
            Effect::PublishSelection(id) => self.store.published.push(id),
            Effect::SaveRecentSearch(query) => self.store.recents.insert(0, query),
            Effect::LoadRecentSearches => {
                let recents = self.store.recents.clone();
                self.app.recent_searches_loaded(Some(recents));
            }
            Effect::OpenFindBar => self.store.find = Find::default(),
            Effect::FindBarKey(ev) => {
                let answer = self.store.find.key(ev, &self.app.transcript);
                self.app.find_bar_answered(answer);
            }
            Effect::RecomputeFind => self.store.find.search(&self.app.transcript),
            Effect::ProbeMessage { uuid } => {
                let found = self.store.messages.iter().any(|m| m.0 == uuid);
                self.app.message_probed(uuid, found, true);
            }
            Effect::ToggleBookmark { uuid } => {
                let outcome = match self.store.write() {
                    Err(e) => Err(e),
                    Ok(()) => match self.store.bookmarks.iter().position(|b| b.1 == uuid) {
                        Some(i) => {
                            self.store.bookmarks.remove(i);
                            Ok(false)
                        }
                        None => {
                            let id = self.store.bookmarks.len() as i64 + 1;
                            self.store.bookmarks.push((id, uuid, None));
                            Ok(true)
                        }
                    },
                };
                self.app.bookmark_toggled(outcome);
            }
            Effect::LoadBookmarks => {
                let stored = self.stored_bookmarks();
                self.app.bookmarks_loaded(&stored);
            }
            Effect::RefreshBookmarks => {
                let stored = self.stored_bookmarks();
                self.app.bookmarks_refreshed(&stored);
            }
            Effect::DeleteBookmark { bookmark_id } => {
                let outcome = self.store.write();
                if outcome.is_ok() {
                    self.store.bookmarks.retain(|b| b.0 != bookmark_id);
                }
                self.app.bookmark_deleted(outcome);
            }
            Effect::LoadSessionStatus { session_id } => {
                let status = self.store.status_of(&session_id);
                self.app.session_status_loaded(session_id, status);
            }
            Effect::SetStatus { session_id, status, origin } => {
                let outcome = self.store.write();
                if outcome.is_ok() {
                    for known in &mut self.store.statuses {
                        if known.session_id == session_id {
                            known.status = status;
                        }
                    }
                }
                self.app.status_written(session_id, status, origin, outcome);
            }
            Effect::SetCustomName { session_id, name } => {
                let outcome = self.store.write();
                if outcome.is_ok() {
                    self.store.names.push((session_id.clone(), name.clone()));
                }
                self.app.custom_name_written(session_id, name, outcome);
            }
            Effect::LoadStatuses => self.app.statuses_loaded(&self.store.statuses),
            Effect::ReloadStatuses => self.app.statuses_reloaded(&self.store.statuses),
            Effect::LoadConflicts => {
                self.app.conflicts_loaded(&self.store.observations, &self.store.reviews)
            }
            Effect::ReloadConflicts => {
                self.app.conflicts_reloaded(&self.store.observations, &self.store.reviews)
            }
            Effect::ResolveConflict { conflict_id } => {
                self.app.conflict_resolved(conflict_id, true)
            }
            Effect::CopyText { text, chars } => {
                self.store.copied.push(text);
                self.app.clipboard_finished(chars, Ok(()));
            }
            Effect::ExportText { text } => {
                self.store.exported.push(text);
                self.app.export_finished("/tmp/out.md".to_string(), self.store.write());
            }
        }
    }
}

/// One session with one message, both stored.
fn seeded_app() -> (Rig, String, String) {
    let mut app = Rig::new();
    let sid = "sess-1".to_string();
    let uuid = "msg-1".to_string();
    app.store.messages.push((uuid.clone(), sid.clone(), "hello cursor".to_string()));
    app.store.statuses.push(KnownStatus {
        session_id: sid.clone(),
        status: SessionStatus::Active,
    });
    app.store.observations = vec![None];
    app.sidebar = vec![item(&sid)];
    app.selected_session_id = Some(sid.clone());
    app.transcript = lined(vec![msg(&uuid, "user", "hello cursor")]);
    app.message_cursor = 0;
    (app, sid, uuid)
}

fn left_down(column: u16, row: u16) -> MouseEvent {
    MouseEvent { kind: MouseEventKind::Down(MouseButton::Left), column, row }
}

fn scroll_event(kind: MouseEventKind, column: u16, row: u16) -> MouseEvent {
    MouseEvent { kind, column, row }
}

#[test]
fn new_app_is_not_quitting() {
    let app = App::new();
    assert!(!app.should_quit);
    assert!(app.sidebar.is_empty());
    assert_eq!(app.scope, Scope::MainScreen);
    assert!(app.search.is_none());
    assert!(!app.find_open);
    assert!(app.pending_jump_message_uuid.is_none());
}

#[test]
fn q_sets_should_quit() {
    let mut app = Rig::new();
    app.handle_key(KeyEvent::new(KeyCode::Char('q'), KeyModifiers::none()));
    assert!(app.should_quit);
}

#[test]
fn ctrl_c_sets_should_quit() {
    let mut app = Rig::new();
    app.handle_key(KeyEvent::new(KeyCode::Char('c'), KeyModifiers::control()));
    assert!(app.should_quit);
}

#[test]
fn unknown_key_is_a_noop() {
    let mut app = Rig::new();
    let result = app.handle_key(KeyEvent::new(KeyCode::Char('x'), KeyModifiers::none()));
    assert!(result.is_none());
    assert!(!app.should_quit);
}

#[test]
fn k_moves_selection_up_and_wraps() {
    let mut app = Rig::new();
    app.sidebar = vec![item("a"), item("b"), item("c")];
    app.selected_session_id = Some("a".into());
    app.handle_key(KeyEvent::new(KeyCode::Char('k'), KeyModifiers::none()));
    assert_eq!(app.selected_session_id.as_deref(), Some("c"));
}

#[test]
fn moving_selection_resets_scroll() {
    let mut app = Rig::new();
    app.sidebar = vec![item("a"), item("b")];
    app.selected_session_id = Some("a".into());
    app.scroll = 42;
    app.handle_key(KeyEvent::new(KeyCode::Char('j'), KeyModifiers::none()));
    assert_eq!(app.scroll, 0);
}

#[test]
fn j_on_empty_sidebar_is_a_noop() {
    let mut app = Rig::new();
    app.handle_key(KeyEvent::new(KeyCode::Char('j'), KeyModifiers::none()));
    assert!(app.selected_session_id.is_none());
}

#[test]
fn home_jumps_to_top_and_end_to_bottom() {
    let mut app = Rig::new();
    app.scroll = 100;
    app.handle_key(KeyEvent::new(KeyCode::Home, KeyModifiers::none()));
    assert_eq!(app.scroll, 0);
    app.handle_key(KeyEvent::new(KeyCode::End, KeyModifiers::none()));
    assert_eq!(app.scroll, u16::MAX);
}

#[test]
fn page_down_adds_half_page_and_page_up_subtracts() {
    let mut app = Rig::new();
    app.scroll = 50;
    app.handle_key(KeyEvent::new(KeyCode::PageDown, KeyModifiers::none()));
    assert_eq!(app.scroll, 50 + HALF_PAGE);
    app.handle_key(KeyEvent::new(KeyCode::PageUp, KeyModifiers::none()));
    assert_eq!(app.scroll, 50);
}

#[test]
fn ctrl_d_and_ctrl_u_mirror_page_keys() {
    let mut app = Rig::new();
    app.scroll = 100;
    app.handle_key(KeyEvent::new(KeyCode::Char('u'), KeyModifiers::control()));
    assert_eq!(app.scroll, 100 - HALF_PAGE);
    app.handle_key(KeyEvent::new(KeyCode::Char('d'), KeyModifiers::control()));
    assert_eq!(app.scroll, 100);
}

#[test]
fn page_up_saturates_at_zero() {
    let mut app = Rig::new();
    app.scroll = 5;
    app.handle_key(KeyEvent::new(KeyCode::PageUp, KeyModifiers::none()));
    assert_eq!(app.scroll, 0);
}

#[test]
fn question_mark_opens_help_overlay() {
    let mut app = Rig::new();
    let r1 = app.handle_key(KeyEvent::new(KeyCode::Char('?'), KeyModifiers::none()));
    assert_eq!(r1, Some(Command::OpenHelp));
    assert!(app.help.is_some(), "help overlay state must be set");
    assert_eq!(app.scope, Scope::HelpOverlay);
    app.handle_key(KeyEvent::new(KeyCode::Esc, KeyModifiers::none()));
    assert!(app.help.is_none(), "help overlay must close on Esc");
    assert_eq!(app.scope, Scope::MainScreen);
    let r2 = app.handle_key(KeyEvent::new(KeyCode::Enter, KeyModifiers::none()));
    assert_eq!(r2, Some(Command::Confirm));
    assert!(!app.should_quit);
}

#[test]
fn slash_opens_search_modal_and_changes_scope() {
    let mut app = Rig::new();
    app.handle_key(KeyEvent::new(KeyCode::Char('/'), KeyModifiers::none()));
    assert!(app.search.is_some());
    assert_eq!(app.scope, Scope::SearchModal);
}

#[test]
fn esc_in_search_modal_closes_it() {
    let mut app = Rig::new();
    app.handle_key(KeyEvent::new(KeyCode::Char('/'), KeyModifiers::none()));
    app.handle_key(KeyEvent::new(KeyCode::Esc, KeyModifiers::none()));
    assert!(app.search.is_none());
    assert_eq!(app.scope, Scope::MainScreen);
}

#[test]
fn typing_in_search_modal_routes_to_modal_input() {
    let mut app = Rig::new();
    app.handle_key(KeyEvent::new(KeyCode::Char('/'), KeyModifiers::none()));
    for c in "abc".chars() {
        app.handle_key(KeyEvent::new(KeyCode::Char(c), KeyModifiers::none()));
    }
    assert_eq!(app.search.as_ref().unwrap().query_input, "abc");
    assert!(app.selected_session_id.is_none());
}

#[test]
fn f_opens_find_bar_and_changes_scope() {
    let mut app = Rig::new();
    app.handle_key(KeyEvent::new(KeyCode::Char('f'), KeyModifiers::control()));
    assert!(app.find_open);
    assert_eq!(app.scope, Scope::FindBar);
}

#[test]
fn esc_in_find_bar_closes_it() {
    let mut app = Rig::new();
    app.handle_key(KeyEvent::new(KeyCode::Char('f'), KeyModifiers::control()));
    app.handle_key(KeyEvent::new(KeyCode::Esc, KeyModifiers::none()));
    assert!(!app.find_open);
    assert_eq!(app.scope, Scope::MainScreen);
}

#[test]
fn typing_in_find_bar_routes_to_bar_input() {
    let mut app = Rig::new();
    app.transcript = lined(vec![msg("u1", "user", "hello world")]);
    app.handle_key(KeyEvent::new(KeyCode::Char('f'), KeyModifiers::control()));
    for c in "hello".chars() {
        app.handle_key(KeyEvent::new(KeyCode::Char(c), KeyModifiers::none()));
    }
    let fs = &app.store.find;
    assert_eq!(fs.query, "hello");
    assert_eq!(fs.matches.len(), 1);
}

#[test]
fn find_bar_enter_scrolls_to_message_and_closes() {
    let mut app = Rig::new();
    app.transcript = lined(vec![
        msg("u1", "user", "alpha"),
        msg("u2", "assistant", "target here"),
    ]);
    app.handle_key(KeyEvent::new(KeyCode::Char('f'), KeyModifiers::control()));
    for c in "target".chars() {
        app.handle_key(KeyEvent::new(KeyCode::Char(c), KeyModifiers::none()));
    }
    {
        let fs = &app.store.find;
        assert_eq!(fs.query, "target");
        assert_eq!(fs.matches.len(), 1);
        assert_eq!(fs.matches[0], 1);
    }
    app.handle_key(KeyEvent::new(KeyCode::Enter, KeyModifiers::none()));
    assert!(!app.find_open);
    assert_eq!(app.scroll, 3);
}

#[test]
fn search_modal_jump_sets_pending_uuid_and_session() {
    let mut app = Rig::new();
    app.handle_key(KeyEvent::new(KeyCode::Char('/'), KeyModifiers::none()));
    {
        let state = app.search.as_mut().unwrap();
        state.hits.push(Hit {
            message_uuid: "msg-42".into(),
            session_id: "sess-xyz".into(),
            snippet: "snip".into(),
        });
        state.committed_query = "needle".into();
    }
    app.handle_key(KeyEvent::new(KeyCode::Enter, KeyModifiers::none()));
    assert!(app.search.is_none());
    assert_eq!(
        app.pending_jump_message_uuid.as_deref(),
        Some("msg-42")
    );
    assert_eq!(app.selected_session_id.as_deref(), Some("sess-xyz"));
    assert_eq!(app.scope, Scope::MainScreen);
}

#[test]
fn try_resolve_pending_jump_sets_scroll_when_uuid_present() {
    let mut app = Rig::new();
    app.transcript = lined(vec![
        msg("a", "user", "alpha"),
        msg("b", "assistant", "beta line"),
    ]);
    app.pending_jump_message_uuid = Some("b".into());
    app.try_resolve_pending_jump();
    assert_eq!(app.scroll, 3);
    assert!(app.pending_jump_message_uuid.is_none());
}

#[test]
fn try_resolve_pending_jump_is_noop_when_uuid_missing() {
    let mut app = Rig::new();
    app.transcript = lined(vec![msg("a", "user", "alpha")]);
    app.pending_jump_message_uuid = Some("does-not-exist".into());
    app.scroll = 7;
    app.try_resolve_pending_jump();
    assert_eq!(app.scroll, 7);
    assert!(app.pending_jump_message_uuid.is_some());
}

#[test]
fn pressing_space_toggles_bookmark_in_db_and_updates_status_message() {
    let (mut app, _sid, _uuid) = seeded_app();
    assert_eq!(app.store.bookmarks.len(), 0, "starts empty");
    app.handle_key(KeyEvent::new(KeyCode::Char(' '), KeyModifiers::none()));
    assert_eq!(app.store.bookmarks.len(), 1, "row inserted on Space");
    assert_eq!(app.status_message.as_deref(), Some("★ bookmarked"));
    app.handle_key(KeyEvent::new(KeyCode::Char(' '), KeyModifiers::none()));
    assert_eq!(app.store.bookmarks.len(), 0, "row removed on second Space");
    assert_eq!(app.status_message.as_deref(), Some("removed bookmark"));
}

#[test]
fn pressing_s_now_cycles_status_stub_per_python_parity() {
    let (mut app, _sid, _uuid) = seeded_app();
    let res = app.handle_key(KeyEvent::new(KeyCode::Char('s'), KeyModifiers::none()));
    assert_eq!(res, Some(Command::CycleSessionStatus));
    assert!(app.label_prompt.is_none(), "label_prompt must NOT open on s");
    assert!(
        app.status_message
            .as_deref()
            .unwrap_or("")
            .to_ascii_lowercase()
            .contains("not implemented"),
        "expected stub status; got {:?}",
        app.status_message
    );
}

#[test]
fn read_only_skips_writes() {
    let (mut app, _sid, _uuid) = seeded_app();
    app.read_only = true;
    app.handle_key(KeyEvent::new(KeyCode::Char(' '), KeyModifiers::none()));
    assert_eq!(app.store.bookmarks.len(), 0, "no write while read-only");
    let s = app.status_message.as_deref().unwrap_or("");
    assert!(
        s.to_ascii_lowercase().contains("read-only"),
        "expected read-only status message; got {s:?}"
    );
}

#[test]
fn ctrl_j_and_ctrl_k_move_message_cursor() {
    let (mut app, _sid, _uuid) = seeded_app();
    app.transcript = lined(vec![
        msg("u1", "user", "alpha"),
        msg("u2", "assistant", "beta"),
    ]);
    app.message_cursor = 0;
    app.handle_key(KeyEvent::new(KeyCode::Char('j'), KeyModifiers::control()));
    assert_eq!(app.message_cursor, 1);
    app.handle_key(KeyEvent::new(KeyCode::Char('k'), KeyModifiers::control()));
    assert_eq!(app.message_cursor, 0);
    app.handle_key(KeyEvent::new(KeyCode::Char('k'), KeyModifiers::control()));
    assert_eq!(app.message_cursor, 0);
}

#[test]
fn esc_in_bookmark_browser_closes_modal() {
    let (mut app, _sid, _uuid) = seeded_app();
    app.handle_key(KeyEvent::new(KeyCode::Char('b'), KeyModifiers::none()));
    assert!(app.bookmark_browser.is_some());
    app.handle_key(KeyEvent::new(KeyCode::Esc, KeyModifiers::none()));
    assert!(app.bookmark_browser.is_none());
    assert_eq!(app.scope, Scope::MainScreen);
}

#[test]
fn esc_in_label_prompt_closes_modal() {
    let (mut app, _sid, _uuid) = seeded_app();
    app.handle_key(KeyEvent::new(KeyCode::Char('L'), KeyModifiers::shift()));
    assert!(app.label_prompt.is_some());
    app.handle_key(KeyEvent::new(KeyCode::Esc, KeyModifiers::none()));
    assert!(app.label_prompt.is_none());
    assert_eq!(app.scope, Scope::MainScreen);
}

#[test]
fn selection_mode_m_enters_and_esc_exits() {
    let mut app = Rig::new();
    app.transcript = lined(vec![
        msg("u1", "user", "alpha"),
        msg("u2", "assistant", "beta"),
        msg("u3", "user", "gamma"),
    ]);
    app.handle_key(KeyEvent::new(KeyCode::Char('m'), KeyModifiers::none()));
    assert_eq!(app.scope, Scope::Selection);
    assert!(app.selection_state.is_some(), "selection_state should be Some");
    let cur = app.selection_state.unwrap().cursor;
    assert_eq!(cur, 2);
    app.handle_key(KeyEvent::new(KeyCode::Esc, KeyModifiers::none()));
    assert_eq!(app.scope, Scope::MainScreen);
    assert!(app.selection_state.is_none());
}

#[test]
fn selection_cursor_j_moves_down() {
    let mut app = Rig::new();
    app.transcript = lined(vec![
        msg("u1", "user", "alpha"),
        msg("u2", "assistant", "beta"),
        msg("u3", "user", "gamma"),
    ]);
    app.handle_key(KeyEvent::new(KeyCode::Char('m'), KeyModifiers::none()));
    app.selection_state.as_mut().unwrap().cursor = 0;
    app.handle_key(KeyEvent::new(KeyCode::Char('j'), KeyModifiers::none()));
    assert_eq!(app.selection_state.unwrap().cursor, 1);
    app.handle_key(KeyEvent::new(KeyCode::Char('k'), KeyModifiers::none()));
    assert_eq!(app.selection_state.unwrap().cursor, 0);
    app.handle_key(KeyEvent::new(KeyCode::Char('k'), KeyModifiers::none()));
    assert_eq!(app.selection_state.unwrap().cursor, 0);
}

#[test]
fn selection_range_v_toggles_range_start() {
    let mut app = Rig::new();
    app.transcript = lined(vec![
        msg("u1", "user", "alpha"),
        msg("u2", "assistant", "beta"),
    ]);
    app.handle_key(KeyEvent::new(KeyCode::Char('m'), KeyModifiers::none()));
    assert!(app.selection_state.unwrap().range_start.is_none());
    app.handle_key(KeyEvent::new(KeyCode::Char('v'), KeyModifiers::none()));
    assert!(app.selection_state.unwrap().range_start.is_some());
    app.handle_key(KeyEvent::new(KeyCode::Char('v'), KeyModifiers::none()));
    assert!(app.selection_state.unwrap().range_start.is_none());
}

#[test]
fn selection_mode_scrolls_cursor_into_view_on_enter() {
    let mut app = Rig::new();
    let mut transcript = Vec::new();
    for i in 0..50 {
        let role = if i % 2 == 0 { "user" } else { "assistant" };
        transcript.push(msg(
            &format!("u{i}"),
            role,
            &format!("message {i} body"),
        ));
    }
    app.transcript = lined(transcript);
    app.scroll = 0;
    app.handle_key(KeyEvent::new(KeyCode::Char('m'), KeyModifiers::none()));
    assert!(
        app.scroll > 0,
        "enter_selection_mode should scroll cursor (at len-1) into view; \
         scroll is still 0 with 50 messages"
    );
}

#[test]
fn selection_space_toggles_bookmark_on_selected_message() {
    let (mut app, _sid, _uuid) = seeded_app();
    app.handle_key(KeyEvent::new(KeyCode::Char('m'), KeyModifiers::none()));
    app.status_message = None;
    app.handle_key(KeyEvent::new(KeyCode::Char(' '), KeyModifiers::none()));
    assert!(
        app.status_message.is_some(),
        "Space in selection mode should produce a status_message"
    );
}

#[test]
fn scroll_target_set_via_pagedown_eventually_reaches_target_with_anim_disabled() {
    let mut app = Rig::new();
    assert!(app.no_anim, "the rig switches animations off");
    app.handle_key(KeyEvent::new(KeyCode::PageDown, KeyModifiers::none()));
    assert_eq!(app.scroll, HALF_PAGE);
    assert_eq!(app.scroll_target, HALF_PAGE);
    assert!(
        app.scroll_tween.is_none(),
        "no_anim path must not start a tween"
    );
}

#[test]
fn mouse_sidebar_click_selects_session_at_row() {
    let mut app = Rig::new();
    app.sidebar = vec![item("alpha"), item("beta"), item("gamma")];
    app.last_sidebar_rect = Rect { x: 0, y: 0, width: 36, height: 10 };
    app.last_sidebar_rows = vec![
        SidebarRowKind::Session(0),
        SidebarRowKind::Session(1),
        SidebarRowKind::Session(2),
    ];
    let action = app.handle_mouse(left_down(5, 1));
    assert_eq!(action, Some(HitAction::SelectSessionAt(1)));
    assert_eq!(app.selected_session_id.as_deref(), Some("beta"));
    assert_eq!(app.pane_focus, PaneFocus::Sidebar);
}

#[test]
fn mouse_sidebar_click_on_header_is_a_noop() {
    let mut app = Rig::new();
    app.sidebar = vec![item("alpha")];
    app.last_sidebar_rect = Rect { x: 0, y: 0, width: 36, height: 10 };
    app.last_sidebar_rows =
        vec![SidebarRowKind::Header, SidebarRowKind::Session(0)];
    let action = app.handle_mouse(left_down(5, 0));
    assert!(action.is_none(), "clicking a header row must not emit a hit");
    assert!(app.selected_session_id.is_none());
}

#[test]
fn mouse_scroll_wheel_inside_transcript_moves_scroll() {
    let mut app = Rig::new();
    app.scroll = 10;
    app.last_transcript_rect = Rect { x: 36, y: 1, width: 84, height: 30 };
    let down = app.handle_mouse(scroll_event(MouseEventKind::ScrollDown, 50, 5));
    assert_eq!(down, Some(HitAction::ScrollTranscript(1)));
    assert_eq!(app.scroll, 11);
    let up = app.handle_mouse(scroll_event(MouseEventKind::ScrollUp, 50, 5));
    assert_eq!(up, Some(HitAction::ScrollTranscript(-1)));
    assert_eq!(app.scroll, 10);
}

#[test]
fn mouse_scroll_wheel_outside_transcript_is_a_noop() {
    let mut app = Rig::new();
    app.scroll = 10;
    app.last_transcript_rect = Rect { x: 36, y: 1, width: 84, height: 30 };
    let action = app.handle_mouse(scroll_event(MouseEventKind::ScrollDown, 5, 5));
    assert!(action.is_none());
    assert_eq!(app.scroll, 10);
}

#[test]
fn mouse_click_on_find_bar_close_glyph_closes_bar() {
    let mut app = Rig::new();
    app.handle_key(KeyEvent::new(KeyCode::Char('f'), KeyModifiers::control()));
    assert!(app.find_open);
    app.last_find_bar_rect = Rect { x: 0, y: 5, width: 40, height: 1 };
    let action = app.handle_mouse(left_down(38, 5));
    assert_eq!(action, Some(HitAction::CloseFindBar));
    assert!(!app.find_open);
    assert_eq!(app.scope, Scope::MainScreen);
}

#[test]
fn mouse_moved_event_records_cursor() {
    let mut app = Rig::new();
    let moved = MouseEvent {
        kind: MouseEventKind::Moved,
        column: 12,
        row: 7,
    };
    let _ = app.handle_mouse(moved);
    assert_eq!(app.mouse_cursor, Some((12, 7)));
}

#[test]
fn focus_list_command_promotes_sidebar_focus() {
    let mut app = Rig::new();
    assert_eq!(app.pane_focus, PaneFocus::Transcript);
    app.handle_key(KeyEvent::new(KeyCode::Char('h'), KeyModifiers::none()));
    assert_eq!(app.pane_focus, PaneFocus::Sidebar);
    app.handle_key(KeyEvent::new(KeyCode::Char('l'), KeyModifiers::none()));
    assert_eq!(app.pane_focus, PaneFocus::Transcript);
}

#[test]
fn scroll_setter_with_anim_off_under_test_keeps_legacy_tests_green() {
    let mut app = Rig::new();
    app.scroll = 50;
    app.handle_key(KeyEvent::new(KeyCode::PageDown, KeyModifiers::none()));
    assert_eq!(app.scroll, 50 + HALF_PAGE);
}

#[test]
fn selection_mode_y_emits_clipboard_status_message_on_success() {
    let mut app = Rig::new();
    app.transcript = lined(vec![
        msg("u1", "user", "alpha line"),
        msg("u2", "assistant", "beta line"),
    ]);
    app.handle_key(KeyEvent::new(KeyCode::Char('m'), KeyModifiers::none()));
    assert_eq!(app.scope, Scope::Selection);
    app.handle_key(KeyEvent::new(KeyCode::Char('y'), KeyModifiers::none()));
    let s = app.status_message.as_deref().unwrap_or("");
    let copied = s.starts_with("Copied ") && s.contains("chars to clipboard");
    let unavailable = s.starts_with("Clipboard unavailable");
    assert!(
        copied || unavailable,
        "expected copy success or unavailable status; got {s:?}"
    );
    assert!(
        !s.contains("not yet wired"),
        "stub message still present: {s:?}"
    );
}

#[test]
fn j_moves_selection_down_and_publishes_watch() {
    let mut app = Rig::new();
    app.sidebar = vec![item("a"), item("b"), item("c")];
    app.selected_session_id = Some("a".into());
    app.handle_key(KeyEvent::new(KeyCode::Char('j'), KeyModifiers::none()));
    assert_eq!(app.selected_session_id.as_deref(), Some("b"));
    assert_eq!(app.store.published, vec![Some("b".to_string())]);
}

#[test]
fn apply_cli_session_sets_selection_and_publishes_watch() {
    let mut app = Rig::new();
    app.apply_cli(None, None, Some("preselected".into()));
    app.settle();
    assert_eq!(app.selected_session_id.as_deref(), Some("preselected"));
    assert_eq!(app.store.published, vec![Some("preselected".to_string())]);
}

fn refreshed(items: Vec<SessionListItem>, now: i64) -> WorkerEvent {
    WorkerEvent::SessionsRefreshed {
        candidates: items
            .into_iter()
            .map(|item| Candidate { item, derived_project: None })
            .collect(),
        now,
    }
}

#[test]
fn project_filter_excludes_unmatched_sessions() {
    let mut app = Rig::new();
    app.project_filter = Some("myproject".into());
    let mut a = item("sess-a");
    a.project = Some("myproject".into());
    let mut b = item("sess-b");
    b.project = Some("other".into());
    handle_worker_event(&mut app, refreshed(vec![a, b], 0));
    assert_eq!(app.sidebar.len(), 1, "only matching session should remain");
    assert_eq!(app.sidebar[0].session_id, "sess-a");
}

#[test]
fn days_filter_excludes_old_sessions() {
    let mut app = Rig::new();
    app.days_filter = Some(7);
    let day: i64 = 86_400_000_000;
    let now = 20_000 * day;
    let mut fresh = item("fresh");
    fresh.last_active_at = Some(now - 3 * day);
    let mut stale = item("stale");
    stale.last_active_at = Some(now - 30 * day);
    handle_worker_event(&mut app, refreshed(vec![fresh, stale], now));
    let ids: Vec<&str> = app.sidebar.iter().map(|i| i.session_id.as_str()).collect();
    assert_eq!(ids, vec!["fresh"], "old session must be filtered out");
}

#[test]
fn pressing_k_visibly_switches_transcript_to_prev_session() {
    let mut app = Rig::new();
    app.sidebar = vec![item("s1"), item("s2"), item("s3")];
    app.selected_session_id = Some("s2".into());
    handle_worker_event(
        &mut app,
        WorkerEvent::TranscriptRefreshed {
            session_id: "s2".into(),
            messages: vec![msg("m1", "user", "SESSION-TWO-CONTENT")],
        },
    );
    assert_eq!(app.transcript[0].text, "SESSION-TWO-CONTENT");
    app.handle_key(KeyEvent::new(KeyCode::Char('k'), KeyModifiers::none()));
    assert_eq!(app.selected_session_id.as_deref(), Some("s1"));
    handle_worker_event(
        &mut app,
        WorkerEvent::TranscriptRefreshed {
            session_id: "s1".into(),
            messages: vec![msg("m2", "user", "SESSION-ONE-CONTENT")],
        },
    );
    let shown: Vec<&str> = app.transcript.iter().map(|m| m.text.as_str()).collect();
    assert_eq!(shown, vec!["SESSION-ONE-CONTENT"]);
}

#[test]
fn pressing_b_opens_bookmark_browser_modal() {
    let (mut app, _sid, _uuid) = seeded_app();
    assert!(open_modals(&app).is_empty(), "nothing is open yet");
    app.handle_key(KeyEvent::new(KeyCode::Char('b'), KeyModifiers::none()));
    assert!(app.bookmark_browser.is_some(), "browser state set");
    assert_eq!(app.scope, Scope::BookmarkBrowser);
    assert_eq!(open_modals(&app), vec![Modal::BookmarkBrowser]);
}

#[test]
fn pressing_shift_l_opens_label_prompt_modal() {
    let (mut app, _sid, _uuid) = seeded_app();
    assert!(open_modals(&app).is_empty());
    app.handle_key(KeyEvent::new(KeyCode::Char('L'), KeyModifiers::shift()));
    assert!(app.label_prompt.is_some(), "label_prompt state set");
    assert_eq!(app.scope, Scope::LabelPrompt);
    assert_eq!(open_modals(&app), vec![Modal::LabelPrompt]);
    assert!(label_prompt::title(app.label_prompt.as_ref().unwrap()).contains("Label:"));
}

#[test]
fn pressing_shift_b_opens_kanban_modal() {
    let (mut app, _sid, _uuid) = seeded_app();
    assert!(open_modals(&app).is_empty());
    app.handle_key(KeyEvent::new(KeyCode::Char('B'), KeyModifiers::shift()));
    assert!(app.kanban.is_some(), "kanban state set");
    assert_eq!(app.scope, Scope::Kanban);
    assert_eq!(open_modals(&app), vec![Modal::Kanban]);
}

#[test]
fn pressing_c_opens_conflict_viewer() {
    let (mut app, _sid, _uuid) = seeded_app();
    assert!(open_modals(&app).is_empty());
    app.handle_key(KeyEvent::new(KeyCode::Char('c'), KeyModifiers::none()));
    assert!(app.conflict_viewer.is_some(), "viewer state set");
    assert_eq!(app.scope, Scope::ConflictViewer);
    assert_eq!(open_modals(&app), vec![Modal::ConflictViewer]);
}

#[test]
fn pressing_question_opens_help_overlay() {
    let mut app = Rig::new();
    app.sidebar = vec![item("s1")];
    app.selected_session_id = Some("s1".into());
    assert!(open_modals(&app).is_empty());
    app.handle_key(KeyEvent::new(KeyCode::Char('?'), KeyModifiers::none()));
    assert!(app.help.is_some(), "help state must be set");
    assert_eq!(app.scope, Scope::HelpOverlay);
    assert_eq!(open_modals(&app), vec![Modal::Help]);
    app.handle_key(KeyEvent::new(KeyCode::Esc, KeyModifiers::none()));
    assert!(app.help.is_none(), "help should close on Esc");
    assert_eq!(app.scope, Scope::MainScreen);
}

#[test]
fn confirm_yes_executes_pending_action() {
    let (mut app, _sid, uuid) = seeded_app();
    app.store.bookmarks.push((5, uuid, Some("the note".to_string())));
    let bookmark_id = 5;
    app.handle_key(KeyEvent::new(KeyCode::Char('b'), KeyModifiers::none()));
    assert!(app.bookmark_browser.is_some());
    assert_eq!(
        app.bookmark_browser.as_ref().unwrap().bookmarks.len(),
        1,
        "browser should see the seeded bookmark"
    );
    app.handle_key(KeyEvent::new(KeyCode::Char('d'), KeyModifiers::none()));
    assert!(app.confirm.is_some(), "confirm modal should open");
    match app.confirm.as_ref().unwrap().on_yes {
        PendingAction::DeleteBookmark { bookmark_id: id } => {
            assert_eq!(id, bookmark_id, "pending id should match the seeded row");
        }
    }
    app.handle_key(KeyEvent::new(KeyCode::Char('y'), KeyModifiers::none()));
    assert!(app.confirm.is_none(), "confirm should close");
    assert_eq!(app.store.bookmarks.len(), 0, "row deleted on Yes");
    assert_eq!(app.status_message.as_deref(), Some("bookmark deleted"));
}

#[test]
fn confirm_no_keeps_bookmark_and_returns_to_browser() {
    let (mut app, _sid, uuid) = seeded_app();
    app.store.bookmarks.push((1, uuid, None));
    app.handle_key(KeyEvent::new(KeyCode::Char('b'), KeyModifiers::none()));
    app.handle_key(KeyEvent::new(KeyCode::Char('d'), KeyModifiers::none()));
    assert!(app.confirm.is_some());
    app.handle_key(KeyEvent::new(KeyCode::Char('n'), KeyModifiers::none()));
    assert!(app.confirm.is_none(), "confirm closes on No");
    assert!(app.bookmark_browser.is_some(), "browser stays open on No");
    assert_eq!(app.scope, Scope::BookmarkBrowser, "scope returns to browser");
    assert_eq!(app.store.bookmarks.len(), 1, "row preserved");
}

#[test]
fn label_prompt_status_chosen_writes_to_db() {
    let (mut app, sid, _uuid) = seeded_app();
    app.handle_key(KeyEvent::new(KeyCode::Char('L'), KeyModifiers::shift()));
    app.handle_key(KeyEvent::new(KeyCode::Char('j'), KeyModifiers::none()));
    app.handle_key(KeyEvent::new(KeyCode::Enter, KeyModifiers::none()));
    assert!(app.label_prompt.is_none(), "modal closes after Enter");
    assert_eq!(app.store.status_of(&sid), Some(SessionStatus::InProgress));
}

#[test]
fn kanban_status_changed_writes_to_db() {
    let (mut app, sid, _uuid) = seeded_app();
    app.handle_key(KeyEvent::new(KeyCode::Char('B'), KeyModifiers::shift()));
    assert!(app.kanban.is_some());
    app.handle_key(KeyEvent::new(KeyCode::Char('m'), KeyModifiers::none()));
    assert_eq!(
        app.store.status_of(&sid),
        Some(SessionStatus::InProgress),
        "expected InProgress after m"
    );
    let sidebar_status =
        app.sidebar.iter().find(|i| i.session_id == sid).map(|i| i.status).unwrap();
    assert!(matches!(sidebar_status, SessionStatus::InProgress));
}

#[test]
fn kanban_status_changed_reverts_on_db_error() {
    let (mut app, sid, _uuid) = seeded_app();
    app.handle_key(KeyEvent::new(KeyCode::Char('B'), KeyModifiers::shift()));
    app.read_only = true;
    app.handle_key(KeyEvent::new(KeyCode::Char('m'), KeyModifiers::none()));
    assert_eq!(
        app.store.status_of(&sid),
        Some(SessionStatus::Active),
        "row must stay Active when read_only blocks the write"
    );
    let s = app.kanban.as_ref().unwrap();
    assert_eq!(s.items_in_column(0).len(), 1, "item back in Active column");
    assert_eq!(s.items_in_column(1).len(), 0);
    assert!(
        app.status_message.as_deref().unwrap_or("").to_ascii_lowercase().contains("read-only"),
        "expected read-only status message"
    );
}

#[test]
fn toggle_bookmark_skips_when_message_not_in_db() {
    let mut app = Rig::new();
    app.transcript = lined(vec![msg("not-in-db", "user", "ghost")]);
    app.message_cursor = 0;
    app.handle_key(KeyEvent::new(KeyCode::Char(' '), KeyModifiers::none()));
    assert_eq!(app.store.bookmarks.len(), 0, "no row should be inserted for missing message");
    let status = app.status_message.as_deref().unwrap_or("");
    assert!(
        status.to_ascii_lowercase().contains("not yet indexed"),
        "expected friendly status; got {status:?}"
    );
}

#[test]
fn scroll_easing_intermediate_value_between_from_and_to_when_anim_enabled() {
    let mut app = App::new();
    assert!(!app.no_anim);
    let now = Instant::now();
    app.clock = Clock::Frozen(now);
    app.scroll = 0;
    app.set_scroll(100);
    let tween = app.scroll_tween.expect("a scroll is under way");
    assert_eq!((tween.to, tween.started_at), (100, now));
    app.clock = Clock::Frozen(now + Duration::from_millis(75));
    app.tick_animations(ScrollSample { row: 88, on_row: false, done: false });
    assert!(
        app.scroll > 0 && app.scroll < 100,
        "mid-tween scroll should be strictly between 0 and 100; got {}",
        app.scroll
    );
    app.clock = Clock::Frozen(now + Duration::from_millis(300));
    app.tick_animations(ScrollSample { row: 100, on_row: true, done: true });
    assert_eq!(app.scroll, 100);
    assert!(app.scroll_tween.is_none(), "tween must clear after duration");
}

#[test]
fn no_anim_env_var_disables_easing() {
    for value in ["1", "true", "TRUE", "True"] {
        let mut app = App::new_with_theme_name(None, &None, None, Some(value.to_string()));
        app.set_scroll(42);
        assert!(app.scroll_tween.is_none(), "{value} must not start a tween");
        assert_eq!(app.scroll, 42);
    }
    for value in ["0", "yes", ""] {
        let mut app = App::new_with_theme_name(None, &None, None, Some(value.to_string()));
        app.set_scroll(42);
        assert!(app.scroll_tween.is_some(), "{value:?} leaves animations on");
        assert_eq!(app.scroll_target, 42);
    }
}

#[test]
fn selection_mode_y_does_not_panic_when_no_selection() {
    let mut app = Rig::new();
    assert!(app.selection_state.is_none());
    app.copy_selection_to_clipboard();
    app.settle();
    let s = app.status_message.as_deref().unwrap_or("");
    assert!(!s.is_empty(), "expected a soft status message when no selection; got empty");
    assert!(!s.contains("not yet wired"), "stub message must not appear: {s:?}");
    assert!(app.store.copied.is_empty());
}

#[test]
fn the_theme_comes_with_the_start() {
    let config = Some(b"{\"theme\": \"nord\"}".to_vec());
    let app = App::new_with_theme_name(None, &config, None, None);
    assert_eq!(app.theme_name.as_deref(), Some("nord"));
    let app = App::new_with_theme_name(Some("cursor-dark".to_string()), &config, None, None);
    assert_eq!(app.theme_name.as_deref(), Some("cursor-dark"));
}

#[test]
fn without_a_database_nothing_is_written() {
    let app = App::new_with_theme_name(None, &None, Some("locked".to_string()), None);
    assert!(app.read_only);
    assert_eq!(app.status_message.as_deref(), Some("DB unavailable: locked"));
    assert_eq!(App::new().status_message.as_deref(), Some("Press ? for keybindings"));
}

#[test]
fn read_only_asks_for_no_write_from_any_modal() {
    let (mut app, _sid, uuid) = seeded_app();
    app.store.bookmarks.push((1, uuid, None));
    app.read_only = true;
    for code in [KeyCode::Char('b'), KeyCode::Char('d'), KeyCode::Char('y'), KeyCode::Esc] {
        app.press(code);
    }
    app.handle_key(KeyEvent::new(KeyCode::Char('L'), KeyModifiers::shift()));
    for code in [KeyCode::Char('j'), KeyCode::Enter] {
        app.press(code);
    }
    assert_eq!(app.store.bookmarks.len(), 1);
    assert_eq!(app.store.status_of("sess-1"), Some(SessionStatus::Active));
    assert!(app.store.names.is_empty());
}

#[test]
fn a_refused_write_is_reported_and_the_board_put_back() {
    let (mut app, _sid, _uuid) = seeded_app();
    app.store.fault = Some("disk full".to_string());
    app.press(KeyCode::Char(' '));
    assert!(app.status_message.as_deref().unwrap().contains("disk full"));
    app.handle_key(KeyEvent::new(KeyCode::Char('B'), KeyModifiers::shift()));
    app.press(KeyCode::Char('m'));
    assert!(app.status_message.as_deref().unwrap().contains("disk full"));
    assert_eq!(app.kanban.as_ref().unwrap().items_in_column(0).len(), 1);
    assert_eq!(app.sidebar[0].status, SessionStatus::Active);
}

#[test]
fn a_foreign_key_error_says_that_the_message_is_not_indexed() {
    let mut app = App::new();
    app.bookmark_toggled(Err("FOREIGN KEY constraint failed".to_string()));
    assert_eq!(
        app.status_message.as_deref(),
        Some("Cannot bookmark — message not yet indexed")
    );
}

#[test]
fn a_custom_name_is_stored_and_shown() {
    let (mut app, sid, _uuid) = seeded_app();
    app.handle_key(KeyEvent::new(KeyCode::Char('L'), KeyModifiers::shift()));
    app.press(KeyCode::Tab);
    for _ in 0.."sess-1".len() {
        app.press(KeyCode::Backspace);
    }
    for c in "mine".chars() {
        app.press(KeyCode::Char(c));
    }
    app.press(KeyCode::Enter);
    assert_eq!(app.store.names, vec![(sid, Some("mine".to_string()))]);
    assert_eq!(app.scope, Scope::MainScreen);
}

#[test]
fn released_keys_do_nothing() {
    let mut app = Rig::new();
    let ev = KeyEvent {
        code: KeyCode::Char('q'),
        modifiers: KeyModifiers::none(),
        kind: KeyEventKind::Release,
    };
    assert_eq!(app.handle_key(ev), None);
    assert!(!app.should_quit);
}

#[test]
fn a_range_of_messages_is_copied() {
    let mut app = Rig::new();
    app.transcript = lined(vec![
        msg("u1", "You", "alpha"),
        msg("u2", "Agent", "beta"),
        msg("u3", "You", "gamma"),
    ]);
    app.press(KeyCode::Char('m'));
    app.press(KeyCode::Char('v'));
    app.press(KeyCode::Char('k'));
    app.press(KeyCode::Char('y'));
    let copied = app.store.copied.pop().unwrap();
    assert!(!copied.contains("alpha"));
    assert!(copied.find("beta").unwrap() < copied.find("gamma").unwrap());
    assert_eq!(
        app.status_message,
        Some(format!("Copied {} chars to clipboard", copied.chars().count()))
    );
}

#[test]
fn the_clipboard_may_be_missing() {
    let mut app = App::new();
    app.clipboard_finished(3, Err(ClipboardError::Unavailable));
    assert!(app.status_message.as_deref().unwrap().starts_with("Clipboard unavailable"));
}

#[test]
fn a_closed_search_is_not_remembered_but_a_jump_is() {
    let mut app = Rig::new();
    app.press(KeyCode::Char('/'));
    app.press(KeyCode::Char('x'));
    app.press(KeyCode::Esc);
    assert!(app.store.recents.is_empty());
    app.press(KeyCode::Char('/'));
    {
        let state = app.search.as_mut().unwrap();
        state.hits.push(Hit {
            message_uuid: "u9".into(),
            session_id: "s9".into(),
            snippet: "snip".into(),
        });
        state.committed_query = "needle".into();
    }
    app.press(KeyCode::Enter);
    assert_eq!(app.store.recents, vec!["needle".to_string()]);
    app.press(KeyCode::Char('/'));
    assert_eq!(app.search.as_ref().unwrap().recents, vec!["needle".to_string()]);
}

#[test]
fn a_jump_arrives_when_its_transcript_does() {
    let mut app = Rig::new();
    app.sidebar = vec![item("s1"), item("s2")];
    app.selected_session_id = Some("s2".into());
    app.pending_jump_message_uuid = Some("b".into());
    let messages = lined(vec![msg("a", "user", "alpha"), msg("b", "user", "beta")]);
    handle_worker_event(
        &mut app,
        WorkerEvent::TranscriptRefreshed { session_id: "s2".into(), messages },
    );
    assert_eq!(app.scroll, 3);
    assert_eq!(app.pending_jump_message_uuid, None);
}

fn contradiction(refs: &[&str], topic: &str) -> Observation {
    Observation::Conflict {
        refs: refs.iter().map(|s| s.to_string()).collect(),
        topic: topic.to_string(),
        ts: "2026-05-20T10:00:00Z".to_string(),
        text: Some(format!("on {topic}")),
    }
}

#[test]
fn unresolved_conflicts_are_counted_in_the_sidebar() {
    let (mut app, sid, _uuid) = seeded_app();
    app.store.observations =
        vec![Some(vec![contradiction(&["x"], "cache"), contradiction(&["y"], "retry")])];
    app.store.reviews = vec![Review {
        session_id: sid,
        refs_key: normalize_conflict_refs(&vec!["y".to_string()]),
        topic: "retry".to_string(),
    }];
    app.press(KeyCode::Char('c'));
    assert_eq!(app.conflict_viewer.as_ref().unwrap().conflicts.len(), 2);
    assert_eq!(app.sidebar[0].unresolved_conflict_count, 1);
}

#[test]
fn status_changes_carry_where_they_were_asked_for() {
    let (app, _sid, _uuid) = seeded_app();
    let mut app = app.app;
    app.handle_key(KeyEvent::new(KeyCode::Char('B'), KeyModifiers::shift()));
    assert_eq!(app.take_effects(), vec![Effect::LoadStatuses]);
    app.statuses_loaded(&vec![]);
    app.handle_key(KeyEvent::new(KeyCode::Char('m'), KeyModifiers::none()));
    assert_eq!(
        app.take_effects(),
        vec![Effect::SetStatus {
            session_id: "sess-1".to_string(),
            status: SessionStatus::InProgress,
            origin: StatusOrigin::Board,
        }]
    );
}

#[test]
fn five_steps_down_and_up_lead_back() {
    let mut app = Rig::new();
    app.sidebar = vec![item("a"), item("b"), item("c")];
    app.selected_session_id = Some("b".into());
    for _ in 0..5 {
        app.press(KeyCode::Char('j'));
    }
    assert_eq!(app.selected_session_id.as_deref(), Some("a"));
    for _ in 0..5 {
        app.press(KeyCode::Char('k'));
    }
    assert_eq!(app.selected_session_id.as_deref(), Some("b"));
}

#[test]
fn the_backdrop_goes_with_the_last_modal() {
    let (mut app, _sid, uuid) = seeded_app();
    app.store.bookmarks.push((1, uuid, None));
    let still = ScrollSample { row: 0, on_row: true, done: true };
    app.press(KeyCode::Char('b'));
    app.press(KeyCode::Char('d'));
    assert_eq!(open_modals(&app), vec![Modal::BookmarkBrowser, Modal::Confirm]);
    app.press(KeyCode::Char('n'));
    app.tick_animations(still);
    assert!(app.modal_opened_at.is_some(), "the browser is still open");
    app.press(KeyCode::Esc);
    app.tick_animations(still);
    assert!(app.modal_opened_at.is_none());
}

#[test]
fn help_keeps_keys_from_what_lies_under_it() {
    let mut app = Rig::new();
    app.sidebar = vec![item("a"), item("b")];
    app.selected_session_id = Some("a".into());
    app.press(KeyCode::Char('?'));
    assert_eq!(app.press(KeyCode::Char('j')), None);
    assert_eq!(app.press(KeyCode::PageDown), None);
    assert_eq!(app.selected_session_id.as_deref(), Some("a"));
    assert_eq!(app.scroll, 0);
    assert!(app.help.is_some());
}

#[test]
fn the_selection_stops_at_the_last_message() {
    let mut app = Rig::new();
    app.transcript = lined(vec![msg("u1", "You", "alpha"), msg("u2", "You", "beta")]);
    app.press(KeyCode::Char('m'));
    for _ in 0..4 {
        app.press(KeyCode::Char('j'));
    }
    assert_eq!(app.selection_state.unwrap().cursor, 1);
    for _ in 0..4 {
        app.handle_key(KeyEvent::new(KeyCode::Char('j'), KeyModifiers::control()));
    }
    assert!(app.message_cursor < 2);
}

#[test]
fn help_opens_over_the_board_and_leads_back_to_it() {
    let (mut app, _sid, _uuid) = seeded_app();
    app.handle_key(KeyEvent::new(KeyCode::Char('B'), KeyModifiers::shift()));
    app.press(KeyCode::Char('?'));
    assert!(app.help.is_some() && app.kanban.is_some());
    assert_eq!(app.scope, Scope::HelpOverlay);
    assert_eq!(open_modals(&app), vec![Modal::Kanban, Modal::Help]);
    app.press(KeyCode::Esc);
    assert!(app.help.is_none() && app.kanban.is_some());
    assert_eq!(app.scope, Scope::Kanban);
    app.press(KeyCode::Esc);
    assert_eq!(app.scope, Scope::MainScreen);
}

#[test]
fn help_over_a_question_does_not_lose_the_browser() {
    let (mut app, _sid, uuid) = seeded_app();
    app.store.bookmarks.push((1, uuid, None));
    for code in [KeyCode::Char('b'), KeyCode::Char('d'), KeyCode::Char('?')] {
        app.press(code);
    }
    assert_eq!(
        open_modals(&app),
        vec![Modal::BookmarkBrowser, Modal::Confirm, Modal::Help]
    );
    app.press(KeyCode::Char('q'));
    assert_eq!(app.scope, Scope::ConfirmModal);
    app.press(KeyCode::Char('n'));
    assert_eq!(app.scope, Scope::BookmarkBrowser);
    assert_eq!(app.store.bookmarks.len(), 1);
}

#[test]
fn a_question_mark_is_typed_where_text_is() {
    let (mut app, _sid, _uuid) = seeded_app();
    app.press(KeyCode::Char('/'));
    app.press(KeyCode::Char('?'));
    assert_eq!(app.search.as_ref().unwrap().query_input, "?");
    app.press(KeyCode::Esc);
    app.handle_key(KeyEvent::new(KeyCode::Char('L'), KeyModifiers::shift()));
    app.press(KeyCode::Tab);
    app.press(KeyCode::Char('?'));
    assert!(app.label_prompt.as_ref().unwrap().custom_name_input.ends_with('?'));
    assert!(app.help.is_none());
    app.press(KeyCode::Tab);
    app.press(KeyCode::Char('?'));
    assert!(app.help.is_some());
}

#[test]
fn help_opens_in_selection_mode() {
    let (mut app, _sid, _uuid) = seeded_app();
    app.press(KeyCode::Char('m'));
    app.press(KeyCode::Char('?'));
    assert!(app.help.is_some());
    app.press(KeyCode::Esc);
    assert_eq!(app.scope, Scope::Selection);
    app.press(KeyCode::Esc);
    assert_eq!(app.scope, Scope::MainScreen);
    assert!(app.selection_state.is_none());
}

#[test]
fn only_a_click_looks_at_the_find_bar() {
    let mut app = Rig::new();
    app.handle_key(KeyEvent::new(KeyCode::Char('f'), KeyModifiers::control()));
    app.last_find_bar_rect = Rect { x: u16::MAX, y: 5, width: 40, height: 1 };
    app.last_transcript_rect = Rect { x: 36, y: 1, width: 84, height: 30 };
    let down = app.handle_mouse(scroll_event(MouseEventKind::ScrollDown, 50, 5));
    assert_eq!(down, Some(HitAction::ScrollTranscript(1)));
    assert!(app.find_open);
}

#[test]
fn a_click_under_a_modal_does_nothing() {
    let mut app = Rig::new();
    app.sidebar = vec![item("alpha"), item("beta")];
    app.handle_key(KeyEvent::new(KeyCode::Char('B'), KeyModifiers::shift()));
    app.last_sidebar_rect = Rect { x: 0, y: 0, width: 36, height: 10 };
    app.last_sidebar_rows = vec![SidebarRowKind::Session(0), SidebarRowKind::Session(1)];
    assert_eq!(app.handle_mouse(left_down(5, 1)), None);
    assert_eq!(app.selected_session_id, None);
    assert_eq!(app.pane_focus, PaneFocus::Transcript);
    assert_eq!(app.mouse_cursor, Some((5, 1)));
}

#[test]
fn a_low_pane_shows_the_selected_message() {
    for height in 1..12u16 {
        for start in [0u16, 3, 40, 200] {
            let mut app = Rig::new();
            app.transcript =
                lined((0..30).map(|i| msg(&format!("u{i}"), "You", "text")).collect());
            app.last_transcript_height = height;
            app.scroll = start;
            app.press(KeyCode::Char('m'));
            for _ in 0..29 {
                let line = app.transcript[app.selection_state.unwrap().cursor].line;
                assert!(app.scroll <= line && line < app.scroll + height, "{height} {start}");
                app.press(KeyCode::Char('k'));
            }
        }
    }
}
