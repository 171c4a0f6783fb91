//! The key tables: which command a key fires in which scope.

use threadhop_tui::keys::{
    commands_for_scope, lookup, Command, KeyCode, KeyEvent, KeyEventKind, KeyModifiers, Scope,
};

fn ev(code: KeyCode, mods: KeyModifiers) -> KeyEvent {
    KeyEvent::new(code, mods)
}

#[test]
fn q_quits_globally() {
    let e = ev(KeyCode::Char('q'), KeyModifiers::none());
    assert_eq!(lookup(Scope::MainScreen, e), Some(Command::Quit));
    assert_eq!(lookup(Scope::Global, e), Some(Command::Quit));
}

#[test]
fn ctrl_c_quits_globally() {
    let e = ev(KeyCode::Char('c'), KeyModifiers::control());
    assert_eq!(lookup(Scope::MainScreen, e), Some(Command::Quit));
}

#[test]
fn unknown_key_returns_none() {
    let e = ev(KeyCode::Char('z'), KeyModifiers::none());
    assert!(lookup(Scope::MainScreen, e).is_none());
}

#[test]
fn keys_release_events_are_ignored() {
    let e = KeyEvent {
        code: KeyCode::Char('q'),
        modifiers: KeyModifiers::none(),
        kind: KeyEventKind::Release,
    };
    assert!(lookup(Scope::MainScreen, e).is_none());
}

#[test]
fn repeat_events_are_dispatched() {
    let e = KeyEvent {
        code: KeyCode::End,
        modifiers: KeyModifiers::none(),
        kind: KeyEventKind::Repeat,
    };
    assert_eq!(lookup(Scope::MainScreen, e), Some(Command::ScrollBottom));
}

#[test]
fn repeat_j_moves_to_next_session() {
    let e = KeyEvent {
        code: KeyCode::Char('j'),
        modifiers: KeyModifiers::none(),
        kind: KeyEventKind::Repeat,
    };
    assert_eq!(lookup(Scope::MainScreen, e), Some(Command::SelectNextSession));
}

#[test]
fn global_scope_returns_two_quit_bindings() {
    let bindings = commands_for_scope(Scope::Global);
    assert_eq!(bindings.len(), 2);
    assert!(bindings.iter().all(|b| b.command == Command::Quit));
}

#[test]
fn j_and_down_both_select_next_session() {
    assert_eq!(
        lookup(Scope::MainScreen, ev(KeyCode::Char('j'), KeyModifiers::none())),
        Some(Command::SelectNextSession)
    );
    assert_eq!(
        lookup(Scope::MainScreen, ev(KeyCode::Down, KeyModifiers::none())),
        Some(Command::SelectNextSession)
    );
}

#[test]
fn k_and_up_both_select_prev_session() {
    assert_eq!(
        lookup(Scope::MainScreen, ev(KeyCode::Char('k'), KeyModifiers::none())),
        Some(Command::SelectPrevSession)
    );
    assert_eq!(
        lookup(Scope::MainScreen, ev(KeyCode::Up, KeyModifiers::none())),
        Some(Command::SelectPrevSession)
    );
}

#[test]
fn home_scrolls_top_and_end_scrolls_bottom_python_parity() {
    assert_eq!(
        lookup(Scope::MainScreen, ev(KeyCode::Home, KeyModifiers::none())),
        Some(Command::ScrollTop)
    );
    assert_eq!(
        lookup(Scope::MainScreen, ev(KeyCode::End, KeyModifiers::none())),
        Some(Command::ScrollBottom)
    );
}

#[test]
fn g_now_copies_resume_command_not_scrolls_top() {
    assert_eq!(
        lookup(Scope::MainScreen, ev(KeyCode::Char('g'), KeyModifiers::none())),
        Some(Command::CopyResumeCommand)
    );
}

#[test]
fn shift_g_is_unbound_post_phase_0() {
    assert!(
        lookup(Scope::MainScreen, ev(KeyCode::Char('G'), KeyModifiers::shift())).is_none()
    );
}

#[test]
fn b_now_opens_bookmark_browser_not_toggles() {
    assert_eq!(
        lookup(Scope::MainScreen, ev(KeyCode::Char('b'), KeyModifiers::none())),
        Some(Command::OpenBookmarkBrowser)
    );
}

#[test]
fn space_now_toggles_bookmark() {
    assert_eq!(
        lookup(Scope::MainScreen, ev(KeyCode::Char(' '), KeyModifiers::none())),
        Some(Command::ToggleBookmark)
    );
}

#[test]
fn shift_b_now_opens_kanban_not_browser() {
    assert_eq!(
        lookup(Scope::MainScreen, ev(KeyCode::Char('B'), KeyModifiers::shift())),
        Some(Command::OpenKanban)
    );
}

#[test]
fn t_now_cycles_theme_not_opens_kanban() {
    assert_eq!(
        lookup(Scope::MainScreen, ev(KeyCode::Char('t'), KeyModifiers::none())),
        Some(Command::ThemeNext)
    );
    assert_eq!(
        lookup(Scope::MainScreen, ev(KeyCode::Char('T'), KeyModifiers::shift())),
        Some(Command::ThemePrev)
    );
}

#[test]
fn s_now_cycles_status_forward_not_opens_label_prompt() {
    assert_eq!(
        lookup(Scope::MainScreen, ev(KeyCode::Char('s'), KeyModifiers::none())),
        Some(Command::CycleSessionStatus)
    );
    assert_eq!(
        lookup(Scope::MainScreen, ev(KeyCode::Char('S'), KeyModifiers::shift())),
        Some(Command::CycleSessionStatusBack)
    );
}

#[test]
fn shift_j_and_shift_k_reorder_sessions_per_python() {
    assert_eq!(
        lookup(Scope::MainScreen, ev(KeyCode::Char('J'), KeyModifiers::shift())),
        Some(Command::MoveSessionDown)
    );
    assert_eq!(
        lookup(Scope::MainScreen, ev(KeyCode::Char('K'), KeyModifiers::shift())),
        Some(Command::MoveSessionUp)
    );
}

#[test]
fn ctrl_j_and_ctrl_k_move_msg_cursor_post_phase_0() {
    assert_eq!(
        lookup(Scope::MainScreen, ev(KeyCode::Char('j'), KeyModifiers::control())),
        Some(Command::MoveCursorDown)
    );
    assert_eq!(
        lookup(Scope::MainScreen, ev(KeyCode::Char('k'), KeyModifiers::control())),
        Some(Command::MoveCursorUp)
    );
}

#[test]
fn ctrl_f_opens_find_bar_python_parity() {
    assert_eq!(
        lookup(Scope::MainScreen, ev(KeyCode::Char('f'), KeyModifiers::control())),
        Some(Command::OpenFindBar)
    );
    assert!(
        lookup(Scope::MainScreen, ev(KeyCode::Char('f'), KeyModifiers::none())).is_none(),
        "plain f should be unbound after Phase 0 — Ctrl-F is the Python parity binding"
    );
}

#[test]
fn page_down_and_ctrl_d_both_scroll_half_page_down() {
    assert_eq!(
        lookup(Scope::MainScreen, ev(KeyCode::PageDown, KeyModifiers::none())),
        Some(Command::ScrollDownHalf)
    );
    assert_eq!(
        lookup(Scope::MainScreen, ev(KeyCode::Char('d'), KeyModifiers::control())),
        Some(Command::ScrollDownHalf)
    );
}

#[test]
fn page_up_and_ctrl_u_both_scroll_half_page_up() {
    assert_eq!(
        lookup(Scope::MainScreen, ev(KeyCode::PageUp, KeyModifiers::none())),
        Some(Command::ScrollUpHalf)
    );
    assert_eq!(
        lookup(Scope::MainScreen, ev(KeyCode::Char('u'), KeyModifiers::control())),
        Some(Command::ScrollUpHalf)
    );
}

#[test]
fn question_mark_opens_help() {
    let e = ev(KeyCode::Char('?'), KeyModifiers::none());
    assert_eq!(lookup(Scope::MainScreen, e), Some(Command::OpenHelp));
}

#[test]
fn phase_0_no_op_stubs_are_registered() {
    let cases: &[(KeyEvent, Command)] = &[
        (ev(KeyCode::Char('r'), KeyModifiers::none()), Command::RefreshSessions),
        (ev(KeyCode::Char('n'), KeyModifiers::none()), Command::RenameSession),
        (ev(KeyCode::Char('o'), KeyModifiers::none()), Command::ObserveSession),
        (ev(KeyCode::Char('O'), KeyModifiers::shift()), Command::ResumeObservation),
        (ev(KeyCode::Char('a'), KeyModifiers::none()), Command::ArchiveSession),
        (ev(KeyCode::Char('A'), KeyModifiers::shift()), Command::ToggleArchivedView),
        (ev(KeyCode::Char('['), KeyModifiers::none()), Command::ShrinkSidebar),
        (ev(KeyCode::Char(']'), KeyModifiers::none()), Command::GrowSidebar),
        (ev(KeyCode::Char('m'), KeyModifiers::none()), Command::EnterSelectionMode),
        (ev(KeyCode::Char('l'), KeyModifiers::none()), Command::FocusTranscript),
        (ev(KeyCode::Char('h'), KeyModifiers::none()), Command::FocusList),
    ];
    for (key, expected) in cases {
        assert_eq!(
            lookup(Scope::MainScreen, *key),
            Some(*expected),
            "expected {expected:?} for {key:?}"
        );
    }
}

#[test]
fn shift_session_reorder_arrow_aliases() {
    assert_eq!(
        lookup(Scope::MainScreen, ev(KeyCode::Down, KeyModifiers::shift())),
        Some(Command::MoveSessionDown)
    );
    assert_eq!(
        lookup(Scope::MainScreen, ev(KeyCode::Up, KeyModifiers::shift())),
        Some(Command::MoveSessionUp)
    );
}

#[test]
fn bookmark_browser_arrow_and_ctrl_aliases() {
    for k in [
        ev(KeyCode::Down, KeyModifiers::none()),
        ev(KeyCode::Char('n'), KeyModifiers::control()),
    ] {
        assert_eq!(
            lookup(Scope::BookmarkBrowser, k),
            Some(Command::SelectNextSession),
            "{k:?} should select next bookmark"
        );
    }
    for k in [
        ev(KeyCode::Up, KeyModifiers::none()),
        ev(KeyCode::Char('p'), KeyModifiers::control()),
    ] {
        assert_eq!(
            lookup(Scope::BookmarkBrowser, k),
            Some(Command::SelectPrevSession)
        );
    }
    assert_eq!(
        lookup(Scope::BookmarkBrowser, ev(KeyCode::Char('L'), KeyModifiers::shift())),
        Some(Command::EditBookmarkNote)
    );
}

#[test]
fn search_modal_ctrl_aliases_and_clear_and_paging() {
    for k in [
        ev(KeyCode::Char('n'), KeyModifiers::control()),
        ev(KeyCode::Down, KeyModifiers::none()),
    ] {
        assert_eq!(
            lookup(Scope::SearchModal, k),
            Some(Command::SelectNextSession)
        );
    }
    assert_eq!(
        lookup(Scope::SearchModal, ev(KeyCode::PageDown, KeyModifiers::none())),
        Some(Command::ScrollDownHalf)
    );
    assert_eq!(
        lookup(Scope::SearchModal, ev(KeyCode::Char('x'), KeyModifiers::control())),
        Some(Command::Cancel)
    );
}

#[test]
fn find_bar_arrow_aliases() {
    assert_eq!(
        lookup(Scope::FindBar, ev(KeyCode::Down, KeyModifiers::none())),
        Some(Command::NextMatch)
    );
    assert_eq!(
        lookup(Scope::FindBar, ev(KeyCode::Up, KeyModifiers::none())),
        Some(Command::PrevMatch)
    );
}

#[test]
fn kanban_arrow_and_shift_arrow_aliases() {
    assert_eq!(
        lookup(Scope::Kanban, ev(KeyCode::Left, KeyModifiers::none())),
        Some(Command::KanbanColumnLeft)
    );
    assert_eq!(
        lookup(Scope::Kanban, ev(KeyCode::Right, KeyModifiers::none())),
        Some(Command::KanbanColumnRight)
    );
    assert_eq!(
        lookup(Scope::Kanban, ev(KeyCode::Down, KeyModifiers::none())),
        Some(Command::SelectNextSession)
    );
    assert_eq!(
        lookup(Scope::Kanban, ev(KeyCode::Right, KeyModifiers::shift())),
        Some(Command::KanbanMoveItem)
    );
    assert_eq!(
        lookup(Scope::Kanban, ev(KeyCode::Left, KeyModifiers::shift())),
        Some(Command::KanbanMoveItemBack)
    );
}

#[test]
fn help_overlay_q_closes_python_parity() {
    assert_eq!(
        lookup(Scope::HelpOverlay, ev(KeyCode::Char('q'), KeyModifiers::none())),
        Some(Command::Cancel)
    );
}

#[test]
fn selection_scope_reserves_python_bindings() {
    assert_eq!(
        lookup(Scope::Selection, ev(KeyCode::Char(' '), KeyModifiers::none())),
        Some(Command::ToggleBookmark)
    );
    assert_eq!(
        lookup(Scope::Selection, ev(KeyCode::Char('v'), KeyModifiers::none())),
        Some(Command::Confirm)
    );
    assert_eq!(
        lookup(Scope::Selection, ev(KeyCode::Esc, KeyModifiers::none())),
        Some(Command::Cancel)
    );
}

#[test]
fn conflict_viewer_c_does_not_overlap_with_open_conflict_viewer() {
    assert!(
        lookup(Scope::ConflictViewer, ev(KeyCode::Char('c'), KeyModifiers::none())).is_none()
    );
}
