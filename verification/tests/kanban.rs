//! The board of sessions, one column for each status.

use threadhop_tui::keys::{KeyCode, KeyEvent, KeyEventKind, KeyModifiers};
use threadhop_tui::models::{status_order, SessionStatus};
use threadhop_tui::screens::kanban::{
    centered_rect, column_cards, column_header, column_rects, empty_message_rect, handle_key, layout, next_status,
    truncate_display, KanbanItem, KanbanResult, State,
};
use threadhop_tui::ui::Rect;

fn item(sid: &str, name: &str, status: SessionStatus) -> KanbanItem {
    KanbanItem {
        session_id: sid.into(),
        display_name: name.into(),
        status,
    }
}

fn press(c: KeyCode) -> KeyEvent {
    KeyEvent::new(c, KeyModifiers::none())
}

fn press_char(c: char) -> KeyEvent {
    KeyEvent::new(KeyCode::Char(c), KeyModifiers::none())
}

#[test]
fn items_in_column_filters_by_status() {
    let st = State::new(vec![
        item("a", "a", SessionStatus::Active),
        item("b", "b", SessionStatus::InProgress),
        item("c", "c", SessionStatus::Active),
        item("d", "d", SessionStatus::Done),
    ]);
    let active = st.items_in_column(0);
    assert_eq!(active.len(), 2);
    assert_eq!(active[0].session_id, "a");
    assert_eq!(active[1].session_id, "c");
    assert_eq!(st.items_in_column(1).len(), 1);
    assert_eq!(st.items_in_column(3).len(), 1);
    assert_eq!(st.items_in_column(4).len(), 0);
    assert_eq!(st.items_in_column(99).len(), 0);
}

#[test]
fn l_and_right_move_column_forward_with_wrap() {
    let mut st = State::new(Vec::new());
    handle_key(&mut st, press_char('l'));
    assert_eq!(st.selected_column, 1);
    handle_key(&mut st, press(KeyCode::Right));
    assert_eq!(st.selected_column, 2);
    for _ in 0..4 {
        handle_key(&mut st, press_char('l'));
    }
    assert_eq!(st.selected_column, 1);
}

#[test]
fn h_and_left_move_column_back_with_wrap() {
    let mut st = State::new(Vec::new());
    st.selected_column = 2;
    handle_key(&mut st, press_char('h'));
    assert_eq!(st.selected_column, 1);
    handle_key(&mut st, press(KeyCode::Left));
    assert_eq!(st.selected_column, 0);
    handle_key(&mut st, press_char('h'));
    assert_eq!(st.selected_column, status_order().len() - 1);
}

#[test]
fn j_and_k_move_row_within_column() {
    let mut st = State::new(vec![
        item("a", "a", SessionStatus::Active),
        item("b", "b", SessionStatus::Active),
        item("c", "c", SessionStatus::Active),
    ]);
    handle_key(&mut st, press_char('j'));
    assert_eq!(st.selected_row_in_column[0], 1);
    handle_key(&mut st, press(KeyCode::Down));
    assert_eq!(st.selected_row_in_column[0], 2);
    handle_key(&mut st, press_char('j'));
    assert_eq!(st.selected_row_in_column[0], 2);
    handle_key(&mut st, press_char('k'));
    assert_eq!(st.selected_row_in_column[0], 1);
    handle_key(&mut st, press(KeyCode::Up));
    assert_eq!(st.selected_row_in_column[0], 0);
    handle_key(&mut st, press_char('k'));
    assert_eq!(st.selected_row_in_column[0], 0);
}

#[test]
fn row_cursor_is_per_column() {
    let mut st = State::new(vec![
        item("a", "a", SessionStatus::Active),
        item("b", "b", SessionStatus::Active),
        item("p", "p", SessionStatus::InProgress),
        item("q", "q", SessionStatus::InProgress),
        item("r", "r", SessionStatus::InProgress),
    ]);
    handle_key(&mut st, press_char('j'));
    handle_key(&mut st, press_char('l'));
    assert_eq!(st.selected_row_in_column[1], 0);
    handle_key(&mut st, press_char('j'));
    assert_eq!(st.selected_row_in_column[1], 1);
    handle_key(&mut st, press_char('h'));
    assert_eq!(st.selected_column, 0);
    assert_eq!(st.selected_row_in_column[0], 1);
}

#[test]
fn empty_column_nav_is_noop() {
    let mut st = State::new(vec![item("a", "a", SessionStatus::Done)]);
    assert_eq!(st.items_in_column(0).len(), 0);
    handle_key(&mut st, press_char('j'));
    handle_key(&mut st, press_char('k'));
    assert_eq!(st.selected_row_in_column[0], 0);
    assert!(handle_key(&mut st, press(KeyCode::Enter)).is_none());
}

#[test]
fn enter_posts_jump_to_session_for_selected_item() {
    let mut st = State::new(vec![
        item("alpha", "Alpha", SessionStatus::Active),
        item("beta", "Beta", SessionStatus::Active),
    ]);
    handle_key(&mut st, press_char('j'));
    let got = handle_key(&mut st, press(KeyCode::Enter));
    assert_eq!(
        got,
        Some(KanbanResult::JumpToSession {
            session_id: "beta".into()
        })
    );
}

#[test]
fn esc_posts_cancelled() {
    let mut st = State::new(Vec::new());
    assert_eq!(
        handle_key(&mut st, press(KeyCode::Esc)),
        Some(KanbanResult::Cancelled)
    );
}

#[test]
fn ctrl_c_posts_cancelled() {
    let mut st = State::new(Vec::new());
    let ev = KeyEvent::new(KeyCode::Char('c'), KeyModifiers::control());
    assert_eq!(handle_key(&mut st, ev), Some(KanbanResult::Cancelled));
}

#[test]
fn m_cycles_status_to_next_column_and_posts_result() {
    let mut st = State::new(vec![
        item("a", "a", SessionStatus::Active),
        item("b", "b", SessionStatus::InProgress),
    ]);
    let got = handle_key(&mut st, press_char('m'));
    assert_eq!(
        got,
        Some(KanbanResult::StatusChanged {
            session_id: "a".into(),
            new_status: SessionStatus::InProgress,
        })
    );
    assert_eq!(st.items[0].status, SessionStatus::InProgress);
    assert_eq!(st.selected_column, 1);
    let col = st.items_in_column(1);
    let row = st.selected_row_in_column[1];
    assert_eq!(col[row].session_id, "a");
}

#[test]
fn m_wraps_from_archived_back_to_active() {
    let mut st = State::new(vec![item("a", "a", SessionStatus::Archived)]);
    st.selected_column = 4;
    let got = handle_key(&mut st, press_char('m'));
    assert_eq!(
        got,
        Some(KanbanResult::StatusChanged {
            session_id: "a".into(),
            new_status: SessionStatus::Active,
        })
    );
    assert_eq!(st.selected_column, 0);
}

#[test]
fn m_on_empty_column_is_noop() {
    let mut st = State::new(vec![item("a", "a", SessionStatus::Done)]);
    assert!(handle_key(&mut st, press_char('m')).is_none());
}

#[test]
fn kanban_release_events_are_ignored() {
    let mut st = State::new(vec![
        item("a", "a", SessionStatus::Active),
        item("b", "b", SessionStatus::Active),
    ]);
    let ev = KeyEvent {
        code: KeyCode::Char('j'),
        modifiers: KeyModifiers::none(),
        kind: KeyEventKind::Release,
    };
    assert!(handle_key(&mut st, ev).is_none());
    assert_eq!(st.selected_row_in_column[0], 0);
}

#[test]
fn repeat_events_are_accepted() {
    let mut st = State::new(vec![
        item("a", "a", SessionStatus::Active),
        item("b", "b", SessionStatus::Active),
    ]);
    let ev = KeyEvent {
        code: KeyCode::Char('j'),
        modifiers: KeyModifiers::none(),
        kind: KeyEventKind::Repeat,
    };
    handle_key(&mut st, ev);
    assert_eq!(st.selected_row_in_column[0], 1);
}

#[test]
fn truncate_display_respects_max() {
    assert_eq!(truncate_display("hello", 10), "hello");
    assert_eq!(truncate_display("hello world", 5), "hell…");
    assert_eq!(truncate_display("abc", 0), "");
    assert_eq!(truncate_display("abc", 1), "…");
}

#[test]
fn next_status_cycles_through_order() {
    assert_eq!(next_status(SessionStatus::Active), SessionStatus::InProgress);
    assert_eq!(next_status(SessionStatus::InProgress), SessionStatus::InReview);
    assert_eq!(next_status(SessionStatus::InReview), SessionStatus::Done);
    assert_eq!(next_status(SessionStatus::Done), SessionStatus::Archived);
    assert_eq!(next_status(SessionStatus::Archived), SessionStatus::Active);
}

fn area(x: u16, y: u16, width: u16, height: u16) -> Rect {
    Rect { x, y, width, height }
}

fn ten_active() -> State {
    State::new((0..10).map(|i| item(&format!("s{i}"), &format!("n{i}"), SessionStatus::Active)).collect())
}

#[test]
fn a_card_is_cut_to_its_column() {
    let st = State::new(vec![item("0123456789abcdef", "a rather long name", SessionStatus::Active)]);
    let cards = column_cards(&st, 0, area(3, 4, 20, 9));
    assert_eq!(cards.len(), 1);
    assert_eq!(cards[0].rect, area(3, 4, 20, 3));
    assert!(cards[0].selected);
    assert_eq!(cards[0].short_id, "01234567");
    assert_eq!(cards[0].name, "a rather…");
}

#[test]
fn a_short_session_id_is_padded() {
    let st = State::new(vec![item("ab", "n", SessionStatus::Active)]);
    assert_eq!(column_cards(&st, 0, area(0, 0, 30, 3))[0].short_id, "ab      ");
}

#[test]
fn a_column_scrolls_so_that_its_cursor_is_shown() {
    let mut st = ten_active();
    for _ in 0..7 {
        handle_key(&mut st, press_char('j'));
    }
    let cards = column_cards(&st, 0, area(0, 0, 30, 10));
    assert_eq!(cards.len(), 3);
    assert_eq!(cards[0].short_id.trim(), "s5");
    assert_eq!(cards[2].short_id.trim(), "s7");
    assert!(cards[2].selected && !cards[0].selected && !cards[1].selected);
    assert_eq!(cards[2].rect, area(0, 6, 30, 3));
}

#[test]
fn a_column_too_low_for_a_card_shows_a_cut_off_one() {
    let st = ten_active();
    let cards = column_cards(&st, 0, area(0, 5, 30, 2));
    assert_eq!(cards.len(), 1);
    assert_eq!(cards[0].rect, area(0, 5, 30, 2));
    assert!(column_cards(&st, 0, area(0, 5, 30, 0)).is_empty());
}

#[test]
fn only_the_column_in_focus_shows_a_selected_card() {
    let st = State::new(vec![
        item("a", "a", SessionStatus::Active),
        item("b", "b", SessionStatus::Done),
    ]);
    assert!(column_cards(&st, 0, area(0, 0, 30, 9))[0].selected);
    assert!(!column_cards(&st, 3, area(0, 0, 30, 9))[0].selected);
}

#[test]
fn a_header_counts_its_cards() {
    let st = ten_active();
    assert_eq!(column_header(&st, 0), " active (10) ");
    assert_eq!(column_header(&st, 2), " in_review (0) ");
}

#[test]
fn a_status_comes_round_after_five_moves() {
    let mut st = State::new(vec![item("a", "a", SessionStatus::InReview)]);
    st.selected_column = 2;
    for _ in 0..5 {
        assert!(handle_key(&mut st, press_char('m')).is_some());
    }
    assert_eq!(st.items[0].status, SessionStatus::InReview);
    assert_eq!(st.selected_column, 2);
}

#[test]
fn the_five_columns_tile_every_width() {
    for width in 0..400u16 {
        let parts = column_rects(area(7, 2, width, 5));
        assert_eq!(parts.len(), 5);
        let mut x = 7;
        for part in &parts {
            assert_eq!((part.x, part.y, part.height), (x, 2, 5));
            x += part.width;
        }
        assert_eq!(x, 7 + width);
        for (i, part) in parts.iter().enumerate() {
            let edge = |n: u32| ((width as u32 * 20 * n + 50) / 100) as u16;
            assert_eq!(part.width, edge(i as u32 + 1) - edge(i as u32), "column {i} of {width}");
        }
    }
}

#[test]
fn the_board_has_a_header_and_a_hint() {
    for height in 7..60u16 {
        let parts = layout(area(0, 0, 80, height));
        assert_eq!(parts[0], area(3, 2, 74, 1));
        assert_eq!(parts[1], area(3, 3, 74, height - 6));
        assert_eq!(parts[2], area(3, height - 3, 74, 1));
    }
}

#[test]
fn the_empty_message_stands_in_the_middle() {
    let rect = empty_message_rect(area(0, 10, 40, 9));
    assert_eq!(rect.y, 14);
    assert_eq!(rect.height, 1);
}

/// Which cards of a column are painted as selected, with a thick border in
/// place of a plain one.
fn thick(st: &State, column: usize) -> Vec<bool> {
    let popup = centered_rect(95, 90, area(0, 0, 120, 24));
    let columns = column_rects(layout(popup)[1]);
    column_cards(st, column, columns[column]).iter().map(|c| c.selected).collect()
}

#[test]
fn kanban_selected_card_renders_thick_border() {
    let st = State::new(vec![
        item("alpha-1", "Card A", SessionStatus::Active),
        item("beta-2", "Card B", SessionStatus::Active),
    ]);
    assert!(thick(&st, 0).contains(&true), "the selected card has a thick border");
}

#[test]
fn kanban_unselected_card_renders_plain_border() {
    let st = State::new(vec![
        item("alpha-1", "Card A", SessionStatus::Active),
        item("beta-2", "Card B", SessionStatus::Active),
    ]);
    assert_eq!(thick(&st, 0), [true, false]);
}

#[test]
fn kanban_unselected_column_cards_all_use_plain_border() {
    let st = State::new(vec![
        item("a", "Card A", SessionStatus::Active),
        item("c", "Card C", SessionStatus::InProgress),
        item("d", "Card D", SessionStatus::InProgress),
    ]);
    assert_eq!(thick(&st, 0), [true]);
    assert_eq!(thick(&st, 1), [false, false]);
}

#[test]
fn shift_and_an_arrow_move_the_focus_only() {
    let mut plain = ten_active();
    let mut shifted = ten_active();
    for code in [KeyCode::Down, KeyCode::Down, KeyCode::Up, KeyCode::Right, KeyCode::Left] {
        assert_eq!(handle_key(&mut plain, press(code)), None);
        assert_eq!(handle_key(&mut shifted, KeyEvent::new(code, KeyModifiers::shift())), None);
        assert_eq!(shifted.selected_column, plain.selected_column);
        assert_eq!(shifted.items_in_column(0).len(), 10);
    }
    assert_eq!(
        handle_key(&mut shifted, press(KeyCode::Enter)),
        handle_key(&mut plain, press(KeyCode::Enter)),
    );
}
