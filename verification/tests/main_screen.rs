//! Where the main screen's panes go.

use threadhop_tui::app::App;
use threadhop_tui::models::SessionListItem;
use threadhop_tui::screens::main::{
    layout, modal_size, note_layout, selected_digest, selected_item, spinner_frame, Digest, Modal,
};
use threadhop_tui::ui::{
    centered_rect, head_body_foot, inside_borders, rect_contains, stack, Constraint, Direction, Rect,
};

fn area(x: u16, y: u16, width: u16, height: u16) -> Rect {
    Rect { x, y, width, height }
}

#[test]
fn the_panes_tile_a_roomy_screen() {
    for (width, height) in [(80, 24), (119, 30), (140, 40), (200, 60), (300, 100)] {
        let l = layout(area(0, 0, width, height), false);
        assert_eq!(l.digest_bar.height, 1);
        assert_eq!(l.footer, area(0, height - 1, width, 1));
        assert_eq!(l.sidebar.width, 36);
        assert_eq!(l.transcript_block.x, 36);
        assert_eq!(l.transcript, inside_borders(l.transcript_block));
        assert_eq!(l.find_bar, None);
        let right = match l.digest_panel {
            Some(panel) => {
                assert_eq!(panel.x + panel.width, width);
                panel.x
            }
            None => width,
        };
        assert_eq!(l.transcript_block.x + l.transcript_block.width, right);
    }
}

#[test]
fn the_find_bar_takes_the_last_row_of_the_transcript() {
    let closed = layout(area(0, 0, 100, 30), false);
    let open = layout(area(0, 0, 100, 30), true);
    assert_eq!(open.transcript.height, closed.transcript.height - 1);
    let bar = open.find_bar.unwrap();
    assert_eq!(bar.height, 1);
    assert_eq!(bar.y, open.transcript.y + open.transcript.height);
    let mut app = App::new();
    note_layout(&mut app, open);
    assert_eq!(app.last_find_bar_rect, bar);
    assert_eq!(app.last_transcript_height, open.transcript.height);
}

fn one_session(id: &str, name: &str) -> App {
    let mut app = App::new();
    app.sidebar = vec![SessionListItem {
        session_id: id.into(),
        display_name: name.into(),
        is_active: true,
        ..SessionListItem::default()
    }];
    app.selected_session_id = Some(id.into());
    app
}

#[test]
fn digest_panel_renders_on_wide_terminal() {
    let app = one_session("abcdef1234", "wide-term-session");
    let panel = layout(area(0, 0, 160, 40), false).digest_panel.unwrap();
    assert_eq!(panel, area(124, 1, 36, 38));
    let shown = selected_digest(&app).item.unwrap();
    assert_eq!(app.sidebar[shown].display_name, "wide-term-session");
}

#[test]
fn digest_panel_hidden_on_narrow_terminal() {
    assert_eq!(layout(area(0, 0, 100, 40), false).digest_panel, None);
    assert_eq!(layout(area(0, 0, 109, 40), false).digest_panel, None);
    assert!(layout(area(0, 0, 110, 40), false).digest_panel.is_some());
}

#[test]
fn digest_bar_renders_in_main_layout() {
    let mut app = one_session("sess-1", "sess-1");
    app.digest_noted("sess-1", Some(3), true);
    assert_eq!(
        selected_digest(&app),
        Digest { item: Some(0), open_todo_count: Some(3), has_bookmarks: true }
    );
}

#[test]
fn digest_bar_first_row_has_visible_content_even_without_observations() {
    let app = one_session("sess-x", "my-cool-session");
    let bar = layout(area(0, 0, 120, 24), false).digest_bar;
    assert_eq!(bar, area(0, 0, 120, 1));
    let digest = selected_digest(&app);
    assert_eq!(app.sidebar[digest.item.unwrap()].display_name, "my-cool-session");
    assert_eq!((digest.open_todo_count, digest.has_bookmarks), (None, false));
}

#[test]
fn what_is_noted_last_of_a_session_counts() {
    let mut app = one_session("a", "a");
    app.digest_noted("a", Some(3), true);
    app.digest_noted("b", Some(7), true);
    app.digest_noted("a", Some(4), false);
    let digest = selected_digest(&app);
    assert_eq!((digest.open_todo_count, digest.has_bookmarks), (Some(4), false));
    app.selected_session_id = Some("b".into());
    let digest = selected_digest(&app);
    assert_eq!((digest.open_todo_count, digest.has_bookmarks), (Some(7), true));
    app.digest_noted("b", None, true);
    assert_eq!(selected_digest(&app).open_todo_count, None);
    app.selected_session_id = None;
    assert_eq!(
        selected_digest(&app),
        Digest { item: None, open_todo_count: None, has_bookmarks: false }
    );
}

#[test]
fn too_few_rows_or_columns_go_to_the_transcript() {
    for width in 0..60u16 {
        for height in 0..9u16 {
            let l = layout(area(0, 0, width, height), false);
            let rows = if height >= 3 { height - 2 } else { height.min(1) };
            let across = if width > 36 { 36 } else { width - width.min(1) };
            assert_eq!(l.sidebar, area(0, l.digest_bar.height, across, rows));
            assert_eq!(
                l.transcript_block,
                area(across, l.digest_bar.height, width - across, rows)
            );
            assert_eq!(l.digest_bar.height + rows + l.footer.height, height);
            assert_eq!(l.footer.y, l.digest_bar.height + rows);
        }
    }
}

#[test]
fn an_area_beyond_the_last_column_keeps_its_size_across() {
    let parts = head_body_foot(area(65535, 0, 10, 10), 1, 1);
    assert!(parts.iter().all(|r| (r.x, r.width) == (65535, 10)), "{parts:?}");
    assert_eq!(parts.iter().map(|r| r.height).collect::<Vec<_>>(), [1, 8, 1]);
}

#[test]
fn a_tiny_screen_is_laid_out_too() {
    for width in 0..45u16 {
        for height in 0..6u16 {
            let l = layout(area(0, 0, width, height), true);
            for r in [l.digest_bar, l.sidebar, l.transcript_block, l.transcript, l.footer] {
                assert!(r.x + r.width <= width && r.y + r.height <= height, "{r:?}");
            }
        }
    }
}

#[test]
fn a_fixed_head_and_foot_leave_the_rest_to_the_body() {
    for height in 0..80u16 {
        for head in 0..4u16 {
            for foot in 0..4u16 {
                let parts = head_body_foot(area(2, 3, 10, height), head, foot);
                assert_eq!(parts.len(), 3);
                let mut y = 3;
                for part in &parts {
                    assert_eq!((part.x, part.width, part.y), (2, 10, y));
                    y += part.height;
                }
                assert!(y <= 3 + height);
                if head + foot + 1 <= height {
                    assert_eq!(parts[0].height, head);
                    assert_eq!(parts[1].height, height - head - foot);
                    assert_eq!(parts[2].height, foot);
                } else {
                    assert!(parts[0].height <= head && parts[2].height <= foot);
                    assert_eq!(parts[1].height, height.min(1));
                    assert_eq!(y, 3 + height);
                }
            }
        }
    }
}

#[test]
fn one_filler_takes_what_fixed_parts_leave() {
    let asked = vec![
        Constraint::Length(36),
        Constraint::Min(20),
        Constraint::Length(40),
    ];
    for width in 96..400u16 {
        let parts = stack(area(0, 0, width, 9), Direction::Horizontal, &asked, 1);
        let widths: Vec<u16> = parts.iter().map(|r| r.width).collect();
        assert_eq!(widths, [36, width - 76, 40]);
    }
}

#[test]
fn a_minimum_goes_before_lengths() {
    for lengths in [[3u16, 4, 5], [9, 0, 2], [1, 1, 1], [40, 7, 300]] {
        for min in [0u16, 1, 2, 5, 30] {
            let asked = vec![
                Constraint::Length(lengths[0]),
                Constraint::Length(lengths[1]),
                Constraint::Min(min),
                Constraint::Length(lengths[2]),
            ];
            let fixed: u16 = lengths.iter().sum();
            for height in 0..(fixed + min) {
                let parts = stack(area(0, 5, 3, height), Direction::Vertical, &asked, 2);
                assert_eq!(parts[2].height, min.min(height), "{lengths:?} {min} {height}");
                assert!(parts[0].height <= lengths[0]);
                assert!(parts[1].height <= lengths[1]);
                assert!(parts[3].height <= lengths[2]);
                assert_eq!(parts[3].y + parts[3].height, 5 + height);
            }
        }
    }
}

#[test]
fn a_rectangle_holds_its_cells() {
    let r = area(2, 3, 4, 5);
    assert!(rect_contains(r, 2, 3) && rect_contains(r, 5, 7));
    assert!(!rect_contains(r, 6, 3) && !rect_contains(r, 2, 8) && !rect_contains(r, 1, 3));
    assert!(!rect_contains(area(2, 3, 0, 5), 2, 3));
}

#[test]
fn a_popup_is_centred() {
    assert_eq!(centered_rect(50, 20, area(0, 0, 100, 50)), area(25, 20, 50, 10));
    assert_eq!(centered_rect(100, 100, area(5, 6, 9, 9)), area(5, 6, 9, 9));
    assert_eq!(centered_rect(90, 90, area(0, 0, 1000, 900)), area(50, 45, 900, 810));
    assert_eq!(centered_rect(1, 99, area(0, 0, 65535, 65535)), area(32440, 328, 655, 64879));
    assert_eq!(modal_size(Modal::Kanban), (95, 90));
}

#[test]
fn the_selected_session_is_found_in_the_sidebar() {
    let mut app = App::new();
    assert_eq!(selected_item(&app), None);
    app.sidebar = ["a", "b"]
        .iter()
        .map(|id| SessionListItem { session_id: id.to_string(), ..SessionListItem::default() })
        .collect();
    app.selected_session_id = Some("b".into());
    assert_eq!(selected_item(&app), Some(1));
    app.selected_session_id = Some("gone".into());
    assert_eq!(selected_item(&app), None);
    app.spinner_tick = 17;
    assert_eq!(spinner_frame(&app), 17 / 5);
}
