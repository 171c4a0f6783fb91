//! What the keys of the main screen and the mouse are for.

use std::time::Instant;

use vstd::prelude::*;

use crate::anim::Moment;
use crate::effects::Request;
use crate::keys;
use crate::keys::{
    KeyCode, KeyEvent, KeyEventKind, KeyModifiers, MouseButton, MouseEvent, MouseEventKind, Scope,
};
use crate::laws;
use crate::models;
use crate::operations::{bare, capital, chord, letter, on_main, pressed};
use crate::state;
use crate::state::{AppModel, FindResult, HitAction, PaneFocus};
use crate::ui;

verus! {

proof fn main_key(m: AppModel, ev: KeyEvent, now: Moment, i: int)
    requires
        on_main(m),
        0 <= i < keys::main_screen_bindings().len(),
        keys::row_matches(keys::main_screen_bindings()[i], ev),
        ev.kind != KeyEventKind::Release,
    ensures
        m.keyed(ev, now) == m.ran(keys::main_screen_bindings()[i].command, now.at),
{
    keys::every_row_fires(Scope::MainScreen, i, ev);
}

/// `q` and Ctrl-c on the main screen quit, and do nothing else.
pub proof fn q_quits(m: AppModel, ev: KeyEvent, now: Moment)
    requires
        on_main(m),
        letter(ev, 'q') || chord(ev, 'c'),
    ensures
        m.keyed(ev, now) == (AppModel { should_quit: true, ..m }),
{
    if letter(ev, 'q') {
        assert forall|k: int|
            0 <= k < keys::bindings_of(Scope::MainScreen).len() implies !keys::row_matches(
            #[trigger] keys::bindings_of(Scope::MainScreen)[k],
            ev,
        ) by {
        }
        keys::unbound_keys_fall_back(Scope::MainScreen, ev);
        keys::every_row_fires(Scope::Global, 0, ev);
    } else {
        keys::control_c_quits_everywhere(Scope::MainScreen, ev);
    }
    reveal(AppModel::ran);
}

/// The down keys select the session in the next row of the sidebar and the up
/// keys the one before, round the ends. The session is published, once, and
/// shown from its top; a sidebar of one session stays as it is.
pub proof fn cursor_keys_select_the_neighbour(m: AppModel, at: int, ev: KeyEvent, now: Moment)
    requires
        on_main(m),
        laws::distinct_sessions(m.sidebar),
        0 <= at < m.sidebar.len(),
        m.selected == Some(m.sidebar[at].session_id),
        letter(ev, 'j') || letter(ev, 'k') || pressed(ev, KeyCode::Down, KeyModifiers::none())
            || pressed(ev, KeyCode::Up, KeyModifiers::none()),
    ensures
        ({
            let n = m.sidebar.len() as int;
            let down = ev.code == KeyCode::Char('j') || ev.code == KeyCode::Down;
            let to: int = if down {
                if at + 1 < n {
                    at + 1
                } else {
                    0
                }
            } else {
                if at > 0 {
                    at - 1
                } else {
                    n - 1
                }
            };
            let id = m.sidebar[to].session_id;
            let after = m.keyed(ev, now);
            &&& after.selected == Some(id)
            &&& n == 1 ==> after == m
            &&& n > 1 ==> after.requests == m.requests.push(Request::PublishSelection(Some(id)))
                && after.scroll_target == 0
            &&& after.sidebar == m.sidebar
        }),
{
    let i: int = if ev.code == KeyCode::Char('j') {
        0
    } else if ev.code == KeyCode::Down {
        1
    } else if ev.code == KeyCode::Char('k') {
        2
    } else {
        3
    };
    main_key(m, ev, now, i);
    reveal(AppModel::ran);
    reveal(AppModel::switched_to);
    reveal(AppModel::scrolled);
    let n = m.sidebar.len() as int;
    models::sessions_are_found_first(m.sidebar, m.sidebar[at].session_id, 0);
    let found = models::find_item(m.sidebar, m.sidebar[at].session_id, 0);
    if found < at {
        assert(m.sidebar[found].session_id != m.sidebar[at].session_id);
    }
    assert(found == at);
    if at + 1 < n {
        vstd::arithmetic::div_mod::lemma_small_mod((at + 1) as nat, n as nat);
    } else {
        assert((at + 1) % n == 0) by (nonlinear_arith)
            requires
                at + 1 == n,
                n > 0,
        ;
    }
    if at > 0 {
        vstd::arithmetic::div_mod::lemma_mod_add_multiples_vanish(at - 1, n);
        vstd::arithmetic::div_mod::lemma_small_mod((at - 1) as nat, n as nat);
        assert(at + n - 1 == n + (at - 1));
    } else {
        vstd::arithmetic::div_mod::lemma_small_mod((n - 1) as nat, n as nat);
    }
    if n > 1 {
        assert forall|k: int| 0 <= k < n && k != at implies (#[trigger] m.sidebar[k]).session_id
            != m.sidebar[at].session_id by {
        }
    }
}

/// Home scrolls to the top and End to the bottom; Page Down and Ctrl-d scroll
/// twenty rows down, Page Up and Ctrl-u twenty rows up, as far as there are
/// rows. Without animations that is at once, and nothing else changes.
pub proof fn page_keys_scroll(m: AppModel, ev: KeyEvent, now: Moment)
    requires
        on_main(m),
    ensures
        ({
            let after = m.keyed(ev, now);
            let none = KeyModifiers::none();
            let down = pressed(ev, KeyCode::PageDown, none) || chord(ev, 'd');
            let up = pressed(ev, KeyCode::PageUp, none) || chord(ev, 'u');
            let home = pressed(ev, KeyCode::Home, none);
            let end = pressed(ev, KeyCode::End, none);
            &&& home ==> after.scroll_target == 0
            &&& end ==> after.scroll_target == u16::MAX
            &&& down && m.scroll <= u16::MAX - 20 ==> after.scroll_target == m.scroll + 20
            &&& down && m.scroll > u16::MAX - 20 ==> after.scroll_target == u16::MAX
            &&& up && m.scroll >= 20 ==> after.scroll_target == m.scroll - 20
            &&& up && m.scroll < 20 ==> after.scroll_target == 0
            &&& home || end || down || up ==> (m.no_anim ==> after.scroll == after.scroll_target)
                && after == (AppModel {
                scroll: after.scroll,
                scroll_target: after.scroll_target,
                scroll_settled: after.scroll_settled,
                scroll_tween: after.scroll_tween,
                ..m
            })
        }),
{
    let none = KeyModifiers::none();
    if pressed(ev, KeyCode::Home, none) {
        main_key(m, ev, now, 5);
    } else if pressed(ev, KeyCode::End, none) {
        main_key(m, ev, now, 6);
    } else if pressed(ev, KeyCode::PageDown, none) {
        main_key(m, ev, now, 7);
    } else if chord(ev, 'd') {
        main_key(m, ev, now, 8);
    } else if pressed(ev, KeyCode::PageUp, none) {
        main_key(m, ev, now, 9);
    } else if chord(ev, 'u') {
        main_key(m, ev, now, 10);
    }
    reveal(AppModel::ran);
    reveal(AppModel::scrolled);
}

/// An animated scroll starts where the transcript is, at the time of the key,
/// and leads to its target; what is shown already needs none.
pub proof fn scrolls_are_animated(m: AppModel, target: u16, now: Instant)
    requires
        !m.no_anim,
    ensures
        ({
            let after = m.scrolled(target, now);
            &&& after.scroll == m.scroll
            &&& after.scroll_target == target
            &&& m.scroll_settled && m.scroll == target ==> after.scroll_tween is None
            &&& !(m.scroll_settled && m.scroll == target) ==> after.scroll_tween is Some
                && after.scroll_tween.unwrap().to == target
                && after.scroll_tween.unwrap().started_at == now
        }),
{
    reveal(AppModel::scrolled);
}

/// While an animated scroll runs, a frame shows the row that was sampled of it.
pub proof fn frames_show_the_sample(m: AppModel, sample: state::ScrollSample)
    requires
        m.scroll_tween is Some,
        !sample.done,
    ensures
        m.ticked(sample).scroll == sample.row,
        m.ticked(sample).scroll_tween == m.scroll_tween,
        m.ticked(sample).scroll_target == m.scroll_target,
{
}

/// `/` opens an empty search that the keys then go to, and asks for the recent
/// searches.
pub proof fn slash_opens_the_search(m: AppModel, ev: KeyEvent, now: Moment)
    requires
        on_main(m),
        letter(ev, '/'),
    ensures
        ({
            let after = m.keyed(ev, now);
            &&& after.search is Some
            &&& after.search.unwrap().query_input.len() == 0
            &&& after.search.unwrap().committed_query.len() == 0
            &&& after.search.unwrap().hits.len() == 0
            &&& after.search.unwrap().selected == 0
            &&& after.search.unwrap().opened_at == now.at
            &&& after.search.unwrap().error is None
            &&& after.scope == Scope::SearchModal
            &&& after.requests == m.requests.push(Request::LoadRecentSearches)
            &&& after.transcript == m.transcript && after.selected == m.selected
        }),
{
    main_key(m, ev, now, 12);
    reveal(AppModel::ran);
}

/// Ctrl-f opens the find bar, and asks for it to be set up on the transcript.
/// From then on every key goes to it, and to nothing else, until it closes.
pub proof fn the_find_bar_takes_the_keys(m: AppModel, open: KeyEvent, ev: KeyEvent, now: Moment)
    requires
        on_main(m),
        chord(open, 'f'),
    ensures
        ({
            let opened = m.keyed(open, now);
            &&& opened == (AppModel {
                find_open: true,
                scope: Scope::FindBar,
                requests: m.requests.push(Request::OpenFindBar),
                ..m
            })
            &&& opened.keyed(ev, now) == (AppModel {
                requests: opened.requests.push(Request::FindBarKey(ev)),
                ..opened
            })
        }),
{
    main_key(m, open, now, 13);
    reveal(AppModel::ran);
}

/// A find bar that stays open changes nothing; one that closes gives the keys
/// back to the main screen; one that found a match closes and scrolls to the
/// row of the message.
pub proof fn found_matches_are_scrolled_to(m: AppModel, index: usize, now: Instant)
    ensures
        m.find_answered(None, now) == m,
        m.find_answered(Some(FindResult::Closed), now) == (AppModel {
            find_open: false,
            scope: Scope::MainScreen,
            ..m
        }),
        ({
            let after = m.find_answered(
                Some(FindResult::JumpedToMatch { message_index: index }),
                now,
            );
            &&& !after.find_open
            &&& after.scope == Scope::MainScreen
            &&& after.requests == m.requests
            &&& index < m.transcript.len() ==> {
                let line = models::line_of(m.transcript, m.transcript[index as int].uuid, 0);
                line is Some ==> after.scroll_target == line.unwrap() && (m.no_anim ==> after.scroll
                    == line.unwrap())
            }
            &&& index >= m.transcript.len() ==> after.scroll == m.scroll
        }),
{
    reveal(AppModel::find_answered);
    reveal(AppModel::scrolled);
}

/// `b` asks for the bookmarks, `B` for the statuses, and `c` for the conflicts;
/// what they open, opens with the answer.
pub proof fn letters_ask_for_their_modal(m: AppModel, ev: KeyEvent, now: Moment)
    requires
        on_main(m),
    ensures
        letter(ev, 'b') ==> m.keyed(ev, now) == (AppModel {
            requests: m.requests.push(Request::LoadBookmarks),
            ..m
        }),
        capital(ev, 'B') ==> m.keyed(ev, now) == (AppModel {
            requests: m.requests.push(Request::LoadStatuses),
            ..m
        }),
        letter(ev, 'c') ==> m.keyed(ev, now) == (AppModel {
            requests: m.requests.push(Request::LoadConflicts),
            ..m
        }),
{
    if letter(ev, 'b') {
        main_key(m, ev, now, 14);
    } else if capital(ev, 'B') {
        main_key(m, ev, now, 16);
    } else if letter(ev, 'c') {
        main_key(m, ev, now, 41);
    }
    reveal(AppModel::ran);
}

/// `L` asks for the status of the selected session, to label it; without one it
/// only says so.
pub proof fn l_labels_the_selected_session(m: AppModel, ev: KeyEvent, now: Moment)
    requires
        on_main(m),
        capital(ev, 'L'),
    ensures
        m.selected matches Some(id) ==> m.keyed(ev, now) == (AppModel {
            requests: m.requests.push(Request::LoadSessionStatus { session_id: id }),
            ..m
        }),
        m.selected is None ==> m.keyed(ev, now).status is Some && m.keyed(ev, now) == (AppModel {
            status: m.keyed(ev, now).status,
            ..m
        }),
{
    main_key(m, ev, now, 42);
    reveal(AppModel::ran);
}

/// Space asks about the message under the message cursor, to bookmark it.
/// Without a message, or where nothing can be stored, it only says so.
pub proof fn space_bookmarks_the_message(m: AppModel, ev: KeyEvent, now: Moment)
    requires
        on_main(m),
        letter(ev, ' '),
        0 <= m.message_cursor,
    ensures
        ({
            let after = m.keyed(ev, now);
            let ready = m.message_cursor < m.transcript.len() && !m.read_only;
            &&& ready ==> after == (AppModel {
                requests: m.requests.push(
                    Request::ProbeMessage { uuid: m.transcript[m.message_cursor].uuid },
                ),
                ..m
            })
            &&& !ready ==> after.status is Some && after == (AppModel {
                status: after.status,
                ..m
            })
        }),
{
    main_key(m, ev, now, 15);
    reveal(AppModel::ran);
}

/// Ctrl-j puts the message cursor on the next message and Ctrl-k on the one
/// before, up to the ends; nothing else changes.
pub proof fn chords_move_the_message_cursor(m: AppModel, ev: KeyEvent, now: Moment)
    requires
        on_main(m),
        0 <= m.message_cursor < m.transcript.len(),
    ensures
        chord(ev, 'j') ==> m.keyed(ev, now) == (AppModel {
            message_cursor: if m.message_cursor + 1 < m.transcript.len() {
                m.message_cursor + 1
            } else {
                m.message_cursor
            },
            ..m
        }),
        chord(ev, 'k') ==> m.keyed(ev, now) == (AppModel {
            message_cursor: if m.message_cursor > 0 {
                m.message_cursor - 1
            } else {
                0
            },
            ..m
        }),
{
    if chord(ev, 'j') {
        main_key(m, ev, now, 34);
    } else if chord(ev, 'k') {
        main_key(m, ev, now, 35);
    }
    reveal(AppModel::ran);
}

/// The right keys give the focus to the transcript and the left keys to the
/// sidebar; nothing else changes.
pub proof fn sideways_keys_change_the_pane(m: AppModel, ev: KeyEvent, now: Moment)
    requires
        on_main(m),
    ensures
        letter(ev, 'l') || pressed(ev, KeyCode::Right, KeyModifiers::none()) ==> m.keyed(ev, now)
            == (AppModel { pane_focus: PaneFocus::Transcript, ..m }),
        letter(ev, 'h') || pressed(ev, KeyCode::Left, KeyModifiers::none()) ==> m.keyed(ev, now)
            == (AppModel { pane_focus: PaneFocus::Sidebar, ..m }),
{
    if letter(ev, 'l') {
        main_key(m, ev, now, 37);
    } else if pressed(ev, KeyCode::Right, KeyModifiers::none()) {
        main_key(m, ev, now, 38);
    } else if letter(ev, 'h') {
        main_key(m, ev, now, 39);
    } else if pressed(ev, KeyCode::Left, KeyModifiers::none()) {
        main_key(m, ev, now, 40);
    }
    reveal(AppModel::ran);
}

/// Whether the status bar ends with some words.
pub open spec fn names(m: AppModel, words: Seq<char>) -> bool {
    m.status matches Some(said) && said.len() >= words.len() && said.skip(said.len() - words.len())
        == words
}

/// The keys of what does not work yet say so and do nothing: the themes, the
/// sidebar's width, the order, the statuses and the archive of sessions, and
/// what is copied, renamed, observed or refreshed. Each is named.
pub proof fn unfinished_keys_say_so(m: AppModel, ev: KeyEvent, now: Moment)
    requires
        on_main(m),
        letter(ev, 't') || letter(ev, '[') || letter(ev, ']') || letter(ev, 'r') || letter(ev, 'n')
            || letter(ev, 'g') || letter(ev, 'o') || letter(ev, 's') || letter(ev, 'a') || capital(
            ev,
            'T',
        ) || capital(ev, 'O') || capital(ev, 'S') || capital(ev, 'A') || capital(ev, 'J')
            || capital(ev, 'K'),
    ensures
        m.keyed(ev, now) == (AppModel { status: m.keyed(ev, now).status, ..m }),
        m.keyed(ev, now).status is Some,
        "Not implemented yet: "@.is_prefix_of(m.keyed(ev, now).status.unwrap()),
        letter(ev, 't') ==> names(m.keyed(ev, now), "next theme"@),
        letter(ev, '[') ==> names(m.keyed(ev, now), "shrink sidebar"@),
        letter(ev, ']') ==> names(m.keyed(ev, now), "grow sidebar"@),
        letter(ev, 'r') ==> names(m.keyed(ev, now), "refresh sessions"@),
        letter(ev, 'n') ==> names(m.keyed(ev, now), "rename session"@),
        letter(ev, 'g') ==> names(m.keyed(ev, now), "copy resume"@),
        letter(ev, 'o') ==> names(m.keyed(ev, now), "observe session"@),
        letter(ev, 's') ==> names(m.keyed(ev, now), "cycle status"@),
        letter(ev, 'a') ==> names(m.keyed(ev, now), "archive session"@),
        capital(ev, 'T') ==> names(m.keyed(ev, now), "previous theme"@),
        capital(ev, 'O') ==> names(m.keyed(ev, now), "resume observation"@),
        capital(ev, 'S') ==> names(m.keyed(ev, now), "cycle status backward"@),
        capital(ev, 'A') ==> names(m.keyed(ev, now), "toggle archived view"@),
        capital(ev, 'J') ==> names(m.keyed(ev, now), "reorder session ↓"@),
        capital(ev, 'K') ==> names(m.keyed(ev, now), "reorder session ↑"@),
{
    let i: int = if letter(ev, 't') {
        17
    } else if capital(ev, 'T') {
        18
    } else if letter(ev, '[') {
        19
    } else if letter(ev, ']') {
        20
    } else if letter(ev, 'r') {
        21
    } else if letter(ev, 'n') {
        22
    } else if letter(ev, 'g') {
        23
    } else if letter(ev, 'o') {
        24
    } else if capital(ev, 'O') {
        25
    } else if letter(ev, 's') {
        26
    } else if capital(ev, 'S') {
        27
    } else if letter(ev, 'a') {
        28
    } else if capital(ev, 'A') {
        29
    } else if capital(ev, 'J') {
        30
    } else {
        32
    };
    main_key(m, ev, now, i);
    reveal(AppModel::ran);
    let command = keys::main_screen_bindings()[i].command;
    let name = state::announced_name(command).unwrap();
    let said = "Not implemented yet: "@ + name;
    assert(said.take("Not implemented yet: "@.len() as int) =~= "Not implemented yet: "@);
    assert(said.skip(said.len() - name.len()) =~= name);
}

/// Enter on the main screen changes nothing: the selected session is open.
pub proof fn enter_changes_nothing(m: AppModel, ev: KeyEvent, now: Moment)
    requires
        on_main(m),
        pressed(ev, KeyCode::Enter, KeyModifiers::none()),
    ensures
        m.keyed(ev, now) == m,
{
    main_key(m, ev, now, 4);
    reveal(AppModel::ran);
}

/// The command that a key fired on the main screen is reported; a key that went
/// to a modal, to the find bar or to the selected messages fired none.
pub proof fn commands_are_reported(m: AppModel, ev: KeyEvent)
    ensures
        !bare(m) || m.scope == Scope::Selection ==> m.command_run(ev) is None,
        on_main(m) ==> m.command_run(ev) == keys::command_of(Scope::MainScreen, ev),
{
}

// ---- the mouse -----------------------------------------------------------------

/// The wheel over the transcript scrolls it by one row, up to its ends, and
/// tells by how much; elsewhere it does nothing.
pub proof fn the_wheel_scrolls_the_transcript(m: AppModel, ev: MouseEvent, now: Instant)
    requires
        m.last_transcript_rect.fits(),
        ev.kind == MouseEventKind::ScrollDown || ev.kind == MouseEventKind::ScrollUp,
    ensures
        ({
            let (after, hit) = m.moused(ev, now);
            let pane = m.last_transcript_rect;
            let over = pane.x <= ev.column < pane.x + pane.width && pane.y <= ev.row < pane.y
                + pane.height;
            let down = ev.kind == MouseEventKind::ScrollDown;
            &&& !over ==> after == m && hit is None
            &&& over && down ==> hit == Some(HitAction::ScrollTranscript(1))
            &&& over && !down ==> hit == Some(HitAction::ScrollTranscript((-1) as i16))
            &&& over && down && m.scroll < u16::MAX ==> after.scroll_target == m.scroll + 1
            &&& over && !down && m.scroll > 0 ==> after.scroll_target == m.scroll - 1
            &&& over && !down && m.scroll == 0 ==> after.scroll_target == 0
            &&& over && m.no_anim ==> after.scroll == after.scroll_target
            &&& after.requests == m.requests
            &&& after.selected == m.selected
        }),
{
    ui::cells_are_in_columns_and_rows(m.last_transcript_rect, ev.column, ev.row);
    reveal(AppModel::scrolled);
}

/// A click on a session of the sidebar selects it, gives the sidebar the focus,
/// and tells which row it was. A click on a heading, or below the last row, does
/// nothing but move the pointer.
pub proof fn clicks_select_sessions(m: AppModel, ev: MouseEvent, now: Instant)
    requires
        bare(m),
        m.last_sidebar_rect.fits(),
        ev.kind == MouseEventKind::Down(MouseButton::Left),
        m.last_sidebar_rect.x <= ev.column < m.last_sidebar_rect.x + m.last_sidebar_rect.width,
        m.last_sidebar_rect.y <= ev.row < m.last_sidebar_rect.y + m.last_sidebar_rect.height,
    ensures
        ({
            let (after, hit) = m.moused(ev, now);
            let row = ev.row - m.last_sidebar_rect.y;
            let listed = row < m.last_sidebar_rows.len();
            &&& listed && m.last_sidebar_rows[row] is Session && m.last_sidebar_rows[row]->Session_0
                < m.sidebar.len() ==> {
                let id = m.sidebar[m.last_sidebar_rows[row]->Session_0 as int].session_id;
                &&& hit == Some(HitAction::SelectSessionAt(m.last_sidebar_rows[row]->Session_0))
                &&& after.selected == Some(id)
                &&& after.pane_focus == PaneFocus::Sidebar
                &&& m.selected == Some(id) ==> after.requests == m.requests
                &&& m.selected != Some(id) ==> after.requests == m.requests.push(
                    Request::PublishSelection(Some(id)),
                )
            }
            &&& !listed || m.last_sidebar_rows[row] is Header ==> hit is None && after == (AppModel {
                mouse_cursor: Some((ev.column, ev.row)),
                ..m
            })
        }),
{
    ui::cells_are_in_columns_and_rows(m.last_sidebar_rect, ev.column, ev.row);
    reveal(AppModel::switched_to);
    reveal(AppModel::scrolled);
}

/// A click on the transcript gives it the focus, and one outside both panes
/// does nothing but move the pointer.
pub proof fn clicks_focus_the_transcript(m: AppModel, ev: MouseEvent, now: Instant)
    requires
        bare(m),
        m.last_sidebar_rect.fits(),
        m.last_transcript_rect.fits(),
        ev.kind == MouseEventKind::Down(MouseButton::Left),
        !ui::contains_cell(m.last_sidebar_rect, ev.column, ev.row),
    ensures
        ({
            let (after, hit) = m.moused(ev, now);
            let pane = m.last_transcript_rect;
            let over = pane.x <= ev.column < pane.x + pane.width && pane.y <= ev.row < pane.y
                + pane.height;
            &&& over ==> hit == Some(HitAction::FocusTranscript) && after == (AppModel {
                mouse_cursor: Some((ev.column, ev.row)),
                pane_focus: PaneFocus::Transcript,
                ..m
            })
            &&& !over ==> hit is None && after == (AppModel {
                mouse_cursor: Some((ev.column, ev.row)),
                ..m
            })
        }),
{
    ui::cells_are_in_columns_and_rows(m.last_transcript_rect, ev.column, ev.row);
}

/// A click on the last cell but one of the find bar closes it and gives the keys
/// back to the main screen.
pub proof fn the_close_mark_closes_the_find_bar(m: AppModel, ev: MouseEvent, now: Instant)
    requires
        bare(AppModel { find_open: false, ..m }),
        m.find_open,
        m.last_find_bar_rect.width >= 2,
        m.last_find_bar_rect.x + m.last_find_bar_rect.width <= u16::MAX,
        ev.kind == MouseEventKind::Down(MouseButton::Left),
        ev.row == m.last_find_bar_rect.y,
        ev.column == m.last_find_bar_rect.x + m.last_find_bar_rect.width - 2,
    ensures
        m.moused(ev, now) == (
            AppModel {
                mouse_cursor: Some((ev.column, ev.row)),
                find_open: false,
                scope: Scope::MainScreen,
                ..m
            },
            Some(HitAction::CloseFindBar),
        ),
{
}

/// Moving the mouse, its other buttons and letting go of one only move the
/// pointer, and the sideways wheel does not even do that.
pub proof fn other_mouse_events_only_move_the_pointer(m: AppModel, ev: MouseEvent, now: Instant)
    ensures
        ev.kind is Moved || ev.kind is Up || ev.kind is Drag || ev.kind == MouseEventKind::Down(
            MouseButton::Right,
        ) || ev.kind == MouseEventKind::Down(MouseButton::Middle) ==> m.moused(ev, now) == (
            AppModel { mouse_cursor: Some((ev.column, ev.row)), ..m },
            None::<HitAction>,
        ),
        ev.kind is ScrollLeft || ev.kind is ScrollRight ==> m.moused(ev, now) == (
            m,
            None::<HitAction>,
        ),
{
}

} // verus!
