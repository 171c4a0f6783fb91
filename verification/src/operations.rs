//! What each operation of the application is for: what a key, a click or an
//! answer from outside changes, and what it leaves alone.

use vstd::prelude::*;

use crate::anim::Moment;
use crate::effects::{Request, StatusOrigin};
use crate::keys;
use crate::keys::{KeyCode, KeyEvent, KeyEventKind, KeyModifiers, Scope};
use crate::models;
use crate::models::{MessageModel, SelectionState};
use crate::screens::bookmark_browser as bb;
use crate::screens::conflict_viewer as cv;
use crate::screens::kanban as kb;
use crate::screens::label_prompt as lp;
use crate::screens::search as se;
use crate::state;
use crate::state::AppModel;
use crate::text;

verus! {

/// Whether a key was pressed or repeated, with just these modifiers.
pub open spec fn pressed(ev: KeyEvent, code: KeyCode, modifiers: KeyModifiers) -> bool {
    ev.code == code && ev.modifiers == modifiers && ev.kind != KeyEventKind::Release
}

/// Whether a key is a plain letter.
pub open spec fn letter(ev: KeyEvent, c: char) -> bool {
    pressed(ev, KeyCode::Char(c), KeyModifiers::none())
}

/// Whether a key is a capital letter, typed with Shift.
pub open spec fn capital(ev: KeyEvent, c: char) -> bool {
    pressed(ev, KeyCode::Char(c), KeyModifiers::shift())
}

/// Whether a key is a letter with Control.
pub open spec fn chord(ev: KeyEvent, c: char) -> bool {
    pressed(ev, KeyCode::Char(c), KeyModifiers::control())
}

/// Whether nothing lies over the main screen.
pub open spec fn bare(m: AppModel) -> bool {
    &&& m.help is None
    &&& m.confirm is None
    &&& m.search is None
    &&& m.viewer is None
    &&& m.kanban is None
    &&& m.label_prompt is None
    &&& m.browser is None
    &&& !m.find_open
}

/// Whether the keys go to the main screen.
pub open spec fn on_main(m: AppModel) -> bool {
    bare(m) && m.scope == Scope::MainScreen
}

/// Whether the keys go to the selected messages.
pub open spec fn selecting(m: AppModel) -> bool {
    bare(m) && m.scope == Scope::Selection && m.selection is Some
}

proof fn main_key(m: AppModel, ev: KeyEvent, now: Moment, i: int)
    requires
        on_main(m),
        0 <= i < keys::main_screen_bindings().len(),
        keys::row_matches(keys::main_screen_bindings()[i], ev),
        ev.kind != KeyEventKind::Release,
    ensures
        m.keyed(ev, now) == m.ran(keys::main_screen_bindings()[i].command, now.at),
{
    keys::every_row_fires(Scope::MainScreen, i, ev);
}

proof fn selection_command(m: AppModel, ev: KeyEvent, now: Moment, i: int)
    requires
        selecting(m),
        0 <= i < keys::selection_bindings().len(),
        keys::row_matches(keys::selection_bindings()[i], ev),
        ev.kind != KeyEventKind::Release,
    ensures
        keys::command_of(Scope::Selection, ev) == Some(keys::selection_bindings()[i].command),
        m.keyed(ev, now) == m.selection_key(ev, now.at),
{
    keys::every_row_fires(Scope::Selection, i, ev);
}

// ---- copying and exporting -------------------------------------------------

/// What the text of a message holds, in order: who wrote it, when where that is
/// known, and what was written.
pub open spec fn told(m: MessageModel) -> Seq<Seq<char>> {
    match m.timestamp {
        Some(at) => seq![m.role_label, at, m.text],
        None => seq![m.role_label, m.text],
    }
}

/// What the texts of the messages from `lo` up to but not `end` hold, in order.
pub open spec fn all_told(messages: Seq<MessageModel>, lo: int, end: int) -> Seq<Seq<char>>
    decreases end - lo,
{
    if lo < 0 || lo >= end || lo >= messages.len() {
        Seq::empty()
    } else {
        told(messages[lo]) + all_told(messages, lo + 1, end)
    }
}

proof fn message_is_told(m: MessageModel)
    ensures
        text::in_order(state::message_text(m), told(m)),
        state::message_text(m).len() == 7 + m.role_label.len() + m.text.len()
            + match m.timestamp {
            Some(at) => 2 + at.len(),
            None => 0,
        },
{
    reveal_strlit("## ");
    reveal_strlit("  ");
    reveal_strlit("\n\n");
    let none = Seq::<char>::empty();
    match m.timestamp {
        Some(at) => {
            text::holds_three("## "@, m.role_label, "  "@, at, "\n\n"@, m.text, "\n\n"@);
            assert("## "@ + m.role_label + ("  "@ + at) =~= "## "@ + m.role_label + "  "@ + at);
        },
        None => {
            text::holds_two("## "@, m.role_label, "\n\n"@, m.text, "\n\n"@);
            assert("## "@ + m.role_label + none =~= "## "@ + m.role_label);
        },
    }
}

/// The text of some messages holds each of them, in the order of the transcript:
/// who wrote it, when where that is known, and what was written.
pub proof fn texts_hold_every_message(messages: Seq<MessageModel>, lo: int, end: int)
    requires
        0 <= lo,
    ensures
        text::in_order(state::messages_text(messages, lo, end), all_told(messages, lo, end)),
    decreases end - lo,
{
    if lo < end && lo < messages.len() {
        message_is_told(messages[lo]);
        texts_hold_every_message(messages, lo + 1, end);
        text::orders_chain(
            state::message_text(messages[lo]),
            told(messages[lo]),
            state::messages_text(messages, lo + 1, end),
            all_told(messages, lo + 1, end),
        );
    } else {
        text::order_begins(state::messages_text(messages, lo, end));
    }
}

/// The text of a longer run of messages is that of a shorter one with one more
/// message behind it, which adds its heading, its words and the line breaks
/// around them, and nothing else.
pub proof fn texts_grow_by_a_message(messages: Seq<MessageModel>, lo: int, end: int)
    requires
        0 <= lo <= end < messages.len(),
    ensures
        ({
            let before = state::messages_text(messages, lo, end);
            let after = state::messages_text(messages, lo, end + 1);
            let last = messages[end];
            &&& before.is_prefix_of(after)
            &&& text::in_order(after.skip(before.len() as int), told(last))
            &&& after.len() == before.len() + 7 + last.role_label.len() + last.text.len()
                + match last.timestamp {
                Some(at) => 2 + at.len(),
                None => 0,
            }
        }),
    decreases end - lo,
{
    let before = state::messages_text(messages, lo, end);
    let after = state::messages_text(messages, lo, end + 1);
    message_is_told(messages[end]);
    one_more_message(messages, lo, end);
    assert(after.take(before.len() as int) =~= before);
    assert(after.skip(before.len() as int) =~= state::message_text(messages[end]));
}

proof fn one_more_message(messages: Seq<MessageModel>, lo: int, end: int)
    requires
        0 <= lo <= end < messages.len(),
    ensures
        state::messages_text(messages, lo, end + 1) == state::messages_text(messages, lo, end)
            + state::message_text(messages[end]),
    decreases end - lo,
{
    reveal_with_fuel(state::messages_text, 2);
    let one = state::message_text(messages[end]);
    if lo == end {
        assert(one + Seq::<char>::empty() =~= one);
        assert(Seq::<char>::empty() + one =~= one);
    } else {
        one_more_message(messages, lo + 1, end);
        let (head, rest) = (
            state::message_text(messages[lo]),
            state::messages_text(messages, lo + 1, end),
        );
        assert(head + (rest + one) =~= head + rest + one);
    }
}

/// `y` puts the picked messages onto the clipboard, and `e` writes the same text
/// to a file: every message between the cursor and where the range was
/// anchored, in the order of the transcript, whether or not it has a time. The
/// number of characters that is reported is that of the text. Nothing else
/// changes.
pub proof fn picked_messages_are_copied_and_exported(
    m: AppModel,
    copy: KeyEvent,
    export: KeyEvent,
    now: Moment,
)
    requires
        selecting(m),
        letter(copy, 'y'),
        letter(export, 'e'),
        m.selection.unwrap().cursor < m.transcript.len(),
        m.selection.unwrap().range_start matches Some(start) ==> start < m.transcript.len(),
    ensures
        ({
            let sel = m.selection.unwrap();
            let lo: int = match sel.range_start {
                Some(start) => if start < sel.cursor {
                    start as int
                } else {
                    sel.cursor as int
                },
                None => sel.cursor as int,
            };
            let hi: int = match sel.range_start {
                Some(start) => if start < sel.cursor {
                    sel.cursor as int
                } else {
                    start as int
                },
                None => sel.cursor as int,
            };
            let copied = m.keyed(copy, now);
            let exported = m.keyed(export, now);
            &&& copied.requests.len() == m.requests.len() + 1
            &&& copied == (AppModel { requests: copied.requests, ..m })
            &&& copied.requests.drop_last() == m.requests
            &&& copied.requests.last() matches Request::CopyText { text: body, chars }
            &&& chars == body.len()
            &&& text::in_order(body, all_told(m.transcript, lo, hi + 1))
            &&& exported == (AppModel {
                requests: m.requests.push(Request::ExportText { text: body }),
                ..m
            })
        }),
{
    selection_command(m, copy, now, 5);
    selection_command(m, export, now, 6);
    reveal(AppModel::selection_key);
    let (lo, hi) = m.selection.unwrap().bounds();
    texts_hold_every_message(m.transcript, lo as int, hi + 1);
    assert(m.keyed(copy, now).requests.drop_last() =~= m.requests);
}

/// The first and the last picked message are in the text, and so is every one
/// between them.
pub proof fn every_picked_message_is_told(messages: Seq<MessageModel>, lo: int, end: int, k: int)
    requires
        0 <= lo <= k < end <= messages.len(),
    ensures
        text::in_order(
            state::messages_text(messages, lo, end),
            seq![messages[k].role_label, messages[k].text],
        ),
    decreases k - lo,
{
    let whole = state::messages_text(messages, lo, end);
    let head = state::message_text(messages[lo]);
    let rest = state::messages_text(messages, lo + 1, end);
    let none = Seq::<Seq<char>>::empty();
    if lo == k {
        let msg = messages[k];
        match msg.timestamp {
            Some(at) => {
                text::holds_two(
                    "## "@,
                    msg.role_label,
                    "  "@ + at + "\n\n"@,
                    msg.text,
                    "\n\n"@,
                );
                assert("## "@ + msg.role_label + ("  "@ + at + "\n\n"@) =~= "## "@ + msg.role_label + (
                "  "@ + at) + "\n\n"@);
            },
            None => {
                text::holds_two("## "@, msg.role_label, "\n\n"@, msg.text, "\n\n"@);
                assert("## "@ + msg.role_label + Seq::<char>::empty() =~= "## "@ + msg.role_label);
            },
        }
        text::order_begins(rest);
        text::orders_chain(head, seq![msg.role_label, msg.text], rest, none);
        assert(seq![msg.role_label, msg.text] + none =~= seq![msg.role_label, msg.text]);
    } else {
        every_picked_message_is_told(messages, lo + 1, end, k);
        text::order_begins(head);
        let parts = seq![messages[k].role_label, messages[k].text];
        text::orders_chain(head, none, rest, parts);
        assert(none + parts =~= parts);
    }
}

// ---- selection mode -----------------------------------------------------------

/// `m` on the main screen starts selecting, with the last message under the
/// cursor and no range; an empty transcript is refused in words.
pub proof fn m_starts_selecting(m: AppModel, ev: KeyEvent, now: Moment)
    requires
        on_main(m),
        letter(ev, 'm'),
        m.transcript.len() <= usize::MAX,
    ensures
        ({
            let after = m.keyed(ev, now);
            &&& m.transcript.len() > 0 ==> after.scope == Scope::Selection && after.selection
                == Some(
                SelectionState {
                    cursor: (m.transcript.len() - 1) as usize,
                    range_start: None,
                },
            ) && after.previous_scope == Some(Scope::MainScreen)
            &&& m.transcript.len() == 0 ==> after.selection == m.selection && after.scope
                == Scope::MainScreen
            &&& after.status is Some
            &&& after.requests == m.requests
            &&& after.transcript == m.transcript
        }),
{
    main_key(m, ev, now, 36);
    reveal(AppModel::ran);
    reveal(AppModel::selection_in_view);
    reveal(AppModel::scrolled);
}

/// In selection mode the down keys put the cursor on the next message and the up
/// keys on the one before, up to the ends; the range stays anchored, nothing is
/// asked for, and the message is scrolled into view.
pub proof fn selection_keys_move_by_one(m: AppModel, ev: KeyEvent, now: Moment)
    requires
        selecting(m),
        m.selection.unwrap().cursor < m.transcript.len() <= usize::MAX,
        letter(ev, 'j') || letter(ev, 'k') || pressed(ev, KeyCode::Down, KeyModifiers::none())
            || pressed(ev, KeyCode::Up, KeyModifiers::none()),
    ensures
        ({
            let after = m.keyed(ev, now);
            let (was, is) = (m.selection.unwrap(), after.selection.unwrap());
            let down = ev.code == KeyCode::Char('j') || ev.code == KeyCode::Down;
            &&& after.selection is Some
            &&& after.scope == Scope::Selection
            &&& is.range_start == was.range_start
            &&& down && was.cursor + 1 < m.transcript.len() ==> is.cursor == was.cursor + 1
            &&& down && was.cursor + 1 == m.transcript.len() ==> is.cursor == was.cursor
            &&& !down && was.cursor > 0 ==> is.cursor == was.cursor - 1
            &&& !down && was.cursor == 0 ==> is.cursor == 0
            &&& after.requests == m.requests
        }),
{
    let i: int = if ev.code == KeyCode::Char('j') {
        0
    } else if ev.code == KeyCode::Down {
        1
    } else if ev.code == KeyCode::Char('k') {
        2
    } else {
        3
    };
    selection_command(m, ev, now, i);
    reveal(AppModel::selection_key);
    reveal(AppModel::selection_in_view);
    reveal(AppModel::scrolled);
}

/// `v` anchors a range at the cursor, or drops the anchor there is; space asks
/// for the bookmark of the message under the cursor; `m` and Esc end the mode
/// and lead back to where it was started. None of them does anything else.
pub proof fn selection_letters_do_their_work(m: AppModel, ev: KeyEvent, now: Moment)
    requires
        selecting(m),
        m.selection.unwrap().cursor < m.transcript.len(),
    ensures
        ({
            let after = m.keyed(ev, now);
            let sel = m.selection.unwrap();
            &&& letter(ev, 'v') ==> after == (AppModel {
                selection: Some(
                    SelectionState {
                        cursor: sel.cursor,
                        range_start: if sel.range_start is Some {
                            None
                        } else {
                            Some(sel.cursor)
                        },
                    },
                ),
                ..m
            })
            &&& letter(ev, ' ') && !m.read_only ==> after == (AppModel {
                requests: m.requests.push(
                    Request::ProbeMessage { uuid: m.transcript[sel.cursor as int].uuid },
                ),
                ..m
            })
            &&& letter(ev, 'm') || pressed(ev, KeyCode::Esc, KeyModifiers::none()) ==> after == (
            AppModel {
                selection: None,
                scope: if m.previous_scope is Some {
                    m.previous_scope.unwrap()
                } else {
                    Scope::MainScreen
                },
                previous_scope: None,
                ..m
            })
        }),
{
    reveal(AppModel::selection_key);
    if letter(ev, 'v') {
        selection_command(m, ev, now, 4);
    } else if letter(ev, ' ') {
        selection_command(m, ev, now, 7);
    } else if letter(ev, 'm') {
        selection_command(m, ev, now, 9);
    } else if pressed(ev, KeyCode::Esc, KeyModifiers::none()) {
        selection_command(m, ev, now, 10);
    }
}

// ---- going to sessions and messages ----------------------------------------------

/// Whether `after` is `before` with session `id` selected: it is published once
/// and shown from its top, unless it was selected before.
pub open spec fn went_to(before: AppModel, after: AppModel, id: Seq<char>) -> bool {
    &&& after.selected == Some(id)
    &&& before.selected == Some(id) ==> after.requests == before.requests && after.scroll
        == before.scroll
    &&& before.selected != Some(id) ==> after.requests == before.requests.push(
        Request::PublishSelection(Some(id)),
    ) && after.scroll_target == 0 && (before.no_anim ==> after.scroll == 0)
    &&& after.sidebar == before.sidebar
    &&& after.transcript == before.transcript
}

/// Enter on the board closes it and selects the session of the card under the
/// cursor. Another session than the selected one is published, once.
pub proof fn enter_on_the_board_goes_to_the_session(m: AppModel, ev: KeyEvent, now: Moment)
    requires
        m.help is None,
        m.confirm is None,
        m.kanban is Some,
        m.kanban.unwrap().wf(),
        ev.code == KeyCode::Enter,
        ev.kind != KeyEventKind::Release,
    ensures
        ({
            let board = m.kanban.unwrap();
            let column = kb::with_status(board.cards, models::statuses()[board.column]);
            let row = board.rows[board.column] as int;
            let after = m.keyed(ev, now);
            &&& row < column.len() ==> {
                &&& after.kanban is None
                &&& went_to(m, after, column[row].session_id)
                &&& after.scope == if m.previous_scope is Some {
                    m.previous_scope.unwrap()
                } else {
                    Scope::MainScreen
                }
            }
            &&& row >= column.len() ==> after == m
        }),
{
    kb::enter_opens_the_card(m.kanban.unwrap(), ev);
    reveal(AppModel::kanban_key);
    reveal(AppModel::switched_to);
    reveal(AppModel::scrolled);
}

/// Esc on the board closes it and changes nothing else.
pub proof fn escape_closes_the_board(m: AppModel, ev: KeyEvent, now: Moment)
    requires
        m.help is None,
        m.confirm is None,
        m.kanban is Some,
        ev.code == KeyCode::Esc,
        ev.kind != KeyEventKind::Release,
    ensures
        m.keyed(ev, now) == (AppModel {
            kanban: None,
            scope: if m.previous_scope is Some {
                m.previous_scope.unwrap()
            } else {
                Scope::MainScreen
            },
            previous_scope: None,
            ..m
        }),
{
    kb::closing_keys_close(m.kanban.unwrap(), ev);
    reveal(AppModel::kanban_key);
}

/// `m` on the board asks to store the next status of the card under the cursor,
/// for its session and no other, and leaves the board open; where nothing can
/// be stored, it asks to show what is stored instead.
pub proof fn m_on_the_board_stores_the_status(m: AppModel, ev: KeyEvent, now: Moment)
    requires
        m.help is None,
        m.confirm is None,
        m.kanban is Some,
        m.kanban.unwrap().wf(),
        m.kanban.unwrap().current() is Some,
        m.kanban.unwrap().cards.len() <= usize::MAX,
        letter(ev, 'm'),
    ensures
        ({
            let card = m.kanban.unwrap().current().unwrap();
            let after = m.keyed(ev, now);
            &&& after.kanban is Some
            &&& after.kanban.unwrap().current() is Some
            &&& after.kanban.unwrap().current().unwrap().session_id == card.session_id
            &&& after.sidebar == m.sidebar
            &&& after.selected == m.selected
            &&& after.scope == m.scope
            &&& !m.read_only ==> after.requests == m.requests.push(
                Request::SetStatus {
                    session_id: card.session_id,
                    status: kb::status_after(card.status),
                    origin: StatusOrigin::Board,
                },
            )
            &&& m.read_only ==> after.requests == m.requests.push(Request::ReloadStatuses)
        }),
{
    reveal(kb::board_step);
    kb::cursor_follows_the_card(m.kanban.unwrap(), ev);
    reveal(AppModel::kanban_key);
}

/// The other keys of the board only move its cursor: nothing is asked for and it
/// stays open.
pub proof fn moves_on_the_board_ask_for_nothing(m: AppModel, ev: KeyEvent, now: Moment)
    requires
        m.help is None,
        m.confirm is None,
        m.kanban is Some,
        ev.code == KeyCode::Left || ev.code == KeyCode::Right || ev.code == KeyCode::Up || ev.code
            == KeyCode::Down,
        ev.kind != KeyEventKind::Release,
    ensures
        m.keyed(ev, now).kanban is Some,
        m.keyed(ev, now).kanban.unwrap().cards == m.kanban.unwrap().cards,
        m.keyed(ev, now) == (AppModel { kanban: m.keyed(ev, now).kanban, ..m }),
{
    reveal(kb::board_step);
    reveal(AppModel::kanban_key);
}

/// Enter in the conflict viewer closes it and selects the session that noted the
/// conflict under the cursor.
pub proof fn enter_on_a_conflict_goes_to_its_session(m: AppModel, ev: KeyEvent, now: Moment)
    requires
        m.help is None,
        m.confirm is None,
        m.kanban is None,
        m.viewer is Some,
        0 <= m.viewer.unwrap().selected < m.viewer.unwrap().visible().len(),
        m.viewer.unwrap().visible()[m.viewer.unwrap().selected].session_ids.len() > 0,
        ev.code == KeyCode::Enter,
        ev.kind != KeyEventKind::Release,
    ensures
        ({
            let v = m.viewer.unwrap();
            let after = m.keyed(ev, now);
            &&& after.viewer is None
            &&& went_to(m, after, v.visible()[v.selected].session_ids[0])
        }),
{
    cv::keys_act_on_the_conflict(m.viewer.unwrap(), ev);
    reveal(AppModel::viewer_key);
    reveal(AppModel::switched_to);
    reveal(AppModel::scrolled);
}

/// `r` in the conflict viewer asks to mark the conflict under the cursor as
/// resolved, and Esc closes the viewer; neither does anything else.
pub proof fn conflicts_are_resolved_or_left(m: AppModel, ev: KeyEvent, now: Moment)
    requires
        m.help is None,
        m.confirm is None,
        m.kanban is None,
        m.viewer is Some,
        0 <= m.viewer.unwrap().selected < m.viewer.unwrap().visible().len(),
    ensures
        ({
            let v = m.viewer.unwrap();
            let after = m.keyed(ev, now);
            &&& letter(ev, 'r') ==> after == (AppModel {
                requests: m.requests.push(
                    Request::ResolveConflict { conflict_id: v.visible()[v.selected].id },
                ),
                ..m
            })
            &&& pressed(ev, KeyCode::Esc, KeyModifiers::none()) ==> after == (AppModel {
                viewer: None,
                scope: if m.previous_scope is Some {
                    m.previous_scope.unwrap()
                } else {
                    Scope::MainScreen
                },
                previous_scope: None,
                ..m
            })
        }),
{
    if ev.kind != KeyEventKind::Release {
        cv::keys_act_on_the_conflict(m.viewer.unwrap(), ev);
        cv::cursor_keys_move_by_one(m.viewer.unwrap(), ev);
    }
    reveal(cv::viewer_step);
    reveal(AppModel::viewer_key);
}

/// Whether `after` is `before` on the way to a message: in another session it is
/// waited for, and the session is published; in the selected one it is scrolled
/// to at once, where it is in the transcript.
pub open spec fn bound_for(
    before: AppModel,
    after: AppModel,
    id: Seq<char>,
    uuid: Seq<char>,
) -> bool {
    let line = models::line_of(before.transcript, uuid, 0);
    &&& after.selected == Some(id)
    &&& before.selected != Some(id) ==> after.pending_jump == Some(uuid) && after.scroll_target == 0
    &&& before.selected == Some(id) && line is Some ==> after.pending_jump is None
        && after.scroll_target == line.unwrap() && (before.no_anim ==> after.scroll
        == line.unwrap())
    &&& before.selected == Some(id) && line is None ==> after.pending_jump == Some(uuid)
        && after.scroll == before.scroll
}

/// Enter in the bookmark browser closes it and goes to the message of the
/// bookmark under the cursor.
pub proof fn enter_on_a_bookmark_goes_to_its_message(m: AppModel, ev: KeyEvent, now: Moment)
    requires
        m.help is None,
        m.confirm is None,
        m.kanban is None,
        m.viewer is None,
        m.label_prompt is None,
        m.browser is Some,
        0 <= m.browser.unwrap().selected < m.browser.unwrap().rows.len(),
        ev.code == KeyCode::Enter,
        ev.kind != KeyEventKind::Release,
    ensures
        ({
            let b = m.browser.unwrap();
            let row = b.rows[b.selected];
            let after = m.keyed(ev, now);
            &&& after.browser is None
            &&& after.scope == Scope::MainScreen
            &&& bound_for(m, after, row.session_id, row.message_uuid)
            &&& m.selected == Some(row.session_id) ==> after.requests == m.requests
            &&& m.selected != Some(row.session_id) ==> after.requests == m.requests.push(
                Request::PublishSelection(Some(row.session_id)),
            )
        }),
{
    bb::keys_act_on_the_row(m.browser.unwrap(), ev);
    reveal(AppModel::browser_key);
    reveal(AppModel::jumped_to);
    reveal(AppModel::resolved);
    reveal(AppModel::switched_to);
    reveal(AppModel::scrolled);
}

/// `d` in the bookmark browser asks whether to delete the bookmark under the
/// cursor, and deletes nothing yet; the question shows the bookmark's note. Esc
/// closes the browser and changes nothing else.
pub proof fn deleting_is_asked_about(m: AppModel, ev: KeyEvent, now: Moment)
    requires
        m.help is None,
        m.confirm is None,
        m.kanban is None,
        m.viewer is None,
        m.label_prompt is None,
        m.browser is Some,
        0 <= m.browser.unwrap().selected < m.browser.unwrap().rows.len(),
    ensures
        ({
            let b = m.browser.unwrap();
            let row = b.rows[b.selected];
            let after = m.keyed(ev, now);
            let only = forall|i: int|
                0 <= i < b.rows.len() && i != b.selected ==> (#[trigger] b.rows[i]).id != row.id;
            &&& letter(ev, 'd') ==> {
                &&& after.confirm is Some
                &&& after.confirm.unwrap().on_yes == (state::PendingAction::DeleteBookmark {
                    bookmark_id: row.id,
                })
                &&& after.scope == Scope::ConfirmModal
                &&& after.browser == m.browser
                &&& after.requests == m.requests
                &&& only && row.note is Some ==> after.confirm.unwrap().question.detail is Some
                    && text::in_order(
                    after.confirm.unwrap().question.detail.unwrap(),
                    seq![row.note.unwrap()],
                )
                &&& only && row.note is None ==> after.confirm.unwrap().question.detail is None
            }
            &&& pressed(ev, KeyCode::Esc, KeyModifiers::none()) ==> after == (AppModel {
                browser: None,
                scope: Scope::MainScreen,
                ..m
            })
        }),
{
    let b = m.browser.unwrap();
    if ev.kind != KeyEventKind::Release {
        bb::keys_act_on_the_row(b, ev);
    }
    reveal(bb::browser_step);
    reveal(AppModel::browser_key);
    let row = b.rows[b.selected];
    if forall|i: int|
        0 <= i < b.rows.len() && i != b.selected ==> (#[trigger] b.rows[i]).id != row.id {
        note_is_found(b.rows, b.selected, 0);
        if let Some(note) = row.note {
            text::holds_one("\""@, note, "\""@);
        }
    }
}

proof fn note_is_found(rows: Seq<bb::RowModel>, at: int, from: int)
    requires
        0 <= from <= at < rows.len(),
        forall|i: int|
            0 <= i < rows.len() && i != at ==> (#[trigger] rows[i]).id != rows[at].id,
    ensures
        state::note_of(rows, rows[at].id, from) == rows[at].note,
    decreases at - from,
{
    if from < at {
        assert(rows[from].id != rows[at].id);
        note_is_found(rows, at, from + 1);
    }
}

/// Enter on a hit closes the search and goes to its message. The query that
/// found it is stored among the recent ones, unless it is blank.
pub proof fn enter_on_a_hit_goes_to_its_message(m: AppModel, ev: KeyEvent, now: Moment)
    requires
        m.help is None,
        m.confirm is None,
        m.kanban is None,
        m.viewer is None,
        m.label_prompt is None,
        m.browser is None,
        m.search is Some,
        0 <= m.search.unwrap().selected < m.search.unwrap().hits.len(),
        ev.code == KeyCode::Enter,
        ev.kind != KeyEventKind::Release,
    ensures
        ({
            let s = m.search.unwrap();
            let hit = s.hits[s.selected];
            let after = m.keyed(ev, now);
            let asked = if m.selected == Some(hit.session_id) {
                m.requests
            } else {
                m.requests.push(Request::PublishSelection(Some(hit.session_id)))
            };
            &&& after.search is None
            &&& after.scope == Scope::MainScreen
            &&& bound_for(m, after, hit.session_id, hit.message_uuid)
            &&& text::trim(s.committed_query).len() > 0 ==> after.requests == asked.push(
                Request::SaveRecentSearch(s.committed_query),
            )
            &&& text::trim(s.committed_query).len() == 0 ==> after.requests == asked
        }),
{
    se::enter_jumps_and_escape_closes(m.search.unwrap(), ev, now.search_millis);
    reveal(AppModel::search_key);
    reveal(AppModel::jumped_to);
    reveal(AppModel::resolved);
    reveal(AppModel::switched_to);
    reveal(AppModel::scrolled);
}

/// What is typed while the search is open goes into its query, wherever else it
/// would be a command, and changes nothing besides.
pub proof fn searches_are_typed_into(m: AppModel, ev: KeyEvent, now: Moment, c: char)
    requires
        m.help is None,
        m.confirm is None,
        m.kanban is None,
        m.viewer is None,
        m.label_prompt is None,
        m.browser is None,
        m.search is Some,
        letter(ev, c),
    ensures
        ({
            let after = m.keyed(ev, now);
            &&& after.search is Some
            &&& after.search.unwrap().query_input == m.search.unwrap().query_input.push(c)
            &&& after == (AppModel { search: after.search, ..m })
        }),
{
    se::typing_extends_the_query(m.search.unwrap(), ev, c, now.search_millis);
    reveal(AppModel::search_key);
}

// ---- the label prompt ------------------------------------------------------------

/// Enter in the label prompt asks to store the status under the cursor, or the
/// name that was typed, for the session it was opened on, and closes it. Where
/// nothing can be stored it only says so.
pub proof fn labels_are_stored(m: AppModel, ev: KeyEvent, now: Moment)
    requires
        m.help is None,
        m.confirm is None,
        m.kanban is None,
        m.viewer is None,
        m.label_prompt is Some,
        m.label_prompt.unwrap().selected_index < 5,
        ev.code == KeyCode::Enter,
        ev.kind != KeyEventKind::Release,
    ensures
        ({
            let p = m.label_prompt.unwrap();
            let after = m.keyed(ev, now);
            let name = text::trim(p.custom_name_input);
            &&& after.label_prompt is None
            &&& after.scope == Scope::MainScreen
            &&& after.sidebar == m.sidebar
            &&& m.read_only ==> after.requests == m.requests && after.status is Some
            &&& !m.read_only && p.mode == lp::Mode::StatusPicker ==> after.requests
                == m.requests.push(
                Request::SetStatus {
                    session_id: p.session_id,
                    status: models::statuses()[p.selected_index as int],
                    origin: StatusOrigin::LabelPrompt,
                },
            )
            &&& !m.read_only && p.mode == lp::Mode::CustomName ==> after.requests
                == m.requests.push(
                Request::SetCustomName {
                    session_id: p.session_id,
                    name: if name.len() == 0 {
                        None
                    } else {
                        Some(name)
                    },
                },
            )
        }),
{
    let p = m.label_prompt.unwrap();
    if p.mode == lp::Mode::StatusPicker {
        lp::enter_chooses_the_status(p, ev);
    } else {
        lp::enter_sets_the_name(p, ev);
    }
    reveal(AppModel::label_key);
}

/// Esc closes the label prompt and stores nothing.
pub proof fn escape_closes_the_label_prompt(m: AppModel, ev: KeyEvent, now: Moment)
    requires
        m.help is None,
        m.confirm is None,
        m.kanban is None,
        m.viewer is None,
        m.label_prompt is Some,
        ev.code == KeyCode::Esc,
        ev.kind != KeyEventKind::Release,
    ensures
        m.keyed(ev, now) == (AppModel { label_prompt: None, scope: Scope::MainScreen, ..m }),
{
    lp::escape_cancels_and_tab_turns(m.label_prompt.unwrap(), ev);
    reveal(AppModel::label_key);
}

// ---- help and confirmation --------------------------------------------------------

/// `?` opens help over the main screen, the board, the conflict viewer, the
/// bookmark browser and the selected messages, with the bindings of where it was
/// asked for; what lies under it stays open and nothing is asked for.
pub proof fn question_marks_open_help(m: AppModel, ev: KeyEvent, now: Moment)
    requires
        m.help is None,
        letter(ev, '?'),
        on_main(m) || selecting(m) || m.confirm is Some || m.kanban is Some || m.viewer is Some || (
        m.browser is Some && m.label_prompt is None),
    ensures
        ({
            let after = m.keyed(ev, now);
            &&& after.help is Some
            &&& after.help.unwrap().origin_scope == m.scope
            &&& after.scope == Scope::HelpOverlay
            &&& after.requests == m.requests
            &&& after.kanban == m.kanban && after.viewer == m.viewer && after.browser == m.browser
            &&& after.confirm == m.confirm && after.selection == m.selection
        }),
{
    if on_main(m) {
        main_key(m, ev, now, 11);
        reveal(AppModel::ran);
    }
}

/// Esc, Enter, `q` and `?` close help and lead back to where it was asked for.
pub proof fn help_closes_to_where_it_was_opened(
    m: AppModel,
    open: KeyEvent,
    close: KeyEvent,
    now: Moment,
)
    requires
        m.help is None,
        on_main(m) || selecting(m) || m.kanban is Some,
        letter(open, '?'),
        close.kind != KeyEventKind::Release,
        close.code == KeyCode::Esc || close.code == KeyCode::Enter || letter(close, 'q') || letter(
            close,
            '?',
        ),
    ensures
        ({
            let after = m.keyed(open, now).keyed(close, now);
            &&& after.help is None
            &&& after.scope == m.scope
            &&& after.previous_scope == m.previous_scope
            &&& after.kanban == m.kanban
            &&& after.selection == m.selection
            &&& after.requests == m.requests
        }),
{
    question_marks_open_help(m, open, now);
    if on_main(m) {
        main_key(m, open, now, 11);
        reveal(AppModel::ran);
    }
    reveal(AppModel::help_key);
}

/// `y` answers the question whether to delete a bookmark with yes: its deletion
/// is asked for, once, and the question is gone; where nothing can be stored it
/// only says so. `n` and Esc answer no, and nothing is asked for.
pub proof fn answers_decide_the_deletion(m: AppModel, ev: KeyEvent, now: Moment, id: i64)
    requires
        m.help is None,
        m.confirm is Some,
        m.confirm.unwrap().on_yes == (state::PendingAction::DeleteBookmark { bookmark_id: id }),
        letter(ev, 'y') || letter(ev, 'n') || pressed(ev, KeyCode::Esc, KeyModifiers::none())
            || pressed(ev, KeyCode::Enter, KeyModifiers::none()),
    ensures
        ({
            let after = m.keyed(ev, now);
            let yes = letter(ev, 'y') || pressed(ev, KeyCode::Enter, KeyModifiers::none());
            &&& after.confirm is None
            &&& after.browser == m.browser
            &&& after.scope == if m.previous_scope is Some {
                m.previous_scope.unwrap()
            } else {
                Scope::MainScreen
            }
            &&& yes && !m.read_only ==> after.requests == m.requests.push(
                Request::DeleteBookmark { bookmark_id: id },
            )
            &&& !yes || m.read_only ==> after.requests == m.requests
            &&& yes && m.read_only ==> after.status is Some
        }),
{
    reveal(AppModel::confirm_key);
}

/// What is typed while a name is edited goes into the name, wherever else it
/// would be a command, and changes nothing besides.
pub proof fn names_are_typed_into(m: AppModel, ev: KeyEvent, now: Moment, c: char)
    requires
        m.help is None,
        m.confirm is None,
        m.kanban is None,
        m.viewer is None,
        m.label_prompt is Some,
        m.label_prompt.unwrap().mode == lp::Mode::CustomName,
        letter(ev, c),
    ensures
        ({
            let after = m.keyed(ev, now);
            &&& after.label_prompt is Some
            &&& after.label_prompt.unwrap().custom_name_input
                == m.label_prompt.unwrap().custom_name_input.push(c)
            &&& after == (AppModel { label_prompt: after.label_prompt, ..m })
        }),
{
    lp::typing_extends_the_name(m.label_prompt.unwrap(), ev, c);
    reveal(AppModel::label_key);
}

/// `?` opens help over the status list too, which is not typed into.
pub proof fn question_marks_open_help_over_the_list(m: AppModel, ev: KeyEvent, now: Moment)
    requires
        m.help is None,
        m.label_prompt is Some,
        m.label_prompt.unwrap().mode == lp::Mode::StatusPicker,
        letter(ev, '?'),
    ensures
        m.keyed(ev, now).help is Some,
        m.keyed(ev, now).label_prompt == m.label_prompt,
        m.keyed(ev, now).requests == m.requests,
{
}

/// `q` and Ctrl-c quit from selection mode too.
pub proof fn q_quits_while_selecting(m: AppModel, ev: KeyEvent, now: Moment)
    requires
        selecting(m),
        letter(ev, 'q') || chord(ev, 'c'),
    ensures
        m.keyed(ev, now) == (AppModel { should_quit: true, ..m }),
{
    if letter(ev, 'q') {
        assert forall|k: int|
            0 <= k < keys::bindings_of(Scope::Selection).len() implies !keys::row_matches(
            #[trigger] keys::bindings_of(Scope::Selection)[k],
            ev,
        ) by {
        }
        keys::unbound_keys_fall_back(Scope::Selection, ev);
        keys::every_row_fires(Scope::Global, 0, ev);
    } else {
        keys::control_c_quits_everywhere(Scope::Selection, ev);
    }
    reveal(AppModel::selection_key);
}

} // verus!
