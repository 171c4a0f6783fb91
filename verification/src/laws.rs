//! What holds of the application whatever happens to it.

use std::time::Instant;

use vstd::prelude::*;

use crate::anim::Moment;
use crate::effects;
use crate::effects::Request;
use crate::keys;
use crate::keys::{
    Command, KeyCode, KeyEvent, KeyEventKind, KeyModifiers, MouseButton, MouseEvent, MouseEventKind,
    Scope,
};
use crate::models;
use crate::models::{ItemModel, MessageModel};
use crate::screens::bookmark_browser as bb;
use crate::screens::confirm as cf;
use crate::screens::conflict_viewer as cv;
use crate::screens::help as hp;
use crate::screens::kanban as kb;
use crate::screens::label_prompt as lp;
use crate::screens::search as se;
use crate::state;
use crate::state::{AppModel, HitAction, ScrollSample};

verus! {

/// Wherever help is opened, closing it leads back there with everything else
/// as it was.
pub proof fn help_leads_back(m: AppModel, close: KeyEvent, now: Moment)
    requires
        m.help is None,
        m.scope_under_help is None,
        hp::closes(close),
    ensures
        m.helped(now.at).keyed(close, now) == (AppModel { modal_opened_at: Some(now.at), ..m }),
{
    reveal(AppModel::help_key);
}

/// The key that asks for help opens it over every modal that is not typed
/// into, in selection mode and on the main screen, and leaves what lies under
/// it open.
pub proof fn help_opens_everywhere(m: AppModel, ask: KeyEvent, now: Moment)
    requires
        m.help is None,
        keys::asks_for_help(ask),
        m.hears_help() || (!m.shows_modal() && !m.find_open && m.scope == Scope::MainScreen),
    ensures
        m.keyed(ask, now) == m.helped(now.at),
        m.keyed(ask, now).help is Some,
        m.keyed(ask, now).scope == Scope::HelpOverlay,
        m.keyed(ask, now).kanban == m.kanban,
        m.keyed(ask, now).browser == m.browser,
        m.keyed(ask, now).viewer == m.viewer,
        m.keyed(ask, now).confirm == m.confirm,
        m.keyed(ask, now).label_prompt == m.label_prompt,
        m.keyed(ask, now).selection == m.selection,
{
    keys::help_keys_open_help(ask);
    reveal(AppModel::ran);
}

/// A click while a modal is open is noted and does nothing else.
pub proof fn modals_ignore_clicks(m: AppModel, ev: MouseEvent, now: Instant)
    requires
        m.shows_modal(),
        ev.kind == MouseEventKind::Down(MouseButton::Left),
    ensures
        m.moused(ev, now) == (
            AppModel { mouse_cursor: Some((ev.column, ev.row)), ..m },
            None::<HitAction>,
        ),
{
}

/// While help is open, no key reaches what lies under it.
pub proof fn help_keeps_keys_to_itself(m: AppModel, ev: KeyEvent, now: Moment)
    requires
        m.help is Some,
        !hp::closes(ev),
    ensures
        m.keyed(ev, now) == m,
{
    reveal(AppModel::help_key);
}

/// A delete that is asked for and then declined changes nothing: the browser is
/// as it was, nothing is requested, and the keys go to the browser again.
pub proof fn declined_delete_changes_nothing(
    m: AppModel,
    delete: KeyEvent,
    no: KeyEvent,
    now: Moment,
)
    requires
        m.help is None,
        m.confirm is None,
        m.kanban is None,
        m.viewer is None,
        m.label_prompt is None,
        m.browser is Some,
        bb::list_key(delete) == bb::ListKey::Letter('d'),
        m.browser.unwrap().selected < m.browser.unwrap().rows.len(),
        cf::answer_of(no) == Some(cf::ConfirmResult::No),
    ensures
        m.keyed(delete, now).confirm is Some,
        m.keyed(delete, now).scope == Scope::ConfirmModal,
        m.keyed(delete, now).keyed(no, now) == (AppModel {
            previous_scope: None,
            modal_opened_at: Some(now.at),
            ..m
        }),
{
    reveal(AppModel::browser_key);
    reveal(AppModel::confirm_key);
    reveal(bb::browser_step);
}

/// A delete that is confirmed is requested exactly once, for the bookmark that
/// was under the cursor, unless nothing can be stored.
pub proof fn confirmed_delete_is_requested(
    m: AppModel,
    delete: KeyEvent,
    yes: KeyEvent,
    now: Moment,
)
    requires
        m.help is None,
        m.confirm is None,
        m.kanban is None,
        m.viewer is None,
        m.label_prompt is None,
        m.browser is Some,
        bb::list_key(delete) == bb::ListKey::Letter('d'),
        0 <= m.browser.unwrap().selected < m.browser.unwrap().rows.len(),
        cf::answer_of(yes) == Some(cf::ConfirmResult::Yes),
    ensures
        ({
            let after = m.keyed(delete, now).keyed(yes, now);
            let id = m.browser.unwrap().rows[m.browser.unwrap().selected].id;
            &&& after.confirm is None
            &&& after.scope == m.scope
            &&& after.requests == if m.read_only {
                m.requests
            } else {
                m.requests.push(Request::DeleteBookmark { bookmark_id: id })
            }
        }),
{
    reveal(AppModel::browser_key);
    reveal(AppModel::confirm_key);
    reveal(bb::browser_step);
}

/// Whether `after` adds only requests to `before`, none of which changes what
/// is stored.
pub open spec fn adds_no_writes(before: AppModel, after: AppModel) -> bool {
    &&& before.requests.len() <= after.requests.len()
    &&& forall|i: int|
        0 <= i < before.requests.len() ==> #[trigger] after.requests[i] == before.requests[i]
    &&& forall|i: int|
        before.requests.len() <= i < after.requests.len() ==> !effects::writes(
            #[trigger] after.requests[i],
        )
}

#[verifier::rlimit(100)]
proof fn modals_add_no_writes(m: AppModel, ev: KeyEvent, now: Instant)
    requires
        m.read_only,
    ensures
        m.kanban is Some ==> adds_no_writes(m, m.kanban_key(ev, now)),
        m.viewer is Some ==> adds_no_writes(m, m.viewer_key(ev, now)),
        m.label_prompt is Some ==> adds_no_writes(m, m.label_key(ev)),
{
    reveal(AppModel::kanban_key);
    reveal(AppModel::viewer_key);
    reveal(AppModel::label_key);
    reveal(AppModel::switched_to);
    reveal(AppModel::scrolled);
}

#[verifier::rlimit(100)]
proof fn jumps_add_no_writes(m: AppModel, ev: KeyEvent, now: Moment)
    requires
        m.read_only,
    ensures
        m.browser is Some ==> adds_no_writes(m, m.browser_key(ev, now.at)),
        m.search is Some ==> adds_no_writes(m, m.search_key(ev, now)),
{
    reveal(AppModel::browser_key);
    reveal(AppModel::search_key);
    reveal(AppModel::jumped_to);
    reveal(AppModel::resolved);
    reveal(AppModel::switched_to);
    reveal(AppModel::scrolled);
}

#[verifier::rlimit(100)]
proof fn selection_adds_no_writes(m: AppModel, ev: KeyEvent, now: Instant)
    requires
        m.read_only,
    ensures
        adds_no_writes(m, m.selection_key(ev, now)),
{
    reveal(AppModel::selection_key);
    reveal(AppModel::selection_in_view);
    reveal(AppModel::scrolled);
}

#[verifier::rlimit(100)]
proof fn commands_add_no_writes(m: AppModel, command: Command, now: Instant)
    requires
        m.read_only,
    ensures
        adds_no_writes(m, m.ran(command, now)),
{
    reveal(AppModel::ran);
    reveal(AppModel::selection_in_view);
    reveal(AppModel::switched_to);
    reveal(AppModel::scrolled);
}

/// While nothing can be stored, no key requests a change of what is stored.
pub proof fn read_only_requests_no_writes(m: AppModel, ev: KeyEvent, now: Moment)
    requires
        m.read_only,
    ensures
        adds_no_writes(m, m.keyed(ev, now)),
{
    if m.help is Some {
        reveal(AppModel::help_key);
    } else if m.hears_help() && keys::asks_for_help(ev) {
    } else if m.confirm is Some {
        reveal(AppModel::confirm_key);
    } else {
        modals_add_no_writes(m, ev, now.at);
        jumps_add_no_writes(m, ev, now);
        selection_adds_no_writes(m, ev, now.at);
        if let Some(command) = keys::command_of(m.scope, ev) {
            commands_add_no_writes(m, command, now.at);
        }
    }
}

/// A released key changes nothing, unless the find bar is to judge it.
#[verifier::rlimit(50)]
pub proof fn released_keys_change_nothing(m: AppModel, ev: KeyEvent, now: Moment)
    requires
        ev.kind == KeyEventKind::Release,
        m.shows_modal() || !m.find_open,
    ensures
        m.keyed(ev, now) == m,
{
    keys::released_keys_fire_nothing(m.scope, ev);
    keys::released_keys_fire_nothing(Scope::Selection, ev);
    reveal(AppModel::help_key);
    reveal(AppModel::confirm_key);
    reveal(AppModel::kanban_key);
    reveal(AppModel::viewer_key);
    reveal(AppModel::label_key);
    reveal(AppModel::browser_key);
    reveal(AppModel::search_key);
    reveal(AppModel::selection_key);
    if m.kanban is Some {
        kb::releases_are_ignored(m.kanban.unwrap(), ev);
    }
    if m.viewer is Some {
        cv::releases_are_ignored(m.viewer.unwrap(), ev);
    }
    if m.label_prompt is Some {
        lp::releases_are_ignored(m.label_prompt.unwrap(), ev);
    }
    if m.browser is Some {
        bb::releases_are_ignored(m.browser.unwrap(), ev);
    }
    if m.search is Some {
        se::releases_are_ignored(m.search.unwrap(), ev, now.search_millis);
    }
}

/// Where nothing is animated, half a page down and half a page up lead back to
/// the row they started from, unless the end was reached between.
pub proof fn half_pages_undo_each_other(m: AppModel, now: Instant)
    requires
        m.no_anim,
        m.scroll <= u16::MAX - state::HALF_PAGE,
    ensures
        m.ran(Command::ScrollDownHalf, now).scroll == m.scroll + state::HALF_PAGE,
        m.ran(Command::ScrollDownHalf, now).ran(Command::ScrollUpHalf, now).scroll == m.scroll,
{
    reveal(AppModel::ran);
    reveal(AppModel::scrolled);
}

/// An animated scroll ends on the row it was set to.
pub proof fn scrolls_land_on_their_row(m: AppModel, target: u16, now: Instant, sample: ScrollSample)
    requires
        sample.done,
    ensures
        m.scrolled(target, now).ticked(sample).scroll == target,
        m.scrolled(target, now).ticked(sample).scroll_tween is None,
{
    reveal(AppModel::scrolled);
}

/// Without animations every scroll is at once.
pub proof fn no_anim_scrolls_at_once(m: AppModel, target: u16, now: Instant)
    requires
        m.no_anim,
    ensures
        m.scrolled(target, now).scroll == target,
        m.scrolled(target, now).scroll_tween is None,
{
    reveal(AppModel::scrolled);
}

/// Whether no session occurs twice in a sidebar.
pub open spec fn distinct_sessions(items: Seq<ItemModel>) -> bool {
    forall|i: int, j: int|
        0 <= i < j < items.len() ==> (#[trigger] items[i]).session_id != (
        #[trigger] items[j]).session_id
}

proof fn place_of(items: Seq<ItemModel>, at: int, from: int)
    requires
        distinct_sessions(items),
        0 <= from <= at < items.len(),
    ensures
        models::find_item(items, items[at].session_id, from) == at,
    decreases at - from,
{
    if from < at {
        place_of(items, at, from + 1);
    }
}

/// A step down the sidebar and one up again lead back to the session they
/// started from, also round the ends.
pub proof fn session_steps_undo_each_other(m: AppModel, at: int, now: Instant)
    requires
        distinct_sessions(m.sidebar),
        0 <= at < m.sidebar.len(),
        m.selected == Some(m.sidebar[at].session_id),
    ensures
        m.selection_stepped(true, now).selection_stepped(false, now).selected == m.selected,
        m.selection_stepped(false, now).selection_stepped(true, now).selected == m.selected,
        m.selection_stepped(true, now).selected == Some(
            m.sidebar[(at + 1) % (m.sidebar.len() as int)].session_id,
        ),
{
    reveal(AppModel::switched_to);
    reveal(AppModel::scrolled);
    let n = m.sidebar.len() as int;
    let down = (at + 1) % n;
    let up = (at + n - 1) % n;
    place_of(m.sidebar, at, 0);
    assert(0 <= down < n && 0 <= up < n);
    place_of(m.sidebar, down, 0);
    place_of(m.sidebar, up, 0);
    assert((down + n - 1) % n == at && (up + 1) % n == at) by {
        if at + 1 == n {
            assert((at + 1) % n == 0) by (nonlinear_arith)
                requires
                    at + 1 == n,
                    n > 0,
            ;
        } else {
            vstd::arithmetic::div_mod::lemma_small_mod((at + 1) as nat, n as nat);
        }
        if at == 0 {
            vstd::arithmetic::div_mod::lemma_small_mod((n - 1) as nat, n as nat);
        } else {
            vstd::arithmetic::div_mod::lemma_mod_add_multiples_vanish(at - 1, n);
            vstd::arithmetic::div_mod::lemma_small_mod((at - 1) as nat, n as nat);
            assert((at + n - 1) % n == at - 1);
        }
        if down == 0 {
            vstd::arithmetic::div_mod::lemma_small_mod((n - 1) as nat, n as nat);
        } else {
            vstd::arithmetic::div_mod::lemma_mod_add_multiples_vanish(down - 1, n);
            vstd::arithmetic::div_mod::lemma_small_mod((down - 1) as nat, n as nat);
        }
        if up == n - 1 {
            assert((up + 1) % n == 0) by (nonlinear_arith)
                requires
                    up + 1 == n,
                    n > 0,
            ;
        } else {
            vstd::arithmetic::div_mod::lemma_small_mod((up + 1) as nat, n as nat);
        }
    }
}

/// Selection mode that is entered and left leads back to the scope it was
/// entered from.
pub proof fn selection_mode_leads_back(m: AppModel, leave: KeyEvent, now: Moment)
    requires
        !m.shows_modal(),
        !m.find_open,
        m.transcript.len() > 0,
        keys::command_of(Scope::Selection, leave) == Some(Command::Cancel) || keys::command_of(
            Scope::Selection,
            leave,
        ) == Some(Command::EnterSelectionMode),
    ensures
        m.entered_selection(now.at).scope == Scope::Selection,
        m.entered_selection(now.at).keyed(leave, now).scope == m.scope,
        m.entered_selection(now.at).keyed(leave, now).selection is None,
{
    reveal(AppModel::selection_in_view);
    reveal(AppModel::scrolled);
    reveal(AppModel::selection_key);
    if keys::asks_for_help(leave) {
        keys::help_keys_are_free_in_selection(leave);
    }
}

/// A range that is started and ended at once leaves the selection as it was.
pub proof fn two_range_toggles_change_nothing(m: AppModel)
    requires
        m.selection is Some,
        m.selection.unwrap().range_start is None,
    ensures
        m.range_toggled().range_toggled() == m,
{
}

/// In selection mode no key moves the message cursor or changes the
/// transcript. While the mode lasts, its cursor stays on a message and moves by
/// one at most, and the start of the range changes only on `v`: it is set to
/// the cursor, or taken away.
#[verifier::rlimit(100)]
pub proof fn selection_keys_stay_in_bounds(m: AppModel, ev: KeyEvent, now: Moment)
    requires
        !m.shows_modal(),
        !m.find_open,
        m.scope == Scope::Selection,
        m.selection is Some,
        m.selection.unwrap().cursor < m.transcript.len() <= usize::MAX,
    ensures
        ({
            let after = m.keyed(ev, now);
            let before = m.selection.unwrap();
            &&& after.message_cursor == m.message_cursor
            &&& after.transcript == m.transcript
            &&& after.selection matches Some(sel) ==> {
                &&& sel.cursor < m.transcript.len()
                &&& before.cursor - 1 <= sel.cursor <= before.cursor + 1
                &&& sel.range_start != before.range_start ==> {
                    &&& ev.code == KeyCode::Char('v')
                    &&& sel.range_start == match before.range_start {
                        Some(_) => None,
                        None => Some(before.cursor),
                    }
                }
            }
        }),
{
    reveal(AppModel::selection_key);
    reveal(AppModel::selection_in_view);
    reveal(AppModel::scrolled);
}

/// Whatever selection mode moves to is in view: without animations the pane
/// shows the row of the message under the cursor, and does not scroll where it
/// did so before.
pub proof fn selection_is_in_view(m: AppModel, now: Instant)
    requires
        m.no_anim,
        m.selection is Some,
        m.transcript.len() > 0,
        m.last_transcript_height > 0,
        models::line_of(m.transcript, m.transcript[m.selected_message()].uuid, 0) is Some,
    ensures
        ({
            let after = m.selection_in_view(now);
            let row = models::line_of(
                m.transcript,
                m.transcript[m.selected_message()].uuid,
                0,
            ).unwrap();
            let height = m.last_transcript_height;
            &&& after.scroll <= row < after.scroll + height
            &&& m.scroll <= row < m.scroll + height ==> after == m
        }),
{
    reveal(AppModel::selection_in_view);
    reveal(AppModel::scrolled);
}

/// Two toggles of a bookmark, the first of which sets it and the second of
/// which removes it, each look the message up and ask for one change, say what
/// they did, and leave everything else as it was.
pub proof fn two_bookmark_toggles(m: AppModel, now: Instant)
    requires
        !m.read_only,
        0 <= m.message_cursor < m.transcript.len(),
    ensures
        ({
            let uuid = m.transcript[m.message_cursor].uuid;
            let asked = m.requests.push(Request::ProbeMessage { uuid }).push(
                Request::ToggleBookmark { uuid },
            );
            let set = m.ran(Command::ToggleBookmark, now).probed(uuid, true, true).bookmark_toggled(
                Ok(true),
            );
            let removed = set.ran(Command::ToggleBookmark, now).probed(
                uuid,
                true,
                true,
            ).bookmark_toggled(Ok(false));
            &&& set == (AppModel { status: Some("★ bookmarked"@), requests: asked, ..m })
            &&& removed == (AppModel {
                status: Some("removed bookmark"@),
                requests: asked.push(Request::ProbeMessage { uuid }).push(
                    Request::ToggleBookmark { uuid },
                ),
                ..m
            })
        }),
{
    reveal(AppModel::ran);
}

/// The message cursor stays on a message of the transcript.
pub proof fn message_cursor_stays_on_a_message(m: AppModel, command: Command, now: Instant)
    requires
        0 <= m.message_cursor < m.transcript.len(),
        command == Command::MoveCursorDown || command == Command::MoveCursorUp,
    ensures
        0 <= m.ran(command, now).message_cursor < m.transcript.len(),
{
    reveal(AppModel::ran);
}

/// A jump to a message of another session is kept until its transcript is
/// here, and then shows the message.
pub proof fn jumps_arrive(
    m: AppModel,
    id: Seq<char>,
    uuid: Seq<char>,
    messages: Seq<MessageModel>,
    now: Instant,
)
    requires
        m.no_anim,
        m.selected != Some(id),
        models::line_of(messages, uuid, 0) is Some,
    ensures
        m.jumped_to(id, uuid, now).pending_jump == Some(uuid),
        m.jumped_to(id, uuid, now).selected == Some(id),
        ({
            let after = m.jumped_to(id, uuid, now).transcript_refreshed(id, messages, now);
            &&& after.pending_jump is None
            &&& after.scroll == models::line_of(messages, uuid, 0).unwrap()
        }),
{
    reveal(AppModel::jumped_to);
    reveal(AppModel::switched_to);
    reveal(AppModel::resolved);
    reveal(AppModel::scrolled);
}

/// A search that is closed without a jump is not stored.
pub proof fn closed_searches_are_not_saved(m: AppModel, ev: KeyEvent, now: Moment)
    requires
        !(m.help is Some || m.confirm is Some || m.kanban is Some || m.viewer is Some
            || m.label_prompt is Some || m.browser is Some),
        m.search is Some,
        ev.code == KeyCode::Esc || (ev.code == KeyCode::Char('c') && ev.modifiers
            == KeyModifiers::control()),
        ev.kind != KeyEventKind::Release,
    ensures
        m.keyed(ev, now).search is None,
        m.keyed(ev, now).scope == Scope::MainScreen,
        m.keyed(ev, now).requests == m.requests,
{
    reveal(AppModel::search_key);
    reveal(se::search_step);
}

/// The time at which a modal opened is known while one is open, and forgotten
/// at the next frame after the last one closed.
pub proof fn fade_ends_with_the_modals(m: AppModel, sample: ScrollSample)
    ensures
        m.shows_modal() ==> m.ticked(sample).modal_opened_at == m.modal_opened_at,
        !m.shows_modal() ==> m.ticked(sample).modal_opened_at is None,
{
}

/// A message that was out of view is put a third of the pane below its top, or
/// as near to that as the first row allows.
pub proof fn selection_is_put_a_third_down(m: AppModel, now: Instant)
    requires
        m.selection is Some,
        m.transcript.len() > 0,
        m.last_transcript_height > 0,
        models::line_of(m.transcript, m.transcript[m.selected_message()].uuid, 0) is Some,
    ensures
        ({
            let row = models::line_of(
                m.transcript,
                m.transcript[m.selected_message()].uuid,
                0,
            ).unwrap();
            let third = m.last_transcript_height / 3;
            let after = m.selection_in_view(now);
            row < m.scroll || row >= m.scroll + m.last_transcript_height ==> {
                &&& row >= third ==> after.scroll_target == row - third
                &&& row < third ==> after.scroll_target == 0
            }
        }),
{
    reveal(AppModel::selection_in_view);
    reveal(AppModel::scrolled);
}

/// A new transcript of the selected session has the find bar look for its
/// matches again, where it is open; else nothing is asked for.
pub proof fn open_find_bars_look_again(
    m: AppModel,
    id: Seq<char>,
    messages: Seq<MessageModel>,
    now: Instant,
)
    requires
        m.selected == Some(id),
    ensures
        m.find_open ==> m.transcript_refreshed(id, messages, now).requests == m.requests.push(
            Request::RecomputeFind,
        ),
        !m.find_open ==> m.transcript_refreshed(id, messages, now).requests == m.requests,
        m.transcript_refreshed(id, messages, now).find_open == m.find_open,
{
    reveal(AppModel::resolved);
    reveal(AppModel::scrolled);
}

} // verus!
