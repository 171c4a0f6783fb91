//! What the application makes of what it is told: how it starts, and what each
//! answer to a request changes.

use std::time::Instant;

use vstd::prelude::*;

use crate::clipboard::ClipboardError;
use crate::conflicts;
use crate::digest;
use crate::effects::{Request, StatusOrigin};
use crate::keys::Scope;
use crate::models;
use crate::models::{ItemModel, SessionStatus};
use crate::screens::bookmark_browser as bb;
use crate::screens::conflict_viewer as cv;
use crate::screens::kanban as kb;
use crate::screens::label_prompt as lp;
use crate::state;
use crate::state::{AppModel, KnownStatus};
use crate::text;

verus! {

// ---- the start ---------------------------------------------------------------

/// The application starts on the main screen with nothing in it, nothing open
/// and nothing asked for. Without its database it can store nothing, and says
/// why.
pub proof fn the_start_is_empty(db_error: Option<Seq<char>>, no_anim: bool)
    ensures
        ({
            let m = state::fresh_app(db_error, no_anim);
            &&& !m.should_quit
            &&& m.sidebar.len() == 0 && m.transcript.len() == 0 && m.requests.len() == 0
            &&& m.selected is None && m.selection is None && m.pending_jump is None
            &&& m.scope == Scope::MainScreen && !m.find_open
            &&& m.help is None && m.confirm is None && m.search is None && m.viewer is None
            &&& m.kanban is None && m.label_prompt is None && m.browser is None
            &&& m.project_filter is None && m.days_filter is None
            &&& m.scroll == 0 && m.message_cursor == 0
            &&& m.no_anim == no_anim
            &&& m.mouse_enabled
            &&& m.read_only <==> db_error is Some
            &&& m.status is Some
            &&& db_error matches Some(e) ==> text::in_order(m.status.unwrap(), seq![e])
        }),
{
    if let Some(e) = db_error {
        let none = Seq::<char>::empty();
        text::holds_one("DB unavailable: "@, e, none);
        assert("DB unavailable: "@ + e + none =~= "DB unavailable: "@ + e);
    }
}

/// Animations are off where the environment says `1` or `true`, in upper or
/// lower case, and on where it says nothing, `0` or `false`.
pub proof fn animations_have_a_switch()
    ensures
        state::switches_off(Some(seq!['1'])),
        state::switches_off(Some(seq!['t', 'r', 'u', 'e'])),
        state::switches_off(Some(seq!['T', 'R', 'U', 'E'])),
        !state::switches_off(None),
        !state::switches_off(Some(seq!['0'])),
        !state::switches_off(Some(seq!['f', 'a', 'l', 's', 'e'])),
        !state::switches_off(Some(Seq::empty())),
{
    reveal_strlit("1");
    reveal_strlit("true");
    assert("1"@ =~= seq!['1']);
    assert("true"@ =~= seq!['t', 'r', 'u', 'e']);
    let (low, up) = (seq!['t', 'r', 'u', 'e'], seq!['T', 'R', 'U', 'E']);
    assert(text::ascii_lower_all(low) =~= low);
    assert(text::ascii_lower_all(up) =~= low);
    assert("1"@[0] != seq!['0'][0]);
    assert(text::ascii_lower_all(seq!['0']).len() == 1);
    assert(text::ascii_lower_all(seq!['f', 'a', 'l', 's', 'e']).len() == 5);
    assert(text::ascii_lower_all(Seq::<char>::empty()).len() == 0);
    assert("true"@.len() == 4 && "1"@.len() == 1);
}

/// The command line sets both filters, and a session that it names is selected
/// and published; nothing else changes.
pub proof fn the_command_line_is_followed(
    m: AppModel,
    project: Option<Seq<char>>,
    days: Option<u32>,
    id: Seq<char>,
)
    ensures
        m.configured(project, days, None) == (AppModel {
            project_filter: project,
            days_filter: days,
            ..m
        }),
        m.configured(project, days, Some(id)) == (AppModel {
            project_filter: project,
            days_filter: days,
            selected: Some(id),
            requests: m.requests.push(Request::PublishSelection(Some(id))),
            ..m
        }),
{
}

// ---- searches and the digest ---------------------------------------------------

/// The recent searches are listed in an open search, and dropped where it was
/// closed in the meantime.
pub proof fn recent_searches_are_listed(m: AppModel, recents: Seq<Seq<char>>)
    ensures
        m.search is None ==> m.recents_loaded(Some(recents)) == m,
        m.recents_loaded(None) == m,
        m.search is Some ==> {
            let after = m.recents_loaded(Some(recents));
            &&& after.search is Some
            &&& after.search.unwrap().recents == recents
            &&& after.search.unwrap().query_input == m.search.unwrap().query_input
            &&& after.search.unwrap().hits == m.search.unwrap().hits
            &&& after == (AppModel { search: after.search, ..m })
        },
{
}

/// What was read of a session for the digest is what the digest shows of it, and
/// what it shows of the others stays.
pub proof fn the_digest_shows_what_was_noted(
    m: AppModel,
    id: Seq<char>,
    todos: Option<u32>,
    marked: bool,
    other: Seq<char>,
)
    ensures
        ({
            let after = m.digest_noted(id, todos, marked);
            &&& digest::todos_of(after.summaries, id) == todos
            &&& after.bookmarked.contains(id) == marked
            &&& other != id ==> digest::todos_of(after.summaries, other) == digest::todos_of(
                m.summaries,
                other,
            ) && after.bookmarked.contains(other) == m.bookmarked.contains(other)
            &&& after == (AppModel {
                summaries: after.summaries,
                bookmarked: after.bookmarked,
                ..m
            })
        }),
{
    digest::noted_todos_are_found(m.summaries, id, todos, other);
    digest::noted_marks_are_found(m.bookmarked, id, marked, other);
}

// ---- bookmarks -----------------------------------------------------------------

/// A message that is stored gets its bookmark toggled, and so does one of which
/// nothing can be known; one that is known to be missing does not.
pub proof fn only_stored_messages_are_bookmarked(
    m: AppModel,
    uuid: Seq<char>,
    found: bool,
    table_present: bool,
)
    ensures
        found || !table_present ==> m.probed(uuid, found, table_present) == (AppModel {
            requests: m.requests.push(Request::ToggleBookmark { uuid }),
            ..m
        }),
        !found && table_present ==> m.probed(uuid, found, table_present).requests == m.requests
            && m.probed(uuid, found, table_present).status is Some,
{
}

/// What became of a bookmark is said: that it was set, that it was removed, or
/// the error. Nothing else changes.
pub proof fn toggles_are_said(m: AppModel, e: String)
    ensures
        m.bookmark_toggled(Ok(true)).status != m.bookmark_toggled(Ok(false)).status,
        m.bookmark_toggled(Ok(true)) == (AppModel {
            status: m.bookmark_toggled(Ok(true)).status,
            ..m
        }),
        m.bookmark_toggled(Ok(false)) == (AppModel {
            status: m.bookmark_toggled(Ok(false)).status,
            ..m
        }),
        ({
            let after = m.bookmark_toggled(Err(e));
            &&& after == (AppModel { status: after.status, ..m })
            &&& after.status is Some
            &&& !text::occurs_in(text::ascii_lower_all(e@), "foreign key"@) ==> text::in_order(
                after.status.unwrap(),
                seq![e@],
            )
        }),
{
    reveal_strlit("★ bookmarked");
    reveal_strlit("removed bookmark");
    assert("★ bookmarked"@.len() != "removed bookmark"@.len());
    let none = Seq::<char>::empty();
    text::holds_one("bookmark error: "@, e@, none);
    assert("bookmark error: "@ + e@ + none =~= "bookmark error: "@ + e@);
}

/// The bookmarks that were read are what the browser shows: it opens with them,
/// on the first, and the keys go to it. Read again, they replace what an open
/// browser shows and its cursor stays on a row; a closed one stays closed.
pub proof fn the_browser_shows_the_bookmarks(m: AppModel, rows: Seq<bb::RowModel>, now: Instant)
    requires
        m.browser matches Some(b) ==> 0 <= b.selected,
    ensures
        m.bookmarks_loaded(rows, now) == (AppModel {
            browser: Some(bb::BrowserModel { rows, selected: 0 }),
            scope: Scope::BookmarkBrowser,
            modal_opened_at: Some(now),
            ..m
        }),
        m.browser is None ==> m.bookmarks_refreshed(rows) == m,
        m.browser matches Some(b) ==> {
            let after = m.bookmarks_refreshed(rows);
            &&& after.browser is Some
            &&& after.browser.unwrap().rows == rows
            &&& b.selected < rows.len() ==> after.browser.unwrap().selected == b.selected
            &&& b.selected >= rows.len() > 0 ==> after.browser.unwrap().selected == rows.len() - 1
            &&& after == (AppModel { browser: after.browser, ..m })
        },
{
}

/// A deleted bookmark is said, and an open browser asks for the bookmarks again;
/// one that was not deleted is told with its error, and nothing is asked for.
pub proof fn deletions_refresh_the_browser(m: AppModel, e: String)
    ensures
        m.bookmark_deleted(Ok(())).status is Some,
        m.browser is Some ==> m.bookmark_deleted(Ok(())).requests == m.requests.push(
            Request::RefreshBookmarks,
        ),
        m.browser is None ==> m.bookmark_deleted(Ok(())).requests == m.requests,
        m.bookmark_deleted(Ok(())).browser == m.browser,
        ({
            let after = m.bookmark_deleted(Err(e));
            &&& after == (AppModel { status: after.status, ..m })
            &&& after.status is Some
            &&& text::in_order(after.status.unwrap(), seq![e@])
        }),
{
    let none = Seq::<char>::empty();
    text::holds_one("delete failed: "@, e@, none);
    assert("delete failed: "@ + e@ + none =~= "delete failed: "@ + e@);
}

// ---- statuses and names -----------------------------------------------------------

/// The label prompt opens for the session that was asked about, with the name it
/// has in the sidebar, on the status it has, or on active where that is not
/// known.
pub proof fn the_label_prompt_opens_on_the_session(
    m: AppModel,
    id: Seq<char>,
    status: Option<SessionStatus>,
    at: int,
    now: Instant,
)
    ensures
        ({
            let after = m.status_loaded(id, status, now);
            let p = after.label_prompt.unwrap();
            &&& after.label_prompt is Some
            &&& p.session_id == id
            &&& p.mode == lp::Mode::StatusPicker
            &&& status matches Some(s) ==> p.current_status == s
            &&& status is None ==> p.current_status == SessionStatus::Active
            &&& models::statuses()[p.selected_index as int] == p.current_status
            &&& 0 <= at < m.sidebar.len() && m.sidebar[at].session_id == id && (forall|k: int|
                0 <= k < at ==> (#[trigger] m.sidebar[k]).session_id != id)
                ==> p.session_display_name == m.sidebar[at].display_name
            &&& after.scope == Scope::LabelPrompt
            &&& after.requests == m.requests
        }),
{
    models::sessions_are_found_first(m.sidebar, id, 0);
    let found = models::find_item(m.sidebar, id, 0);
    if 0 <= at < m.sidebar.len() && m.sidebar[at].session_id == id && (forall|k: int|
        0 <= k < at ==> (#[trigger] m.sidebar[k]).session_id != id) {
        if found < at {
            assert(m.sidebar[found].session_id == id);
        }
        assert(found == at);
    }
}

/// Whether `after` differs from `before` only in the row of session `id`.
pub open spec fn only_row_of(before: Seq<ItemModel>, after: Seq<ItemModel>, id: Seq<char>) -> bool {
    &&& after.len() == before.len()
    &&& forall|k: int|
        0 <= k < before.len() && before[k].session_id != id ==> #[trigger] after[k] == before[k]
    &&& forall|k: int|
        0 <= k < before.len() ==> (#[trigger] after[k]).session_id == before[k].session_id
}

/// A status that was stored is said in its word. One from the board also shows
/// in the session's row of the sidebar, and in no other row. One that was not
/// stored is told with the error, and the board asks for what is stored.
pub proof fn stored_statuses_are_shown(
    m: AppModel,
    id: Seq<char>,
    status: SessionStatus,
    e: String,
    at: int,
)
    requires
        0 <= at < m.sidebar.len(),
        m.sidebar[at].session_id == id,
        forall|k: int| 0 <= k < at ==> (#[trigger] m.sidebar[k]).session_id != id,
    ensures
        ({
            let board = m.status_written(id, status, StatusOrigin::Board, Ok(()));
            let prompt = m.status_written(id, status, StatusOrigin::LabelPrompt, Ok(()));
            &&& board.sidebar[at].status == status
            &&& board.sidebar[at] == (ItemModel { status, ..m.sidebar[at] })
            &&& only_row_of(m.sidebar, board.sidebar, id)
            &&& board.requests == m.requests
            &&& prompt.sidebar == m.sidebar
            &&& prompt.requests == m.requests
            &&& board.status is Some && prompt.status is Some
            &&& text::in_order(board.status.unwrap(), seq![models::status_word(status)])
            &&& text::in_order(prompt.status.unwrap(), seq![models::status_word(status)])
        }),
        ({
            let board = m.status_written(id, status, StatusOrigin::Board, Err(e));
            let prompt = m.status_written(id, status, StatusOrigin::LabelPrompt, Err(e));
            &&& board.sidebar == m.sidebar && prompt.sidebar == m.sidebar
            &&& board.requests == m.requests.push(Request::ReloadStatuses)
            &&& prompt.requests == m.requests
            &&& board.status is Some && prompt.status is Some
            &&& text::in_order(board.status.unwrap(), seq![e@])
            &&& text::in_order(prompt.status.unwrap(), seq![e@])
        }),
{
    models::sessions_are_found_first(m.sidebar, id, 0);
    let found = models::find_item(m.sidebar, id, 0);
    if found < at {
        assert(m.sidebar[found].session_id == id);
    }
    let none = Seq::<char>::empty();
    text::holds_one("status → "@, models::status_word(status), none);
    assert("status → "@ + models::status_word(status) + none =~= "status → "@
        + models::status_word(status));
    text::holds_one("status error: "@, e@, none);
    assert("status error: "@ + e@ + none =~= "status error: "@ + e@);
}

/// A name that was stored shows in the session's row of the sidebar, and in no
/// other, and is said; a name that was cleared, or was not stored, changes no
/// row.
pub proof fn stored_names_are_shown(
    m: AppModel,
    id: Seq<char>,
    name: Seq<char>,
    e: String,
    at: int,
)
    requires
        0 <= at < m.sidebar.len(),
        m.sidebar[at].session_id == id,
        forall|k: int| 0 <= k < at ==> (#[trigger] m.sidebar[k]).session_id != id,
    ensures
        ({
            let after = m.name_written(id, Some(name), Ok(()));
            &&& after.sidebar[at] == (ItemModel { display_name: name, ..m.sidebar[at] })
            &&& only_row_of(m.sidebar, after.sidebar, id)
            &&& after.requests == m.requests
            &&& after.status is Some
            &&& text::in_order(after.status.unwrap(), seq![name])
        }),
        m.name_written(id, None, Ok(())).sidebar == m.sidebar,
        m.name_written(id, None, Ok(())).status is Some,
        ({
            let after = m.name_written(id, Some(name), Err(e));
            &&& after == (AppModel { status: after.status, ..m })
            &&& after.status is Some
            &&& text::in_order(after.status.unwrap(), seq![e@])
        }),
{
    models::sessions_are_found_first(m.sidebar, id, 0);
    let found = models::find_item(m.sidebar, id, 0);
    if found < at {
        assert(m.sidebar[found].session_id == id);
    }
    let none = Seq::<char>::empty();
    text::holds_one("name → "@, name, none);
    assert("name → "@ + name + none =~= "name → "@ + name);
    text::holds_one("rename error: "@, e@, none);
    assert("rename error: "@ + e@ + none =~= "rename error: "@ + e@);
}

/// What is known of a session's status is the first that is known, and active
/// where nothing is.
pub proof fn unknown_statuses_are_active(known: Seq<KnownStatus>, id: Seq<char>, k: int, from: int)
    requires
        0 <= from <= k <= known.len(),
        forall|i: int| from <= i < k ==> (#[trigger] known[i]).session_id@ != id,
    ensures
        k < known.len() && known[k].session_id@ == id ==> state::status_in(known, id, from)
            == known[k].status,
        k == known.len() ==> state::status_in(known, id, from) == SessionStatus::Active,
    decreases k - from,
{
    if from < k {
        assert(known[from].session_id@ != id);
        unknown_statuses_are_active(known, id, k, from + 1);
    }
}

/// The board opens with a card for every session of the sidebar, in its order,
/// with its name and its stored status, on the first card of the first column;
/// the sidebar shows the same statuses.
pub proof fn the_board_shows_every_session(
    m: AppModel,
    known: Seq<KnownStatus>,
    now: Instant,
    i: int,
)
    requires
        0 <= i < m.sidebar.len(),
    ensures
        ({
            let after = m.statuses_loaded(known, now);
            let board = after.kanban.unwrap();
            let item = m.sidebar[i];
            &&& after.kanban is Some
            &&& after.scope == Scope::Kanban
            &&& after.previous_scope == Some(m.scope)
            &&& board.cards.len() == m.sidebar.len()
            &&& board.cards[i].session_id == item.session_id
            &&& board.cards[i].display_name == item.display_name
            &&& board.cards[i].status == state::status_in(known, item.session_id, 0)
            &&& board.column == 0
            &&& board.rows == seq![0usize, 0, 0, 0, 0]
            &&& after.sidebar.len() == m.sidebar.len()
            &&& (forall|k: int| 0 <= k < i ==> (#[trigger] m.sidebar[k]).session_id
                != item.session_id) ==> after.sidebar[i] == (ItemModel {
                status: board.cards[i].status,
                ..item
            })
            &&& after.requests == m.requests
        }),
{
    models::sessions_are_found_first(m.sidebar, m.sidebar[i].session_id, 0);
    let found = models::find_item(m.sidebar, m.sidebar[i].session_id, 0);
    if found < i {
        assert(m.sidebar[found].session_id == m.sidebar[i].session_id);
    }
}

/// Statuses that are read again replace those of an open board, which keeps its
/// focus and its cursor as far as there are cards; a closed one stays closed.
pub proof fn the_board_shows_what_is_stored(m: AppModel, known: Seq<KnownStatus>, i: int)
    requires
        m.kanban matches Some(board) ==> board.wf(),
    ensures
        m.kanban is None ==> m.statuses_reloaded(known) == m,
        m.kanban is Some && 0 <= i < m.sidebar.len() ==> {
            let after = m.statuses_reloaded(known);
            let board = after.kanban.unwrap();
            &&& after.kanban is Some
            &&& board.column == m.kanban.unwrap().column
            &&& board.cards.len() == m.sidebar.len()
            &&& board.cards[i].session_id == m.sidebar[i].session_id
            &&& board.cards[i].status == state::status_in(known, m.sidebar[i].session_id, 0)
            &&& after == (AppModel { kanban: after.kanban, ..m })
            &&& m.sidebar.len() <= usize::MAX ==> {
                let column = kb::with_status(board.cards, models::statuses()[board.column]);
                let (was, is) = (
                    m.kanban.unwrap().rows[board.column],
                    board.rows[board.column],
                );
                &&& was < column.len() ==> is == was
                &&& was >= column.len() > 0 ==> is == column.len() - 1
            }
        },
{
    if m.kanban is Some {
        let cards = m.board_cards(known);
        kb::column_is_no_longer(cards, models::statuses()[m.kanban.unwrap().column]);
    }
}

// ---- conflicts -----------------------------------------------------------------

/// The conflict viewer opens with the conflicts that were gathered, on the first,
/// without the reviewed ones; every session of the sidebar shows how many of its
/// own are open.
pub proof fn the_viewer_shows_the_conflicts(
    m: AppModel,
    found: conflicts::Gathered,
    now: Instant,
    i: int,
)
    requires
        0 <= i < m.sidebar.len(),
    ensures
        ({
            let after = m.conflicts_loaded(found, now);
            let v = after.viewer.unwrap();
            &&& after.viewer is Some
            &&& v.rows == found.rows
            &&& v.selected == 0
            &&& !v.show_resolved
            &&& after.scope == Scope::ConflictViewer
            &&& after.previous_scope == Some(m.scope)
            &&& after.counts == found.counts
            &&& after.sidebar.len() == m.sidebar.len()
            &&& after.sidebar[i] == (ItemModel {
                unresolved_conflict_count: conflicts::count_of(
                    found.counts,
                    m.sidebar[i].session_id,
                ),
                ..m.sidebar[i]
            })
            &&& after.requests == m.requests
        }),
{
}

/// Conflicts that are read again replace those of an open viewer, whose cursor
/// stays on a row and which lists what it listed; the counts follow, also where
/// the viewer was closed.
pub proof fn the_viewer_shows_what_is_stored(m: AppModel, found: conflicts::Gathered, i: int)
    requires
        m.viewer matches Some(v) ==> 0 <= v.selected,
    ensures
        ({
            let after = m.conflicts_reloaded(found);
            &&& after.counts == found.counts
            &&& 0 <= i < m.sidebar.len() ==> after.sidebar[i].unresolved_conflict_count
                == conflicts::count_of(found.counts, m.sidebar[i].session_id)
            &&& m.viewer is None ==> after.viewer is None
            &&& m.viewer matches Some(v) ==> {
                let shown = after.viewer.unwrap();
                let rows = cv::listed(found.rows, v.show_resolved);
                &&& after.viewer is Some
                &&& shown.rows == found.rows
                &&& shown.show_resolved == v.show_resolved
                &&& v.selected < rows.len() ==> shown.selected == v.selected
                &&& v.selected >= rows.len() > 0 ==> shown.selected == rows.len() - 1
            }
            &&& after.requests == m.requests
        }),
{
}

/// A conflict that is being resolved is said with its id, and the conflicts are
/// asked for again; where that could not be started, the command to run is said
/// with the id, and nothing is asked for.
pub proof fn resolved_conflicts_are_said(m: AppModel, id: i64)
    ensures
        ({
            let (done, left) = (m.conflict_resolved(id, true), m.conflict_resolved(id, false));
            &&& done.requests == m.requests.push(Request::ReloadConflicts)
            &&& left.requests == m.requests
            &&& done.status is Some && left.status is Some
            &&& text::in_order(done.status.unwrap(), seq![text::signed_decimal(id as int)])
            &&& text::in_order(left.status.unwrap(), seq![text::signed_decimal(id as int)])
            &&& done.viewer == m.viewer && left.viewer == m.viewer
        }),
{
    let n = text::signed_decimal(id as int);
    text::holds_one("resolved #"@, n, " (running threadhop conflicts --resolved)"@);
    text::holds_one("run `threadhop conflicts --resolved "@, n, "` to resolve"@);
}

// ---- copies and exports -----------------------------------------------------------

/// A copy is reported with its number of characters and an export with its file;
/// a failed one with its error. Nothing else changes.
pub proof fn copies_and_exports_are_reported(
    m: AppModel,
    chars: nat,
    path: Seq<char>,
    e: String,
)
    ensures
        ({
            let (done, failed) = (
                m.clipboard_finished(chars, Ok(())),
                m.clipboard_finished(chars, Err(ClipboardError::Backend(e))),
            );
            &&& done == (AppModel { status: done.status, ..m })
            &&& failed == (AppModel { status: failed.status, ..m })
            &&& done.status is Some && failed.status is Some
            &&& text::in_order(done.status.unwrap(), seq![text::decimal(chars)])
            &&& text::in_order(failed.status.unwrap(), seq![e@])
        }),
        ({
            let (done, failed) = (m.export_finished(path, Ok(())), m.export_finished(path, Err(e)));
            &&& done == (AppModel { status: done.status, ..m })
            &&& failed == (AppModel { status: failed.status, ..m })
            &&& done.status is Some && failed.status is Some
            &&& text::in_order(done.status.unwrap(), seq![path])
            &&& text::in_order(failed.status.unwrap(), seq![e@])
        }),
{
    let none = Seq::<char>::empty();
    text::holds_one("Copied "@, text::decimal(chars), " chars to clipboard"@);
    text::holds_one("Clipboard unavailable: "@, e@, none);
    assert("Clipboard unavailable: "@ + e@ + none =~= "Clipboard unavailable: "@ + e@);
    text::holds_one("Exported → "@, path, none);
    assert("Exported → "@ + path + none =~= "Exported → "@ + path);
    text::holds_one("Export failed: "@, e@, none);
    assert("Export failed: "@ + e@ + none =~= "Export failed: "@ + e@);
}

} // verus!
