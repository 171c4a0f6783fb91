//! The bookmark browser: the list of pinned messages.

use vstd::prelude::*;

use crate::keys::{KeyCode, KeyEvent, KeyEventKind, KeyModifiers};
use crate::text;
use crate::ui;
use crate::ui::Rect;

verus! {

/// What a bookmark was set for.
#[derive(Debug, Clone, Copy, PartialEq, Eq, Structural)]
pub enum BookmarkKind {
    Bookmark,
    Research,
}

/// One bookmark, with a line of the message it pins.
#[derive(Debug, Clone)]
pub struct BookmarkRow {
    pub id: i64,
    pub session_id: String,
    pub message_uuid: String,
    pub kind: BookmarkKind,
    pub note: Option<String>,
    pub snippet: Option<String>,
    /// Microseconds since the epoch.
    pub created_at: i64,
}

/// What a bookmark row holds.
#[verifier::ext_equal]
pub struct RowModel {
    pub id: i64,
    pub session_id: Seq<char>,
    pub message_uuid: Seq<char>,
    pub kind: BookmarkKind,
    pub note: Option<Seq<char>>,
    pub snippet: Option<Seq<char>>,
    pub created_at: i64,
}

impl View for BookmarkRow {
    type V = RowModel;

    open spec fn view(&self) -> RowModel {
        RowModel {
            id: self.id,
            session_id: self.session_id@,
            message_uuid: self.message_uuid@,
            kind: self.kind,
            note: text::opt_view(self.note),
            snippet: text::opt_view(self.snippet),
            created_at: self.created_at,
        }
    }
}

pub open spec fn rows_view(v: Seq<BookmarkRow>) -> Seq<RowModel> {
    Seq::new(v.len(), |i: int| v[i]@)
}

/// The browser: its rows and the one under the cursor.
#[derive(Debug, Clone)]
pub struct State {
    pub bookmarks: Vec<BookmarkRow>,
    pub selected_index: usize,
}

/// What the browser holds.
#[verifier::ext_equal]
pub struct BrowserModel {
    pub rows: Seq<RowModel>,
    pub selected: int,
}

impl View for State {
    type V = BrowserModel;

    open spec fn view(&self) -> BrowserModel {
        BrowserModel { rows: rows_view(self.bookmarks@), selected: self.selected_index as int }
    }
}

/// A cursor moved back onto the last of `len` rows where it was beyond it.
pub open spec fn on_a_row(selected: int, len: int) -> int {
    if len <= 0 {
        0
    } else if selected >= len {
        len - 1
    } else {
        selected
    }
}

impl State {
    /// A browser without rows.
    pub fn new() -> (state: State)
        ensures
            state@ == (BrowserModel { rows: Seq::empty(), selected: 0 }),
    {
        let state = State { bookmarks: Vec::new(), selected_index: 0 };
        assert(rows_view(state.bookmarks@) =~= Seq::empty());
        state
    }

    /// Replaces the rows. The cursor stays where it is, or goes to the last
    /// row where there are fewer now.
    pub fn set_bookmarks(&mut self, rows: Vec<BookmarkRow>)
        ensures
            final(self)@ == (BrowserModel {
                rows: rows_view(rows@),
                selected: on_a_row(old(self)@.selected, rows@.len() as int),
            }),
    {
        self.bookmarks = rows;
        let len: usize = self.bookmarks.len();
        if len == 0 {
            self.selected_index = 0;
        } else if self.selected_index >= len {
            self.selected_index = len - 1;
        }
    }
}

/// What the browser hands back to the application.
#[derive(Debug, Clone, PartialEq, Eq)]
pub enum Result {
    Cancelled,
    JumpToMessage { session_id: String, message_uuid: String },
    DeleteRequested { bookmark_id: i64 },
}

pub enum BrowserOutcome {
    Cancelled,
    JumpToMessage { session_id: Seq<char>, message_uuid: Seq<char> },
    DeleteRequested { bookmark_id: i64 },
}

impl View for Result {
    type V = BrowserOutcome;

    open spec fn view(&self) -> BrowserOutcome {
        match *self {
            Result::Cancelled => BrowserOutcome::Cancelled,
            Result::JumpToMessage {
                session_id,
                message_uuid,
            } => BrowserOutcome::JumpToMessage {
                session_id: session_id@,
                message_uuid: message_uuid@,
            },
            Result::DeleteRequested {
                bookmark_id,
            } => BrowserOutcome::DeleteRequested { bookmark_id },
        }
    }
}

pub open spec fn outcome_view(r: Option<Result>) -> Option<BrowserOutcome> {
    match r {
        Some(x) => Some(x@),
        None => None,
    }
}

/// What a key asks of a list: it closes it, opens a row, moves the cursor, or
/// is for the list itself.
#[derive(Debug, Clone, Copy, PartialEq, Eq, Structural)]
pub enum ListKey {
    Close,
    Open,
    Next,
    Prev,
    Letter(char),
    Nothing,
}

pub open spec fn list_key(ev: KeyEvent) -> ListKey {
    let plain = ev.modifiers == KeyModifiers::none();
    let control = ev.modifiers == KeyModifiers::control();
    if ev.kind == KeyEventKind::Release {
        ListKey::Nothing
    } else {
        match ev.code {
            KeyCode::Esc => ListKey::Close,
            KeyCode::Enter => ListKey::Open,
            KeyCode::Down => ListKey::Next,
            KeyCode::Up => ListKey::Prev,
            KeyCode::Char(c) => if control && c == 'c' {
                ListKey::Close
            } else if (plain && c == 'j') || (control && c == 'n') {
                ListKey::Next
            } else if (plain && c == 'k') || (control && c == 'p') {
                ListKey::Prev
            } else if plain {
                ListKey::Letter(c)
            } else {
                ListKey::Nothing
            },
            _ => ListKey::Nothing,
        }
    }
}

pub fn read_list_key(ev: KeyEvent) -> (k: ListKey)
    ensures
        k == list_key(ev),
{
    if ev.kind == KeyEventKind::Release {
        return ListKey::Nothing;
    }
    let plain = ev.modifiers == KeyModifiers::none();
    let control = ev.modifiers == KeyModifiers::control();
    match ev.code {
        KeyCode::Esc => ListKey::Close,
        KeyCode::Enter => ListKey::Open,
        KeyCode::Down => ListKey::Next,
        KeyCode::Up => ListKey::Prev,
        KeyCode::Char(c) => {
            if control && c == 'c' {
                ListKey::Close
            } else if (plain && c == 'j') || (control && c == 'n') {
                ListKey::Next
            } else if (plain && c == 'k') || (control && c == 'p') {
                ListKey::Prev
            } else if plain {
                ListKey::Letter(c)
            } else {
                ListKey::Nothing
            }
        },
        _ => ListKey::Nothing,
    }
}

/// The browser after a key, and what it hands back.
#[verifier::opaque]
pub open spec fn browser_step(b: BrowserModel, ev: KeyEvent) -> (
    BrowserModel,
    Option<BrowserOutcome>,
) {
    match list_key(ev) {
        ListKey::Close => (b, Some(BrowserOutcome::Cancelled)),
        ListKey::Open => if b.selected < b.rows.len() {
            let row = b.rows[b.selected];
            (
                b,
                Some(
                    BrowserOutcome::JumpToMessage {
                        session_id: row.session_id,
                        message_uuid: row.message_uuid,
                    },
                ),
            )
        } else {
            (b, None)
        },
        ListKey::Next => if b.selected + 1 < b.rows.len() {
            (BrowserModel { selected: b.selected + 1, ..b }, None)
        } else {
            (b, None)
        },
        ListKey::Prev => if b.selected > 0 {
            (BrowserModel { selected: b.selected - 1, ..b }, None)
        } else {
            (b, None)
        },
        ListKey::Letter(c) => if c == 'd' && b.selected < b.rows.len() {
            (b, Some(BrowserOutcome::DeleteRequested { bookmark_id: b.rows[b.selected].id }))
        } else {
            (b, None)
        },
        ListKey::Nothing => (b, None),
    }
}

/// Handles one key. Something is handed back where the application has to act:
/// close the browser, go to a message, or ask whether to delete a bookmark.
pub fn handle_key(state: &mut State, key: KeyEvent) -> (result: Option<Result>)
    ensures
        (final(state)@, outcome_view(result)) == browser_step(old(state)@, key),
        final(state).bookmarks == old(state).bookmarks,
{
    proof {
        reveal(browser_step);
    }
    let len: usize = state.bookmarks.len();
    match read_list_key(key) {
        ListKey::Close => Some(Result::Cancelled),
        ListKey::Open => {
            if state.selected_index < len {
                let row = &state.bookmarks[state.selected_index];
                Some(
                    Result::JumpToMessage {
                        session_id: row.session_id.clone(),
                        message_uuid: row.message_uuid.clone(),
                    },
                )
            } else {
                None
            }
        },
        ListKey::Next => {
            if state.selected_index < len && state.selected_index + 1 < len {
                state.selected_index = state.selected_index + 1;
            }
            None
        },
        ListKey::Prev => {
            if state.selected_index > 0 {
                state.selected_index = state.selected_index - 1;
            }
            None
        },
        ListKey::Letter(c) => {
            if c == 'd' && state.selected_index < len {
                let bookmark_id: i64 = state.bookmarks[state.selected_index].id;
                Some(Result::DeleteRequested { bookmark_id })
            } else {
                None
            }
        },
        ListKey::Nothing => None,
    }
}

/// The popup rectangle of the browser.
pub fn centered_rect(pct_w: u16, pct_h: u16, parent: Rect) -> (rect: Rect)
    requires
        parent.x + ui::minus(parent.width, ui::share(parent.width, pct_w) as int) / 2 <= u16::MAX,
        parent.y + ui::minus(parent.height, ui::share(parent.height, pct_h) as int) / 2 <= u16::MAX,
    ensures
        rect == ui::centered(pct_w, pct_h, parent),
{
    ui::centered_rect(pct_w, pct_h, parent)
}

/// The browser never changes its rows, and its cursor stays on a row.
pub proof fn cursor_stays_on_a_row(b: BrowserModel, ev: KeyEvent)
    requires
        0 <= b.selected < b.rows.len(),
    ensures
        browser_step(b, ev).0.rows == b.rows,
        0 <= browser_step(b, ev).0.selected < b.rows.len(),
{
    reveal(browser_step);
}

/// A released key leaves the browser alone.
pub proof fn releases_are_ignored(b: BrowserModel, ev: KeyEvent)
    requires
        ev.kind == KeyEventKind::Release,
    ensures
        browser_step(b, ev) == (b, None::<BrowserOutcome>),
{
    reveal(browser_step);
}

/// Enter goes to the message of the bookmark under the cursor, and `d` asks to
/// delete that bookmark; the browser itself stays as it is.
pub proof fn keys_act_on_the_row(b: BrowserModel, ev: KeyEvent)
    requires
        0 <= b.selected < b.rows.len(),
        ev.kind != KeyEventKind::Release,
    ensures
        ev.code == KeyCode::Enter ==> browser_step(b, ev) == (
            b,
            Some(
                BrowserOutcome::JumpToMessage {
                    session_id: b.rows[b.selected].session_id,
                    message_uuid: b.rows[b.selected].message_uuid,
                },
            ),
        ),
        ev.code == KeyCode::Char('d') && ev.modifiers == KeyModifiers::none() ==> browser_step(
            b,
            ev,
        ) == (b, Some(BrowserOutcome::DeleteRequested { bookmark_id: b.rows[b.selected].id })),
{
    reveal(browser_step);
}

/// Without a row under the cursor Enter and `d` do nothing.
pub proof fn empty_browsers_do_nothing(b: BrowserModel, ev: KeyEvent)
    requires
        b.selected >= b.rows.len(),
        ev.kind != KeyEventKind::Release,
        ev.code == KeyCode::Enter || (ev.code == KeyCode::Char('d') && ev.modifiers
            == KeyModifiers::none()),
    ensures
        browser_step(b, ev) == (b, None::<BrowserOutcome>),
{
    reveal(browser_step);
}

/// The down keys put the cursor on the next row and the up keys on the one
/// before, and both stop at the ends.
pub proof fn cursor_keys_move_by_one(b: BrowserModel, ev: KeyEvent)
    requires
        0 <= b.selected < b.rows.len(),
        ev.kind != KeyEventKind::Release,
    ensures
        ({
            let (after, outcome) = browser_step(b, ev);
            let plain = ev.modifiers == KeyModifiers::none();
            let control = ev.modifiers == KeyModifiers::control();
            let down = ev.code == KeyCode::Down || (ev.code == KeyCode::Char('j') && plain) || (
            ev.code == KeyCode::Char('n') && control);
            let up = ev.code == KeyCode::Up || (ev.code == KeyCode::Char('k') && plain) || (ev.code
                == KeyCode::Char('p') && control);
            &&& down || up ==> outcome is None
            &&& down && b.selected + 1 < b.rows.len() ==> after.selected == b.selected + 1
            &&& down && b.selected + 1 == b.rows.len() ==> after.selected == b.selected
            &&& up && b.selected > 0 ==> after.selected == b.selected - 1
            &&& up && b.selected == 0 ==> after.selected == 0
        }),
{
    reveal(browser_step);
}

/// Esc and Ctrl-c close the browser.
pub proof fn closing_keys_close(b: BrowserModel, ev: KeyEvent)
    requires
        ev.kind != KeyEventKind::Release,
        ev.code == KeyCode::Esc || (ev.code == KeyCode::Char('c') && ev.modifiers
            == KeyModifiers::control()),
    ensures
        browser_step(b, ev).1 matches Some(BrowserOutcome::Cancelled),
{
    reveal(browser_step);
}

/// A cursor stays where it is while there is a row for it, else it goes to the
/// last row there is.
pub proof fn cursors_fall_back_to_the_last_row(selected: int, len: int)
    requires
        0 <= selected,
        0 <= len,
    ensures
        selected < len ==> on_a_row(selected, len) == selected,
        selected >= len > 0 ==> on_a_row(selected, len) == len - 1,
        len == 0 ==> on_a_row(selected, len) == 0,
{
}

} // verus!
