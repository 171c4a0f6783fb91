//! The status board: sessions as cards, one column per status.

use vstd::prelude::*;
use vstd::string::*;

use crate::keys;
use crate::keys::{Command, KeyCode, KeyEvent, KeyEventKind, KeyModifiers};
use crate::models;
use crate::models::SessionStatus;
use crate::text;
use crate::ui;
use crate::ui::Rect;

verus! {

/// One card of the board.
#[derive(Debug, Clone, PartialEq, Eq)]
pub struct KanbanItem {
    pub session_id: String,
    pub display_name: String,
    pub status: SessionStatus,
}

/// What a card holds.
#[verifier::ext_equal]
pub struct CardModel {
    pub session_id: Seq<char>,
    pub display_name: Seq<char>,
    pub status: SessionStatus,
}

impl View for KanbanItem {
    type V = CardModel;

    open spec fn view(&self) -> CardModel {
        CardModel {
            session_id: self.session_id@,
            display_name: self.display_name@,
            status: self.status,
        }
    }
}

/// The board: its cards in one flat list, the column in focus, and for each
/// column the card its cursor is on.
#[derive(Debug, Clone)]
pub struct State {
    pub items: Vec<KanbanItem>,
    pub selected_column: usize,
    pub selected_row_in_column: Vec<usize>,
}

/// What the board holds.
#[verifier::ext_equal]
pub struct BoardModel {
    pub cards: Seq<CardModel>,
    pub column: int,
    pub rows: Seq<usize>,
}

pub open spec fn cards_view(items: Seq<KanbanItem>) -> Seq<CardModel> {
    Seq::new(items.len(), |i: int| items[i]@)
}

impl View for State {
    type V = BoardModel;

    open spec fn view(&self) -> BoardModel {
        BoardModel {
            cards: cards_view(self.items@),
            column: self.selected_column as int,
            rows: self.selected_row_in_column@,
        }
    }
}

impl BoardModel {
    /// There are five columns, each with a cursor, and one is in focus.
    pub open spec fn wf(self) -> bool {
        0 <= self.column < 5 && self.rows.len() == 5
    }

    /// The cards of a column, in board order.
    pub open spec fn column_cards(self, column: int) -> Seq<CardModel> {
        if 0 <= column < 5 {
            with_status(self.cards, models::statuses()[column])
        } else {
            Seq::empty()
        }
    }

    /// The card under the cursor of the column in focus.
    pub open spec fn current(self) -> Option<CardModel> {
        let cards = self.column_cards(self.column);
        let row = self.rows[self.column] as int;
        if row < cards.len() {
            Some(cards[row])
        } else {
            None
        }
    }

    /// The board with the cursor of the column in focus put on row `row`.
    pub open spec fn at_row(self, row: int) -> BoardModel {
        BoardModel { rows: self.rows.update(self.column, row as usize), ..self }
    }

    /// The board with that cursor moved back onto the column's last card
    /// where it was beyond it.
    pub open spec fn clamped(self) -> BoardModel {
        let len = self.column_cards(self.column).len();
        let row = self.rows[self.column] as int;
        if len == 0 {
            self.at_row(0)
        } else if row >= len {
            self.at_row(len - 1)
        } else {
            self
        }
    }

    /// The board with another column in focus, counted round from this one.
    pub open spec fn column_moved(self, delta: int) -> BoardModel {
        BoardModel { column: (self.column + delta) % 5, ..self }.clamped()
    }

    /// The board with the cursor one row on or back, within the column.
    pub open spec fn row_moved(self, delta: int) -> BoardModel {
        let len = self.column_cards(self.column).len();
        let to = self.rows[self.column] + delta;
        if len == 0 {
            self
        } else if to < 0 {
            self.at_row(0)
        } else if to > len - 1 {
            self.at_row(len - 1)
        } else {
            self.at_row(to)
        }
    }

    /// The board after the first card of session `id` got status `status`:
    /// the focus follows the card to its new column.
    pub open spec fn card_moved(self, id: Seq<char>, status: SessionStatus) -> BoardModel {
        let cards = set_status(self.cards, id, status, 0);
        let column = models::index_of_status(status);
        let row = find_card(with_status(cards, status), id, 0);
        BoardModel { cards, column, rows: self.rows.update(column, row as usize) }
    }
}

/// The cards with a given status, in order.
pub open spec fn with_status(cards: Seq<CardModel>, status: SessionStatus) -> Seq<CardModel>
    decreases cards.len(),
{
    if cards.len() == 0 {
        Seq::empty()
    } else {
        let before = with_status(cards.drop_last(), status);
        if cards.last().status == status {
            before.push(cards.last())
        } else {
            before
        }
    }
}

/// The position of the first card from `from` on with a given session, or the
/// number of cards.
pub open spec fn find_card(cards: Seq<CardModel>, id: Seq<char>, from: int) -> int
    decreases cards.len() - from,
{
    if from < 0 || from >= cards.len() {
        cards.len() as int
    } else if cards[from].session_id == id {
        from
    } else {
        find_card(cards, id, from + 1)
    }
}

/// The cards with the status of the first one from `from` on with a given
/// session replaced.
pub open spec fn set_status(
    cards: Seq<CardModel>,
    id: Seq<char>,
    status: SessionStatus,
    from: int,
) -> Seq<CardModel> {
    let at = find_card(cards, id, from);
    if at < cards.len() {
        cards.update(at, CardModel { status, ..cards[at] })
    } else {
        cards
    }
}

/// The status that follows another, round from the last to the first.
pub open spec fn status_after(status: SessionStatus) -> SessionStatus {
    models::statuses()[(models::index_of_status(status) + 1) % 5]
}

/// The status that follows another, round from the last to the first.
pub fn next_status(status: SessionStatus) -> (next: SessionStatus)
    ensures
        next == status_after(status),
{
    let i: usize = models::status_index(status);
    models::status_at((i + 1) % 5)
}

/// What the board hands back to the application.
#[derive(Debug, Clone, PartialEq, Eq)]
pub enum KanbanResult {
    Cancelled,
    JumpToSession { session_id: String },
    /// Carries the status that the card has now.
    StatusChanged { session_id: String, new_status: SessionStatus },
}

pub enum KanbanOutcome {
    Cancelled,
    JumpToSession { session_id: Seq<char> },
    StatusChanged { session_id: Seq<char>, new_status: SessionStatus },
}

impl View for KanbanResult {
    type V = KanbanOutcome;

    open spec fn view(&self) -> KanbanOutcome {
        match *self {
            KanbanResult::Cancelled => KanbanOutcome::Cancelled,
            KanbanResult::JumpToSession { session_id } => KanbanOutcome::JumpToSession {
                session_id: session_id@,
            },
            KanbanResult::StatusChanged {
                session_id,
                new_status,
            } => KanbanOutcome::StatusChanged { session_id: session_id@, new_status },
        }
    }
}

pub open spec fn outcome_view(r: Option<KanbanResult>) -> Option<KanbanOutcome> {
    match r {
        Some(x) => Some(x@),
        None => None,
    }
}

/// What a key asks of the board.
#[derive(Debug, Clone, Copy, PartialEq, Eq, Structural)]
pub enum BoardKey {
    Close,
    ColumnLeft,
    ColumnRight,
    RowDown,
    RowUp,
    Open,
    CycleStatus,
    Nothing,
}

pub open spec fn board_key(ev: KeyEvent) -> BoardKey {
    let plain = ev.modifiers == KeyModifiers::none();
    if ev.kind == KeyEventKind::Release {
        BoardKey::Nothing
    } else {
        match ev.code {
            KeyCode::Esc => BoardKey::Close,
            KeyCode::Left => BoardKey::ColumnLeft,
            KeyCode::Right => BoardKey::ColumnRight,
            KeyCode::Down => BoardKey::RowDown,
            KeyCode::Up => BoardKey::RowUp,
            KeyCode::Enter => BoardKey::Open,
            KeyCode::Char(c) => if c == 'c' && ev.modifiers == KeyModifiers::control() {
                BoardKey::Close
            } else if !plain {
                BoardKey::Nothing
            } else if c == 'q' {
                BoardKey::Close
            } else if c == 'h' {
                BoardKey::ColumnLeft
            } else if c == 'l' {
                BoardKey::ColumnRight
            } else if c == 'j' {
                BoardKey::RowDown
            } else if c == 'k' {
                BoardKey::RowUp
            } else if c == 'm' {
                BoardKey::CycleStatus
            } else {
                BoardKey::Nothing
            },
            _ => BoardKey::Nothing,
        }
    }
}

fn read_key(ev: KeyEvent) -> (k: BoardKey)
    ensures
        k == board_key(ev),
{
    if ev.kind == KeyEventKind::Release {
        return BoardKey::Nothing;
    }
    match ev.code {
        KeyCode::Esc => BoardKey::Close,
        KeyCode::Left => BoardKey::ColumnLeft,
        KeyCode::Right => BoardKey::ColumnRight,
        KeyCode::Down => BoardKey::RowDown,
        KeyCode::Up => BoardKey::RowUp,
        KeyCode::Enter => BoardKey::Open,
        KeyCode::Char(c) => {
            if c == 'c' && ev.modifiers == KeyModifiers::control() {
                BoardKey::Close
            } else if ev.modifiers != KeyModifiers::none() {
                BoardKey::Nothing
            } else if c == 'q' {
                BoardKey::Close
            } else if c == 'h' {
                BoardKey::ColumnLeft
            } else if c == 'l' {
                BoardKey::ColumnRight
            } else if c == 'j' {
                BoardKey::RowDown
            } else if c == 'k' {
                BoardKey::RowUp
            } else if c == 'm' {
                BoardKey::CycleStatus
            } else {
                BoardKey::Nothing
            }
        },
        _ => BoardKey::Nothing,
    }
}

/// The board after a key, and what it hands back.
#[verifier::opaque]
pub open spec fn board_step(board: BoardModel, ev: KeyEvent) -> (BoardModel, Option<KanbanOutcome>) {
    match board_key(ev) {
        BoardKey::Close => (board, Some(KanbanOutcome::Cancelled)),
        BoardKey::ColumnLeft => (board.column_moved(-1), None),
        BoardKey::ColumnRight => (board.column_moved(1), None),
        BoardKey::RowDown => (board.row_moved(1), None),
        BoardKey::RowUp => (board.row_moved(-1), None),
        BoardKey::Open => match board.current() {
            Some(card) => (
                board,
                Some(KanbanOutcome::JumpToSession { session_id: card.session_id }),
            ),
            None => (board, None),
        },
        BoardKey::CycleStatus => match board.current() {
            Some(card) => (
                board.card_moved(card.session_id, status_after(card.status)),
                Some(
                    KanbanOutcome::StatusChanged {
                        session_id: card.session_id,
                        new_status: status_after(card.status),
                    },
                ),
            ),
            None => (board, None),
        },
        BoardKey::Nothing => (board, None),
    }
}

/// The views of a list of borrowed cards.
pub open spec fn borrowed_view(v: Seq<&KanbanItem>) -> Seq<CardModel> {
    Seq::new(v.len(), |i: int| (*v[i])@)
}

impl State {
    /// A board with the first column in focus and every cursor at the top.
    pub fn new(items: Vec<KanbanItem>) -> (state: State)
        ensures
            state@ == (BoardModel {
                cards: cards_view(items@),
                column: 0,
                rows: seq![0usize, 0, 0, 0, 0],
            }),
            state@.wf(),
    {
        State { items, selected_column: 0, selected_row_in_column: vec![0, 0, 0, 0, 0] }
    }

    /// The cards of a column, in board order. There are none in a column
    /// beyond the last.
    pub fn items_in_column(&self, column: usize) -> (out: Vec<&KanbanItem>)
        ensures
            borrowed_view(out@) == self@.column_cards(column as int),
            out@.len() == self@.column_cards(column as int).len(),
    {
        let mut out: Vec<&KanbanItem> = Vec::new();
        if column >= 5 {
            assert(borrowed_view(out@) =~= self@.column_cards(column as int));
            return out;
        }
        let status = models::status_at(column);
        let ghost cards = self@.cards;
        let mut i: usize = 0;
        assert(borrowed_view(out@) =~= with_status(cards.take(0), status));
        while i < self.items.len()
            invariant
                i <= self.items@.len(),
                cards == cards_view(self.items@),
                borrowed_view(out@) == with_status(cards.take(i as int), status),
            decreases self.items@.len() - i,
        {
            let ghost longer = cards.take(i + 1);
            let ghost before = borrowed_view(out@);
            assert(longer.drop_last() =~= cards.take(i as int));
            assert(longer.last() == self.items@[i as int]@);
            if self.items[i].status == status {
                out.push(&self.items[i]);
                assert(borrowed_view(out@) =~= before.push(longer.last()));
            }
            i += 1;
        }
        assert(cards.take(i as int) =~= cards);
        assert(out@.len() == borrowed_view(out@).len());
        out
    }

    /// The card under the cursor of the column in focus.
    fn current(&self) -> (card: Option<&KanbanItem>)
        requires
            self@.wf(),
        ensures
            match card {
                Some(c) => self@.current() == Some((*c)@),
                None => self@.current() is None,
            },
    {
        let column = self.items_in_column(self.selected_column);
        let row: usize = self.selected_row_in_column[self.selected_column];
        if row < column.len() {
            assert(borrowed_view(column@)[row as int] == (*column@[row as int])@);
            Some(column[row])
        } else {
            None
        }
    }

    fn set_row(&mut self, row: usize)
        requires
            old(self)@.wf(),
        ensures
            final(self)@ == old(self)@.at_row(row as int),
            final(self).items == old(self).items,
    {
        self.selected_row_in_column[self.selected_column] = row;
    }

    /// Moves the cursor of the column in focus back onto the column's last
    /// card where it was beyond it.
    pub fn clamp_row(&mut self)
        requires
            old(self)@.wf(),
        ensures
            final(self)@ == old(self)@.clamped(),
            final(self)@.wf(),
    {
        let len: usize = self.items_in_column(self.selected_column).len();
        let row: usize = self.selected_row_in_column[self.selected_column];
        if len == 0 {
            self.set_row(0);
        } else if row >= len {
            self.set_row(len - 1);
        }
    }
}

fn move_column(state: &mut State, right: bool)
    requires
        old(state)@.wf(),
    ensures
        final(state)@ == old(state)@.column_moved(if right { 1 } else { -1 }),
        final(state)@.wf(),
{
    let n: usize = if right {
        1
    } else {
        4
    };
    proof {
        let c = state.selected_column as int;
        assert(!right ==> (c - 1) % 5 == (c + 4) % 5);
    }
    state.selected_column = (state.selected_column + n) % 5;
    state.clamp_row();
}

fn move_row(state: &mut State, down: bool)
    requires
        old(state)@.wf(),
    ensures
        final(state)@ == old(state)@.row_moved(if down { 1 } else { -1 }),
        final(state)@.wf(),
{
    let len: usize = state.items_in_column(state.selected_column).len();
    if len == 0 {
        return;
    }
    let row: usize = state.selected_row_in_column[state.selected_column];
    if down {
        if row >= len - 1 {
            state.set_row(len - 1);
        } else {
            state.set_row(row + 1);
        }
    } else if row == 0 {
        state.set_row(0);
    } else if row - 1 > len - 1 {
        state.set_row(len - 1);
    } else {
        state.set_row(row - 1);
    }
}

proof fn found_card(cards: Seq<CardModel>, id: Seq<char>, from: int)
    requires
        0 <= from,
    ensures
        from <= find_card(cards, id, from) || from > cards.len(),
        find_card(cards, id, from) <= cards.len(),
        find_card(cards, id, from) < cards.len() ==> cards[find_card(cards, id, from)].session_id
            == id,
        forall|k: int|
            from <= k < find_card(cards, id, from) ==> (#[trigger] cards[k]).session_id != id,
    decreases cards.len() - from,
{
    if from < cards.len() && cards[from].session_id != id {
        found_card(cards, id, from + 1);
    }
}

proof fn first_card_found(cards: Seq<CardModel>, id: Seq<char>, at: int)
    requires
        0 <= at < cards.len(),
        cards[at].session_id == id,
    ensures
        find_card(cards, id, 0) <= at,
{
    found_card(cards, id, 0);
}

/// A card with the status is among those that `with_status` lists.
proof fn listed(cards: Seq<CardModel>, status: SessionStatus, at: int) -> (row: int)
    requires
        0 <= at < cards.len(),
        cards[at].status == status,
    ensures
        0 <= row < with_status(cards, status).len(),
        with_status(cards, status)[row] == cards[at],
    decreases cards.len(),
{
    if at == cards.len() - 1 {
        with_status(cards, status).len() - 1
    } else {
        listed(cards.drop_last(), status, at)
    }
}

/// Every card that `with_status` lists is on the board and has the status.
proof fn only_listed(cards: Seq<CardModel>, status: SessionStatus, row: int) -> (at: int)
    requires
        0 <= row < with_status(cards, status).len(),
    ensures
        0 <= at < cards.len(),
        cards[at] == with_status(cards, status)[row],
        cards[at].status == status,
    decreases cards.len(),
{
    if cards.last().status == status && row == with_status(cards, status).len() - 1 {
        cards.len() - 1
    } else {
        only_listed(cards.drop_last(), status, row)
    }
}

fn set_card_status(state: &mut State, id: &str, status: SessionStatus)
    ensures
        final(state)@ == (BoardModel {
            cards: set_status(old(state)@.cards, id@, status, 0),
            ..old(state)@
        }),
{
    let mut i: usize = 0;
    let ghost cards = state@.cards;
    while i < state.items.len()
        invariant
            i <= state.items@.len(),
            *state == *old(state),
            cards == cards_view(state.items@),
            find_card(cards, id@, 0) == find_card(cards, id@, i as int),
        decreases state.items@.len() - i,
    {
        if text::same_text(state.items[i].session_id.as_str(), id) {
            assert(cards[i as int] == state.items@[i as int]@);
            state.items[i].status = status;
            assert(state@.cards =~= set_status(cards, id@, status, 0));
            return;
        }
        i += 1;
    }
}

fn find_row(column: &Vec<&KanbanItem>, id: &str) -> (row: usize)
    requires
        find_card(borrowed_view(column@), id@, 0) < column@.len(),
    ensures
        row == find_card(borrowed_view(column@), id@, 0),
{
    let mut i: usize = 0;
    let ghost cards = borrowed_view(column@);
    while i < column.len()
        invariant
            i <= column@.len(),
            cards == borrowed_view(column@),
            find_card(cards, id@, 0) < column@.len(),
            find_card(cards, id@, 0) == find_card(cards, id@, i as int),
        decreases column@.len() - i,
    {
        if text::same_text(column[i].session_id.as_str(), id) {
            return i;
        }
        i += 1;
    }
    0
}

/// After a move the card is in the column of its new status.
proof fn moved_card_is_listed(board: BoardModel, id: Seq<char>, status: SessionStatus)
    requires
        find_card(board.cards, id, 0) < board.cards.len(),
    ensures
        ({
            let cards = set_status(board.cards, id, status, 0);
            let column = with_status(cards, status);
            0 <= find_card(column, id, 0) < column.len()
        }),
{
    let cards = set_status(board.cards, id, status, 0);
    found_card(board.cards, id, 0);
    let at = find_card(board.cards, id, 0);
    let column = with_status(cards, status);
    let row = listed(cards, status, at);
    first_card_found(column, id, row);
    found_card(column, id, 0);
}

proof fn current_is_on_board(board: BoardModel)
    requires
        board.wf(),
        board.current() is Some,
    ensures
        find_card(board.cards, board.current().unwrap().session_id, 0) < board.cards.len(),
        board.current().unwrap().status == models::statuses()[board.column],
{
    let at = only_listed(
        board.cards,
        models::statuses()[board.column],
        board.rows[board.column] as int,
    );
    first_card_found(board.cards, board.cards[at].session_id, at);
}

/// Handles one key. The board stays as it is but for moves of the focus and of
/// cards. Something is handed back where the application has to act: close
/// the board, go to a session, or store a card's new status.
///
/// The arrows move the focus whatever is held with them. So Shift and an arrow
/// do what the arrow alone does, though the table of key bindings names Shift
/// and an arrow for moving a card; `m` moves it.
pub fn handle_key(state: &mut State, key: KeyEvent) -> (result: Option<KanbanResult>)
    requires
        old(state)@.wf(),
    ensures
        (final(state)@, outcome_view(result)) == board_step(old(state)@, key),
        final(state)@.wf(),
{
    proof {
        reveal(board_step);
    }
    match read_key(key) {
        BoardKey::Close => Some(KanbanResult::Cancelled),
        BoardKey::ColumnLeft => {
            move_column(state, false);
            None
        },
        BoardKey::ColumnRight => {
            move_column(state, true);
            None
        },
        BoardKey::RowDown => {
            move_row(state, true);
            None
        },
        BoardKey::RowUp => {
            move_row(state, false);
            None
        },
        BoardKey::Open => match state.current() {
            Some(card) => Some(
                KanbanResult::JumpToSession { session_id: card.session_id.clone() },
            ),
            None => None,
        },
        BoardKey::CycleStatus => {
            let (id, status) = match state.current() {
                Some(card) => (card.session_id.clone(), card.status),
                None => {
                    return None;
                },
            };
            let new_status = next_status(status);
            let ghost board = state@;
            proof {
                current_is_on_board(board);
                moved_card_is_listed(board, id@, new_status);
            }
            set_card_status(state, id.as_str(), new_status);
            state.selected_column = models::status_index(new_status);
            let column = state.items_in_column(state.selected_column);
            let row: usize = find_row(&column, id.as_str());
            state.set_row(row);
            Some(KanbanResult::StatusChanged { session_id: id, new_status })
        },
        BoardKey::Nothing => None,
    }
}

/// The words in front of a column: its status and how many cards it has.
pub open spec fn header_text(board: BoardModel, column: int) -> Seq<char> {
    " "@ + models::status_word(models::statuses()[column]) + " ("@ + text::decimal(
        board.column_cards(column).len(),
    ) + ") "@
}

/// The words in front of a column: its status and how many cards it has.
pub fn column_header(state: &State, column: usize) -> (label: String)
    requires
        column < 5,
    ensures
        label@ == header_text(state@, column as int),
{
    let count: usize = state.items_in_column(column).len();
    let mut label = " ".to_owned();
    label.append(models::status_label(models::status_at(column)));
    label.append(" (");
    text::push_decimal(&mut label, count as u64);
    label.append(") ");
    label
}

/// Rows of a card: a border above and below its one line of text.
pub const CARD_HEIGHT: u16 = 3;

/// How many whole cards fit, but at least one.
pub open spec fn cards_that_fit(height: u16) -> int {
    if height / CARD_HEIGHT == 0 {
        1
    } else {
        (height / CARD_HEIGHT) as int
    }
}

/// The first card shown of a column, so that the selected one is in view.
pub open spec fn first_shown(selected: Option<int>, fit: int) -> int {
    match selected {
        Some(row) => if row >= fit {
            row + 1 - fit
        } else {
            0
        },
        None => 0,
    }
}

/// The card of a column that the board paints as selected.
pub open spec fn selected_card(board: BoardModel, column: int) -> Option<int> {
    let len = board.column_cards(column).len();
    if column != board.column || len == 0 {
        None
    } else if board.rows[column] < len {
        Some(board.rows[column] as int)
    } else {
        Some(len - 1)
    }
}

/// A card as it is painted.
#[derive(Debug, Clone, PartialEq, Eq)]
pub struct CardView {
    pub rect: Rect,
    pub selected: bool,
    /// The first eight characters of the session, padded to eight.
    pub short_id: String,
    /// The name, cut to the width left beside the session.
    pub name: String,
}

#[verifier::ext_equal]
pub struct PaintedCard {
    pub rect: Rect,
    pub selected: bool,
    pub short_id: Seq<char>,
    pub name: Seq<char>,
}

impl View for CardView {
    type V = PaintedCard;

    open spec fn view(&self) -> PaintedCard {
        PaintedCard {
            rect: self.rect,
            selected: self.selected,
            short_id: self.short_id@,
            name: self.name@,
        }
    }
}

pub open spec fn painted_view(v: Seq<CardView>) -> Seq<PaintedCard> {
    Seq::new(v.len(), |i: int| v[i]@)
}

/// The slot of the `n`th shown card of a column.
pub open spec fn card_slot(area: Rect, n: int) -> Rect {
    let y = area.y + n * CARD_HEIGHT;
    let left = area.y + area.height - y;
    Rect {
        x: area.x,
        y: y as u16,
        width: area.width,
        height: if left < CARD_HEIGHT {
            left as u16
        } else {
            CARD_HEIGHT
        },
    }
}

/// The card in a slot as it is painted.
pub open spec fn painted(card: CardModel, rect: Rect, selected: bool) -> PaintedCard {
    PaintedCard {
        rect,
        selected,
        short_id: text::padded(text::first_chars(card.session_id, 8), 8),
        name: text::ellipsized(
            card.display_name,
            ui::minus(ui::inside_border(rect).width, 9) as nat,
        ),
    }
}

/// The cards of a column that are painted into `area`.
pub open spec fn painted_column(board: BoardModel, column: int, area: Rect) -> Seq<PaintedCard> {
    let cards = board.column_cards(column);
    let selected = selected_card(board, column);
    let fit = cards_that_fit(area.height);
    let first = first_shown(selected, fit);
    let count = if area.height == 0 {
        0
    } else if cards.len() - first < fit {
        cards.len() - first
    } else {
        fit
    };
    Seq::new(
        count as nat,
        |n: int|
            painted(cards[first + n], card_slot(area, n), selected == Some(first + n)),
    )
}

/// The cards of a column that are painted into `area`, from the top down. As
/// many whole cards are shown as fit, or one that is cut off where none does;
/// the column in focus is scrolled so that its cursor is among them.
pub fn column_cards(state: &State, column: usize, area: Rect) -> (cards: Vec<CardView>)
    requires
        state@.wf(),
        column < 5,
        area.fits(),
    ensures
        painted_view(cards@) == painted_column(state@, column as int, area),
{
    let items = state.items_in_column(column);
    let ghost models = borrowed_view(items@);
    let len: usize = items.len();
    let mut out: Vec<CardView> = Vec::new();
    if len == 0 || area.height == 0 {
        assert(painted_view(out@) =~= painted_column(state@, column as int, area));
        return out;
    }
    let row: usize = state.selected_row_in_column[column];
    let selected: Option<usize> = if column != state.selected_column {
        None
    } else if row < len {
        Some(row)
    } else {
        Some(len - 1)
    };
    let fit: usize = if area.height / CARD_HEIGHT == 0 {
        1
    } else {
        (area.height / CARD_HEIGHT) as usize
    };
    let first: usize = match selected {
        Some(r) => if r >= fit {
            r - fit + 1
        } else {
            0
        },
        None => 0,
    };
    let count: usize = if len - first < fit {
        len - first
    } else {
        fit
    };
    let mut n: usize = 0;
    let ghost goal = painted_column(state@, column as int, area);
    assert(painted_view(out@) =~= goal.take(0));
    while n < count
        invariant
            n <= count,
            count <= fit,
            first + count <= len,
            len == items@.len(),
            models == borrowed_view(items@),
            models == state@.column_cards(column as int),
            area.fits(),
            area.height > 0,
            fit == cards_that_fit(area.height),
            goal == painted_column(state@, column as int, area),
            goal.len() == count,
            first == first_shown(selected_card(state@, column as int), fit as int),
            selected_card(state@, column as int) == match selected {
                Some(r) => Some(r as int),
                None => None,
            },
            painted_view(out@) == goal.take(n as int),
        decreases count - n,
    {
        assert(n * 3 < area.height) by {
            if area.height >= 3 {
                assert(n + 1 <= area.height / 3);
            }
        }
        let y: u16 = area.y + (n as u16) * CARD_HEIGHT;
        let left: u16 = area.y + area.height - y;
        let rect = Rect {
            x: area.x,
            y,
            width: area.width,
            height: if left < CARD_HEIGHT {
                left
            } else {
                CARD_HEIGHT
            },
        };
        let inner = ui::inside_borders(rect);
        let name_max: usize = if inner.width <= 9 {
            0
        } else {
            (inner.width - 9) as usize
        };
        let is_selected: bool = match selected {
            Some(r) => r == first + n,
            None => false,
        };
        let item = items[first + n];
        assert(models[first + n] == (*items@[first + n])@);
        let short = text::take_chars(item.session_id.as_str(), 8);
        let card = CardView {
            rect,
            selected: is_selected,
            short_id: text::pad_right(short.as_str(), 8),
            name: truncate_display(item.display_name.as_str(), name_max),
        };
        let ghost before = painted_view(out@);
        assert(card@ == goal[n as int]);
        out.push(card);
        assert(painted_view(out@) =~= before.push(card@));
        assert(before.push(card@) =~= goal.take(n + 1));
        n += 1;
    }
    assert(goal.take(n as int) =~= goal);
    out
}

/// A name cut to `max` characters, the last of them an ellipsis where anything
/// was cut off. Nothing is left of it where there is no room at all.
pub fn truncate_display(s: &str, max: usize) -> (out: String)
    ensures
        out@ == text::ellipsized(s@, max as nat),
{
    text::ellipsize(s, max)
}

/// Where the words for an empty column go: nine cells wide, in the middle.
pub open spec fn empty_slot(area: Rect) -> Rect {
    let x = area.x + ui::minus(area.width, 9) / 2;
    Rect {
        x: x as u16,
        y: (area.y + area.height / 2) as u16,
        width: ui::minus(area.width, x - area.x),
        height: 1,
    }
}

/// Where the words for an empty column go.
pub fn empty_message_rect(area: Rect) -> (rect: Rect)
    requires
        area.fits(),
    ensures
        rect == empty_slot(area),
{
    let margin: u16 = if area.width <= 9 {
        0
    } else {
        (area.width - 9) / 2
    };
    Rect {
        x: area.x + margin,
        y: area.y + area.height / 2,
        width: area.width - margin,
        height: 1,
    }
}

/// The rows of the board inside its border: one for the column headers, the
/// columns, and one for the hint.
pub fn layout(area: Rect) -> (parts: Vec<Rect>)
    ensures
        parts@.len() == 3,
        3 <= ui::room_of(ui::inside_padding(area), ui::Direction::Vertical) ==> forall|i: int|
            0 <= i < 3 ==> #[trigger] parts@[i] == ui::sandwich(
                ui::inside_padding(area),
                ui::Direction::Vertical,
                1,
                1,
                i,
            ),
        forall|i: int|
            0 <= i < 3 ==> ui::is_part(
                ui::inside_padding(area),
                ui::Direction::Vertical,
                #[trigger] parts@[i],
            ),
{
    ui::head_body_foot(ui::inside_padded_borders(area), 1, 1)
}

/// A row of the board divided into its five columns.
pub fn column_rects(area: Rect) -> (parts: Vec<Rect>)
    ensures
        parts@.len() == 5,
        forall|i: int|
            0 <= i < 5 ==> #[trigger] parts@[i] == ui::share_part(
                area,
                ui::Direction::Horizontal,
                20 * i,
                20 * (i + 1),
            ),
{
    ui::five_columns(area)
}

/// The popup rectangle of the board.
pub fn centered_rect(pct_w: u16, pct_h: u16, parent: Rect) -> (rect: Rect)
    requires
        parent.x + ui::minus(parent.width, ui::share(parent.width, pct_w) as int) / 2 <= u16::MAX,
        parent.y + ui::minus(parent.height, ui::share(parent.height, pct_h) as int) / 2 <= u16::MAX,
    ensures
        rect == ui::centered(pct_w, pct_h, parent),
{
    ui::centered_rect(pct_w, pct_h, parent)
}

/// A card is in a column exactly when it is on the board with the column's
/// status.
pub proof fn columns_are_by_status(board: BoardModel, column: int, card: CardModel)
    requires
        0 <= column < 5,
    ensures
        board.column_cards(column).contains(card) <==> (board.cards.contains(card) && card.status
            == models::statuses()[column]),
{
    let status = models::statuses()[column];
    let listed_cards = with_status(board.cards, status);
    if listed_cards.contains(card) {
        let at = only_listed(board.cards, status, listed_cards.index_of(card));
        assert(board.cards[at] == card);
    }
    if board.cards.contains(card) && card.status == status {
        let row = listed(board.cards, status, board.cards.index_of(card));
        assert(listed_cards[row] == card);
    }
}

/// Five moves bring a card back to the status it had.
pub proof fn statuses_come_round(status: SessionStatus)
    ensures
        status_after(status_after(status_after(status_after(status_after(status))))) == status,
{
}

/// A step to the next column and one back lead to the column they started
/// from, and so do five steps to the right.
pub proof fn columns_come_round(board: BoardModel)
    requires
        board.wf(),
    ensures
        board.column_moved(1).column_moved(-1).column == board.column,
        board.column_moved(-1).column_moved(1).column == board.column,
        board.column_moved(1).column_moved(1).column_moved(1).column_moved(1).column_moved(1).column
            == board.column,
{
}

/// No key adds, drops, renames or reorders cards: at most a status changes.
pub proof fn cards_are_kept(board: BoardModel, ev: KeyEvent, i: int)
    requires
        board.wf(),
        0 <= i < board.cards.len(),
    ensures
        ({
            let after = board_step(board, ev).0;
            &&& after.cards.len() == board.cards.len()
            &&& after.cards[i].session_id == board.cards[i].session_id
            &&& after.cards[i].display_name == board.cards[i].display_name
        }),
{
    reveal(board_step);
    if board.current() is Some {
        found_card(board.cards, board.current().unwrap().session_id, 0);
    }
}

/// A card whose status was cycled is still the one under the cursor, with the
/// next status, and it is the card of which the application is told.
pub proof fn cursor_follows_the_card(board: BoardModel, ev: KeyEvent)
    requires
        board.wf(),
        board_key(ev) == BoardKey::CycleStatus,
        board.current() is Some,
        board.cards.len() <= usize::MAX,
    ensures
        ({
            let (after, outcome) = board_step(board, ev);
            let card = board.current().unwrap();
            &&& after.current() is Some
            &&& after.current().unwrap().session_id == card.session_id
            &&& after.current().unwrap().status == status_after(card.status)
            &&& outcome == Some(
                KanbanOutcome::StatusChanged {
                    session_id: card.session_id,
                    new_status: status_after(card.status),
                },
            )
        }),
{
    reveal(board_step);
    let card = board.current().unwrap();
    let id = card.session_id;
    let status = status_after(card.status);
    current_is_on_board(board);
    moved_card_is_listed(board, id, status);
    found_card(board.cards, id, 0);
    let cards = set_status(board.cards, id, status, 0);
    let column = with_status(cards, status);
    let row = find_card(column, id, 0);
    found_card(column, id, 0);
    column_is_no_longer(cards, status);
    let at = only_listed(cards, status, row);
    assert(models::statuses()[models::index_of_status(status)] == status);
}

/// A column has no more cards than the board.
pub proof fn column_is_no_longer(cards: Seq<CardModel>, status: SessionStatus)
    ensures
        with_status(cards, status).len() <= cards.len(),
    decreases cards.len(),
{
    if cards.len() > 0 {
        column_is_no_longer(cards.drop_last(), status);
    }
}

/// After a step within a column or to another one the cursor is on a card,
/// or at the top of an empty column.
pub proof fn cursor_is_on_a_card(board: BoardModel, ev: KeyEvent)
    requires
        board.wf(),
        board.cards.len() <= usize::MAX,
        board_key(ev) == BoardKey::ColumnLeft || board_key(ev) == BoardKey::ColumnRight || ((
        board_key(ev) == BoardKey::RowDown || board_key(ev) == BoardKey::RowUp)
            && board.column_cards(board.column).len() > 0),
    ensures
        ({
            let after = board_step(board, ev).0;
            let len = after.column_cards(after.column).len();
            after.rows[after.column] < len || (len == 0 && after.rows[after.column] == 0)
        }),
{
    reveal(board_step);
    let after = board_step(board, ev).0;
    column_is_no_longer(board.cards, models::statuses()[after.column]);
}

/// No key leaves the board without five columns and one of them in focus.
pub proof fn board_stays_whole(board: BoardModel, ev: KeyEvent)
    requires
        board.wf(),
    ensures
        board_step(board, ev).0.wf(),
{
    reveal(board_step);
}

/// A released key leaves the board alone.
pub proof fn releases_are_ignored(board: BoardModel, ev: KeyEvent)
    requires
        ev.kind == KeyEventKind::Release,
    ensures
        board_step(board, ev) == (board, None::<KanbanOutcome>),
{
    reveal(board_step);
}

/// The card under the cursor is among those painted, as the selected one,
/// where the column has any room.
pub proof fn selected_card_is_painted(board: BoardModel, area: Rect)
    requires
        board.wf(),
        board.current() is Some,
        area.height > 0,
    ensures
        exists|n: int|
            0 <= n < painted_column(board, board.column, area).len() && (
            #[trigger] painted_column(board, board.column, area)[n]).selected,
{
    let selected = selected_card(board, board.column).unwrap();
    let fit = cards_that_fit(area.height);
    let first = first_shown(Some(selected), fit);
    assert(painted_column(board, board.column, area)[selected - first].selected);
}

/// The cards of a column are in board order: where a board is made of two, each
/// column is that of the first with that of the second behind it. A single card
/// is in the column of its status and in no other.
pub proof fn columns_keep_board_order(
    a: Seq<CardModel>,
    b: Seq<CardModel>,
    card: CardModel,
    status: SessionStatus,
)
    ensures
        with_status(a + b, status) == with_status(a, status) + with_status(b, status),
        with_status(seq![card], status) == if card.status == status {
            seq![card]
        } else {
            Seq::empty()
        },
    decreases b.len(),
{
    reveal_with_fuel(with_status, 2);
    assert(seq![card].drop_last() =~= Seq::<CardModel>::empty());
    assert(Seq::<CardModel>::empty().push(card) =~= seq![card]);
    if b.len() == 0 {
        assert(a + b =~= a);
        assert(with_status(a, status) + with_status(b, status) =~= with_status(a, status));
    } else {
        columns_keep_board_order(a, b.drop_last(), card, status);
        assert((a + b).drop_last() =~= a + b.drop_last());
        assert(with_status(a + b, status) =~= with_status(a, status) + with_status(b, status));
    }
}

/// Each status leads to the one in the next column, and the last to the first.
pub proof fn statuses_follow_each_other()
    ensures
        status_after(SessionStatus::Active) == SessionStatus::InProgress,
        status_after(SessionStatus::InProgress) == SessionStatus::InReview,
        status_after(SessionStatus::InReview) == SessionStatus::Done,
        status_after(SessionStatus::Done) == SessionStatus::Archived,
        status_after(SessionStatus::Archived) == SessionStatus::Active,
{
}

/// The left and right keys bring the next column into focus, round the ends,
/// and touch no card and nothing else. The cursor of that column is where it
/// was, or on the last card where it was beyond it.
pub proof fn sideways_keys_change_the_column(board: BoardModel, ev: KeyEvent)
    requires
        board.wf(),
        board.cards.len() <= usize::MAX,
        ev.kind != KeyEventKind::Release,
        ev.code == KeyCode::Left || ev.code == KeyCode::Right || ((ev.code == KeyCode::Char('h')
            || ev.code == KeyCode::Char('l')) && ev.modifiers == KeyModifiers::none()),
    ensures
        ({
            let (after, outcome) = board_step(board, ev);
            let right = ev.code == KeyCode::Right || ev.code == KeyCode::Char('l');
            &&& outcome is None
            &&& after.cards == board.cards
            &&& right && board.column < 4 ==> after.column == board.column + 1
            &&& right && board.column == 4 ==> after.column == 0
            &&& !right && board.column > 0 ==> after.column == board.column - 1
            &&& !right && board.column == 0 ==> after.column == 4
            &&& forall|c: int|
                0 <= c < 5 && c != after.column ==> #[trigger] after.rows[c] == board.rows[c]
            &&& board.rows[after.column] < after.column_cards(after.column).len() ==> after.rows
                == board.rows
            &&& board.rows[after.column] >= after.column_cards(after.column).len() > 0
                ==> after.rows[after.column] == after.column_cards(after.column).len() - 1
        }),
{
    reveal(board_step);
    let after = board_step(board, ev).0;
    column_is_no_longer(board.cards, models::statuses()[after.column]);
}

/// The up and down keys move the cursor by one card within the column, and stop
/// at its ends.
pub proof fn upright_keys_change_the_card(board: BoardModel, ev: KeyEvent)
    requires
        board.wf(),
        board.cards.len() <= usize::MAX,
        board.current() is Some,
        ev.kind != KeyEventKind::Release,
        ev.code == KeyCode::Up || ev.code == KeyCode::Down || ((ev.code == KeyCode::Char('j')
            || ev.code == KeyCode::Char('k')) && ev.modifiers == KeyModifiers::none()),
    ensures
        ({
            let (after, outcome) = board_step(board, ev);
            let down = ev.code == KeyCode::Down || ev.code == KeyCode::Char('j');
            let last = board.column_cards(board.column).len() - 1;
            let (was, is) = (board.rows[board.column], after.rows[board.column]);
            &&& outcome is None
            &&& after.cards == board.cards
            &&& after.column == board.column
            &&& down && was < last ==> is == was + 1
            &&& down && was == last ==> is == was
            &&& !down && was > 0 ==> is == was - 1
            &&& !down && was == 0 ==> is == 0
            &&& forall|c: int|
                0 <= c < 5 && c != board.column ==> #[trigger] after.rows[c] == board.rows[c]
        }),
{
    reveal(board_step);
    column_is_no_longer(board.cards, models::statuses()[board.column]);
}

/// Enter opens the session of the card under the cursor, which is the card in
/// the cursor's row of the column in focus. Without a card it does nothing.
pub proof fn enter_opens_the_card(board: BoardModel, ev: KeyEvent)
    requires
        board.wf(),
        ev.code == KeyCode::Enter,
        ev.kind != KeyEventKind::Release,
    ensures
        ({
            let (after, outcome) = board_step(board, ev);
            let column = with_status(board.cards, models::statuses()[board.column]);
            let row = board.rows[board.column] as int;
            &&& after == board
            &&& row < column.len() ==> outcome == Some(
                KanbanOutcome::JumpToSession { session_id: column[row].session_id },
            )
            &&& row >= column.len() ==> outcome is None
        }),
{
    reveal(board_step);
}

/// Esc, `q` and Ctrl-c close the board as it is.
pub proof fn closing_keys_close(board: BoardModel, ev: KeyEvent)
    requires
        ev.kind != KeyEventKind::Release,
        ev.code == KeyCode::Esc || (ev.code == KeyCode::Char('q') && ev.modifiers
            == KeyModifiers::none()) || (ev.code == KeyCode::Char('c')
            && ev.modifiers == KeyModifiers::control()),
    ensures
        board_step(board, ev).0 == board,
        board_step(board, ev).1 matches Some(KanbanOutcome::Cancelled),
{
    reveal(board_step);
}

/// `m` gives the card under the cursor the next status, and tells the
/// application of just that card; every other card keeps its status.
pub proof fn m_moves_one_card(board: BoardModel, ev: KeyEvent, i: int)
    requires
        board.wf(),
        board.cards.len() <= usize::MAX,
        board.current() is Some,
        ev.code == KeyCode::Char('m'),
        ev.modifiers == KeyModifiers::none(),
        ev.kind != KeyEventKind::Release,
        0 <= i < board.cards.len(),
    ensures
        ({
            let (after, outcome) = board_step(board, ev);
            let card = board.current().unwrap();
            let moved = board.cards[i].session_id == card.session_id && (forall|k: int|
                0 <= k < i ==> (#[trigger] board.cards[k]).session_id != card.session_id);
            &&& outcome == Some(
                KanbanOutcome::StatusChanged {
                    session_id: card.session_id,
                    new_status: status_after(card.status),
                },
            )
            &&& moved ==> after.cards[i].status == status_after(card.status)
            &&& !moved ==> after.cards[i] == board.cards[i]
            &&& after.current() is Some
            &&& after.current().unwrap().session_id == card.session_id
        }),
{
    reveal(board_step);
    cursor_follows_the_card(board, ev);
    current_is_on_board(board);
    let id = board.current().unwrap().session_id;
    found_card(board.cards, id, 0);
    let at = find_card(board.cards, id, 0);
    if at < i {
        assert(board.cards[at].session_id == id);
    }
}

/// The header of a column tells its status and how many cards it has.
pub proof fn headers_count_their_cards(board: BoardModel, column: int)
    requires
        0 <= column < 5,
    ensures
        text::in_order(
            header_text(board, column),
            seq![
                models::status_word(models::statuses()[column]),
                text::decimal(with_status(board.cards, models::statuses()[column]).len()),
            ],
        ),
{
    text::holds_two(
        " "@,
        models::status_word(models::statuses()[column]),
        " ("@,
        text::decimal(board.column_cards(column).len()),
        ") "@,
    );
}

/// A column with room for all its cards shows them all, one under the other in
/// board order, each with the start of its session and as much of its name as
/// there is room for; only the card under the cursor of the column in focus is
/// painted as selected.
pub proof fn columns_show_their_cards(board: BoardModel, column: int, area: Rect, n: int)
    requires
        board.wf(),
        0 <= column < 5,
        area.fits(),
        with_status(board.cards, models::statuses()[column]).len() * 3 <= area.height,
        0 <= n < with_status(board.cards, models::statuses()[column]).len(),
        board.current() is Some,
    ensures
        ({
            let cards = with_status(board.cards, models::statuses()[column]);
            let painted = painted_column(board, column, area);
            &&& painted.len() == cards.len()
            &&& painted[n].rect == (Rect {
                x: area.x,
                y: (area.y + 3 * n) as u16,
                width: area.width,
                height: 3,
            })
            &&& painted[n].selected <==> (column == board.column && board.rows[column] == n)
            &&& text::first_chars(cards[n].session_id, 8).is_prefix_of(painted[n].short_id)
            &&& cards[n].display_name.len() + 11 <= area.width ==> painted[n].name
                == cards[n].display_name
            &&& painted[n].name.len() + 11 <= area.width || painted[n].name.len() == 0
        }),
{
    let cards = with_status(board.cards, models::statuses()[column]);
    text::padding_only_adds_spaces(text::first_chars(cards[n].session_id, 8), 8);
    text::cutting_keeps_the_front(
        cards[n].display_name,
        ui::minus(ui::inside_border(card_slot(area, n)).width, 9) as nat,
    );
    let fit = cards_that_fit(area.height);
    assert(fit >= cards.len());
    assert(n * CARD_HEIGHT == 3 * n);
}

/// The keys that are advertised for the board do there what they are advertised
/// for, apart from the arrows with Shift, which move the focus.
pub proof fn advertised_keys_work(i: int)
    requires
        0 <= i < keys::kanban_bindings().len(),
        !keys::kanban_bindings()[i].key.modifiers.shift,
    ensures
        board_key(keys::kanban_bindings()[i].key) == match keys::kanban_bindings()[i].command {
            Command::Cancel => BoardKey::Close,
            Command::Confirm => BoardKey::Open,
            Command::KanbanColumnLeft => BoardKey::ColumnLeft,
            Command::KanbanColumnRight => BoardKey::ColumnRight,
            Command::SelectNextSession => BoardKey::RowDown,
            Command::SelectPrevSession => BoardKey::RowUp,
            Command::KanbanMoveItem => BoardKey::CycleStatus,
            _ => BoardKey::Nothing,
        },
{
}

} // verus!
