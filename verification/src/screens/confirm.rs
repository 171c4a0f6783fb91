//! The confirm modal: a yes/no gate in front of a destructive action.

use vstd::prelude::*;

use crate::keys::{KeyCode, KeyEvent, KeyEventKind, KeyModifiers};
use crate::text;
use crate::ui;
use crate::ui::Rect;

verus! {

/// The question asked, and a line of context under it.
#[derive(Debug, Clone)]
pub struct State {
    pub question: String,
    pub detail: Option<String>,
}

/// What the modal holds.
#[verifier::ext_equal]
pub struct QuestionModel {
    pub question: Seq<char>,
    pub detail: Option<Seq<char>>,
}

impl View for State {
    type V = QuestionModel;

    open spec fn view(&self) -> QuestionModel {
        QuestionModel { question: self.question@, detail: text::opt_view(self.detail) }
    }
}

impl State {
    /// A question without context.
    pub fn new(question: String) -> (state: State)
        ensures
            state@ == (QuestionModel { question: question@, detail: None }),
    {
        State { question, detail: None }
    }

    /// The question with a line of context under it.
    pub fn with_detail(self, detail: String) -> (state: State)
        ensures
            state@ == (QuestionModel { question: self@.question, detail: Some(detail@) }),
    {
        State { question: self.question, detail: Some(detail) }
    }
}

/// The user's answer.
#[derive(Debug, Clone, Copy, PartialEq, Eq, Structural)]
pub enum ConfirmResult {
    Yes,
    No,
}

/// The answer that a key gives: `y`, `Y` or Enter for yes; `n`, `N`, Esc or
/// Ctrl-c for no. A letter with Control or Alt gives none.
pub open spec fn answer_of(ev: KeyEvent) -> Option<ConfirmResult> {
    let bare = !ev.modifiers.control && !ev.modifiers.alt;
    if ev.kind == KeyEventKind::Release {
        None
    } else {
        match ev.code {
            KeyCode::Enter => Some(ConfirmResult::Yes),
            KeyCode::Esc => Some(ConfirmResult::No),
            KeyCode::Char(c) => if bare && (c == 'y' || c == 'Y') {
                Some(ConfirmResult::Yes)
            } else if bare && (c == 'n' || c == 'N') {
                Some(ConfirmResult::No)
            } else if c == 'c' && ev.modifiers == KeyModifiers::control() {
                Some(ConfirmResult::No)
            } else {
                None
            },
            _ => None,
        }
    }
}

/// Handles one key. The modal itself never changes; it closes with an answer.
pub fn handle_key(state: &mut State, key: KeyEvent) -> (answer: Option<ConfirmResult>)
    ensures
        answer == answer_of(key),
        *final(state) == *old(state),
{
    if key.kind == KeyEventKind::Release {
        return None;
    }
    let bare = !key.modifiers.control && !key.modifiers.alt;
    match key.code {
        KeyCode::Enter => Some(ConfirmResult::Yes),
        KeyCode::Esc => Some(ConfirmResult::No),
        KeyCode::Char(c) => {
            if bare && (c == 'y' || c == 'Y') {
                Some(ConfirmResult::Yes)
            } else if bare && (c == 'n' || c == 'N') {
                Some(ConfirmResult::No)
            } else if c == 'c' && key.modifiers == KeyModifiers::control() {
                Some(ConfirmResult::No)
            } else {
                None
            }
        },
        _ => None,
    }
}

/// The rows of the modal inside its border: the question, the context where
/// there is one, a spacer, and the hint.
pub fn layout(state: &State, area: Rect) -> (parts: Vec<Rect>)
    ensures
        parts@.len() == 4,
        forall|i: int|
            0 <= i < 4 ==> ui::is_part(
                ui::inside_padding(area),
                ui::Direction::Vertical,
                #[trigger] parts@[i],
            ),
        ui::in_a_row(ui::inside_padding(area), ui::Direction::Vertical, parts@),
        ({
            let room = ui::room_of(ui::inside_padding(area), ui::Direction::Vertical);
            let detail: int = if state@.detail is Some { 1 } else { 0 };
            2 + detail <= room ==> {
                &&& parts@[0].height == 1
                &&& parts@[1].height == detail
                &&& parts@[2].height == room - 2 - detail
                &&& parts@[3].height == 1
            }
        }),
{
    let inner = ui::inside_padded_borders(area);
    let detail_height: u16 = if state.detail.is_some() {
        1
    } else {
        0
    };
    let asked = vec![
        ui::Constraint::Length(1),
        ui::Constraint::Length(detail_height),
        ui::Constraint::Min(0),
        ui::Constraint::Length(1),
    ];
    let parts = ui::stack(inner, ui::Direction::Vertical, &asked, 2);
    proof {
        reveal_with_fuel(ui::fixed_before, 5);
        let room = ui::room_of(inner, ui::Direction::Vertical);
        if 2 + detail_height <= room {
            assert(ui::one_fills(asked@, 2, room));
            let (a, b, c, d) = (parts@[0], parts@[1], parts@[2], parts@[3]);
        }
    }
    parts
}

/// The popup rectangle of the modal.
pub fn centered_rect(pct_w: u16, pct_h: u16, parent: Rect) -> (rect: Rect)
    requires
        parent.x + ui::minus(parent.width, ui::share(parent.width, pct_w) as int) / 2 <= u16::MAX,
        parent.y + ui::minus(parent.height, ui::share(parent.height, pct_h) as int) / 2 <= u16::MAX,
    ensures
        rect == ui::centered(pct_w, pct_h, parent),
{
    ui::centered_rect(pct_w, pct_h, parent)
}

/// `y`, `Y` and Enter say yes; `n`, `N`, Esc and Ctrl-c say no; a released key
/// and every other letter say nothing.
pub proof fn yes_and_no_have_their_keys(ev: KeyEvent, c: char)
    requires
        ev.kind != KeyEventKind::Release,
    ensures
        ev.code == KeyCode::Enter ==> answer_of(ev) == Some(ConfirmResult::Yes),
        ev.code == KeyCode::Esc ==> answer_of(ev) == Some(ConfirmResult::No),
        ev.code == KeyCode::Char(c) && !ev.modifiers.control && !ev.modifiers.alt ==> answer_of(ev)
            == if c == 'y' || c == 'Y' {
            Some(ConfirmResult::Yes)
        } else if c == 'n' || c == 'N' {
            Some(ConfirmResult::No)
        } else {
            None
        },
        ev.code == KeyCode::Char('c') && ev.modifiers == KeyModifiers::control() ==> answer_of(ev)
            == Some(ConfirmResult::No),
        answer_of(KeyEvent { kind: KeyEventKind::Release, ..ev }) is None,
{
}

} // verus!
