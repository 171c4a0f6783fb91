//! The label prompt: pick a session's status or type its name.

use vstd::prelude::*;
use vstd::string::*;

use crate::keys::{KeyCode, KeyEvent, KeyEventKind, KeyModifiers};
use crate::models;
use crate::models::SessionStatus;
use crate::text;
use crate::ui;
use crate::ui::Rect;

verus! {

/// What the prompt edits.
#[derive(Debug, Clone, Copy, PartialEq, Eq, Structural)]
pub enum Mode {
    /// One of the statuses is picked from a list.
    StatusPicker,
    /// A display name is typed. A blank one clears the stored name.
    CustomName,
}

/// The prompt for one session.
#[derive(Debug, Clone)]
pub struct State {
    pub session_id: String,
    pub session_display_name: String,
    pub current_status: SessionStatus,
    pub mode: Mode,
    /// The status under the cursor.
    pub selected_index: usize,
    pub custom_name_input: String,
}

/// What the prompt holds.
#[verifier::ext_equal]
pub struct PromptModel {
    pub session_id: Seq<char>,
    pub session_display_name: Seq<char>,
    pub current_status: SessionStatus,
    pub mode: Mode,
    pub selected_index: usize,
    pub custom_name_input: Seq<char>,
}

impl View for State {
    type V = PromptModel;

    open spec fn view(&self) -> PromptModel {
        PromptModel {
            session_id: self.session_id@,
            session_display_name: self.session_display_name@,
            current_status: self.current_status,
            mode: self.mode,
            selected_index: self.selected_index,
            custom_name_input: self.custom_name_input@,
        }
    }
}

/// The prompt as it opens: on the status the session has, and with the name it
/// has ready to be edited.
pub open spec fn fresh_prompt(
    session_id: Seq<char>,
    display_name: Seq<char>,
    status: SessionStatus,
) -> PromptModel {
    PromptModel {
        session_id,
        session_display_name: display_name,
        current_status: status,
        mode: Mode::StatusPicker,
        selected_index: models::index_of_status(status) as usize,
        custom_name_input: display_name,
    }
}

impl State {
    /// A prompt for a session, with the cursor on the status the session has.
    pub fn new(session_id: String, display_name: String, current_status: SessionStatus) -> (state:
        State)
        ensures
            state@ == fresh_prompt(session_id@, display_name@, current_status),
    {
        State {
            session_id,
            session_display_name: display_name.clone(),
            current_status,
            mode: Mode::StatusPicker,
            selected_index: models::status_index(current_status),
            custom_name_input: display_name,
        }
    }
}

/// What the prompt hands back when it closes.
#[derive(Debug, Clone, PartialEq, Eq)]
pub enum LabelPromptResult {
    Cancelled,
    StatusChosen(SessionStatus),
    /// The name typed, or none where it was blank.
    CustomNameSet(Option<String>),
}

pub enum LabelOutcome {
    Cancelled,
    StatusChosen(SessionStatus),
    CustomNameSet(Option<Seq<char>>),
}

impl View for LabelPromptResult {
    type V = LabelOutcome;

    open spec fn view(&self) -> LabelOutcome {
        match *self {
            LabelPromptResult::Cancelled => LabelOutcome::Cancelled,
            LabelPromptResult::StatusChosen(s) => LabelOutcome::StatusChosen(s),
            LabelPromptResult::CustomNameSet(n) => LabelOutcome::CustomNameSet(text::opt_view(n)),
        }
    }
}

pub open spec fn outcome_view(r: Option<LabelPromptResult>) -> Option<LabelOutcome> {
    match r {
        Some(x) => Some(x@),
        None => None,
    }
}

/// Whether a key with these modifiers types its character.
pub open spec fn types_text(modifiers: KeyModifiers) -> bool {
    !modifiers.control && !modifiers.alt
}

/// The prompt after a key while a status is picked.
pub open spec fn status_step(p: PromptModel, ev: KeyEvent) -> (PromptModel, Option<LabelOutcome>) {
    let plain = ev.modifiers == KeyModifiers::none();
    let control = ev.modifiers == KeyModifiers::control();
    let next = PromptModel { selected_index: ((p.selected_index + 1) % 5) as usize, ..p };
    let prev = PromptModel { selected_index: ((p.selected_index + 4) % 5) as usize, ..p };
    match ev.code {
        KeyCode::Down => (next, None),
        KeyCode::Up => (prev, None),
        KeyCode::Enter => (
            p,
            Some(
                LabelOutcome::StatusChosen(
                    models::statuses()[if p.selected_index < 4 {
                        p.selected_index as int
                    } else {
                        4
                    }],
                ),
            ),
        ),
        KeyCode::Char(c) => if (c == 'j' && plain) || (c == 'n' && control) {
            (next, None)
        } else if (c == 'k' && plain) || (c == 'p' && control) {
            (prev, None)
        } else if plain && '1' <= c && c <= '5' {
            (PromptModel { selected_index: (c as u32 - '1' as u32) as usize, ..p }, None)
        } else {
            (p, None)
        },
        _ => (p, None),
    }
}

/// The prompt after a key while a name is typed.
pub open spec fn name_step(p: PromptModel, ev: KeyEvent) -> (PromptModel, Option<LabelOutcome>) {
    match ev.code {
        KeyCode::Enter => {
            let name = text::trim(p.custom_name_input);
            (
                p,
                Some(
                    LabelOutcome::CustomNameSet(
                        if name.len() == 0 {
                            None
                        } else {
                            Some(name)
                        },
                    ),
                ),
            )
        },
        KeyCode::Backspace => (
            PromptModel { custom_name_input: text::without_last(p.custom_name_input), ..p },
            None,
        ),
        KeyCode::Char(c) => if types_text(ev.modifiers) {
            (PromptModel { custom_name_input: p.custom_name_input.push(c), ..p }, None)
        } else {
            (p, None)
        },
        _ => (p, None),
    }
}

/// The other mode.
pub open spec fn other_mode(mode: Mode) -> Mode {
    match mode {
        Mode::StatusPicker => Mode::CustomName,
        Mode::CustomName => Mode::StatusPicker,
    }
}

/// The prompt after a key, and what it hands back.
#[verifier::opaque]
pub open spec fn prompt_step(p: PromptModel, ev: KeyEvent) -> (PromptModel, Option<LabelOutcome>) {
    if ev.kind == KeyEventKind::Release {
        (p, None)
    } else if ev.code == KeyCode::Esc || (ev.code == KeyCode::Char('c') && ev.modifiers
        == KeyModifiers::control()) {
        (p, Some(LabelOutcome::Cancelled))
    } else if ev.code == KeyCode::Tab || ev.code == KeyCode::BackTab {
        (PromptModel { mode: other_mode(p.mode), ..p }, None)
    } else {
        match p.mode {
            Mode::StatusPicker => status_step(p, ev),
            Mode::CustomName => name_step(p, ev),
        }
    }
}

/// Handles one key. Something is handed back where the prompt closes.
pub fn handle_key(state: &mut State, key: KeyEvent) -> (result: Option<LabelPromptResult>)
    requires
        old(state).selected_index < usize::MAX - 4,
    ensures
        (final(state)@, outcome_view(result)) == prompt_step(old(state)@, key),
{
    proof {
        reveal(prompt_step);
    }
    if key.kind == KeyEventKind::Release {
        return None;
    }
    if key.code == KeyCode::Esc || (key.code == KeyCode::Char('c') && key.modifiers
        == KeyModifiers::control()) {
        return Some(LabelPromptResult::Cancelled);
    }
    if key.code == KeyCode::Tab || key.code == KeyCode::BackTab {
        state.mode = match state.mode {
            Mode::StatusPicker => Mode::CustomName,
            Mode::CustomName => Mode::StatusPicker,
        };
        return None;
    }
    match state.mode {
        Mode::StatusPicker => handle_key_status(state, key),
        Mode::CustomName => handle_key_custom(state, key),
    }
}

fn handle_key_status(state: &mut State, key: KeyEvent) -> (result: Option<LabelPromptResult>)
    requires
        old(state).selected_index < usize::MAX - 4,
    ensures
        (final(state)@, outcome_view(result)) == status_step(old(state)@, key),
{
    let plain = key.modifiers == KeyModifiers::none();
    let control = key.modifiers == KeyModifiers::control();
    match key.code {
        KeyCode::Down => {
            state.selected_index = (state.selected_index + 1) % 5;
            None
        },
        KeyCode::Up => {
            state.selected_index = (state.selected_index + 4) % 5;
            None
        },
        KeyCode::Enter => {
            let at: usize = if state.selected_index < 4 {
                state.selected_index
            } else {
                4
            };
            Some(LabelPromptResult::StatusChosen(models::status_at(at)))
        },
        KeyCode::Char(c) => {
            if (c == 'j' && plain) || (c == 'n' && control) {
                state.selected_index = (state.selected_index + 1) % 5;
            } else if (c == 'k' && plain) || (c == 'p' && control) {
                state.selected_index = (state.selected_index + 4) % 5;
            } else if plain && '1' <= c && c <= '5' {
                state.selected_index = (c as u8 - 49) as usize;
            }
            None
        },
        _ => None,
    }
}

fn handle_key_custom(state: &mut State, key: KeyEvent) -> (result: Option<LabelPromptResult>)
    ensures
        (final(state)@, outcome_view(result)) == name_step(old(state)@, key),
{
    match key.code {
        KeyCode::Enter => {
            let name = text::trimmed(state.custom_name_input.as_str());
            if text::is_empty(name.as_str()) {
                Some(LabelPromptResult::CustomNameSet(None))
            } else {
                Some(LabelPromptResult::CustomNameSet(Some(name)))
            }
        },
        KeyCode::Backspace => {
            state.custom_name_input = text::drop_last_char(state.custom_name_input.as_str());
            None
        },
        KeyCode::Char(c) => {
            if !key.modifiers.control && !key.modifiers.alt {
                state.custom_name_input.push(c);
            }
            None
        },
        _ => None,
    }
}

/// The word shown and stored for a status.
pub fn status_label(s: SessionStatus) -> (word: &'static str)
    ensures
        word@ == models::status_word(s),
{
    models::status_label(s)
}

/// The longest name that the title bar shows in full.
pub const TITLE_NAME_MAX: usize = 32;

/// A name cut so that it fits the title bar.
pub fn short_label(s: &str) -> (out: String)
    ensures
        out@ == text::ellipsized(s@, TITLE_NAME_MAX as nat),
{
    text::ellipsize(s, TITLE_NAME_MAX)
}

/// The title of the prompt.
pub fn title(state: &State) -> (out: String)
    ensures
        out@ == " Label: "@ + text::ellipsized(
            state@.session_display_name,
            TITLE_NAME_MAX as nat,
        ) + " "@,
        state@.session_display_name.len() <= 32 ==> text::in_order(
            out@,
            seq![state@.session_display_name],
        ),
{
    proof {
        let name = text::ellipsized(state@.session_display_name, TITLE_NAME_MAX as nat);
        text::holds_one(" Label: "@, name, " "@);
    }
    let mut out = " Label: ".to_owned();
    out.append(short_label(state.session_display_name.as_str()).as_str());
    out.append(" ");
    out
}

/// One row of the status list: its number, the mark of the status that the
/// session has, and the status.
#[derive(Debug, Clone, PartialEq, Eq)]
pub struct StatusRow {
    pub number: String,
    pub marker: String,
    pub label: String,
    pub is_current: bool,
    pub selected: bool,
}

pub open spec fn status_row_text(p: PromptModel, row: StatusRow, i: int) -> bool {
    let status = models::statuses()[i];
    &&& row.number@ == " "@ + text::decimal((i + 1) as nat) + ". "@
    &&& row.marker@ == if status == p.current_status {
        " * "@
    } else {
        "   "@
    }
    &&& row.label@ == models::status_word(status)
    &&& row.is_current == (status == p.current_status)
    &&& row.selected == (i == if p.selected_index < 4 {
        p.selected_index as int
    } else {
        4
    })
}

/// The status list as it is painted.
pub fn status_rows(state: &State) -> (rows: Vec<StatusRow>)
    ensures
        rows@.len() == 5,
        forall|i: int| 0 <= i < 5 ==> status_row_text(state@, #[trigger] rows@[i], i),
{
    let mut rows: Vec<StatusRow> = Vec::new();
    let chosen: usize = if state.selected_index < 4 {
        state.selected_index
    } else {
        4
    };
    let mut i: usize = 0;
    while i < 5
        invariant
            i <= 5,
            rows@.len() == i,
            chosen == if state.selected_index < 4 {
                state.selected_index as int
            } else {
                4
            },
            forall|k: int| 0 <= k < i ==> status_row_text(state@, #[trigger] rows@[k], k),
        decreases 5 - i,
    {
        let status = models::status_at(i);
        let is_current = status == state.current_status;
        let mut number = " ".to_owned();
        text::push_decimal(&mut number, (i + 1) as u64);
        number.append(". ");
        let row = StatusRow {
            number,
            marker: if is_current {
                " * ".to_owned()
            } else {
                "   ".to_owned()
            },
            label: models::status_label(status).to_owned(),
            is_current,
            selected: i == chosen,
        };
        assert(status_row_text(state@, row, i as int));
        rows.push(row);
        i += 1;
    }
    rows
}

/// The rows of the prompt inside its border: one for the two modes, the list
/// or the name, and one for the hint.
pub fn layout(area: Rect) -> (parts: Vec<Rect>)
    ensures
        parts@.len() == 3,
        3 <= ui::room_of(ui::inside_padding(area), ui::Direction::Vertical) ==> forall|i: int|
            0 <= i < 3 ==> #[trigger] parts@[i] == ui::sandwich(
                ui::inside_padding(area),
                ui::Direction::Vertical,
                1,
                1,
                i,
            ),
        forall|i: int|
            0 <= i < 3 ==> ui::is_part(
                ui::inside_padding(area),
                ui::Direction::Vertical,
                #[trigger] parts@[i],
            ),
{
    ui::head_body_foot(ui::inside_padded_borders(area), 1, 1)
}

/// The popup rectangle of the prompt.
pub fn centered_rect(pct_w: u16, pct_h: u16, parent: Rect) -> (rect: Rect)
    requires
        parent.x + ui::minus(parent.width, ui::share(parent.width, pct_w) as int) / 2 <= u16::MAX,
        parent.y + ui::minus(parent.height, ui::share(parent.height, pct_h) as int) / 2 <= u16::MAX,
    ensures
        rect == ui::centered(pct_w, pct_h, parent),
{
    ui::centered_rect(pct_w, pct_h, parent)
}

/// The two keys that move the cursor of the status list undo each other.
pub proof fn cursor_moves_undo_each_other(p: PromptModel, down: KeyEvent, up: KeyEvent)
    requires
        p.mode == Mode::StatusPicker,
        p.selected_index < 5,
        down.code == KeyCode::Down,
        up.code == KeyCode::Up,
        down.kind != KeyEventKind::Release,
        up.kind != KeyEventKind::Release,
    ensures
        prompt_step(prompt_step(p, down).0, up).0 == p,
        prompt_step(prompt_step(p, up).0, down).0 == p,
{
    reveal(prompt_step);
}

/// Tab pressed twice leaves the prompt as it was.
pub proof fn two_tabs_change_nothing(p: PromptModel, tab: KeyEvent)
    requires
        tab.code == KeyCode::Tab || tab.code == KeyCode::BackTab,
    ensures
        prompt_step(prompt_step(p, tab).0, tab).0 == p,
{
    reveal(prompt_step);
}

/// A character that was typed is gone after Backspace.
pub proof fn backspace_undoes_typing(p: PromptModel, typed: KeyEvent, back: KeyEvent)
    requires
        p.mode == Mode::CustomName,
        typed.code is Char,
        types_text(typed.modifiers),
        typed.kind != KeyEventKind::Release,
        back.code == KeyCode::Backspace,
        back.kind != KeyEventKind::Release,
    ensures
        prompt_step(prompt_step(p, typed).0, back).0 == p,
{
    reveal(prompt_step);
    let c = typed.code->Char_0;
    assert(p.custom_name_input.push(c).drop_last() =~= p.custom_name_input);
}

/// A fresh prompt that is confirmed at once chooses the status that the
/// session has.
pub proof fn fresh_prompt_keeps_the_status(
    id: Seq<char>,
    name: Seq<char>,
    status: SessionStatus,
    enter: KeyEvent,
)
    requires
        enter.code == KeyCode::Enter,
        enter.kind != KeyEventKind::Release,
    ensures
        prompt_step(fresh_prompt(id, name, status), enter).1 == Some(
            LabelOutcome::StatusChosen(status),
        ),
{
    reveal(prompt_step);
}

/// No key moves the cursor of the status list out of the reach of a step.
pub proof fn cursor_stays_in_reach(p: PromptModel, ev: KeyEvent)
    requires
        p.selected_index < usize::MAX - 4,
    ensures
        prompt_step(p, ev).0.selected_index < usize::MAX - 4,
{
    reveal(prompt_step);
}

/// No key moves the cursor off the status list.
pub proof fn cursor_stays_on_the_list(p: PromptModel, ev: KeyEvent)
    requires
        p.selected_index < 5,
    ensures
        prompt_step(p, ev).0.selected_index < 5,
{
    reveal(prompt_step);
}

/// A released key leaves the prompt alone.
pub proof fn releases_are_ignored(p: PromptModel, ev: KeyEvent)
    requires
        ev.kind == KeyEventKind::Release,
    ensures
        prompt_step(p, ev) == (p, None::<LabelOutcome>),
{
    reveal(prompt_step);
}

/// Enter in the status list chooses the status under the cursor: the first is
/// active, then in progress, in review, done and archived.
pub proof fn enter_chooses_the_status(p: PromptModel, ev: KeyEvent)
    requires
        p.mode == Mode::StatusPicker,
        p.selected_index < 5,
        ev.code == KeyCode::Enter,
        ev.kind != KeyEventKind::Release,
    ensures
        prompt_step(p, ev).0 == p,
        prompt_step(p, ev).1 matches Some(LabelOutcome::StatusChosen(s)) && s == match p.selected_index {
            0 => SessionStatus::Active,
            1 => SessionStatus::InProgress,
            2 => SessionStatus::InReview,
            3 => SessionStatus::Done,
            _ => SessionStatus::Archived,
        },
{
    reveal(prompt_step);
}

/// The keys 1 to 5 put the cursor on the status of that number, the down keys
/// on the next one and the up keys on the one before, round the ends.
pub proof fn list_keys_move_the_cursor(p: PromptModel, ev: KeyEvent, c: char)
    requires
        p.mode == Mode::StatusPicker,
        p.selected_index < 5,
        ev.kind != KeyEventKind::Release,
    ensures
        ({
            let (after, outcome) = prompt_step(p, ev);
            let plain = ev.modifiers == KeyModifiers::none();
            let control = ev.modifiers == KeyModifiers::control();
            let down = ev.code == KeyCode::Down || (ev.code == KeyCode::Char('j') && plain) || (
            ev.code == KeyCode::Char('n') && control);
            let up = ev.code == KeyCode::Up || (ev.code == KeyCode::Char('k') && plain) || (ev.code
                == KeyCode::Char('p') && control);
            &&& down || up ==> outcome is None
            &&& down && p.selected_index < 4 ==> after == (PromptModel {
                selected_index: (p.selected_index + 1) as usize,
                ..p
            })
            &&& down && p.selected_index == 4 ==> after == (PromptModel { selected_index: 0, ..p })
            &&& up && p.selected_index > 0 ==> after == (PromptModel {
                selected_index: (p.selected_index - 1) as usize,
                ..p
            })
            &&& up && p.selected_index == 0 ==> after == (PromptModel { selected_index: 4, ..p })
            &&& ev.code == KeyCode::Char(c) && plain && '1' <= c && c <= '5' ==> after == (
            PromptModel { selected_index: (c as u32 - 49) as usize, ..p }) && outcome is None
        }),
{
    reveal(prompt_step);
}

/// Enter in the name field sets the name that was typed, without white space at
/// its ends; a blank one clears the stored name.
pub proof fn enter_sets_the_name(p: PromptModel, ev: KeyEvent)
    requires
        p.mode == Mode::CustomName,
        ev.code == KeyCode::Enter,
        ev.kind != KeyEventKind::Release,
    ensures
        prompt_step(p, ev).0 == p,
        prompt_step(p, ev).1 matches Some(LabelOutcome::CustomNameSet(name)) && name == if text::trim(
            p.custom_name_input,
        ).len() == 0 {
            None
        } else {
            Some(text::trim(p.custom_name_input))
        },
{
    reveal(prompt_step);
}

/// A character that is typed goes behind the name and changes nothing else.
pub proof fn typing_extends_the_name(p: PromptModel, ev: KeyEvent, c: char)
    requires
        p.mode == Mode::CustomName,
        ev.code == KeyCode::Char(c),
        !ev.modifiers.control,
        !ev.modifiers.alt,
        ev.kind != KeyEventKind::Release,
    ensures
        prompt_step(p, ev).0 == (PromptModel {
            custom_name_input: p.custom_name_input.push(c),
            ..p
        }),
        prompt_step(p, ev).1 is None,
{
    reveal(prompt_step);
}

/// Esc and Ctrl-c close the prompt without a choice; Tab turns from the list to
/// the name and back, and keeps both.
pub proof fn escape_cancels_and_tab_turns(p: PromptModel, ev: KeyEvent)
    requires
        ev.kind != KeyEventKind::Release,
    ensures
        ev.code == KeyCode::Esc || (ev.code == KeyCode::Char('c') && ev.modifiers
            == KeyModifiers::control()) ==> prompt_step(p, ev).1 matches Some(
            LabelOutcome::Cancelled,
        ),
        ev.code == KeyCode::Tab || ev.code == KeyCode::BackTab ==> {
            let (after, outcome) = prompt_step(p, ev);
            &&& outcome is None
            &&& after.mode != p.mode
            &&& after == (PromptModel { mode: after.mode, ..p })
        },
{
    reveal(prompt_step);
}

/// A fresh prompt is for the session it was opened on, with its name ready to
/// be edited and its status under the cursor.
pub proof fn fresh_prompts_show_the_session(id: Seq<char>, name: Seq<char>, status: SessionStatus)
    ensures
        ({
            let p = fresh_prompt(id, name, status);
            &&& p.session_id == id
            &&& p.session_display_name == name
            &&& p.custom_name_input == name
            &&& p.current_status == status
            &&& p.mode == Mode::StatusPicker
            &&& p.selected_index < 5
            &&& models::statuses()[p.selected_index as int] == status
        }),
{
}

/// The status list shows the five statuses in the order of the board, numbered
/// from one; the one the session has is marked, and the one under the cursor is
/// selected.
pub proof fn the_list_shows_every_status(p: PromptModel, row: StatusRow, i: int)
    requires
        0 <= i < 5,
        p.selected_index < 5,
        status_row_text(p, row, i),
    ensures
        text::in_order(row.number@, seq![text::decimal((i + 1) as nat)]),
        row.label@ == models::status_word(models::statuses()[i]),
        row.is_current <==> models::statuses()[i] == p.current_status,
        row.marker@.contains('*') <==> row.is_current,
        row.selected <==> i == p.selected_index,
{
    reveal_strlit(" * ");
    reveal_strlit("   ");
    text::holds_one(" "@, text::decimal((i + 1) as nat), ". "@);
    assert(" * "@[1] == '*');
    assert(!"   "@.contains('*'));
}

} // verus!
