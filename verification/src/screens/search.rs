//! The search modal: a query, the filters in it, and the messages it finds.

use std::time::Instant;

use vstd::prelude::*;
use vstd::string::*;

use crate::keys::{KeyCode, KeyEvent, KeyEventKind, KeyModifiers};
use crate::text;
use crate::ui;
use crate::ui::Rect;

verus! {

/// Who wrote a message.
#[derive(Debug, Clone, Copy, PartialEq, Eq, Structural)]
pub enum MessageRole {
    User,
    Assistant,
}

/// What a query asks for besides words.
#[derive(Debug, Clone, PartialEq, Eq)]
pub struct Filters {
    pub project: Option<String>,
    pub role: Option<MessageRole>,
}

#[verifier::ext_equal]
pub struct FiltersModel {
    pub project: Option<Seq<char>>,
    pub role: Option<MessageRole>,
}

impl View for Filters {
    type V = FiltersModel;

    open spec fn view(&self) -> FiltersModel {
        FiltersModel { project: text::opt_view(self.project), role: self.role }
    }
}

/// A message that a query found.
#[derive(Debug, Clone)]
pub struct Hit {
    pub message_uuid: String,
    pub session_id: String,
    /// A line of the message with each match in square brackets.
    pub snippet: String,
}

#[verifier::ext_equal]
pub struct HitModel {
    pub message_uuid: Seq<char>,
    pub session_id: Seq<char>,
    pub snippet: Seq<char>,
}

impl View for Hit {
    type V = HitModel;

    open spec fn view(&self) -> HitModel {
        HitModel {
            message_uuid: self.message_uuid@,
            session_id: self.session_id@,
            snippet: self.snippet@,
        }
    }
}

pub open spec fn hits_view(v: Seq<Hit>) -> Seq<HitModel> {
    Seq::new(v.len(), |i: int| v[i]@)
}

/// Milliseconds without a keystroke after which a query is run.
pub const DEBOUNCE_MILLIS: u128 = 150;

/// The modal.
#[derive(Debug)]
pub struct SearchState {
    /// What is typed.
    pub query_input: String,
    /// What was last run.
    pub committed_query: String,
    /// The filters in what is typed, as they were last read.
    pub filters: Filters,
    /// Whether what is typed has changed since then.
    pub filters_stale: bool,
    pub hits: Vec<Hit>,
    pub selected_index: usize,
    pub error: Option<String>,
    pub opened_at: Instant,
    /// Milliseconds from the opening of the modal to the last change of what is
    /// typed.
    pub last_keystroke_at: u128,
    /// Earlier searches, the latest first.
    pub recents: Vec<String>,
}

/// What the modal holds.
#[verifier::ext_equal]
pub struct SearchModel {
    pub query_input: Seq<char>,
    pub committed_query: Seq<char>,
    pub filters: FiltersModel,
    pub filters_stale: bool,
    pub hits: Seq<HitModel>,
    pub selected: int,
    pub error: Option<Seq<char>>,
    pub opened_at: Instant,
    pub last_keystroke_at: u128,
    pub recents: Seq<Seq<char>>,
}

impl View for SearchState {
    type V = SearchModel;

    open spec fn view(&self) -> SearchModel {
        SearchModel {
            query_input: self.query_input@,
            committed_query: self.committed_query@,
            filters: self.filters@,
            filters_stale: self.filters_stale,
            hits: hits_view(self.hits@),
            selected: self.selected_index as int,
            error: text::opt_view(self.error),
            opened_at: self.opened_at,
            last_keystroke_at: self.last_keystroke_at,
            recents: text::views(self.recents@),
        }
    }
}

/// A modal in which nothing was typed.
pub open spec fn fresh_search(at: Instant) -> SearchModel {
    SearchModel {
        query_input: Seq::empty(),
        committed_query: Seq::empty(),
        filters: FiltersModel { project: None, role: None },
        filters_stale: false,
        hits: Seq::empty(),
        selected: 0,
        error: None,
        opened_at: at,
        last_keystroke_at: 0,
        recents: Seq::empty(),
    }
}

/// The position behind the last white space of `s`: where its last word starts
/// when `s` does not end in white space.
pub open spec fn last_word_start(s: Seq<char>) -> int
    decreases s.len(),
{
    if s.len() == 0 {
        0
    } else if text::is_space(s.last()) {
        s.len() as int
    } else {
        last_word_start(s.drop_last())
    }
}

/// Whether a word is a filter.
pub open spec fn is_filter(word: Seq<char>) -> bool {
    text::occurs_at(word, "project:"@, 0) || word == "user:"@ || word == "assistant:"@
}

/// The query without the filter it ends with, where it ends with one.
pub open spec fn without_last_filter(query: Seq<char>) -> Option<Seq<char>> {
    let trimmed = text::trim_end(query);
    let start = last_word_start(trimmed);
    if trimmed.len() > 0 && is_filter(trimmed.skip(start)) {
        Some(text::trim_end(trimmed.take(start)))
    } else {
        None
    }
}

/// The query after Backspace: the filter at its end goes as a whole, else the
/// last character does.
pub open spec fn backspaced(query: Seq<char>) -> Seq<char> {
    match without_last_filter(query) {
        Some(rest) => rest,
        None => text::without_last(query),
    }
}

impl SearchState {
    /// A modal in which nothing was typed, opened at `at`.
    pub fn new_at(at: Instant) -> (state: SearchState)
        ensures
            state@ == fresh_search(at),
    {
        let state = SearchState {
            query_input: String::new(),
            committed_query: String::new(),
            filters: Filters { project: None, role: None },
            filters_stale: false,
            hits: Vec::new(),
            selected_index: 0,
            error: None,
            opened_at: at,
            last_keystroke_at: 0,
            recents: Vec::new(),
        };
        assert(state@.query_input =~= Seq::empty());
        assert(state@.committed_query =~= Seq::empty());
        assert(state@.hits =~= Seq::empty());
        assert(state@.recents =~= Seq::empty());
        state
    }

    /// A modal in which nothing was typed, opened now.
    pub fn new() -> (state: SearchState)
        ensures
            state@ == fresh_search(state@.opened_at),
    {
        SearchState::new_at(Instant::now())
    }

    /// Takes the filters that were read from what is typed.
    pub fn filters_parsed(&mut self, filters: Filters)
        ensures
            final(self)@ == (SearchModel {
                filters: filters@,
                filters_stale: false,
                ..old(self)@
            }),
    {
        self.filters = filters;
        self.filters_stale = false;
    }

    /// Moves the cursor back onto the last hit where it was beyond it.
    fn clamp_selection(&mut self)
        ensures
            final(self)@ == (SearchModel {
                selected: clamped(old(self)@.selected, old(self)@.hits.len() as int),
                ..old(self)@
            }),
    {
        if self.hits.len() == 0 {
            self.selected_index = 0;
        } else if self.selected_index >= self.hits.len() {
            self.selected_index = self.hits.len() - 1;
        }
    }

    /// Drops the filter that the query ends with. Nothing changes where it ends
    /// with none.
    pub fn pop_last_modifier(&mut self) -> (popped: bool)
        ensures
            match without_last_filter(old(self)@.query_input) {
                Some(rest) => popped && final(self)@ == (SearchModel {
                    query_input: rest,
                    filters_stale: true,
                    ..old(self)@
                }),
                None => !popped && final(self)@ == old(self)@,
            },
    {
        let trimmed = text::trimmed_end(self.query_input.as_str());
        let chars = text::chars_of(trimmed.as_str());
        if chars.len() == 0 {
            return false;
        }
        let mut start: usize = chars.len();
        assert(chars@.take(start as int) =~= chars@);
        while start > 0 && !text::is_white(chars[start - 1])
            invariant
                start <= chars@.len(),
                last_word_start(chars@) == last_word_start(chars@.take(start as int)),
            decreases start,
        {
            assert(chars@.take(start as int).drop_last() =~= chars@.take(start - 1));
            start -= 1;
        }
        assert(last_word_start(chars@.take(start as int)) == start);
        let word = text::string_of_range(&chars, start, chars.len());
        assert(word@ =~= chars@.skip(start as int));
        if text::has_prefix(word.as_str(), "project:") || text::same_text(word.as_str(), "user:")
            || text::same_text(word.as_str(), "assistant:") {
            let head = text::string_of_range(&chars, 0, start);
            assert(head@ =~= chars@.take(start as int));
            self.query_input = text::trimmed_end(head.as_str());
            self.filters_stale = true;
            true
        } else {
            false
        }
    }
}

/// A cursor moved back onto the last of `len` hits where it was beyond it.
pub open spec fn clamped(selected: int, len: int) -> int {
    if len <= 0 {
        0
    } else if selected >= len {
        len - 1
    } else {
        selected
    }
}

impl Default for SearchState {
    fn default() -> (state: SearchState)
        ensures
            state@ == fresh_search(state@.opened_at),
    {
        SearchState::new()
    }
}

/// What the modal hands back when it closes.
#[derive(Debug, Clone, PartialEq, Eq)]
pub enum SearchResult {
    Cancelled,
    JumpToMessage { session_id: String, message_uuid: String },
}

pub enum SearchOutcome {
    Cancelled,
    JumpToMessage { session_id: Seq<char>, message_uuid: Seq<char> },
}

impl View for SearchResult {
    type V = SearchOutcome;

    open spec fn view(&self) -> SearchOutcome {
        match *self {
            SearchResult::Cancelled => SearchOutcome::Cancelled,
            SearchResult::JumpToMessage {
                session_id,
                message_uuid,
            } => SearchOutcome::JumpToMessage {
                session_id: session_id@,
                message_uuid: message_uuid@,
            },
        }
    }
}

pub open spec fn outcome_view(r: Option<SearchResult>) -> Option<SearchOutcome> {
    match r {
        Some(x) => Some(x@),
        None => None,
    }
}

/// Whether a query is due when the modal has been open for `now` milliseconds:
/// something else is typed than was last run, and typing has paused.
pub open spec fn is_due(s: SearchModel, now: u128) -> bool {
    s.query_input != s.committed_query && now - s.last_keystroke_at >= DEBOUNCE_MILLIS
}

/// Whether a query is due when the modal has been open for `now` milliseconds:
/// something else is typed than was last run, and typing has paused.
pub fn should_execute_at(state: &SearchState, now: u128) -> (yes: bool)
    ensures
        yes == is_due(state@, now),
{
    !text::same_text(state.query_input.as_str(), state.committed_query.as_str()) && now
        >= state.last_keystroke_at && now - state.last_keystroke_at >= DEBOUNCE_MILLIS
}

/// `Instant::elapsed` gives the time since an instant, here in whole
/// milliseconds. Nothing is known of it.
#[verifier::external_body]
pub(crate) fn millis_since(at: Instant) -> (elapsed: u128) {
    at.elapsed().as_millis()
}

/// Whether a query is due now. It is not while what is typed is what was last
/// run; else it is once the pause since the last keystroke is long enough.
pub fn should_execute(state: &SearchState) -> (yes: bool)
    ensures
        exists|now: u128| yes == #[trigger] is_due(state@, now),
        state@.query_input == state@.committed_query ==> !yes,
{
    let now: u128 = millis_since(state.opened_at);
    should_execute_at(state, now)
}

/// What a search answered: the messages found, or an error in words.
pub type Answer = Result<Vec<Hit>, String>;

/// The modal after what is typed was run with a given answer.
pub open spec fn executed(s: SearchModel, answer: Answer) -> SearchModel {
    let (hits, error) = match answer {
        Ok(found) => (hits_view(found@), None),
        Err(words) => (Seq::empty(), Some(words@)),
    };
    SearchModel {
        hits,
        error,
        committed_query: s.query_input,
        selected: clamped(s.selected, hits.len() as int),
        ..s
    }
}

/// Takes the answer to what is typed, and notes that it was run.
pub fn execute_query(state: &mut SearchState, answer: Answer)
    ensures
        final(state)@ == executed(old(state)@, answer),
{
    match answer {
        Ok(hits) => {
            state.hits = hits;
            state.error = None;
        },
        Err(words) => {
            state.hits = Vec::new();
            state.error = Some(words);
        },
    }
    assert(answer is Err ==> state@.hits =~= Seq::empty());
    state.committed_query = state.query_input.clone();
    state.clamp_selection();
}

/// The modal after something was typed.
pub open spec fn typed(s: SearchModel, query: Seq<char>, now: u128) -> SearchModel {
    SearchModel { query_input: query, filters_stale: true, last_keystroke_at: now, ..s }
}

/// The modal after a key `now` milliseconds after it opened, and what it hands
/// back.
#[verifier::opaque]
pub open spec fn search_step(s: SearchModel, ev: KeyEvent, now: u128) -> (
    SearchModel,
    Option<SearchOutcome>,
) {
    let control = ev.modifiers == KeyModifiers::control();
    let next = if s.selected + 1 < s.hits.len() {
        SearchModel { selected: s.selected + 1, ..s }
    } else {
        s
    };
    let prev = if s.selected > 0 {
        SearchModel { selected: s.selected - 1, ..s }
    } else {
        s
    };
    if ev.kind == KeyEventKind::Release {
        (s, None)
    } else {
        match ev.code {
            KeyCode::Esc => (s, Some(SearchOutcome::Cancelled)),
            KeyCode::Enter => if s.selected < s.hits.len() {
                let hit = s.hits[s.selected];
                (
                    s,
                    Some(
                        SearchOutcome::JumpToMessage {
                            session_id: hit.session_id,
                            message_uuid: hit.message_uuid,
                        },
                    ),
                )
            } else {
                (s, None)
            },
            KeyCode::Down => (next, None),
            KeyCode::Up => (prev, None),
            KeyCode::Backspace => (typed(s, backspaced(s.query_input), now), None),
            KeyCode::Char(c) => if c == 'c' && control {
                (s, Some(SearchOutcome::Cancelled))
            } else if c == 'n' && control {
                (next, None)
            } else if c == 'p' && control {
                (prev, None)
            } else if ev.modifiers.control || ev.modifiers.alt {
                (s, None)
            } else {
                (typed(s, s.query_input.push(c), now), None)
            },
            _ => (s, None),
        }
    }
}

/// Handles one key when the modal has been open for `now` milliseconds.
/// Something is handed back where the modal closes.
pub fn handle_key_at(state: &mut SearchState, key: KeyEvent, now: u128) -> (result: Option<
    SearchResult,
>)
    ensures
        (final(state)@, outcome_view(result)) == search_step(old(state)@, key, now),
{
    proof {
        reveal(search_step);
    }
    if key.kind == KeyEventKind::Release {
        return None;
    }
    let control = key.modifiers == KeyModifiers::control();
    match key.code {
        KeyCode::Esc => Some(SearchResult::Cancelled),
        KeyCode::Enter => {
            if state.selected_index < state.hits.len() {
                let hit = &state.hits[state.selected_index];
                Some(
                    SearchResult::JumpToMessage {
                        session_id: hit.session_id.clone(),
                        message_uuid: hit.message_uuid.clone(),
                    },
                )
            } else {
                None
            }
        },
        KeyCode::Down => {
            select_next(state);
            None
        },
        KeyCode::Up => {
            select_prev(state);
            None
        },
        KeyCode::Backspace => {
            if !state.pop_last_modifier() {
                state.query_input = text::drop_last_char(state.query_input.as_str());
                state.filters_stale = true;
            }
            state.last_keystroke_at = now;
            None
        },
        KeyCode::Char(c) => {
            if c == 'c' && control {
                return Some(SearchResult::Cancelled);
            }
            if c == 'n' && control {
                select_next(state);
            } else if c == 'p' && control {
                select_prev(state);
            } else if !key.modifiers.control && !key.modifiers.alt {
                state.query_input.push(c);
                state.filters_stale = true;
                state.last_keystroke_at = now;
            }
            None
        },
        _ => None,
    }
}

fn select_next(state: &mut SearchState)
    ensures
        final(state)@ == (SearchModel {
            selected: if old(state)@.selected + 1 < old(state)@.hits.len() {
                old(state)@.selected + 1
            } else {
                old(state)@.selected
            },
            ..old(state)@
        }),
{
    if state.selected_index < state.hits.len() && state.selected_index + 1 < state.hits.len() {
        state.selected_index = state.selected_index + 1;
    }
}

fn select_prev(state: &mut SearchState)
    ensures
        final(state)@ == (SearchModel {
            selected: if old(state)@.selected > 0 {
                old(state)@.selected - 1
            } else {
                old(state)@.selected
            },
            ..old(state)@
        }),
{
    if state.selected_index > 0 {
        state.selected_index = state.selected_index - 1;
    }
}

/// Handles one key now. Something is handed back where the modal closes.
pub fn handle_key(state: &mut SearchState, key: KeyEvent) -> (result: Option<SearchResult>)
    ensures
        exists|now: u128|
            (final(state)@, outcome_view(result)) == #[trigger] search_step(old(state)@, key, now),
{
    let now: u128 = millis_since(state.opened_at);
    handle_key_at(state, key, now)
}

/// The title of the modal.
pub fn title(state: &SearchState) -> (out: String)
    ensures
        out@ == if state@.query_input.len() == 0 {
            " Search "@
        } else {
            " Search: "@ + state@.query_input + " "@
        },
        text::in_order(out@, seq![state@.query_input]),
{
    proof {
        text::holds_one(" Search: "@, state@.query_input, " "@);
        text::holds_one(" Search "@, Seq::empty(), Seq::empty());
        assert(" Search "@ + Seq::empty() + Seq::empty() =~= " Search "@);
        if state@.query_input.len() == 0 {
            assert(state@.query_input =~= Seq::empty());
        }
    }
    if text::is_empty(state.query_input.as_str()) {
        " Search ".to_owned()
    } else {
        let mut out = " Search: ".to_owned();
        out.append(state.query_input.as_str());
        out.append(" ");
        out
    }
}

/// The words of the filter row, one text per filter.
pub open spec fn pill_texts(filters: FiltersModel) -> Seq<Seq<char>> {
    (match filters.project {
        Some(p) => seq![" project:"@ + p + " "@],
        None => Seq::empty(),
    }) + (match filters.role {
        Some(MessageRole::User) => seq![" role:user "@],
        Some(MessageRole::Assistant) => seq![" role:assistant "@],
        None => Seq::empty(),
    })
}

/// The words of the filter row, one text per filter.
pub fn pills(filters: &Filters) -> (out: Vec<String>)
    ensures
        text::views(out@) == pill_texts(filters@),
{
    let mut out: Vec<String> = Vec::new();
    if let Some(p) = &filters.project {
        let mut pill = " project:".to_owned();
        pill.append(p.as_str());
        pill.append(" ");
        out.push(pill);
    }
    match filters.role {
        Some(MessageRole::User) => {
            out.push(" role:user ".to_owned());
        },
        Some(MessageRole::Assistant) => {
            out.push(" role:assistant ".to_owned());
        },
        None => {},
    }
    assert(text::views(out@) =~= pill_texts(filters@));
    out
}

/// The rows of the modal inside its border: the filters where there are any,
/// the query, the hits, and the status.
pub fn layout(state: &SearchState, area: Rect) -> (parts: Vec<Rect>)
    ensures
        parts@.len() == 4,
        forall|i: int|
            0 <= i < 4 ==> ui::is_part(
                ui::inside_border(area),
                ui::Direction::Vertical,
                #[trigger] parts@[i],
            ),
        ui::in_a_row(ui::inside_border(area), ui::Direction::Vertical, parts@),
        ({
            let room = ui::room_of(ui::inside_border(area), ui::Direction::Vertical);
            let pills: int = if pill_texts(state@.filters).len() > 0 { 1 } else { 0 };
            3 + pills <= room ==> {
                &&& parts@[0].height == pills
                &&& parts@[1].height == 1
                &&& parts@[2].height == room - 2 - pills
                &&& parts@[3].height == 1
            }
        }),
{
    let inner = ui::inside_borders(area);
    let pill_height: u16 = if state.filters.project.is_some() || state.filters.role.is_some() {
        1
    } else {
        0
    };
    let asked = vec![
        ui::Constraint::Length(pill_height),
        ui::Constraint::Length(1),
        ui::Constraint::Min(1),
        ui::Constraint::Length(1),
    ];
    let parts = ui::stack(inner, ui::Direction::Vertical, &asked, 2);
    proof {
        reveal_with_fuel(ui::fixed_before, 5);
        let room = ui::room_of(inner, ui::Direction::Vertical);
        if 3 + pill_height <= room {
            assert(ui::one_fills(asked@, 2, room));
            let (a, b, c, d) = (parts@[0], parts@[1], parts@[2], parts@[3]);
        }
    }
    parts
}

/// Whether earlier searches are listed in place of hits.
pub fn shows_recents(state: &SearchState) -> (yes: bool)
    ensures
        yes == (state@.hits.len() == 0 && state@.query_input.len() == 0 && state@.recents.len()
            > 0),
{
    state.hits.len() == 0 && text::is_empty(state.query_input.as_str()) && state.recents.len() > 0
}

/// What is said where there are no hits.
pub open spec fn no_hits_text(s: SearchModel) -> Seq<char> {
    if s.committed_query.len() == 0 {
        "Type to search..."@
    } else if s.error is Some {
        ""@
    } else {
        "No results."@
    }
}

/// What is said where there are no hits.
pub fn empty_message(state: &SearchState) -> (words: &'static str)
    ensures
        words@ == no_hits_text(state@),
{
    if text::is_empty(state.committed_query.as_str()) {
        "Type to search..."
    } else if state.error.is_some() {
        ""
    } else {
        "No results."
    }
}

/// Where `n` characters go in the middle of an area.
pub open spec fn middle_slot(area: Rect, n: int) -> Rect {
    let x = area.x + ui::minus(area.width, n) / 2;
    Rect {
        x: x as u16,
        y: (area.y + area.height / 2) as u16,
        width: ui::minus(area.width, x - area.x),
        height: 1,
    }
}

/// Where the words for no hits go.
pub fn empty_message_rect(state: &SearchState, area: Rect) -> (rect: Rect)
    requires
        area.fits(),
    ensures
        rect == middle_slot(area, no_hits_text(state@).len() as int),
{
    proof {
        reveal_strlit("Type to search...");
        reveal_strlit("No results.");
        reveal_strlit("");
    }
    let n: usize = empty_message(state).unicode_len();
    let margin: u16 = if area.width as usize <= n {
        0
    } else {
        (area.width - n as u16) / 2
    };
    Rect {
        x: area.x + margin,
        y: area.y + area.height / 2,
        width: area.width - margin,
        height: 1,
    }
}

/// The first eight characters of a session.
pub fn short_session(sid: &str) -> (out: String)
    ensures
        out@ == text::first_chars(sid@, 8),
{
    text::take_chars(sid, 8)
}

/// A stretch of a snippet that does or does not match the query.
#[derive(Debug, Clone, PartialEq, Eq)]
pub struct Segment {
    pub text: String,
    pub matched: bool,
}

#[verifier::ext_equal]
pub struct SegmentModel {
    pub text: Seq<char>,
    pub matched: bool,
}

impl View for Segment {
    type V = SegmentModel;

    open spec fn view(&self) -> SegmentModel {
        SegmentModel { text: self.text@, matched: self.matched }
    }
}

pub open spec fn segments_view(v: Seq<Segment>) -> Seq<SegmentModel> {
    Seq::new(v.len(), |i: int| v[i]@)
}

/// The stretch `text`, where it is not empty.
pub open spec fn stretch(text: Seq<char>, matched: bool) -> Seq<SegmentModel> {
    if text.len() == 0 {
        Seq::empty()
    } else {
        seq![SegmentModel { text, matched }]
    }
}

/// The stretches of the rest of a snippet, where `open` was read since the
/// last bracket.
pub open spec fn segments_of(rest: Seq<char>, open: Seq<char>, in_match: bool) -> Seq<SegmentModel>
    decreases rest.len(),
{
    if rest.len() == 0 {
        stretch(open, in_match)
    } else if (rest[0] == '[' && !in_match) || (rest[0] == ']' && in_match) {
        stretch(open, in_match) + segments_of(rest.skip(1), Seq::empty(), !in_match)
    } else {
        segments_of(rest.skip(1), open.push(rest[0]), in_match)
    }
}

/// A snippet taken apart at the brackets round its matches. The brackets
/// themselves are dropped.
pub fn snippet_segments(snippet: &str) -> (out: Vec<Segment>)
    ensures
        segments_view(out@) == segments_of(snippet@, Seq::empty(), false),
{
    let chars = text::chars_of(snippet);
    let mut out: Vec<Segment> = Vec::new();
    let mut open = String::new();
    let mut in_match = false;
    let mut i: usize = 0;
    let ghost whole = segments_of(snippet@, Seq::empty(), false);
    assert(chars@.skip(0) =~= chars@);
    assert(open@ =~= Seq::empty());
    assert(segments_view(out@) + whole =~= whole);
    while i < chars.len()
        invariant
            i <= chars@.len(),
            whole == segments_view(out@) + segments_of(chars@.skip(i as int), open@, in_match),
        decreases chars@.len() - i,
    {
        let c = chars[i];
        let ghost rest = chars@.skip(i as int);
        let ghost before = segments_view(out@);
        assert(rest.skip(1) =~= chars@.skip(i + 1));
        if (c == '[' && !in_match) || (c == ']' && in_match) {
            let ghost read = open@;
            if !text::is_empty(open.as_str()) {
                out.push(Segment { text: open, matched: in_match });
                assert(segments_view(out@) =~= before + stretch(read, in_match));
            } else {
                assert(before + stretch(read, in_match) =~= before);
            }
            let ghost tail = segments_of(rest.skip(1), Seq::empty(), !in_match);
            assert(before + (stretch(read, in_match) + tail) =~= (before + stretch(read, in_match))
                + tail);
            open = String::new();
            assert(open@ =~= Seq::empty());
            in_match = !in_match;
        } else {
            open.push(c);
        }
        i += 1;
    }
    let ghost before = segments_view(out@);
    let ghost read = open@;
    if !text::is_empty(open.as_str()) {
        out.push(Segment { text: open, matched: in_match });
        assert(segments_view(out@) =~= before + stretch(read, in_match));
    } else {
        assert(before + stretch(read, in_match) =~= before);
    }
    out
}

/// One row of the hit list.
#[derive(Debug, Clone, PartialEq, Eq)]
pub struct HitLine {
    /// The first eight characters of the session, padded to ten.
    pub session: String,
    pub segments: Vec<Segment>,
    pub selected: bool,
}

pub open spec fn shows_hit(line: HitLine, hit: HitModel, selected: bool) -> bool {
    &&& line.session@ == text::padded(text::first_chars(hit.session_id, 8), 10)
    &&& segments_view(line.segments@) == segments_of(hit.snippet, Seq::empty(), false)
    &&& line.selected == selected
}

/// The hit list as it is painted.
pub fn hit_lines(state: &SearchState) -> (lines: Vec<HitLine>)
    ensures
        lines@.len() == state@.hits.len(),
        forall|i: int|
            0 <= i < lines@.len() ==> shows_hit(
                #[trigger] lines@[i],
                state@.hits[i],
                i == state@.selected,
            ),
{
    let mut lines: Vec<HitLine> = Vec::new();
    let mut i: usize = 0;
    while i < state.hits.len()
        invariant
            i <= state.hits@.len(),
            lines@.len() == i,
            forall|k: int|
                0 <= k < i ==> shows_hit(
                    #[trigger] lines@[k],
                    state@.hits[k],
                    k == state@.selected,
                ),
        decreases state.hits@.len() - i,
    {
        let short = short_session(state.hits[i].session_id.as_str());
        let line = HitLine {
            session: text::pad_right(short.as_str(), 10),
            segments: snippet_segments(state.hits[i].snippet.as_str()),
            selected: i == state.selected_index,
        };
        assert(shows_hit(line, state@.hits[i as int], i == state@.selected));
        lines.push(line);
        i += 1;
    }
    lines
}

/// The number of hits in words.
pub open spec fn count_text(n: nat) -> Seq<char> {
    if n == 1 {
        " 1 hit "@
    } else {
        " "@ + text::decimal(n) + " hits "@
    }
}

/// The status row: the number of hits, and the error where there is one.
pub fn status_texts(state: &SearchState) -> (out: (String, Option<String>))
    ensures
        out.0@ == count_text(state@.hits.len()),
        text::opt_view(out.1) == match state@.error {
            Some(words) => Some("err: "@ + words),
            None => None,
        },
        text::in_order(out.0@, seq![text::decimal(state@.hits.len())]),
        out.1 is Some <==> state@.error is Some,
        state@.error matches Some(words) ==> text::in_order(out.1.unwrap()@, seq![words]),
{
    proof {
        hits_are_counted(state@.hits.len());
        if let Some(words) = state@.error {
            text::holds_one("err: "@, words, Seq::empty());
            assert("err: "@ + words + Seq::empty() =~= "err: "@ + words);
        }
    }
    let n: usize = state.hits.len();
    let count = if n == 1 {
        " 1 hit ".to_owned()
    } else {
        let mut count = " ".to_owned();
        text::push_decimal(&mut count, n as u64);
        count.append(" hits ");
        count
    };
    let error = match &state.error {
        Some(words) => {
            let mut out = "err: ".to_owned();
            out.append(words.as_str());
            Some(out)
        },
        None => None,
    };
    (count, error)
}

/// The popup rectangle of the modal.
pub fn centered_rect(pct_w: u16, pct_h: u16, parent: Rect) -> (rect: Rect)
    requires
        parent.x + ui::minus(parent.width, ui::share(parent.width, pct_w) as int) / 2 <= u16::MAX,
        parent.y + ui::minus(parent.height, ui::share(parent.height, pct_h) as int) / 2 <= u16::MAX,
    ensures
        rect == ui::centered(pct_w, pct_h, parent),
{
    ui::centered_rect(pct_w, pct_h, parent)
}

/// The cursor stays on a hit whatever key comes and whatever a search answers.
pub proof fn cursor_stays_on_a_hit(s: SearchModel, ev: KeyEvent, now: u128, answer: Answer)
    requires
        0 <= s.selected,
        s.selected < s.hits.len() || s.selected == 0,
    ensures
        ({
            let after = search_step(s, ev, now).0;
            0 <= after.selected && (after.selected < after.hits.len() || after.selected == 0)
        }),
        ({
            let after = executed(s, answer);
            0 <= after.selected && (after.selected < after.hits.len() || after.selected == 0)
        }),
{
    reveal(search_step);
}

/// After a query was run it is not run again until something is typed.
pub proof fn nothing_is_run_twice(s: SearchModel, answer: Answer, now: u128)
    ensures
        !is_due(executed(s, answer), now),
{
}

/// What was typed is run once there was a pause after it, and not before: each
/// keystroke starts the pause anew.
pub proof fn typing_puts_the_query_off(s: SearchModel, query: Seq<char>, at: u128, now: u128)
    requires
        query != s.committed_query,
    ensures
        is_due(typed(s, query, at), now) <==> now >= at + 150,
{
}

/// A character that was typed is gone after Backspace, unless it completed a
/// filter: then the filter goes.
pub proof fn backspace_undoes_typing(query: Seq<char>, c: char)
    requires
        without_last_filter(query.push(c)) is None,
    ensures
        backspaced(query.push(c)) == query,
{
    assert(query.push(c).drop_last() =~= query);
}

/// No stretch of a snippet is empty.
pub proof fn no_stretch_is_empty(rest: Seq<char>, open: Seq<char>, in_match: bool, i: int)
    requires
        0 <= i < segments_of(rest, open, in_match).len(),
    ensures
        segments_of(rest, open, in_match)[i].text.len() > 0,
    decreases rest.len(),
{
    if rest.len() > 0 {
        if (rest[0] == '[' && !in_match) || (rest[0] == ']' && in_match) {
            let n = stretch(open, in_match).len();
            if i >= n {
                no_stretch_is_empty(rest.skip(1), Seq::empty(), !in_match, i - n);
            }
        } else {
            no_stretch_is_empty(rest.skip(1), open.push(rest[0]), in_match, i);
        }
    }
}

/// A released key leaves the modal alone.
pub proof fn releases_are_ignored(s: SearchModel, ev: KeyEvent, now: u128)
    requires
        ev.kind == KeyEventKind::Release,
    ensures
        search_step(s, ev, now) == (s, None::<SearchOutcome>),
{
    reveal(search_step);
}

/// A character that is typed goes behind the query, at the time it was typed,
/// and leaves the hits and the cursor alone.
pub proof fn typing_extends_the_query(s: SearchModel, ev: KeyEvent, c: char, now: u128)
    requires
        ev.code == KeyCode::Char(c),
        !ev.modifiers.control,
        !ev.modifiers.alt,
        ev.kind != KeyEventKind::Release,
    ensures
        search_step(s, ev, now).1 is None,
        search_step(s, ev, now).0 == (SearchModel {
            query_input: s.query_input.push(c),
            filters_stale: true,
            last_keystroke_at: now,
            ..s
        }),
{
    reveal(search_step);
}

proof fn last_word_starts(head: Seq<char>, word: Seq<char>)
    requires
        forall|i: int| 0 <= i < word.len() ==> !text::is_space(#[trigger] word[i]),
        head.len() > 0 ==> text::is_space(head.last()),
    ensures
        last_word_start(head + word) == head.len(),
    decreases word.len(),
{
    if word.len() == 0 {
        assert(head + word =~= head);
    } else {
        let shorter = word.drop_last();
        assert forall|i: int| 0 <= i < shorter.len() implies !text::is_space(
            #[trigger] shorter[i],
        ) by {
            assert(shorter[i] == word[i]);
        }
        last_word_starts(head, shorter);
        assert((head + word).drop_last() =~= head + shorter);
        assert(!text::is_space(word[word.len() - 1]));
    }
}

/// Backspace takes a filter away as a whole where the query ends with one, and
/// else the last character; in either case it counts as typing.
pub proof fn backspace_takes_a_filter_whole(
    s: SearchModel,
    head: Seq<char>,
    word: Seq<char>,
    ev: KeyEvent,
    now: u128,
)
    requires
        s.query_input == head + word,
        head.len() > 0 ==> text::is_space(head.last()),
        word.len() > 0,
        forall|i: int| 0 <= i < word.len() ==> !text::is_space(#[trigger] word[i]),
        ev.code == KeyCode::Backspace,
        ev.kind != KeyEventKind::Release,
    ensures
        ({
            let (after, outcome) = search_step(s, ev, now);
            let filter = text::occurs_at(word, "project:"@, 0) || word == "user:"@ || word
                == "assistant:"@;
            &&& outcome is None
            &&& after.last_keystroke_at == now
            &&& after.hits == s.hits
            &&& filter ==> after.query_input == text::trim_end(head)
            &&& !filter ==> after.query_input == head + word.drop_last()
        }),
{
    reveal(search_step);
    let query = head + word;
    assert(!text::is_space(word[word.len() - 1]));
    text::trailing_space_goes(query, ' ');
    last_word_starts(head, word);
    assert(query.skip(head.len() as int) =~= word);
    assert(query.take(head.len() as int) =~= head);
    assert(query.drop_last() =~= head + word.drop_last());
}

/// Enter goes to the message of the hit under the cursor; without a hit it does
/// nothing. Esc and Ctrl-c close the modal.
pub proof fn enter_jumps_and_escape_closes(s: SearchModel, ev: KeyEvent, now: u128)
    requires
        0 <= s.selected,
        ev.kind != KeyEventKind::Release,
    ensures
        ev.code == KeyCode::Enter && s.selected < s.hits.len() ==> search_step(s, ev, now) == (
            s,
            Some(
                SearchOutcome::JumpToMessage {
                    session_id: s.hits[s.selected].session_id,
                    message_uuid: s.hits[s.selected].message_uuid,
                },
            ),
        ),
        ev.code == KeyCode::Enter && s.selected >= s.hits.len() ==> search_step(s, ev, now) == (
            s,
            None::<SearchOutcome>,
        ),
        ev.code == KeyCode::Esc || (ev.code == KeyCode::Char('c') && ev.modifiers
            == KeyModifiers::control()) ==> search_step(s, ev, now) == (
            s,
            Some(SearchOutcome::Cancelled),
        ),
{
    reveal(search_step);
}

/// The down keys put the cursor on the next hit and the up keys on the one
/// before; both stop at the ends, and neither counts as typing.
pub proof fn cursor_keys_move_by_one(s: SearchModel, ev: KeyEvent, now: u128)
    requires
        0 <= s.selected,
        ev.kind != KeyEventKind::Release,
    ensures
        ({
            let (after, outcome) = search_step(s, ev, now);
            let control = ev.modifiers == KeyModifiers::control();
            let down = ev.code == KeyCode::Down || (ev.code == KeyCode::Char('n') && control);
            let up = ev.code == KeyCode::Up || (ev.code == KeyCode::Char('p') && control);
            &&& down || up ==> outcome is None && after == (SearchModel {
                selected: after.selected,
                ..s
            })
            &&& down && s.selected + 1 < s.hits.len() ==> after.selected == s.selected + 1
            &&& down && s.selected + 1 >= s.hits.len() ==> after.selected == s.selected
            &&& up && s.selected > 0 ==> after.selected == s.selected - 1
            &&& up && s.selected == 0 ==> after.selected == 0
        }),
{
    reveal(search_step);
}

/// The messages found are listed as they came, and an error leaves none and is
/// shown; either way what was typed was run, and the cursor is on a hit.
pub proof fn answers_are_shown(s: SearchModel, found: Vec<Hit>, words: String)
    requires
        0 <= s.selected,
    ensures
        ({
            let after = executed(s, Ok(found));
            &&& after.hits.len() == found@.len()
            &&& forall|i: int| 0 <= i < found@.len() ==> #[trigger] after.hits[i] == found@[i]@
            &&& after.error is None
            &&& after.committed_query == s.query_input
            &&& after.query_input == s.query_input
            &&& s.selected < found@.len() ==> after.selected == s.selected
            &&& s.selected >= found@.len() > 0 ==> after.selected == found@.len() - 1
        }),
        ({
            let after = executed(s, Err(words));
            &&& after.hits.len() == 0
            &&& after.error == Some(words@)
            &&& after.committed_query == s.query_input
            &&& after.query_input == s.query_input
            &&& after.selected == 0
        }),
{
}

proof fn plain_text_is_read_on(text: Seq<char>, rest: Seq<char>, open: Seq<char>, in_match: bool)
    requires
        !text.contains('['),
        !text.contains(']'),
    ensures
        segments_of(text + rest, open, in_match) == segments_of(rest, open + text, in_match),
    decreases text.len(),
{
    if text.len() == 0 {
        assert(text + rest =~= rest);
        assert(open + text =~= open);
    } else {
        let tail = text.skip(1);
        assert(text.contains(text[0]));
        assert forall|c: char| tail.contains(c) implies text.contains(c) by {
            assert(text[tail.index_of(c) + 1] == c);
        }
        plain_text_is_read_on(tail, rest, open.push(text[0]), in_match);
        assert((text + rest).skip(1) =~= tail + rest);
        assert(open.push(text[0]) + tail =~= open + text);
    }
}

/// A snippet is taken apart at its brackets: the words in front of a match, the
/// match, and so on with the rest. Only what stood in brackets is a match, and
/// the brackets are gone.
pub proof fn matches_stand_apart(before: Seq<char>, found: Seq<char>, after: Seq<char>)
    requires
        before.len() > 0,
        found.len() > 0,
        !before.contains('['),
        !before.contains(']'),
        !found.contains('['),
        !found.contains(']'),
    ensures
        ({
            let all = segments_of(
                before + seq!['['] + found + seq![']'] + after,
                Seq::empty(),
                false,
            );
            &&& all.len() >= 2
            &&& all[0] == (SegmentModel { text: before, matched: false })
            &&& all[1] == (SegmentModel { text: found, matched: true })
            &&& all.skip(2) == segments_of(after, Seq::empty(), false)
        }),
        segments_of(before, Seq::empty(), false) == seq![
            SegmentModel { text: before, matched: false },
        ],
        segments_of(Seq::empty(), Seq::empty(), false).len() == 0,
{
    let none = Seq::<char>::empty();
    let tail = seq![']'] + after;
    let middle = seq!['['] + (found + tail);
    let whole = before + seq!['['] + found + seq![']'] + after;
    assert(whole =~= before + middle);
    plain_text_is_read_on(before, middle, none, false);
    assert(none + before =~= before);
    assert(middle.skip(1) =~= found + tail);
    plain_text_is_read_on(found, tail, none, true);
    assert(none + found =~= found);
    assert(tail.skip(1) =~= after);
    let all = segments_of(whole, none, false);
    let rest = segments_of(after, none, false);
    assert(all =~= seq![SegmentModel { text: before, matched: false }] + (seq![
        SegmentModel { text: found, matched: true },
    ] + rest));
    assert(all.skip(2) =~= rest);
    plain_text_is_read_on(before, none, none, false);
    assert(before + none =~= before);
}

/// The filter row shows each filter once: the project with its name, and then
/// the role.
pub proof fn filters_have_their_pills(filters: FiltersModel)
    ensures
        pill_texts(filters).len() == (if filters.project is Some {
            1int
        } else {
            0
        }) + (if filters.role is Some {
            1int
        } else {
            0
        }),
        filters.project matches Some(p) ==> text::in_order(pill_texts(filters)[0], seq![p]),
        filters.role == Some(MessageRole::User) ==> pill_texts(filters).last() == " role:user "@,
        filters.role == Some(MessageRole::Assistant) ==> pill_texts(filters).last()
            == " role:assistant "@,
{
    if let Some(p) = filters.project {
        text::holds_one(" project:"@, p, " "@);
    }
}

/// The status row tells how many hits there are.
pub proof fn hits_are_counted(n: nat)
    ensures
        text::in_order(count_text(n), seq![text::decimal(n)]),
{
    if n == 1 {
        reveal_strlit(" 1 hit ");
        assert(text::decimal(1) =~= seq!['1']);
        text::holds_one(seq![' '], text::decimal(1), seq![' ', 'h', 'i', 't', ' ']);
        assert(" 1 hit "@ =~= seq![' '] + text::decimal(1) + seq![' ', 'h', 'i', 't', ' ']);
    } else {
        text::holds_one(" "@, text::decimal(n), " hits "@);
    }
}

/// Where there are no hits, the modal asks for a query until one was run; then it
/// says that nothing was found, or leaves the word to the error.
pub proof fn missing_hits_are_explained(s: SearchModel)
    ensures
        s.committed_query.len() == 0 ==> no_hits_text(s) == "Type to search..."@,
        s.committed_query.len() > 0 && s.error is None ==> no_hits_text(s) == "No results."@,
        s.committed_query.len() > 0 && s.error is Some ==> no_hits_text(s).len() == 0,
{
    reveal_strlit("");
}

/// Words that fit go to the middle of their area, with at most one cell more on
/// their right than on their left.
pub proof fn words_go_to_the_middle(area: Rect, n: int)
    requires
        area.fits(),
        area.height > 0,
        0 <= n <= area.width,
    ensures
        ({
            let slot = middle_slot(area, n);
            let left = slot.x - area.x;
            let right = area.width - left - n;
            &&& left <= right <= left + 1
            &&& slot.x + slot.width == area.x + area.width
            &&& slot.y == area.y + area.height / 2
            &&& slot.height == 1
        }),
{
}

} // verus!
