//! The data that the screens share: sessions, messages, and selections.

use vstd::prelude::*;

use crate::text;

verus! {

/// Where a session stands.
#[derive(Debug, Clone, Copy, PartialEq, Eq, Hash, Structural)]
pub enum SessionStatus {
    Active,
    InProgress,
    InReview,
    Done,
    Archived,
}

impl Default for SessionStatus {
    fn default() -> (s: SessionStatus)
        ensures
            s == SessionStatus::Active,
    {
        SessionStatus::Active
    }
}

/// The statuses in the order of the board's columns.
pub open spec fn statuses() -> Seq<SessionStatus> {
    seq![
        SessionStatus::Active,
        SessionStatus::InProgress,
        SessionStatus::InReview,
        SessionStatus::Done,
        SessionStatus::Archived,
    ]
}

/// The position of a status in that order.
pub open spec fn index_of_status(status: SessionStatus) -> int {
    match status {
        SessionStatus::Active => 0,
        SessionStatus::InProgress => 1,
        SessionStatus::InReview => 2,
        SessionStatus::Done => 3,
        SessionStatus::Archived => 4,
    }
}

/// The statuses in the order of the board's columns.
pub fn status_order() -> (order: Vec<SessionStatus>)
    ensures
        order@ == statuses(),
{
    vec![
        SessionStatus::Active,
        SessionStatus::InProgress,
        SessionStatus::InReview,
        SessionStatus::Done,
        SessionStatus::Archived,
    ]
}

/// The status of a column, for each of the five columns.
pub fn status_at(column: usize) -> (status: SessionStatus)
    requires
        column < 5,
    ensures
        status == statuses()[column as int],
{
    if column == 0 {
        SessionStatus::Active
    } else if column == 1 {
        SessionStatus::InProgress
    } else if column == 2 {
        SessionStatus::InReview
    } else if column == 3 {
        SessionStatus::Done
    } else {
        SessionStatus::Archived
    }
}

/// The column of a status.
pub fn status_index(status: SessionStatus) -> (column: usize)
    ensures
        column == index_of_status(status),
        column < 5,
        statuses()[column as int] == status,
{
    match status {
        SessionStatus::Active => 0,
        SessionStatus::InProgress => 1,
        SessionStatus::InReview => 2,
        SessionStatus::Done => 3,
        SessionStatus::Archived => 4,
    }
}

/// The word shown for a status.
pub open spec fn status_word(status: SessionStatus) -> Seq<char> {
    match status {
        SessionStatus::Active => "active"@,
        SessionStatus::InProgress => "in_progress"@,
        SessionStatus::InReview => "in_review"@,
        SessionStatus::Done => "done"@,
        SessionStatus::Archived => "archived"@,
    }
}

/// The word shown and stored for a status.
pub fn status_label(status: SessionStatus) -> (word: &'static str)
    ensures
        word@ == status_word(status),
{
    match status {
        SessionStatus::Active => "active",
        SessionStatus::InProgress => "in_progress",
        SessionStatus::InReview => "in_review",
        SessionStatus::Done => "done",
        SessionStatus::Archived => "archived",
    }
}

/// One row of the sidebar.
#[derive(Debug, Clone)]
pub struct SessionListItem {
    pub session_id: String,
    pub display_name: String,
    pub is_active: bool,
    pub is_working: bool,
    pub has_observations: bool,
    /// Microseconds since the epoch.
    pub last_active_at: Option<i64>,
    pub status: SessionStatus,
    pub unresolved_conflict_count: u32,
    pub project: Option<String>,
}

/// What a sidebar row holds.
#[verifier::ext_equal]
pub struct ItemModel {
    pub session_id: Seq<char>,
    pub display_name: Seq<char>,
    pub is_active: bool,
    pub is_working: bool,
    pub has_observations: bool,
    pub last_active_at: Option<i64>,
    pub status: SessionStatus,
    pub unresolved_conflict_count: u32,
    pub project: Option<Seq<char>>,
}

impl View for SessionListItem {
    type V = ItemModel;

    open spec fn view(&self) -> ItemModel {
        ItemModel {
            session_id: self.session_id@,
            display_name: self.display_name@,
            is_active: self.is_active,
            is_working: self.is_working,
            has_observations: self.has_observations,
            last_active_at: self.last_active_at,
            status: self.status,
            unresolved_conflict_count: self.unresolved_conflict_count,
            project: text::opt_view(self.project),
        }
    }
}

impl Default for SessionListItem {
    fn default() -> (item: SessionListItem)
        ensures
            item@ == (ItemModel {
                session_id: Seq::empty(),
                display_name: Seq::empty(),
                is_active: false,
                is_working: false,
                has_observations: false,
                last_active_at: None,
                status: SessionStatus::Active,
                unresolved_conflict_count: 0,
                project: None,
            }),
    {
        SessionListItem {
            session_id: String::new(),
            display_name: String::new(),
            is_active: false,
            is_working: false,
            has_observations: false,
            last_active_at: None,
            status: SessionStatus::Active,
            unresolved_conflict_count: 0,
            project: None,
        }
    }
}

pub fn copy_item(item: &SessionListItem) -> (copy: SessionListItem)
    ensures
        copy@ == item@,
{
    SessionListItem {
        session_id: item.session_id.clone(),
        display_name: item.display_name.clone(),
        is_active: item.is_active,
        is_working: item.is_working,
        has_observations: item.has_observations,
        last_active_at: item.last_active_at,
        status: item.status,
        unresolved_conflict_count: item.unresolved_conflict_count,
        project: text::clone_option(&item.project),
    }
}

/// The rows of a sidebar.
pub open spec fn items_view(v: Seq<SessionListItem>) -> Seq<ItemModel> {
    Seq::new(v.len(), |i: int| v[i]@)
}

/// The first row from `from` on with a given session, or the number of rows.
pub open spec fn find_item(items: Seq<ItemModel>, id: Seq<char>, from: int) -> int
    decreases items.len() - from,
{
    if from < 0 || from >= items.len() {
        items.len() as int
    } else if items[from].session_id == id {
        from
    } else {
        find_item(items, id, from + 1)
    }
}

/// Where two sidebars list the same sessions, a session has the same place in
/// both.
pub proof fn same_ids_same_place(a: Seq<ItemModel>, b: Seq<ItemModel>, id: Seq<char>, from: int)
    requires
        a.len() == b.len(),
        forall|k: int| 0 <= k < a.len() ==> (#[trigger] a[k]).session_id == b[k].session_id,
    ensures
        find_item(a, id, from) == find_item(b, id, from),
    decreases a.len() - from,
{
    if 0 <= from < a.len() {
        assert(a[from].session_id == b[from].session_id);
        if a[from].session_id != id {
            same_ids_same_place(a, b, id, from + 1);
        }
    }
}

/// The position of the first sidebar row with a given session.
pub fn position_of(items: &Vec<SessionListItem>, id: &str) -> (at: Option<usize>)
    ensures
        match at {
            Some(i) => i < items@.len() && i == find_item(items_view(items@), id@, 0),
            None => find_item(items_view(items@), id@, 0) == items@.len(),
        },
{
    let mut i: usize = 0;
    while i < items.len()
        invariant
            i <= items@.len(),
            find_item(items_view(items@), id@, 0) == find_item(items_view(items@), id@, i as int),
        decreases items@.len() - i,
    {
        if text::same_text(items[i].session_id.as_str(), id) {
            return Some(i);
        }
        i += 1;
    }
    None
}

/// One message of a transcript, as the transcript pane shows it.
#[derive(Debug, Clone)]
pub struct CleanedMessage {
    pub uuid: String,
    /// The label in the message's header line.
    pub role_label: String,
    pub text: String,
    pub timestamp: Option<String>,
    /// The transcript row of the message's header line.
    pub line: u16,
}

/// What a transcript message holds.
#[verifier::ext_equal]
pub struct MessageModel {
    pub uuid: Seq<char>,
    pub role_label: Seq<char>,
    pub text: Seq<char>,
    pub timestamp: Option<Seq<char>>,
    pub line: u16,
}

impl View for CleanedMessage {
    type V = MessageModel;

    open spec fn view(&self) -> MessageModel {
        MessageModel {
            uuid: self.uuid@,
            role_label: self.role_label@,
            text: self.text@,
            timestamp: text::opt_view(self.timestamp),
            line: self.line,
        }
    }
}

/// The messages of a transcript.
pub open spec fn messages_view(v: Seq<CleanedMessage>) -> Seq<MessageModel> {
    Seq::new(v.len(), |i: int| v[i]@)
}

/// The transcript row of the first message from `from` on with a given id.
pub open spec fn line_of(messages: Seq<MessageModel>, uuid: Seq<char>, from: int) -> Option<u16>
    decreases messages.len() - from,
{
    if from < 0 || from >= messages.len() {
        None
    } else if messages[from].uuid == uuid {
        Some(messages[from].line)
    } else {
        line_of(messages, uuid, from + 1)
    }
}

/// The transcript row of the first message with a given id.
pub fn message_to_line_index(messages: &Vec<CleanedMessage>, uuid: &str) -> (line: Option<u16>)
    ensures
        line == line_of(messages_view(messages@), uuid@, 0),
{
    let mut i: usize = 0;
    while i < messages.len()
        invariant
            i <= messages@.len(),
            line_of(messages_view(messages@), uuid@, 0) == line_of(
                messages_view(messages@),
                uuid@,
                i as int,
            ),
        decreases messages@.len() - i,
    {
        if text::same_text(messages[i].uuid.as_str(), uuid) {
            return Some(messages[i].line);
        }
        i += 1;
    }
    None
}

/// The messages picked in selection mode: the one under the cursor, and where
/// a range is anchored, those between the two.
#[derive(Debug, Clone, Copy, PartialEq, Eq, Structural)]
pub struct SelectionState {
    pub cursor: usize,
    pub range_start: Option<usize>,
}

impl SelectionState {
    pub open spec fn bounds(self) -> (usize, usize) {
        match self.range_start {
            Some(start) => if start <= self.cursor {
                (start, self.cursor)
            } else {
                (self.cursor, start)
            },
            None => (self.cursor, self.cursor),
        }
    }

    /// The first and the last picked message.
    pub fn range(&self) -> (bounds: (usize, usize))
        ensures
            bounds == self.bounds(),
    {
        match self.range_start {
            Some(start) => {
                if start <= self.cursor {
                    (start, self.cursor)
                } else {
                    (self.cursor, start)
                }
            },
            None => (self.cursor, self.cursor),
        }
    }
}

/// What a row of the painted sidebar stands for.
#[derive(Debug, Clone, Copy, PartialEq, Eq, Structural)]
pub enum SidebarRowKind {
    Header,
    /// The session at this position of the sidebar.
    Session(usize),
}

/// A session is found in its first row, and nowhere where no row has it.
pub proof fn sessions_are_found_first(items: Seq<ItemModel>, id: Seq<char>, from: int)
    requires
        0 <= from <= items.len(),
    ensures
        from <= find_item(items, id, from) <= items.len(),
        forall|k: int|
            from <= k < find_item(items, id, from) ==> (#[trigger] items[k]).session_id != id,
        find_item(items, id, from) < items.len() ==> items[find_item(items, id, from)].session_id
            == id,
    decreases items.len() - from,
{
    if from < items.len() && items[from].session_id != id {
        sessions_are_found_first(items, id, from + 1);
    }
}

/// A message is in the row of the first message with its id, and nowhere where
/// none has it.
pub proof fn messages_are_found_first(messages: Seq<MessageModel>, uuid: Seq<char>, k: int, from: int)
    requires
        0 <= from <= k <= messages.len(),
        forall|i: int| from <= i < k ==> (#[trigger] messages[i]).uuid != uuid,
    ensures
        k < messages.len() && messages[k].uuid == uuid ==> line_of(messages, uuid, from) == Some(
            messages[k].line,
        ),
        k == messages.len() ==> line_of(messages, uuid, from) is None,
    decreases k - from,
{
    if from < k {
        assert(messages[from].uuid != uuid);
        messages_are_found_first(messages, uuid, k, from + 1);
    }
}

/// The picked messages run from the cursor to where the range was anchored,
/// whichever comes first; without an anchor only the one under the cursor is
/// picked.
pub proof fn picks_run_between_cursor_and_anchor(sel: SelectionState)
    ensures
        sel.bounds().0 <= sel.bounds().1,
        sel.range_start is None ==> sel.bounds() == (sel.cursor, sel.cursor),
        sel.range_start matches Some(anchor) ==> (sel.bounds() == (anchor, sel.cursor)
            || sel.bounds() == (sel.cursor, anchor)),
{
}

/// The columns of the board are, from left to right: active, in progress, in
/// review, done, archived. Every status has its own column and its own word.
pub proof fn statuses_have_their_columns(a: SessionStatus, b: SessionStatus)
    ensures
        statuses().len() == 5,
        statuses()[0] == SessionStatus::Active,
        statuses()[1] == SessionStatus::InProgress,
        statuses()[2] == SessionStatus::InReview,
        statuses()[3] == SessionStatus::Done,
        statuses()[4] == SessionStatus::Archived,
        0 <= index_of_status(a) < 5,
        statuses()[index_of_status(a)] == a,
        status_word(a) == status_word(b) ==> a == b,
{
    reveal_strlit("active");
    reveal_strlit("in_progress");
    reveal_strlit("in_review");
    reveal_strlit("done");
    reveal_strlit("archived");
    assert("active"@[1] != "archived"@[1]);
    assert("active"@.len() == 6 && "in_progress"@.len() == 11 && "in_review"@.len() == 9
        && "done"@.len() == 4 && "archived"@.len() == 8);
}

} // verus!
