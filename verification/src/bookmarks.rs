//! The rows of the bookmark browser, gathered from what is stored.

use vstd::prelude::*;

use crate::screens::bookmark_browser;
use crate::screens::bookmark_browser::{BookmarkKind, BookmarkRow, RowModel};
use crate::text;

verus! {

/// The longest line of a message that a bookmark row shows in full.
pub const SNIPPET_MAX: usize = 80;

/// A message on one line, cut behind the 80th character with an ellipsis.
pub open spec fn snippet_of(raw: Seq<char>) -> Seq<char> {
    let cleaned = text::collapse(raw);
    if cleaned.len() > SNIPPET_MAX {
        cleaned.take(SNIPPET_MAX as int).push('…')
    } else {
        cleaned
    }
}

/// A message on one line, cut behind the 80th character with an ellipsis.
pub fn truncate_snippet(raw: &str) -> (out: String)
    ensures
        out@ == snippet_of(raw@),
{
    let cleaned = text::collapse_whitespace(raw);
    let chars = text::chars_of(cleaned.as_str());
    if chars.len() > SNIPPET_MAX {
        let mut out = text::string_of_range(&chars, 0, SNIPPET_MAX);
        out.push('…');
        assert(out@ =~= snippet_of(raw@));
        out
    } else {
        cleaned
    }
}

/// A bookmark as it is stored.
#[derive(Debug, Clone)]
pub struct StoredBookmark {
    pub id: Option<i64>,
    pub message_uuid: String,
    pub kind: BookmarkKind,
    pub note: Option<String>,
    /// Microseconds since the epoch.
    pub created_at: i64,
}

/// A message as it is stored.
#[derive(Debug, Clone)]
pub struct StoredMessage {
    pub uuid: String,
    pub text: String,
}

/// What is stored of one session: its bookmarks and its messages, or nothing
/// where the bookmarks could not be read.
#[derive(Debug, Clone)]
pub struct SessionBookmarks {
    pub bookmarks: Option<Vec<StoredBookmark>>,
    pub messages: Vec<StoredMessage>,
}

/// The line of the first message from `from` on with a given id.
pub open spec fn snippet_for(messages: Seq<StoredMessage>, uuid: Seq<char>, from: int) -> Option<
    Seq<char>,
>
    decreases messages.len() - from,
{
    if from < 0 || from >= messages.len() {
        None
    } else if messages[from].uuid@ == uuid {
        Some(snippet_of(messages[from].text@))
    } else {
        snippet_for(messages, uuid, from + 1)
    }
}

/// The row of a stored bookmark of session `session`.
pub open spec fn row_of(
    session: Seq<char>,
    b: StoredBookmark,
    messages: Seq<StoredMessage>,
) -> RowModel {
    RowModel {
        id: match b.id {
            Some(id) => id,
            None => 0,
        },
        session_id: session,
        message_uuid: b.message_uuid@,
        kind: b.kind,
        note: text::opt_view(b.note),
        snippet: snippet_for(messages, b.message_uuid@, 0),
        created_at: b.created_at,
    }
}

/// The rows of the bookmarks of one session, in stored order.
pub open spec fn session_rows(session: Seq<char>, stored: SessionBookmarks) -> Seq<RowModel> {
    match stored.bookmarks {
        Some(list) => Seq::new(
            list@.len(),
            |i: int| row_of(session, list@[i], stored.messages@),
        ),
        None => Seq::empty(),
    }
}

/// The rows of the first `n` sessions, in sidebar order.
pub open spec fn unsorted_rows(
    sessions: Seq<Seq<char>>,
    stored: Seq<SessionBookmarks>,
    n: int,
) -> Seq<RowModel>
    decreases n,
{
    if n <= 0 {
        Seq::empty()
    } else {
        unsorted_rows(sessions, stored, n - 1) + if n - 1 < stored.len() {
            session_rows(sessions[n - 1], stored[n - 1])
        } else {
            Seq::empty()
        }
    }
}

/// A row put behind all that are at least as new.
pub open spec fn insert_by_age(rows: Seq<RowModel>, row: RowModel) -> Seq<RowModel>
    decreases rows.len(),
{
    if rows.len() == 0 {
        seq![row]
    } else if row.created_at > rows[0].created_at {
        seq![row] + rows
    } else {
        seq![rows[0]] + insert_by_age(rows.skip(1), row)
    }
}

/// The rows with the newest first. Rows of the same age keep their order.
pub open spec fn newest_first(rows: Seq<RowModel>) -> Seq<RowModel>
    decreases rows.len(),
{
    if rows.len() == 0 {
        Seq::empty()
    } else {
        insert_by_age(newest_first(rows.drop_last()), rows.last())
    }
}

fn snippet_in(messages: &Vec<StoredMessage>, uuid: &str) -> (snippet: Option<String>)
    ensures
        text::opt_view(snippet) == snippet_for(messages@, uuid@, 0),
{
    let mut i: usize = 0;
    while i < messages.len()
        invariant
            i <= messages@.len(),
            snippet_for(messages@, uuid@, 0) == snippet_for(messages@, uuid@, i as int),
        decreases messages@.len() - i,
    {
        if text::same_text(messages[i].uuid.as_str(), uuid) {
            return Some(truncate_snippet(messages[i].text.as_str()));
        }
        i += 1;
    }
    None
}

fn insert_row(rows: &mut Vec<BookmarkRow>, row: BookmarkRow)
    ensures
        bookmark_browser::rows_view(final(rows)@) == insert_by_age(
            bookmark_browser::rows_view(old(rows)@),
            row@,
        ),
{
    let ghost before = bookmark_browser::rows_view(rows@);
    let mut at: usize = 0;
    assert(before.skip(0) =~= before);
    assert(before.take(0) + insert_by_age(before, row@) =~= insert_by_age(before, row@));
    while at < rows.len() && !(row.created_at > rows[at].created_at)
        invariant
            at <= rows@.len(),
            *rows == *old(rows),
            before == bookmark_browser::rows_view(rows@),
            insert_by_age(before, row@) == before.take(at as int) + insert_by_age(
                before.skip(at as int),
                row@,
            ),
        decreases rows@.len() - at,
    {
        assert(before[at as int] == rows@[at as int]@);
        assert(before.skip(at as int).skip(1) =~= before.skip(at + 1));
        assert(before.take(at as int) + (seq![before[at as int]] + insert_by_age(
            before.skip(at + 1),
            row@,
        )) =~= before.take(at + 1) + insert_by_age(before.skip(at + 1), row@));
        at += 1;
    }
    if at < rows.len() {
        assert(before[at as int] == rows@[at as int]@);
        assert(insert_by_age(before.skip(at as int), row@) =~= seq![row@] + before.skip(
            at as int,
        ));
    } else {
        assert(before.skip(at as int) =~= Seq::empty());
        assert(insert_by_age(before.skip(at as int), row@) =~= seq![row@] + before.skip(
            at as int,
        ));
    }
    rows.insert(at, row);
    assert(bookmark_browser::rows_view(rows@) =~= before.take(at as int) + (seq![row@]
        + before.skip(at as int)));
}

proof fn newest_first_grows(rows: Seq<RowModel>, row: RowModel)
    ensures
        newest_first(rows.push(row)) == insert_by_age(newest_first(rows), row),
{
    assert(rows.push(row).drop_last() =~= rows);
}

/// The rows of the bookmark browser: the bookmarks of every session, the
/// newest first.
pub fn collect_bookmark_rows(sessions: &Vec<String>, stored: &Vec<SessionBookmarks>) -> (rows: Vec<
    BookmarkRow,
>)
    ensures
        bookmark_browser::rows_view(rows@) == newest_first(
            unsorted_rows(text::views(sessions@), stored@, sessions@.len() as int),
        ),
{
    let mut rows: Vec<BookmarkRow> = Vec::new();
    let ghost ids = text::views(sessions@);
    let mut i: usize = 0;
    assert(bookmark_browser::rows_view(rows@) =~= newest_first(Seq::empty()));
    while i < sessions.len()
        invariant
            i <= sessions@.len(),
            ids == text::views(sessions@),
            bookmark_browser::rows_view(rows@) == newest_first(
                unsorted_rows(ids, stored@, i as int),
            ),
        decreases sessions@.len() - i,
    {
        let ghost flat = unsorted_rows(ids, stored@, i as int);
        if i < stored.len() {
            let ghost added = session_rows(ids[i as int], stored@[i as int]);
            match &stored[i].bookmarks {
                Some(list) => {
                    let mut j: usize = 0;
                    assert(flat + added.take(0) =~= flat);
                    while j < list.len()
                        invariant
                            i < sessions@.len(),
                            i < stored@.len(),
                            j <= list@.len(),
                            ids == text::views(sessions@),
                            stored@[i as int].bookmarks == Some(*list),
                            added == session_rows(ids[i as int], stored@[i as int]),
                            bookmark_browser::rows_view(rows@) == newest_first(
                                flat + added.take(j as int),
                            ),
                        decreases list@.len() - j,
                    {
                        let row = BookmarkRow {
                            id: match list[j].id {
                                Some(id) => id,
                                None => 0,
                            },
                            session_id: sessions[i].clone(),
                            message_uuid: list[j].message_uuid.clone(),
                            kind: list[j].kind,
                            note: text::clone_option(&list[j].note),
                            snippet: snippet_in(
                                &stored[i].messages,
                                list[j].message_uuid.as_str(),
                            ),
                            created_at: list[j].created_at,
                        };
                        assert(row@ == added[j as int]);
                        proof {
                            newest_first_grows(flat + added.take(j as int), row@);
                            assert((flat + added.take(j as int)).push(row@) =~= flat + added.take(
                                j + 1,
                            ));
                        }
                        insert_row(&mut rows, row);
                        j += 1;
                    }
                    assert(added.take(j as int) =~= added);
                },
                None => {
                    assert(flat + added =~= flat);
                },
            }
        } else {
            assert(flat + Seq::<RowModel>::empty() =~= flat);
        }
        i += 1;
    }
    rows
}

/// Whether no row is older than one behind it.
pub open spec fn by_age(rows: Seq<RowModel>) -> bool {
    forall|i: int, j: int|
        0 <= i < j < rows.len() ==> (#[trigger] rows[i]).created_at >= (
        #[trigger] rows[j]).created_at
}

proof fn insert_keeps_order(rows: Seq<RowModel>, row: RowModel)
    requires
        by_age(rows),
    ensures
        by_age(insert_by_age(rows, row)),
        insert_by_age(rows, row).to_multiset() == rows.to_multiset().insert(row),
    decreases rows.len(),
{
    broadcast use vstd::seq_lib::group_to_multiset_ensures;

    let out = insert_by_age(rows, row);
    if rows.len() == 0 {
        assert(out =~= rows.push(row));
    } else if row.created_at > rows[0].created_at {
        assert(out =~= rows.insert(0, row));
        assert(out.to_multiset() =~= rows.to_multiset().insert(row)) by {
            vstd::seq_lib::to_multiset_insert(rows, 0, row);
        }
        assert(forall|i: int| 0 < i < out.len() ==> #[trigger] out[i] == rows[i - 1]);
    } else {
        let tail = rows.skip(1);
        assert(by_age(tail)) by {
            assert forall|i: int, j: int| 0 <= i < j < tail.len() implies (
            #[trigger] tail[i]).created_at >= (#[trigger] tail[j]).created_at by {
                assert(rows[i + 1].created_at >= rows[j + 1].created_at);
            }
        }
        insert_keeps_order(tail, row);
        let rest = insert_by_age(tail, row);
        assert(out =~= rest.insert(0, rows[0]));
        assert(rows =~= tail.insert(0, rows[0]));
        vstd::seq_lib::to_multiset_insert(rest, 0, rows[0]);
        vstd::seq_lib::to_multiset_insert(tail, 0, rows[0]);
        assert(out.to_multiset() =~= rows.to_multiset().insert(row));
        assert forall|i: int, j: int| 0 <= i < j < out.len() implies (
        #[trigger] out[i]).created_at >= (#[trigger] out[j]).created_at by {
            assert(out[j] == rest[j - 1]);
            if i == 0 {
                assert(rest.to_multiset().count(rest[j - 1]) > 0);
                if rest[j - 1] != row {
                    assert(tail.to_multiset().count(rest[j - 1]) > 0);
                    assert(tail.contains(rest[j - 1]));
                    let k = tail.index_of(rest[j - 1]);
                    assert(rows[0].created_at >= rows[k + 1].created_at);
                }
            } else {
                assert(out[i] == rest[i - 1]);
            }
        }
    }
}

/// The browser shows every bookmark exactly once, the newest first.
pub proof fn rows_are_sorted_and_kept(rows: Seq<RowModel>)
    ensures
        by_age(newest_first(rows)),
        newest_first(rows).to_multiset() == rows.to_multiset(),
    decreases rows.len(),
{
    broadcast use vstd::seq_lib::group_to_multiset_ensures;

    if rows.len() == 0 {
        assert(newest_first(rows) =~= rows);
    } else {
        let shorter = rows.drop_last();
        rows_are_sorted_and_kept(shorter);
        insert_keeps_order(newest_first(shorter), rows.last());
        assert(rows =~= shorter.push(rows.last()));
        assert(newest_first(rows).to_multiset() =~= rows.to_multiset());
    }
}

/// A snippet is one tidy line of at most 81 characters, and cutting it again
/// changes nothing.
pub proof fn snippets_are_cut_once(raw: Seq<char>)
    ensures
        text::is_tidy(snippet_of(raw)),
        snippet_of(raw).len() <= SNIPPET_MAX + 1,
        snippet_of(snippet_of(raw)) == snippet_of(raw),
{
    let whole = text::collapse(raw);
    let cut = snippet_of(raw);
    text::collapsed_texts_are_tidy(raw);
    if whole.len() > SNIPPET_MAX {
        let head = whole.take(SNIPPET_MAX as int);
        assert forall|i: int| 0 <= i < cut.len() && text::is_space(#[trigger] cut[i]) implies cut[i]
            == ' ' && 0 < i && i + 1 < cut.len() && !text::is_space(cut[i + 1]) by {
            if i < SNIPPET_MAX {
                assert(cut[i] == whole[i]);
                if i + 1 < SNIPPET_MAX {
                    assert(cut[i + 1] == whole[i + 1]);
                }
            }
        }
        text::tidy_texts_stay(cut);
        assert(cut.take(SNIPPET_MAX as int) =~= head);
    } else {
        text::tidy_texts_stay(cut);
    }
}

/// A message that fits on its line is shown in full, as one tidy line with every
/// character but white space; a longer one is cut behind its eightieth
/// character, and an ellipsis tells so.
pub proof fn snippets_show_the_message(raw: Seq<char>)
    ensures
        ({
            let line = text::collapse(raw);
            let shown = snippet_of(raw);
            &&& line.len() <= 80 ==> shown == line && text::solid(shown) == text::solid(raw)
            &&& line.len() > 80 ==> shown.len() == 81 && shown.last() == '…' && forall|i: int|
                0 <= i < 80 ==> #[trigger] shown[i] == line[i]
        }),
{
    text::collapsing_keeps_the_rest(raw);
}

proof fn snippets_come_from_the_first(
    messages: Seq<StoredMessage>,
    uuid: Seq<char>,
    k: int,
    from: int,
)
    requires
        0 <= from <= k <= messages.len(),
        forall|i: int| from <= i < k ==> (#[trigger] messages[i]).uuid@ != uuid,
    ensures
        k < messages.len() && messages[k].uuid@ == uuid ==> snippet_for(messages, uuid, from)
            == Some(snippet_of(messages[k].text@)),
        k == messages.len() ==> snippet_for(messages, uuid, from) is None,
    decreases k - from,
{
    if from < k {
        assert(messages[from].uuid@ != uuid);
        snippets_come_from_the_first(messages, uuid, k, from + 1);
    }
}

/// A row shows its bookmark: the session it is of, the message it pins, what it
/// was set for, its note and its age, and a line of the message where that is
/// stored.
pub proof fn rows_show_their_bookmark(
    session: Seq<char>,
    b: StoredBookmark,
    messages: Seq<StoredMessage>,
    k: int,
)
    requires
        0 <= k <= messages.len(),
        forall|i: int| 0 <= i < k ==> (#[trigger] messages[i]).uuid@ != b.message_uuid@,
    ensures
        ({
            let row = row_of(session, b, messages);
            &&& row.session_id == session
            &&& row.message_uuid == b.message_uuid@
            &&& row.kind == b.kind
            &&& row.note == text::opt_view(b.note)
            &&& row.created_at == b.created_at
            &&& b.id matches Some(id) ==> row.id == id
            &&& b.id is None ==> row.id == 0
            &&& k < messages.len() && messages[k].uuid@ == b.message_uuid@ ==> row.snippet == Some(
                snippet_of(messages[k].text@),
            )
            &&& k == messages.len() ==> row.snippet is None
        }),
{
    snippets_come_from_the_first(messages, b.message_uuid@, k, 0);
}

/// Every stored bookmark of every session has its row, and there are no others.
pub proof fn every_bookmark_has_its_row(
    sessions: Seq<Seq<char>>,
    stored: Seq<SessionBookmarks>,
    n: int,
    row: RowModel,
)
    requires
        0 <= n <= sessions.len(),
        n <= stored.len(),
    ensures
        unsorted_rows(sessions, stored, n).contains(row) <==> exists|s: int, i: int|
            0 <= s < n && stored[s].bookmarks is Some && 0 <= i
                < stored[s].bookmarks.unwrap()@.len() && row == #[trigger] row_of(
                sessions[s],
                stored[s].bookmarks.unwrap()@[i],
                stored[s].messages@,
            ),
    decreases n,
{
    if n > 0 {
        every_bookmark_has_its_row(sessions, stored, n - 1, row);
        let before = unsorted_rows(sessions, stored, n - 1);
        let own = session_rows(sessions[n - 1], stored[n - 1]);
        let all = unsorted_rows(sessions, stored, n);
        if all.contains(row) {
            let at = all.index_of(row);
            if at < before.len() {
                assert(before[at] == row);
            } else {
                let i = at - before.len();
                assert(own[i] == row);
                assert(row == row_of(
                    sessions[n - 1],
                    stored[n - 1].bookmarks.unwrap()@[i],
                    stored[n - 1].messages@,
                ));
            }
        }
        if exists|s: int, i: int|
            0 <= s < n && stored[s].bookmarks is Some && 0 <= i
                < stored[s].bookmarks.unwrap()@.len() && row == #[trigger] row_of(
                sessions[s],
                stored[s].bookmarks.unwrap()@[i],
                stored[s].messages@,
            ) {
            let (s, i) = choose|s: int, i: int|
                0 <= s < n && stored[s].bookmarks is Some && 0 <= i
                    < stored[s].bookmarks.unwrap()@.len() && row == #[trigger] row_of(
                    sessions[s],
                    stored[s].bookmarks.unwrap()@[i],
                    stored[s].messages@,
                );
            if s == n - 1 {
                assert(own[i] == row);
                assert(all[before.len() + i] == row);
            } else {
                assert(before.contains(row));
                assert(all[before.index_of(row)] == row);
            }
        }
    } else {
        assert(unsorted_rows(sessions, stored, n) =~= Seq::empty());
    }
}

/// The rows of one age.
pub open spec fn of_age(rows: Seq<RowModel>, age: i64) -> Seq<RowModel>
    decreases rows.len(),
{
    if rows.len() == 0 {
        rows
    } else if rows[0].created_at == age {
        seq![rows[0]] + of_age(rows.skip(1), age)
    } else {
        of_age(rows.skip(1), age)
    }
}

proof fn inserted_behind_its_age(rows: Seq<RowModel>, row: RowModel, age: i64)
    requires
        by_age(rows),
    ensures
        of_age(insert_by_age(rows, row), age) == if row.created_at == age {
            of_age(rows, age).push(row)
        } else {
            of_age(rows, age)
        },
    decreases rows.len(),
{
    reveal_with_fuel(of_age, 2);
    if rows.len() == 0 {
        assert(seq![row].skip(1) =~= Seq::<RowModel>::empty());
        assert(of_age(seq![row], age) =~= if row.created_at == age {
            seq![row]
        } else {
            Seq::<RowModel>::empty()
        });
    } else if row.created_at > rows[0].created_at {
        assert((seq![row] + rows).skip(1) =~= rows);
        if row.created_at == age {
            younger_ages_are_empty(rows, age);
            assert(seq![row] + of_age(rows, age) =~= of_age(rows, age).push(row));
        }
    } else {
        let rest = rows.skip(1);
        assert(by_age(rest)) by {
            assert forall|i: int, j: int| 0 <= i < j < rest.len() implies (
            #[trigger] rest[i]).created_at >= (#[trigger] rest[j]).created_at by {
                assert(rest[i] == rows[i + 1] && rest[j] == rows[j + 1]);
            }
        }
        inserted_behind_its_age(rest, row, age);
        let all = seq![rows[0]] + insert_by_age(rest, row);
        assert(all.skip(1) =~= insert_by_age(rest, row));
        assert(of_age(all, age) =~= if row.created_at == age {
            of_age(rows, age).push(row)
        } else {
            of_age(rows, age)
        });
    }
}

proof fn younger_ages_are_empty(rows: Seq<RowModel>, age: i64)
    requires
        by_age(rows),
        rows.len() > 0 ==> age > rows[0].created_at,
    ensures
        of_age(rows, age).len() == 0,
    decreases rows.len(),
{
    if rows.len() > 0 {
        let rest = rows.skip(1);
        assert forall|i: int, j: int| 0 <= i < j < rest.len() implies (
        #[trigger] rest[i]).created_at >= (#[trigger] rest[j]).created_at by {
            assert(rest[i] == rows[i + 1] && rest[j] == rows[j + 1]);
        }
        if rest.len() > 0 {
            assert(rows[0].created_at >= rows[1].created_at);
        }
        younger_ages_are_empty(rest, age);
    }
}

proof fn of_age_grows(rows: Seq<RowModel>, row: RowModel, age: i64)
    ensures
        of_age(rows.push(row), age) == if row.created_at == age {
            of_age(rows, age).push(row)
        } else {
            of_age(rows, age)
        },
    decreases rows.len(),
{
    reveal_with_fuel(of_age, 2);
    let all = rows.push(row);
    if rows.len() == 0 {
        assert(all.skip(1) =~= Seq::<RowModel>::empty());
        assert(of_age(all, age) =~= if row.created_at == age {
            of_age(rows, age).push(row)
        } else {
            of_age(rows, age)
        });
    } else {
        of_age_grows(rows.skip(1), row, age);
        assert(all.skip(1) =~= rows.skip(1).push(row));
        assert(of_age(all, age) =~= if row.created_at == age {
            of_age(rows, age).push(row)
        } else {
            of_age(rows, age)
        });
    }
}

/// Bookmarks of the same age stay in the order of their sessions.
pub proof fn same_ages_keep_their_order(rows: Seq<RowModel>, age: i64)
    ensures
        of_age(newest_first(rows), age) == of_age(rows, age),
    decreases rows.len(),
{
    if rows.len() > 0 {
        let front = rows.drop_last();
        same_ages_keep_their_order(front, age);
        rows_are_sorted_and_kept(front);
        inserted_behind_its_age(newest_first(front), rows.last(), age);
        of_age_grows(front, rows.last(), age);
        assert(front.push(rows.last()) =~= rows);
    }
}

} // verus!
