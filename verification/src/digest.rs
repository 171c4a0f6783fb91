//! What is known of the sessions for the digest: their open todos, and whether
//! they have bookmarks.

use vstd::prelude::*;
use vstd::string::*;

use crate::text;

verus! {

/// What was observed of a session, in numbers.
#[derive(Debug, Clone, PartialEq, Eq)]
pub struct DigestSummary {
    pub session_id: String,
    pub open_todo_count: u32,
}

#[verifier::ext_equal]
pub struct SummaryModel {
    pub session_id: Seq<char>,
    pub open_todo_count: u32,
}

impl View for DigestSummary {
    type V = SummaryModel;

    open spec fn view(&self) -> SummaryModel {
        SummaryModel { session_id: self.session_id@, open_todo_count: self.open_todo_count }
    }
}

pub open spec fn summaries_view(v: Seq<DigestSummary>) -> Seq<SummaryModel> {
    Seq::new(v.len(), |i: int| v[i]@)
}

/// The open todos of a session, as far as they are known from `from` on.
pub open spec fn todos_from(summaries: Seq<SummaryModel>, id: Seq<char>, from: int) -> Option<u32>
    decreases summaries.len() - from,
{
    if from < 0 || from >= summaries.len() {
        None
    } else if summaries[from].session_id == id {
        Some(summaries[from].open_todo_count)
    } else {
        todos_from(summaries, id, from + 1)
    }
}

/// The open todos of a session, where they are known.
pub open spec fn todos_of(summaries: Seq<SummaryModel>, id: Seq<char>) -> Option<u32> {
    todos_from(summaries, id, 0)
}

/// The open todos of a session, where they are known.
pub fn find_todos(summaries: &Vec<DigestSummary>, id: &str) -> (todos: Option<u32>)
    ensures
        todos == todos_of(summaries_view(summaries@), id@),
{
    let mut i: usize = 0;
    while i < summaries.len()
        invariant
            i <= summaries@.len(),
            todos_of(summaries_view(summaries@), id@) == todos_from(
                summaries_view(summaries@),
                id@,
                i as int,
            ),
        decreases summaries@.len() - i,
    {
        if text::same_text(summaries[i].session_id.as_str(), id) {
            return Some(summaries[i].open_todo_count);
        }
        i += 1;
    }
    None
}

/// The summaries of the other sessions.
pub open spec fn summaries_without(summaries: Seq<SummaryModel>, id: Seq<char>) -> Seq<SummaryModel>
    decreases summaries.len(),
{
    if summaries.len() == 0 {
        summaries
    } else {
        let before = summaries_without(summaries.drop_last(), id);
        if summaries.last().session_id == id {
            before
        } else {
            before.push(summaries.last())
        }
    }
}

/// The summaries with this one for a session, or with none.
pub open spec fn with_summary(
    summaries: Seq<SummaryModel>,
    id: Seq<char>,
    todos: Option<u32>,
) -> Seq<SummaryModel> {
    let others = summaries_without(summaries, id);
    match todos {
        Some(n) => others.push(SummaryModel { session_id: id, open_todo_count: n }),
        None => others,
    }
}

/// Notes the open todos of a session in place of what was known of them.
pub fn note_todos(summaries: &Vec<DigestSummary>, id: &str, todos: Option<u32>) -> (out: Vec<
    DigestSummary,
>)
    ensures
        summaries_view(out@) == with_summary(summaries_view(summaries@), id@, todos),
{
    let mut out: Vec<DigestSummary> = Vec::new();
    let ghost all = summaries_view(summaries@);
    let mut i: usize = 0;
    assert(summaries_view(out@) =~= summaries_without(all.take(0), id@));
    while i < summaries.len()
        invariant
            i <= summaries@.len(),
            all == summaries_view(summaries@),
            summaries_view(out@) == summaries_without(all.take(i as int), id@),
        decreases summaries@.len() - i,
    {
        let ghost before = summaries_view(out@);
        assert(all.take(i + 1).drop_last() =~= all.take(i as int));
        assert(all.take(i + 1).last() == summaries@[i as int]@);
        if !text::same_text(summaries[i].session_id.as_str(), id) {
            out.push(
                DigestSummary {
                    session_id: summaries[i].session_id.clone(),
                    open_todo_count: summaries[i].open_todo_count,
                },
            );
            assert(summaries_view(out@) =~= before.push(all[i as int]));
        }
        i += 1;
    }
    assert(all.take(i as int) =~= all);
    if let Some(n) = todos {
        let ghost before = summaries_view(out@);
        out.push(DigestSummary { session_id: id.to_owned(), open_todo_count: n });
        assert(summaries_view(out@) =~= before.push(
            SummaryModel { session_id: id@, open_todo_count: n },
        ));
    }
    out
}

/// The other sessions.
pub open spec fn sessions_without(sessions: Seq<Seq<char>>, id: Seq<char>) -> Seq<Seq<char>>
    decreases sessions.len(),
{
    if sessions.len() == 0 {
        sessions
    } else {
        let before = sessions_without(sessions.drop_last(), id);
        if sessions.last() == id {
            before
        } else {
            before.push(sessions.last())
        }
    }
}

/// The sessions with a bookmark, with or without this one.
pub open spec fn with_mark(sessions: Seq<Seq<char>>, id: Seq<char>, marked: bool) -> Seq<Seq<char>> {
    let others = sessions_without(sessions, id);
    if marked {
        others.push(id)
    } else {
        others
    }
}

/// Notes whether a session has a bookmark.
pub fn note_mark(sessions: &Vec<String>, id: &str, marked: bool) -> (out: Vec<String>)
    ensures
        text::views(out@) == with_mark(text::views(sessions@), id@, marked),
{
    let mut out: Vec<String> = Vec::new();
    let ghost all = text::views(sessions@);
    let mut i: usize = 0;
    assert(text::views(out@) =~= sessions_without(all.take(0), id@));
    while i < sessions.len()
        invariant
            i <= sessions@.len(),
            all == text::views(sessions@),
            text::views(out@) == sessions_without(all.take(i as int), id@),
        decreases sessions@.len() - i,
    {
        let ghost before = text::views(out@);
        assert(all.take(i + 1).drop_last() =~= all.take(i as int));
        assert(all.take(i + 1).last() == sessions@[i as int]@);
        if !text::same_text(sessions[i].as_str(), id) {
            out.push(sessions[i].clone());
            assert(text::views(out@) =~= before.push(all[i as int]));
        }
        i += 1;
    }
    assert(all.take(i as int) =~= all);
    if marked {
        let ghost before = text::views(out@);
        out.push(id.to_owned());
        assert(text::views(out@) =~= before.push(id@));
    }
    out
}

/// Whether a session is among those with a bookmark.
pub fn is_marked(sessions: &Vec<String>, id: &str) -> (yes: bool)
    ensures
        yes == text::views(sessions@).contains(id@),
{
    let ghost all = text::views(sessions@);
    let mut i: usize = 0;
    while i < sessions.len()
        invariant
            i <= sessions@.len(),
            all == text::views(sessions@),
            forall|k: int| 0 <= k < i ==> #[trigger] all[k] != id@,
        decreases sessions@.len() - i,
    {
        assert(all[i as int] == sessions@[i as int]@);
        if text::same_text(sessions[i].as_str(), id) {
            return true;
        }
        i += 1;
    }
    false
}

proof fn absent_todos(summaries: Seq<SummaryModel>, id: Seq<char>, from: int)
    requires
        0 <= from,
        forall|k: int| 0 <= k < summaries.len() ==> (#[trigger] summaries[k]).session_id != id,
    ensures
        todos_from(summaries, id, from) is None,
    decreases summaries.len() - from,
{
    if from < summaries.len() {
        assert(summaries[from].session_id != id);
        absent_todos(summaries, id, from + 1);
    }
}

proof fn appended_todos(summaries: Seq<SummaryModel>, last: SummaryModel, id: Seq<char>, from: int)
    requires
        0 <= from <= summaries.len(),
    ensures
        todos_from(summaries.push(last), id, from) == match todos_from(summaries, id, from) {
            Some(n) => Some(n),
            None => if last.session_id == id {
                Some(last.open_todo_count)
            } else {
                None
            },
        },
    decreases summaries.len() - from,
{
    let longer = summaries.push(last);
    if from < summaries.len() {
        assert(longer[from] == summaries[from]);
        appended_todos(summaries, last, id, from + 1);
    } else {
        assert(longer[from] == last);
        assert(todos_from(longer, id, from + 1) is None);
    }
}

proof fn without_todos(summaries: Seq<SummaryModel>, id: Seq<char>, other: Seq<char>)
    ensures
        forall|k: int|
            0 <= k < summaries_without(summaries, id).len() ==> (#[trigger] summaries_without(
                summaries,
                id,
            )[k]).session_id != id,
        other != id ==> todos_of(summaries_without(summaries, id), other) == todos_of(
            summaries,
            other,
        ),
    decreases summaries.len(),
{
    if summaries.len() > 0 {
        let shorter = summaries.drop_last();
        without_todos(shorter, id, other);
        assert(shorter.push(summaries.last()) =~= summaries);
        appended_todos(shorter, summaries.last(), other, 0);
        appended_todos(summaries_without(shorter, id), summaries.last(), other, 0);
    }
}

/// What was noted of a session's todos is found again, and what is known of
/// the others stays.
pub proof fn noted_todos_are_found(
    summaries: Seq<SummaryModel>,
    id: Seq<char>,
    todos: Option<u32>,
    other: Seq<char>,
)
    ensures
        todos_of(with_summary(summaries, id, todos), id) == todos,
        other != id ==> todos_of(with_summary(summaries, id, todos), other) == todos_of(
            summaries,
            other,
        ),
{
    let others = summaries_without(summaries, id);
    without_todos(summaries, id, other);
    absent_todos(others, id, 0);
    if let Some(n) = todos {
        let last = SummaryModel { session_id: id, open_todo_count: n };
        appended_todos(others, last, id, 0);
        appended_todos(others, last, other, 0);
    }
}

proof fn without_session(sessions: Seq<Seq<char>>, id: Seq<char>, other: Seq<char>)
    ensures
        sessions_without(sessions, id).contains(other) <==> other != id && sessions.contains(other),
    decreases sessions.len(),
{
    if sessions.len() > 0 {
        let shorter = sessions.drop_last();
        let last = sessions.last();
        let before = sessions_without(shorter, id);
        let after = sessions_without(sessions, id);
        without_session(shorter, id, other);
        if sessions.contains(other) {
            let i = sessions.index_of(other);
            if i < shorter.len() {
                assert(shorter[i] == other);
                assert(shorter.contains(other));
            }
        }
        if shorter.contains(other) {
            assert(sessions[shorter.index_of(other)] == other);
        }
        assert(sessions[sessions.len() - 1] == last);
        if before.contains(other) {
            assert(after[before.index_of(other)] == other);
        }
        if last != id {
            assert(after[before.len() as int] == last);
        }
        if after.contains(other) {
            let i = after.index_of(other);
            if i < before.len() {
                assert(before[i] == other);
                assert(before.contains(other));
            }
        }
    }
}

/// A session is marked after it was noted as such and not otherwise, and the
/// others stay as they were.
pub proof fn noted_marks_are_found(
    sessions: Seq<Seq<char>>,
    id: Seq<char>,
    marked: bool,
    other: Seq<char>,
)
    ensures
        with_mark(sessions, id, marked).contains(id) == marked,
        other != id ==> with_mark(sessions, id, marked).contains(other) == sessions.contains(other),
{
    let others = sessions_without(sessions, id);
    let after = with_mark(sessions, id, marked);
    without_session(sessions, id, id);
    without_session(sessions, id, other);
    if marked {
        assert(after[others.len() as int] == id);
        if others.contains(other) {
            assert(after[others.index_of(other)] == other);
        }
        if after.contains(other) && other != id {
            let i = after.index_of(other);
            assert(others[i] == other);
        }
    }
}

} // verus!
