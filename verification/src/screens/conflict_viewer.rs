//! The conflict viewer: decisions that contradict each other across sessions.

use vstd::prelude::*;

use crate::conflicts;
use crate::conflicts::{ConflictModel, ConflictRow};
use crate::keys::{KeyCode, KeyEvent, KeyEventKind, KeyModifiers};
use crate::screens::bookmark_browser;
use crate::screens::bookmark_browser::ListKey;
use crate::ui;
use crate::ui::Rect;

verus! {

/// The viewer: its rows, the one under the cursor, and whether reviewed rows
/// are listed too.
#[derive(Debug, Clone)]
pub struct State {
    pub conflicts: Vec<ConflictRow>,
    /// Counts the rows that are listed.
    pub selected_index: usize,
    pub show_resolved: bool,
}

/// What the viewer holds.
#[verifier::ext_equal]
pub struct ViewerModel {
    pub rows: Seq<ConflictModel>,
    pub selected: int,
    pub show_resolved: bool,
}

impl View for State {
    type V = ViewerModel;

    open spec fn view(&self) -> ViewerModel {
        ViewerModel {
            rows: conflicts::conflicts_view(self.conflicts@),
            selected: self.selected_index as int,
            show_resolved: self.show_resolved,
        }
    }
}

/// The rows that are listed: all of them, or those not reviewed.
pub open spec fn listed(rows: Seq<ConflictModel>, show_resolved: bool) -> Seq<ConflictModel>
    decreases rows.len(),
{
    if rows.len() == 0 {
        Seq::empty()
    } else {
        let before = listed(rows.drop_last(), show_resolved);
        if show_resolved || !rows.last().reviewed {
            before.push(rows.last())
        } else {
            before
        }
    }
}

impl ViewerModel {
    pub open spec fn visible(self) -> Seq<ConflictModel> {
        listed(self.rows, self.show_resolved)
    }

    /// The viewer with its cursor moved back onto the last row listed where it
    /// was beyond it.
    pub open spec fn clamped(self) -> ViewerModel {
        ViewerModel {
            selected: bookmark_browser::on_a_row(self.selected, self.visible().len() as int),
            ..self
        }
    }
}

pub open spec fn borrowed_view(v: Seq<&ConflictRow>) -> Seq<ConflictModel> {
    Seq::new(v.len(), |i: int| (*v[i])@)
}

impl State {
    /// A viewer without rows that lists what is not reviewed.
    pub fn new() -> (state: State)
        ensures
            state@ == (ViewerModel { rows: Seq::empty(), selected: 0, show_resolved: false }),
    {
        let state = State { conflicts: Vec::new(), selected_index: 0, show_resolved: false };
        assert(state@.rows =~= Seq::empty());
        state
    }

    /// The rows that are listed.
    pub fn visible_conflicts(&self) -> (out: Vec<&ConflictRow>)
        ensures
            borrowed_view(out@) == self@.visible(),
            out@.len() == self@.visible().len(),
    {
        let mut out: Vec<&ConflictRow> = Vec::new();
        let ghost rows = self@.rows;
        let mut i: usize = 0;
        assert(borrowed_view(out@) =~= listed(rows.take(0), self.show_resolved));
        while i < self.conflicts.len()
            invariant
                i <= self.conflicts@.len(),
                rows == conflicts::conflicts_view(self.conflicts@),
                borrowed_view(out@) == listed(rows.take(i as int), self.show_resolved),
            decreases self.conflicts@.len() - i,
        {
            let ghost longer = rows.take(i + 1);
            let ghost before = borrowed_view(out@);
            assert(longer.drop_last() =~= rows.take(i as int));
            assert(longer.last() == self.conflicts@[i as int]@);
            if self.show_resolved || !self.conflicts[i].reviewed {
                out.push(&self.conflicts[i]);
                assert(borrowed_view(out@) =~= before.push(longer.last()));
            }
            i += 1;
        }
        assert(rows.take(i as int) =~= rows);
        assert(out@.len() == borrowed_view(out@).len());
        out
    }

    fn clamp_selection(&mut self)
        ensures
            final(self)@ == old(self)@.clamped(),
    {
        let len: usize = self.visible_conflicts().len();
        if len == 0 {
            self.selected_index = 0;
        } else if self.selected_index >= len {
            self.selected_index = len - 1;
        }
    }

    /// Replaces the rows. The cursor stays where it is, or goes to the last
    /// row listed where there are fewer now.
    pub fn set_conflicts(&mut self, rows: Vec<ConflictRow>)
        ensures
            final(self)@ == (ViewerModel {
                rows: conflicts::conflicts_view(rows@),
                ..old(self)@
            }).clamped(),
    {
        self.conflicts = rows;
        self.clamp_selection();
    }
}

/// What the viewer hands back to the application.
#[derive(Debug, Clone, PartialEq, Eq)]
pub enum ConflictViewerResult {
    Cancelled,
    JumpToSession { session_id: String },
    MarkResolved { conflict_id: i64 },
}

pub enum ViewerOutcome {
    Cancelled,
    JumpToSession { session_id: Seq<char> },
    MarkResolved { conflict_id: i64 },
}

impl View for ConflictViewerResult {
    type V = ViewerOutcome;

    open spec fn view(&self) -> ViewerOutcome {
        match *self {
            ConflictViewerResult::Cancelled => ViewerOutcome::Cancelled,
            ConflictViewerResult::JumpToSession { session_id } => ViewerOutcome::JumpToSession {
                session_id: session_id@,
            },
            ConflictViewerResult::MarkResolved { conflict_id } => ViewerOutcome::MarkResolved {
                conflict_id,
            },
        }
    }
}

pub open spec fn outcome_view(r: Option<ConflictViewerResult>) -> Option<ViewerOutcome> {
    match r {
        Some(x) => Some(x@),
        None => None,
    }
}

/// The viewer after a key, and what it hands back. Enter goes to the session
/// that noted the conflict, `r` marks the conflict as resolved, and `t` lists
/// or hides the reviewed ones.
#[verifier::opaque]
pub open spec fn viewer_step(v: ViewerModel, ev: KeyEvent) -> (ViewerModel, Option<ViewerOutcome>) {
    let rows = v.visible();
    match bookmark_browser::list_key(ev) {
        ListKey::Close => (v, Some(ViewerOutcome::Cancelled)),
        ListKey::Open => if v.selected < rows.len() && rows[v.selected].session_ids.len() > 0 {
            (
                v,
                Some(
                    ViewerOutcome::JumpToSession { session_id: rows[v.selected].session_ids[0] },
                ),
            )
        } else {
            (v, None)
        },
        ListKey::Next => if v.selected + 1 < rows.len() {
            (ViewerModel { selected: v.selected + 1, ..v }, None)
        } else {
            (v, None)
        },
        ListKey::Prev => if v.selected > 0 {
            (ViewerModel { selected: v.selected - 1, ..v }, None)
        } else {
            (v, None)
        },
        ListKey::Letter(c) => if c == 'r' && v.selected < rows.len() {
            (v, Some(ViewerOutcome::MarkResolved { conflict_id: rows[v.selected].id }))
        } else if c == 't' {
            (ViewerModel { show_resolved: !v.show_resolved, ..v }.clamped(), None)
        } else {
            (v, None)
        },
        ListKey::Nothing => (v, None),
    }
}

/// Handles one key. Something is handed back where the application has to act:
/// close the viewer, go to a session, or mark a conflict as resolved.
pub fn handle_key(state: &mut State, key: KeyEvent) -> (result: Option<ConflictViewerResult>)
    ensures
        (final(state)@, outcome_view(result)) == viewer_step(old(state)@, key),
{
    proof {
        reveal(viewer_step);
    }
    let asked = bookmark_browser::read_list_key(key);
    let rows = state.visible_conflicts();
    let len: usize = rows.len();
    let at: usize = state.selected_index;
    proof {
        if at < len {
            assert(borrowed_view(rows@)[at as int] == (*rows@[at as int])@);
        }
    }
    match asked {
        ListKey::Close => Some(ConflictViewerResult::Cancelled),
        ListKey::Open => {
            if at < len && rows[at].session_ids.len() > 0 {
                Some(
                    ConflictViewerResult::JumpToSession {
                        session_id: rows[at].session_ids[0].clone(),
                    },
                )
            } else {
                None
            }
        },
        ListKey::Next => {
            if at < len && at + 1 < len {
                state.selected_index = at + 1;
            }
            None
        },
        ListKey::Prev => {
            if at > 0 {
                state.selected_index = at - 1;
            }
            None
        },
        ListKey::Letter(c) => {
            if c == 'r' && at < len {
                let conflict_id: i64 = rows[at].id;
                Some(ConflictViewerResult::MarkResolved { conflict_id })
            } else {
                if c == 't' {
                    state.show_resolved = !state.show_resolved;
                    state.clamp_selection();
                }
                None
            }
        },
        ListKey::Nothing => None,
    }
}

/// The popup rectangle of the viewer.
pub fn centered_rect(pct_w: u16, pct_h: u16, parent: Rect) -> (rect: Rect)
    requires
        parent.x + ui::minus(parent.width, ui::share(parent.width, pct_w) as int) / 2 <= u16::MAX,
        parent.y + ui::minus(parent.height, ui::share(parent.height, pct_h) as int) / 2 <= u16::MAX,
    ensures
        rect == ui::centered(pct_w, pct_h, parent),
{
    ui::centered_rect(pct_w, pct_h, parent)
}

/// No key changes the conflicts, and two presses of `t` list what was listed.
pub proof fn keys_keep_the_conflicts(v: ViewerModel, ev: KeyEvent)
    ensures
        viewer_step(v, ev).0.rows == v.rows,
        bookmark_browser::list_key(ev) == ListKey::Letter('t') ==> viewer_step(
            viewer_step(v, ev).0,
            ev,
        ).0.visible() == v.visible(),
{
    reveal(viewer_step);
}

/// A released key leaves the viewer alone.
pub proof fn releases_are_ignored(v: ViewerModel, ev: KeyEvent)
    requires
        ev.kind == KeyEventKind::Release,
    ensures
        viewer_step(v, ev) == (v, None::<ViewerOutcome>),
{
    reveal(viewer_step);
}

/// The viewer lists every conflict, or every one that is not reviewed, in the
/// order they came in: where the conflicts are made of two lists, what is shown
/// is what is shown of each, one behind the other.
pub proof fn lists_keep_the_order(
    a: Seq<ConflictModel>,
    b: Seq<ConflictModel>,
    row: ConflictModel,
    show_resolved: bool,
)
    ensures
        listed(a + b, show_resolved) == listed(a, show_resolved) + listed(b, show_resolved),
        listed(a, true) == a,
        listed(seq![row], false) == if row.reviewed {
            Seq::empty()
        } else {
            seq![row]
        },
    decreases a.len() + b.len(),
{
    reveal_with_fuel(listed, 2);
    assert(seq![row].drop_last() =~= Seq::<ConflictModel>::empty());
    assert(Seq::<ConflictModel>::empty().push(row) =~= seq![row]);
    if a.len() > 0 {
        lists_keep_the_order(a.drop_last(), Seq::empty(), row, show_resolved);
        assert(a.drop_last().push(a.last()) =~= a);
    } else {
        assert(listed(a, true) =~= a);
    }
    if b.len() == 0 {
        assert(a + b =~= a);
        assert(listed(a, show_resolved) + listed(b, show_resolved) =~= listed(a, show_resolved));
    } else {
        lists_keep_the_order(a, b.drop_last(), row, show_resolved);
        assert((a + b).drop_last() =~= a + b.drop_last());
        assert(listed(a + b, show_resolved) =~= listed(a, show_resolved) + listed(
            b,
            show_resolved,
        ));
    }
}

/// Enter goes to the session that noted the conflict under the cursor, and `r`
/// has that conflict marked as resolved; the viewer stays as it is.
pub proof fn keys_act_on_the_conflict(v: ViewerModel, ev: KeyEvent)
    requires
        0 <= v.selected < listed(v.rows, v.show_resolved).len(),
        ev.kind != KeyEventKind::Release,
    ensures
        ({
            let row = listed(v.rows, v.show_resolved)[v.selected];
            let (after, outcome) = viewer_step(v, ev);
            &&& ev.code == KeyCode::Enter && row.session_ids.len() > 0 ==> after == v && outcome
                == Some(ViewerOutcome::JumpToSession { session_id: row.session_ids[0] })
            &&& ev.code == KeyCode::Char('r') && ev.modifiers == KeyModifiers::none() ==> after == v
                && outcome == Some(ViewerOutcome::MarkResolved { conflict_id: row.id })
        }),
{
    reveal(viewer_step);
}

/// The down keys put the cursor on the next conflict listed and the up keys on
/// the one before, and both stop at the ends; Esc and Ctrl-c close the viewer.
pub proof fn cursor_keys_move_by_one(v: ViewerModel, ev: KeyEvent)
    requires
        0 <= v.selected < listed(v.rows, v.show_resolved).len(),
        ev.kind != KeyEventKind::Release,
    ensures
        ({
            let (after, outcome) = viewer_step(v, ev);
            let last = listed(v.rows, v.show_resolved).len() - 1;
            let plain = ev.modifiers == KeyModifiers::none();
            let control = ev.modifiers == KeyModifiers::control();
            let down = ev.code == KeyCode::Down || (ev.code == KeyCode::Char('j') && plain) || (
            ev.code == KeyCode::Char('n') && control);
            let up = ev.code == KeyCode::Up || (ev.code == KeyCode::Char('k') && plain) || (ev.code
                == KeyCode::Char('p') && control);
            &&& down || up ==> outcome is None && after.show_resolved == v.show_resolved
            &&& down && v.selected < last ==> after.selected == v.selected + 1
            &&& down && v.selected == last ==> after.selected == v.selected
            &&& up && v.selected > 0 ==> after.selected == v.selected - 1
            &&& up && v.selected == 0 ==> after.selected == 0
            &&& ev.code == KeyCode::Esc || (ev.code == KeyCode::Char('c') && control) ==> outcome
                == Some(ViewerOutcome::Cancelled)
        }),
{
    reveal(viewer_step);
}

/// `t` lists the reviewed conflicts too, or hides them again, and leaves the
/// cursor on a row.
pub proof fn t_shows_the_reviewed(v: ViewerModel, ev: KeyEvent)
    requires
        0 <= v.selected,
        ev.code == KeyCode::Char('t'),
        ev.modifiers == KeyModifiers::none(),
        ev.kind != KeyEventKind::Release,
    ensures
        ({
            let (after, outcome) = viewer_step(v, ev);
            let rows = listed(v.rows, !v.show_resolved);
            &&& outcome is None
            &&& after.show_resolved == !v.show_resolved
            &&& after.rows == v.rows
            &&& v.selected < rows.len() ==> after.selected == v.selected
            &&& v.selected >= rows.len() > 0 ==> after.selected == rows.len() - 1
        }),
{
    reveal(viewer_step);
}

} // verus!
