//! Answers to what the application asked of the world around it, and news from
//! the workers that watch it.

use std::time::Instant;

use vstd::prelude::*;
use vstd::string::*;

use crate::app::App;
use crate::bookmarks;
use crate::bookmarks::SessionBookmarks;
use crate::clipboard::ClipboardError;
use crate::conflicts;
use crate::conflicts::{ConflictCount, Observation, Review};
use crate::digest;
use crate::effects::{Effect, StatusOrigin};
use crate::keys::Scope;
use crate::models;
use crate::models::{ItemModel, SessionListItem, SessionStatus};
use crate::screens::bookmark_browser as bb;
use crate::screens::conflict_viewer as cv;
use crate::screens::kanban as kb;
use crate::screens::kanban::KanbanItem;
use crate::screens::label_prompt as lp;
use crate::state;
use crate::state::{AppModel, FindResult, KnownStatus};
use crate::text;

verus! {

impl App {
    // ---- answers from outside ------------------------------------------------------

    /// The recent searches were read, or could not be.
    pub fn recent_searches_loaded(&mut self, recents: Option<Vec<String>>)
        ensures
            final(self)@ == old(self)@.recents_loaded(
                match recents {
                    Some(r) => Some(text::views(r@)),
                    None => None,
                },
            ),
    {
        if let Some(list) = recents {
            if let Some(search) = &mut self.search {
                search.recents = list;
            }
        }
    }

    /// The find bar took a key, and closed or stayed.
    pub fn find_bar_answered(&mut self, answer: Option<FindResult>)
        ensures
            exists|now: Instant|
                old(self)@.clock.reads(now) && final(self)@ == #[trigger] old(self)@.find_answered(
                    answer,
                    now,
                ),
    {
        let now = self.clock.now();
        self.answer_find(answer, now);
    }

    /// Takes what was read of a session for the digest: its open todos, where
    /// it was observed, and whether it has a bookmark.
    pub fn digest_noted(&mut self, session_id: &str, todos: Option<u32>, marked: bool)
        ensures
            final(self)@ == old(self)@.digest_noted(session_id@, todos, marked),
    {
        self.digest_summary_cache = digest::note_todos(
            &self.digest_summary_cache,
            session_id,
            todos,
        );
        self.has_bookmarks_for_session = digest::note_mark(
            &self.has_bookmarks_for_session,
            session_id,
            marked,
        );
    }

    /// A message was looked up: whether it is stored, and whether there is a
    /// table of messages at all.
    pub fn message_probed(&mut self, uuid: String, found: bool, table_present: bool)
        ensures
            final(self)@ == old(self)@.probed(uuid@, found, table_present),
    {
        if !found && table_present {
            self.say("Cannot bookmark — message not yet indexed");
        } else {
            self.ask(Effect::ToggleBookmark { uuid });
        }
    }

    /// A bookmark was set (`true`) or removed (`false`), or neither.
    pub fn bookmark_toggled(&mut self, outcome: Result<bool, String>)
        ensures
            final(self)@ == old(self)@.bookmark_toggled(outcome),
    {
        match outcome {
            Ok(true) => self.say("★ bookmarked"),
            Ok(false) => self.say("removed bookmark"),
            Err(e) => {
                let lower = text::to_ascii_lower(e.as_str());
                if text::has_text(lower.as_str(), "foreign key") {
                    self.say("Cannot bookmark — message not yet indexed");
                } else {
                    self.say_with("bookmark error: ", e.as_str());
                }
            },
        }
    }

    fn session_ids(&self) -> (ids: Vec<String>)
        ensures
            text::views(ids@) == self@.session_ids(),
            ids@.len() == self@.sidebar.len(),
    {
        let mut ids: Vec<String> = Vec::new();
        let ghost all = self@.session_ids();
        let mut i: usize = 0;
        assert(text::views(ids@) =~= all.take(0));
        while i < self.sidebar.len()
            invariant
                i <= self.sidebar@.len(),
                ids@.len() == i,
                all == self@.session_ids(),
                text::views(ids@) == all.take(i as int),
            decreases self.sidebar@.len() - i,
        {
            let ghost before = text::views(ids@);
            ids.push(self.sidebar[i].session_id.clone());
            assert(text::views(ids@) =~= before.push(all[i as int]));
            assert(before.push(all[i as int]) =~= all.take(i + 1));
            i += 1;
        }
        assert(all.take(i as int) =~= all);
        ids
    }

    /// The bookmarks were read, one entry per session of the sidebar: the
    /// browser opens.
    #[verifier::rlimit(50)]
    pub fn bookmarks_loaded(&mut self, stored: &Vec<SessionBookmarks>)
        ensures
            exists|now: Instant|
                old(self)@.clock.reads(now) && final(self)@
                    == #[trigger] old(self)@.bookmarks_loaded(
                    bookmarks::newest_first(
                        bookmarks::unsorted_rows(
                            old(self)@.session_ids(),
                            stored@,
                            old(self)@.sidebar.len() as int,
                        ),
                    ),
                    now,
                ),
    {
        let now = self.clock.now();
        let ids = self.session_ids();
        let rows = bookmarks::collect_bookmark_rows(&ids, stored);
        let mut browser = bb::State::new();
        browser.set_bookmarks(rows);
        self.bookmark_browser = Some(browser);
        self.scope = Scope::BookmarkBrowser;
        self.stamp(now);
        assert(self@ == old(self)@.bookmarks_loaded(browser@.rows, now));
    }

    /// The bookmarks were read again: an open browser shows them.
    pub fn bookmarks_refreshed(&mut self, stored: &Vec<SessionBookmarks>)
        ensures
            final(self)@ == old(self)@.bookmarks_refreshed(
                bookmarks::newest_first(
                    bookmarks::unsorted_rows(
                        old(self)@.session_ids(),
                        stored@,
                        old(self)@.sidebar.len() as int,
                    ),
                ),
            ),
    {
        let ids = self.session_ids();
        let rows = bookmarks::collect_bookmark_rows(&ids, stored);
        if let Some(browser) = &mut self.bookmark_browser {
            browser.set_bookmarks(rows);
        }
    }

    /// A bookmark was deleted, or was not.
    pub fn bookmark_deleted(&mut self, outcome: Result<(), String>)
        ensures
            final(self)@ == old(self)@.bookmark_deleted(outcome),
    {
        match outcome {
            Ok(_) => {
                self.say("bookmark deleted");
                if self.bookmark_browser.is_some() {
                    self.ask(Effect::RefreshBookmarks);
                }
            },
            Err(e) => self.say_with("delete failed: ", e.as_str()),
        }
    }

    /// A session's status was read: the label prompt opens.
    #[verifier::rlimit(50)]
    pub fn session_status_loaded(&mut self, session_id: String, status: Option<SessionStatus>)
        requires
            old(self)@.wf(),
        ensures
            exists|now: Instant|
                old(self)@.clock.reads(now) && final(self)@ == #[trigger] old(self)@.status_loaded(
                    session_id@,
                    status,
                    now,
                ),
            final(self)@.wf(),
    {
        let now = self.clock.now();
        let name = match models::position_of(&self.sidebar, session_id.as_str()) {
            Some(at) => self.sidebar[at].display_name.clone(),
            None => session_id.clone(),
        };
        let current = match status {
            Some(s) => s,
            None => SessionStatus::Active,
        };
        self.label_prompt = Some(lp::State::new(session_id, name, current));
        self.scope = Scope::LabelPrompt;
        self.stamp(now);
        assert(self@ == old(self)@.status_loaded(session_id@, status, now));
    }

    fn set_item_status(&mut self, id: &str, status: SessionStatus)
        ensures
            final(self)@ == old(self)@.with_status(id@, status),
    {
        let ghost before = self@.sidebar;
        if let Some(at) = models::position_of(&self.sidebar, id) {
            assert(before[at as int] == self.sidebar@[at as int]@);
            self.sidebar[at].status = status;
            assert(self@.sidebar =~= old(self)@.with_status(id@, status).sidebar);
        }
    }

    fn set_item_name(&mut self, id: &str, name: String)
        ensures
            final(self)@ == old(self)@.with_name(id@, name@),
    {
        let ghost before = self@.sidebar;
        if let Some(at) = models::position_of(&self.sidebar, id) {
            assert(before[at as int] == self.sidebar@[at as int]@);
            self.sidebar[at].display_name = name;
            assert(self@.sidebar =~= old(self)@.with_name(id@, name@).sidebar);
        }
    }

    /// A session's status was stored, or was not.
    pub fn status_written(
        &mut self,
        session_id: String,
        status: SessionStatus,
        origin: StatusOrigin,
        outcome: Result<(), String>,
    )
        ensures
            final(self)@ == old(self)@.status_written(session_id@, status, origin, outcome),
    {
        match outcome {
            Ok(_) => {
                match origin {
                    StatusOrigin::LabelPrompt => {},
                    StatusOrigin::Board => self.set_item_status(session_id.as_str(), status),
                }
                self.say_with("status → ", models::status_label(status));
            },
            Err(e) => {
                self.say_with("status error: ", e.as_str());
                match origin {
                    StatusOrigin::LabelPrompt => {},
                    StatusOrigin::Board => self.ask(Effect::ReloadStatuses),
                }
            },
        }
    }

    /// A session's name was stored or cleared, or was not.
    pub fn custom_name_written(
        &mut self,
        session_id: String,
        name: Option<String>,
        outcome: Result<(), String>,
    )
        ensures
            final(self)@ == old(self)@.name_written(session_id@, text::opt_view(name), outcome),
    {
        match outcome {
            Ok(_) => match name {
                Some(n) => {
                    self.set_item_name(session_id.as_str(), n.clone());
                    self.say_with("name → ", n.as_str());
                },
                None => self.say("custom name cleared"),
            },
            Err(e) => self.say_with("rename error: ", e.as_str()),
        }
    }

    fn build_kanban_items(&self, known: &Vec<KnownStatus>) -> (items: Vec<KanbanItem>)
        ensures
            kb::cards_view(items@) == self@.board_cards(known@),
    {
        let mut items: Vec<KanbanItem> = Vec::new();
        let ghost all = self@.board_cards(known@);
        let mut i: usize = 0;
        assert(kb::cards_view(items@) =~= all.take(0));
        while i < self.sidebar.len()
            invariant
                i <= self.sidebar@.len(),
                all == self@.board_cards(known@),
                kb::cards_view(items@) == all.take(i as int),
            decreases self.sidebar@.len() - i,
        {
            let ghost before = kb::cards_view(items@);
            let item = KanbanItem {
                session_id: self.sidebar[i].session_id.clone(),
                display_name: self.sidebar[i].display_name.clone(),
                status: known_status(known, self.sidebar[i].session_id.as_str()),
            };
            assert(item@ == all[i as int]);
            items.push(item);
            assert(kb::cards_view(items@) =~= before.push(item@));
            assert(before.push(item@) =~= all.take(i + 1));
            i += 1;
        }
        assert(all.take(i as int) =~= all);
        items
    }

    #[verifier::rlimit(50)]
    fn mirror_statuses(&mut self, known: &Vec<KnownStatus>)
        ensures
            final(self)@ == old(self)@.with_statuses(known@),
    {
        let ghost start = self@;
        let ghost goal = start.with_statuses(known@).sidebar;
        let n: usize = self.sidebar.len();
        let mut i: usize = 0;
        while i < n
            invariant
                i <= n,
                n == self.sidebar@.len(),
                n == start.sidebar.len(),
                start == old(self)@,
                goal == start.with_statuses(known@).sidebar,
                self@ == (AppModel { sidebar: self@.sidebar, ..start }),
                forall|k: int| 0 <= k < i ==> #[trigger] self@.sidebar[k] == goal[k],
                forall|k: int| i <= k < n ==> #[trigger] self@.sidebar[k] == start.sidebar[k],
                forall|k: int|
                    0 <= k < n ==> (#[trigger] self@.sidebar[k]).session_id
                        == start.sidebar[k].session_id,
            decreases n - i,
        {
            let id = self.sidebar[i].session_id.clone();
            let status = known_status(known, id.as_str());
            let at = models::position_of(&self.sidebar, id.as_str());
            proof {
                assert(self@.sidebar[i as int].session_id == id@);
                models::same_ids_same_place(self@.sidebar, start.sidebar, id@, 0);
            }
            if let Some(first) = at {
                if first == i {
                    let ghost before = self@.sidebar;
                    self.sidebar[i].status = status;
                    assert(self@.sidebar =~= before.update(
                        i as int,
                        ItemModel { status, ..before[i as int] },
                    ));
                }
            }
            i += 1;
        }
        assert(self@.sidebar =~= goal);
    }

    /// The statuses of the sessions were read: the board opens, and the sidebar
    /// shows them too.
    #[verifier::rlimit(50)]
    pub fn statuses_loaded(&mut self, known: &Vec<KnownStatus>)
        requires
            old(self)@.wf(),
        ensures
            exists|now: Instant|
                old(self)@.clock.reads(now) && final(self)@
                    == #[trigger] old(self)@.statuses_loaded(known@, now),
            final(self)@.wf(),
    {
        let now = self.clock.now();
        let items = self.build_kanban_items(known);
        self.mirror_statuses(known);
        self.kanban = Some(kb::State::new(items));
        self.enter(Scope::Kanban);
        self.stamp(now);
        assert(self@ == old(self)@.statuses_loaded(known@, now));
    }

    /// The statuses of the sessions were read again: an open board shows them.
    pub fn statuses_reloaded(&mut self, known: &Vec<KnownStatus>)
        requires
            old(self)@.wf(),
        ensures
            final(self)@ == old(self)@.statuses_reloaded(known@),
            final(self)@.wf(),
    {
        let items = self.build_kanban_items(known);
        if let Some(board) = &mut self.kanban {
            board.items = items;
            board.clamp_row();
        }
    }

    #[verifier::rlimit(50)]
    fn sync_sidebar_conflict_counts(&mut self, counts: Vec<ConflictCount>)
        ensures
            final(self)@ == old(self)@.with_counts(conflicts::counts_view(counts@)),
    {
        let ghost start = self@;
        let ghost goal = start.with_counts(conflicts::counts_view(counts@)).sidebar;
        let n: usize = self.sidebar.len();
        let mut i: usize = 0;
        while i < n
            invariant
                i <= n,
                n == self.sidebar@.len(),
                n == start.sidebar.len(),
                start == old(self)@,
                goal == start.with_counts(conflicts::counts_view(counts@)).sidebar,
                self@ == (AppModel { sidebar: self@.sidebar, ..start }),
                forall|k: int| 0 <= k < i ==> #[trigger] self@.sidebar[k] == goal[k],
                forall|k: int| i <= k < n ==> #[trigger] self@.sidebar[k] == start.sidebar[k],
            decreases n - i,
        {
            assert(self@.sidebar[i as int] == start.sidebar[i as int]);
            let count: u32 = conflicts::count_for(&counts, self.sidebar[i].session_id.as_str());
            let ghost before = self@.sidebar;
            self.sidebar[i].unresolved_conflict_count = count;
            assert(self@.sidebar =~= before.update(
                i as int,
                ItemModel { unresolved_conflict_count: count, ..before[i as int] },
            ));
            i += 1;
        }
        assert(self@.sidebar =~= goal);
        self.conflict_counts = counts;
    }

    /// The observations and reviews were read: the conflict viewer opens.
    #[verifier::rlimit(50)]
    pub fn conflicts_loaded(
        &mut self,
        entries: &Vec<Option<Vec<Observation>>>,
        reviews: &Vec<Review>,
    )
        requires
            conflicts::countable(
                old(self)@.session_ids(),
                entries@,
                reviews@,
                old(self)@.sidebar.len() as int,
            ),
        ensures
            exists|now: Instant|
                old(self)@.clock.reads(now) && final(self)@
                    == #[trigger] old(self)@.conflicts_loaded(
                    conflicts::gathered(
                        old(self)@.session_ids(),
                        entries@,
                        reviews@,
                        old(self)@.sidebar.len() as int,
                    ),
                    now,
                ),
    {
        let now = self.clock.now();
        let ids = self.session_ids();
        let (rows, counts) = conflicts::collect_conflicts(&ids, entries, reviews);
        let mut viewer = cv::State::new();
        viewer.set_conflicts(rows);
        self.sync_sidebar_conflict_counts(counts);
        self.conflict_viewer = Some(viewer);
        self.enter(Scope::ConflictViewer);
        self.stamp(now);
        proof {
            let found = conflicts::gathered(
                old(self)@.session_ids(),
                entries@,
                reviews@,
                old(self)@.sidebar.len() as int,
            );
            assert(found.rows == conflicts::conflicts_view(rows@));
            assert(self@ == old(self)@.conflicts_loaded(found, now));
        }
    }

    /// The observations and reviews were read again: an open viewer shows them.
    pub fn conflicts_reloaded(
        &mut self,
        entries: &Vec<Option<Vec<Observation>>>,
        reviews: &Vec<Review>,
    )
        requires
            conflicts::countable(
                old(self)@.session_ids(),
                entries@,
                reviews@,
                old(self)@.sidebar.len() as int,
            ),
        ensures
            final(self)@ == old(self)@.conflicts_reloaded(
                conflicts::gathered(
                    old(self)@.session_ids(),
                    entries@,
                    reviews@,
                    old(self)@.sidebar.len() as int,
                ),
            ),
    {
        let ids = self.session_ids();
        let (rows, counts) = conflicts::collect_conflicts(&ids, entries, reviews);
        if let Some(viewer) = &mut self.conflict_viewer {
            viewer.set_conflicts(rows);
        }
        self.sync_sidebar_conflict_counts(counts);
    }

    /// The command that marks a conflict as reviewed was started, or could not
    /// be.
    pub fn conflict_resolved(&mut self, conflict_id: i64, started: bool)
        ensures
            final(self)@ == old(self)@.conflict_resolved(conflict_id, started),
    {
        if started {
            let mut line = "resolved #".to_owned();
            text::push_signed(&mut line, conflict_id);
            line.append(" (running threadhop conflicts --resolved)");
            self.status_message = Some(line);
            self.ask(Effect::ReloadConflicts);
        } else {
            let mut line = "run `threadhop conflicts --resolved ".to_owned();
            text::push_signed(&mut line, conflict_id);
            line.append("` to resolve");
            self.status_message = Some(line);
        }
    }

    /// A text of this many characters was copied, or was not.
    pub fn clipboard_finished(&mut self, chars: usize, outcome: Result<(), ClipboardError>)
        ensures
            final(self)@ == old(self)@.clipboard_finished(chars as nat, outcome),
    {
        match outcome {
            Ok(_) => {
                let mut line = "Copied ".to_owned();
                text::push_decimal(&mut line, chars as u64);
                line.append(" chars to clipboard");
                self.status_message = Some(line);
            },
            Err(ClipboardError::Unavailable) => self.say("Clipboard unavailable"),
            Err(ClipboardError::Backend(e)) => self.say_with(
                "Clipboard unavailable: ",
                e.as_str(),
            ),
        }
    }

    /// A text was written to `path`, or was not.
    pub fn export_finished(&mut self, path: String, outcome: Result<(), String>)
        ensures
            final(self)@ == old(self)@.export_finished(path@, outcome),
    {
        match outcome {
            Ok(_) => self.say_with("Exported → ", path.as_str()),
            Err(e) => self.say_with("Export failed: ", e.as_str()),
        }
    }

    // ---- news from the workers -------------------------------------------------------

    /// Whether a session is kept in the sidebar under the filters of the
    /// command line.
    pub fn sidebar_item_passes_filters(
        &self,
        item: &SessionListItem,
        derived: &Option<String>,
        now: i64,
    ) -> (yes: bool)
        ensures
            yes == self@.keeps(item@, text::opt_view(*derived), now),
    {
        if self.project_filter.is_some() {
            let same = match &item.project {
                Some(_) => text::same_option(&item.project, &self.project_filter),
                None => text::same_option(derived, &self.project_filter),
            };
            if !same {
                return false;
            }
        }
        if let Some(days) = self.days_filter {
            if days > 0 {
                let cutoff: i128 = now as i128 - days as i128 * 86400000000;
                let active: i64 = match item.last_active_at {
                    Some(t) => t,
                    None => 0,
                };
                if (active as i128) < cutoff {
                    return false;
                }
            }
        }
        true
    }
}

fn known_status(known: &Vec<KnownStatus>, id: &str) -> (status: SessionStatus)
    ensures
        status == state::status_in(known@, id@, 0),
{
    let mut i: usize = 0;
    while i < known.len()
        invariant
            i <= known@.len(),
            state::status_in(known@, id@, 0) == state::status_in(known@, id@, i as int),
        decreases known@.len() - i,
    {
        if text::same_text(known[i].session_id.as_str(), id) {
            return known[i].status;
        }
        i += 1;
    }
    SessionStatus::Active
}

/// The file that a selection is exported to at `secs` seconds since the epoch.
pub fn export_path(secs: u64) -> (path: String)
    ensures
        path@ == "/tmp/threadhop-export-"@ + text::decimal(secs as nat) + ".md"@,
{
    let mut path = "/tmp/threadhop-export-".to_owned();
    text::push_decimal(&mut path, secs);
    path.append(".md");
    path
}

} // verus!
