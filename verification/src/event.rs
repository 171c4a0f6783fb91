//! What the event loop does with events: those of the terminal, and those of
//! the workers.

use std::time::Instant;

use vstd::prelude::*;

use crate::anim::Moment;
use crate::app::App;
use crate::effects::Request;
use crate::keys::{KeyEvent, MouseEvent};
use crate::models;
use crate::models::{CleanedMessage, ItemModel, SessionListItem};
use crate::state::AppModel;
use crate::text;

verus! {

/// An event of the terminal.
#[derive(Debug, Clone, Copy)]
pub enum TerminalEvent {
    Key(KeyEvent),
    Mouse(MouseEvent),
    Resize,
    Other,
}

/// A session that was found, with the project under which it was found.
#[derive(Debug, Clone)]
pub struct Candidate {
    pub item: SessionListItem,
    pub derived_project: Option<String>,
}

/// News from a worker.
#[derive(Debug, Clone)]
pub enum WorkerEvent {
    /// These sessions were found. The time is in microseconds since the epoch.
    SessionsRefreshed { candidates: Vec<Candidate>, now: i64 },
    /// These sessions are active. One without an id says nothing.
    ActiveDetectorRefreshed(Vec<Option<String>>),
    TranscriptRefreshed { session_id: String, messages: Vec<CleanedMessage> },
    Error(String),
}

/// The first `n` sessions found that the filters keep.
pub open spec fn kept(m: AppModel, candidates: Seq<Candidate>, now: i64, n: int) -> Seq<ItemModel>
    decreases n,
{
    if n <= 0 {
        Seq::empty()
    } else {
        let before = kept(m, candidates, now, n - 1);
        let c = candidates[n - 1];
        if m.keeps(c.item@, text::opt_view(c.derived_project), now) {
            before.push(c.item@)
        } else {
            before
        }
    }
}

/// The ids among the first `n` sessions that have one.
pub open spec fn known_ids(ids: Seq<Option<String>>, n: int) -> Seq<Seq<char>>
    decreases n,
{
    if n <= 0 {
        Seq::empty()
    } else {
        let before = known_ids(ids, n - 1);
        match ids[n - 1] {
            Some(id) => before.push(id@),
            None => before,
        }
    }
}

/// The application after news from a worker at `at`.
pub open spec fn informed(m: AppModel, event: WorkerEvent, at: Instant) -> AppModel {
    match event {
        WorkerEvent::SessionsRefreshed { candidates, now } => m.sessions_refreshed(
            kept(m, candidates@, now, candidates@.len() as int),
            at,
        ),
        WorkerEvent::ActiveDetectorRefreshed(ids) => m.active_refreshed(
            known_ids(ids@, ids@.len() as int),
        ),
        WorkerEvent::TranscriptRefreshed { session_id, messages } => m.transcript_refreshed(
            session_id@,
            models::messages_view(messages@),
            at,
        ),
        WorkerEvent::Error(words) => m.said(words@),
    }
}

fn keep_candidates(app: &App, candidates: &Vec<Candidate>, now: i64) -> (items: Vec<
    SessionListItem,
>)
    ensures
        models::items_view(items@) == kept(app@, candidates@, now, candidates@.len() as int),
{
    let mut items: Vec<SessionListItem> = Vec::new();
    let mut i: usize = 0;
    assert(models::items_view(items@) =~= kept(app@, candidates@, now, 0));
    while i < candidates.len()
        invariant
            i <= candidates@.len(),
            models::items_view(items@) == kept(app@, candidates@, now, i as int),
        decreases candidates@.len() - i,
    {
        let c = &candidates[i];
        let ghost before = models::items_view(items@);
        if app.sidebar_item_passes_filters(&c.item, &c.derived_project, now) {
            items.push(models::copy_item(&c.item));
            assert(models::items_view(items@) =~= before.push(c.item@));
        }
        i += 1;
    }
    items
}

fn contains_id(ids: &Vec<Option<String>>, id: &str) -> (yes: bool)
    ensures
        yes == known_ids(ids@, ids@.len() as int).contains(id@),
{
    let mut i: usize = 0;
    assert(!known_ids(ids@, 0).contains(id@));
    while i < ids.len()
        invariant
            i <= ids@.len(),
            !known_ids(ids@, i as int).contains(id@),
        decreases ids@.len() - i,
    {
        let ghost before = known_ids(ids@, i as int);
        let ghost after = known_ids(ids@, i + 1);
        if text::is_some_text(&ids[i], id) {
            assert(after[before.len() as int] == id@);
            proof {
                ids_stay_known(ids@, id@, i + 1, ids@.len() as int);
            }
            return true;
        }
        assert(!after.contains(id@)) by {
            if after.contains(id@) {
                let k = after.index_of(id@);
                if k < before.len() {
                    assert(before[k] == id@);
                }
            }
        }
        i += 1;
    }
    false
}

proof fn ids_stay_known(ids: Seq<Option<String>>, id: Seq<char>, a: int, b: int)
    requires
        a <= b,
        known_ids(ids, a).contains(id),
    ensures
        known_ids(ids, b).contains(id),
    decreases b - a,
{
    if a < b {
        ids_stay_known(ids, id, a, b - 1);
        let before = known_ids(ids, b - 1);
        let k = before.index_of(id);
        if b > 0 {
            assert(known_ids(ids, b)[k] == id);
        }
    }
}

fn refresh_sessions(app: &mut App, candidates: Vec<Candidate>, now: i64, at: Instant)
    ensures
        final(app)@ == old(app)@.sessions_refreshed(
            kept(old(app)@, candidates@, now, candidates@.len() as int),
            at,
        ),
{
    let items = keep_candidates(app, &candidates, now);
    app.sidebar = items;
    let present = match &app.selected_session_id {
        Some(id) => models::position_of(&app.sidebar, id.as_str()).is_some(),
        None => false,
    };
    if !present {
        let first = if app.sidebar.len() > 0 {
            Some(app.sidebar[0].session_id.clone())
        } else {
            None
        };
        app.select_session(first, at);
    }
}

#[verifier::rlimit(50)]
fn refresh_active(app: &mut App, ids: Vec<Option<String>>)
    ensures
        final(app)@ == old(app)@.active_refreshed(known_ids(ids@, ids@.len() as int)),
{
    let ghost start = app@;
    let ghost all = known_ids(ids@, ids@.len() as int);
    let ghost goal = start.active_refreshed(all).sidebar;
    let n: usize = app.sidebar.len();
    let mut i: usize = 0;
    while i < n
        invariant
            i <= n,
            n == app.sidebar@.len(),
            n == start.sidebar.len(),
            start == old(app)@,
            all == known_ids(ids@, ids@.len() as int),
            goal == start.active_refreshed(all).sidebar,
            app@ == (AppModel { sidebar: app@.sidebar, ..start }),
            forall|k: int| 0 <= k < i ==> #[trigger] app@.sidebar[k] == goal[k],
            forall|k: int| i <= k < n ==> #[trigger] app@.sidebar[k] == start.sidebar[k],
        decreases n - i,
    {
        assert(app@.sidebar[i as int] == start.sidebar[i as int]);
        let active = contains_id(&ids, app.sidebar[i].session_id.as_str());
        let ghost before = app@.sidebar;
        app.sidebar[i].is_active = active;
        assert(app@.sidebar =~= before.update(
            i as int,
            ItemModel { is_active: active, ..before[i as int] },
        ));
        i += 1;
    }
    assert(app@.sidebar =~= goal);
}

/// Takes news from a worker at `at`.
pub fn handle_worker_event_at(app: &mut App, event: WorkerEvent, at: Instant)
    ensures
        final(app)@ == informed(old(app)@, event, at),
{
    match event {
        WorkerEvent::SessionsRefreshed { candidates, now } => {
            refresh_sessions(app, candidates, now, at);
        },
        WorkerEvent::ActiveDetectorRefreshed(ids) => {
            refresh_active(app, ids);
        },
        WorkerEvent::TranscriptRefreshed { session_id, messages } => {
            app.adopt_transcript(session_id, messages, at);
        },
        WorkerEvent::Error(words) => {
            app.say(words.as_str());
        },
    }
}

/// Takes news from a worker when the application's clock says.
pub fn handle_worker_event(app: &mut App, event: WorkerEvent)
    ensures
        exists|at: Instant|
            old(app)@.clock.reads(at) && final(app)@ == #[trigger] informed(old(app)@, event, at),
{
    let at = app.clock.now();
    handle_worker_event_at(app, event, at);
}

/// The application after an event of the terminal at `now`. The mouse counts
/// only where it is enabled.
pub open spec fn after_terminal_event(m: AppModel, event: TerminalEvent, now: Moment) -> AppModel {
    match event {
        TerminalEvent::Key(key) => m.keyed(key, now),
        TerminalEvent::Mouse(mouse) => if m.mouse_enabled {
            m.moused(mouse, now.at).0
        } else {
            m
        },
        TerminalEvent::Resize | TerminalEvent::Other => m,
    }
}

/// Takes an event of the terminal.
pub fn handle_terminal_event(app: &mut App, event: TerminalEvent)
    requires
        old(app)@.wf(),
        event matches TerminalEvent::Mouse(mouse) ==> old(app).mouse_enabled ==> old(
            app,
        )@.can_take(mouse),
    ensures
        exists|now: Moment|
            old(app)@.clock.reads(now.at) && final(app)@ == #[trigger] after_terminal_event(
                old(app)@,
                event,
                now,
            ),
        final(app)@.wf(),
{
    let now = app.moment();
    match event {
        TerminalEvent::Key(key) => {
            app.handle_key_at(key, now);
        },
        TerminalEvent::Mouse(mouse) => {
            if app.mouse_enabled {
                app.handle_mouse_at(mouse, now.at);
            }
        },
        TerminalEvent::Resize => {},
        TerminalEvent::Other => {},
    }
    assert(app@ == after_terminal_event(old(app)@, event, now));
}

/// A transcript that was loaded for a session other than the selected one
/// changes nothing.
pub proof fn stale_transcripts_are_dropped(
    m: AppModel,
    session_id: String,
    messages: Vec<CleanedMessage>,
    at: Instant,
)
    requires
        m.selected != Some(session_id@),
    ensures
        informed(m, WorkerEvent::TranscriptRefreshed { session_id, messages }, at) == m,
{
}

/// After the sessions were refreshed, the selected one is in the sidebar,
/// unless the sidebar is empty.
pub proof fn selection_is_in_the_sidebar(m: AppModel, items: Seq<ItemModel>, at: Instant)
    ensures
        ({
            let after = m.sessions_refreshed(items, at);
            &&& after.sidebar == items
            &&& items.len() > 0 ==> after.selected is Some && models::find_item(
                items,
                after.selected.unwrap(),
                0,
            ) < items.len()
            &&& items.len() == 0 ==> after.selected is None
        }),
{
    reveal(AppModel::scrolled);
}

/// A session whose project and age the filters allow is kept, and one is
/// dropped only where one of the two filters says so.
pub proof fn no_filter_keeps_everything(m: AppModel, candidates: Seq<Candidate>, now: i64, n: int)
    requires
        0 <= n <= candidates.len(),
        m.project_filter is None,
        m.days_filter is None || m.days_filter == Some(0u32),
    ensures
        kept(m, candidates, now, n) == Seq::new(n as nat, |i: int| candidates[i].item@),
    decreases n,
{
    if n > 0 {
        no_filter_keeps_everything(m, candidates, now, n - 1);
        assert(kept(m, candidates, now, n) =~= Seq::new(n as nat, |i: int| candidates[i].item@));
    } else {
        assert(kept(m, candidates, now, n) =~= Seq::new(n as nat, |i: int| candidates[i].item@));
    }
}

/// One project directory: its name where it has a readable one, and the files
/// in it, or nothing where it could not be listed.
#[derive(Debug, Clone)]
pub struct ProjectDir {
    pub name: Option<String>,
    pub files: Option<Vec<String>>,
}

pub open spec fn holds_file(dir: ProjectDir, file: Seq<char>) -> bool {
    match dir.files {
        Some(files) => text::views(files@).contains(file),
        None => false,
    }
}

/// The name of the first directory from `from` on that holds a file.
pub open spec fn project_in(dirs: Seq<ProjectDir>, file: Seq<char>, from: int) -> Option<Seq<char>>
    decreases dirs.len() - from,
{
    if from < 0 || from >= dirs.len() {
        None
    } else if holds_file(dirs[from], file) {
        text::opt_view(dirs[from].name)
    } else {
        project_in(dirs, file, from + 1)
    }
}

pub(crate) fn has_file(files: &Vec<String>, file: &str) -> (yes: bool)
    ensures
        yes == text::views(files@).contains(file@),
{
    let mut i: usize = 0;
    while i < files.len()
        invariant
            i <= files@.len(),
            forall|k: int| 0 <= k < i ==> (#[trigger] text::views(files@)[k]) != file@,
        decreases files@.len() - i,
    {
        if text::same_text(files[i].as_str(), file) {
            assert(text::views(files@)[i as int] == file@);
            return true;
        }
        i += 1;
    }
    false
}

/// The project of a session: the name of the first directory that holds its
/// transcript.
pub fn derive_project_for_session(dirs: &Vec<ProjectDir>, session_id: &str) -> (project: Option<
    String,
>)
    ensures
        text::opt_view(project) == project_in(dirs@, session_id@ + ".jsonl"@, 0),
{
    let mut file = session_id.to_owned();
    file.append(".jsonl");
    let mut i: usize = 0;
    while i < dirs.len()
        invariant
            i <= dirs@.len(),
            file@ == session_id@ + ".jsonl"@,
            project_in(dirs@, file@, 0) == project_in(dirs@, file@, i as int),
        decreases dirs@.len() - i,
    {
        if let Some(files) = &dirs[i].files {
            if has_file(files, file.as_str()) {
                return text::clone_option(&dirs[i].name);
            }
        }
        i += 1;
    }
    None
}

/// Whether the filters let a session through: it is of the project that is
/// asked for, and was active within the days that are asked for. A session that
/// does not say its project is of the one it was found under.
pub open spec fn let_through(m: AppModel, c: Candidate, now: i64) -> bool {
    let project = if c.item.project is Some {
        text::opt_view(c.item.project)
    } else {
        text::opt_view(c.derived_project)
    };
    let age = match c.item.last_active_at {
        Some(at) => now - at,
        None => now as int,
    };
    &&& m.project_filter is None || project == m.project_filter
    &&& m.days_filter is None || m.days_filter == Some(0u32) || age
        <= m.days_filter.unwrap() * 86400000000
}

/// The sidebar lists exactly the sessions that the filters let through, in the
/// order they were found.
pub proof fn filters_decide_what_is_listed(m: AppModel, candidates: Seq<Candidate>, now: i64, n: int)
    requires
        0 <= n < candidates.len(),
    ensures
        kept(m, candidates, now, 0).len() == 0,
        let_through(m, candidates[n], now) ==> kept(m, candidates, now, n + 1) == kept(
            m,
            candidates,
            now,
            n,
        ).push(candidates[n].item@),
        !let_through(m, candidates[n], now) ==> kept(m, candidates, now, n + 1) == kept(
            m,
            candidates,
            now,
            n,
        ),
{
    if let Some(days) = m.days_filter {
        assert(days * crate::state::MICROS_PER_DAY == days * 86400000000);
    }
}

proof fn known_ids_are_those_given(ids: Seq<Option<String>>, id: Seq<char>, n: int)
    requires
        0 <= n <= ids.len(),
    ensures
        known_ids(ids, n).contains(id) <==> exists|i: int|
            0 <= i < n && text::opt_view(#[trigger] ids[i]) == Some(id),
    decreases n,
{
    if n > 0 {
        known_ids_are_those_given(ids, id, n - 1);
        let (before, all) = (known_ids(ids, n - 1), known_ids(ids, n));
        if before.contains(id) {
            assert(all[before.index_of(id)] == id);
        }
        if text::opt_view(ids[n - 1]) == Some(id) {
            assert(all[before.len() as int] == id);
        }
        if all.contains(id) {
            let at = all.index_of(id);
            if at < before.len() {
                assert(before[at] == id);
            }
        }
    }
}

/// After the active sessions were found, exactly their rows are marked, and
/// nothing else of the sidebar changes.
pub proof fn active_sessions_are_marked(m: AppModel, ids: Vec<Option<String>>, at: Instant, k: int)
    requires
        0 <= k < m.sidebar.len(),
    ensures
        ({
            let after = informed(m, WorkerEvent::ActiveDetectorRefreshed(ids), at);
            let active = exists|i: int|
                0 <= i < ids@.len() && text::opt_view(#[trigger] ids@[i]) == Some(
                    m.sidebar[k].session_id,
                );
            &&& after.sidebar.len() == m.sidebar.len()
            &&& after.sidebar[k] == (ItemModel { is_active: active, ..m.sidebar[k] })
            &&& after.selected == m.selected
            &&& after.requests == m.requests
        }),
{
    known_ids_are_those_given(ids@, m.sidebar[k].session_id, ids@.len() as int);
}

/// The transcript of the selected session is shown, message for message, with
/// the message cursor on its first message.
pub proof fn transcripts_are_shown(
    m: AppModel,
    session_id: String,
    messages: Vec<CleanedMessage>,
    at: Instant,
)
    requires
        m.selected == Some(session_id@),
    ensures
        ({
            let after = informed(m, WorkerEvent::TranscriptRefreshed { session_id, messages }, at);
            &&& after.transcript.len() == messages@.len()
            &&& forall|i: int|
                0 <= i < messages@.len() ==> #[trigger] after.transcript[i] == messages@[i]@
            &&& after.message_cursor == 0
            &&& after.selected == m.selected
        }),
{
    reveal(AppModel::resolved);
    reveal(AppModel::scrolled);
}

/// A worker's error is said in the status bar and changes nothing else.
pub proof fn errors_are_said(m: AppModel, words: String, at: Instant)
    ensures
        informed(m, WorkerEvent::Error(words), at) == (AppModel { status: Some(words@), ..m }),
{
}

/// Where the selected session is still there after a refresh it stays selected
/// and nothing is published; else the first session is, and is published once.
pub proof fn refreshes_keep_the_selection(m: AppModel, items: Seq<ItemModel>, at: Instant, k: int)
    ensures
        ({
            let after = m.sessions_refreshed(items, at);
            &&& 0 <= k < items.len() && m.selected == Some(items[k].session_id) ==> after.selected
                == m.selected && after.requests == m.requests && after.scroll == m.scroll
            &&& items.len() > 0 && (m.selected is None || (forall|i: int|
                0 <= i < items.len() ==> Some((#[trigger] items[i]).session_id) != m.selected))
                ==> after.selected == Some(items[0].session_id) && after.requests
                == m.requests.push(Request::PublishSelection(Some(items[0].session_id)))
            &&& items.len() == 0 ==> after.selected is None && after.requests == m.requests.push(
                Request::PublishSelection(None),
            )
        }),
{
    reveal(AppModel::scrolled);
    if let Some(id) = m.selected {
        models::sessions_are_found_first(items, id, 0);
        if 0 <= k < items.len() && items[k].session_id == id {
            assert(models::find_item(items, id, 0) <= k);
        }
    }
}

/// The mouse does nothing where it is switched off, and neither a resize nor
/// another event changes anything.
pub proof fn disabled_mice_do_nothing(m: AppModel, mouse: MouseEvent, now: Moment)
    requires
        !m.mouse_enabled,
    ensures
        after_terminal_event(m, TerminalEvent::Mouse(mouse), now) == m,
        after_terminal_event(m, TerminalEvent::Resize, now) == m,
        after_terminal_event(m, TerminalEvent::Other, now) == m,
{
}

/// The project of a session is the name of the first directory that holds its
/// transcript.
pub proof fn projects_are_the_first_directory(
    dirs: Seq<ProjectDir>,
    file: Seq<char>,
    k: int,
    from: int,
)
    requires
        0 <= from <= k <= dirs.len(),
        forall|i: int| from <= i < k ==> !holds_file(#[trigger] dirs[i], file),
    ensures
        k < dirs.len() && holds_file(dirs[k], file) ==> project_in(dirs, file, from)
            == text::opt_view(dirs[k].name),
        k == dirs.len() ==> project_in(dirs, file, from) is None,
    decreases k - from,
{
    if from < k {
        assert(!holds_file(dirs[from], file));
        projects_are_the_first_directory(dirs, file, k, from + 1);
    }
}

} // verus!
