//! The application: its state, and what keys, the mouse and answers from
//! outside do to it.

use std::time::Instant;

use vstd::prelude::*;
use vstd::string::*;

use crate::anim::{Clock, Moment};
use crate::config;
use crate::conflicts;
use crate::conflicts::ConflictCount;
use crate::digest;
use crate::digest::DigestSummary;
use crate::effects;
use crate::effects::{Effect, Request, StatusOrigin};
use crate::keys;
use crate::keys::{Command, KeyCode, KeyEvent, MouseButton, MouseEvent, MouseEventKind, Scope};
use crate::models;
use crate::models::{CleanedMessage, SelectionState, SessionListItem, SidebarRowKind};
use crate::screens::bookmark_browser as bb;
use crate::screens::confirm as cf;
use crate::screens::conflict_viewer as cv;
use crate::screens::help as hp;
use crate::screens::kanban as kb;
use crate::screens::label_prompt as lp;
use crate::screens::search as se;
use crate::state;
use crate::state::{
    AppModel, ConfirmModel, FindResult, HitAction, PaneFocus, PendingAction, ScrollSample,
    ScrollTween, HALF_PAGE,
};
use crate::text;
use crate::ui;
use crate::ui::Rect;

verus! {

/// A confirm modal with what is done on yes.
#[derive(Debug, Clone)]
pub struct ConfirmRequest {
    pub state: cf::State,
    pub on_yes: PendingAction,
}

impl View for ConfirmRequest {
    type V = ConfirmModel;

    open spec fn view(&self) -> ConfirmModel {
        ConfirmModel { question: self.state@, on_yes: self.on_yes }
    }
}

/// The application. What it asks of the world around it gathers in `effects`:
/// whoever runs the application performs these requests in order and hands the
/// answers back.
pub struct App {
    pub should_quit: bool,
    pub sidebar: Vec<SessionListItem>,
    pub selected_session_id: Option<String>,
    /// The row at the top of the transcript pane.
    pub scroll: u16,
    /// The row that an animated scroll leads to.
    pub scroll_target: u16,
    /// Whether the pane shows `scroll` exactly, and not a point between rows.
    pub scroll_settled: bool,
    pub scroll_tween: Option<ScrollTween>,
    pub clock: Clock,
    pub no_anim: bool,
    pub modal_opened_at: Option<Instant>,
    pub transcript: Vec<CleanedMessage>,
    pub status_message: Option<String>,
    pub read_only: bool,
    pub scope: Scope,
    pub search: Option<se::SearchState>,
    pub find_open: bool,
    /// The message that a jump waits for.
    pub pending_jump_message_uuid: Option<String>,
    pub message_cursor: usize,
    pub selection_state: Option<SelectionState>,
    pub bookmark_browser: Option<bb::State>,
    pub confirm: Option<ConfirmRequest>,
    pub label_prompt: Option<lp::State>,
    pub previous_scope: Option<Scope>,
    pub kanban: Option<kb::State>,
    pub conflict_viewer: Option<cv::State>,
    pub conflict_counts: Vec<ConflictCount>,
    pub help: Option<hp::State>,
    pub project_filter: Option<String>,
    pub days_filter: Option<u32>,
    pub spinner_tick: usize,
    pub last_transcript_height: u16,
    pub pane_focus: PaneFocus,
    pub last_sidebar_rect: Rect,
    pub last_sidebar_rows: Vec<SidebarRowKind>,
    pub last_transcript_rect: Rect,
    pub last_find_bar_rect: Rect,
    pub mouse_cursor: Option<(u16, u16)>,
    pub mouse_enabled: bool,
    /// The theme to load, where it is not the built-in one.
    pub theme_name: Option<String>,
    /// The scope that was saved when help was opened.
    pub scope_under_help: Option<Scope>,
    /// What is known of the sessions' observations.
    pub digest_summary_cache: Vec<DigestSummary>,
    /// The sessions with a bookmark.
    pub has_bookmarks_for_session: Vec<String>,
    pub effects: Vec<Effect>,
}

impl View for App {
    type V = AppModel;

    open spec fn view(&self) -> AppModel {
        AppModel {
            should_quit: self.should_quit,
            sidebar: models::items_view(self.sidebar@),
            selected: text::opt_view(self.selected_session_id),
            scroll: self.scroll,
            scroll_target: self.scroll_target,
            scroll_settled: self.scroll_settled,
            scroll_tween: self.scroll_tween,
            clock: self.clock,
            no_anim: self.no_anim,
            modal_opened_at: self.modal_opened_at,
            transcript: models::messages_view(self.transcript@),
            status: text::opt_view(self.status_message),
            read_only: self.read_only,
            scope: self.scope,
            search: match self.search {
                Some(s) => Some(s@),
                None => None,
            },
            find_open: self.find_open,
            pending_jump: text::opt_view(self.pending_jump_message_uuid),
            message_cursor: self.message_cursor as int,
            selection: self.selection_state,
            browser: match self.bookmark_browser {
                Some(s) => Some(s@),
                None => None,
            },
            confirm: match self.confirm {
                Some(s) => Some(s@),
                None => None,
            },
            label_prompt: match self.label_prompt {
                Some(s) => Some(s@),
                None => None,
            },
            previous_scope: self.previous_scope,
            kanban: match self.kanban {
                Some(s) => Some(s@),
                None => None,
            },
            viewer: match self.conflict_viewer {
                Some(s) => Some(s@),
                None => None,
            },
            counts: conflicts::counts_view(self.conflict_counts@),
            help: self.help,
            project_filter: text::opt_view(self.project_filter),
            days_filter: self.days_filter,
            spinner_tick: self.spinner_tick,
            last_transcript_height: self.last_transcript_height,
            pane_focus: self.pane_focus,
            last_sidebar_rect: self.last_sidebar_rect,
            last_sidebar_rows: self.last_sidebar_rows@,
            last_transcript_rect: self.last_transcript_rect,
            last_find_bar_rect: self.last_find_bar_rect,
            mouse_cursor: self.mouse_cursor,
            mouse_enabled: self.mouse_enabled,
            theme: text::opt_view(self.theme_name),
            scope_under_help: self.scope_under_help,
            summaries: digest::summaries_view(self.digest_summary_cache@),
            bookmarked: text::views(self.has_bookmarks_for_session@),
            requests: effects::requests_view(self.effects@),
        }
    }
}

fn announced(command: Command) -> (name: Option<&'static str>)
    ensures
        match name {
            Some(n) => state::announced_name(command) == Some(n@),
            None => state::announced_name(command) is None,
        },
{
    match command {
        Command::CycleSessionStatus => Some("cycle status"),
        Command::CycleSessionStatusBack => Some("cycle status backward"),
        Command::RefreshSessions => Some("refresh sessions"),
        Command::ThemeNext => Some("next theme"),
        Command::ThemePrev => Some("previous theme"),
        Command::ShrinkSidebar => Some("shrink sidebar"),
        Command::GrowSidebar => Some("grow sidebar"),
        Command::RenameSession => Some("rename session"),
        Command::CopyResumeCommand => Some("copy resume"),
        Command::ObserveSession => Some("observe session"),
        Command::ResumeObservation => Some("resume observation"),
        Command::ArchiveSession => Some("archive session"),
        Command::ToggleArchivedView => Some("toggle archived view"),
        Command::MoveSessionDown => Some("reorder session ↓"),
        Command::MoveSessionUp => Some("reorder session ↑"),
        Command::EditBookmarkNote => Some("edit bookmark note"),
        Command::OpenBookmarkNotePrompt => Some("edit bookmark note"),
        Command::ToggleToolFold => Some("toggle tool fold"),
        _ => None,
    }
}

impl App {
    // ---- small steps -------------------------------------------------------

    pub(crate) fn say(&mut self, words: &str)
        ensures
            final(self)@ == old(self)@.said(words@),
    {
        self.status_message = Some(words.to_owned());
    }

    pub(crate) fn say_with(&mut self, words: &str, more: &str)
        ensures
            final(self)@ == old(self)@.said(words@ + more@),
    {
        let mut line = words.to_owned();
        line.append(more);
        self.status_message = Some(line);
    }

    pub(crate) fn ask(&mut self, effect: Effect)
        ensures
            final(self)@ == old(self)@.asks(effect@),
    {
        let ghost before = self@.requests;
        self.effects.push(effect);
        assert(self@.requests =~= before.push(effect@));
    }

    pub(crate) fn refuse(&mut self)
        ensures
            final(self)@ == old(self)@.refused(),
    {
        self.say("Read-only — DB unavailable");
    }

    /// Scrolls to a row at `now`: at once where nothing is animated or the row
    /// is shown already, else by an animation.
    pub fn set_scroll_at(&mut self, target: u16, now: Instant)
        ensures
            final(self)@ == old(self)@.scrolled(target, now),
    {
        proof {
            reveal(AppModel::scrolled);
        }
        if self.no_anim {
            self.scroll = target;
            self.scroll_target = target;
            self.scroll_settled = true;
            self.scroll_tween = None;
        } else if self.scroll_settled && self.scroll == target {
            self.scroll_target = target;
            self.scroll_tween = None;
        } else {
            self.scroll_target = target;
            self.scroll_tween = Some(ScrollTween { to: target, started_at: now });
        }
    }

    /// Scrolls to a row. The animation, where there is one, starts when the
    /// application's clock says.
    pub fn set_scroll(&mut self, target: u16)
        ensures
            exists|now: Instant|
                old(self)@.clock.reads(now) && final(self)@ == #[trigger] old(self)@.scrolled(
                    target,
                    now,
                ),
    {
        let now = self.clock.now();
        self.set_scroll_at(target, now);
    }

    pub(crate) fn stamp(&mut self, now: Instant)
        ensures
            final(self)@ == old(self)@.stamped(now),
    {
        self.modal_opened_at = Some(now);
    }

    /// Notes the time at which a modal opened.
    pub fn stamp_modal_open(&mut self)
        ensures
            exists|now: Instant|
                old(self)@.clock.reads(now) && final(self)@ == #[trigger] old(self)@.stamped(now),
    {
        let now = self.clock.now();
        self.stamp(now);
    }

    /// Forgets the time at which a modal opened, where none is open.
    pub fn clear_modal_open(&mut self)
        ensures
            final(self)@ == old(self)@.unstamped(),
    {
        if !self.has_modal() {
            self.modal_opened_at = None;
        }
    }

    fn has_modal(&self) -> (yes: bool)
        ensures
            yes == self@.shows_modal(),
    {
        self.help.is_some() || self.confirm.is_some() || self.search.is_some()
            || self.conflict_viewer.is_some() || self.kanban.is_some() || self.label_prompt.is_some()
            || self.bookmark_browser.is_some()
    }

    /// Moves an animated scroll on by one frame, to what was sampled of it.
    pub fn tick_animations(&mut self, sample: ScrollSample)
        ensures
            final(self)@ == old(self)@.ticked(sample),
    {
        self.clear_modal_open();
        if self.scroll_tween.is_some() {
            if sample.done {
                self.scroll = self.scroll_target;
                self.scroll_settled = true;
                self.scroll_tween = None;
            } else {
                self.scroll = sample.row;
                self.scroll_settled = sample.on_row;
            }
        }
    }

    fn go_back(&mut self)
        ensures
            final(self)@ == old(self)@.back(),
    {
        self.scope = match self.previous_scope {
            Some(scope) => scope,
            None => Scope::MainScreen,
        };
        self.previous_scope = None;
    }

    pub(crate) fn enter(&mut self, scope: Scope)
        ensures
            final(self)@ == old(self)@.entered(scope),
    {
        self.previous_scope = Some(self.scope);
        self.scope = scope;
    }

    fn switch_to(&mut self, id: String, now: Instant)
        ensures
            final(self)@ == old(self)@.switched_to(id@, now),
    {
        proof {
            reveal(AppModel::switched_to);
        }
        if !text::is_some_text(&self.selected_session_id, id.as_str()) {
            self.selected_session_id = Some(id.clone());
            self.ask(Effect::PublishSelection(Some(id)));
            self.set_scroll_at(0, now);
        }
    }

    pub(crate) fn resolve_jump(&mut self, now: Instant)
        ensures
            final(self)@ == old(self)@.resolved(now),
    {
        proof {
            reveal(AppModel::resolved);
        }
        let line = match &self.pending_jump_message_uuid {
            Some(uuid) => models::message_to_line_index(&self.transcript, uuid.as_str()),
            None => None,
        };
        if let Some(row) = line {
            self.set_scroll_at(row, now);
            self.pending_jump_message_uuid = None;
        }
    }

    /// Scrolls to the message that a jump waits for, where it is in the
    /// transcript.
    pub fn try_resolve_pending_jump(&mut self)
        ensures
            exists|now: Instant|
                old(self)@.clock.reads(now) && final(self)@ == #[trigger] old(self)@.resolved(now),
    {
        let now = self.clock.now();
        self.resolve_jump(now);
    }

    fn jump_to(&mut self, id: String, uuid: String, now: Instant)
        ensures
            final(self)@ == old(self)@.jumped_to(id@, uuid@, now),
    {
        proof {
            reveal(AppModel::jumped_to);
        }
        self.pending_jump_message_uuid = Some(uuid);
        if text::is_some_text(&self.selected_session_id, id.as_str()) {
            self.resolve_jump(now);
        } else {
            self.switch_to(id, now);
        }
    }

    /// Selects a session, or none, and shows its transcript from the top.
    pub(crate) fn select_session(&mut self, id: Option<String>, now: Instant)
        ensures
            final(self)@ == (AppModel { selected: text::opt_view(id), ..old(self)@ }).asks(
                Request::PublishSelection(text::opt_view(id)),
            ).scrolled(0, now),
    {
        self.selected_session_id = text::clone_option(&id);
        self.ask(Effect::PublishSelection(id));
        self.set_scroll_at(0, now);
    }

    /// Takes the transcript of a session, where that is the selected one.
    pub(crate) fn adopt_transcript(
        &mut self,
        session_id: String,
        messages: Vec<CleanedMessage>,
        now: Instant,
    )
        ensures
            final(self)@ == old(self)@.transcript_refreshed(
                session_id@,
                models::messages_view(messages@),
                now,
            ),
    {
        if text::is_some_text(&self.selected_session_id, session_id.as_str()) {
            self.transcript = messages;
            self.message_cursor = 0;
            if self.find_open {
                self.ask(Effect::RecomputeFind);
            }
            self.resolve_jump(now);
        }
    }

    // ---- keys for what is open ------------------------------------------------

    #[verifier::rlimit(50)]
    fn dispatch_help(&mut self, key: KeyEvent)
        requires
            old(self).help is Some,
        ensures
            final(self)@ == old(self)@.help_key(key),
    {
        proof {
            reveal(AppModel::help_key);
        }
        let closed = match &mut self.help {
            Some(state) => hp::handle_key(state, key).is_some(),
            None => false,
        };
        if closed {
            self.help = None;
            self.go_back();
            self.previous_scope = self.scope_under_help;
            self.scope_under_help = None;
        }
    }

    fn execute_pending_action(&mut self, action: PendingAction)
        ensures
            final(self)@ == old(self)@.executed(action),
    {
        match action {
            PendingAction::DeleteBookmark { bookmark_id } => {
                if self.read_only {
                    self.refuse();
                } else {
                    self.ask(Effect::DeleteBookmark { bookmark_id });
                }
            },
        }
    }

    #[verifier::rlimit(50)]
    fn dispatch_confirm(&mut self, key: KeyEvent)
        requires
            old(self).confirm is Some,
        ensures
            final(self)@ == old(self)@.confirm_key(key),
    {
        proof {
            reveal(AppModel::confirm_key);
        }
        let answer = match &mut self.confirm {
            Some(req) => cf::handle_key(&mut req.state, key),
            None => None,
        };
        let on_yes = match &self.confirm {
            Some(req) => req.on_yes,
            None => {
                return;
            },
        };
        match answer {
            Some(cf::ConfirmResult::Yes) => {
                self.confirm = None;
                self.execute_pending_action(on_yes);
                self.go_back();
            },
            Some(cf::ConfirmResult::No) => {
                self.confirm = None;
                self.go_back();
            },
            None => {},
        }
    }

    #[verifier::rlimit(50)]
    fn dispatch_kanban(&mut self, key: KeyEvent, now: Instant)
        requires
            old(self).kanban is Some,
            old(self)@.wf(),
        ensures
            final(self)@ == old(self)@.kanban_key(key, now),
    {
        proof {
            reveal(AppModel::kanban_key);
        }
        let mut board = match self.kanban.take() {
            Some(board) => board,
            None => {
                return;
            },
        };
        match kb::handle_key(&mut board, key) {
            Some(kb::KanbanResult::Cancelled) => {
                self.go_back();
            },
            Some(kb::KanbanResult::JumpToSession { session_id }) => {
                self.go_back();
                self.switch_to(session_id, now);
            },
            Some(kb::KanbanResult::StatusChanged { session_id, new_status }) => {
                self.kanban = Some(board);
                if self.read_only {
                    self.refuse();
                    self.ask(Effect::ReloadStatuses);
                } else {
                    self.ask(
                        Effect::SetStatus {
                            session_id,
                            status: new_status,
                            origin: StatusOrigin::Board,
                        },
                    );
                }
            },
            None => {
                self.kanban = Some(board);
            },
        }
    }

    #[verifier::rlimit(50)]
    fn dispatch_conflict_viewer(&mut self, key: KeyEvent, now: Instant)
        requires
            old(self).conflict_viewer is Some,
        ensures
            final(self)@ == old(self)@.viewer_key(key, now),
    {
        proof {
            reveal(AppModel::viewer_key);
        }
        let result = match &mut self.conflict_viewer {
            Some(state) => cv::handle_key(state, key),
            None => None,
        };
        match result {
            Some(cv::ConflictViewerResult::Cancelled) => {
                self.conflict_viewer = None;
                self.go_back();
            },
            Some(cv::ConflictViewerResult::JumpToSession { session_id }) => {
                self.conflict_viewer = None;
                self.go_back();
                self.switch_to(session_id, now);
            },
            Some(cv::ConflictViewerResult::MarkResolved { conflict_id }) => {
                self.ask(Effect::ResolveConflict { conflict_id });
            },
            None => {},
        }
    }

    #[verifier::rlimit(50)]
    fn dispatch_label_prompt(&mut self, key: KeyEvent)
        requires
            old(self).label_prompt is Some,
            old(self)@.wf(),
        ensures
            final(self)@ == old(self)@.label_key(key),
    {
        proof {
            reveal(AppModel::label_key);
        }
        let mut prompt = match self.label_prompt.take() {
            Some(prompt) => prompt,
            None => {
                return;
            },
        };
        match lp::handle_key(&mut prompt, key) {
            Some(lp::LabelPromptResult::Cancelled) => {
                self.scope = Scope::MainScreen;
            },
            Some(lp::LabelPromptResult::StatusChosen(status)) => {
                self.scope = Scope::MainScreen;
                if self.read_only {
                    self.refuse();
                } else {
                    self.ask(
                        Effect::SetStatus {
                            session_id: prompt.session_id,
                            status,
                            origin: StatusOrigin::LabelPrompt,
                        },
                    );
                }
            },
            Some(lp::LabelPromptResult::CustomNameSet(name)) => {
                self.scope = Scope::MainScreen;
                if self.read_only {
                    self.refuse();
                } else {
                    self.ask(Effect::SetCustomName { session_id: prompt.session_id, name });
                }
            },
            None => {
                self.label_prompt = Some(prompt);
            },
        }
    }

    fn delete_request(&self, bookmark_id: i64) -> (request: ConfirmRequest)
        requires
            self.bookmark_browser is Some,
        ensures
            request@ == state::delete_question(self@.browser.unwrap().rows, bookmark_id),
    {
        let mut question = cf::State::new("Delete bookmark?".to_owned());
        if let Some(browser) = &self.bookmark_browser {
            let ghost rows = bb::rows_view(browser.bookmarks@);
            let mut i: usize = 0;
            while i < browser.bookmarks.len() && browser.bookmarks[i].id != bookmark_id
                invariant
                    i <= browser.bookmarks@.len(),
                    rows == bb::rows_view(browser.bookmarks@),
                    state::note_of(rows, bookmark_id, 0) == state::note_of(
                        rows,
                        bookmark_id,
                        i as int,
                    ),
                decreases browser.bookmarks@.len() - i,
            {
                i += 1;
            }
            if i < browser.bookmarks.len() {
                if let Some(note) = &browser.bookmarks[i].note {
                    let mut detail = "\"".to_owned();
                    detail.append(note.as_str());
                    detail.append("\"");
                    question = question.with_detail(detail);
                }
            }
        }
        ConfirmRequest { state: question, on_yes: PendingAction::DeleteBookmark { bookmark_id } }
    }

    #[verifier::rlimit(50)]
    fn dispatch_bookmark_browser(&mut self, key: KeyEvent, now: Instant)
        requires
            old(self).bookmark_browser is Some,
        ensures
            final(self)@ == old(self)@.browser_key(key, now),
    {
        proof {
            reveal(AppModel::browser_key);
        }
        let result = match &mut self.bookmark_browser {
            Some(state) => bb::handle_key(state, key),
            None => None,
        };
        match result {
            Some(bb::Result::Cancelled) => {
                self.bookmark_browser = None;
                self.scope = Scope::MainScreen;
            },
            Some(bb::Result::JumpToMessage { session_id, message_uuid }) => {
                self.bookmark_browser = None;
                self.scope = Scope::MainScreen;
                self.jump_to(session_id, message_uuid, now);
            },
            Some(bb::Result::DeleteRequested { bookmark_id }) => {
                let request = self.delete_request(bookmark_id);
                self.confirm = Some(request);
                self.enter(Scope::ConfirmModal);
                self.stamp(now);
            },
            None => {},
        }
    }

    #[verifier::rlimit(50)]
    fn dispatch_search(&mut self, key: KeyEvent, now: Moment)
        requires
            old(self).search is Some,
        ensures
            final(self)@ == old(self)@.search_key(key, now),
    {
        proof {
            reveal(AppModel::search_key);
        }
        let result = match &mut self.search {
            Some(state) => se::handle_key_at(state, key, now.search_millis),
            None => None,
        };
        let committed = match &self.search {
            Some(state) => state.committed_query.clone(),
            None => {
                return;
            },
        };
        match result {
            Some(se::SearchResult::Cancelled) => {
                self.search = None;
                self.scope = Scope::MainScreen;
            },
            Some(se::SearchResult::JumpToMessage { session_id, message_uuid }) => {
                self.search = None;
                self.scope = Scope::MainScreen;
                self.jump_to(session_id, message_uuid, now.at);
                if !text::is_blank(committed.as_str()) {
                    self.ask(Effect::SaveRecentSearch(committed));
                }
            },
            None => {},
        }
    }

    #[verifier::rlimit(50)]
    pub(crate) fn answer_find(&mut self, answer: Option<FindResult>, now: Instant)
        ensures
            final(self)@ == old(self)@.find_answered(answer, now),
    {
        proof {
            reveal(AppModel::find_answered);
        }
        match answer {
            Some(FindResult::Closed) => {
                self.find_open = false;
                self.scope = Scope::MainScreen;
            },
            Some(FindResult::JumpedToMatch { message_index }) => {
                if message_index < self.transcript.len() {
                    let line = models::message_to_line_index(
                        &self.transcript,
                        self.transcript[message_index].uuid.as_str(),
                    );
                    if let Some(row) = line {
                        self.set_scroll_at(row, now);
                    }
                }
                self.find_open = false;
                self.scope = Scope::MainScreen;
            },
            None => {},
        }
    }

    // ---- selection mode -------------------------------------------------------

    #[verifier::rlimit(50)]
    fn scroll_selection_into_view(&mut self, now: Instant)
        ensures
            final(self)@ == old(self)@.selection_in_view(now),
    {
        proof {
            reveal(AppModel::selection_in_view);
        }
        let cursor: usize = match self.selection_state {
            Some(sel) => sel.cursor,
            None => {
                return;
            },
        };
        let len: usize = self.transcript.len();
        if len == 0 {
            return;
        }
        let at: usize = if cursor < len {
            cursor
        } else {
            len - 1
        };
        let line = models::message_to_line_index(
            &self.transcript,
            self.transcript[at].uuid.as_str(),
        );
        if let Some(row) = line {
            let height: u16 = if self.last_transcript_height == 0 {
                8
            } else {
                self.last_transcript_height
            };
            let bottom: u32 = self.scroll as u32 + height as u32;
            if !(self.scroll <= row && (row as u32) < bottom) {
                let offset: u16 = height / 3;
                let target: u16 = if offset >= row {
                    0
                } else {
                    row - offset
                };
                self.set_scroll_at(target, now);
            }
        }
    }

    fn enter_selection_mode(&mut self, now: Instant)
        ensures
            final(self)@ == old(self)@.entered_selection(now),
    {
        if self.transcript.len() == 0 {
            self.say("Nothing to select — transcript empty");
            return;
        }
        self.selection_state = Some(
            SelectionState { cursor: self.transcript.len() - 1, range_start: None },
        );
        self.enter(Scope::Selection);
        self.say(
            "Selection: j/k move, v range, y copy, e export, space bookmark, L note, m/Esc exit",
        );
        self.scroll_selection_into_view(now);
    }

    fn exit_selection_mode(&mut self)
        ensures
            final(self)@ == (AppModel { selection: None, ..old(self)@ }).back(),
    {
        self.selection_state = None;
        self.go_back();
    }

    fn move_selection_cursor(&mut self, down: bool)
        ensures
            final(self)@ == old(self)@.selection_moved(down),
    {
        if let Some(sel) = self.selection_state {
            let cursor: usize = if down && sel.cursor < self.transcript.len() && sel.cursor + 1
                < self.transcript.len() {
                sel.cursor + 1
            } else if !down && sel.cursor > 0 {
                sel.cursor - 1
            } else {
                sel.cursor
            };
            self.selection_state = Some(SelectionState { cursor, range_start: sel.range_start });
        }
    }

    fn toggle_range_mode(&mut self)
        ensures
            final(self)@ == old(self)@.range_toggled(),
    {
        if let Some(sel) = self.selection_state {
            let range_start = match sel.range_start {
                Some(_) => None,
                None => Some(sel.cursor),
            };
            self.selection_state = Some(SelectionState { cursor: sel.cursor, range_start });
        }
    }

    #[verifier::rlimit(50)]
    fn selection_text(&self, sel: SelectionState) -> (body: String)
        requires
            self.selection_state == Some(sel),
        ensures
            body@ == self@.picked_text(),
    {
        let (lo, hi) = sel.range();
        let mut body = String::new();
        let ghost messages = self@.transcript;
        let mut i: usize = lo;
        assert(body@ + state::messages_text(messages, lo as int, hi + 1)
            =~= state::messages_text(messages, lo as int, hi + 1));
        while i <= hi && i < self.transcript.len()
            invariant
                messages == models::messages_view(self.transcript@),
                lo <= i,
                state::messages_text(messages, lo as int, hi + 1) == body@
                    + state::messages_text(messages, i as int, hi + 1),
            decreases self.transcript@.len() - i,
        {
            let msg = &self.transcript[i];
            let ghost start = body@;
            body.append("## ");
            body.append(msg.role_label.as_str());
            if let Some(ts) = &msg.timestamp {
                body.append("  ");
                body.append(ts.as_str());
            }
            body.append("\n\n");
            body.append(msg.text.as_str());
            body.append("\n\n");
            proof {
                let m = messages[i as int];
                assert(m == msg@);
                assert(body@ =~= start + state::message_text(m));
                let rest = state::messages_text(messages, i + 1, hi + 1);
                assert(start + (state::message_text(m) + rest) =~= (start
                    + state::message_text(m)) + rest);
            }
            i += 1;
        }
        assert(body@ + Seq::<char>::empty() =~= body@);
        body
    }

    /// Asks for the selected messages to be put onto the clipboard.
    pub fn copy_selection_to_clipboard(&mut self)
        ensures
            final(self)@ == old(self)@.copied(),
    {
        match self.selection_state {
            Some(sel) => {
                if self.transcript.len() == 0 {
                    self.say("No selection to copy");
                    return;
                }
                let body = self.selection_text(sel);
                let chars: usize = body.as_str().unicode_len();
                self.ask(Effect::CopyText { text: body, chars });
            },
            None => {
                self.say("No selection to copy");
            },
        }
    }

    fn export_selection(&mut self)
        ensures
            final(self)@ == old(self)@.exported(),
    {
        if let Some(sel) = self.selection_state {
            let body = self.selection_text(sel);
            self.ask(Effect::ExportText { text: body });
        }
    }

    fn toggle_bookmark_at(&mut self, cursor: usize)
        ensures
            final(self)@ == old(self)@.bookmark_toggled_at(cursor as int),
    {
        if cursor >= self.transcript.len() {
            self.say("no message under cursor");
        } else if self.read_only {
            self.refuse();
        } else {
            let uuid = self.transcript[cursor].uuid.clone();
            self.ask(Effect::ProbeMessage { uuid });
        }
    }

    #[verifier::rlimit(50)]
    fn dispatch_selection_mode(&mut self, key: KeyEvent, now: Instant)
        ensures
            final(self)@ == old(self)@.selection_key(key, now),
    {
        proof {
            reveal(AppModel::selection_key);
        }
        match keys::lookup(Scope::Selection, key) {
            Some(Command::SelectNextSession) => {
                self.move_selection_cursor(true);
                self.scroll_selection_into_view(now);
            },
            Some(Command::SelectPrevSession) => {
                self.move_selection_cursor(false);
                self.scroll_selection_into_view(now);
            },
            Some(Command::Confirm) => {
                if let KeyCode::Char(c) = key.code {
                    if c == 'v' {
                        self.toggle_range_mode();
                    } else if c == 'y' {
                        self.copy_selection_to_clipboard();
                    } else if c == 'e' {
                        self.export_selection();
                    }
                }
            },
            Some(Command::ToggleBookmark) => {
                if let Some(sel) = self.selection_state {
                    self.toggle_bookmark_at(sel.cursor);
                }
            },
            Some(Command::EditBookmarkNote) => {
                self.say("Edit bookmark note — not wired yet (Phase E)");
            },
            Some(Command::EnterSelectionMode) => {
                self.exit_selection_mode();
            },
            Some(Command::Cancel) => {
                self.exit_selection_mode();
            },
            Some(Command::Quit) => {
                self.should_quit = true;
            },
            _ => {},
        }
    }

    // ---- commands of the main screen -------------------------------------------

    fn move_selection(&mut self, down: bool, now: Instant)
        ensures
            final(self)@ == old(self)@.selection_stepped(down, now),
    {
        let len: usize = self.sidebar.len();
        if len == 0 {
            return;
        }
        let found = match &self.selected_session_id {
            Some(id) => models::position_of(&self.sidebar, id.as_str()),
            None => None,
        };
        let current: usize = match found {
            Some(at) => at,
            None => 0,
        };
        let next: usize = if down {
            if current + 1 == len {
                0
            } else {
                current + 1
            }
        } else if current == 0 {
            len - 1
        } else {
            current - 1
        };
        proof {
            let n = len as int;
            let c = current as int;
            if down {
                if c + 1 == n {
                    assert((c + 1) % n == 0) by (nonlinear_arith)
                        requires
                            c + 1 == n,
                            n > 0,
                    ;
                } else {
                    assert((c + 1) % n == c + 1) by (nonlinear_arith)
                        requires
                            0 <= c + 1 < n,
                    ;
                }
            } else if c == 0 {
                assert((c + n - 1) % n == n - 1) by (nonlinear_arith)
                    requires
                        c == 0,
                        n > 0,
                ;
            } else {
                assert((c + n - 1) % n == c - 1) by (nonlinear_arith)
                    requires
                        0 < c < n,
                ;
            }
        }
        let id = self.sidebar[next].session_id.clone();
        self.switch_to(id, now);
    }

    fn stub_command(&mut self, name: &str)
        ensures
            final(self)@ == old(self)@.said("Not implemented yet: "@ + name@),
    {
        self.say_with("Not implemented yet: ", name);
    }

    fn open_help(&mut self, now: Instant)
        ensures
            final(self)@ == old(self)@.helped(now),
    {
        self.help = Some(hp::State::new(self.scope));
        self.scope_under_help = self.previous_scope;
        self.enter(Scope::HelpOverlay);
        self.stamp(now);
    }

    fn open_search(&mut self, now: Instant)
        ensures
            final(self)@ == old(self)@.carried_out(Command::OpenSearchModal, now),
    {
        self.search = Some(se::SearchState::new_at(now));
        self.scope = Scope::SearchModal;
        self.stamp(now);
        self.ask(Effect::LoadRecentSearches);
    }

    fn open_label_prompt(&mut self)
        ensures
            final(self)@ == match old(self)@.selected {
                Some(session_id) => old(self)@.asks(Request::LoadSessionStatus { session_id }),
                None => old(self)@.said("no session selected"@),
            },
    {
        match &self.selected_session_id {
            Some(id) => {
                let session_id = id.clone();
                self.ask(Effect::LoadSessionStatus { session_id });
            },
            None => {
                self.say("no session selected");
            },
        }
    }

    #[verifier::rlimit(50)]
    fn carry_out(&mut self, command: Command, now: Instant)
        ensures
            final(self)@ == old(self)@.carried_out(command, now),
    {
        match command {
            Command::Quit => {
                self.should_quit = true;
            },
            Command::SelectNextSession => self.move_selection(true, now),
            Command::SelectPrevSession => self.move_selection(false, now),
            Command::ScrollTop => self.set_scroll_at(0, now),
            Command::ScrollBottom => self.set_scroll_at(u16::MAX, now),
            Command::ScrollDownHalf => {
                let target: u16 = if self.scroll > 65535 - HALF_PAGE {
                    65535
                } else {
                    self.scroll + HALF_PAGE
                };
                self.set_scroll_at(target, now);
            },
            Command::ScrollUpHalf => {
                let target: u16 = if self.scroll <= HALF_PAGE {
                    0
                } else {
                    self.scroll - HALF_PAGE
                };
                self.set_scroll_at(target, now);
            },
            Command::OpenSearchModal => self.open_search(now),
            Command::OpenFindBar => {
                self.find_open = true;
                self.scope = Scope::FindBar;
                self.ask(Effect::OpenFindBar);
            },
            Command::OpenHelp => self.open_help(now),
            Command::ToggleBookmark => {
                let cursor: usize = self.message_cursor;
                self.toggle_bookmark_at(cursor);
            },
            Command::OpenBookmarkBrowser => self.ask(Effect::LoadBookmarks),
            Command::OpenLabelPrompt => self.open_label_prompt(),
            Command::MoveCursorDown => {
                if self.message_cursor < self.transcript.len() && self.message_cursor + 1
                    < self.transcript.len() {
                    self.message_cursor = self.message_cursor + 1;
                }
            },
            Command::MoveCursorUp => {
                if self.message_cursor > 0 {
                    self.message_cursor = self.message_cursor - 1;
                }
            },
            Command::OpenKanban => self.ask(Effect::LoadStatuses),
            Command::OpenConflictViewer => self.ask(Effect::LoadConflicts),
            Command::FocusTranscript => {
                self.pane_focus = PaneFocus::Transcript;
            },
            Command::FocusList => {
                self.pane_focus = PaneFocus::Sidebar;
            },
            Command::EnterSelectionMode => self.enter_selection_mode(now),
            _ => {},
        }
    }

    fn run_command(&mut self, command: Command, now: Instant)
        ensures
            final(self)@ == old(self)@.ran(command, now),
    {
        proof {
            reveal(AppModel::ran);
        }
        match announced(command) {
            Some(name) => self.stub_command(name),
            None => self.carry_out(command, now),
        }
    }

    fn is_help_heard(&self) -> (yes: bool)
        ensures
            yes == self@.hears_help(),
    {
        if self.confirm.is_some() || self.kanban.is_some() || self.conflict_viewer.is_some() {
            return true;
        }
        match &self.label_prompt {
            Some(prompt) => prompt.mode == lp::Mode::StatusPicker,
            None => self.bookmark_browser.is_some() || (self.search.is_none() && !self.find_open
                && self.scope == Scope::Selection),
        }
    }

    /// Handles one key at `now`. What is open gets the key, the topmost first;
    /// help opens over what is not typed into; where nothing is open, the key is
    /// a command of the scope, which is handed back.
    #[verifier::rlimit(50)]
    pub fn handle_key_at(&mut self, key: KeyEvent, now: Moment) -> (command: Option<Command>)
        requires
            old(self)@.wf(),
        ensures
            final(self)@ == old(self)@.keyed(key, now),
            command == old(self)@.command_run(key),
            final(self)@.wf(),
    {
        proof {
            state::keys_keep_order(self@, key, now);
        }
        if self.help.is_some() {
            self.dispatch_help(key);
            return None;
        }
        if self.is_help_heard() && keys::is_help_key(key) {
            self.open_help(now.at);
            return None;
        }
        if self.confirm.is_some() {
            self.dispatch_confirm(key);
            return None;
        }
        if self.kanban.is_some() {
            self.dispatch_kanban(key, now.at);
            return None;
        }
        if self.conflict_viewer.is_some() {
            self.dispatch_conflict_viewer(key, now.at);
            return None;
        }
        if self.label_prompt.is_some() {
            self.dispatch_label_prompt(key);
            return None;
        }
        if self.bookmark_browser.is_some() {
            self.dispatch_bookmark_browser(key, now.at);
            return None;
        }
        if self.search.is_some() {
            self.dispatch_search(key, now);
            return None;
        }
        if self.find_open {
            self.ask(Effect::FindBarKey(key));
            return None;
        }
        if self.scope == Scope::Selection {
            self.dispatch_selection_mode(key, now.at);
            return None;
        }
        match keys::lookup(self.scope, key) {
            Some(command) => {
                self.run_command(command, now.at);
                Some(command)
            },
            None => None,
        }
    }

    /// Reads the clocks.
    pub(crate) fn moment(&self) -> (now: Moment)
        ensures
            self@.clock.reads(now.at),
    {
        let search_millis: u128 = match &self.search {
            Some(search) => se::millis_since(search.opened_at),
            None => 0,
        };
        Moment { at: self.clock.now(), search_millis }
    }

    /// Handles one key when the application's clock says.
    pub fn handle_key(&mut self, key: KeyEvent) -> (command: Option<Command>)
        requires
            old(self)@.wf(),
        ensures
            exists|now: Moment|
                old(self)@.clock.reads(now.at) && final(self)@ == #[trigger] old(self)@.keyed(
                    key,
                    now,
                ),
            command == old(self)@.command_run(key),
            final(self)@.wf(),
    {
        let now = self.moment();
        self.handle_key_at(key, now)
    }
}

/// The column of the close mark of a find bar, or none where the bar has no
/// room for it.
pub fn find_bar_close_col(bar: Rect) -> (column: Option<u16>)
    requires
        bar.width < 2 || bar.x + bar.width <= u16::MAX,
    ensures
        column == state::close_column(bar),
{
    if bar.width < 2 {
        return None;
    }
    Some(bar.x + bar.width - 2)
}

impl App {
    // ---- the mouse ---------------------------------------------------------------

    fn click_sidebar(&mut self, row: usize, now: Instant) -> (hit: Option<HitAction>)
        ensures
            (final(self)@, hit) == old(self)@.sidebar_clicked(row as int, now),
    {
        if row < self.last_sidebar_rows.len() {
            if let SidebarRowKind::Session(index) = self.last_sidebar_rows[row] {
                if index < self.sidebar.len() {
                    let id = self.sidebar[index].session_id.clone();
                    self.switch_to(id, now);
                    self.pane_focus = PaneFocus::Sidebar;
                    return Some(HitAction::SelectSessionAt(index));
                }
            }
        }
        None
    }

    #[verifier::rlimit(50)]
    fn handle_click(&mut self, column: u16, row: u16, now: Instant) -> (hit: Option<HitAction>)
        requires
            !old(self)@.shows_modal() && old(self).find_open ==> old(self).last_find_bar_rect.width < 2
                || old(self).last_find_bar_rect.x + old(self).last_find_bar_rect.width <= u16::MAX,
        ensures
            (final(self)@, hit) == old(self)@.clicked(column, row, now),
    {
        if self.has_modal() {
            return None;
        }
        if self.find_open {
            let bar = self.last_find_bar_rect;
            if let Some(close) = find_bar_close_col(bar) {
                if row == bar.y && column == close {
                    self.find_open = false;
                    self.scope = Scope::MainScreen;
                    return Some(HitAction::CloseFindBar);
                }
            }
        }
        let rect = self.last_sidebar_rect;
        if ui::rect_contains(rect, column, row) {
            return self.click_sidebar((row - rect.y) as usize, now);
        }
        if ui::rect_contains(self.last_transcript_rect, column, row) {
            self.pane_focus = PaneFocus::Transcript;
            return Some(HitAction::FocusTranscript);
        }
        None
    }

    /// Handles one mouse event at `now`. The wheel scrolls the transcript under
    /// it; a left click closes the find bar, selects a session, or gives the
    /// transcript the focus, unless a modal is open.
    #[verifier::rlimit(50)]
    pub fn handle_mouse_at(&mut self, event: MouseEvent, now: Instant) -> (hit: Option<HitAction>)
        requires
            old(self)@.can_take(event),
        ensures
            (final(self)@, hit) == old(self)@.moused(event, now),
            old(self)@.wf() ==> final(self)@.wf(),
    {
        proof {
            if self@.wf() {
                state::mouse_keeps_order(self@, event, now);
            }
        }
        match event.kind {
            MouseEventKind::ScrollDown => {
                if !ui::rect_contains(self.last_transcript_rect, event.column, event.row) {
                    return None;
                }
                let target: u16 = if self.scroll == 65535 {
                    65535
                } else {
                    self.scroll + 1
                };
                self.set_scroll_at(target, now);
                Some(HitAction::ScrollTranscript(1))
            },
            MouseEventKind::ScrollUp => {
                if !ui::rect_contains(self.last_transcript_rect, event.column, event.row) {
                    return None;
                }
                let target: u16 = if self.scroll == 0 {
                    0
                } else {
                    self.scroll - 1
                };
                self.set_scroll_at(target, now);
                Some(HitAction::ScrollTranscript(-1))
            },
            MouseEventKind::ScrollLeft | MouseEventKind::ScrollRight => None,
            MouseEventKind::Down(MouseButton::Left) => {
                self.mouse_cursor = Some((event.column, event.row));
                self.handle_click(event.column, event.row, now)
            },
            _ => {
                self.mouse_cursor = Some((event.column, event.row));
                None
            },
        }
    }

    /// Handles one mouse event when the application's clock says.
    pub fn handle_mouse(&mut self, event: MouseEvent) -> (hit: Option<HitAction>)
        requires
            old(self)@.can_take(event),
        ensures
            exists|now: Instant|
                old(self)@.clock.reads(now) && (final(self)@, hit) == #[trigger] old(
                    self,
                )@.moused(event, now),
            old(self)@.wf() ==> final(self)@.wf(),
    {
        let now = self.clock.now();
        self.handle_mouse_at(event, now)
    }

    // ---- the start ---------------------------------------------------------------

    /// The application as it starts. `theme_name` is the theme that was asked
    /// for, and `config` the bytes of the configuration file. `db_error` says
    /// why the database could not be opened: nothing is stored then. `no_anim`
    /// is the value of the environment's switch for animations.
    pub fn new_with_theme_name(
        theme_name: Option<String>,
        config: &Option<Vec<u8>>,
        db_error: Option<String>,
        no_anim: Option<String>,
    ) -> (app: App)
        ensures
            app@ == (AppModel {
                theme: config::theme_of(text::opt_view(theme_name), *config),
                ..state::fresh_app(
                    text::opt_view(db_error),
                    state::switches_off(text::opt_view(no_anim)),
                )
            }),
            app@.wf(),
    {
        let read_only = db_error.is_some();
        let status = match db_error {
            Some(e) => {
                let mut line = "DB unavailable: ".to_owned();
                line.append(e.as_str());
                line
            },
            None => "Press ? for keybindings".to_owned(),
        };
        let still = match no_anim {
            Some(v) => {
                let lower = text::to_ascii_lower(v.as_str());
                text::same_text(v.as_str(), "1") || text::same_text(lower.as_str(), "true")
            },
            None => false,
        };
        let app = App {
            should_quit: false,
            sidebar: Vec::new(),
            selected_session_id: None,
            scroll: 0,
            scroll_target: 0,
            scroll_settled: true,
            scroll_tween: None,
            clock: Clock::System,
            no_anim: still,
            modal_opened_at: None,
            transcript: Vec::new(),
            status_message: Some(status),
            read_only,
            scope: Scope::MainScreen,
            search: None,
            find_open: false,
            pending_jump_message_uuid: None,
            message_cursor: 0,
            selection_state: None,
            bookmark_browser: None,
            confirm: None,
            label_prompt: None,
            previous_scope: None,
            kanban: None,
            conflict_viewer: None,
            conflict_counts: Vec::new(),
            help: None,
            project_filter: None,
            days_filter: None,
            spinner_tick: 0,
            last_transcript_height: 0,
            pane_focus: PaneFocus::Transcript,
            last_sidebar_rect: Rect::empty(),
            last_sidebar_rows: Vec::new(),
            last_transcript_rect: Rect::empty(),
            last_find_bar_rect: Rect::empty(),
            mouse_cursor: None,
            mouse_enabled: true,
            theme_name: config::resolve_theme_name(theme_name, config),
            scope_under_help: None,
            digest_summary_cache: Vec::new(),
            has_bookmarks_for_session: Vec::new(),
            effects: Vec::new(),
        };
        assert(app@.sidebar =~= Seq::empty());
        assert(app@.summaries =~= Seq::empty());
        assert(app@.bookmarked =~= Seq::empty());
        assert(app@.transcript =~= Seq::empty());
        assert(app@.counts =~= Seq::empty());
        assert(app@.requests =~= Seq::empty());
        app
    }

    /// The application as it starts with its database open and nothing said of
    /// animations.
    pub fn new() -> (app: App)
        ensures
            app@ == state::fresh_app(None, false),
            app@.wf(),
    {
        App::new_with_theme_name(None, &None, None, None)
    }

    /// Takes what the command line asked for: the sessions to show, and one to
    /// select.
    pub fn apply_cli(
        &mut self,
        project: Option<String>,
        days: Option<u32>,
        session: Option<String>,
    )
        ensures
            final(self)@ == old(self)@.configured(
                text::opt_view(project),
                days,
                text::opt_view(session),
            ),
    {
        self.project_filter = project;
        self.days_filter = days;
        if let Some(id) = session {
            self.selected_session_id = Some(id.clone());
            self.ask(Effect::PublishSelection(Some(id)));
        }
    }

    /// Hands out the requests, in the order in which they came up.
    pub fn take_effects(&mut self) -> (requests: Vec<Effect>)
        ensures
            requests == old(self).effects,
            final(self)@ == (AppModel { requests: Seq::empty(), ..old(self)@ }),
    {
        let mut requests: Vec<Effect> = Vec::new();
        std::mem::swap(&mut requests, &mut self.effects);
        assert(self@.requests =~= Seq::empty());
        requests
    }
}

impl Default for App {
    fn default() -> (app: App)
        ensures
            app@ == state::fresh_app(None, false),
    {
        App::new()
    }
}

} // verus!
