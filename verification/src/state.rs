//! What the application holds, and how each event changes it.

use std::time::Instant;

use vstd::prelude::*;

use crate::anim::{Clock, Moment};
use crate::clipboard::ClipboardError;
use crate::conflicts;
use crate::digest;
use crate::digest::SummaryModel;
use crate::effects::{Request, StatusOrigin};
use crate::keys;
use crate::keys::{Command, KeyCode, KeyEvent, MouseButton, MouseEvent, MouseEventKind, Scope};
use crate::models;
use crate::models::{ItemModel, MessageModel, SelectionState, SessionStatus, SidebarRowKind};
use crate::screens::bookmark_browser as bb;
use crate::screens::confirm as cf;
use crate::screens::conflict_viewer as cv;
use crate::screens::help as hp;
use crate::screens::kanban as kb;
use crate::screens::label_prompt as lp;
use crate::screens::search as se;
use crate::text;
use crate::ui;
use crate::ui::Rect;

verus! {

/// What is done when a confirm modal is answered with yes.
#[derive(Debug, Clone, Copy, PartialEq, Eq, Structural)]
pub enum PendingAction {
    DeleteBookmark { bookmark_id: i64 },
}

/// Which pane has the focus.
#[derive(Debug, Clone, Copy, PartialEq, Eq, Structural)]
pub enum PaneFocus {
    Sidebar,
    Transcript,
}

/// An animated scroll under way: where it leads, and when it started.
#[derive(Debug, Clone, Copy)]
pub struct ScrollTween {
    pub to: u16,
    pub started_at: Instant,
}

/// What an animated scroll shows at some point: the row nearest to it, whether
/// it is exactly on that row, and whether it is over.
#[derive(Debug, Clone, Copy, PartialEq, Eq, Structural)]
pub struct ScrollSample {
    pub row: u16,
    pub on_row: bool,
    pub done: bool,
}

/// What the find bar made of a key that it did not keep.
#[derive(Debug, Clone, Copy, PartialEq, Eq, Structural)]
pub enum FindResult {
    Closed,
    JumpedToMatch { message_index: usize },
}

/// What a mouse event did.
#[derive(Debug, Clone, Copy, PartialEq, Eq, Structural)]
pub enum HitAction {
    /// The session at this position of the sidebar was clicked.
    SelectSessionAt(usize),
    /// The transcript was scrolled by this many rows.
    ScrollTranscript(i16),
    FocusTranscript,
    CloseFindBar,
}

/// What a session's status is known to be.
#[derive(Debug, Clone)]
pub struct KnownStatus {
    pub session_id: String,
    pub status: SessionStatus,
}

/// Rows that half a page scrolls.
pub const HALF_PAGE: u16 = 20;

/// A confirm modal with what is done on yes.
#[verifier::ext_equal]
pub struct ConfirmModel {
    pub question: cf::QuestionModel,
    pub on_yes: PendingAction,
}

/// What the application holds.
#[verifier::ext_equal]
pub struct AppModel {
    pub should_quit: bool,
    pub sidebar: Seq<ItemModel>,
    pub selected: Option<Seq<char>>,
    pub scroll: u16,
    pub scroll_target: u16,
    pub scroll_settled: bool,
    pub scroll_tween: Option<ScrollTween>,
    pub clock: Clock,
    pub no_anim: bool,
    pub modal_opened_at: Option<Instant>,
    pub transcript: Seq<MessageModel>,
    pub status: Option<Seq<char>>,
    pub read_only: bool,
    pub scope: Scope,
    pub search: Option<se::SearchModel>,
    pub find_open: bool,
    pub pending_jump: Option<Seq<char>>,
    pub message_cursor: int,
    pub selection: Option<SelectionState>,
    pub browser: Option<bb::BrowserModel>,
    pub confirm: Option<ConfirmModel>,
    pub label_prompt: Option<lp::PromptModel>,
    pub previous_scope: Option<Scope>,
    pub kanban: Option<kb::BoardModel>,
    pub viewer: Option<cv::ViewerModel>,
    pub counts: Seq<conflicts::CountModel>,
    pub help: Option<hp::State>,
    pub project_filter: Option<Seq<char>>,
    pub days_filter: Option<u32>,
    pub spinner_tick: usize,
    pub last_transcript_height: u16,
    pub pane_focus: PaneFocus,
    pub last_sidebar_rect: Rect,
    pub last_sidebar_rows: Seq<SidebarRowKind>,
    pub last_transcript_rect: Rect,
    pub last_find_bar_rect: Rect,
    pub mouse_cursor: Option<(u16, u16)>,
    pub mouse_enabled: bool,
    /// The theme to load, where it is not the built-in one.
    pub theme: Option<Seq<char>>,
    /// The scope that was saved when help was opened.
    pub scope_under_help: Option<Scope>,
    /// What is known of the sessions' observations.
    pub summaries: Seq<SummaryModel>,
    /// The sessions with a bookmark.
    pub bookmarked: Seq<Seq<char>>,
    pub requests: Seq<Request>,
}

/// Microseconds of a day.
pub const MICROS_PER_DAY: i64 = 86400000000;

/// The column of the close mark of a find bar, one cell from its right end.
pub open spec fn close_column(bar: Rect) -> Option<u16> {
    if bar.width < 2 {
        None
    } else {
        Some((bar.x + bar.width - 2) as u16)
    }
}

/// What is known of a session's status from `from` on: active where nothing
/// is.
pub open spec fn status_in(known: Seq<KnownStatus>, id: Seq<char>, from: int) -> SessionStatus
    decreases known.len() - from,
{
    if from < 0 || from >= known.len() {
        SessionStatus::Active
    } else if known[from].session_id@ == id {
        known[from].status
    } else {
        status_in(known, id, from + 1)
    }
}

/// The application as it starts.
pub open spec fn fresh_app(db_error: Option<Seq<char>>, no_anim: bool) -> AppModel {
    AppModel {
        should_quit: false,
        sidebar: Seq::empty(),
        selected: None,
        scroll: 0,
        scroll_target: 0,
        scroll_settled: true,
        scroll_tween: None,
        clock: Clock::System,
        no_anim,
        modal_opened_at: None,
        transcript: Seq::empty(),
        status: match db_error {
            Some(e) => Some("DB unavailable: "@ + e),
            None => Some("Press ? for keybindings"@),
        },
        read_only: db_error is Some,
        scope: Scope::MainScreen,
        search: None,
        find_open: false,
        pending_jump: None,
        message_cursor: 0,
        selection: None,
        browser: None,
        confirm: None,
        label_prompt: None,
        previous_scope: None,
        kanban: None,
        viewer: None,
        counts: Seq::empty(),
        help: None,
        project_filter: None,
        days_filter: None,
        spinner_tick: 0,
        last_transcript_height: 0,
        pane_focus: PaneFocus::Transcript,
        last_sidebar_rect: Rect::empty(),
        last_sidebar_rows: Seq::empty(),
        last_transcript_rect: Rect::empty(),
        last_find_bar_rect: Rect::empty(),
        mouse_cursor: None,
        mouse_enabled: true,
        theme: None,
        scope_under_help: None,
        summaries: Seq::empty(),
        bookmarked: Seq::empty(),
        requests: Seq::empty(),
    }
}

/// Whether the environment switches animations off: it says `1`, or `true` in
/// upper or lower case.
pub open spec fn switches_off(value: Option<Seq<char>>) -> bool {
    match value {
        Some(v) => v == "1"@ || text::ascii_lower_all(v) == "true"@,
        None => false,
    }
}

/// `a + b`, or the largest row where that is beyond it.
pub open spec fn row_plus(a: u16, b: u16) -> u16 {
    ui::clamp_u16(a + b)
}

/// `a - b`, or the first row where that is before it.
pub open spec fn row_minus(a: u16, b: u16) -> u16 {
    ui::minus(a, b as int)
}

impl AppModel {
    /// Every open modal is in order.
    pub open spec fn wf(self) -> bool {
        &&& self.kanban is Some ==> self.kanban.unwrap().wf()
        &&& self.label_prompt is Some ==> self.label_prompt.unwrap().selected_index < usize::MAX - 4
    }

    /// With a line in the status bar.
    pub open spec fn said(self, words: Seq<char>) -> AppModel {
        AppModel { status: Some(words), ..self }
    }

    /// With one more request.
    pub open spec fn asks(self, request: Request) -> AppModel {
        AppModel { requests: self.requests.push(request), ..self }
    }

    /// Refused, because nothing can be stored.
    pub open spec fn refused(self) -> AppModel {
        self.said("Read-only — DB unavailable"@)
    }

    /// Scrolled to a row: at once where nothing is animated or the row is
    /// shown already, else by an animation that starts at `now`.
    #[verifier::opaque]
    pub open spec fn scrolled(self, target: u16, now: Instant) -> AppModel {
        if self.no_anim {
            AppModel {
                scroll: target,
                scroll_target: target,
                scroll_settled: true,
                scroll_tween: None,
                ..self
            }
        } else if self.scroll_settled && self.scroll == target {
            AppModel { scroll_target: target, scroll_tween: None, ..self }
        } else {
            AppModel {
                scroll_target: target,
                scroll_tween: Some(ScrollTween { to: target, started_at: now }),
                ..self
            }
        }
    }

    /// With the time noted at which a modal opened.
    pub open spec fn stamped(self, now: Instant) -> AppModel {
        AppModel { modal_opened_at: Some(now), ..self }
    }

    /// Whether a modal is open.
    pub open spec fn shows_modal(self) -> bool {
        ||| self.help is Some
        ||| self.confirm is Some
        ||| self.search is Some
        ||| self.viewer is Some
        ||| self.kanban is Some
        ||| self.label_prompt is Some
        ||| self.browser is Some
    }

    /// Without the time at which a modal opened, where none is open.
    pub open spec fn unstamped(self) -> AppModel {
        if self.shows_modal() {
            self
        } else {
            AppModel { modal_opened_at: None, ..self }
        }
    }

    /// One frame later: an animated scroll shows what was sampled of it, and
    /// lands on its row when it is over.
    pub open spec fn ticked(self, sample: ScrollSample) -> AppModel {
        let m = self.unstamped();
        if m.scroll_tween is None {
            m
        } else if sample.done {
            AppModel {
                scroll: m.scroll_target,
                scroll_settled: true,
                scroll_tween: None,
                ..m
            }
        } else {
            AppModel { scroll: sample.row, scroll_settled: sample.on_row, ..m }
        }
    }

    /// Back in the scope that was saved, or on the main screen.
    pub open spec fn back(self) -> AppModel {
        AppModel {
            scope: match self.previous_scope {
                Some(scope) => scope,
                None => Scope::MainScreen,
            },
            previous_scope: None,
            ..self
        }
    }

    /// In scope `scope`, with the one before saved.
    pub open spec fn entered(self, scope: Scope) -> AppModel {
        AppModel { scope, previous_scope: Some(self.scope), ..self }
    }

    /// With a session selected. Another one is published and shown from its
    /// top.
    #[verifier::opaque]
    pub open spec fn switched_to(self, id: Seq<char>, now: Instant) -> AppModel {
        if self.selected == Some(id) {
            self
        } else {
            AppModel { selected: Some(id), ..self }.asks(
                Request::PublishSelection(Some(id)),
            ).scrolled(0, now)
        }
    }

    /// Scrolled to the message that a jump waits for, where it is in the
    /// transcript.
    #[verifier::opaque]
    pub open spec fn resolved(self, now: Instant) -> AppModel {
        match self.pending_jump {
            Some(uuid) => match models::line_of(self.transcript, uuid, 0) {
                Some(line) => AppModel { pending_jump: None, ..self.scrolled(line, now) },
                None => self,
            },
            None => self,
        }
    }

    /// On the way to a message: in another session once its transcript is
    /// here, in the selected one at once.
    #[verifier::opaque]
    pub open spec fn jumped_to(self, id: Seq<char>, uuid: Seq<char>, now: Instant) -> AppModel {
        let m = AppModel { pending_jump: Some(uuid), ..self };
        if m.selected == Some(id) {
            m.resolved(now)
        } else {
            m.switched_to(id, now)
        }
    }

    // ---- keys for a modal ------------------------------------------------

    #[verifier::opaque]
    pub open spec fn help_key(self, ev: KeyEvent) -> AppModel {
        if hp::closes(ev) {
            AppModel {
                previous_scope: self.scope_under_help,
                scope_under_help: None,
                ..AppModel { help: None, ..self }.back()
            }
        } else {
            self
        }
    }

    /// With help open over what is there.
    pub open spec fn helped(self, now: Instant) -> AppModel {
        AppModel {
            help: Some(hp::State { origin_scope: self.scope }),
            scope_under_help: self.previous_scope,
            ..self
        }.entered(Scope::HelpOverlay).stamped(now)
    }

    /// Whether a key that asks for help is heard over what is open: a modal
    /// that is not typed into, or selection mode.
    pub open spec fn hears_help(self) -> bool {
        if self.confirm is Some || self.kanban is Some || self.viewer is Some {
            true
        } else if self.label_prompt is Some {
            self.label_prompt.unwrap().mode == lp::Mode::StatusPicker
        } else if self.browser is Some {
            true
        } else {
            self.search is None && !self.find_open && self.scope == Scope::Selection
        }
    }

    pub open spec fn executed(self, action: PendingAction) -> AppModel {
        match action {
            PendingAction::DeleteBookmark { bookmark_id } => if self.read_only {
                self.refused()
            } else {
                self.asks(Request::DeleteBookmark { bookmark_id })
            },
        }
    }

    #[verifier::opaque]
    pub open spec fn confirm_key(self, ev: KeyEvent) -> AppModel {
        match cf::answer_of(ev) {
            Some(cf::ConfirmResult::Yes) => AppModel { confirm: None, ..self }.executed(
                self.confirm.unwrap().on_yes,
            ).back(),
            Some(cf::ConfirmResult::No) => AppModel { confirm: None, ..self }.back(),
            None => self,
        }
    }

    #[verifier::opaque]
    pub open spec fn kanban_key(self, ev: KeyEvent, now: Instant) -> AppModel {
        let (board, outcome) = kb::board_step(self.kanban.unwrap(), ev);
        let m = AppModel { kanban: Some(board), ..self };
        let closed = AppModel { kanban: None, ..self }.back();
        match outcome {
            None => m,
            Some(kb::KanbanOutcome::Cancelled) => closed,
            Some(kb::KanbanOutcome::JumpToSession { session_id }) => closed.switched_to(
                session_id,
                now,
            ),
            Some(kb::KanbanOutcome::StatusChanged { session_id, new_status }) => if m.read_only {
                m.refused().asks(Request::ReloadStatuses)
            } else {
                m.asks(
                    Request::SetStatus {
                        session_id,
                        status: new_status,
                        origin: StatusOrigin::Board,
                    },
                )
            },
        }
    }

    #[verifier::opaque]
    pub open spec fn viewer_key(self, ev: KeyEvent, now: Instant) -> AppModel {
        let (viewer, outcome) = cv::viewer_step(self.viewer.unwrap(), ev);
        let m = AppModel { viewer: Some(viewer), ..self };
        let closed = AppModel { viewer: None, ..self }.back();
        match outcome {
            None => m,
            Some(cv::ViewerOutcome::Cancelled) => closed,
            Some(cv::ViewerOutcome::JumpToSession { session_id }) => closed.switched_to(
                session_id,
                now,
            ),
            Some(cv::ViewerOutcome::MarkResolved { conflict_id }) => m.asks(
                Request::ResolveConflict { conflict_id },
            ),
        }
    }

    #[verifier::opaque]
    pub open spec fn label_key(self, ev: KeyEvent) -> AppModel {
        let (prompt, outcome) = lp::prompt_step(self.label_prompt.unwrap(), ev);
        let closed = AppModel { label_prompt: None, scope: Scope::MainScreen, ..self };
        match outcome {
            None => AppModel { label_prompt: Some(prompt), ..self },
            Some(lp::LabelOutcome::Cancelled) => closed,
            Some(lp::LabelOutcome::StatusChosen(status)) => if closed.read_only {
                closed.refused()
            } else {
                closed.asks(
                    Request::SetStatus {
                        session_id: prompt.session_id,
                        status,
                        origin: StatusOrigin::LabelPrompt,
                    },
                )
            },
            Some(lp::LabelOutcome::CustomNameSet(name)) => if closed.read_only {
                closed.refused()
            } else {
                closed.asks(Request::SetCustomName { session_id: prompt.session_id, name })
            },
        }
    }

    #[verifier::opaque]
    pub open spec fn browser_key(self, ev: KeyEvent, now: Instant) -> AppModel {
        let (browser, outcome) = bb::browser_step(self.browser.unwrap(), ev);
        let m = AppModel { browser: Some(browser), ..self };
        let closed = AppModel { browser: None, scope: Scope::MainScreen, ..self };
        match outcome {
            None => m,
            Some(bb::BrowserOutcome::Cancelled) => closed,
            Some(bb::BrowserOutcome::JumpToMessage { session_id, message_uuid }) => closed.jumped_to(
                session_id,
                message_uuid,
                now,
            ),
            Some(bb::BrowserOutcome::DeleteRequested { bookmark_id }) => AppModel {
                confirm: Some(delete_question(browser.rows, bookmark_id)),
                ..m
            }.entered(Scope::ConfirmModal).stamped(now),
        }
    }

    #[verifier::opaque]
    pub open spec fn search_key(self, ev: KeyEvent, now: Moment) -> AppModel {
        let (search, outcome) = se::search_step(self.search.unwrap(), ev, now.search_millis);
        let closed = AppModel { search: None, scope: Scope::MainScreen, ..self };
        match outcome {
            None => AppModel { search: Some(search), ..self },
            Some(se::SearchOutcome::Cancelled) => closed,
            Some(se::SearchOutcome::JumpToMessage { session_id, message_uuid }) => {
                let m = closed.jumped_to(session_id, message_uuid, now.at);
                if text::trim(search.committed_query).len() == 0 {
                    m
                } else {
                    m.asks(Request::SaveRecentSearch(search.committed_query))
                }
            },
        }
    }

    /// After the find bar answered a key.
    #[verifier::opaque]
    pub open spec fn find_answered(self, answer: Option<FindResult>, now: Instant) -> AppModel {
        match answer {
            None => self,
            Some(FindResult::Closed) => AppModel {
                find_open: false,
                scope: Scope::MainScreen,
                ..self
            },
            Some(FindResult::JumpedToMatch { message_index }) => {
                let m = if message_index < self.transcript.len() {
                    match models::line_of(
                        self.transcript,
                        self.transcript[message_index as int].uuid,
                        0,
                    ) {
                        Some(line) => self.scrolled(line, now),
                        None => self,
                    }
                } else {
                    self
                };
                AppModel { find_open: false, scope: Scope::MainScreen, ..m }
            },
        }
    }

    // ---- selection mode --------------------------------------------------

    pub open spec fn entered_selection(self, now: Instant) -> AppModel {
        if self.transcript.len() == 0 {
            self.said("Nothing to select — transcript empty"@)
        } else {
            AppModel {
                selection: Some(
                    SelectionState {
                        cursor: (self.transcript.len() - 1) as usize,
                        range_start: None,
                    },
                ),
                ..self
            }.entered(Scope::Selection).said(
                "Selection: j/k move, v range, y copy, e export, space bookmark, L note, m/Esc exit"@,
            ).selection_in_view(now)
        }
    }

    /// The message under the selection's cursor, held to the transcript.
    pub open spec fn selected_message(self) -> int {
        let cursor = self.selection.unwrap().cursor as int;
        if self.transcript.len() == 0 {
            0
        } else if cursor < self.transcript.len() {
            cursor
        } else {
            self.transcript.len() - 1
        }
    }

    /// Scrolled so that the message under the selection's cursor is in view: a
    /// third of the pane from its top, unless it is in view already. A pane that
    /// was not painted yet is taken to be eight rows high.
    #[verifier::opaque]
    pub open spec fn selection_in_view(self, now: Instant) -> AppModel {
        if self.selection is None || self.transcript.len() == 0 {
            self
        } else {
            match models::line_of(
                self.transcript,
                self.transcript[self.selected_message()].uuid,
                0,
            ) {
                Some(line) => {
                    let height: u16 = if self.last_transcript_height == 0 {
                        8
                    } else {
                        self.last_transcript_height
                    };
                    if self.scroll <= line < self.scroll + height {
                        self
                    } else {
                        self.scrolled(row_minus(line, height / 3), now)
                    }
                },
                None => self,
            }
        }
    }

    pub open spec fn selection_moved(self, down: bool) -> AppModel {
        match self.selection {
            Some(sel) => AppModel {
                selection: Some(
                    SelectionState {
                        cursor: if down && sel.cursor + 1 < self.transcript.len() {
                            (sel.cursor + 1) as usize
                        } else if !down && sel.cursor > 0 {
                            (sel.cursor - 1) as usize
                        } else {
                            sel.cursor
                        },
                        ..sel
                    },
                ),
                ..self
            },
            None => self,
        }
    }

    pub open spec fn range_toggled(self) -> AppModel {
        match self.selection {
            Some(sel) => AppModel {
                selection: Some(
                    SelectionState {
                        range_start: match sel.range_start {
                            Some(_) => None,
                            None => Some(sel.cursor),
                        },
                        ..sel
                    },
                ),
                ..self
            },
            None => self,
        }
    }

    /// The picked messages as text.
    pub open spec fn picked_text(self) -> Seq<char> {
        let (lo, hi) = self.selection.unwrap().bounds();
        messages_text(self.transcript, lo as int, hi + 1)
    }

    pub open spec fn copied(self) -> AppModel {
        if self.selection is None || self.transcript.len() == 0 {
            self.said("No selection to copy"@)
        } else {
            let body = self.picked_text();
            self.asks(Request::CopyText { text: body, chars: body.len() })
        }
    }

    pub open spec fn exported(self) -> AppModel {
        if self.selection is None {
            self
        } else {
            self.asks(Request::ExportText { text: self.picked_text() })
        }
    }

    #[verifier::opaque]
    pub open spec fn selection_key(self, ev: KeyEvent, now: Instant) -> AppModel {
        match keys::command_of(Scope::Selection, ev) {
            Some(Command::SelectNextSession) => self.selection_moved(true).selection_in_view(now),
            Some(Command::SelectPrevSession) => self.selection_moved(false).selection_in_view(now),
            Some(Command::Confirm) => match ev.code {
                KeyCode::Char(c) => if c == 'v' {
                    self.range_toggled()
                } else if c == 'y' {
                    self.copied()
                } else if c == 'e' {
                    self.exported()
                } else {
                    self
                },
                _ => self,
            },
            Some(Command::ToggleBookmark) => match self.selection {
                Some(sel) => self.bookmark_toggled_at(sel.cursor as int),
                None => self,
            },
            Some(Command::EditBookmarkNote) => self.said(
                "Edit bookmark note — not wired yet (Phase E)"@,
            ),
            Some(Command::EnterSelectionMode) | Some(Command::Cancel) => AppModel {
                selection: None,
                ..self
            }.back(),
            Some(Command::Quit) => AppModel { should_quit: true, ..self },
            _ => self,
        }
    }

    // ---- commands of the main screen --------------------------------------

    pub open spec fn bookmark_toggled_at(self, cursor: int) -> AppModel {
        if cursor >= self.transcript.len() {
            self.said("no message under cursor"@)
        } else if self.read_only {
            self.refused()
        } else {
            self.asks(Request::ProbeMessage { uuid: self.transcript[cursor].uuid })
        }
    }

    /// With the session one row down or up selected, round the ends.
    pub open spec fn selection_stepped(self, down: bool, now: Instant) -> AppModel {
        let len = self.sidebar.len() as int;
        if len == 0 {
            self
        } else {
            let found = match self.selected {
                Some(id) => models::find_item(self.sidebar, id, 0),
                None => len,
            };
            let current = if found < len {
                found
            } else {
                0
            };
            let next = if down {
                (current + 1) % len
            } else {
                (current + len - 1) % len
            };
            self.switched_to(self.sidebar[next].session_id, now)
        }
    }

    #[verifier::opaque]
    pub open spec fn ran(self, command: Command, now: Instant) -> AppModel {
        match announced_name(command) {
            Some(name) => self.said("Not implemented yet: "@ + name),
            None => self.carried_out(command, now),
        }
    }

    /// After a command that does more than announce itself.
    pub open spec fn carried_out(self, command: Command, now: Instant) -> AppModel {
        match command {
            Command::Quit => AppModel { should_quit: true, ..self },
            Command::SelectNextSession => self.selection_stepped(true, now),
            Command::SelectPrevSession => self.selection_stepped(false, now),
            Command::ScrollTop => self.scrolled(0, now),
            Command::ScrollBottom => self.scrolled(u16::MAX, now),
            Command::ScrollDownHalf => self.scrolled(row_plus(self.scroll, HALF_PAGE), now),
            Command::ScrollUpHalf => self.scrolled(row_minus(self.scroll, HALF_PAGE), now),
            Command::OpenSearchModal => AppModel {
                search: Some(se::fresh_search(now)),
                scope: Scope::SearchModal,
                ..self
            }.stamped(now).asks(Request::LoadRecentSearches),
            Command::OpenFindBar => AppModel {
                find_open: true,
                scope: Scope::FindBar,
                ..self
            }.asks(Request::OpenFindBar),
            Command::OpenHelp => self.helped(now),
            Command::ToggleBookmark => self.bookmark_toggled_at(self.message_cursor),
            Command::OpenBookmarkBrowser => self.asks(Request::LoadBookmarks),
            Command::OpenLabelPrompt => match self.selected {
                Some(id) => self.asks(Request::LoadSessionStatus { session_id: id }),
                None => self.said("no session selected"@),
            },
            Command::MoveCursorDown => if self.message_cursor + 1 < self.transcript.len() {
                AppModel { message_cursor: self.message_cursor + 1, ..self }
            } else {
                self
            },
            Command::MoveCursorUp => if self.message_cursor > 0 {
                AppModel { message_cursor: self.message_cursor - 1, ..self }
            } else {
                self
            },
            Command::OpenKanban => self.asks(Request::LoadStatuses),
            Command::OpenConflictViewer => self.asks(Request::LoadConflicts),
            Command::FocusTranscript => AppModel { pane_focus: PaneFocus::Transcript, ..self },
            Command::FocusList => AppModel { pane_focus: PaneFocus::Sidebar, ..self },
            Command::EnterSelectionMode => self.entered_selection(now),
            _ => self,
        }
    }

    /// After a key at `now`. What is open gets the key, the topmost first: help,
    /// the confirm modal, the board, the conflict viewer, the label prompt, the
    /// bookmark browser, the search modal, the find bar, selection mode. Help
    /// opens over what is not typed into. Where nothing is open, the key is a
    /// command of the scope.
    pub open spec fn keyed(self, ev: KeyEvent, now: Moment) -> AppModel {
        if self.help is Some {
            self.help_key(ev)
        } else if self.hears_help() && keys::asks_for_help(ev) {
            self.helped(now.at)
        } else if self.confirm is Some {
            self.confirm_key(ev)
        } else if self.kanban is Some {
            self.kanban_key(ev, now.at)
        } else if self.viewer is Some {
            self.viewer_key(ev, now.at)
        } else if self.label_prompt is Some {
            self.label_key(ev)
        } else if self.browser is Some {
            self.browser_key(ev, now.at)
        } else if self.search is Some {
            self.search_key(ev, now)
        } else if self.find_open {
            self.asks(Request::FindBarKey(ev))
        } else if self.scope == Scope::Selection {
            self.selection_key(ev, now.at)
        } else {
            match keys::command_of(self.scope, ev) {
                Some(command) => self.ran(command, now.at),
                None => self,
            }
        }
    }

    /// Whether a mouse event can be handled: a click on the find bar needs a bar
    /// that ends on the screen.
    pub open spec fn can_take(self, ev: MouseEvent) -> bool {
        let bar = self.last_find_bar_rect;
        ev.kind == MouseEventKind::Down(MouseButton::Left) && self.find_open && !self.shows_modal()
            ==> bar.width < 2 || bar.x + bar.width <= u16::MAX
    }

    /// After a mouse event at `now`, and what it did.
    pub open spec fn moused(self, ev: MouseEvent, now: Instant) -> (AppModel, Option<HitAction>) {
        let followed = AppModel { mouse_cursor: Some((ev.column, ev.row)), ..self };
        let on_transcript = ui::contains_cell(self.last_transcript_rect, ev.column, ev.row);
        match ev.kind {
            MouseEventKind::ScrollDown => if on_transcript {
                (
                    self.scrolled(row_plus(self.scroll, 1), now),
                    Some(HitAction::ScrollTranscript(1)),
                )
            } else {
                (self, None)
            },
            MouseEventKind::ScrollUp => if on_transcript {
                (
                    self.scrolled(row_minus(self.scroll, 1), now),
                    Some(HitAction::ScrollTranscript((-1) as i16)),
                )
            } else {
                (self, None)
            },
            MouseEventKind::ScrollLeft | MouseEventKind::ScrollRight => (self, None),
            MouseEventKind::Down(MouseButton::Left) => followed.clicked(ev.column, ev.row, now),
            _ => (followed, None),
        }
    }

    /// After a click of the left button: on the find bar's close mark, on a
    /// session of the sidebar, or on the transcript. A click does nothing while
    /// a modal is open.
    pub open spec fn clicked(self, column: u16, row: u16, now: Instant) -> (
        AppModel,
        Option<HitAction>,
    ) {
        let bar = self.last_find_bar_rect;
        if self.shows_modal() {
            (self, None)
        } else if self.find_open && close_column(bar) == Some(column) && row == bar.y {
            (
                AppModel { find_open: false, scope: Scope::MainScreen, ..self },
                Some(HitAction::CloseFindBar),
            )
        } else if ui::contains_cell(self.last_sidebar_rect, column, row) {
            self.sidebar_clicked(row - self.last_sidebar_rect.y, now)
        } else if ui::contains_cell(self.last_transcript_rect, column, row) {
            (
                AppModel { pane_focus: PaneFocus::Transcript, ..self },
                Some(HitAction::FocusTranscript),
            )
        } else {
            (self, None)
        }
    }

    /// After a click on a row of the sidebar: the session painted there is
    /// selected.
    pub open spec fn sidebar_clicked(self, row: int, now: Instant) -> (AppModel, Option<HitAction>) {
        match self.session_at(row) {
            Some(at) => (
                AppModel {
                    pane_focus: PaneFocus::Sidebar,
                    ..self.switched_to(self.sidebar[at as int].session_id, now)
                },
                Some(HitAction::SelectSessionAt(at)),
            ),
            None => (self, None),
        }
    }

    /// The session painted in a row of the sidebar.
    pub open spec fn session_at(self, row: int) -> Option<usize> {
        if 0 <= row < self.last_sidebar_rows.len() {
            match self.last_sidebar_rows[row] {
                SidebarRowKind::Session(at) => if at < self.sidebar.len() {
                    Some(at)
                } else {
                    None
                },
                SidebarRowKind::Header => None,
            }
        } else {
            None
        }
    }

    // ---- answers from outside ----------------------------------------------

    /// With what is known of a session: its open todos, and whether it has a
    /// bookmark.
    pub open spec fn digest_noted(self, id: Seq<char>, todos: Option<u32>, marked: bool) -> AppModel {
        AppModel {
            summaries: digest::with_summary(self.summaries, id, todos),
            bookmarked: digest::with_mark(self.bookmarked, id, marked),
            ..self
        }
    }

    pub open spec fn recents_loaded(self, recents: Option<Seq<Seq<char>>>) -> AppModel {
        match (self.search, recents) {
            (Some(s), Some(r)) => AppModel {
                search: Some(se::SearchModel { recents: r, ..s }),
                ..self
            },
            _ => self,
        }
    }

    /// After a message was looked up: one that is known to be missing is not
    /// bookmarked.
    pub open spec fn probed(self, uuid: Seq<char>, found: bool, table_present: bool) -> AppModel {
        if !found && table_present {
            self.said("Cannot bookmark — message not yet indexed"@)
        } else {
            self.asks(Request::ToggleBookmark { uuid })
        }
    }

    pub open spec fn bookmark_toggled(self, outcome: Result<bool, String>) -> AppModel {
        match outcome {
            Ok(true) => self.said("★ bookmarked"@),
            Ok(false) => self.said("removed bookmark"@),
            Err(e) => if text::occurs_in(text::ascii_lower_all(e@), "foreign key"@) {
                self.said("Cannot bookmark — message not yet indexed"@)
            } else {
                self.said("bookmark error: "@ + e@)
            },
        }
    }

    pub open spec fn bookmarks_loaded(self, rows: Seq<bb::RowModel>, now: Instant) -> AppModel {
        AppModel {
            browser: Some(bb::BrowserModel { rows, selected: 0 }),
            scope: Scope::BookmarkBrowser,
            ..self
        }.stamped(now)
    }

    pub open spec fn bookmarks_refreshed(self, rows: Seq<bb::RowModel>) -> AppModel {
        match self.browser {
            Some(b) => AppModel {
                browser: Some(
                    bb::BrowserModel {
                        rows,
                        selected: bb::on_a_row(b.selected, rows.len() as int),
                    },
                ),
                ..self
            },
            None => self,
        }
    }

    pub open spec fn bookmark_deleted(self, outcome: Result<(), String>) -> AppModel {
        match outcome {
            Ok(_) => {
                let m = self.said("bookmark deleted"@);
                if m.browser is Some {
                    m.asks(Request::RefreshBookmarks)
                } else {
                    m
                }
            },
            Err(e) => self.said("delete failed: "@ + e@),
        }
    }

    /// The label prompt opens on the status that a session has, or on the
    /// first one where that is not known.
    pub open spec fn status_loaded(
        self,
        id: Seq<char>,
        status: Option<SessionStatus>,
        now: Instant,
    ) -> AppModel {
        let at = models::find_item(self.sidebar, id, 0);
        let name = if 0 <= at < self.sidebar.len() {
            self.sidebar[at].display_name
        } else {
            id
        };
        AppModel {
            label_prompt: Some(
                lp::fresh_prompt(
                    id,
                    name,
                    match status {
                        Some(s) => s,
                        None => SessionStatus::Active,
                    },
                ),
            ),
            scope: Scope::LabelPrompt,
            ..self
        }.stamped(now)
    }

    pub open spec fn status_written(
        self,
        id: Seq<char>,
        status: SessionStatus,
        origin: StatusOrigin,
        outcome: Result<(), String>,
    ) -> AppModel {
        let done = "status → "@ + models::status_word(status);
        match (outcome, origin) {
            (Ok(_), StatusOrigin::LabelPrompt) => self.said(done),
            (Ok(_), StatusOrigin::Board) => self.with_status(id, status).said(done),
            (Err(e), StatusOrigin::LabelPrompt) => self.said("status error: "@ + e@),
            (Err(e), StatusOrigin::Board) => self.said("status error: "@ + e@).asks(
                Request::ReloadStatuses,
            ),
        }
    }

    /// With the status of a session's first sidebar row replaced.
    pub open spec fn with_status(self, id: Seq<char>, status: SessionStatus) -> AppModel {
        let at = models::find_item(self.sidebar, id, 0);
        if 0 <= at < self.sidebar.len() {
            AppModel {
                sidebar: self.sidebar.update(at, ItemModel { status, ..self.sidebar[at] }),
                ..self
            }
        } else {
            self
        }
    }

    /// With the name of a session's first sidebar row replaced.
    pub open spec fn with_name(self, id: Seq<char>, display_name: Seq<char>) -> AppModel {
        let at = models::find_item(self.sidebar, id, 0);
        if 0 <= at < self.sidebar.len() {
            AppModel {
                sidebar: self.sidebar.update(at, ItemModel { display_name, ..self.sidebar[at] }),
                ..self
            }
        } else {
            self
        }
    }

    pub open spec fn name_written(
        self,
        id: Seq<char>,
        name: Option<Seq<char>>,
        outcome: Result<(), String>,
    ) -> AppModel {
        match outcome {
            Ok(_) => match name {
                Some(n) => self.with_name(id, n).said("name → "@ + n),
                None => self.said("custom name cleared"@),
            },
            Err(e) => self.said("rename error: "@ + e@),
        }
    }

    /// The cards of the board: the sessions of the sidebar with their statuses.
    pub open spec fn board_cards(self, known: Seq<KnownStatus>) -> Seq<kb::CardModel> {
        Seq::new(
            self.sidebar.len(),
            |i: int|
                kb::CardModel {
                    session_id: self.sidebar[i].session_id,
                    display_name: self.sidebar[i].display_name,
                    status: status_in(known, self.sidebar[i].session_id, 0),
                },
        )
    }

    /// With what is known of the statuses shown in the sidebar, in the first
    /// row of each session.
    pub open spec fn with_statuses(self, known: Seq<KnownStatus>) -> AppModel {
        AppModel {
            sidebar: Seq::new(
                self.sidebar.len(),
                |i: int|
                    if models::find_item(self.sidebar, self.sidebar[i].session_id, 0) == i {
                        ItemModel {
                            status: status_in(known, self.sidebar[i].session_id, 0),
                            ..self.sidebar[i]
                        }
                    } else {
                        self.sidebar[i]
                    },
            ),
            ..self
        }
    }

    /// The board opens on the first column.
    pub open spec fn statuses_loaded(self, known: Seq<KnownStatus>, now: Instant) -> AppModel {
        AppModel {
            kanban: Some(
                kb::BoardModel {
                    cards: self.board_cards(known),
                    column: 0,
                    rows: seq![0usize, 0, 0, 0, 0],
                },
            ),
            ..self.with_statuses(known)
        }.entered(Scope::Kanban).stamped(now)
    }

    /// The board shows what is stored again.
    pub open spec fn statuses_reloaded(self, known: Seq<KnownStatus>) -> AppModel {
        match self.kanban {
            Some(board) => AppModel {
                kanban: Some(
                    kb::BoardModel { cards: self.board_cards(known), ..board }.clamped(),
                ),
                ..self
            },
            None => self,
        }
    }

    /// With the conflicts counted, and the counts shown in the sidebar.
    pub open spec fn with_counts(self, counts: Seq<conflicts::CountModel>) -> AppModel {
        AppModel {
            counts,
            sidebar: Seq::new(
                self.sidebar.len(),
                |i: int|
                    ItemModel {
                        unresolved_conflict_count: conflicts::count_of(
                            counts,
                            self.sidebar[i].session_id,
                        ),
                        ..self.sidebar[i]
                    },
            ),
            ..self
        }
    }

    pub open spec fn session_ids(self) -> Seq<Seq<char>> {
        Seq::new(self.sidebar.len(), |i: int| self.sidebar[i].session_id)
    }

    /// The conflict viewer opens.
    pub open spec fn conflicts_loaded(self, found: conflicts::Gathered, now: Instant) -> AppModel {
        AppModel {
            viewer: Some(
                cv::ViewerModel { rows: found.rows, selected: 0, show_resolved: false },
            ),
            ..self.with_counts(found.counts)
        }.entered(Scope::ConflictViewer).stamped(now)
    }

    /// The conflict viewer shows what is stored again.
    pub open spec fn conflicts_reloaded(self, found: conflicts::Gathered) -> AppModel {
        AppModel {
            viewer: match self.viewer {
                Some(v) => Some(cv::ViewerModel { rows: found.rows, ..v }.clamped()),
                None => None,
            },
            ..self
        }.with_counts(found.counts)
    }

    pub open spec fn conflict_resolved(self, id: i64, started: bool) -> AppModel {
        if started {
            self.said(
                "resolved #"@ + text::signed_decimal(id as int)
                    + " (running threadhop conflicts --resolved)"@,
            ).asks(Request::ReloadConflicts)
        } else {
            self.said(
                "run `threadhop conflicts --resolved "@ + text::signed_decimal(id as int)
                    + "` to resolve"@,
            )
        }
    }

    pub open spec fn clipboard_finished(
        self,
        chars: nat,
        outcome: Result<(), ClipboardError>,
    ) -> AppModel {
        match outcome {
            Ok(_) => self.said("Copied "@ + text::decimal(chars) + " chars to clipboard"@),
            Err(ClipboardError::Unavailable) => self.said("Clipboard unavailable"@),
            Err(ClipboardError::Backend(e)) => self.said("Clipboard unavailable: "@ + e@),
        }
    }

    pub open spec fn export_finished(self, path: Seq<char>, outcome: Result<(), String>) -> AppModel {
        match outcome {
            Ok(_) => self.said("Exported → "@ + path),
            Err(e) => self.said("Export failed: "@ + e@),
        }
    }

    // ---- news from the workers ------------------------------------------------

    /// Whether a session is kept in the sidebar. `derived` is the project under
    /// which the session was found, for one that does not say its own; `now` is
    /// the time in microseconds since the epoch.
    pub open spec fn keeps(self, item: ItemModel, derived: Option<Seq<char>>, now: i64) -> bool {
        let project = match item.project {
            Some(p) => Some(p),
            None => derived,
        };
        let active = match item.last_active_at {
            Some(t) => t as int,
            None => 0,
        };
        &&& self.project_filter is Some ==> project == self.project_filter
        &&& self.days_filter is Some && self.days_filter.unwrap() > 0 ==> active >= now
            - self.days_filter.unwrap() * MICROS_PER_DAY
    }

    /// With the sessions that were found in the sidebar. Where the selected one
    /// is gone, the first one is selected.
    pub open spec fn sessions_refreshed(self, kept: Seq<ItemModel>, now: Instant) -> AppModel {
        let m = AppModel { sidebar: kept, ..self };
        let present = match self.selected {
            Some(id) => models::find_item(kept, id, 0) < kept.len(),
            None => false,
        };
        if present {
            m
        } else {
            let first = if kept.len() > 0 {
                Some(kept[0].session_id)
            } else {
                None
            };
            AppModel { selected: first, ..m }.asks(Request::PublishSelection(first)).scrolled(
                0,
                now,
            )
        }
    }

    /// With the sessions marked that are active.
    pub open spec fn active_refreshed(self, ids: Seq<Seq<char>>) -> AppModel {
        AppModel {
            sidebar: Seq::new(
                self.sidebar.len(),
                |i: int|
                    ItemModel {
                        is_active: ids.contains(self.sidebar[i].session_id),
                        ..self.sidebar[i]
                    },
            ),
            ..self
        }
    }

    /// With the transcript of a session, where that is the selected one. What
    /// was loaded for another is dropped.
    pub open spec fn transcript_refreshed(
        self,
        id: Seq<char>,
        messages: Seq<MessageModel>,
        now: Instant,
    ) -> AppModel {
        if self.selected != Some(id) {
            self
        } else {
            let m = AppModel { transcript: messages, message_cursor: 0, ..self };
            (if m.find_open {
                m.asks(Request::RecomputeFind)
            } else {
                m
            }).resolved(now)
        }
    }

    /// With what the command line asked for.
    pub open spec fn configured(
        self,
        project: Option<Seq<char>>,
        days: Option<u32>,
        session: Option<Seq<char>>,
    ) -> AppModel {
        let m = AppModel { project_filter: project, days_filter: days, ..self };
        match session {
            Some(id) => AppModel { selected: Some(id), ..m }.asks(
                Request::PublishSelection(Some(id)),
            ),
            None => m,
        }
    }

    /// The command that a key ran on the main screen, if it did.
    pub open spec fn command_run(self, ev: KeyEvent) -> Option<Command> {
        if self.shows_modal() || self.find_open || self.scope == Scope::Selection {
            None
        } else {
            keys::command_of(self.scope, ev)
        }
    }
}

#[verifier::rlimit(50)]
proof fn selection_keeps_order(m: AppModel, ev: KeyEvent, now: Instant)
    requires
        m.wf(),
    ensures
        m.selection_key(ev, now).wf(),
{
    reveal(AppModel::selection_in_view);
    reveal(AppModel::scrolled);
    reveal(AppModel::selection_key);
}

/// Whether the board and the label prompt are the same in both.
spec fn same_modals(a: AppModel, b: AppModel) -> bool {
    a.kanban == b.kanban && a.label_prompt == b.label_prompt
}

proof fn steps_keep_modals(m: AppModel, down: bool, now: Instant)
    ensures
        same_modals(m.selection_stepped(down, now), m),
{
    reveal(AppModel::switched_to);
    reveal(AppModel::scrolled);
}

proof fn selection_keeps_modals(m: AppModel, now: Instant)
    ensures
        same_modals(m.entered_selection(now), m),
{
    reveal(AppModel::selection_in_view);
    reveal(AppModel::scrolled);
}

#[verifier::rlimit(50)]
proof fn commands_keep_modals(m: AppModel, command: Command, now: Instant)
    ensures
        same_modals(m.carried_out(command, now), m),
{
    reveal(AppModel::scrolled);
    match command {
        Command::SelectNextSession => {
            steps_keep_modals(m, true, now);
        },
        Command::SelectPrevSession => {
            steps_keep_modals(m, false, now);
        },
        Command::EnterSelectionMode => {
            selection_keeps_modals(m, now);
        },
        _ => {},
    }
}

proof fn commands_keep_order(m: AppModel, command: Command, now: Instant)
    requires
        m.wf(),
    ensures
        m.ran(command, now).wf(),
{
    reveal(AppModel::ran);
    commands_keep_modals(m, command, now);
}

#[verifier::rlimit(50)]
proof fn board_keeps_order(m: AppModel, ev: KeyEvent, now: Instant)
    requires
        m.wf(),
        m.kanban is Some,
    ensures
        m.kanban_key(ev, now).wf(),
{
    reveal(AppModel::switched_to);
    reveal(AppModel::scrolled);
    reveal(AppModel::kanban_key);
    kb::board_stays_whole(m.kanban.unwrap(), ev);
}

proof fn prompt_keeps_order(m: AppModel, ev: KeyEvent)
    requires
        m.wf(),
        m.label_prompt is Some,
    ensures
        m.label_key(ev).wf(),
{
    reveal(AppModel::label_key);
    lp::cursor_stays_in_reach(m.label_prompt.unwrap(), ev);
}

#[verifier::rlimit(50)]
proof fn lists_keep_order(m: AppModel, ev: KeyEvent, now: Moment)
    requires
        m.wf(),
    ensures
        m.browser is Some ==> m.browser_key(ev, now.at).wf(),
        m.viewer is Some ==> m.viewer_key(ev, now.at).wf(),
        m.search is Some ==> m.search_key(ev, now).wf(),
{
    reveal(AppModel::jumped_to);
    reveal(AppModel::resolved);
    reveal(AppModel::switched_to);
    reveal(AppModel::scrolled);
    reveal(AppModel::browser_key);
    reveal(AppModel::viewer_key);
    reveal(AppModel::search_key);
}

/// No key puts an open modal out of order.
pub proof fn keys_keep_order(m: AppModel, ev: KeyEvent, now: Moment)
    requires
        m.wf(),
    ensures
        m.keyed(ev, now).wf(),
{
    if m.help is Some {
        reveal(AppModel::help_key);
    } else if m.hears_help() && keys::asks_for_help(ev) {
        commands_keep_modals(m, Command::OpenHelp, now.at);
    } else if m.confirm is Some {
        reveal(AppModel::confirm_key);
    } else if m.kanban is Some {
        board_keeps_order(m, ev, now.at);
    } else if m.label_prompt is Some {
        prompt_keeps_order(m, ev);
    }
    lists_keep_order(m, ev, now);
    selection_keeps_order(m, ev, now.at);
    if let Some(command) = keys::command_of(m.scope, ev) {
        commands_keep_order(m, command, now.at);
    }
}

/// No mouse event puts an open modal out of order.
pub proof fn mouse_keeps_order(m: AppModel, ev: MouseEvent, now: Instant)
    requires
        m.wf(),
    ensures
        m.moused(ev, now).0.wf(),
{
    reveal(AppModel::switched_to);
    reveal(AppModel::scrolled);
}

/// The name under which a command is announced that does nothing else yet.
pub open spec fn announced_name(command: Command) -> Option<Seq<char>> {
    match command {
        Command::CycleSessionStatus => Some("cycle status"@),
        Command::CycleSessionStatusBack => Some("cycle status backward"@),
        Command::RefreshSessions => Some("refresh sessions"@),
        Command::ThemeNext => Some("next theme"@),
        Command::ThemePrev => Some("previous theme"@),
        Command::ShrinkSidebar => Some("shrink sidebar"@),
        Command::GrowSidebar => Some("grow sidebar"@),
        Command::RenameSession => Some("rename session"@),
        Command::CopyResumeCommand => Some("copy resume"@),
        Command::ObserveSession => Some("observe session"@),
        Command::ResumeObservation => Some("resume observation"@),
        Command::ArchiveSession => Some("archive session"@),
        Command::ToggleArchivedView => Some("toggle archived view"@),
        Command::MoveSessionDown => Some("reorder session ↓"@),
        Command::MoveSessionUp => Some("reorder session ↑"@),
        Command::EditBookmarkNote => Some("edit bookmark note"@),
        Command::OpenBookmarkNotePrompt => Some("edit bookmark note"@),
        Command::ToggleToolFold => Some("toggle tool fold"@),
        _ => None,
    }
}

/// The question whether to delete a bookmark, with its note in quotes where it
/// has one.
pub open spec fn delete_question(rows: Seq<bb::RowModel>, bookmark_id: i64) -> ConfirmModel {
    ConfirmModel {
        question: cf::QuestionModel {
            question: "Delete bookmark?"@,
            detail: match note_of(rows, bookmark_id, 0) {
                Some(note) => Some("\""@ + note + "\""@),
                None => None,
            },
        },
        on_yes: PendingAction::DeleteBookmark { bookmark_id },
    }
}

/// The note of the first row from `from` on with a given bookmark.
pub open spec fn note_of(rows: Seq<bb::RowModel>, id: i64, from: int) -> Option<Seq<char>>
    decreases rows.len() - from,
{
    if from < 0 || from >= rows.len() {
        None
    } else if rows[from].id == id {
        rows[from].note
    } else {
        note_of(rows, id, from + 1)
    }
}

/// A message as text: a heading with who wrote it and when, and the message.
pub open spec fn message_text(m: MessageModel) -> Seq<char> {
    "## "@ + m.role_label + (match m.timestamp {
        Some(ts) => "  "@ + ts,
        None => Seq::empty(),
    }) + "\n\n"@ + m.text + "\n\n"@
}

/// The messages from `lo` up to but not `end` as text, as far as there are any.
pub open spec fn messages_text(messages: Seq<MessageModel>, lo: int, end: int) -> Seq<char>
    decreases end - lo,
{
    if lo < 0 || lo >= end || lo >= messages.len() {
        Seq::empty()
    } else {
        message_text(messages[lo]) + messages_text(messages, lo + 1, end)
    }
}

} // verus!
