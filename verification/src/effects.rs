//! What the application asks of the world around it. Each request is performed
//! outside and answered by a call of the application.

use vstd::prelude::*;

use crate::keys::KeyEvent;
use crate::models::SessionStatus;
use crate::text;

verus! {

/// Where a change of status was asked for.
#[derive(Debug, Clone, Copy, PartialEq, Eq, Structural)]
pub enum StatusOrigin {
    LabelPrompt,
    Board,
}

/// One request.
#[derive(Debug, Clone, PartialEq, Eq)]
pub enum Effect {
    /// Tell the transcript loader which session is selected.
    PublishSelection(Option<String>),
    /// Store a query among the recent ones.
    SaveRecentSearch(String),
    LoadRecentSearches,
    /// Set up the find bar on the transcript.
    OpenFindBar,
    /// Hand a key to the find bar.
    FindBarKey(KeyEvent),
    /// Find the find bar's matches in the transcript again.
    RecomputeFind,
    /// Look a message up among the stored ones.
    ProbeMessage { uuid: String },
    /// Set a message's bookmark, or remove it where it is set.
    ToggleBookmark { uuid: String },
    /// Read the bookmarks of every session in the sidebar.
    LoadBookmarks,
    /// Read them again.
    RefreshBookmarks,
    DeleteBookmark { bookmark_id: i64 },
    LoadSessionStatus { session_id: String },
    SetStatus { session_id: String, status: SessionStatus, origin: StatusOrigin },
    SetCustomName { session_id: String, name: Option<String> },
    /// Read the statuses of the sessions in the sidebar.
    LoadStatuses,
    /// Read them again.
    ReloadStatuses,
    /// Read the observations of the sessions in the sidebar, and which
    /// conflicts were reviewed.
    LoadConflicts,
    /// Read them again.
    ReloadConflicts,
    /// Have a conflict marked as reviewed.
    ResolveConflict { conflict_id: i64 },
    /// Put a text of this many characters onto the clipboard.
    CopyText { text: String, chars: usize },
    /// Write a text to a file.
    ExportText { text: String },
}

pub enum Request {
    PublishSelection(Option<Seq<char>>),
    SaveRecentSearch(Seq<char>),
    LoadRecentSearches,
    OpenFindBar,
    FindBarKey(KeyEvent),
    RecomputeFind,
    ProbeMessage { uuid: Seq<char> },
    ToggleBookmark { uuid: Seq<char> },
    LoadBookmarks,
    RefreshBookmarks,
    DeleteBookmark { bookmark_id: i64 },
    LoadSessionStatus { session_id: Seq<char> },
    SetStatus { session_id: Seq<char>, status: SessionStatus, origin: StatusOrigin },
    SetCustomName { session_id: Seq<char>, name: Option<Seq<char>> },
    LoadStatuses,
    ReloadStatuses,
    LoadConflicts,
    ReloadConflicts,
    ResolveConflict { conflict_id: i64 },
    CopyText { text: Seq<char>, chars: nat },
    ExportText { text: Seq<char> },
}

impl View for Effect {
    type V = Request;

    open spec fn view(&self) -> Request {
        match *self {
            Effect::PublishSelection(s) => Request::PublishSelection(text::opt_view(s)),
            Effect::SaveRecentSearch(q) => Request::SaveRecentSearch(q@),
            Effect::LoadRecentSearches => Request::LoadRecentSearches,
            Effect::OpenFindBar => Request::OpenFindBar,
            Effect::FindBarKey(k) => Request::FindBarKey(k),
            Effect::RecomputeFind => Request::RecomputeFind,
            Effect::ProbeMessage { uuid } => Request::ProbeMessage { uuid: uuid@ },
            Effect::ToggleBookmark { uuid } => Request::ToggleBookmark { uuid: uuid@ },
            Effect::LoadBookmarks => Request::LoadBookmarks,
            Effect::RefreshBookmarks => Request::RefreshBookmarks,
            Effect::DeleteBookmark { bookmark_id } => Request::DeleteBookmark { bookmark_id },
            Effect::LoadSessionStatus { session_id } => Request::LoadSessionStatus {
                session_id: session_id@,
            },
            Effect::SetStatus { session_id, status, origin } => Request::SetStatus {
                session_id: session_id@,
                status,
                origin,
            },
            Effect::SetCustomName { session_id, name } => Request::SetCustomName {
                session_id: session_id@,
                name: text::opt_view(name),
            },
            Effect::LoadStatuses => Request::LoadStatuses,
            Effect::ReloadStatuses => Request::ReloadStatuses,
            Effect::LoadConflicts => Request::LoadConflicts,
            Effect::ReloadConflicts => Request::ReloadConflicts,
            Effect::ResolveConflict { conflict_id } => Request::ResolveConflict { conflict_id },
            Effect::CopyText { text, chars } => Request::CopyText {
                text: text@,
                chars: chars as nat,
            },
            Effect::ExportText { text } => Request::ExportText { text: text@ },
        }
    }
}

pub open spec fn requests_view(v: Seq<Effect>) -> Seq<Request> {
    Seq::new(v.len(), |i: int| v[i]@)
}

/// Whether a request changes what is stored of sessions and messages.
pub open spec fn writes(r: Request) -> bool {
    r is ToggleBookmark || r is DeleteBookmark || r is SetStatus || r is SetCustomName
}

} // verus!
