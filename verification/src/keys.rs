//! Key events, commands, and the tables that bind one to the other per scope.

use vstd::prelude::*;

verus! {

/// UI surface that a key event is dispatched against. The same key can mean
/// different things in different scopes.
#[derive(Debug, Clone, Copy, PartialEq, Eq, Hash, Structural)]
pub enum Scope {
    /// Fallback for every other scope.
    Global,
    MainScreen,
    SearchModal,
    /// Find-in-transcript bar. It sits on top of the main screen and takes the
    /// keyboard while it is open.
    FindBar,
    BookmarkModal,
    KanbanModal,
    HelpOverlay,
    LabelPrompt,
    Confirm,
    /// List of pinned messages.
    BookmarkBrowser,
    /// Yes/no gate in front of a destructive action.
    ConfirmModal,
    /// Sessions grouped by status, one column each.
    Kanban,
    /// Decisions that contradict each other across sessions.
    ConflictViewer,
    /// Message selection inside the transcript.
    Selection,
}

/// Action that a binding fires.
#[derive(Debug, Clone, Copy, PartialEq, Eq, Hash, Structural)]
pub enum Command {
    Quit,
    /// Move the sidebar selection one row down.
    SelectNextSession,
    /// Move the sidebar selection one row up.
    SelectPrevSession,
    ScrollTop,
    ScrollBottom,
    ScrollDownHalf,
    ScrollUpHalf,
    OpenHelp,
    Confirm,
    OpenSearchModal,
    OpenFindBar,
    CloseFindBar,
    JumpToCurrentMatch,
    NextMatch,
    PrevMatch,
    /// Toggle the bookmark on the message under the message cursor.
    ToggleBookmark,
    OpenBookmarkBrowser,
    CycleSessionStatus,
    CycleSessionStatusBack,
    OpenLabelPrompt,
    Cancel,
    /// Move the message cursor one message down.
    MoveCursorDown,
    /// Move the message cursor one message up.
    MoveCursorUp,
    OpenKanban,
    OpenConflictViewer,
    MarkConflictResolved,
    KanbanColumnLeft,
    KanbanColumnRight,
    KanbanMoveItem,
    KanbanMoveItemBack,
    RefreshSessions,
    ThemeNext,
    ThemePrev,
    ShrinkSidebar,
    GrowSidebar,
    RenameSession,
    CopyResumeCommand,
    ObserveSession,
    ResumeObservation,
    ArchiveSession,
    ToggleArchivedView,
    MoveSessionDown,
    MoveSessionUp,
    FocusTranscript,
    FocusList,
    EnterSelectionMode,
    EditBookmarkNote,
    OpenBookmarkNotePrompt,
    ToggleToolFold,
}

/// Media keys that a terminal can report.
#[derive(Debug, Clone, Copy, PartialEq, Eq, Hash, Structural)]
pub enum MediaKeyCode {
    Play,
    Pause,
    PlayPause,
    Reverse,
    Stop,
    FastForward,
    Rewind,
    TrackNext,
    TrackPrevious,
    Record,
    LowerVolume,
    RaiseVolume,
    MuteVolume,
}

/// Modifier keys that a terminal can report as keys of their own.
#[derive(Debug, Clone, Copy, PartialEq, Eq, Hash, Structural)]
pub enum ModifierKeyCode {
    LeftShift,
    LeftControl,
    LeftAlt,
    LeftSuper,
    LeftHyper,
    LeftMeta,
    RightShift,
    RightControl,
    RightAlt,
    RightSuper,
    RightHyper,
    RightMeta,
    IsoLevel3Shift,
    IsoLevel5Shift,
}

/// A key, without its modifiers.
#[derive(Debug, Clone, Copy, PartialEq, Eq, Hash, Structural)]
pub enum KeyCode {
    Backspace,
    Enter,
    Left,
    Right,
    Up,
    Down,
    Home,
    End,
    PageUp,
    PageDown,
    Tab,
    BackTab,
    Delete,
    Insert,
    F(u8),
    Char(char),
    Null,
    Esc,
    CapsLock,
    ScrollLock,
    NumLock,
    PrintScreen,
    Pause,
    Menu,
    KeypadBegin,
    Media(MediaKeyCode),
    Modifier(ModifierKeyCode),
}

/// The modifiers held down with a key.
#[derive(Debug, Clone, Copy, PartialEq, Eq, Hash, Structural)]
pub struct KeyModifiers {
    pub shift: bool,
    pub control: bool,
    pub alt: bool,
    pub super_key: bool,
    pub hyper: bool,
    pub meta: bool,
}

impl KeyModifiers {
    /// No modifier.
    #[verifier::allow_in_spec]
    pub fn none() -> KeyModifiers
        returns
            (KeyModifiers {
                shift: false,
                control: false,
                alt: false,
                super_key: false,
                hyper: false,
                meta: false,
            }),
    {
        KeyModifiers {
            shift: false,
            control: false,
            alt: false,
            super_key: false,
            hyper: false,
            meta: false,
        }
    }

    /// Shift alone.
    #[verifier::allow_in_spec]
    pub fn shift() -> KeyModifiers
        returns
            (KeyModifiers {
                shift: true,
                control: false,
                alt: false,
                super_key: false,
                hyper: false,
                meta: false,
            }),
    {
        KeyModifiers {
            shift: true,
            control: false,
            alt: false,
            super_key: false,
            hyper: false,
            meta: false,
        }
    }

    /// Control alone.
    #[verifier::allow_in_spec]
    pub fn control() -> KeyModifiers
        returns
            (KeyModifiers {
                shift: false,
                control: true,
                alt: false,
                super_key: false,
                hyper: false,
                meta: false,
            }),
    {
        KeyModifiers {
            shift: false,
            control: true,
            alt: false,
            super_key: false,
            hyper: false,
            meta: false,
        }
    }

    /// Alt alone.
    #[verifier::allow_in_spec]
    pub fn alt() -> KeyModifiers
        returns
            (KeyModifiers {
                shift: false,
                control: false,
                alt: true,
                super_key: false,
                hyper: false,
                meta: false,
            }),
    {
        KeyModifiers {
            shift: false,
            control: false,
            alt: true,
            super_key: false,
            hyper: false,
            meta: false,
        }
    }
}

/// What happened to the key.
#[derive(Debug, Clone, Copy, PartialEq, Eq, Hash, Structural)]
pub enum KeyEventKind {
    Press,
    Repeat,
    Release,
}

/// One key event, as the terminal delivers it.
#[derive(Debug, Clone, Copy, PartialEq, Eq, Hash, Structural)]
pub struct KeyEvent {
    pub code: KeyCode,
    pub modifiers: KeyModifiers,
    pub kind: KeyEventKind,
}

impl KeyEvent {
    /// A press of `code` with `modifiers`.
    pub fn new(code: KeyCode, modifiers: KeyModifiers) -> (ev: KeyEvent)
        ensures
            ev == (KeyEvent { code, modifiers, kind: KeyEventKind::Press }),
    {
        KeyEvent { code, modifiers, kind: KeyEventKind::Press }
    }
}

/// A mouse button.
#[derive(Debug, Clone, Copy, PartialEq, Eq, Hash, Structural)]
pub enum MouseButton {
    Left,
    Right,
    Middle,
}

/// What the mouse did.
#[derive(Debug, Clone, Copy, PartialEq, Eq, Hash, Structural)]
pub enum MouseEventKind {
    Down(MouseButton),
    Up(MouseButton),
    Drag(MouseButton),
    Moved,
    ScrollDown,
    ScrollUp,
    ScrollLeft,
    ScrollRight,
}

/// One mouse event, at a cell of the terminal.
#[derive(Debug, Clone, Copy, PartialEq, Eq, Hash, Structural)]
pub struct MouseEvent {
    pub kind: MouseEventKind,
    pub column: u16,
    pub row: u16,
}

/// One row of a binding table. The label is what the footer and the help
/// overlay show for it.
#[derive(Debug, Clone, Copy)]
pub struct CommandBinding {
    pub key: KeyEvent,
    pub scope: Scope,
    pub command: Command,
    pub label: &'static str,
}

/// The row that binds a press of `code` with `modifiers`.
pub open spec fn spec_binding(
    code: KeyCode,
    modifiers: KeyModifiers,
    scope: Scope,
    command: Command,
    label: &'static str,
) -> CommandBinding {
    CommandBinding {
        key: KeyEvent { code, modifiers, kind: KeyEventKind::Press },
        scope,
        command,
        label,
    }
}

fn binding(
    code: KeyCode,
    modifiers: KeyModifiers,
    scope: Scope,
    command: Command,
    label: &'static str,
) -> (row: CommandBinding)
    ensures
        row == spec_binding(code, modifiers, scope, command, label),
{
    CommandBinding { key: KeyEvent::new(code, modifiers), scope, command, label }
}

/// Bindings that apply in every scope.
pub open spec fn global_bindings() -> Seq<CommandBinding> {
    seq![
        spec_binding(KeyCode::Char('q'), KeyModifiers::none(), Scope::Global, Command::Quit, "quit"),
        spec_binding(KeyCode::Char('c'), KeyModifiers::control(), Scope::Global, Command::Quit, "quit"),
    ]
}

/// Bindings of the main screen.
pub open spec fn main_screen_bindings() -> Seq<CommandBinding> {
    seq![
        spec_binding(KeyCode::Char('j'), KeyModifiers::none(), Scope::MainScreen, Command::SelectNextSession, "next session"),
        spec_binding(KeyCode::Down, KeyModifiers::none(), Scope::MainScreen, Command::SelectNextSession, "next session"),
        spec_binding(KeyCode::Char('k'), KeyModifiers::none(), Scope::MainScreen, Command::SelectPrevSession, "prev session"),
        spec_binding(KeyCode::Up, KeyModifiers::none(), Scope::MainScreen, Command::SelectPrevSession, "prev session"),
        spec_binding(KeyCode::Enter, KeyModifiers::none(), Scope::MainScreen, Command::Confirm, "open"),
        spec_binding(KeyCode::Home, KeyModifiers::none(), Scope::MainScreen, Command::ScrollTop, "top"),
        spec_binding(KeyCode::End, KeyModifiers::none(), Scope::MainScreen, Command::ScrollBottom, "bottom"),
        spec_binding(KeyCode::PageDown, KeyModifiers::none(), Scope::MainScreen, Command::ScrollDownHalf, "page down"),
        spec_binding(KeyCode::Char('d'), KeyModifiers::control(), Scope::MainScreen, Command::ScrollDownHalf, "page down"),
        spec_binding(KeyCode::PageUp, KeyModifiers::none(), Scope::MainScreen, Command::ScrollUpHalf, "page up"),
        spec_binding(KeyCode::Char('u'), KeyModifiers::control(), Scope::MainScreen, Command::ScrollUpHalf, "page up"),
        spec_binding(KeyCode::Char('?'), KeyModifiers::none(), Scope::MainScreen, Command::OpenHelp, "help"),
        spec_binding(KeyCode::Char('/'), KeyModifiers::none(), Scope::MainScreen, Command::OpenSearchModal, "search"),
        spec_binding(KeyCode::Char('f'), KeyModifiers::control(), Scope::MainScreen, Command::OpenFindBar, "find"),
        spec_binding(KeyCode::Char('b'), KeyModifiers::none(), Scope::MainScreen, Command::OpenBookmarkBrowser, "bookmarks"),
        spec_binding(KeyCode::Char(' '), KeyModifiers::none(), Scope::MainScreen, Command::ToggleBookmark, "toggle bookmark"),
        spec_binding(KeyCode::Char('B'), KeyModifiers::shift(), Scope::MainScreen, Command::OpenKanban, "kanban"),
        spec_binding(KeyCode::Char('t'), KeyModifiers::none(), Scope::MainScreen, Command::ThemeNext, "next theme"),
        spec_binding(KeyCode::Char('T'), KeyModifiers::shift(), Scope::MainScreen, Command::ThemePrev, "prev theme"),
        spec_binding(KeyCode::Char('['), KeyModifiers::none(), Scope::MainScreen, Command::ShrinkSidebar, "shrink sidebar"),
        spec_binding(KeyCode::Char(']'), KeyModifiers::none(), Scope::MainScreen, Command::GrowSidebar, "grow sidebar"),
        spec_binding(KeyCode::Char('r'), KeyModifiers::none(), Scope::MainScreen, Command::RefreshSessions, "refresh"),
        spec_binding(KeyCode::Char('n'), KeyModifiers::none(), Scope::MainScreen, Command::RenameSession, "rename"),
        spec_binding(KeyCode::Char('g'), KeyModifiers::none(), Scope::MainScreen, Command::CopyResumeCommand, "copy resume"),
        spec_binding(KeyCode::Char('o'), KeyModifiers::none(), Scope::MainScreen, Command::ObserveSession, "observe"),
        spec_binding(KeyCode::Char('O'), KeyModifiers::shift(), Scope::MainScreen, Command::ResumeObservation, "resume obs"),
        spec_binding(KeyCode::Char('s'), KeyModifiers::none(), Scope::MainScreen, Command::CycleSessionStatus, "status →"),
        spec_binding(KeyCode::Char('S'), KeyModifiers::shift(), Scope::MainScreen, Command::CycleSessionStatusBack, "status ←"),
        spec_binding(KeyCode::Char('a'), KeyModifiers::none(), Scope::MainScreen, Command::ArchiveSession, "archive"),
        spec_binding(KeyCode::Char('A'), KeyModifiers::shift(), Scope::MainScreen, Command::ToggleArchivedView, "show archived"),
        spec_binding(KeyCode::Char('J'), KeyModifiers::shift(), Scope::MainScreen, Command::MoveSessionDown, "session ↓"),
        spec_binding(KeyCode::Down, KeyModifiers::shift(), Scope::MainScreen, Command::MoveSessionDown, "session ↓"),
        spec_binding(KeyCode::Char('K'), KeyModifiers::shift(), Scope::MainScreen, Command::MoveSessionUp, "session ↑"),
        spec_binding(KeyCode::Up, KeyModifiers::shift(), Scope::MainScreen, Command::MoveSessionUp, "session ↑"),
        spec_binding(KeyCode::Char('j'), KeyModifiers::control(), Scope::MainScreen, Command::MoveCursorDown, "msg ↓"),
        spec_binding(KeyCode::Char('k'), KeyModifiers::control(), Scope::MainScreen, Command::MoveCursorUp, "msg ↑"),
        spec_binding(KeyCode::Char('m'), KeyModifiers::none(), Scope::MainScreen, Command::EnterSelectionMode, "select mode"),
        spec_binding(KeyCode::Char('l'), KeyModifiers::none(), Scope::MainScreen, Command::FocusTranscript, "focus transcript"),
        spec_binding(KeyCode::Right, KeyModifiers::none(), Scope::MainScreen, Command::FocusTranscript, "focus transcript"),
        spec_binding(KeyCode::Char('h'), KeyModifiers::none(), Scope::MainScreen, Command::FocusList, "focus list"),
        spec_binding(KeyCode::Left, KeyModifiers::none(), Scope::MainScreen, Command::FocusList, "focus list"),
        spec_binding(KeyCode::Char('c'), KeyModifiers::none(), Scope::MainScreen, Command::OpenConflictViewer, "conflicts"),
        spec_binding(KeyCode::Char('L'), KeyModifiers::shift(), Scope::MainScreen, Command::OpenLabelPrompt, "label"),
    ]
}

/// Bindings advertised while the search modal is open.
pub open spec fn search_modal_bindings() -> Seq<CommandBinding> {
    seq![
        spec_binding(KeyCode::Esc, KeyModifiers::none(), Scope::SearchModal, Command::CloseFindBar, "close"),
        spec_binding(KeyCode::Enter, KeyModifiers::none(), Scope::SearchModal, Command::Confirm, "jump"),
        spec_binding(KeyCode::Down, KeyModifiers::none(), Scope::SearchModal, Command::SelectNextSession, "next hit"),
        spec_binding(KeyCode::Up, KeyModifiers::none(), Scope::SearchModal, Command::SelectPrevSession, "prev hit"),
        spec_binding(KeyCode::Char('n'), KeyModifiers::control(), Scope::SearchModal, Command::SelectNextSession, "next hit"),
        spec_binding(KeyCode::Char('p'), KeyModifiers::control(), Scope::SearchModal, Command::SelectPrevSession, "prev hit"),
        spec_binding(KeyCode::PageDown, KeyModifiers::none(), Scope::SearchModal, Command::ScrollDownHalf, "jump down"),
        spec_binding(KeyCode::PageUp, KeyModifiers::none(), Scope::SearchModal, Command::ScrollUpHalf, "jump up"),
        spec_binding(KeyCode::Char('x'), KeyModifiers::control(), Scope::SearchModal, Command::Cancel, "clear"),
    ]
}

/// Bindings advertised while the find bar has the keyboard.
pub open spec fn find_bar_bindings() -> Seq<CommandBinding> {
    seq![
        spec_binding(KeyCode::Esc, KeyModifiers::none(), Scope::FindBar, Command::CloseFindBar, "close"),
        spec_binding(KeyCode::Enter, KeyModifiers::none(), Scope::FindBar, Command::JumpToCurrentMatch, "jump"),
        spec_binding(KeyCode::Char('n'), KeyModifiers::none(), Scope::FindBar, Command::NextMatch, "next"),
        spec_binding(KeyCode::Down, KeyModifiers::none(), Scope::FindBar, Command::NextMatch, "next"),
        spec_binding(KeyCode::Char('N'), KeyModifiers::shift(), Scope::FindBar, Command::PrevMatch, "prev"),
        spec_binding(KeyCode::Up, KeyModifiers::none(), Scope::FindBar, Command::PrevMatch, "prev"),
    ]
}

/// Bindings advertised while the bookmark browser is open.
pub open spec fn bookmark_browser_bindings() -> Seq<CommandBinding> {
    seq![
        spec_binding(KeyCode::Esc, KeyModifiers::none(), Scope::BookmarkBrowser, Command::Cancel, "close"),
        spec_binding(KeyCode::Enter, KeyModifiers::none(), Scope::BookmarkBrowser, Command::Confirm, "jump"),
        spec_binding(KeyCode::Char('j'), KeyModifiers::none(), Scope::BookmarkBrowser, Command::SelectNextSession, "next"),
        spec_binding(KeyCode::Down, KeyModifiers::none(), Scope::BookmarkBrowser, Command::SelectNextSession, "next"),
        spec_binding(KeyCode::Char('n'), KeyModifiers::control(), Scope::BookmarkBrowser, Command::SelectNextSession, "next"),
        spec_binding(KeyCode::Char('k'), KeyModifiers::none(), Scope::BookmarkBrowser, Command::SelectPrevSession, "prev"),
        spec_binding(KeyCode::Up, KeyModifiers::none(), Scope::BookmarkBrowser, Command::SelectPrevSession, "prev"),
        spec_binding(KeyCode::Char('p'), KeyModifiers::control(), Scope::BookmarkBrowser, Command::SelectPrevSession, "prev"),
        spec_binding(KeyCode::Char('d'), KeyModifiers::none(), Scope::BookmarkBrowser, Command::Cancel, "delete"),
        spec_binding(KeyCode::Char('L'), KeyModifiers::shift(), Scope::BookmarkBrowser, Command::EditBookmarkNote, "edit note"),
    ]
}

/// Bindings advertised while the confirm modal is open.
pub open spec fn confirm_modal_bindings() -> Seq<CommandBinding> {
    seq![
        spec_binding(KeyCode::Char('y'), KeyModifiers::none(), Scope::ConfirmModal, Command::Confirm, "yes"),
        spec_binding(KeyCode::Char('n'), KeyModifiers::none(), Scope::ConfirmModal, Command::Cancel, "no"),
        spec_binding(KeyCode::Enter, KeyModifiers::none(), Scope::ConfirmModal, Command::Confirm, "yes"),
        spec_binding(KeyCode::Esc, KeyModifiers::none(), Scope::ConfirmModal, Command::Cancel, "no"),
    ]
}

/// Bindings advertised while the label prompt is open.
pub open spec fn label_prompt_bindings() -> Seq<CommandBinding> {
    seq![
        spec_binding(KeyCode::Esc, KeyModifiers::none(), Scope::LabelPrompt, Command::Cancel, "close"),
        spec_binding(KeyCode::Enter, KeyModifiers::none(), Scope::LabelPrompt, Command::Confirm, "set"),
        spec_binding(KeyCode::Char('j'), KeyModifiers::none(), Scope::LabelPrompt, Command::SelectNextSession, "next"),
        spec_binding(KeyCode::Char('k'), KeyModifiers::none(), Scope::LabelPrompt, Command::SelectPrevSession, "prev"),
        spec_binding(KeyCode::Tab, KeyModifiers::none(), Scope::LabelPrompt, Command::Cancel, "mode"),
    ]
}

/// Bindings advertised while the status board is open.
pub open spec fn kanban_bindings() -> Seq<CommandBinding> {
    seq![
        spec_binding(KeyCode::Esc, KeyModifiers::none(), Scope::Kanban, Command::Cancel, "close"),
        spec_binding(KeyCode::Enter, KeyModifiers::none(), Scope::Kanban, Command::Confirm, "open"),
        spec_binding(KeyCode::Char('h'), KeyModifiers::none(), Scope::Kanban, Command::KanbanColumnLeft, "col ←"),
        spec_binding(KeyCode::Left, KeyModifiers::none(), Scope::Kanban, Command::KanbanColumnLeft, "col ←"),
        spec_binding(KeyCode::Char('l'), KeyModifiers::none(), Scope::Kanban, Command::KanbanColumnRight, "col →"),
        spec_binding(KeyCode::Right, KeyModifiers::none(), Scope::Kanban, Command::KanbanColumnRight, "col →"),
        spec_binding(KeyCode::Char('j'), KeyModifiers::none(), Scope::Kanban, Command::SelectNextSession, "row ↓"),
        spec_binding(KeyCode::Down, KeyModifiers::none(), Scope::Kanban, Command::SelectNextSession, "row ↓"),
        spec_binding(KeyCode::Char('k'), KeyModifiers::none(), Scope::Kanban, Command::SelectPrevSession, "row ↑"),
        spec_binding(KeyCode::Up, KeyModifiers::none(), Scope::Kanban, Command::SelectPrevSession, "row ↑"),
        spec_binding(KeyCode::Char('m'), KeyModifiers::none(), Scope::Kanban, Command::KanbanMoveItem, "move"),
        spec_binding(KeyCode::Right, KeyModifiers::shift(), Scope::Kanban, Command::KanbanMoveItem, "move →"),
        spec_binding(KeyCode::Left, KeyModifiers::shift(), Scope::Kanban, Command::KanbanMoveItemBack, "move ←"),
    ]
}

/// Bindings advertised while the conflict viewer is open.
pub open spec fn conflict_viewer_bindings() -> Seq<CommandBinding> {
    seq![
        spec_binding(KeyCode::Esc, KeyModifiers::none(), Scope::ConflictViewer, Command::Cancel, "close"),
        spec_binding(KeyCode::Enter, KeyModifiers::none(), Scope::ConflictViewer, Command::Confirm, "jump"),
        spec_binding(KeyCode::Char('j'), KeyModifiers::none(), Scope::ConflictViewer, Command::SelectNextSession, "next"),
        spec_binding(KeyCode::Char('k'), KeyModifiers::none(), Scope::ConflictViewer, Command::SelectPrevSession, "prev"),
        spec_binding(KeyCode::Char('r'), KeyModifiers::none(), Scope::ConflictViewer, Command::MarkConflictResolved, "resolve"),
        spec_binding(KeyCode::Char('t'), KeyModifiers::none(), Scope::ConflictViewer, Command::Cancel, "toggle resolved"),
    ]
}

/// Bindings advertised while the help overlay is open.
pub open spec fn help_overlay_bindings() -> Seq<CommandBinding> {
    seq![
        spec_binding(KeyCode::Esc, KeyModifiers::none(), Scope::HelpOverlay, Command::Cancel, "close"),
        spec_binding(KeyCode::Char('?'), KeyModifiers::none(), Scope::HelpOverlay, Command::OpenHelp, "close"),
        spec_binding(KeyCode::Char('q'), KeyModifiers::none(), Scope::HelpOverlay, Command::Cancel, "close"),
    ]
}

/// Bindings advertised in selection mode.
pub open spec fn selection_bindings() -> Seq<CommandBinding> {
    seq![
        spec_binding(KeyCode::Char('j'), KeyModifiers::none(), Scope::Selection, Command::SelectNextSession, "next msg"),
        spec_binding(KeyCode::Down, KeyModifiers::none(), Scope::Selection, Command::SelectNextSession, "next msg"),
        spec_binding(KeyCode::Char('k'), KeyModifiers::none(), Scope::Selection, Command::SelectPrevSession, "prev msg"),
        spec_binding(KeyCode::Up, KeyModifiers::none(), Scope::Selection, Command::SelectPrevSession, "prev msg"),
        spec_binding(KeyCode::Char('v'), KeyModifiers::none(), Scope::Selection, Command::Confirm, "range"),
        spec_binding(KeyCode::Char('y'), KeyModifiers::none(), Scope::Selection, Command::Confirm, "copy"),
        spec_binding(KeyCode::Char('e'), KeyModifiers::none(), Scope::Selection, Command::Confirm, "export"),
        spec_binding(KeyCode::Char(' '), KeyModifiers::none(), Scope::Selection, Command::ToggleBookmark, "bookmark"),
        spec_binding(KeyCode::Char('L'), KeyModifiers::shift(), Scope::Selection, Command::EditBookmarkNote, "edit note"),
        spec_binding(KeyCode::Char('m'), KeyModifiers::none(), Scope::Selection, Command::EnterSelectionMode, "exit select"),
        spec_binding(KeyCode::Esc, KeyModifiers::none(), Scope::Selection, Command::Cancel, "exit select"),
    ]
}

fn global_table() -> (rows: Vec<CommandBinding>)
    ensures
        rows@ == global_bindings(),
{
    vec![
        binding(KeyCode::Char('q'), KeyModifiers::none(), Scope::Global, Command::Quit, "quit"),
        binding(KeyCode::Char('c'), KeyModifiers::control(), Scope::Global, Command::Quit, "quit"),
    ]
}

fn main_screen_table() -> (rows: Vec<CommandBinding>)
    ensures
        rows@ == main_screen_bindings(),
{
    vec![
        binding(KeyCode::Char('j'), KeyModifiers::none(), Scope::MainScreen, Command::SelectNextSession, "next session"),
        binding(KeyCode::Down, KeyModifiers::none(), Scope::MainScreen, Command::SelectNextSession, "next session"),
        binding(KeyCode::Char('k'), KeyModifiers::none(), Scope::MainScreen, Command::SelectPrevSession, "prev session"),
        binding(KeyCode::Up, KeyModifiers::none(), Scope::MainScreen, Command::SelectPrevSession, "prev session"),
        binding(KeyCode::Enter, KeyModifiers::none(), Scope::MainScreen, Command::Confirm, "open"),
        binding(KeyCode::Home, KeyModifiers::none(), Scope::MainScreen, Command::ScrollTop, "top"),
        binding(KeyCode::End, KeyModifiers::none(), Scope::MainScreen, Command::ScrollBottom, "bottom"),
        binding(KeyCode::PageDown, KeyModifiers::none(), Scope::MainScreen, Command::ScrollDownHalf, "page down"),
        binding(KeyCode::Char('d'), KeyModifiers::control(), Scope::MainScreen, Command::ScrollDownHalf, "page down"),
        binding(KeyCode::PageUp, KeyModifiers::none(), Scope::MainScreen, Command::ScrollUpHalf, "page up"),
        binding(KeyCode::Char('u'), KeyModifiers::control(), Scope::MainScreen, Command::ScrollUpHalf, "page up"),
        binding(KeyCode::Char('?'), KeyModifiers::none(), Scope::MainScreen, Command::OpenHelp, "help"),
        binding(KeyCode::Char('/'), KeyModifiers::none(), Scope::MainScreen, Command::OpenSearchModal, "search"),
        binding(KeyCode::Char('f'), KeyModifiers::control(), Scope::MainScreen, Command::OpenFindBar, "find"),
        binding(KeyCode::Char('b'), KeyModifiers::none(), Scope::MainScreen, Command::OpenBookmarkBrowser, "bookmarks"),
        binding(KeyCode::Char(' '), KeyModifiers::none(), Scope::MainScreen, Command::ToggleBookmark, "toggle bookmark"),
        binding(KeyCode::Char('B'), KeyModifiers::shift(), Scope::MainScreen, Command::OpenKanban, "kanban"),
        binding(KeyCode::Char('t'), KeyModifiers::none(), Scope::MainScreen, Command::ThemeNext, "next theme"),
        binding(KeyCode::Char('T'), KeyModifiers::shift(), Scope::MainScreen, Command::ThemePrev, "prev theme"),
        binding(KeyCode::Char('['), KeyModifiers::none(), Scope::MainScreen, Command::ShrinkSidebar, "shrink sidebar"),
        binding(KeyCode::Char(']'), KeyModifiers::none(), Scope::MainScreen, Command::GrowSidebar, "grow sidebar"),
        binding(KeyCode::Char('r'), KeyModifiers::none(), Scope::MainScreen, Command::RefreshSessions, "refresh"),
        binding(KeyCode::Char('n'), KeyModifiers::none(), Scope::MainScreen, Command::RenameSession, "rename"),
        binding(KeyCode::Char('g'), KeyModifiers::none(), Scope::MainScreen, Command::CopyResumeCommand, "copy resume"),
        binding(KeyCode::Char('o'), KeyModifiers::none(), Scope::MainScreen, Command::ObserveSession, "observe"),
        binding(KeyCode::Char('O'), KeyModifiers::shift(), Scope::MainScreen, Command::ResumeObservation, "resume obs"),
        binding(KeyCode::Char('s'), KeyModifiers::none(), Scope::MainScreen, Command::CycleSessionStatus, "status →"),
        binding(KeyCode::Char('S'), KeyModifiers::shift(), Scope::MainScreen, Command::CycleSessionStatusBack, "status ←"),
        binding(KeyCode::Char('a'), KeyModifiers::none(), Scope::MainScreen, Command::ArchiveSession, "archive"),
        binding(KeyCode::Char('A'), KeyModifiers::shift(), Scope::MainScreen, Command::ToggleArchivedView, "show archived"),
        binding(KeyCode::Char('J'), KeyModifiers::shift(), Scope::MainScreen, Command::MoveSessionDown, "session ↓"),
        binding(KeyCode::Down, KeyModifiers::shift(), Scope::MainScreen, Command::MoveSessionDown, "session ↓"),
        binding(KeyCode::Char('K'), KeyModifiers::shift(), Scope::MainScreen, Command::MoveSessionUp, "session ↑"),
        binding(KeyCode::Up, KeyModifiers::shift(), Scope::MainScreen, Command::MoveSessionUp, "session ↑"),
        binding(KeyCode::Char('j'), KeyModifiers::control(), Scope::MainScreen, Command::MoveCursorDown, "msg ↓"),
        binding(KeyCode::Char('k'), KeyModifiers::control(), Scope::MainScreen, Command::MoveCursorUp, "msg ↑"),
        binding(KeyCode::Char('m'), KeyModifiers::none(), Scope::MainScreen, Command::EnterSelectionMode, "select mode"),
        binding(KeyCode::Char('l'), KeyModifiers::none(), Scope::MainScreen, Command::FocusTranscript, "focus transcript"),
        binding(KeyCode::Right, KeyModifiers::none(), Scope::MainScreen, Command::FocusTranscript, "focus transcript"),
        binding(KeyCode::Char('h'), KeyModifiers::none(), Scope::MainScreen, Command::FocusList, "focus list"),
        binding(KeyCode::Left, KeyModifiers::none(), Scope::MainScreen, Command::FocusList, "focus list"),
        binding(KeyCode::Char('c'), KeyModifiers::none(), Scope::MainScreen, Command::OpenConflictViewer, "conflicts"),
        binding(KeyCode::Char('L'), KeyModifiers::shift(), Scope::MainScreen, Command::OpenLabelPrompt, "label"),
    ]
}

fn search_modal_table() -> (rows: Vec<CommandBinding>)
    ensures
        rows@ == search_modal_bindings(),
{
    vec![
        binding(KeyCode::Esc, KeyModifiers::none(), Scope::SearchModal, Command::CloseFindBar, "close"),
        binding(KeyCode::Enter, KeyModifiers::none(), Scope::SearchModal, Command::Confirm, "jump"),
        binding(KeyCode::Down, KeyModifiers::none(), Scope::SearchModal, Command::SelectNextSession, "next hit"),
        binding(KeyCode::Up, KeyModifiers::none(), Scope::SearchModal, Command::SelectPrevSession, "prev hit"),
        binding(KeyCode::Char('n'), KeyModifiers::control(), Scope::SearchModal, Command::SelectNextSession, "next hit"),
        binding(KeyCode::Char('p'), KeyModifiers::control(), Scope::SearchModal, Command::SelectPrevSession, "prev hit"),
        binding(KeyCode::PageDown, KeyModifiers::none(), Scope::SearchModal, Command::ScrollDownHalf, "jump down"),
        binding(KeyCode::PageUp, KeyModifiers::none(), Scope::SearchModal, Command::ScrollUpHalf, "jump up"),
        binding(KeyCode::Char('x'), KeyModifiers::control(), Scope::SearchModal, Command::Cancel, "clear"),
    ]
}

fn find_bar_table() -> (rows: Vec<CommandBinding>)
    ensures
        rows@ == find_bar_bindings(),
{
    vec![
        binding(KeyCode::Esc, KeyModifiers::none(), Scope::FindBar, Command::CloseFindBar, "close"),
        binding(KeyCode::Enter, KeyModifiers::none(), Scope::FindBar, Command::JumpToCurrentMatch, "jump"),
        binding(KeyCode::Char('n'), KeyModifiers::none(), Scope::FindBar, Command::NextMatch, "next"),
        binding(KeyCode::Down, KeyModifiers::none(), Scope::FindBar, Command::NextMatch, "next"),
        binding(KeyCode::Char('N'), KeyModifiers::shift(), Scope::FindBar, Command::PrevMatch, "prev"),
        binding(KeyCode::Up, KeyModifiers::none(), Scope::FindBar, Command::PrevMatch, "prev"),
    ]
}

fn bookmark_browser_table() -> (rows: Vec<CommandBinding>)
    ensures
        rows@ == bookmark_browser_bindings(),
{
    vec![
        binding(KeyCode::Esc, KeyModifiers::none(), Scope::BookmarkBrowser, Command::Cancel, "close"),
        binding(KeyCode::Enter, KeyModifiers::none(), Scope::BookmarkBrowser, Command::Confirm, "jump"),
        binding(KeyCode::Char('j'), KeyModifiers::none(), Scope::BookmarkBrowser, Command::SelectNextSession, "next"),
        binding(KeyCode::Down, KeyModifiers::none(), Scope::BookmarkBrowser, Command::SelectNextSession, "next"),
        binding(KeyCode::Char('n'), KeyModifiers::control(), Scope::BookmarkBrowser, Command::SelectNextSession, "next"),
        binding(KeyCode::Char('k'), KeyModifiers::none(), Scope::BookmarkBrowser, Command::SelectPrevSession, "prev"),
        binding(KeyCode::Up, KeyModifiers::none(), Scope::BookmarkBrowser, Command::SelectPrevSession, "prev"),
        binding(KeyCode::Char('p'), KeyModifiers::control(), Scope::BookmarkBrowser, Command::SelectPrevSession, "prev"),
        binding(KeyCode::Char('d'), KeyModifiers::none(), Scope::BookmarkBrowser, Command::Cancel, "delete"),
        binding(KeyCode::Char('L'), KeyModifiers::shift(), Scope::BookmarkBrowser, Command::EditBookmarkNote, "edit note"),
    ]
}

fn confirm_modal_table() -> (rows: Vec<CommandBinding>)
    ensures
        rows@ == confirm_modal_bindings(),
{
    vec![
        binding(KeyCode::Char('y'), KeyModifiers::none(), Scope::ConfirmModal, Command::Confirm, "yes"),
        binding(KeyCode::Char('n'), KeyModifiers::none(), Scope::ConfirmModal, Command::Cancel, "no"),
        binding(KeyCode::Enter, KeyModifiers::none(), Scope::ConfirmModal, Command::Confirm, "yes"),
        binding(KeyCode::Esc, KeyModifiers::none(), Scope::ConfirmModal, Command::Cancel, "no"),
    ]
}

fn label_prompt_table() -> (rows: Vec<CommandBinding>)
    ensures
        rows@ == label_prompt_bindings(),
{
    vec![
        binding(KeyCode::Esc, KeyModifiers::none(), Scope::LabelPrompt, Command::Cancel, "close"),
        binding(KeyCode::Enter, KeyModifiers::none(), Scope::LabelPrompt, Command::Confirm, "set"),
        binding(KeyCode::Char('j'), KeyModifiers::none(), Scope::LabelPrompt, Command::SelectNextSession, "next"),
        binding(KeyCode::Char('k'), KeyModifiers::none(), Scope::LabelPrompt, Command::SelectPrevSession, "prev"),
        binding(KeyCode::Tab, KeyModifiers::none(), Scope::LabelPrompt, Command::Cancel, "mode"),
    ]
}

fn kanban_table() -> (rows: Vec<CommandBinding>)
    ensures
        rows@ == kanban_bindings(),
{
    vec![
        binding(KeyCode::Esc, KeyModifiers::none(), Scope::Kanban, Command::Cancel, "close"),
        binding(KeyCode::Enter, KeyModifiers::none(), Scope::Kanban, Command::Confirm, "open"),
        binding(KeyCode::Char('h'), KeyModifiers::none(), Scope::Kanban, Command::KanbanColumnLeft, "col ←"),
        binding(KeyCode::Left, KeyModifiers::none(), Scope::Kanban, Command::KanbanColumnLeft, "col ←"),
        binding(KeyCode::Char('l'), KeyModifiers::none(), Scope::Kanban, Command::KanbanColumnRight, "col →"),
        binding(KeyCode::Right, KeyModifiers::none(), Scope::Kanban, Command::KanbanColumnRight, "col →"),
        binding(KeyCode::Char('j'), KeyModifiers::none(), Scope::Kanban, Command::SelectNextSession, "row ↓"),
        binding(KeyCode::Down, KeyModifiers::none(), Scope::Kanban, Command::SelectNextSession, "row ↓"),
        binding(KeyCode::Char('k'), KeyModifiers::none(), Scope::Kanban, Command::SelectPrevSession, "row ↑"),
        binding(KeyCode::Up, KeyModifiers::none(), Scope::Kanban, Command::SelectPrevSession, "row ↑"),
        binding(KeyCode::Char('m'), KeyModifiers::none(), Scope::Kanban, Command::KanbanMoveItem, "move"),
        binding(KeyCode::Right, KeyModifiers::shift(), Scope::Kanban, Command::KanbanMoveItem, "move →"),
        binding(KeyCode::Left, KeyModifiers::shift(), Scope::Kanban, Command::KanbanMoveItemBack, "move ←"),
    ]
}

fn conflict_viewer_table() -> (rows: Vec<CommandBinding>)
    ensures
        rows@ == conflict_viewer_bindings(),
{
    vec![
        binding(KeyCode::Esc, KeyModifiers::none(), Scope::ConflictViewer, Command::Cancel, "close"),
        binding(KeyCode::Enter, KeyModifiers::none(), Scope::ConflictViewer, Command::Confirm, "jump"),
        binding(KeyCode::Char('j'), KeyModifiers::none(), Scope::ConflictViewer, Command::SelectNextSession, "next"),
        binding(KeyCode::Char('k'), KeyModifiers::none(), Scope::ConflictViewer, Command::SelectPrevSession, "prev"),
        binding(KeyCode::Char('r'), KeyModifiers::none(), Scope::ConflictViewer, Command::MarkConflictResolved, "resolve"),
        binding(KeyCode::Char('t'), KeyModifiers::none(), Scope::ConflictViewer, Command::Cancel, "toggle resolved"),
    ]
}

fn help_overlay_table() -> (rows: Vec<CommandBinding>)
    ensures
        rows@ == help_overlay_bindings(),
{
    vec![
        binding(KeyCode::Esc, KeyModifiers::none(), Scope::HelpOverlay, Command::Cancel, "close"),
        binding(KeyCode::Char('?'), KeyModifiers::none(), Scope::HelpOverlay, Command::OpenHelp, "close"),
        binding(KeyCode::Char('q'), KeyModifiers::none(), Scope::HelpOverlay, Command::Cancel, "close"),
    ]
}

fn selection_table() -> (rows: Vec<CommandBinding>)
    ensures
        rows@ == selection_bindings(),
{
    vec![
        binding(KeyCode::Char('j'), KeyModifiers::none(), Scope::Selection, Command::SelectNextSession, "next msg"),
        binding(KeyCode::Down, KeyModifiers::none(), Scope::Selection, Command::SelectNextSession, "next msg"),
        binding(KeyCode::Char('k'), KeyModifiers::none(), Scope::Selection, Command::SelectPrevSession, "prev msg"),
        binding(KeyCode::Up, KeyModifiers::none(), Scope::Selection, Command::SelectPrevSession, "prev msg"),
        binding(KeyCode::Char('v'), KeyModifiers::none(), Scope::Selection, Command::Confirm, "range"),
        binding(KeyCode::Char('y'), KeyModifiers::none(), Scope::Selection, Command::Confirm, "copy"),
        binding(KeyCode::Char('e'), KeyModifiers::none(), Scope::Selection, Command::Confirm, "export"),
        binding(KeyCode::Char(' '), KeyModifiers::none(), Scope::Selection, Command::ToggleBookmark, "bookmark"),
        binding(KeyCode::Char('L'), KeyModifiers::shift(), Scope::Selection, Command::EditBookmarkNote, "edit note"),
        binding(KeyCode::Char('m'), KeyModifiers::none(), Scope::Selection, Command::EnterSelectionMode, "exit select"),
        binding(KeyCode::Esc, KeyModifiers::none(), Scope::Selection, Command::Cancel, "exit select"),
    ]
}
/// The table of a scope. The scopes without bindings of their own have an
/// empty one.
pub open spec fn bindings_of(scope: Scope) -> Seq<CommandBinding> {
    match scope {
        Scope::Global => global_bindings(),
        Scope::MainScreen => main_screen_bindings(),
        Scope::SearchModal => search_modal_bindings(),
        Scope::FindBar => find_bar_bindings(),
        Scope::BookmarkBrowser => bookmark_browser_bindings(),
        Scope::ConfirmModal => confirm_modal_bindings(),
        Scope::LabelPrompt => label_prompt_bindings(),
        Scope::Kanban => kanban_bindings(),
        Scope::ConflictViewer => conflict_viewer_bindings(),
        Scope::HelpOverlay => help_overlay_bindings(),
        Scope::Selection => selection_bindings(),
        Scope::BookmarkModal | Scope::KanbanModal | Scope::Confirm => Seq::empty(),
    }
}

/// The bindings registered for `scope`.
pub fn commands_for_scope(scope: Scope) -> (rows: Vec<CommandBinding>)
    ensures
        rows@ == bindings_of(scope),
{
    match scope {
        Scope::Global => global_table(),
        Scope::MainScreen => main_screen_table(),
        Scope::SearchModal => search_modal_table(),
        Scope::FindBar => find_bar_table(),
        Scope::BookmarkBrowser => bookmark_browser_table(),
        Scope::ConfirmModal => confirm_modal_table(),
        Scope::LabelPrompt => label_prompt_table(),
        Scope::Kanban => kanban_table(),
        Scope::ConflictViewer => conflict_viewer_table(),
        Scope::HelpOverlay => help_overlay_table(),
        Scope::Selection => selection_table(),
        Scope::BookmarkModal | Scope::KanbanModal | Scope::Confirm => Vec::new(),
    }
}

/// Whether a row is for the key of `ev`, with exactly its modifiers.
pub open spec fn row_matches(row: CommandBinding, ev: KeyEvent) -> bool {
    row.key.code == ev.code && row.key.modifiers == ev.modifiers
}

/// The command of the first row that is for the key of `ev`.
pub open spec fn first_match(rows: Seq<CommandBinding>, ev: KeyEvent) -> Option<Command>
    decreases rows.len(),
{
    if rows.len() == 0 {
        None
    } else if row_matches(rows[0], ev) {
        Some(rows[0].command)
    } else {
        first_match(rows.skip(1), ev)
    }
}

/// The command that `ev` fires in `scope`: none for a released key, else that
/// of the scope's own table, else that of the global one.
#[verifier::opaque]
pub open spec fn command_of(scope: Scope, ev: KeyEvent) -> Option<Command> {
    if ev.kind == KeyEventKind::Release {
        None
    } else {
        match first_match(bindings_of(scope), ev) {
            Some(command) => Some(command),
            None => first_match(global_bindings(), ev),
        }
    }
}

fn find_command(rows: &Vec<CommandBinding>, ev: KeyEvent) -> (found: Option<Command>)
    ensures
        found == first_match(rows@, ev),
{
    let mut i: usize = 0;
    assert(rows@.skip(0) =~= rows@);
    while i < rows.len()
        invariant
            i <= rows.len(),
            first_match(rows@, ev) == first_match(rows@.skip(i as int), ev),
        decreases rows.len() - i,
    {
        if rows[i].key.code == ev.code && rows[i].key.modifiers == ev.modifiers {
            return Some(rows[i].command);
        }
        assert(rows@.skip(i as int).skip(1) =~= rows@.skip(i + 1));
        i += 1;
    }
    None
}

/// The command that a key fires in the given scope, with the global table as
/// the fallback.
pub fn lookup(scope: Scope, ev: KeyEvent) -> (command: Option<Command>)
    ensures
        command == command_of(scope, ev),
{
    proof {
        reveal(command_of);
    }
    if ev.kind == KeyEventKind::Release {
        return None;
    }
    let own = commands_for_scope(scope);
    match find_command(&own, ev) {
        Some(command) => Some(command),
        None => {
            let shared = commands_for_scope(Scope::Global);
            find_command(&shared, ev)
        },
    }
}

/// No key is bound twice in one scope.
pub proof fn bindings_are_distinct(scope: Scope, i: int, j: int)
    requires
        0 <= i < j < bindings_of(scope).len(),
    ensures
        !row_matches(bindings_of(scope)[i], bindings_of(scope)[j].key),
{
}

/// Every row of a scope's table is registered under that scope and binds a
/// press.
pub proof fn rows_carry_their_scope(scope: Scope, i: int)
    requires
        0 <= i < bindings_of(scope).len(),
    ensures
        bindings_of(scope)[i].scope == scope,
        bindings_of(scope)[i].key.kind == KeyEventKind::Press,
{
}

proof fn first_match_at(rows: Seq<CommandBinding>, ev: KeyEvent, i: int)
    requires
        0 <= i < rows.len(),
        row_matches(rows[i], ev),
        forall|k: int| 0 <= k < i ==> !row_matches(#[trigger] rows[k], ev),
    ensures
        first_match(rows, ev) == Some(rows[i].command),
    decreases i,
{
    if i > 0 {
        assert(!row_matches(rows[0], ev));
        assert forall|k: int| 0 <= k < i - 1 implies !row_matches(
            #[trigger] rows.skip(1)[k],
            ev,
        ) by {
            assert(!row_matches(rows[k + 1], ev));
        }
        first_match_at(rows.skip(1), ev, i - 1);
    }
}

proof fn first_match_none(rows: Seq<CommandBinding>, ev: KeyEvent)
    requires
        forall|k: int| 0 <= k < rows.len() ==> !row_matches(#[trigger] rows[k], ev),
    ensures
        first_match(rows, ev) is None,
    decreases rows.len(),
{
    if rows.len() > 0 {
        assert(!row_matches(rows[0], ev));
        assert forall|k: int| 0 <= k < rows.len() - 1 implies !row_matches(
            #[trigger] rows.skip(1)[k],
            ev,
        ) by {
            assert(!row_matches(rows[k + 1], ev));
        }
        first_match_none(rows.skip(1), ev);
    }
}

/// Every row of every table fires: its key, pressed or repeated in its scope,
/// gives its command.
pub proof fn every_row_fires(scope: Scope, i: int, ev: KeyEvent)
    requires
        0 <= i < bindings_of(scope).len(),
        row_matches(bindings_of(scope)[i], ev),
        ev.kind != KeyEventKind::Release,
    ensures
        command_of(scope, ev) == Some(bindings_of(scope)[i].command),
{
    reveal(command_of);
    let rows = bindings_of(scope);
    assert forall|k: int| 0 <= k < i implies !row_matches(#[trigger] rows[k], ev) by {
        bindings_are_distinct(scope, k, i);
    }
    first_match_at(rows, ev, i);
}

/// A key that a scope does not bind means there what it means globally.
pub proof fn unbound_keys_fall_back(scope: Scope, ev: KeyEvent)
    requires
        forall|k: int|
            0 <= k < bindings_of(scope).len() ==> !row_matches(
                #[trigger] bindings_of(scope)[k],
                ev,
            ),
    ensures
        command_of(scope, ev) == command_of(Scope::Global, ev),
{
    reveal(command_of);
    first_match_none(bindings_of(scope), ev);
}

/// Whether a key asks for help, wherever it is not typed as text.
pub open spec fn asks_for_help(ev: KeyEvent) -> bool {
    ev.kind != KeyEventKind::Release && ev.code == KeyCode::Char('?') && ev.modifiers
        == KeyModifiers::none()
}

/// Whether a key asks for help, wherever it is not typed as text.
pub fn is_help_key(ev: KeyEvent) -> (yes: bool)
    ensures
        yes == asks_for_help(ev),
{
    ev.kind != KeyEventKind::Release && ev.code == KeyCode::Char('?') && ev.modifiers
        == KeyModifiers::none()
}

/// The key that asks for help opens it on the main screen.
pub proof fn help_keys_open_help(ev: KeyEvent)
    requires
        asks_for_help(ev),
    ensures
        command_of(Scope::MainScreen, ev) == Some(Command::OpenHelp),
{
    every_row_fires(Scope::MainScreen, 11, ev);
}

/// The key that asks for help is bound to nothing else in selection mode.
pub proof fn help_keys_are_free_in_selection(ev: KeyEvent)
    requires
        asks_for_help(ev),
    ensures
        command_of(Scope::Selection, ev) is None,
{
    reveal(command_of);
    let rows = bindings_of(Scope::Selection);
    let global = bindings_of(Scope::Global);
    assert forall|k: int| 0 <= k < rows.len() implies !row_matches(#[trigger] rows[k], ev) by {}
    assert forall|k: int| 0 <= k < global.len() implies !row_matches(
        #[trigger] global[k],
        ev,
    ) by {}
    first_match_none(rows, ev);
    first_match_none(global, ev);
}

/// A released key fires nothing in any scope.
pub proof fn released_keys_fire_nothing(scope: Scope, ev: KeyEvent)
    requires
        ev.kind == KeyEventKind::Release,
    ensures
        command_of(scope, ev) is None,
{
    reveal(command_of);
}

/// Ctrl-c quits from every scope.
pub proof fn control_c_quits_everywhere(scope: Scope, ev: KeyEvent)
    requires
        ev.code == KeyCode::Char('c'),
        ev.modifiers == KeyModifiers::control(),
        ev.kind != KeyEventKind::Release,
    ensures
        command_of(scope, ev) == Some(Command::Quit),
{
    reveal(command_of);
    every_row_fires(Scope::Global, 1, ev);
    if scope != Scope::Global {
        unbound_keys_fall_back(scope, ev);
    }
}

/// Whether a key fires a command in a scope, pressed or repeated.
pub open spec fn fires(
    scope: Scope,
    code: KeyCode,
    modifiers: KeyModifiers,
    command: Command,
) -> bool {
    forall|ev: KeyEvent|
        ev.code == code && ev.modifiers == modifiers && ev.kind != KeyEventKind::Release
            ==> #[trigger] command_of(scope, ev) == Some(command)
}

proof fn row_fires(scope: Scope, i: int)
    requires
        0 <= i < bindings_of(scope).len(),
    ensures
        fires(
            scope,
            bindings_of(scope)[i].key.code,
            bindings_of(scope)[i].key.modifiers,
            bindings_of(scope)[i].command,
        ),
{
    let row = bindings_of(scope)[i];
    assert forall|ev: KeyEvent|
        ev.code == row.key.code && ev.modifiers == row.key.modifiers && ev.kind
            != KeyEventKind::Release implies #[trigger] command_of(scope, ev) == Some(
        row.command,
    ) by {
        every_row_fires(scope, i, ev);
    }
}

/// The keys of the search.
pub proof fn search_modal_keys()
    ensures
        fires(Scope::SearchModal, KeyCode::Esc, KeyModifiers::none(), Command::CloseFindBar),
        fires(Scope::SearchModal, KeyCode::Enter, KeyModifiers::none(), Command::Confirm),
        fires(Scope::SearchModal, KeyCode::Down, KeyModifiers::none(), Command::SelectNextSession),
        fires(Scope::SearchModal, KeyCode::Up, KeyModifiers::none(), Command::SelectPrevSession),
        fires(Scope::SearchModal, KeyCode::Char('n'), KeyModifiers::control(), Command::SelectNextSession),
        fires(Scope::SearchModal, KeyCode::Char('p'), KeyModifiers::control(), Command::SelectPrevSession),
        fires(Scope::SearchModal, KeyCode::PageDown, KeyModifiers::none(), Command::ScrollDownHalf),
        fires(Scope::SearchModal, KeyCode::PageUp, KeyModifiers::none(), Command::ScrollUpHalf),
        fires(Scope::SearchModal, KeyCode::Char('x'), KeyModifiers::control(), Command::Cancel),
{
    row_fires(Scope::SearchModal, 0);
    row_fires(Scope::SearchModal, 1);
    row_fires(Scope::SearchModal, 2);
    row_fires(Scope::SearchModal, 3);
    row_fires(Scope::SearchModal, 4);
    row_fires(Scope::SearchModal, 5);
    row_fires(Scope::SearchModal, 6);
    row_fires(Scope::SearchModal, 7);
    row_fires(Scope::SearchModal, 8);
}

/// The keys of the find bar.
pub proof fn find_bar_keys()
    ensures
        fires(Scope::FindBar, KeyCode::Esc, KeyModifiers::none(), Command::CloseFindBar),
        fires(Scope::FindBar, KeyCode::Enter, KeyModifiers::none(), Command::JumpToCurrentMatch),
        fires(Scope::FindBar, KeyCode::Char('n'), KeyModifiers::none(), Command::NextMatch),
        fires(Scope::FindBar, KeyCode::Down, KeyModifiers::none(), Command::NextMatch),
        fires(Scope::FindBar, KeyCode::Char('N'), KeyModifiers::shift(), Command::PrevMatch),
        fires(Scope::FindBar, KeyCode::Up, KeyModifiers::none(), Command::PrevMatch),
{
    row_fires(Scope::FindBar, 0);
    row_fires(Scope::FindBar, 1);
    row_fires(Scope::FindBar, 2);
    row_fires(Scope::FindBar, 3);
    row_fires(Scope::FindBar, 4);
    row_fires(Scope::FindBar, 5);
}

/// The keys of the bookmark browser.
pub proof fn bookmark_browser_keys()
    ensures
        fires(Scope::BookmarkBrowser, KeyCode::Esc, KeyModifiers::none(), Command::Cancel),
        fires(Scope::BookmarkBrowser, KeyCode::Enter, KeyModifiers::none(), Command::Confirm),
        fires(Scope::BookmarkBrowser, KeyCode::Char('j'), KeyModifiers::none(), Command::SelectNextSession),
        fires(Scope::BookmarkBrowser, KeyCode::Down, KeyModifiers::none(), Command::SelectNextSession),
        fires(Scope::BookmarkBrowser, KeyCode::Char('n'), KeyModifiers::control(), Command::SelectNextSession),
        fires(Scope::BookmarkBrowser, KeyCode::Char('k'), KeyModifiers::none(), Command::SelectPrevSession),
        fires(Scope::BookmarkBrowser, KeyCode::Up, KeyModifiers::none(), Command::SelectPrevSession),
        fires(Scope::BookmarkBrowser, KeyCode::Char('p'), KeyModifiers::control(), Command::SelectPrevSession),
        fires(Scope::BookmarkBrowser, KeyCode::Char('d'), KeyModifiers::none(), Command::Cancel),
        fires(Scope::BookmarkBrowser, KeyCode::Char('L'), KeyModifiers::shift(), Command::EditBookmarkNote),
{
    row_fires(Scope::BookmarkBrowser, 0);
    row_fires(Scope::BookmarkBrowser, 1);
    row_fires(Scope::BookmarkBrowser, 2);
    row_fires(Scope::BookmarkBrowser, 3);
    row_fires(Scope::BookmarkBrowser, 4);
    row_fires(Scope::BookmarkBrowser, 5);
    row_fires(Scope::BookmarkBrowser, 6);
    row_fires(Scope::BookmarkBrowser, 7);
    row_fires(Scope::BookmarkBrowser, 8);
    row_fires(Scope::BookmarkBrowser, 9);
}

/// The keys of the confirm modal.
pub proof fn confirm_modal_keys()
    ensures
        fires(Scope::ConfirmModal, KeyCode::Char('y'), KeyModifiers::none(), Command::Confirm),
        fires(Scope::ConfirmModal, KeyCode::Char('n'), KeyModifiers::none(), Command::Cancel),
        fires(Scope::ConfirmModal, KeyCode::Enter, KeyModifiers::none(), Command::Confirm),
        fires(Scope::ConfirmModal, KeyCode::Esc, KeyModifiers::none(), Command::Cancel),
{
    row_fires(Scope::ConfirmModal, 0);
    row_fires(Scope::ConfirmModal, 1);
    row_fires(Scope::ConfirmModal, 2);
    row_fires(Scope::ConfirmModal, 3);
}

/// The keys of the label prompt.
pub proof fn label_prompt_keys()
    ensures
        fires(Scope::LabelPrompt, KeyCode::Esc, KeyModifiers::none(), Command::Cancel),
        fires(Scope::LabelPrompt, KeyCode::Enter, KeyModifiers::none(), Command::Confirm),
        fires(Scope::LabelPrompt, KeyCode::Char('j'), KeyModifiers::none(), Command::SelectNextSession),
        fires(Scope::LabelPrompt, KeyCode::Char('k'), KeyModifiers::none(), Command::SelectPrevSession),
        fires(Scope::LabelPrompt, KeyCode::Tab, KeyModifiers::none(), Command::Cancel),
{
    row_fires(Scope::LabelPrompt, 0);
    row_fires(Scope::LabelPrompt, 1);
    row_fires(Scope::LabelPrompt, 2);
    row_fires(Scope::LabelPrompt, 3);
    row_fires(Scope::LabelPrompt, 4);
}

/// The keys of the board.
pub proof fn kanban_keys()
    ensures
        fires(Scope::Kanban, KeyCode::Esc, KeyModifiers::none(), Command::Cancel),
        fires(Scope::Kanban, KeyCode::Enter, KeyModifiers::none(), Command::Confirm),
        fires(Scope::Kanban, KeyCode::Char('h'), KeyModifiers::none(), Command::KanbanColumnLeft),
        fires(Scope::Kanban, KeyCode::Left, KeyModifiers::none(), Command::KanbanColumnLeft),
        fires(Scope::Kanban, KeyCode::Char('l'), KeyModifiers::none(), Command::KanbanColumnRight),
        fires(Scope::Kanban, KeyCode::Right, KeyModifiers::none(), Command::KanbanColumnRight),
        fires(Scope::Kanban, KeyCode::Char('j'), KeyModifiers::none(), Command::SelectNextSession),
        fires(Scope::Kanban, KeyCode::Down, KeyModifiers::none(), Command::SelectNextSession),
        fires(Scope::Kanban, KeyCode::Char('k'), KeyModifiers::none(), Command::SelectPrevSession),
        fires(Scope::Kanban, KeyCode::Up, KeyModifiers::none(), Command::SelectPrevSession),
        fires(Scope::Kanban, KeyCode::Char('m'), KeyModifiers::none(), Command::KanbanMoveItem),
        fires(Scope::Kanban, KeyCode::Right, KeyModifiers::shift(), Command::KanbanMoveItem),
        fires(Scope::Kanban, KeyCode::Left, KeyModifiers::shift(), Command::KanbanMoveItemBack),
{
    row_fires(Scope::Kanban, 0);
    row_fires(Scope::Kanban, 1);
    row_fires(Scope::Kanban, 2);
    row_fires(Scope::Kanban, 3);
    row_fires(Scope::Kanban, 4);
    row_fires(Scope::Kanban, 5);
    row_fires(Scope::Kanban, 6);
    row_fires(Scope::Kanban, 7);
    row_fires(Scope::Kanban, 8);
    row_fires(Scope::Kanban, 9);
    row_fires(Scope::Kanban, 10);
    row_fires(Scope::Kanban, 11);
    row_fires(Scope::Kanban, 12);
}

/// The keys of the conflict viewer.
pub proof fn conflict_viewer_keys()
    ensures
        fires(Scope::ConflictViewer, KeyCode::Esc, KeyModifiers::none(), Command::Cancel),
        fires(Scope::ConflictViewer, KeyCode::Enter, KeyModifiers::none(), Command::Confirm),
        fires(Scope::ConflictViewer, KeyCode::Char('j'), KeyModifiers::none(), Command::SelectNextSession),
        fires(Scope::ConflictViewer, KeyCode::Char('k'), KeyModifiers::none(), Command::SelectPrevSession),
        fires(Scope::ConflictViewer, KeyCode::Char('r'), KeyModifiers::none(), Command::MarkConflictResolved),
        fires(Scope::ConflictViewer, KeyCode::Char('t'), KeyModifiers::none(), Command::Cancel),
{
    row_fires(Scope::ConflictViewer, 0);
    row_fires(Scope::ConflictViewer, 1);
    row_fires(Scope::ConflictViewer, 2);
    row_fires(Scope::ConflictViewer, 3);
    row_fires(Scope::ConflictViewer, 4);
    row_fires(Scope::ConflictViewer, 5);
}

/// The keys of help.
pub proof fn help_overlay_keys()
    ensures
        fires(Scope::HelpOverlay, KeyCode::Esc, KeyModifiers::none(), Command::Cancel),
        fires(Scope::HelpOverlay, KeyCode::Char('?'), KeyModifiers::none(), Command::OpenHelp),
        fires(Scope::HelpOverlay, KeyCode::Char('q'), KeyModifiers::none(), Command::Cancel),
{
    row_fires(Scope::HelpOverlay, 0);
    row_fires(Scope::HelpOverlay, 1);
    row_fires(Scope::HelpOverlay, 2);
}

} // verus!
