//! The main screen: where its panes go, and which modals lie over them.

use vstd::prelude::*;

use crate::app::App;
use crate::digest;
use crate::models;
use crate::state::AppModel;
use crate::ui;
use crate::ui::{Constraint, Direction, Rect};

verus! {

/// Cells across the sidebar.
pub const SIDEBAR_WIDTH: u16 = 36;

/// Cells across the digest panel.
pub const DIGEST_PANEL_WIDTH: u16 = 36;

/// Cells across the terminal from which on the digest panel is shown.
pub const DIGEST_PANEL_MIN_WIDTH: u16 = 110;

/// Ticks that each picture of the spinner is shown for.
pub const SPINNER_DIVISOR: usize = 5;

/// Where the panes of the main screen go.
#[derive(Debug, Clone, Copy, PartialEq, Eq, Structural)]
pub struct MainLayout {
    pub digest_bar: Rect,
    pub sidebar: Rect,
    /// The transcript pane with its border.
    pub transcript_block: Rect,
    /// The rows of the transcript inside the border.
    pub transcript: Rect,
    pub find_bar: Option<Rect>,
    pub digest_panel: Option<Rect>,
    pub footer: Rect,
}

/// The rows left for the transcript inside its border: all, or all but the last
/// where the find bar takes that one.
pub open spec fn transcript_rows(inner: Rect, find_open: bool) -> Rect {
    if find_open && inner.height > 1 {
        Rect { height: (inner.height - 1) as u16, ..inner }
    } else {
        inner
    }
}

/// The row of the find bar.
pub open spec fn find_row(inner: Rect, find_open: bool) -> Option<Rect> {
    if find_open && inner.height > 1 {
        Some(Rect { y: (inner.y + inner.height - 1) as u16, height: 1, ..inner })
    } else {
        None
    }
}

/// Whether a layout divides `area` as it should: the digest's line, the panes
/// and the footer's line from top to bottom, and the panes from left to right.
/// Where there are too few rows the panes go before the two lines, and where
/// there are too few columns the transcript goes before the sidebar.
pub open spec fn divides(l: MainLayout, area: Rect) -> bool {
    let rows: int = if area.height >= 3 {
        area.height - 2
    } else {
        ui::at_most(1, area.height as int)
    };
    let across: int = if area.width > SIDEBAR_WIDTH {
        SIDEBAR_WIDTH as int
    } else {
        area.width - ui::at_most(1, area.width as int)
    };
    let panel: int = if area.width >= DIGEST_PANEL_MIN_WIDTH {
        DIGEST_PANEL_WIDTH as int
    } else {
        0
    };
    let content = Rect {
        y: (area.y + l.digest_bar.height) as u16,
        height: rows as u16,
        ..area
    };
    &&& l.digest_bar == (Rect { height: l.digest_bar.height, ..area })
    &&& l.footer == (Rect {
        y: (content.y + rows) as u16,
        height: l.footer.height,
        ..area
    })
    &&& l.digest_bar.height + rows + l.footer.height == area.height
    &&& area.height >= 3 ==> l.digest_bar.height == 1 && l.footer.height == 1
    &&& l.sidebar == (Rect { width: across as u16, ..content })
    &&& l.transcript_block == (Rect {
        x: (area.x + across) as u16,
        width: (area.width - across - panel) as u16,
        ..content
    })
    &&& l.digest_panel == if panel > 0 {
        Some(
            Rect {
                x: (area.x + area.width - panel) as u16,
                width: DIGEST_PANEL_WIDTH,
                ..content
            },
        )
    } else {
        None
    }
}

/// Where the panes go in a terminal of size `area`: a line for the digest at
/// the top and one for the footer at the bottom, and between them the sidebar,
/// the transcript, and on a wide terminal the digest panel.
pub fn layout(area: Rect, find_open: bool) -> (l: MainLayout)
    requires
        area.fits(),
    ensures
        divides(l, area),
        l.transcript == transcript_rows(ui::inside_border(l.transcript_block), find_open),
        l.find_bar == find_row(ui::inside_border(l.transcript_block), find_open),
        l.digest_panel is Some <==> area.width >= DIGEST_PANEL_MIN_WIDTH,
        area.holds(l.digest_bar),
        area.holds(l.sidebar),
        area.holds(l.transcript_block),
        area.holds(l.footer),
        l.digest_panel is Some ==> area.holds(l.digest_panel.unwrap()),
{
    let outer = ui::head_body_foot(area, 1, 1);
    let content = outer[1];
    assert(ui::is_part(area, Direction::Vertical, outer@[0]));
    assert(ui::is_part(area, Direction::Vertical, outer@[1]));
    assert(ui::is_part(area, Direction::Vertical, outer@[2]));
    let wide = area.width >= DIGEST_PANEL_MIN_WIDTH;
    let asked = if wide {
        vec![
            Constraint::Length(SIDEBAR_WIDTH),
            Constraint::Min(1),
            Constraint::Length(DIGEST_PANEL_WIDTH),
        ]
    } else {
        vec![Constraint::Length(SIDEBAR_WIDTH), Constraint::Min(1)]
    };
    let parts = ui::stack(content, Direction::Horizontal, &asked, 1);
    proof {
        reveal_with_fuel(ui::fixed_before, 4);
        let room = ui::room_of(content, Direction::Horizontal);
        let (a, b) = (parts@[0], parts@[1]);
        assert(ui::is_part(content, Direction::Horizontal, a));
        assert(ui::is_part(content, Direction::Horizontal, b));
        if wide {
            assert(ui::is_part(content, Direction::Horizontal, parts@[2]));
        }
        assert(room == area.width);
        if area.width > SIDEBAR_WIDTH {
            assert(ui::one_fills(asked@, 1, room));
        } else {
            assert(ui::one_starves(asked@, 1, room));
        }
    }
    let block = parts[1];
    let inner = ui::inside_borders(block);
    let has_bar = find_open && inner.height > 1;
    let transcript = if has_bar {
        Rect { x: inner.x, y: inner.y, width: inner.width, height: inner.height - 1 }
    } else {
        inner
    };
    let find_bar = if has_bar {
        Some(
            Rect {
                x: inner.x,
                y: inner.y + (inner.height - 1),
                width: inner.width,
                height: 1,
            },
        )
    } else {
        None
    };
    MainLayout {
        digest_bar: outer[0],
        sidebar: parts[0],
        transcript_block: block,
        transcript,
        find_bar,
        digest_panel: if wide {
            Some(parts[2])
        } else {
            None
        },
        footer: outer[2],
    }
}

/// The application after a frame: it knows where the panes were painted.
pub open spec fn painted(m: AppModel, l: MainLayout) -> AppModel {
    AppModel {
        last_sidebar_rect: l.sidebar,
        last_transcript_rect: l.transcript,
        last_transcript_height: l.transcript.height,
        last_find_bar_rect: match l.find_bar {
            Some(r) => r,
            None => Rect::empty(),
        },
        ..m
    }
}

/// Notes where the panes are painted, for the mouse and for scrolling.
pub fn note_layout(app: &mut App, l: MainLayout)
    ensures
        final(app)@ == painted(old(app)@, l),
{
    app.last_sidebar_rect = l.sidebar;
    app.last_transcript_rect = l.transcript;
    app.last_transcript_height = l.transcript.height;
    app.last_find_bar_rect = match l.find_bar {
        Some(r) => r,
        None => Rect::empty(),
    };
}

/// The picture of the spinner to show.
pub fn spinner_frame(app: &App) -> (frame: usize)
    ensures
        frame == app@.spinner_tick / SPINNER_DIVISOR,
        frame == app@.spinner_tick / 5,
{
    app.spinner_tick / SPINNER_DIVISOR
}

/// The sidebar row of the selected session.
pub fn selected_item(app: &App) -> (at: Option<usize>)
    ensures
        match at {
            Some(i) => i < app@.sidebar.len() && app@.selected is Some && i == models::find_item(
                app@.sidebar,
                app@.selected.unwrap(),
                0,
            ),
            None => app@.selected is None || models::find_item(
                app@.sidebar,
                app@.selected.unwrap(),
                0,
            ) == app@.sidebar.len(),
        },
{
    match &app.selected_session_id {
        Some(id) => models::position_of(&app.sidebar, id.as_str()),
        None => None,
    }
}

/// What the digest shows of the selected session.
#[derive(Debug, Clone, Copy, PartialEq, Eq, Structural)]
pub struct Digest {
    /// Its row of the sidebar, where it has one.
    pub item: Option<usize>,
    /// Its open todos, where they are known.
    pub open_todo_count: Option<u32>,
    pub has_bookmarks: bool,
}

/// What the digest shows of the selected session. Nothing where none is
/// selected.
pub fn selected_digest(app: &App) -> (digest: Digest)
    ensures
        match app@.selected {
            Some(id) => {
                &&& digest.open_todo_count == digest::todos_of(app@.summaries, id)
                &&& digest.has_bookmarks == app@.bookmarked.contains(id)
                &&& match digest.item {
                    Some(i) => i < app@.sidebar.len() && i == models::find_item(
                        app@.sidebar,
                        id,
                        0,
                    ),
                    None => models::find_item(app@.sidebar, id, 0) == app@.sidebar.len(),
                }
            },
            None => digest == (Digest { item: None, open_todo_count: None, has_bookmarks: false }),
        },
{
    let item = selected_item(app);
    match &app.selected_session_id {
        Some(id) => Digest {
            item,
            open_todo_count: digest::find_todos(&app.digest_summary_cache, id.as_str()),
            has_bookmarks: digest::is_marked(&app.has_bookmarks_for_session, id.as_str()),
        },
        None => Digest { item, open_todo_count: None, has_bookmarks: false },
    }
}

/// A modal over the main screen.
#[derive(Debug, Clone, Copy, PartialEq, Eq, Structural)]
pub enum Modal {
    BookmarkBrowser,
    LabelPrompt,
    Kanban,
    ConflictViewer,
    Search,
    Confirm,
    Help,
}

/// Whether a modal is open.
pub open spec fn is_open(m: AppModel, modal: Modal) -> bool {
    match modal {
        Modal::BookmarkBrowser => m.browser is Some,
        Modal::LabelPrompt => m.label_prompt is Some,
        Modal::Kanban => m.kanban is Some,
        Modal::ConflictViewer => m.viewer is Some,
        Modal::Search => m.search is Some,
        Modal::Confirm => m.confirm is Some,
        Modal::Help => m.help is Some,
    }
}

/// The modals from the lowest to the topmost.
pub open spec fn stacking_order() -> Seq<Modal> {
    seq![
        Modal::BookmarkBrowser,
        Modal::LabelPrompt,
        Modal::Kanban,
        Modal::ConflictViewer,
        Modal::Search,
        Modal::Confirm,
        Modal::Help,
    ]
}

/// Those of the first `n` modals that are open, from the lowest up.
pub open spec fn open_before(m: AppModel, n: int) -> Seq<Modal>
    decreases n,
{
    if n <= 0 {
        Seq::empty()
    } else {
        let before = open_before(m, n - 1);
        if is_open(m, stacking_order()[n - 1]) {
            before.push(stacking_order()[n - 1])
        } else {
            before
        }
    }
}

/// The open modals, from the lowest to the topmost.
pub fn open_modals(app: &App) -> (modals: Vec<Modal>)
    ensures
        modals@ == open_before(app@, 7),
{
    proof {
        reveal_with_fuel(open_before, 8);
    }
    let mut modals: Vec<Modal> = Vec::new();
    if app.bookmark_browser.is_some() {
        modals.push(Modal::BookmarkBrowser);
    }
    if app.label_prompt.is_some() {
        modals.push(Modal::LabelPrompt);
    }
    if app.kanban.is_some() {
        modals.push(Modal::Kanban);
    }
    if app.conflict_viewer.is_some() {
        modals.push(Modal::ConflictViewer);
    }
    if app.search.is_some() {
        modals.push(Modal::Search);
    }
    if app.confirm.is_some() {
        modals.push(Modal::Confirm);
    }
    if app.help.is_some() {
        modals.push(Modal::Help);
    }
    modals
}

/// How much of the terminal a modal takes, in hundredths across and down.
pub open spec fn modal_share(modal: Modal) -> (u16, u16) {
    match modal {
        Modal::BookmarkBrowser => (80, 70),
        Modal::LabelPrompt => (60, 60),
        Modal::Kanban => (95, 90),
        Modal::ConflictViewer => (85, 75),
        Modal::Search => (70, 60),
        Modal::Confirm => (50, 30),
        Modal::Help => (70, 80),
    }
}

/// How much of the terminal a modal takes, in hundredths across and down.
pub fn modal_size(modal: Modal) -> (share: (u16, u16))
    ensures
        share == modal_share(modal),
{
    match modal {
        Modal::BookmarkBrowser => (80, 70),
        Modal::LabelPrompt => (60, 60),
        Modal::Kanban => (95, 90),
        Modal::ConflictViewer => (85, 75),
        Modal::Search => (70, 60),
        Modal::Confirm => (50, 30),
        Modal::Help => (70, 80),
    }
}

/// Something is painted over the main screen exactly when a modal is open, and
/// the modal painted last is the one that gets the keys: help before the
/// confirm modal before all others.
pub proof fn topmost_modal_is_painted_last(m: AppModel)
    ensures
        m.shows_modal() <==> open_before(m, 7).len() > 0,
        m.help is Some ==> open_before(m, 7).last() == Modal::Help,
        m.help is None && m.confirm is Some ==> open_before(m, 7).last() == Modal::Confirm,
{
    reveal_with_fuel(open_before, 8);
}

proof fn open_ones_are_listed(m: AppModel, n: int, k: int)
    requires
        0 <= n <= 7,
        0 <= k < n,
    ensures
        open_before(m, n).contains(stacking_order()[k]) <==> is_open(m, stacking_order()[k]),
    decreases n,
{
    let last = stacking_order()[n - 1];
    let before = open_before(m, n - 1);
    let all = open_before(m, n);
    if k < n - 1 {
        open_ones_are_listed(m, n - 1, k);
        let modal = stacking_order()[k];
        if before.contains(modal) {
            assert(all[before.index_of(modal)] == modal);
        }
        if all.contains(modal) {
            let at = all.index_of(modal);
            if at == before.len() {
                assert(all[at] == last);
            } else {
                assert(before[at] == modal);
            }
        }
    } else {
        later_ones_are_not_listed(m, n - 1, k);
        if is_open(m, last) {
            assert(all[before.len() as int] == last);
        }
    }
}

proof fn later_ones_are_not_listed(m: AppModel, n: int, k: int)
    requires
        0 <= n <= k < 7,
    ensures
        !open_before(m, n).contains(stacking_order()[k]),
    decreases n,
{
    if n > 0 {
        later_ones_are_not_listed(m, n - 1, k);
        let (before, all) = (open_before(m, n - 1), open_before(m, n));
        if all.contains(stacking_order()[k]) {
            let at = all.index_of(stacking_order()[k]);
            if at < before.len() {
                assert(before[at] == stacking_order()[k]);
            }
        }
    }
}

/// Every open modal is painted, and no closed one.
pub proof fn open_modals_are_painted(m: AppModel)
    ensures
        open_before(m, 7).contains(Modal::Search) <==> m.search is Some,
        open_before(m, 7).contains(Modal::BookmarkBrowser) <==> m.browser is Some,
        open_before(m, 7).contains(Modal::LabelPrompt) <==> m.label_prompt is Some,
        open_before(m, 7).contains(Modal::Kanban) <==> m.kanban is Some,
        open_before(m, 7).contains(Modal::ConflictViewer) <==> m.viewer is Some,
        open_before(m, 7).contains(Modal::Confirm) <==> m.confirm is Some,
        open_before(m, 7).contains(Modal::Help) <==> m.help is Some,
{
    open_ones_are_listed(m, 7, 0);
    open_ones_are_listed(m, 7, 1);
    open_ones_are_listed(m, 7, 2);
    open_ones_are_listed(m, 7, 3);
    open_ones_are_listed(m, 7, 4);
    open_ones_are_listed(m, 7, 5);
    open_ones_are_listed(m, 7, 6);
}

/// After a frame the mouse and the scrolling know where the panes are, and
/// nothing else has changed.
pub proof fn frames_note_the_panes(m: AppModel, l: MainLayout)
    ensures
        ({
            let after = painted(m, l);
            &&& after.last_sidebar_rect == l.sidebar
            &&& after.last_transcript_rect == l.transcript
            &&& after.last_transcript_height == l.transcript.height
            &&& l.find_bar matches Some(bar) ==> after.last_find_bar_rect == bar
            &&& l.find_bar is None ==> after.last_find_bar_rect.width == 0
            &&& after == (AppModel {
                last_sidebar_rect: after.last_sidebar_rect,
                last_transcript_rect: after.last_transcript_rect,
                last_transcript_height: after.last_transcript_height,
                last_find_bar_rect: after.last_find_bar_rect,
                ..m
            })
        }),
{
}

/// The panes fill the screen: a line for the digest on top and one for the
/// footer at the bottom, and between them from left to right the sidebar of
/// thirty-six columns, the transcript, and on a wide screen the digest's panel
/// of as many.
pub proof fn panes_fill_the_screen(l: MainLayout, area: Rect)
    requires
        area.fits(),
        divides(l, area),
        area.height >= 3,
        area.width > 36,
    ensures
        l.digest_bar == (Rect { height: 1, ..area }),
        l.footer == (Rect { y: (area.y + area.height - 1) as u16, height: 1, ..area }),
        l.sidebar == (Rect {
            y: (area.y + 1) as u16,
            height: (area.height - 2) as u16,
            width: 36,
            ..area
        }),
        l.transcript_block.x == area.x + 36,
        l.transcript_block.y == area.y + 1,
        l.transcript_block.height == area.height - 2,
        area.width < 110 ==> l.digest_panel is None && l.transcript_block.width == area.width - 36,
        area.width >= 110 ==> {
            &&& l.digest_panel is Some
            &&& l.digest_panel.unwrap().width == 36
            &&& l.digest_panel.unwrap().x == l.transcript_block.x + l.transcript_block.width
            &&& l.digest_panel.unwrap().x + 36 == area.x + area.width
            &&& l.digest_panel.unwrap().y == area.y + 1
            &&& l.digest_panel.unwrap().height == area.height - 2
        },
{
}

/// An open find bar takes the last row inside the transcript's border, where
/// there is more than one; the transcript has the rest.
pub proof fn the_find_bar_takes_the_last_row(inner: Rect)
    requires
        inner.fits(),
    ensures
        transcript_rows(inner, false) == inner,
        find_row(inner, false) is None,
        inner.height > 1 ==> {
            let rows = transcript_rows(inner, true);
            let bar = find_row(inner, true);
            &&& bar is Some
            &&& bar.unwrap().height == 1
            &&& bar.unwrap().y == rows.y + rows.height
            &&& bar.unwrap().y + 1 == inner.y + inner.height
            &&& rows.y == inner.y && rows.x == inner.x && rows.width == inner.width
            &&& bar.unwrap().x == inner.x && bar.unwrap().width == inner.width
        },
        inner.height <= 1 ==> transcript_rows(inner, true) == inner && find_row(
            inner,
            true,
        ) is None,
{
}

/// Every modal takes a part of the screen both ways.
pub proof fn modals_fit_the_screen(modal: Modal)
    ensures
        0 < modal_share(modal).0 <= 100,
        0 < modal_share(modal).1 <= 100,
{
}

} // verus!
