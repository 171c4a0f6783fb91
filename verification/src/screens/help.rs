//! The help overlay: the key bindings of the scope it was opened from.

use vstd::prelude::*;
use vstd::string::*;

use crate::keys;
use crate::keys::{
    CommandBinding, KeyCode, KeyEvent, KeyEventKind, KeyModifiers, MediaKeyCode, ModifierKeyCode,
    Scope,
};
use crate::text;
use crate::ui;
use crate::ui::Rect;

verus! {

/// The overlay, with the scope that was active when it was opened.
#[derive(Debug, Clone, Copy, PartialEq, Eq, Structural)]
pub struct State {
    pub origin_scope: Scope,
}

impl State {
    pub fn new(origin_scope: Scope) -> (state: State)
        ensures
            state == (State { origin_scope }),
    {
        State { origin_scope }
    }
}

/// What the overlay hands back.
#[derive(Debug, Clone, Copy, PartialEq, Eq, Structural)]
pub enum HelpResult {
    Closed,
}

/// Whether a key closes the overlay: Esc, Enter, `?`, `q` or Ctrl-c.
pub open spec fn closes(ev: KeyEvent) -> bool {
    let plain = ev.modifiers == KeyModifiers::none();
    &&& ev.kind != KeyEventKind::Release
    &&& {
        ||| ev.code == KeyCode::Esc
        ||| ev.code == KeyCode::Enter
        ||| ev.code == KeyCode::Char('?') && (plain || ev.modifiers == KeyModifiers::shift())
        ||| ev.code == KeyCode::Char('q') && plain
        ||| ev.code == KeyCode::Char('c') && ev.modifiers == KeyModifiers::control()
    }
}

/// Handles one key. Keys that do not close the overlay do nothing.
pub fn handle_key(state: &mut State, key: KeyEvent) -> (result: Option<HelpResult>)
    ensures
        result == if closes(key) {
            Some(HelpResult::Closed)
        } else {
            None
        },
        *final(state) == *old(state),
{
    if key.kind == KeyEventKind::Release {
        return None;
    }
    let plain = key.modifiers == KeyModifiers::none();
    let closing = match key.code {
        KeyCode::Esc => true,
        KeyCode::Enter => true,
        KeyCode::Char(c) => {
            (c == '?' && (plain || key.modifiers == KeyModifiers::shift())) || (c == 'q' && plain)
                || (c == 'c' && key.modifiers == KeyModifiers::control())
        },
        _ => false,
    };
    if closing {
        Some(HelpResult::Closed)
    } else {
        None
    }
}

/// The name of a scope.
pub open spec fn scope_name(scope: Scope) -> Seq<char> {
    match scope {
        Scope::Global => "Global"@,
        Scope::MainScreen => "Main Screen"@,
        Scope::SearchModal => "Search"@,
        Scope::FindBar => "Find Bar"@,
        Scope::BookmarkModal | Scope::BookmarkBrowser => "Bookmarks"@,
        Scope::KanbanModal | Scope::Kanban => "Kanban"@,
        Scope::HelpOverlay => "Help"@,
        Scope::LabelPrompt => "Label"@,
        Scope::Confirm | Scope::ConfirmModal => "Confirm"@,
        Scope::ConflictViewer => "Conflicts"@,
        Scope::Selection => "Selection Mode"@,
    }
}

/// The name of a scope, for the overlay's title and group headings.
pub fn scope_label(scope: Scope) -> (label: &'static str)
    ensures
        label@ == scope_name(scope),
{
    match scope {
        Scope::Global => "Global",
        Scope::MainScreen => "Main Screen",
        Scope::SearchModal => "Search",
        Scope::FindBar => "Find Bar",
        Scope::BookmarkModal | Scope::BookmarkBrowser => "Bookmarks",
        Scope::KanbanModal | Scope::Kanban => "Kanban",
        Scope::HelpOverlay => "Help",
        Scope::LabelPrompt => "Label",
        Scope::Confirm | Scope::ConfirmModal => "Confirm",
        Scope::ConflictViewer => "Conflicts",
        Scope::Selection => "Selection Mode",
    }
}

/// The name of a media key.
pub open spec fn media_name(key: MediaKeyCode) -> Seq<char> {
    match key {
        MediaKeyCode::Play => "Media(Play)"@,
        MediaKeyCode::Pause => "Media(Pause)"@,
        MediaKeyCode::PlayPause => "Media(PlayPause)"@,
        MediaKeyCode::Reverse => "Media(Reverse)"@,
        MediaKeyCode::Stop => "Media(Stop)"@,
        MediaKeyCode::FastForward => "Media(FastForward)"@,
        MediaKeyCode::Rewind => "Media(Rewind)"@,
        MediaKeyCode::TrackNext => "Media(TrackNext)"@,
        MediaKeyCode::TrackPrevious => "Media(TrackPrevious)"@,
        MediaKeyCode::Record => "Media(Record)"@,
        MediaKeyCode::LowerVolume => "Media(LowerVolume)"@,
        MediaKeyCode::RaiseVolume => "Media(RaiseVolume)"@,
        MediaKeyCode::MuteVolume => "Media(MuteVolume)"@,
    }
}

fn media_text(key: MediaKeyCode) -> (name: &'static str)
    ensures
        name@ == media_name(key),
{
    match key {
        MediaKeyCode::Play => "Media(Play)",
        MediaKeyCode::Pause => "Media(Pause)",
        MediaKeyCode::PlayPause => "Media(PlayPause)",
        MediaKeyCode::Reverse => "Media(Reverse)",
        MediaKeyCode::Stop => "Media(Stop)",
        MediaKeyCode::FastForward => "Media(FastForward)",
        MediaKeyCode::Rewind => "Media(Rewind)",
        MediaKeyCode::TrackNext => "Media(TrackNext)",
        MediaKeyCode::TrackPrevious => "Media(TrackPrevious)",
        MediaKeyCode::Record => "Media(Record)",
        MediaKeyCode::LowerVolume => "Media(LowerVolume)",
        MediaKeyCode::RaiseVolume => "Media(RaiseVolume)",
        MediaKeyCode::MuteVolume => "Media(MuteVolume)",
    }
}

/// The name of a modifier key.
pub open spec fn modifier_name(key: ModifierKeyCode) -> Seq<char> {
    match key {
        ModifierKeyCode::LeftShift => "Modifier(LeftShift)"@,
        ModifierKeyCode::LeftControl => "Modifier(LeftControl)"@,
        ModifierKeyCode::LeftAlt => "Modifier(LeftAlt)"@,
        ModifierKeyCode::LeftSuper => "Modifier(LeftSuper)"@,
        ModifierKeyCode::LeftHyper => "Modifier(LeftHyper)"@,
        ModifierKeyCode::LeftMeta => "Modifier(LeftMeta)"@,
        ModifierKeyCode::RightShift => "Modifier(RightShift)"@,
        ModifierKeyCode::RightControl => "Modifier(RightControl)"@,
        ModifierKeyCode::RightAlt => "Modifier(RightAlt)"@,
        ModifierKeyCode::RightSuper => "Modifier(RightSuper)"@,
        ModifierKeyCode::RightHyper => "Modifier(RightHyper)"@,
        ModifierKeyCode::RightMeta => "Modifier(RightMeta)"@,
        ModifierKeyCode::IsoLevel3Shift => "Modifier(IsoLevel3Shift)"@,
        ModifierKeyCode::IsoLevel5Shift => "Modifier(IsoLevel5Shift)"@,
    }
}

fn modifier_text(key: ModifierKeyCode) -> (name: &'static str)
    ensures
        name@ == modifier_name(key),
{
    match key {
        ModifierKeyCode::LeftShift => "Modifier(LeftShift)",
        ModifierKeyCode::LeftControl => "Modifier(LeftControl)",
        ModifierKeyCode::LeftAlt => "Modifier(LeftAlt)",
        ModifierKeyCode::LeftSuper => "Modifier(LeftSuper)",
        ModifierKeyCode::LeftHyper => "Modifier(LeftHyper)",
        ModifierKeyCode::LeftMeta => "Modifier(LeftMeta)",
        ModifierKeyCode::RightShift => "Modifier(RightShift)",
        ModifierKeyCode::RightControl => "Modifier(RightControl)",
        ModifierKeyCode::RightAlt => "Modifier(RightAlt)",
        ModifierKeyCode::RightSuper => "Modifier(RightSuper)",
        ModifierKeyCode::RightHyper => "Modifier(RightHyper)",
        ModifierKeyCode::RightMeta => "Modifier(RightMeta)",
        ModifierKeyCode::IsoLevel3Shift => "Modifier(IsoLevel3Shift)",
        ModifierKeyCode::IsoLevel5Shift => "Modifier(IsoLevel5Shift)",
    }
}

/// The name of a key that types nothing. The two kinds of key that carry a
/// value of their own are named elsewhere.
pub open spec fn named_key(code: KeyCode) -> Seq<char> {
    match code {
        KeyCode::Enter => "Enter"@,
        KeyCode::Esc => "Esc"@,
        KeyCode::Tab => "Tab"@,
        KeyCode::BackTab => "Shift+Tab"@,
        KeyCode::Up => "↑"@,
        KeyCode::Down => "↓"@,
        KeyCode::Left => "←"@,
        KeyCode::Right => "→"@,
        KeyCode::PageUp => "PgUp"@,
        KeyCode::PageDown => "PgDn"@,
        KeyCode::Home => "Home"@,
        KeyCode::End => "End"@,
        KeyCode::Backspace => "Backspace"@,
        KeyCode::Delete => "Del"@,
        KeyCode::Insert => "Insert"@,
        KeyCode::Null => "Null"@,
        KeyCode::CapsLock => "CapsLock"@,
        KeyCode::ScrollLock => "ScrollLock"@,
        KeyCode::NumLock => "NumLock"@,
        KeyCode::PrintScreen => "PrintScreen"@,
        KeyCode::Pause => "Pause"@,
        KeyCode::Menu => "Menu"@,
        KeyCode::KeypadBegin => "KeypadBegin"@,
        KeyCode::Media(m) => media_name(m),
        KeyCode::Modifier(m) => modifier_name(m),
        KeyCode::Char(_) | KeyCode::F(_) => Seq::empty(),
    }
}

fn named_text(code: KeyCode) -> (name: &'static str)
    requires
        !(code is Char),
        !(code is F),
    ensures
        name@ == named_key(code),
{
    match code {
        KeyCode::Enter => "Enter",
        KeyCode::Esc => "Esc",
        KeyCode::Tab => "Tab",
        KeyCode::BackTab => "Shift+Tab",
        KeyCode::Up => "↑",
        KeyCode::Down => "↓",
        KeyCode::Left => "←",
        KeyCode::Right => "→",
        KeyCode::PageUp => "PgUp",
        KeyCode::PageDown => "PgDn",
        KeyCode::Home => "Home",
        KeyCode::End => "End",
        KeyCode::Backspace => "Backspace",
        KeyCode::Delete => "Del",
        KeyCode::Insert => "Insert",
        KeyCode::Null => "Null",
        KeyCode::CapsLock => "CapsLock",
        KeyCode::ScrollLock => "ScrollLock",
        KeyCode::NumLock => "NumLock",
        KeyCode::PrintScreen => "PrintScreen",
        KeyCode::Pause => "Pause",
        KeyCode::Menu => "Menu",
        KeyCode::KeypadBegin => "KeypadBegin",
        KeyCode::Media(m) => media_text(m),
        KeyCode::Modifier(m) => modifier_text(m),
        KeyCode::Char(_) | KeyCode::F(_) => "",
    }
}

/// A key without its Control and Alt prefix. Shift turns a lower-case ASCII
/// letter into the upper-case one.
pub open spec fn key_base(ev: KeyEvent) -> Seq<char> {
    match ev.code {
        KeyCode::Char(c) => if ev.modifiers.shift {
            seq![text::ascii_upper(c)]
        } else {
            seq![c]
        },
        KeyCode::F(n) => "F"@ + text::decimal(n as nat),
        other => named_key(other),
    }
}

/// A key as the help overlay shows it, such as `Ctrl+d` or `PgDn`.
pub open spec fn key_text(ev: KeyEvent) -> Seq<char> {
    (if ev.modifiers.control {
        "Ctrl+"@
    } else {
        Seq::empty()
    }) + (if ev.modifiers.alt {
        "Alt+"@
    } else {
        Seq::empty()
    }) + key_base(ev)
}

/// A key as the help overlay shows it, such as `Ctrl+d` or `PgDn`.
pub fn format_key(ev: &KeyEvent) -> (out: String)
    ensures
        out@ == key_text(*ev),
{
    let mut out = String::new();
    if ev.modifiers.control {
        out.append("Ctrl+");
    }
    if ev.modifiers.alt {
        out.append("Alt+");
    }
    let ghost prefix = out@;
    match ev.code {
        KeyCode::Char(c) => {
            if ev.modifiers.shift {
                out.push(text::upper_char(c));
            } else {
                out.push(c);
            }
            assert(out@ =~= prefix + key_base(*ev));
        },
        KeyCode::F(n) => {
            out.append("F");
            text::push_decimal(&mut out, n as u64);
            assert(out@ =~= prefix + key_base(*ev));
        },
        other => {
            out.append(named_text(other));
        },
    }
    assert(prefix =~= (if ev.modifiers.control {
        "Ctrl+"@
    } else {
        Seq::empty()
    }) + (if ev.modifiers.alt {
        "Alt+"@
    } else {
        Seq::empty()
    }));
    out
}

/// One line of the overlay's body.
#[derive(Debug, Clone, PartialEq, Eq)]
pub enum HelpLine {
    Blank,
    Heading(String),
    Binding { key_cell: String, label: String },
}

pub enum HelpLineModel {
    Blank,
    Heading(Seq<char>),
    Binding { key_cell: Seq<char>, label: Seq<char> },
}

impl View for HelpLine {
    type V = HelpLineModel;

    open spec fn view(&self) -> HelpLineModel {
        match *self {
            HelpLine::Blank => HelpLineModel::Blank,
            HelpLine::Heading(h) => HelpLineModel::Heading(h@),
            HelpLine::Binding { key_cell, label } => HelpLineModel::Binding {
                key_cell: key_cell@,
                label: label@,
            },
        }
    }
}

pub open spec fn lines_view(v: Seq<HelpLine>) -> Seq<HelpLineModel> {
    Seq::new(v.len(), |i: int| v[i]@)
}

/// Whether two rows show the same key and the same label.
pub open spec fn same_row(a: CommandBinding, b: CommandBinding) -> bool {
    key_text(a.key) == key_text(b.key) && a.label@ == b.label@
}

/// Whether a row shows what an earlier one of `rows` shows already.
pub open spec fn shown_before(rows: Seq<CommandBinding>, row: CommandBinding) -> bool {
    exists|i: int| 0 <= i < rows.len() && same_row(#[trigger] rows[i], row)
}

pub open spec fn binding_line(row: CommandBinding) -> HelpLineModel {
    HelpLineModel::Binding {
        key_cell: "  "@ + text::padded(key_text(row.key), 14),
        label: row.label@,
    }
}

/// The lines of a table's rows, each key and label once.
pub open spec fn binding_lines(rows: Seq<CommandBinding>) -> Seq<HelpLineModel>
    decreases rows.len(),
{
    if rows.len() == 0 {
        Seq::empty()
    } else {
        let before = binding_lines(rows.drop_last());
        if shown_before(rows.drop_last(), rows.last()) {
            before
        } else {
            before.push(binding_line(rows.last()))
        }
    }
}

/// The lines of one group: a blank line, the heading, and the rows.
pub open spec fn group_lines(label: Seq<char>, rows: Seq<CommandBinding>) -> Seq<HelpLineModel> {
    seq![HelpLineModel::Blank, HelpLineModel::Heading("── "@ + label + " ──"@)]
        + binding_lines(rows)
}

/// The body of the overlay: the global bindings, and then those of the scope
/// it was opened from.
pub open spec fn help_lines(origin: Scope) -> Seq<HelpLineModel> {
    let global = group_lines("Global"@, keys::bindings_of(Scope::Global));
    if origin == Scope::Global {
        global
    } else {
        global + group_lines(scope_name(origin), keys::bindings_of(origin))
    }
}

fn shown_earlier(rows: &Vec<CommandBinding>, at: usize) -> (yes: bool)
    requires
        at < rows@.len(),
    ensures
        yes == shown_before(rows@.take(at as int), rows@[at as int]),
{
    let own = format_key(&rows[at].key);
    let mut i: usize = 0;
    while i < at
        invariant
            i <= at < rows@.len(),
            own@ == key_text(rows@[at as int].key),
            forall|k: int| 0 <= k < i ==> !same_row(#[trigger] rows@[k], rows@[at as int]),
        decreases at - i,
    {
        let other = format_key(&rows[i].key);
        if text::same_text(own.as_str(), other.as_str()) && text::same_text(
            rows[i].label,
            rows[at].label,
        ) {
            assert(same_row(rows@.take(at as int)[i as int], rows@[at as int]));
            return true;
        }
        i += 1;
    }
    false
}

fn push_group(out: &mut Vec<HelpLine>, label: &str, rows: &Vec<CommandBinding>)
    ensures
        lines_view(final(out)@) == lines_view(old(out)@) + group_lines(label@, rows@),
{
    let ghost start = lines_view(out@);
    out.push(HelpLine::Blank);
    let mut heading = "── ".to_owned();
    heading.append(label);
    heading.append(" ──");
    out.push(HelpLine::Heading(heading));
    let ghost head = seq![
        HelpLineModel::Blank,
        HelpLineModel::Heading("── "@ + label@ + " ──"@),
    ];
    assert(lines_view(out@) =~= start + head + binding_lines(rows@.take(0)));
    let mut i: usize = 0;
    while i < rows.len()
        invariant
            i <= rows@.len(),
            lines_view(out@) == start + head + binding_lines(rows@.take(i as int)),
        decreases rows@.len() - i,
    {
        let ghost longer = rows@.take(i + 1);
        let ghost before = lines_view(out@);
        assert(longer.drop_last() =~= rows@.take(i as int));
        assert(longer.last() == rows@[i as int]);
        if !shown_earlier(rows, i) {
            let mut key_cell = "  ".to_owned();
            let key = format_key(&rows[i].key);
            key_cell.append(text::pad_right(key.as_str(), 14).as_str());
            let line = HelpLine::Binding { key_cell, label: rows[i].label.to_owned() };
            assert(line@ == binding_line(rows@[i as int]));
            out.push(line);
            assert(lines_view(out@) =~= before.push(line@));
            assert(before.push(line@) =~= start + head + binding_lines(longer));
        }
        i += 1;
    }
    assert(rows@.take(i as int) =~= rows@);
    assert(start + head + binding_lines(rows@) =~= start + group_lines(label@, rows@));
}

/// The body of the overlay: the global bindings, and then those of the scope
/// it was opened from.
pub fn body_lines(state: &State) -> (lines: Vec<HelpLine>)
    ensures
        lines_view(lines@) == help_lines(state.origin_scope),
{
    let mut lines: Vec<HelpLine> = Vec::new();
    let global = keys::commands_for_scope(Scope::Global);
    push_group(&mut lines, "Global", &global);
    assert(lines_view(lines@) =~= group_lines("Global"@, global@));
    if state.origin_scope != Scope::Global {
        let own = keys::commands_for_scope(state.origin_scope);
        push_group(&mut lines, scope_label(state.origin_scope), &own);
    }
    lines
}

/// The line under the overlay's heading.
pub fn scope_line(state: &State) -> (line: String)
    ensures
        line@ == "Scope: "@ + scope_name(state.origin_scope),
        text::in_order(line@, seq![scope_name(state.origin_scope)]),
{
    proof {
        let name = scope_name(state.origin_scope);
        text::holds_one("Scope: "@, name, Seq::empty());
        assert("Scope: "@ + name + Seq::empty() =~= "Scope: "@ + name);
    }
    let mut line = "Scope: ".to_owned();
    line.append(scope_label(state.origin_scope));
    line
}

/// The rows of the overlay inside its border: two for the heading, the body,
/// and one for the hint.
pub fn layout(area: Rect) -> (parts: Vec<Rect>)
    ensures
        parts@.len() == 3,
        4 <= ui::room_of(ui::inside_padding(area), ui::Direction::Vertical) ==> forall|i: int|
            0 <= i < 3 ==> #[trigger] parts@[i] == ui::sandwich(
                ui::inside_padding(area),
                ui::Direction::Vertical,
                2,
                1,
                i,
            ),
        forall|i: int|
            0 <= i < 3 ==> ui::is_part(
                ui::inside_padding(area),
                ui::Direction::Vertical,
                #[trigger] parts@[i],
            ),
{
    ui::head_body_foot(ui::inside_padded_borders(area), 2, 1)
}

/// The middle part of `r` where it is divided into three from top to bottom,
/// and that part again from left to right. The middle one has the given
/// share, the outer two half of the rest each.
pub open spec fn middle_rect(percent_x: u16, percent_y: u16, r: Rect) -> Rect {
    let tall = (100 - percent_y) / 2;
    let wide = (100 - percent_x) / 2;
    ui::share_part(
        ui::share_part(r, ui::Direction::Vertical, tall, tall + percent_y),
        ui::Direction::Horizontal,
        wide,
        wide + percent_x,
    )
}

/// The popup rectangle of the overlay: the middle part of `r` both ways.
pub fn centered_rect(percent_x: u16, percent_y: u16, r: Rect) -> (rect: Rect)
    requires
        percent_x <= 100,
        percent_y <= 100,
    ensures
        rect == middle_rect(percent_x, percent_y, r),
        r.x <= rect.x,
        r.y <= rect.y,
        rect.x + rect.width <= ui::clamp_u16(r.x + r.width),
        rect.y + rect.height <= ui::clamp_u16(r.y + r.height),
{
    let tall: u16 = (100 - percent_y) / 2;
    let middle = ui::middle_share(r, ui::Direction::Vertical, tall, percent_y);
    let wide: u16 = (100 - percent_x) / 2;
    ui::middle_share(middle, ui::Direction::Horizontal, wide, percent_x)
}

/// Every binding of the scope that help was opened from is shown.
pub proof fn every_binding_is_shown(origin: Scope, i: int)
    requires
        0 <= i < keys::bindings_of(origin).len(),
    ensures
        help_lines(origin).contains(binding_line(keys::bindings_of(origin)[i])),
{
    let rows = keys::bindings_of(origin);
    let line = binding_line(rows[i]);
    row_is_listed(rows, i);
    let group = group_lines(scope_name(origin), rows);
    let k = binding_lines(rows).index_of(line);
    assert(group[k + 2] == line);
    let all = help_lines(origin);
    let global = group_lines("Global"@, keys::bindings_of(Scope::Global));
    if origin == Scope::Global {
        assert(all[k + 2] == line);
    } else {
        assert(all[global.len() + k + 2] == line);
    }
}

proof fn row_is_listed(rows: Seq<CommandBinding>, i: int)
    requires
        0 <= i < rows.len(),
    ensures
        binding_lines(rows).contains(binding_line(rows[i])),
    decreases rows.len(),
{
    let shorter = rows.drop_last();
    let before = binding_lines(shorter);
    if i < rows.len() - 1 {
        row_is_listed(shorter, i);
        let k = before.index_of(binding_line(rows[i]));
        assert(binding_lines(rows)[k] == binding_line(rows[i]));
    } else if shown_before(shorter, rows.last()) {
        let j = choose|j: int| 0 <= j < shorter.len() && same_row(#[trigger] shorter[j], rows.last());
        row_is_listed(shorter, j);
        assert(binding_line(shorter[j]) == binding_line(rows.last()));
    } else {
        assert(binding_lines(rows)[before.len() as int] == binding_line(rows[i]));
    }
}

/// A key is shown with what is held with it: Control first, then Alt, then the
/// key. Shift shows a letter as a capital, and any other character is itself.
pub proof fn keys_show_their_modifiers(ev: KeyEvent, c: char)
    ensures
        ({
            let bare = KeyEvent {
                modifiers: KeyModifiers { control: false, alt: false, ..ev.modifiers },
                ..ev
            };
            let alt = KeyEvent {
                modifiers: KeyModifiers { control: false, alt: true, ..ev.modifiers },
                ..ev
            };
            let control = KeyEvent {
                modifiers: KeyModifiers { control: true, ..ev.modifiers },
                ..ev
            };
            let free = KeyEvent {
                modifiers: KeyModifiers { control: false, ..ev.modifiers },
                ..ev
            };
            &&& key_text(alt) == seq!['A', 'l', 't', '+'] + key_text(bare)
            &&& key_text(control) == seq!['C', 't', 'r', 'l', '+'] + key_text(free)
            &&& ev.code == KeyCode::Char(c) && !ev.modifiers.shift ==> key_text(bare) == seq![c]
            &&& ev.code == KeyCode::Char('a') && ev.modifiers.shift ==> key_text(bare) == seq!['A']
            &&& ev.code == KeyCode::Char('z') && ev.modifiers.shift ==> key_text(bare) == seq!['Z']
        }),
{
    reveal_strlit("Alt+");
    reveal_strlit("Ctrl+");
    let none = Seq::<char>::empty();
    let base = key_base(ev);
    assert("Alt+"@ =~= seq!['A', 'l', 't', '+']);
    assert("Ctrl+"@ =~= seq!['C', 't', 'r', 'l', '+']);
    assert(none + none + base =~= base);
    assert(none + "Alt+"@ + base =~= "Alt+"@ + base);
    assert("Ctrl+"@ + none + base =~= "Ctrl+"@ + base);
    assert("Ctrl+"@ + "Alt+"@ + base =~= "Ctrl+"@ + ("Alt+"@ + base));
}

/// A function key is shown with its number.
pub proof fn function_keys_show_their_number(n: u8)
    ensures
        ({
            let ev = KeyEvent {
                code: KeyCode::F(n),
                modifiers: KeyModifiers::none(),
                kind: KeyEventKind::Press,
            };
            key_text(ev) == seq!['F'] + text::decimal(n as nat)
        }),
{
    reveal_strlit("F");
    assert("F"@ =~= seq!['F']);
    let none = Seq::<char>::empty();
    let base = "F"@ + text::decimal(n as nat);
    assert(none + none + base =~= base);
}

/// The bindings that hold everywhere are shown whatever help was opened from.
pub proof fn global_bindings_are_always_shown(origin: Scope, i: int)
    requires
        0 <= i < keys::bindings_of(Scope::Global).len(),
    ensures
        help_lines(origin).contains(binding_line(keys::bindings_of(Scope::Global)[i])),
{
    every_binding_is_shown(Scope::Global, i);
    let line = binding_line(keys::bindings_of(Scope::Global)[i]);
    let global = help_lines(Scope::Global);
    let at = global.index_of(line);
    assert(help_lines(origin)[at] == line);
}

/// A binding's line shows its key and then its label.
pub proof fn lines_show_key_and_label(row: CommandBinding)
    ensures
        binding_line(row) matches HelpLineModel::Binding { key_cell, label } && label == row.label@
            && text::in_order(key_cell, seq![key_text(row.key)]) && key_cell.len() >= 16,
{
    reveal_strlit("  ");
    let key = key_text(row.key);
    text::padding_only_adds_spaces(key, 14);
    let cell = text::padded(key, 14);
    let rest = cell.skip(key.len() as int);
    text::holds_one("  "@, key, rest);
    assert(cell =~= key + rest);
    assert("  "@ + cell =~= "  "@ + key + rest);
}

/// Esc, Enter, `?`, `q` and Ctrl-c close help; a key that is released, and any
/// other letter, does not.
pub proof fn help_closes_on_its_keys(ev: KeyEvent, c: char)
    requires
        ev.kind != KeyEventKind::Release,
    ensures
        ev.code == KeyCode::Esc || ev.code == KeyCode::Enter ==> closes(ev),
        ev.code == KeyCode::Char(c) && ev.modifiers == KeyModifiers::none() ==> (closes(ev) <==> c
            == '?' || c == 'q'),
        ev.code == KeyCode::Char('c') && ev.modifiers == KeyModifiers::control() ==> closes(ev),
        !closes(KeyEvent { kind: KeyEventKind::Release, ..ev }),
{
}

/// Help has a heading for what holds everywhere and one for where it was asked
/// for.
pub proof fn groups_have_their_headings(origin: Scope)
    ensures
        exists|i: int|
            0 <= i < help_lines(origin).len() && (#[trigger] help_lines(origin)[i]
                matches HelpLineModel::Heading(h) && text::in_order(h, seq![scope_name(origin)])),
        exists|i: int|
            0 <= i < help_lines(origin).len() && (#[trigger] help_lines(origin)[i]
                matches HelpLineModel::Heading(h) && text::in_order(
                h,
                seq![scope_name(Scope::Global)],
            )),
{
    let lines = help_lines(origin);
    let global = group_lines("Global"@, keys::bindings_of(Scope::Global));
    let name = scope_name(origin);
    text::holds_one("── "@, "Global"@, " ──"@);
    text::holds_one("── "@, name, " ──"@);
    assert(global[1] == HelpLineModel::Heading("── "@ + "Global"@ + " ──"@));
    assert(lines[1] == global[1]);
    if origin != Scope::Global {
        let own = group_lines(name, keys::bindings_of(origin));
        assert(own[1] == HelpLineModel::Heading("── "@ + name + " ──"@));
        assert(lines[(global.len() + 1) as int] == own[1]);
    }
}

} // verus!
