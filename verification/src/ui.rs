//! Rectangles of terminal cells and how they are divided.

use ratatui::layout;
use vstd::prelude::*;

verus! {

/// An area of the terminal, in cells.
#[derive(Debug, Clone, Copy, PartialEq, Eq, Structural)]
pub struct Rect {
    pub x: u16,
    pub y: u16,
    pub width: u16,
    pub height: u16,
}

/// The smaller of `n` and the largest coordinate.
pub open spec fn clamp_u16(n: int) -> u16 {
    if n > u16::MAX {
        u16::MAX
    } else {
        n as u16
    }
}

/// `a - b`, or zero where that is negative.
pub open spec fn minus(a: u16, b: int) -> u16 {
    if b >= a {
        0
    } else {
        (a - b) as u16
    }
}

impl Rect {
    /// Whether both far edges are coordinates too.
    pub open spec fn fits(self) -> bool {
        self.x + self.width <= u16::MAX && self.y + self.height <= u16::MAX
    }

    /// Whether `other` lies inside this rectangle.
    pub open spec fn holds(self, other: Rect) -> bool {
        &&& self.x <= other.x
        &&& self.y <= other.y
        &&& other.x + other.width <= self.x + self.width
        &&& other.y + other.height <= self.y + self.height
    }

    #[verifier::allow_in_spec]
    pub fn empty() -> Rect
        returns
            (Rect { x: 0, y: 0, width: 0, height: 0 }),
    {
        Rect { x: 0, y: 0, width: 0, height: 0 }
    }
}

/// Whether the cell at `col`, `row` lies in `rect`.
pub open spec fn contains_cell(rect: Rect, col: u16, row: u16) -> bool {
    &&& rect.width > 0
    &&& rect.height > 0
    &&& rect.x <= col < clamp_u16(rect.x + rect.width)
    &&& rect.y <= row < clamp_u16(rect.y + rect.height)
}

fn sum_u16(a: u16, b: u16) -> (sum: u16)
    ensures
        sum == clamp_u16(a + b),
{
    if a > 65535 - b {
        65535
    } else {
        a + b
    }
}

fn difference_u16(a: u16, b: u16) -> (difference: u16)
    ensures
        difference == minus(a, b as int),
{
    if b >= a {
        0
    } else {
        a - b
    }
}

/// Whether the cell at `col`, `row` lies in `rect`. A rectangle without area
/// has no cells.
pub fn rect_contains(rect: Rect, col: u16, row: u16) -> (yes: bool)
    ensures
        yes == contains_cell(rect, col, row),
{
    if rect.width == 0 || rect.height == 0 {
        return false;
    }
    col >= rect.x && col < sum_u16(rect.x, rect.width) && row >= rect.y && row < sum_u16(
        rect.y,
        rect.height,
    )
}

/// `percent` hundredths of a length, rounded down, or the largest coordinate
/// where that is beyond it.
pub open spec fn share(length: u16, percent: u16) -> u16 {
    clamp_u16(length * percent / 100)
}

/// The rectangle of `pct_w` by `pct_h` hundredths of `parent`, centered in it.
pub open spec fn centered(pct_w: u16, pct_h: u16, parent: Rect) -> Rect {
    Rect {
        x: (parent.x + minus(parent.width, share(parent.width, pct_w) as int) / 2) as u16,
        y: (parent.y + minus(parent.height, share(parent.height, pct_h) as int) / 2) as u16,
        width: share(parent.width, pct_w),
        height: share(parent.height, pct_h),
    }
}

fn share_of(length: u16, percent: u16) -> (part: u16)
    ensures
        part == share(length, percent),
{
    proof {
        assert(length * percent <= 65535 * 65535) by (nonlinear_arith)
            requires
                length <= 65535,
                percent <= 65535,
        ;
    }
    let part: u32 = length as u32 * percent as u32 / 100;
    if part > 65535 {
        65535
    } else {
        part as u16
    }
}

/// The rectangle of `pct_w` by `pct_h` hundredths of `parent`, centered in it.
pub fn centered_rect(pct_w: u16, pct_h: u16, parent: Rect) -> (rect: Rect)
    requires
        parent.x + minus(parent.width, share(parent.width, pct_w) as int) / 2 <= u16::MAX,
        parent.y + minus(parent.height, share(parent.height, pct_h) as int) / 2 <= u16::MAX,
    ensures
        rect == centered(pct_w, pct_h, parent),
{
    let h: u16 = share_of(parent.height, pct_h);
    let w: u16 = share_of(parent.width, pct_w);
    let x: u16 = parent.x + difference_u16(parent.width, w) / 2;
    let y: u16 = parent.y + difference_u16(parent.height, h) / 2;
    Rect { x, y, width: w, height: h }
}

/// A popup of at most a hundred hundredths each way lies inside its parent,
/// with at most one cell more on the far side than on the near side.
pub proof fn popup_is_inside_and_centered(pct_w: u16, pct_h: u16, parent: Rect)
    requires
        pct_w <= 100,
        pct_h <= 100,
        parent.fits(),
    ensures
        parent.holds(centered(pct_w, pct_h, parent)),
        ({
            let popup = centered(pct_w, pct_h, parent);
            let near_x = popup.x - parent.x;
            let far_x = parent.x + parent.width - popup.x - popup.width;
            let near_y = popup.y - parent.y;
            let far_y = parent.y + parent.height - popup.y - popup.height;
            near_x <= far_x <= near_x + 1 && near_y <= far_y <= near_y + 1
        }),
{
    let w = parent.width as int;
    let h = parent.height as int;
    assert(w * pct_w <= w * 100) by (nonlinear_arith)
        requires
            0 <= w,
            pct_w <= 100,
    ;
    assert(h * pct_h <= h * 100) by (nonlinear_arith)
        requires
            0 <= h,
            pct_h <= 100,
    ;
}

/// The cells left of a rectangle inside a border on all four sides.
pub open spec fn inside_border(r: Rect) -> Rect {
    Rect {
        x: if clamp_u16(r.x + 1) <= clamp_u16(r.x + r.width) {
            clamp_u16(r.x + 1)
        } else {
            clamp_u16(r.x + r.width)
        },
        y: if clamp_u16(r.y + 1) <= clamp_u16(r.y + r.height) {
            clamp_u16(r.y + 1)
        } else {
            clamp_u16(r.y + r.height)
        },
        width: minus(r.width, 2),
        height: minus(r.height, 2),
    }
}

/// The cells left of a rectangle inside a border on all four sides.
pub fn inside_borders(r: Rect) -> (inner: Rect)
    ensures
        inner == inside_border(r),
{
    let next_x: u16 = sum_u16(r.x, 1);
    let right: u16 = sum_u16(r.x, r.width);
    let next_y: u16 = sum_u16(r.y, 1);
    let bottom: u16 = sum_u16(r.y, r.height);
    Rect {
        x: if next_x <= right {
            next_x
        } else {
            right
        },
        y: if next_y <= bottom {
            next_y
        } else {
            bottom
        },
        width: difference_u16(r.width, 2),
        height: difference_u16(r.height, 2),
    }
}

/// The cells left of a rectangle inside a border and, within that, two blank
/// columns at either side and one blank row above and below.
pub open spec fn inside_padding(r: Rect) -> Rect {
    let b = inside_border(r);
    Rect {
        x: clamp_u16(b.x + 2),
        y: clamp_u16(b.y + 1),
        width: minus(b.width, 4),
        height: minus(b.height, 2),
    }
}

/// The cells left of a rectangle inside a border and, within that, two blank
/// columns at either side and one blank row above and below.
pub fn inside_padded_borders(r: Rect) -> (inner: Rect)
    ensures
        inner == inside_padding(r),
{
    let b = inside_borders(r);
    Rect {
        x: sum_u16(b.x, 2),
        y: sum_u16(b.y, 1),
        width: difference_u16(b.width, 4),
        height: difference_u16(b.height, 2),
    }
}

/// How much of a divided area a part asks for.
#[derive(Debug, Clone, Copy, PartialEq, Eq, Structural)]
pub enum Constraint {
    Length(u16),
    Min(u16),
    Percentage(u16),
    Ratio(u32, u32),
}

/// The axis along which an area is divided.
#[derive(Debug, Clone, Copy, PartialEq, Eq, Structural)]
pub enum Direction {
    Horizontal,
    Vertical,
}

/// Where a rectangle starts along an axis.
pub open spec fn start_of(r: Rect, direction: Direction) -> int {
    match direction {
        Direction::Horizontal => r.x as int,
        Direction::Vertical => r.y as int,
    }
}

/// How far a rectangle reaches along an axis.
pub open spec fn length_of(r: Rect, direction: Direction) -> int {
    match direction {
        Direction::Horizontal => r.width as int,
        Direction::Vertical => r.height as int,
    }
}

/// The cells of a rectangle along an axis up to the last coordinate.
pub open spec fn room_of(r: Rect, direction: Direction) -> int {
    clamp_u16(start_of(r, direction) + length_of(r, direction)) - start_of(r, direction)
}

/// Whether `part` lies in `area` along `direction` and spans it across.
pub open spec fn is_part(area: Rect, direction: Direction, part: Rect) -> bool {
    &&& start_of(area, direction) <= start_of(part, direction)
    &&& start_of(part, direction) + length_of(part, direction) <= start_of(area, direction)
        + room_of(area, direction)
    &&& match direction {
        Direction::Horizontal => part.y == area.y && part.height == area.height,
        Direction::Vertical => part.x == area.x && part.width == area.width,
    }
}

/// The part of an area that takes `length` cells from `start` on.
pub open spec fn slice_of(area: Rect, direction: Direction, start: int, length: int) -> Rect {
    match direction {
        Direction::Horizontal => Rect { x: start as u16, width: length as u16, ..area },
        Direction::Vertical => Rect { y: start as u16, height: length as u16, ..area },
    }
}

/// Whether the parts follow each other without a gap from the start of the
/// area.
pub open spec fn in_a_row(area: Rect, direction: Direction, parts: Seq<Rect>) -> bool {
    &&& parts.len() > 0 ==> start_of(parts[0], direction) == start_of(area, direction)
    &&& forall|i: int|
        0 < i < parts.len() ==> start_of(#[trigger] parts[i], direction) == start_of(
            parts[i - 1],
            direction,
        ) + length_of(parts[i - 1], direction)
}

/// The share of the whole that a constraint asks for, in whole hundredths.
pub open spec fn hundredths(c: Constraint) -> Option<int> {
    match c {
        Constraint::Percentage(p) => Some(p as int),
        Constraint::Ratio(a, b) => if b > 0 && (100 * a) % (b as int) == 0 {
            Some((100 * a) / (b as int))
        } else {
            None
        },
        _ => None,
    }
}

/// The shares of the first `n` constraints together.
pub open spec fn shares_before(constraints: Seq<Constraint>, n: int) -> int
    decreases n,
{
    if n <= 0 {
        0
    } else {
        shares_before(constraints, n - 1) + hundredths(constraints[n - 1]).unwrap()
    }
}

/// Whether every constraint asks for a share and together they ask for no
/// more than the whole.
pub open spec fn are_shares(constraints: Seq<Constraint>) -> bool {
    &&& forall|i: int| 0 <= i < constraints.len() ==> hundredths(#[trigger] constraints[i]) is Some
    &&& shares_before(constraints, constraints.len() as int) <= 100
}

/// `share` hundredths of a length, rounded to the nearest cell.
pub open spec fn rounded_share(length: int, share: int) -> int {
    (length * share + 50) / 100
}

/// The lengths that the first `n` constraints fix.
pub open spec fn fixed_before(constraints: Seq<Constraint>, n: int) -> int
    decreases n,
{
    if n <= 0 {
        0
    } else {
        fixed_before(constraints, n - 1) + match constraints[n - 1] {
            Constraint::Length(k) => k as int,
            _ => 0,
        }
    }
}

/// Whether constraint `f` asks for a minimum, all others fix a length, and
/// there is room for all of them.
pub open spec fn one_fills(constraints: Seq<Constraint>, f: int, room: int) -> bool {
    &&& 0 <= f < constraints.len()
    &&& constraints[f] is Min
    &&& constraints[f]->Min_0 <= 32767
    &&& forall|i: int|
        0 <= i < constraints.len() && i != f ==> (#[trigger] constraints[i]) is Length
    &&& fixed_before(constraints, constraints.len() as int) + constraints[f]->Min_0 <= room
}

/// Whether constraint `f` asks for a minimum, all others fix a length, and
/// there is not room for all of them.
pub open spec fn one_starves(constraints: Seq<Constraint>, f: int, room: int) -> bool {
    &&& 0 <= f < constraints.len()
    &&& constraints[f] is Min
    &&& constraints[f]->Min_0 <= 32767
    &&& forall|i: int|
        0 <= i < constraints.len() && i != f ==> (#[trigger] constraints[i]) is Length
    &&& fixed_before(constraints, constraints.len() as int) + constraints[f]->Min_0 > room
}

/// The smaller of a minimum and the room there is.
pub open spec fn at_most(min: u16, room: int) -> int {
    if min <= room {
        min as int
    } else {
        room
    }
}

/// `ratatui::layout::Layout::split` divides an area along one axis. It hands
/// out one rectangle per constraint. They lie inside the area and follow each
/// other without a gap. Where the constraints are shares of at most the whole,
/// each border falls on its share rounded to the nearest cell. Where one asks
/// for a minimum, the others fix lengths and there is room for all, each fixed
/// part gets its length and the other one gets the rest. Where there is not
/// room for all, a minimum goes before a length: that part gets its minimum as
/// far as there is room, and the fixed ones share what is left, none with more
/// than its length. How they share it, and what becomes of constraints that
/// contradict each other otherwise, is left unsaid.
#[verifier::external_body]
fn split(area: Rect, direction: Direction, constraints: &Vec<Constraint>) -> (parts: Vec<Rect>)
    ensures
        parts@.len() == constraints@.len(),
        forall|i: int| 0 <= i < parts@.len() ==> is_part(area, direction, #[trigger] parts@[i]),
        in_a_row(area, direction, parts@),
        are_shares(constraints@) ==> forall|i: int|
            0 <= i < parts@.len() ==> length_of(#[trigger] parts@[i], direction) == rounded_share(
                room_of(area, direction),
                shares_before(constraints@, i + 1),
            ) - rounded_share(room_of(area, direction), shares_before(constraints@, i)),
        forall|f: int, i: int|
            #![trigger constraints@[f], parts@[i]]
            0 <= i < parts@.len() && one_fills(constraints@, f, room_of(area, direction))
                ==> length_of(parts@[i], direction) == if i == f {
                room_of(area, direction) - fixed_before(constraints@, constraints@.len() as int)
            } else {
                constraints@[i]->Length_0 as int
            },
        forall|f: int, i: int|
            #![trigger constraints@[f], parts@[i]]
            0 <= i < parts@.len() && one_starves(constraints@, f, room_of(area, direction)) ==> {
                &&& length_of(parts@[f], direction) == at_most(
                    constraints@[f]->Min_0,
                    room_of(area, direction),
                )
                &&& i != f ==> length_of(parts@[i], direction) <= constraints@[i]->Length_0
                &&& start_of(parts@.last(), direction) + length_of(parts@.last(), direction)
                    == start_of(area, direction) + room_of(area, direction)
            },
{
    let Rect { x, y, width, height } = area;
    let whole = layout::Rect { x, y, width, height };
    let axis = match direction {
        Direction::Horizontal => layout::Direction::Horizontal,
        Direction::Vertical => layout::Direction::Vertical,
    };
    let asked = constraints.iter().map(|c| match *c {
        Constraint::Length(n) => layout::Constraint::Length(n),
        Constraint::Min(n) => layout::Constraint::Min(n),
        Constraint::Percentage(p) => layout::Constraint::Percentage(p),
        Constraint::Ratio(a, b) => layout::Constraint::Ratio(a, b),
    });
    layout::Layout::new(axis, asked).split(whole).iter().map(
        |&layout::Rect { x, y, width, height }| Rect { x, y, width, height },
    ).collect()
}

/// The three parts of an area divided into a head and a foot of fixed lengths
/// and a body that takes the rest.
pub open spec fn sandwich(area: Rect, direction: Direction, head: int, foot: int, i: int) -> Rect {
    let start = start_of(area, direction);
    let room = room_of(area, direction);
    if i == 0 {
        slice_of(area, direction, start, head)
    } else if i == 1 {
        slice_of(area, direction, start + head, room - head - foot)
    } else {
        slice_of(area, direction, start + room - foot, foot)
    }
}

/// An area divided from top to bottom into a head, a body of at least one row,
/// and a foot.
pub fn head_body_foot(area: Rect, head: u16, foot: u16) -> (parts: Vec<Rect>)
    ensures
        parts@.len() == 3,
        forall|i: int|
            0 <= i < 3 ==> is_part(area, Direction::Vertical, #[trigger] parts@[i]),
        in_a_row(area, Direction::Vertical, parts@),
        head + foot + 1 <= room_of(area, Direction::Vertical) ==> forall|i: int|
            0 <= i < 3 ==> #[trigger] parts@[i] == sandwich(
                area,
                Direction::Vertical,
                head as int,
                foot as int,
                i,
            ),
        head + foot + 1 > room_of(area, Direction::Vertical) ==> {
            &&& parts@[0].height <= head
            &&& parts@[1].height == at_most(1, room_of(area, Direction::Vertical))
            &&& parts@[2].height <= foot
            &&& parts@[0].height + parts@[1].height + parts@[2].height == room_of(
                area,
                Direction::Vertical,
            )
        },
{
    let asked = vec![Constraint::Length(head), Constraint::Min(1), Constraint::Length(foot)];
    let parts = split(area, Direction::Vertical, &asked);
    proof {
        reveal_with_fuel(fixed_before, 4);
        let room = room_of(area, Direction::Vertical);
        if head + foot + 1 <= room {
            assert(one_fills(asked@, 1, room));
            let f = asked@[1];
            let (a, b, c) = (parts@[0], parts@[1], parts@[2]);
        } else {
            assert(one_starves(asked@, 1, room));
            let f = asked@[1];
            let (a, b, c) = (parts@[0], parts@[1], parts@[2]);
        }
    }
    parts
}

/// The `i`th of the parts of an area that are divided by shares.
pub open spec fn share_part(area: Rect, direction: Direction, before: int, upto: int) -> Rect {
    let room = room_of(area, direction);
    slice_of(
        area,
        direction,
        start_of(area, direction) + rounded_share(room, before),
        rounded_share(room, upto) - rounded_share(room, before),
    )
}

/// The middle one of three parts of an area, of which the outer two have the
/// same share.
pub fn middle_share(area: Rect, direction: Direction, outer: u16, middle: u16) -> (part: Rect)
    requires
        outer + middle + outer <= 100,
    ensures
        part == share_part(area, direction, outer as int, outer + middle),
        is_part(area, direction, part),
{
    let asked = vec![
        Constraint::Percentage(outer),
        Constraint::Percentage(middle),
        Constraint::Percentage(outer),
    ];
    let parts = split(area, direction, &asked);
    proof {
        reveal_with_fuel(shares_before, 4);
        assert(are_shares(asked@));
        let (a, b) = (parts@[0], parts@[1]);
    }
    parts[1]
}

proof fn fifth_is_twenty_hundredths()
    ensures
        hundredths(Constraint::Ratio(1, 5)) == Some(20int),
{
    let (a, b) = (100 * 1u32, 5u32 as int);
    assert(a % b == 0 && a / b == 20) by (nonlinear_arith)
        requires
            a == 100,
            b == 5,
    ;
}

/// An area divided from left to right into five equal columns, each border
/// rounded to the nearest cell.
pub fn five_columns(area: Rect) -> (parts: Vec<Rect>)
    ensures
        parts@.len() == 5,
        forall|i: int|
            0 <= i < 5 ==> #[trigger] parts@[i] == share_part(
                area,
                Direction::Horizontal,
                20 * i,
                20 * (i + 1),
            ),
        forall|i: int| 0 <= i < 5 ==> is_part(area, Direction::Horizontal, #[trigger] parts@[i]),
{
    let asked = vec![
        Constraint::Ratio(1, 5),
        Constraint::Ratio(1, 5),
        Constraint::Ratio(1, 5),
        Constraint::Ratio(1, 5),
        Constraint::Ratio(1, 5),
    ];
    let parts = split(area, Direction::Horizontal, &asked);
    proof {
        reveal_with_fuel(shares_before, 6);
        fifth_is_twenty_hundredths();
        assert(are_shares(asked@));
        let (a, b, c, e, f) = (parts@[0], parts@[1], parts@[2], parts@[3], parts@[4]);
    }
    parts
}

/// An area divided along an axis into parts of fixed lengths and one that
/// takes the rest.
pub fn stack(area: Rect, direction: Direction, asked: &Vec<Constraint>, filler: usize) -> (parts:
    Vec<Rect>)
    requires
        filler < asked@.len(),
    ensures
        parts@.len() == asked@.len(),
        forall|i: int| 0 <= i < parts@.len() ==> is_part(area, direction, #[trigger] parts@[i]),
        in_a_row(area, direction, parts@),
        one_fills(asked@, filler as int, room_of(area, direction)) ==> forall|i: int|
            0 <= i < parts@.len() ==> length_of(#[trigger] parts@[i], direction) == if i == filler {
                room_of(area, direction) - fixed_before(asked@, asked@.len() as int)
            } else {
                asked@[i]->Length_0 as int
            },
        one_starves(asked@, filler as int, room_of(area, direction)) ==> {
            &&& length_of(parts@[filler as int], direction) == at_most(
                asked@[filler as int]->Min_0,
                room_of(area, direction),
            )
            &&& forall|i: int|
                0 <= i < parts@.len() && i != filler ==> length_of(#[trigger] parts@[i], direction)
                    <= asked@[i]->Length_0
            &&& start_of(parts@.last(), direction) + length_of(parts@.last(), direction)
                == start_of(area, direction) + room_of(area, direction)
        },
{
    let parts = split(area, direction, asked);
    proof {
        let f = asked@[filler as int];
        let p = parts@[filler as int];
    }
    parts
}

/// A cell is in a rectangle exactly where it is in one of its columns and one of
/// its rows.
pub proof fn cells_are_in_columns_and_rows(rect: Rect, col: u16, row: u16)
    requires
        rect.fits(),
    ensures
        contains_cell(rect, col, row) <==> (rect.x <= col < rect.x + rect.width && rect.y <= row
            < rect.y + rect.height),
{
}

/// A popup has the share of its parent that was asked for, rounded down.
pub proof fn popups_have_their_share(pct_w: u16, pct_h: u16, parent: Rect)
    requires
        pct_w <= 100,
        pct_h <= 100,
    ensures
        ({
            let popup = centered(pct_w, pct_h, parent);
            &&& popup.width * 100 <= parent.width * pct_w < (popup.width + 1) * 100
            &&& popup.height * 100 <= parent.height * pct_h < (popup.height + 1) * 100
        }),
{
    let (w, h) = (parent.width as int, parent.height as int);
    assert(0 <= w * pct_w <= w * 100) by (nonlinear_arith)
        requires
            0 <= w,
            0 <= pct_w <= 100,
    ;
    assert(0 <= h * pct_h <= h * 100) by (nonlinear_arith)
        requires
            0 <= h,
            0 <= pct_h <= 100,
    ;
}

/// A border takes one cell at every side, and the padding inside it two columns
/// at either side and one row above and below.
pub proof fn borders_take_one_cell(r: Rect)
    requires
        r.fits(),
        r.width >= 6,
        r.height >= 4,
    ensures
        inside_border(r) == (Rect {
            x: (r.x + 1) as u16,
            y: (r.y + 1) as u16,
            width: (r.width - 2) as u16,
            height: (r.height - 2) as u16,
        }),
        inside_padding(r) == (Rect {
            x: (r.x + 3) as u16,
            y: (r.y + 2) as u16,
            width: (r.width - 6) as u16,
            height: (r.height - 4) as u16,
        }),
{
}

/// A head, a body and a foot follow each other from the start of an area to its
/// end, the head and the foot with their lengths.
pub proof fn sandwiches_fill_the_area(area: Rect, head: int, foot: int)
    requires
        area.fits(),
        0 <= head,
        0 <= foot,
        head + foot <= area.height,
    ensures
        ({
            let d = Direction::Vertical;
            let (a, b, c) = (
                sandwich(area, d, head, foot, 0),
                sandwich(area, d, head, foot, 1),
                sandwich(area, d, head, foot, 2),
            );
            &&& a.y == area.y
            &&& a.height == head
            &&& b.y == a.y + a.height
            &&& c.y == b.y + b.height
            &&& c.height == foot
            &&& c.y + c.height == area.y + area.height
            &&& a.x == area.x && b.x == area.x && c.x == area.x
            &&& a.width == area.width && b.width == area.width && c.width == area.width
        }),
{
}

/// Shares that follow each other lie side by side without a gap, from the start
/// of the area to its end.
pub proof fn shares_fill_the_area(area: Rect, a: int, b: int, c: int)
    requires
        area.fits(),
        0 <= a <= b <= c <= 100,
    ensures
        ({
            let d = Direction::Horizontal;
            let (left, right) = (share_part(area, d, a, b), share_part(area, d, b, c));
            &&& left.x + left.width == right.x
            &&& a == 0 ==> left.x == area.x
            &&& c == 100 ==> right.x + right.width == area.x + area.width
            &&& left.y == area.y && left.height == area.height
        }),
{
    let w = area.width as int;
    assert(0 <= w * a <= w * b <= w * c <= w * 100) by (nonlinear_arith)
        requires
            0 <= w,
            0 <= a <= b <= c <= 100,
    ;
    assert(rounded_share(w, 0) == 0) by {
        assert(w * 0 == 0);
    }
    assert(rounded_share(w, 100) == w);
}

} // verus!
