//! Areas of the screen, and how they are divided.

use ratatui::layout::{Constraint, Direction, Layout, Rect};
use ratatui::widgets::{Block, Borders};
use vstd::prelude::*;

verus! {

/// A rectangle of screen cells.
#[derive(Clone, Copy, Debug, PartialEq, Eq, Structural)]
pub struct Area {
    pub x: u16,
    pub y: u16,
    pub width: u16,
    pub height: u16,
}

/// How much room a part of a divided area is to have.
#[derive(Clone, Copy, Debug, PartialEq, Eq, Structural)]
pub enum Size {
    /// So many cells.
    Length(u16),
    /// So many cells, and what the others leave.
    Min(u16),
}

/// The way in which the parts of a divided area stand.
#[derive(Clone, Copy, Debug, PartialEq, Eq, Structural)]
pub enum Axis {
    /// One above the other.
    Vertical,
    /// Side by side.
    Horizontal,
}

impl Area {
    /// Whether the coordinates just outside the area can be written down.
    pub open spec fn wf(self) -> bool {
        &&& self.x + self.width <= u16::MAX
        &&& self.y + self.height <= u16::MAX
    }

    /// Whether the area lies within the whole.
    pub open spec fn lies_in(self, whole: Area) -> bool {
        &&& whole.x <= self.x
        &&& self.x + self.width <= whole.x + whole.width
        &&& whole.y <= self.y
        &&& self.y + self.height <= whole.y + whole.height
    }
}

/// Whether `area` may be divided into `parts` where they are to have these sizes.
/// How the room is shared out is the layout solver's affair.
pub uninterp spec fn may_divide(area: Area, axis: Axis, sizes: Seq<Size>, parts: Seq<Area>) -> bool;

/// Whether there are `n` parts, each as wide, or as high, as the whole across the
/// axis, and along the axis within it.
pub open spec fn stands_along(area: Area, axis: Axis, n: nat, parts: Seq<Area>) -> bool {
    &&& parts.len() == n
    &&& forall|i: int|
        0 <= i < n ==> match axis {
            Axis::Vertical => {
                &&& (#[trigger] parts[i]).x == area.x
                &&& parts[i].width == area.width
                &&& area.y <= parts[i].y
                &&& parts[i].y + parts[i].height <= clamped(area.y + area.height)
            },
            Axis::Horizontal => {
                &&& parts[i].y == area.y
                &&& parts[i].height == area.height
                &&& area.x <= parts[i].x
                &&& parts[i].x + parts[i].width <= clamped(area.x + area.width)
            },
        }
}

/// Whether `parts` are what dividing `area` gave.
pub open spec fn divided(area: Area, axis: Axis, sizes: Seq<Size>, parts: Seq<Area>) -> bool {
    &&& may_divide(area, axis, sizes, parts)
    &&& stands_along(area, axis, sizes.len(), parts)
}

/// `ratatui`'s `Layout::split` divides an area along an axis. There is one part
/// for each size; across the axis it is as the whole, and along the axis it lies
/// within it: the solver is required to keep every edge between those of the area.
/// Where in there the parts come to stand is left unsaid: the solver works in
/// floating point, and shares out scarce room in an order that it does not promise.
#[verifier::external_body]
pub(crate) fn divide(area: Area, axis: Axis, sizes: &Vec<Size>) -> (r: Vec<Area>)
    ensures
        may_divide(area, axis, sizes@, r@),
        stands_along(area, axis, sizes@.len(), r@),
{
    let direction = match axis {
        Axis::Vertical => Direction::Vertical,
        Axis::Horizontal => Direction::Horizontal,
    };
    let constraints = sizes.iter().map(|size| match size {
        Size::Length(n) => Constraint::Length(*n),
        Size::Min(n) => Constraint::Min(*n),
    });
    let rect = Rect { x: area.x, y: area.y, width: area.width, height: area.height };
    let parts = Layout::default().direction(direction).constraints(constraints).split(rect);
    parts.iter().map(|p| Area { x: p.x, y: p.y, width: p.width, height: p.height }).collect()
}

/// `n`, or the greatest coordinate if `n` is beyond it.
pub open spec fn clamped(n: int) -> u16 {
    if n > u16::MAX {
        u16::MAX
    } else {
        n as u16
    }
}

/// The smaller of two coordinates.
pub open spec fn nearer(a: u16, b: u16) -> u16 {
    if a <= b {
        a
    } else {
        b
    }
}

/// What a border all round leaves of an extent.
pub open spec fn less_two(n: u16) -> u16 {
    if n >= 2 {
        (n - 2) as u16
    } else {
        0
    }
}

/// The inside of an area with a border all round.
pub open spec fn inner_area(area: Area) -> Area {
    Area {
        x: nearer(clamped(area.x + 1), clamped(area.x + area.width)),
        y: nearer(clamped(area.y + 1), clamped(area.y + area.height)),
        width: less_two(area.width),
        height: less_two(area.height),
    }
}

/// `ratatui`'s `Block::inner`, of a block with all four borders: one cell less on
/// each side, as far as there is room.
#[verifier::external_body]
pub(crate) fn inside_border(area: Area) -> (r: Area)
    ensures
        r == inner_area(area),
{
    let rect = Rect { x: area.x, y: area.y, width: area.width, height: area.height };
    let inner = Block::default().borders(Borders::ALL).inner(rect);
    Area { x: inner.x, y: inner.y, width: inner.width, height: inner.height }
}

/// The inside of an area lies within it.
pub proof fn law_inside_lies_within(area: Area)
    requires
        area.wf(),
    ensures
        inner_area(area).wf(),
        inner_area(area).lies_in(area),
{
}

/// The greatest of an extent less a margin and a minimum.
pub open spec fn shrunk(extent: u16, margin: u16, minimum: u16) -> u16 {
    if extent >= margin + minimum {
        (extent - margin) as u16
    } else {
        minimum
    }
}

/// Half of what `inner` leaves of `outer`.
pub open spec fn half_rest(outer: u16, inner: u16) -> u16 {
    if outer >= inner {
        ((outer - inner) / 2) as u16
    } else {
        0
    }
}

/// The area of an overlay: in the middle of `area`, a little smaller than it, but
/// never below a minimum.
pub open spec fn overlay_area(area: Area) -> Area {
    let width = shrunk(area.width, 4, 20);
    let height = shrunk(area.height, 2, 5);
    Area {
        x: (area.x + half_rest(area.width, width)) as u16,
        y: (area.y + half_rest(area.height, height)) as u16,
        width,
        height,
    }
}

fn shrink(extent: u16, margin: u16, minimum: u16) -> (r: u16)
    requires
        margin + minimum <= u16::MAX,
    ensures
        r == shrunk(extent, margin, minimum),
{
    if extent >= margin + minimum {
        extent - margin
    } else {
        minimum
    }
}

fn half_left(outer: u16, inner: u16) -> (r: u16)
    ensures
        r == half_rest(outer, inner),
        r <= outer,
{
    if outer >= inner {
        (outer - inner) / 2
    } else {
        0
    }
}

/// Finds the place of an overlay in the middle of `area`.
pub fn overlay(area: Area) -> (r: Area)
    requires
        area.wf(),
    ensures
        r == overlay_area(area),
{
    let width: u16 = shrink(area.width, 4, 20);
    let height: u16 = shrink(area.height, 2, 5);
    Area {
        x: area.x + half_left(area.width, width),
        y: area.y + half_left(area.height, height),
        width,
        height,
    }
}

/// An overlay lies within its area where that has room for the smallest one.
pub proof fn law_overlay_lies_within(area: Area)
    requires
        area.wf(),
        area.width >= 20,
        area.height >= 5,
    ensures
        overlay_area(area).x >= area.x,
        overlay_area(area).y >= area.y,
        overlay_area(area).x + overlay_area(area).width <= area.x + area.width,
        overlay_area(area).y + overlay_area(area).height <= area.y + area.height,
{
}

} // verus!
