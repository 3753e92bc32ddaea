//! Rectangles in screen coordinates.

use vstd::prelude::*;
use crate::config::Padding;

verus! {

/// An axis-aligned rectangle in 16-bit screen coordinates.
#[derive(Debug, Clone, Copy, PartialEq, Eq, Structural)]
pub struct Area {
    pub x: u16,
    pub y: u16,
    pub width: u16,
    pub height: u16,
}

/// `a + b`, held at the upper end of the coordinate range.
pub open spec fn clamped_sum(a: u16, b: u16) -> u16 {
    if a + b > u16::MAX { u16::MAX } else { (a + b) as u16 }
}

/// `a - b`, held at zero.
pub open spec fn clamped_diff(a: u16, b: u16) -> u16 {
    if a < b { 0 } else { (a - b) as u16 }
}

/// Executable `clamped_sum`.
pub fn add_clamped(a: u16, b: u16) -> (sum: u16)
    ensures
        sum == clamped_sum(a, b),
{
    if a > u16::MAX - b { u16::MAX } else { a + b }
}

/// Executable `clamped_diff`.
pub fn sub_clamped(a: u16, b: u16) -> (diff: u16)
    ensures
        diff == clamped_diff(a, b),
{
    if a < b { 0 } else { a - b }
}

impl Area {
    /// The point `(px, py)` lies inside: the left and upper edges belong to
    /// the rectangle, the right and lower edges do not.
    pub open spec fn covers(self, px: int, py: int) -> bool {
        &&& self.x <= px < self.x + self.width
        &&& self.y <= py < self.y + self.height
    }

    /// Every point of the rectangle has 16-bit coordinates.
    pub open spec fn addressable(self) -> bool {
        &&& self.x + self.width <= 0x1_0000
        &&& self.y + self.height <= 0x1_0000
    }

    /// The rectangle shrunk by `padding`: the origin moves in by the left and
    /// upper padding, the extent loses both paddings of its axis and stops at
    /// zero.
    pub open spec fn padded(self, padding: Padding) -> Area {
        Area {
            x: clamped_sum(self.x, padding.left),
            y: clamped_sum(self.y, padding.top),
            width: clamped_diff(clamped_diff(self.width, padding.right), padding.left),
            height: clamped_diff(clamped_diff(self.height, padding.bottom), padding.top),
        }
    }

    /// Whether a split cuts along a vertical line: it does when the rectangle
    /// is wider than high.
    pub open spec fn splits_vertically(self) -> bool {
        self.width > self.height
    }

    /// The half that a split hands out: the left half of a rectangle that is
    /// wider than high, else the upper half.
    pub open spec fn first_half(self) -> Area {
        if self.splits_vertically() {
            Area { x: self.x, y: self.y, width: self.width / 2, height: self.height }
        } else {
            Area { x: self.x, y: self.y, width: self.width, height: self.height / 2 }
        }
    }

    /// The half that a split keeps: what `first_half` leaves of the rectangle.
    pub open spec fn second_half(self) -> Area {
        if self.splits_vertically() {
            Area {
                x: clamped_sum(self.x, self.width / 2),
                y: self.y,
                width: (self.width - self.width / 2) as u16,
                height: self.height,
            }
        } else {
            Area {
                x: self.x,
                y: clamped_sum(self.y, self.height / 2),
                width: self.width,
                height: (self.height - self.height / 2) as u16,
            }
        }
    }

    /// The rectangle with `gaps` taken off on all four sides: the origin
    /// moves in by `gaps`, each extent loses `gaps` twice and stops at zero.
    pub open spec fn inset(self, gaps: u16) -> Area {
        Area {
            x: clamped_sum(self.x, gaps),
            y: clamped_sum(self.y, gaps),
            width: clamped_diff(clamped_diff(self.width, gaps), gaps),
            height: clamped_diff(clamped_diff(self.height, gaps), gaps),
        }
    }

    /// No edge of the rectangle lies outside `outer`.
    pub open spec fn within(self, outer: Area) -> bool {
        &&& outer.x <= self.x
        &&& outer.y <= self.y
        &&& self.x + self.width <= outer.x + outer.width
        &&& self.y + self.height <= outer.y + outer.height
    }

    /// The rectangle with origin `(x, y)` and the given extent.
    pub fn new(x: u16, y: u16, width: u16, height: u16) -> (area: Area)
        ensures
            area == (Area { x, y, width, height }),
    {
        Area { x, y, width, height }
    }

    /// Whether the point `(x, y)` lies inside the rectangle.
    pub fn contains(&self, x: u16, y: u16) -> (inside: bool)
        ensures
            inside == self.covers(x as int, y as int),
    {
        let right: u32 = self.x as u32 + self.width as u32;
        let bottom: u32 = self.y as u32 + self.height as u32;
        x >= self.x && y >= self.y && right > x as u32 && bottom > y as u32
    }

    /// The rectangle shrunk by `padding`.
    pub fn pad(&self, padding: Padding) -> (inner: Area)
        ensures
            inner == self.padded(padding),
    {
        Area {
            x: add_clamped(self.x, padding.left),
            y: add_clamped(self.y, padding.top),
            width: sub_clamped(sub_clamped(self.width, padding.right), padding.left),
            height: sub_clamped(sub_clamped(self.height, padding.bottom), padding.top),
        }
    }

    /// The rectangle with `gaps` taken off on all four sides.
    pub fn shrink(&self, gaps: u16) -> (inner: Area)
        ensures
            inner == self.inset(gaps),
    {
        Area {
            x: add_clamped(self.x, gaps),
            y: add_clamped(self.y, gaps),
            width: sub_clamped(sub_clamped(self.width, gaps), gaps),
            height: sub_clamped(sub_clamped(self.height, gaps), gaps),
        }
    }

    /// Cuts the rectangle in two, returns the first half and keeps the second.
    pub fn split(&mut self) -> (child: Area)
        ensures
            child == old(self).first_half(),
            *final(self) == old(self).second_half(),
    {
        let area = *self;
        if area.width > area.height {
            let half = area.width / 2;
            *self = Area {
                x: add_clamped(area.x, half),
                y: area.y,
                width: area.width - half,
                height: area.height,
            };
            Area { x: area.x, y: area.y, width: half, height: area.height }
        } else {
            let half = area.height / 2;
            *self = Area {
                x: area.x,
                y: add_clamped(area.y, half),
                width: area.width,
                height: area.height - half,
            };
            Area { x: area.x, y: area.y, width: area.width, height: half }
        }
    }
}

/// The two halves of a split tile the rectangle: every point of the
/// rectangle lies in exactly one of them, and they hold no other point.
pub proof fn lemma_split_tiles(area: Area, px: int, py: int)
    requires
        area.addressable(),
    ensures
        area.covers(px, py) <==> (area.first_half().covers(px, py) || area.second_half().covers(
            px,
            py,
        )),
        !(area.first_half().covers(px, py) && area.second_half().covers(px, py)),
{
}

/// Both halves of a split lie within the rectangle, and their points have
/// 16-bit coordinates where those of the rectangle have.
pub proof fn lemma_split_within(area: Area)
    requires
        area.addressable(),
    ensures
        area.first_half().within(area),
        area.second_half().within(area),
        area.first_half().addressable(),
        area.second_half().addressable(),
{
}

/// A rectangle that is at least two gaps wide and high keeps, with the gaps
/// taken off, a distance of `gaps` to every edge of a rectangle around it.
pub proof fn lemma_inset_within(slot: Area, outer: Area, gaps: u16)
    requires
        outer.addressable(),
        slot.within(outer),
        2 * gaps <= slot.width,
        2 * gaps <= slot.height,
    ensures
        slot.inset(gaps).x >= outer.x + gaps,
        slot.inset(gaps).y >= outer.y + gaps,
        slot.inset(gaps).x + slot.inset(gaps).width <= outer.x + outer.width - gaps,
        slot.inset(gaps).y + slot.inset(gaps).height <= outer.y + outer.height - gaps,
{
}

} // verus!
