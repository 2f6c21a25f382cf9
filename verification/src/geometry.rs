//! Vectors and axis-aligned rectangles on the integer lattice.

use vstd::prelude::*;
use crate::units::{FIELD_MAX, SIZE_MAX, WORLD_MAX};

verus! {

/// A point or a displacement.
#[derive(Clone, Copy, Debug, PartialEq, Eq, Structural)]
pub struct Vec2 {
    pub x: i64,
    pub y: i64,
}

/// An axis-aligned rectangle, given by its top-left corner and its size.
/// The y axis points down.
#[derive(Clone, Copy, Debug, PartialEq, Eq, Structural)]
pub struct Rect {
    pub x: i64,
    pub y: i64,
    pub w: i64,
    pub h: i64,
}

/// The smaller of two integers.
pub open spec fn min(a: int, b: int) -> int {
    if a <= b { a } else { b }
}

/// The larger of two integers.
pub open spec fn max(a: int, b: int) -> int {
    if a >= b { a } else { b }
}

/// A coordinate moved back to the nearest one inside the world.
pub open spec fn clamp_world(c: int) -> int {
    if c < -WORLD_MAX { -(WORLD_MAX as int) } else if c > WORLD_MAX { WORLD_MAX as int } else { c }
}

/// The coordinate `c`, moved back to the nearest one inside the world.
pub fn clamp_to_world(c: i64) -> (inside: i64)
    ensures
        inside == clamp_world(c as int),
        -WORLD_MAX <= inside <= WORLD_MAX,
{
    if c < -WORLD_MAX {
        -WORLD_MAX
    } else if c > WORLD_MAX {
        WORLD_MAX
    } else {
        c
    }
}

impl Vec2 {
    /// Both coordinates lie inside the world.
    pub open spec fn in_world(self) -> bool {
        &&& -WORLD_MAX <= self.x <= WORLD_MAX
        &&& -WORLD_MAX <= self.y <= WORLD_MAX
    }
}

impl Rect {
    /// The size is non-negative and at most `SIZE_MAX` on both axes.
    pub open spec fn sized(self) -> bool {
        &&& 0 <= self.w <= SIZE_MAX
        &&& 0 <= self.h <= SIZE_MAX
    }

    /// A valid rectangle whose corner lies inside the world.
    pub open spec fn in_world(self) -> bool {
        &&& self.sized()
        &&& -WORLD_MAX <= self.x <= WORLD_MAX
        &&& -WORLD_MAX <= self.y <= WORLD_MAX
    }

    /// A valid rectangle whose corner lies inside the field.
    pub open spec fn in_field(self) -> bool {
        &&& self.sized()
        &&& -FIELD_MAX <= self.x <= FIELD_MAX
        &&& -FIELD_MAX <= self.y <= FIELD_MAX
    }

    /// The x coordinate of the right edge.
    pub open spec fn right(self) -> int {
        self.x + self.w
    }

    /// The y coordinate of the bottom edge.
    pub open spec fn bottom(self) -> int {
        self.y + self.h
    }

    /// Twice the x coordinate of the centre.
    pub open spec fn centre2_x(self) -> int {
        2 * self.x + self.w
    }

    /// Twice the y coordinate of the centre.
    pub open spec fn centre2_y(self) -> int {
        2 * self.y + self.h
    }

    /// Width of the part shared with `other`; negative where the two are
    /// apart on the x axis.
    pub open spec fn overlap_w(self, other: Rect) -> int {
        min(self.right(), other.right()) - max(self.x as int, other.x as int)
    }

    /// Height of the part shared with `other`; negative where the two are
    /// apart on the y axis.
    pub open spec fn overlap_h(self, other: Rect) -> int {
        min(self.bottom(), other.bottom()) - max(self.y as int, other.y as int)
    }

    /// The two rectangles share at least a point. Rectangles that only
    /// touch along an edge or at a corner do meet.
    pub open spec fn meets(self, other: Rect) -> bool {
        self.overlap_w(other) >= 0 && self.overlap_h(other) >= 0
    }

    /// The rectangle shared with `other`, where the two meet.
    pub open spec fn overlap(self, other: Rect) -> Option<Rect> {
        if self.meets(other) {
            Some(
                Rect {
                    x: max(self.x as int, other.x as int) as i64,
                    y: max(self.y as int, other.y as int) as i64,
                    w: self.overlap_w(other) as i64,
                    h: self.overlap_h(other) as i64,
                },
            )
        } else {
            None
        }
    }

    /// The rectangle with its top-left corner at `(x, y)`, `w` wide and
    /// `h` tall.
    pub fn new(x: i64, y: i64, w: i64, h: i64) -> (rect: Rect)
        ensures
            rect == (Rect { x, y, w, h }),
    {
        Rect { x, y, w, h }
    }

    /// The rectangle shared by `self` and `other`, or `None` where they are
    /// apart. Rectangles that only touch share a rectangle without width
    /// or without height.
    pub fn intersect(&self, other: Rect) -> (shared: Option<Rect>)
        requires
            self.in_world(),
            other.in_world(),
        ensures
            shared == self.overlap(other),
            shared is Some <==> self.meets(other),
            shared is Some ==> {
                &&& shared->0.x == max(self.x as int, other.x as int)
                &&& shared->0.y == max(self.y as int, other.y as int)
                &&& shared->0.w == self.overlap_w(other)
                &&& shared->0.h == self.overlap_h(other)
                &&& shared->0.sized()
            },
    {
        let left: i64 = if self.x >= other.x { self.x } else { other.x };
        let top: i64 = if self.y >= other.y { self.y } else { other.y };
        let self_right: i64 = self.x + self.w;
        let other_right: i64 = other.x + other.w;
        let self_bottom: i64 = self.y + self.h;
        let other_bottom: i64 = other.y + other.h;
        let right: i64 = if self_right <= other_right { self_right } else { other_right };
        let bottom: i64 = if self_bottom <= other_bottom { self_bottom } else { other_bottom };
        if right < left || bottom < top {
            return None;
        }
        Some(Rect { x: left, y: top, w: right - left, h: bottom - top })
    }
}

} // verus!
