use vstd::prelude::*;
use crate::bounds::POS_LIMIT;
use crate::vector2::Vector2;

verus! {

/// An axis-aligned rectangle: `position` is the corner with the smallest
/// coordinates, and the rectangle spans `width` units of `x` and
/// `height` units of `y`.
///
/// Membership is taken on the closed extent
/// `[position.x, position.x + width] x [position.y, position.y + height]`;
/// the same convention is used everywhere in the crate.
#[derive(Debug, Clone, Copy, PartialEq, Eq, Structural)]
pub struct Rectangle {
    pub position: Vector2,
    pub width: u64,
    pub height: u64,
}

impl Rectangle {
    /// A usable rectangle: non-degenerate, and lying entirely within the
    /// coordinate band the arithmetic of the crate is sized for.
    pub open spec fn wf(self) -> bool {
        &&& 1 <= self.width
        &&& 1 <= self.height
        &&& -POS_LIMIT <= self.position.x
        &&& self.position.x + self.width <= POS_LIMIT
        &&& -POS_LIMIT <= self.position.y
        &&& self.position.y + self.height <= POS_LIMIT
    }

    /// Closed membership: `p` lies within the rectangle, boundary
    /// included.
    pub open spec fn contains(self, p: Vector2) -> bool {
        &&& self.position.x <= p.x <= self.position.x + self.width
        &&& self.position.y <= p.y <= self.position.y + self.height
    }

    /// The `x` coordinate of the center, rounding half units down.
    pub open spec fn center_x(self) -> int {
        self.position.x + self.width as int / 2
    }

    /// The `y` coordinate of the center, rounding half units down.
    pub open spec fn center_y(self) -> int {
        self.position.y + self.height as int / 2
    }

    pub fn new(position: Vector2, width: u64, height: u64) -> (r: Rectangle)
        ensures
            r.position == position,
            r.width == width,
            r.height == height,
    {
        Rectangle { position, width, height }
    }
}

} // verus!
