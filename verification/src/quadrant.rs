use vstd::prelude::*;

verus! {

/// One of the four equal spatial subdivisions of a rectangular region.
///
/// The child slots of a quad-tree node are laid out as
/// `NW | NE` over `SW | SE`, with north meaning the smaller `y`
/// coordinates (the layout the slot indices follow is
/// `0 | 1` over `2 | 3`).
#[derive(Debug, Clone, Copy, PartialEq, Eq, Structural)]
pub enum Quadrant {
    NW,
    NE,
    SW,
    SE,
}

impl Quadrant {
    /// The child-slot index that this quadrant selects in a quad-tree node.
    pub fn child_index(&self) -> (i: usize)
        ensures
            i == self.child_index_spec(),
    {
        match self {
            Quadrant::NW => 0,
            Quadrant::NE => 1,
            Quadrant::SW => 2,
            Quadrant::SE => 3,
        }
    }

    pub open spec fn child_index_spec(self) -> int {
        match self {
            Quadrant::NW => 0,
            Quadrant::NE => 1,
            Quadrant::SW => 2,
            Quadrant::SE => 3,
        }
    }
}

} // verus!
