use vstd::prelude::*;

verus! {

/// A terminal viewport: the full drawable area for one tick, in character
/// cells. Recreated every tick from the terminal's reported size.
#[derive(Clone, Copy, PartialEq, Eq, Structural, Debug)]
pub struct Viewport {
    pub width: u16,
    pub height: u16,
}

/// Screen orientation, derived from the viewport each tick: `Portrait` when
/// the viewport is strictly taller than wide, `Landscape` otherwise.
#[derive(Clone, Copy, PartialEq, Eq, Structural, Debug)]
pub enum Orientation {
    Portrait,
    Landscape,
}

/// The axis along which a rectangle is subdivided: `Vertical` stacks children
/// top to bottom (splitting the height), `Horizontal` places them side by
/// side (splitting the width).
#[derive(Clone, Copy, PartialEq, Eq, Structural, Debug)]
pub enum Direction {
    Horizontal,
    Vertical,
}

/// A rectangle on the viewport, assigned to exactly one panel for one tick.
#[derive(Clone, Copy, PartialEq, Eq, Structural, Debug)]
pub struct Region {
    pub x: u16,
    pub y: u16,
    pub width: u16,
    pub height: u16,
}

pub open spec fn spec_orientation(v: Viewport) -> Orientation {
    if v.width < v.height {
        Orientation::Portrait
    } else {
        Orientation::Landscape
    }
}

/// Classifies a viewport: `Portrait` iff it is strictly taller than wide.
pub fn orientation_of(v: Viewport) -> (r: Orientation)
    ensures
        r == spec_orientation(v),
{
    if v.width < v.height {
        Orientation::Portrait
    } else {
        Orientation::Landscape
    }
}

impl Viewport {
    /// The region covering the whole viewport, anchored at the origin.
    pub fn full_region(&self) -> (r: Region)
        ensures
            r == (Region { x: 0, y: 0, width: self.width, height: self.height }),
    {
        Region { x: 0, y: 0, width: self.width, height: self.height }
    }
}

} // verus!
