use crate::rational::Frac;
use vstd::prelude::*;

verus! {

/// A point in logical-unit space.
#[derive(Clone, Copy, Debug, PartialEq, Eq, Structural)]
pub struct Pos {
    pub x: Frac,
    pub y: Frac,
}

/// An axis-aligned rectangle in logical-unit space.
#[derive(Clone, Copy, Debug, PartialEq, Eq, Structural)]
pub struct Rect {
    pub min: Pos,
    pub max: Pos,
}

impl Pos {
    pub open spec fn wf(self) -> bool {
        self.x.wf() && self.y.wf()
    }

    pub fn new(x: Frac, y: Frac) -> (r: Pos)
        ensures
            r.x == x,
            r.y == y,
    {
        Pos { x, y }
    }
}

impl Rect {
    pub open spec fn wf(self) -> bool {
        self.min.wf() && self.max.wf()
    }

    /// The corners are ordered: `min` is to the upper left of `max`.
    pub open spec fn ordered(self) -> bool {
        self.min.x.le(self.max.x) && self.min.y.le(self.max.y)
    }

    pub fn new(min: Pos, max: Pos) -> (r: Rect)
        ensures
            r.min == min,
            r.max == max,
    {
        Rect { min, max }
    }
}

} // verus!
