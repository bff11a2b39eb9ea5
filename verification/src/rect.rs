//! Axis-aligned integer rectangles.

use vstd::prelude::*;

verus! {

/// A rectangle given by two corners, `(x1, y1)` and `(x2, y2)`.
#[derive(Clone, Copy, Debug, PartialEq, Eq, Structural)]
pub struct Rect {
    pub x1: i32,
    pub x2: i32,
    pub y1: i32,
    pub y2: i32,
}

impl Rect {
    /// The corners are ordered and lie in the non-negative quadrant.
    pub open spec fn wf(&self) -> bool {
        &&& 0 <= self.x1 < self.x2
        &&& 0 <= self.y1 < self.y2
    }

    /// The closed intervals of the two rectangles meet on both axes.
    pub open spec fn overlaps(&self, other: &Rect) -> bool {
        &&& self.x1 <= other.x2
        &&& self.x2 >= other.x1
        &&& self.y1 <= other.y2
        &&& self.y2 >= other.y1
    }

    /// The midpoint of the two corners, each coordinate rounded toward zero.
    pub open spec fn midpoint(&self) -> (int, int) {
        (half(self.x1 + self.x2), half(self.y1 + self.y2))
    }

    /// The rectangle with corner `(x, y)`, `w` wide and `h` high.
    pub fn new(x: i32, y: i32, w: i32, h: i32) -> (r: Rect)
        requires
            i32::MIN <= x + w <= i32::MAX,
            i32::MIN <= y + h <= i32::MAX,
        ensures
            r == (Rect { x1: x, x2: (x + w) as i32, y1: y, y2: (y + h) as i32 }),
            0 <= x && 0 < w && 0 <= y && 0 < h ==> r.wf(),
    {
        Rect { x1: x, y1: y, x2: x + w, y2: y + h }
    }

    /// Whether the two rectangles overlap; touching edges count.
    pub fn intersect(&self, other: &Rect) -> (b: bool)
        ensures
            b == self.overlaps(other),
    {
        self.x1 <= other.x2 && self.x2 >= other.x1 && self.y1 <= other.y2 && self.y2 >= other.y1
    }

    /// The center of the rectangle.
    pub fn center(&self) -> (c: (i32, i32))
        ensures
            c.0 == self.midpoint().0,
            c.1 == self.midpoint().1,
    {
        let sx: i64 = self.x1 as i64 + self.x2 as i64;
        let sy: i64 = self.y1 as i64 + self.y2 as i64;
        ((sx / 2) as i32, (sy / 2) as i32)
    }
}

/// Overlap does not depend on which rectangle is asked about the other.
pub proof fn lemma_overlaps_symmetric(a: Rect, b: Rect)
    ensures
        a.overlaps(&b) == b.overlaps(&a),
{
}

/// Half of `n`, rounded toward zero.
pub open spec fn half(n: int) -> int {
    if n >= 0 {
        n / 2
    } else {
        -((-n) / 2)
    }
}

} // verus!
