//! Where a signature is drawn on its page.
use vstd::prelude::*;

verus! {

/// Largest magnitude of a coordinate, in thousandths of a point.
pub const COORDINATE_LIMIT: i64 = 1_000_000_000_000;

/// A rectangle on a page, its corners in thousandths of a point.
#[derive(Debug, Clone, Copy, PartialEq, Eq, Structural)]
pub struct Rectangle {
    pub x1: i64,
    pub y1: i64,
    pub x2: i64,
    pub y2: i64,
}

impl Rectangle {
    /// The corners are ordered and the coordinates lie within the limit.
    pub open spec fn wf(&self) -> bool {
        &&& -COORDINATE_LIMIT <= self.x1 < self.x2 <= COORDINATE_LIMIT
        &&& -COORDINATE_LIMIT <= self.y1 < self.y2 <= COORDINATE_LIMIT
    }

    /// Whether the corners are ordered and within the limit.
    pub fn is_valid(&self) -> (r: bool)
        ensures
            r == self.wf(),
    {
        -COORDINATE_LIMIT <= self.x1 && self.x1 < self.x2 && self.x2 <= COORDINATE_LIMIT
            && -COORDINATE_LIMIT <= self.y1 && self.y1 < self.y2 && self.y2 <= COORDINATE_LIMIT
    }

    /// Width, in thousandths.
    pub fn width(&self) -> (r: i64)
        requires
            self.wf(),
        ensures
            r == self.x2 - self.x1,
            r > 0,
    {
        self.x2 - self.x1
    }

    /// Height, in thousandths.
    pub fn height(&self) -> (r: i64)
        requires
            self.wf(),
        ensures
            r == self.y2 - self.y1,
            r > 0,
    {
        self.y2 - self.y1
    }
}

} // verus!
