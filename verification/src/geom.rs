//! Integral screen geometry: points, sizes and rectangles.
//!
//! Coordinates are whole pixels. Well-formed sizes and rectangles keep their
//! extents and origins within `MAX_EXTENT`, which leaves all the arithmetic
//! of the mappings far from overflow; pointer positions themselves are
//! unrestricted, since a drag may leave the surface in any direction.

use vstd::prelude::*;

verus! {

/// Bound on origins and extents of well-formed rectangles and sizes.
pub const MAX_EXTENT: i64 = 1_000_000_000;

/// A position in pixels.
#[derive(Clone, Copy, Debug, PartialEq, Eq, Structural)]
pub struct Point {
    pub x: i64,
    pub y: i64,
}

/// An extent in pixels.
#[derive(Clone, Copy, Debug, PartialEq, Eq, Structural)]
pub struct Size {
    pub width: i64,
    pub height: i64,
}

/// An axis-aligned rectangle: origin and extent, in pixels.
#[derive(Clone, Copy, Debug, PartialEq, Eq, Structural)]
pub struct Rectangle {
    pub x: i64,
    pub y: i64,
    pub width: i64,
    pub height: i64,
}

impl Size {
    /// Nonnegative extents, within `MAX_EXTENT`.
    pub open spec fn wf(self) -> bool {
        0 <= self.width <= MAX_EXTENT && 0 <= self.height <= MAX_EXTENT
    }
}

impl Rectangle {
    /// Nonnegative extents and a bounded origin.
    pub open spec fn wf(self) -> bool {
        &&& 0 <= self.width <= MAX_EXTENT
        &&& 0 <= self.height <= MAX_EXTENT
        &&& -MAX_EXTENT <= self.x <= MAX_EXTENT
        &&& -MAX_EXTENT <= self.y <= MAX_EXTENT
    }

    /// Whether a point lies within the rectangle: the near edges count as
    /// inside, the far edges do not (a zero-extent rectangle contains
    /// nothing). Pointer clamping, by contrast, uses the closed interval.
    pub open spec fn spec_contains(self, p: Point) -> bool {
        self.x <= p.x < self.x + self.width && self.y <= p.y < self.y + self.height
    }

    /// Whether a point lies within the rectangle, far edges excluded.
    pub fn contains(&self, p: Point) -> (r: bool)
        requires
            self.wf(),
        ensures
            r == self.spec_contains(p),
    {
        self.x <= p.x && p.x < self.x + self.width && self.y <= p.y && p.y < self.y
            + self.height
    }
}

/// `x` forced into `[lo, hi]`; `lo` wins when the interval is empty.
pub open spec fn spec_clamp(x: int, lo: int, hi: int) -> int {
    if x < lo {
        lo
    } else if x > hi {
        hi
    } else {
        x
    }
}

/// The given point forced into a rectangle, coordinate by coordinate.
pub open spec fn spec_clamp_point(b: Rectangle, p: Point) -> Point {
    Point {
        x: spec_clamp(p.x as int, b.x as int, b.x + b.width) as i64,
        y: spec_clamp(p.y as int, b.y as int, b.y + b.height) as i64,
    }
}

/// Forces a coordinate into `[lo, hi]`.
pub fn clamp_i64(x: i64, lo: i64, hi: i64) -> (r: i64)
    requires
        lo <= hi,
    ensures
        r == spec_clamp(x as int, lo as int, hi as int),
{
    if x < lo {
        lo
    } else if x > hi {
        hi
    } else {
        x
    }
}

} // verus!
