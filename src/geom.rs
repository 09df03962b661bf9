//! Integer geometry. A length is measured in sub-pixels, `SUBPIXELS` of them to a
//! pixel; time is measured in microseconds; a speed is given in pixels per second,
//! so that a speed times a duration is exactly a length in sub-pixels.
use vstd::prelude::*;

verus! {

/// Sub-pixels in one pixel.
pub const SUBPIXELS: i64 = 1_000_000;

/// Largest magnitude of a coordinate that the game logic accepts as a position.
pub const COORD_LIMIT: i64 = 1_000_000_000_000_000;

/// A point or a displacement, in sub-pixels.
#[derive(Clone, Copy, Debug, PartialEq, Eq, Structural)]
pub struct Vec2i {
    pub x: i64,
    pub y: i64,
}

/// A coordinate that stays well away from the ends of `i64`.
pub open spec fn coord_ok(c: int) -> bool {
    -COORD_LIMIT <= c <= COORD_LIMIT
}

impl Vec2i {
    pub open spec fn in_bounds(self) -> bool {
        coord_ok(self.x as int) && coord_ok(self.y as int)
    }

    pub fn new(x: i64, y: i64) -> (r: Vec2i)
        ensures
            r.x == x,
            r.y == y,
    {
        Vec2i { x, y }
    }
}

/// An axis-aligned rectangle: `x`, `y` is its top-left corner, `w`, `h` its size.
#[derive(Clone, Copy, Debug, PartialEq, Eq, Structural)]
pub struct Rect {
    pub x: i64,
    pub y: i64,
    pub w: i64,
    pub h: i64,
}

impl Rect {
    /// The corner is in bounds and the size is not negative nor larger than the bounds.
    pub open spec fn wf(self) -> bool {
        coord_ok(self.x as int) && coord_ok(self.y as int) && 0 <= self.w <= COORD_LIMIT && 0
            <= self.h <= COORD_LIMIT
    }

    /// Left and top edges are inside, right and bottom edges are outside.
    pub open spec fn holds(self, p: Vec2i) -> bool {
        self.x <= p.x < self.x + self.w && self.y <= p.y < self.y + self.h
    }

    pub fn new(x: i64, y: i64, w: i64, h: i64) -> (r: Rect)
        ensures
            r == (Rect { x, y, w, h }),
    {
        Rect { x, y, w, h }
    }

    pub fn contains(&self, p: Vec2i) -> (r: bool)
        requires
            self.wf(),
        ensures
            r == self.holds(p),
    {
        p.x >= self.x && p.x < self.x + self.w && p.y < self.y + self.h && p.y >= self.y
    }
}

} // verus!
