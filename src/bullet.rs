//! A bare projectile that flies a fixed distance per frame in its direction.
use vstd::prelude::*;
use crate::geom::Vec2i;

verus! {

/// Facing right.
pub const DIRECTION_RIGHT: bool = true;

/// Facing left.
pub const DIRECTION_LEFT: bool = false;

/// Distance flown per frame, in sub-pixels.
pub const STEP: i64 = 10_000_000;

pub struct Bullet {
    pub pos: Vec2i,
    pub direction: bool,
}

impl Bullet {
    pub fn new(x: i64, y: i64, direction: bool) -> (r: Bullet)
        ensures
            r.pos == (Vec2i { x, y }),
            r.direction == direction,
    {
        Bullet { pos: Vec2i { x, y }, direction }
    }

    /// Moves one step to the right or to the left.
    pub fn update(&mut self)
        requires
            i64::MIN + STEP <= old(self).pos.x <= i64::MAX - STEP,
        ensures
            final(self).direction == old(self).direction,
            final(self).pos.y == old(self).pos.y,
            final(self).pos.x == if old(self).direction == DIRECTION_RIGHT {
                old(self).pos.x + STEP
            } else {
                old(self).pos.x - STEP
            },
    {
        if self.direction == DIRECTION_RIGHT {
            self.pos.x = self.pos.x + STEP;
        } else {
            self.pos.x = self.pos.x - STEP;
        }
    }
}

} // verus!
