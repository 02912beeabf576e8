//! A piece of food: a position on the unit torus, nothing more. Food is
//! never destroyed — when eaten it is relocated in place.

use vstd::prelude::*;
use crate::fx::SCALE;
use crate::rng::rand_coord;

verus! {

#[derive(Debug)]
pub struct Food {
    pub x: i64,
    pub y: i64,
}

/// A food's coordinates lie on the unit torus.
pub open spec fn food_wf(f: Food) -> bool {
    0 <= f.x < SCALE && 0 <= f.y < SCALE
}

impl Food {
    pub fn new(x: i64, y: i64) -> (r: Self)
        requires
            0 <= x < SCALE,
            0 <= y < SCALE,
        ensures
            r.x == x,
            r.y == y,
            food_wf(r),
    {
        Food { x, y }
    }

    /// A food anywhere on the plane, uniformly.
    pub fn random(rng: &mut rand_chacha::ChaCha8Rng) -> (r: Self)
        ensures
            food_wf(r),
    {
        let x: i64 = rand_coord(rng);
        let y: i64 = rand_coord(rng);
        Food { x, y }
    }

    pub fn position(&self) -> (r: (i64, i64))
        ensures
            r.0 == self.x,
            r.1 == self.y,
    {
        (self.x, self.y)
    }
}

} // verus!
