//! An animal: a position and heading on the unit torus, a clamped speed, an
//! eye, a brain, and the satiation counter that becomes its fitness.

use vstd::prelude::*;
use crate::fx::SCALE;
use crate::geom::TURN;
use crate::eye::{Eye, eye_wf};
use crate::brain::{Brain, brain_wf};
use crate::config::{Config, config_wf};
use crate::rng::{rand_coord, rand_in};

verus! {

#[derive(Debug)]
pub struct Animal {
    pub x: i64,
    pub y: i64,
    pub rotation: i64,
    pub speed: i64,
    pub eye: Eye,
    pub brain: Brain,
    pub satiation: u64,
}

/// The eye an animal must carry under a configuration.
pub open spec fn eye_matches(e: Eye, c: Config) -> bool {
    &&& e.fov_range == c.eye_fov_range
    &&& e.fov_angle == c.eye_fov_angle
    &&& e.cells == c.eye_cells
}

/// An animal is sound under a configuration: coordinates on the torus,
/// heading in `[0, TURN)`, speed within the configured bounds, the
/// configured eye, and a brain of the configured topology.
pub open spec fn animal_wf(a: Animal, c: Config) -> bool {
    &&& 0 <= a.x < SCALE
    &&& 0 <= a.y < SCALE
    &&& 0 <= a.rotation < TURN
    &&& c.speed_min <= a.speed <= c.speed_max
    &&& eye_matches(a.eye, c)
    &&& eye_wf(a.eye)
    &&& brain_wf(a.brain, c)
}

impl Animal {
    /// A fresh animal: random position and heading, the configured initial
    /// speed, the configured eye, a randomly weighted brain, and zero
    /// satiation.
    pub fn random(c: &Config, rng: &mut rand_chacha::ChaCha8Rng) -> (r: Self)
        requires
            config_wf(*c),
        ensures
            animal_wf(r, *c),
            r.satiation == 0,
            r.speed == c.speed_init,
    {
        let eye = Eye::new(c.eye_fov_range, c.eye_fov_angle, c.eye_cells);
        let brain = Brain::random(c, rng);
        let x: i64 = rand_coord(rng);
        let y: i64 = rand_coord(rng);
        let rotation: i64 = rand_in(rng, 0, TURN - 1);
        Animal { x, y, rotation, speed: c.speed_init, eye, brain, satiation: 0 }
    }

    pub fn position(&self) -> (r: (i64, i64))
        ensures
            r.0 == self.x,
            r.1 == self.y,
    {
        (self.x, self.y)
    }

    pub fn rotation(&self) -> (r: i64)
        ensures
            r == self.rotation,
    {
        self.rotation
    }

    pub fn satiation(&self) -> (r: u64)
        ensures
            r == self.satiation,
    {
        self.satiation
    }
}

} // verus!
