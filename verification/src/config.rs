//! The embedder-supplied configuration: every tunable of the simulation in
//! one explicit structure, never a hidden constant. Scalars are fixed-point
//! millionths (`fx`), angles are turn units (`geom`).

use vstd::prelude::*;
use crate::fx::{SCALE, CAP};
use crate::geom::TURN;

verus! {

#[derive(Clone, Copy, Debug)]
pub struct Config {
    /// Ticks per generation: evolution fires once `age` exceeds this.
    pub generation_length: u64,
    /// Population size, constant across the run.
    pub n_animals: usize,
    /// Food count, constant across the run.
    pub n_foods: usize,
    /// The eye's sensing range, in world units.
    pub eye_fov_range: i64,
    /// The eye's angular aperture, in turn units.
    pub eye_fov_angle: i64,
    /// The eye's angular resolution.
    pub eye_cells: usize,
    /// Width of the network's hidden layer.
    pub brain_neurons: usize,
    /// Slowest an animal may move.
    pub speed_min: i64,
    /// Fastest an animal may move.
    pub speed_max: i64,
    /// Speed a fresh animal starts with.
    pub speed_init: i64,
    /// Largest speed change one tick may apply.
    pub speed_accel: i64,
    /// Largest heading change one tick may apply, in turn units.
    pub rotation_accel: i64,
    /// Probability that one gene mutates, in `[0, SCALE]`.
    pub mutation_chance: i64,
    /// Largest magnitude of one mutation step.
    pub mutation_coeff: i64,
    /// Distance at which an animal eats a food.
    pub food_radius: i64,
}

/// The bounds a usable configuration must satisfy. They keep every quantity
/// in the fixed-point range, every topology width positive, and the total
/// fitness of a generation within `u64`.
pub open spec fn config_wf(c: Config) -> bool {
    &&& 1 <= c.generation_length <= 1_000_000
    &&& 1 <= c.n_animals <= 10_000
    &&& c.n_foods <= 10_000
    &&& 0 < c.eye_fov_range <= SCALE
    &&& 0 < c.eye_fov_angle <= TURN
    &&& 1 <= c.eye_cells <= 1000
    &&& 1 <= c.brain_neurons <= 1000
    &&& 0 < c.speed_min
    &&& c.speed_min <= c.speed_init
    &&& c.speed_init <= c.speed_max
    &&& c.speed_max <= SCALE
    &&& 0 <= c.speed_accel <= SCALE
    &&& 0 <= c.rotation_accel <= TURN
    &&& 0 <= c.mutation_chance <= SCALE
    &&& 0 <= c.mutation_coeff <= CAP
    &&& 0 < c.food_radius <= SCALE
}

impl Config {
    /// A configuration in the spirit of the classic run: a 0.25-range,
    /// 225-degree, nine-cell eye, an eighteen-neuron hidden layer, speeds in
    /// [0.001, 0.005], a quarter-turn steering limit, one percent mutation
    /// at strength 0.3, and 2500-tick generations.
    pub fn standard() -> (r: Config)
        ensures
            config_wf(r),
            r.generation_length == 2500,
            r.n_animals == 40,
            r.n_foods == 60,
            r.eye_fov_range == 250_000,
            r.eye_fov_angle == 625_000,
            r.eye_cells == 9,
            r.brain_neurons == 18,
            r.speed_min == 1_000,
            r.speed_max == 5_000,
            r.speed_init == 2_000,
            r.speed_accel == 200_000,
            r.rotation_accel == 250_000,
            r.mutation_chance == 10_000,
            r.mutation_coeff == 300_000,
            r.food_radius == 10_000,
    {
        Config {
            generation_length: 2500,
            n_animals: 40,
            n_foods: 60,
            eye_fov_range: 250_000,
            eye_fov_angle: 625_000,
            eye_cells: 9,
            brain_neurons: 18,
            speed_min: 1_000,
            speed_max: 5_000,
            speed_init: 2_000,
            speed_accel: 200_000,
            rotation_accel: 250_000,
            mutation_chance: 10_000,
            mutation_coeff: 300_000,
            food_radius: 10_000,
        }
    }
}

} // verus!
