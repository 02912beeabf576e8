//! The world: the fixed-size animal population and the fixed-size food
//! supply, both living on the unit torus.

use vstd::prelude::*;
use crate::animal::{Animal, animal_wf};
use crate::food::{Food, food_wf};
use crate::config::{Config, config_wf};

verus! {

#[derive(Debug)]
pub struct World {
    pub animals: Vec<Animal>,
    pub foods: Vec<Food>,
}

/// A world is sound under a configuration: the configured number of sound
/// animals and the configured number of foods on the torus.
pub open spec fn world_wf(w: World, c: Config) -> bool {
    &&& w.animals@.len() == c.n_animals
    &&& w.foods@.len() == c.n_foods
    &&& forall|i: int| 0 <= i < w.animals@.len() ==> animal_wf(#[trigger] w.animals@[i], c)
    &&& forall|i: int| 0 <= i < w.foods@.len() ==> food_wf(#[trigger] w.foods@[i])
}

impl World {
    /// A freshly randomized world: every animal and every food placed
    /// uniformly, all satiation zero.
    pub fn random(c: &Config, rng: &mut rand_chacha::ChaCha8Rng) -> (r: Self)
        requires
            config_wf(*c),
        ensures
            world_wf(r, *c),
            forall|i: int| 0 <= i < r.animals@.len() ==> (#[trigger] r.animals@[i]).satiation == 0,
    {
        let mut animals: Vec<Animal> = Vec::new();
        let n: usize = c.n_animals;
        for i in 0..n
            invariant
                config_wf(*c),
                animals@.len() == i,
                forall|k: int| 0 <= k < i ==> animal_wf(#[trigger] animals@[k], *c),
                forall|k: int| 0 <= k < i ==> (#[trigger] animals@[k]).satiation == 0,
        {
            let a = Animal::random(c, rng);
            animals.push(a);
        }
        let mut foods: Vec<Food> = Vec::new();
        let m: usize = c.n_foods;
        for i in 0..m
            invariant
                foods@.len() == i,
                forall|k: int| 0 <= k < i ==> food_wf(#[trigger] foods@[k]),
        {
            let f = Food::random(rng);
            foods.push(f);
        }
        World { animals, foods }
    }

    /// Read access for an external renderer or metrics collector.
    pub fn animals(&self) -> (r: &Vec<Animal>)
        ensures
            r == &self.animals,
    {
        &self.animals
    }

    pub fn foods(&self) -> (r: &Vec<Food>)
        ensures
            r == &self.foods,
    {
        &self.foods
    }
}

} // verus!
