//! The bridge between the simulation and the genetic algorithm: an animal
//! snapshotted as (chromosome, fitness), and decoded back into a fresh
//! animal at a generation boundary.

use vstd::prelude::*;
use crate::geom::TURN;
use crate::chromosome::{Chromosome, chrom_wf};
use crate::ga::Individual;
use crate::animal::{Animal, animal_wf};
use crate::brain::{Brain, brain_widths};
use crate::config::{Config, config_wf};
use crate::eye::Eye;
use crate::nn::{net_params, param_count};
use crate::rng::{rand_coord, rand_in};

verus! {

pub struct AnimalIndividual {
    pub fitness: u64,
    pub chromosome: Chromosome,
}

impl Individual for AnimalIndividual {
    open spec fn chromosome_view(&self) -> Seq<i64> {
        self.chromosome.genes@
    }

    open spec fn fitness_view(&self) -> u64 {
        self.fitness
    }

    fn chromosome(&self) -> (r: &Chromosome) {
        &self.chromosome
    }

    fn fitness(&self) -> (r: u64) {
        self.fitness
    }

    fn create(chromosome: Chromosome) -> (r: Self) {
        AnimalIndividual { fitness: 0, chromosome }
    }
}

impl AnimalIndividual {
    /// Snapshots an animal: its brain flattened to the chromosome, its
    /// satiation as the fitness.
    pub fn from_animal(c: &Config, a: &Animal) -> (r: Self)
        requires
            config_wf(*c),
            animal_wf(*a, *c),
        ensures
            r.chromosome.genes@ == net_params(a.brain.nn),
            r.chromosome.genes@.len() == param_count(brain_widths(*c)),
            chrom_wf(r.chromosome.genes@),
            r.fitness == a.satiation,
    {
        let chromosome = a.brain.as_chromosome();
        AnimalIndividual { fitness: a.satiation, chromosome }
    }

    /// Decodes the chromosome into a fresh animal: the evolved brain, a new
    /// random position and heading, the configured initial speed, and
    /// satiation reset to zero.
    pub fn into_animal(self, c: &Config, rng: &mut rand_chacha::ChaCha8Rng) -> (r: Animal)
        requires
            config_wf(*c),
            chrom_wf(self.chromosome.genes@),
            self.chromosome.genes@.len() == param_count(brain_widths(*c)),
        ensures
            animal_wf(r, *c),
            r.satiation == 0,
            r.speed == c.speed_init,
            net_params(r.brain.nn) == self.chromosome.genes@,
    {
        let brain: Brain = match Brain::from_chromosome(c, &self.chromosome) {
            Ok(b) => b,
            Err(_) => {
                proof {
                    assert(false);
                }
                unreached()
            },
        };
        let eye = Eye::new(c.eye_fov_range, c.eye_fov_angle, c.eye_cells);
        let x: i64 = rand_coord(rng);
        let y: i64 = rand_coord(rng);
        let rotation: i64 = rand_in(rng, 0, TURN - 1);
        Animal { x, y, rotation, speed: c.speed_init, eye, brain, satiation: 0 }
    }
}

} // verus!
