//! The simulation: one world, one genetic algorithm, one age counter.
//!
//! Each tick runs, in strict order, the feeding phase, the brain phase and
//! the movement phase, then advances the age; once the age exceeds the
//! configured generation length the whole population is evolved and the age
//! reset. Population size and food count never change.

use vstd::prelude::*;
use crate::fx::{SCALE, clamp_i64, clamp_spec, wrap1_spec, fx_mul, fx_mul_spec, wrap1, lemma_fx_mul_mag};
use crate::geom::{TURN, cos_fx, sin_fx, cos_spec, sin_spec};
use crate::config::{Config, config_wf};
use crate::world::{World, world_wf};
use crate::animal::{Animal, animal_wf};
use crate::food::{Food, food_wf};
use crate::eye::{tor_delta, tor_delta_spec, vision_of};
use crate::ga::{
    GeneticAlgorithm, RouletteWheelSelection, UniformCrossover, GaussianMutation, Individual,
    fit_sum, pop_fits, gene_descends, perturbed_within, bred_from, bred_from_some,
};
use crate::animal_individual::AnimalIndividual;
use crate::brain::{brain_widths, decode_speed, decode_rotation};
use crate::nn::{param_count, net_params, net_out};

verus! {

pub struct Simulation {
    pub config: Config,
    pub world: World,
    pub ga: GeneticAlgorithm<RouletteWheelSelection>,
    pub age: u64,
}

/// An animal's satiation can only have come from the feeding phases it has
/// lived through: at most one per food per tick of its generation.
pub open spec fn sat_ok(a: Animal, c: Config, age: int) -> bool {
    a.satiation as int <= age * (c.n_foods as int)
}

/// The simulation's standing invariant, between any two ticks.
pub open spec fn sim_wf(s: Simulation) -> bool {
    &&& config_wf(s.config)
    &&& world_wf(s.world, s.config)
    &&& s.age <= s.config.generation_length
    &&& s.ga.mutation_method.chance == s.config.mutation_chance
    &&& s.ga.mutation_method.coefficient == s.config.mutation_coeff
    &&& forall|i: int|
        0 <= i < s.world.animals@.len() ==> sat_ok(
            #[trigger] s.world.animals@[i],
            s.config,
            s.age as int,
        )
}

/// A gene of a new animal's brain descends from the brain of some animal of
/// the previous generation: same position in the parameter sequence, moved
/// at most by the mutation coefficient.
pub open spec fn brain_gene_descends(
    ancestors: Seq<Animal>,
    genes: Seq<i64>,
    i: int,
    coeff: i64,
) -> bool {
    exists|p: int|
        0 <= p < ancestors.len() && perturbed_within(
            #[trigger] net_params(ancestors[p].brain.nn)[i],
            genes[i],
            coeff,
        )
}

/// A new brain was bred from the brains of the two ancestors `pa` and
/// `pb`: every parameter is one ancestor's parameter at the same position
/// moved by a saturating shift of magnitude at most `coeff`, exactly equal
/// when the mutation chance is zero.
pub open spec fn brain_bred_from(
    ancestors: Seq<Animal>,
    genes: Seq<i64>,
    pa: int,
    pb: int,
    coeff: i64,
    chance: i64,
) -> bool {
    &&& 0 <= pa < ancestors.len()
    &&& 0 <= pb < ancestors.len()
    &&& forall|i: int|
        0 <= i < genes.len() ==> ((perturbed_within(
            net_params(ancestors[pa].brain.nn)[i],
            #[trigger] genes[i],
            coeff,
        ) || perturbed_within(net_params(ancestors[pb].brain.nn)[i], genes[i], coeff)) && (chance
            == 0 ==> genes[i] == net_params(ancestors[pa].brain.nn)[i] || genes[i] == net_params(
            ancestors[pb].brain.nn,
        )[i]))
}

/// A new brain was bred from some one pair of ancestors.
pub open spec fn brain_bred_from_some(
    ancestors: Seq<Animal>,
    genes: Seq<i64>,
    coeff: i64,
    chance: i64,
) -> bool {
    exists|pa: int, pb: int| #[trigger] brain_bred_from(ancestors, genes, pa, pb, coeff, chance)
}

/// What the feeding phase leaves of one animal: everything but the
/// satiation untouched, the satiation grown by at most one per food.
spec fn fed_rel(c: Config, a0: Animal, a1: Animal) -> bool {
    &&& a1.eye == a0.eye
    &&& a1.brain == a0.brain
    &&& a1.x == a0.x
    &&& a1.y == a0.y
    &&& a1.rotation == a0.rotation
    &&& a1.speed == a0.speed
    &&& a0.satiation <= a1.satiation
    &&& a1.satiation as int <= a0.satiation as int + c.n_foods as int
}

/// What the brain phase does to one animal against the given foods: speed
/// and heading updated by the decoded network response, all else untouched.
spec fn brained_rel(c: Config, foods: Seq<Food>, a0: Animal, a1: Animal) -> bool {
    let resp = net_out(
        a0.brain.nn,
        vision_of(a0.eye, a0.x as int, a0.y as int, a0.rotation as int, foods),
    );
    &&& a1.eye == a0.eye
    &&& a1.brain == a0.brain
    &&& a1.x == a0.x
    &&& a1.y == a0.y
    &&& a1.satiation == a0.satiation
    &&& a1.speed == clamp_spec(
        a0.speed + decode_speed(resp[0] as int, resp[1] as int, c.speed_accel as int),
        c.speed_min as int,
        c.speed_max as int,
    )
    &&& a1.rotation == wrap1_spec(
        a0.rotation + decode_rotation(resp[0] as int, resp[1] as int, c.rotation_accel as int),
        TURN as int,
    )
}

/// What the movement phase does to one animal: advance along the heading by
/// the speed and wrap, all else untouched.
spec fn moved_rel(a0: Animal, a1: Animal) -> bool {
    &&& a1.eye == a0.eye
    &&& a1.brain == a0.brain
    &&& a1.satiation == a0.satiation
    &&& a1.speed == a0.speed
    &&& a1.rotation == a0.rotation
    &&& a1.x == wrap1_spec(
        a0.x + fx_mul_spec(a0.speed as int, cos_spec(a0.rotation as int)),
        SCALE as int,
    )
    &&& a1.y == wrap1_spec(
        a0.y + fx_mul_spec(a0.speed as int, sin_spec(a0.rotation as int)),
        SCALE as int,
    )
}

/// One tick's effect on one animal, with `foods_after` the food positions
/// the brain phase saw — on a tick without a generational reset these are
/// the tick's final food positions. The eye and brain are untouched; the
/// satiation grows by at most one per food; the speed and heading are the
/// old ones moved by the decoded network response to the sensed vision; the
/// position advances along the new heading by the new speed and wraps.
pub open spec fn tick_rel(c: Config, foods_after: Seq<Food>, a0: Animal, a1: Animal) -> bool {
    let resp = net_out(
        a0.brain.nn,
        vision_of(a0.eye, a0.x as int, a0.y as int, a0.rotation as int, foods_after),
    );
    let s1 = clamp_spec(
        a0.speed + decode_speed(resp[0] as int, resp[1] as int, c.speed_accel as int),
        c.speed_min as int,
        c.speed_max as int,
    );
    let r1 = wrap1_spec(
        a0.rotation + decode_rotation(resp[0] as int, resp[1] as int, c.rotation_accel as int),
        TURN as int,
    );
    &&& a1.eye == a0.eye
    &&& a1.brain == a0.brain
    &&& a0.satiation <= a1.satiation
    &&& a1.satiation as int <= a0.satiation as int + c.n_foods as int
    &&& a1.speed == s1
    &&& a1.rotation == r1
    &&& a1.x == wrap1_spec(a0.x + fx_mul_spec(s1, cos_spec(r1)), SCALE as int)
    &&& a1.y == wrap1_spec(a0.y + fx_mul_spec(s1, sin_spec(r1)), SCALE as int)
}

/// An animal eats a food when the toroidal squared distance between them is
/// at most the eating radius squared.
pub open spec fn eats(a: Animal, f: Food, radius: i64) -> bool {
    let dx = tor_delta_spec(a.x as int, f.x as int);
    let dy = tor_delta_spec(a.y as int, f.y as int);
    dx * dx + dy * dy <= (radius as int) * (radius as int)
}

/// How many of the first `k` foods the animal eats.
pub open spec fn eaten_count(a: Animal, foods: Seq<Food>, radius: i64, k: int) -> int
    decreases k,
{
    if k <= 0 {
        0
    } else {
        eaten_count(a, foods, radius, k - 1) + if eats(a, foods[k - 1], radius) {
            1int
        } else {
            0int
        }
    }
}

/// The feeding phase for one animal: every food within the eating radius
/// (by toroidal squared distance) feeds it once and respawns elsewhere; the
/// satiation grows by exactly the number of foods eaten, and only eaten
/// foods move.
fn collisions_one(c: &Config, a: &mut Animal, foods: &mut Vec<Food>, rng: &mut rand_chacha::ChaCha8Rng)
    requires
        config_wf(*c),
        animal_wf(*old(a), *c),
        old(foods)@.len() == c.n_foods,
        forall|i: int| 0 <= i < old(foods)@.len() ==> food_wf(#[trigger] old(foods)@[i]),
        old(a).satiation as int + (c.n_foods as int) <= u64::MAX as int,
    ensures
        animal_wf(*final(a), *c),
        old(a).satiation <= final(a).satiation,
        final(a).satiation as int <= old(a).satiation as int + c.n_foods as int,
        final(a).satiation as int == old(a).satiation as int + eaten_count(
            *old(a),
            old(foods)@,
            c.food_radius,
            old(foods)@.len() as int,
        ),
        final(a).x == old(a).x,
        final(a).y == old(a).y,
        final(a).rotation == old(a).rotation,
        final(a).speed == old(a).speed,
        final(a).eye == old(a).eye,
        final(a).brain == old(a).brain,
        final(foods)@.len() == old(foods)@.len(),
        forall|i: int| 0 <= i < final(foods)@.len() ==> food_wf(#[trigger] final(foods)@[i]),
        forall|i: int|
            0 <= i < old(foods)@.len() && !eats(*old(a), #[trigger] old(foods)@[i], c.food_radius)
                ==> final(foods)@[i] == old(foods)@[i],
{
    let m: usize = foods.len();
    let ghost a0: Animal = *a;
    let ghost foods0: Seq<Food> = foods@;
    for fi in 0..m
        invariant
            config_wf(*c),
            m == foods@.len(),
            m == c.n_foods,
            m == foods0.len(),
            animal_wf(*a, *c),
            animal_wf(a0, *c),
            a.x == a0.x,
            a.y == a0.y,
            a.rotation == a0.rotation,
            a.speed == a0.speed,
            a.eye == a0.eye,
            a.brain == a0.brain,
            a0.satiation <= a.satiation,
            a.satiation as int <= a0.satiation as int + fi as int,
            a.satiation as int == a0.satiation as int + eaten_count(
                a0,
                foods0,
                c.food_radius,
                fi as int,
            ),
            a0.satiation as int + (c.n_foods as int) <= u64::MAX as int,
            forall|i: int| 0 <= i < foods@.len() ==> food_wf(#[trigger] foods@[i]),
            forall|i: int| fi <= i < m ==> #[trigger] foods@[i] == foods0[i],
            forall|i: int|
                0 <= i < fi && !eats(a0, #[trigger] foods0[i], c.food_radius) ==> foods@[i]
                    == foods0[i],
    {
        let dx: i64 = tor_delta(a.x, foods[fi].x);
        let dy: i64 = tor_delta(a.y, foods[fi].y);
        proof {
            assert(0 <= (dx as int) * (dx as int) <= 500_000int * 500_000int) by (nonlinear_arith)
                requires
                    -500_000 <= dx as int <= 500_000,
            ;
            assert(0 <= (dy as int) * (dy as int) <= 500_000int * 500_000int) by (nonlinear_arith)
                requires
                    -500_000 <= dy as int <= 500_000,
            ;
            assert(0 <= (c.food_radius as int) * (c.food_radius as int) <= (SCALE as int) * (
            SCALE as int)) by (nonlinear_arith)
                requires
                    0 < c.food_radius as int <= SCALE as int,
            ;
        }
        let sq: i64 = dx * dx + dy * dy;
        proof {
            assert(foods@[fi as int] == foods0[fi as int]);
            assert((sq <= c.food_radius * c.food_radius) == eats(
                a0,
                foods0[fi as int],
                c.food_radius,
            ));
        }
        if sq <= c.food_radius * c.food_radius {
            a.satiation = a.satiation + 1;
            let f = Food::random(rng);
            foods.set(fi, f);
        }
    }
}

/// The brain phase for one animal: sense, infer, and apply the speed and
/// rotation deltas; the speed stays clamped to the configured bounds, the
/// heading stays wrapped.
fn brains_one(c: &Config, a: &mut Animal, foods: &Vec<Food>)
    requires
        config_wf(*c),
        animal_wf(*old(a), *c),
        foods@.len() == c.n_foods,
        forall|i: int| 0 <= i < foods@.len() ==> food_wf(#[trigger] foods@[i]),
    ensures
        animal_wf(*final(a), *c),
        final(a).satiation == old(a).satiation,
        final(a).x == old(a).x,
        final(a).y == old(a).y,
        final(a).eye == old(a).eye,
        final(a).brain == old(a).brain,
        ({
            let resp = crate::nn::net_out(
                old(a).brain.nn,
                crate::eye::vision_of(
                    old(a).eye,
                    old(a).x as int,
                    old(a).y as int,
                    old(a).rotation as int,
                    foods@,
                ),
            );
            &&& final(a).speed == crate::fx::clamp_spec(
                old(a).speed + crate::brain::decode_speed(
                    resp[0] as int,
                    resp[1] as int,
                    c.speed_accel as int,
                ),
                c.speed_min as int,
                c.speed_max as int,
            )
            &&& final(a).rotation == crate::fx::wrap1_spec(
                old(a).rotation + crate::brain::decode_rotation(
                    resp[0] as int,
                    resp[1] as int,
                    c.rotation_accel as int,
                ),
                TURN as int,
            )
        }),
{
    let vision: Vec<i64> = a.eye.process_vision(a.x, a.y, a.rotation, foods);
    let deltas: (i64, i64) = a.brain.propagate(c, vision);
    a.speed = clamp_i64(a.speed + deltas.0, c.speed_min, c.speed_max);
    a.rotation = wrap1(a.rotation + deltas.1, TURN);
}

/// The movement phase for one animal: advance along the heading by the
/// speed, then wrap both coordinates back onto the torus.
fn movement_one(c: &Config, a: &mut Animal)
    requires
        config_wf(*c),
        animal_wf(*old(a), *c),
    ensures
        animal_wf(*final(a), *c),
        final(a).satiation == old(a).satiation,
        final(a).speed == old(a).speed,
        final(a).rotation == old(a).rotation,
        final(a).eye == old(a).eye,
        final(a).brain == old(a).brain,
        final(a).x == crate::fx::wrap1_spec(
            old(a).x + crate::fx::fx_mul_spec(
                old(a).speed as int,
                crate::geom::cos_spec(old(a).rotation as int),
            ),
            SCALE as int,
        ),
        final(a).y == crate::fx::wrap1_spec(
            old(a).y + crate::fx::fx_mul_spec(
                old(a).speed as int,
                crate::geom::sin_spec(old(a).rotation as int),
            ),
            SCALE as int,
        ),
        0 <= final(a).x < SCALE,
        0 <= final(a).y < SCALE,
{
    let ux: i64 = cos_fx(a.rotation);
    let uy: i64 = sin_fx(a.rotation);
    proof {
        lemma_fx_mul_mag(a.speed as int, ux as int);
        lemma_fx_mul_mag(a.speed as int, uy as int);
    }
    let dx: i64 = fx_mul(a.speed, ux);
    let dy: i64 = fx_mul(a.speed, uy);
    a.x = wrap1(a.x + dx, SCALE);
    a.y = wrap1(a.y + dy, SCALE);
}

impl Simulation {
    /// A fresh simulation: a randomized world, the configured genetic
    /// algorithm, age zero.
    pub fn random(config: Config, rng: &mut rand_chacha::ChaCha8Rng) -> (r: Self)
        requires
            config_wf(config),
        ensures
            sim_wf(r),
            r.config == config,
            r.age == 0,
    {
        let world = World::random(&config, rng);
        let ga = GeneticAlgorithm::new(
            RouletteWheelSelection::new(),
            UniformCrossover::new(),
            GaussianMutation::new(config.mutation_chance, config.mutation_coeff),
        );
        Simulation { config, world, ga, age: 0 }
    }

    /// Read-only view of the world, for a renderer or metrics collector.
    pub fn world(&self) -> (r: &World)
        ensures
            r == &self.world,
    {
        &self.world
    }

    /// One tick: feeding, brains, movement, in that order; then the age
    /// advances, and a finished generation is evolved. Population size and
    /// food count are invariant; on an ordinary tick every animal moves
    /// exactly as `tick_rel` states, and a tick that ends the generation
    /// replaces the population with fresh zero-satiation offspring.
    pub fn step(&mut self, rng: &mut rand_chacha::ChaCha8Rng)
        requires
            sim_wf(*old(self)),
        ensures
            sim_wf(*final(self)),
            final(self).config == old(self).config,
            final(self).world.animals@.len() == old(self).world.animals@.len(),
            final(self).world.foods@.len() == old(self).world.foods@.len(),
            forall|i: int|
                0 <= i < final(self).world.animals@.len() ==> {
                    let a = #[trigger] final(self).world.animals@[i];
                    0 <= a.x < SCALE && 0 <= a.y < SCALE
                },
            final(self).age as int == if old(self).age as int + 1 > old(
                self,
            ).config.generation_length as int {
                0int
            } else {
                old(self).age as int + 1
            },
            old(self).age as int + 1 <= old(self).config.generation_length as int ==> forall|
                k: int,
            |
                0 <= k < final(self).world.animals@.len() ==> tick_rel(
                    old(self).config,
                    final(self).world.foods@,
                    old(self).world.animals@[k],
                    #[trigger] final(self).world.animals@[k],
                ),
            old(self).age as int + 1 > old(self).config.generation_length as int ==> forall|
                k: int,
            |
                0 <= k < final(self).world.animals@.len() ==> (
                #[trigger] final(self).world.animals@[k]).satiation == 0,
            old(self).age as int + 1 > old(self).config.generation_length as int ==> forall|
                s: int,
            |
                0 <= s < final(self).world.animals@.len() ==> brain_bred_from_some(
                    old(self).world.animals@,
                    net_params((#[trigger] final(self).world.animals@[s]).brain.nn),
                    old(self).config.mutation_coeff,
                    old(self).config.mutation_chance,
                ),
    {
        let ghost c: Config = self.config;
        let n: usize = self.world.animals.len();
        let ghost age0: int = self.age as int;
        let ghost orig: Seq<Animal> = self.world.animals@;
        for ai in 0..n
            invariant
                self.config == c,
                config_wf(c),
                self.ga.mutation_method.chance == c.mutation_chance,
                self.ga.mutation_method.coefficient == c.mutation_coeff,
                self.age as int == age0,
                0 <= age0 <= c.generation_length as int,
                world_wf(self.world, c),
                n == self.world.animals@.len(),
                n == c.n_animals,
                orig.len() == n,
                forall|k: int|
                    0 <= k < n ==> (#[trigger] orig[k]).satiation as int <= age0 * (
                    c.n_foods as int),
                forall|j: int| 0 <= j < n - ai ==> #[trigger] self.world.animals@[j] == orig[j
                    + ai],
                forall|j: int|
                    n - ai <= j < n ==> fed_rel(c, orig[j - (n - ai)], #[trigger] self.world.animals@[j]),
                forall|k: int|
                    0 <= k < n - ai ==> (#[trigger] self.world.animals@[k]).satiation as int
                        <= age0 * (c.n_foods as int),
                forall|k: int|
                    n - ai <= k < n ==> (#[trigger] self.world.animals@[k]).satiation as int <= (
                    age0 + 1) * (c.n_foods as int),
        {
            proof {
                assert(self.age as int * (c.n_foods as int) <= 1_000_000int * 10_000int)
                    by (nonlinear_arith)
                    requires
                        0 <= self.age as int <= 1_000_000int,
                        0 <= c.n_foods as int <= 10_000int,
                ;
            }
            let mut a: Animal = self.world.animals.remove(0);
            proof {
                assert(a == orig[ai as int]);
            }
            collisions_one(&self.config, &mut a, &mut self.world.foods, rng);
            proof {
                assert(fed_rel(c, orig[ai as int], a));
                assert(a.satiation as int <= age0 * (c.n_foods as int) + c.n_foods as int);
                assert(age0 * (c.n_foods as int) + c.n_foods as int == (age0 + 1) * (
                c.n_foods as int)) by (nonlinear_arith);
            }
            self.world.animals.push(a);
        }
        let ghost mid1: Seq<Animal> = self.world.animals@;
        let ghost foods_mid: Seq<Food> = self.world.foods@;
        for ai in 0..n
            invariant
                self.config == c,
                config_wf(c),
                self.ga.mutation_method.chance == c.mutation_chance,
                self.ga.mutation_method.coefficient == c.mutation_coeff,
                self.age as int == age0,
                0 <= age0 <= c.generation_length as int,
                world_wf(self.world, c),
                n == self.world.animals@.len(),
                n == c.n_animals,
                orig.len() == n,
                mid1.len() == n,
                foods_mid == self.world.foods@,
                forall|k: int| 0 <= k < n ==> fed_rel(c, #[trigger] orig[k], mid1[k]),
                forall|j: int| 0 <= j < n - ai ==> #[trigger] self.world.animals@[j] == mid1[j
                    + ai],
                forall|j: int|
                    n - ai <= j < n ==> brained_rel(
                        c,
                        foods_mid,
                        mid1[j - (n - ai)],
                        #[trigger] self.world.animals@[j],
                    ),
                forall|k: int|
                    0 <= k < n ==> (#[trigger] mid1[k]).satiation as int <= (age0 + 1) * (
                    c.n_foods as int),
                forall|k: int|
                    0 <= k < n ==> (#[trigger] self.world.animals@[k]).satiation as int <= (age0
                        + 1) * (c.n_foods as int),
        {
            let mut a: Animal = self.world.animals.remove(0);
            proof {
                assert(a == mid1[ai as int]);
            }
            brains_one(&self.config, &mut a, &self.world.foods);
            proof {
                assert(brained_rel(c, foods_mid, mid1[ai as int], a));
            }
            self.world.animals.push(a);
        }
        let ghost mid2: Seq<Animal> = self.world.animals@;
        for ai in 0..n
            invariant
                self.config == c,
                config_wf(c),
                self.ga.mutation_method.chance == c.mutation_chance,
                self.ga.mutation_method.coefficient == c.mutation_coeff,
                self.age as int == age0,
                0 <= age0 <= c.generation_length as int,
                world_wf(self.world, c),
                n == self.world.animals@.len(),
                n == c.n_animals,
                orig.len() == n,
                mid1.len() == n,
                mid2.len() == n,
                foods_mid == self.world.foods@,
                forall|k: int| 0 <= k < n ==> fed_rel(c, #[trigger] orig[k], mid1[k]),
                forall|k: int|
                    0 <= k < n ==> brained_rel(c, foods_mid, #[trigger] mid1[k], mid2[k]),
                forall|j: int| 0 <= j < n - ai ==> #[trigger] self.world.animals@[j] == mid2[j
                    + ai],
                forall|j: int|
                    n - ai <= j < n ==> moved_rel(
                        mid2[j - (n - ai)],
                        #[trigger] self.world.animals@[j],
                    ),
                forall|k: int|
                    0 <= k < n ==> (#[trigger] self.world.animals@[k]).satiation as int <= (age0
                        + 1) * (c.n_foods as int),
        {
            let mut a: Animal = self.world.animals.remove(0);
            proof {
                assert(a == mid2[ai as int]);
            }
            movement_one(&self.config, &mut a);
            proof {
                assert(moved_rel(mid2[ai as int], a));
            }
            self.world.animals.push(a);
        }
        proof {
            assert forall|k: int| 0 <= k < n implies tick_rel(
                c,
                foods_mid,
                orig[k],
                #[trigger] self.world.animals@[k],
            ) by {
                assert(fed_rel(c, orig[k], mid1[k]));
                assert(brained_rel(c, foods_mid, mid1[k], mid2[k]));
                assert(moved_rel(mid2[k], self.world.animals@[k]));
            }
        }
        self.age = self.age + 1;
        if self.age > self.config.generation_length {
            let ghost pre: Seq<Animal> = self.world.animals@;
            self.evolve(rng);
            proof {
                assert forall|s: int|
                    0 <= s < self.world.animals@.len() implies brain_bred_from_some(
                    orig,
                    net_params((#[trigger] self.world.animals@[s]).brain.nn),
                    c.mutation_coeff,
                    c.mutation_chance,
                ) by {
                    let genes = net_params(self.world.animals@[s].brain.nn);
                    assert(brain_bred_from_some(pre, genes, c.mutation_coeff, c.mutation_chance));
                    let (pa, pb) = choose|pa: int, pb: int|
                        #[trigger] brain_bred_from(
                            pre,
                            genes,
                            pa,
                            pb,
                            c.mutation_coeff,
                            c.mutation_chance,
                        );
                    assert(tick_rel(c, foods_mid, orig[pa], pre[pa]));
                    assert(tick_rel(c, foods_mid, orig[pb], pre[pb]));
                    assert(pre[pa].brain == orig[pa].brain);
                    assert(pre[pb].brain == orig[pb].brain);
                    assert(brain_bred_from(orig, genes, pa, pb, c.mutation_coeff, c.mutation_chance));
                }
            }
        }
    }

    /// The generational reset: snapshot every animal as (chromosome,
    /// fitness), breed the next generation, decode it into fresh animals at
    /// random positions with zero satiation, and relocate every food.
    fn evolve(&mut self, rng: &mut rand_chacha::ChaCha8Rng)
        requires
            config_wf(old(self).config),
            world_wf(old(self).world, old(self).config),
            old(self).ga.mutation_method.chance == old(self).config.mutation_chance,
            old(self).ga.mutation_method.coefficient == old(self).config.mutation_coeff,
            forall|i: int|
                0 <= i < old(self).world.animals@.len() ==> (
                #[trigger] old(self).world.animals@[i]).satiation as int <= (
                old(self).config.generation_length as int + 1) * (old(self).config.n_foods as int),
        ensures
            sim_wf(*final(self)),
            final(self).config == old(self).config,
            final(self).age == 0,
            final(self).world.animals@.len() == old(self).world.animals@.len(),
            final(self).world.foods@.len() == old(self).world.foods@.len(),
            forall|i: int|
                0 <= i < final(self).world.animals@.len() ==> (
                #[trigger] final(self).world.animals@[i]).satiation == 0,
            forall|i: int|
                0 <= i < final(self).world.animals@.len() ==> (
                #[trigger] final(self).world.animals@[i]).speed == old(self).config.speed_init,
            forall|s: int, i: int|
                0 <= s < final(self).world.animals@.len() && 0 <= i < net_params(
                    final(self).world.animals@[s].brain.nn,
                ).len() ==> #[trigger] brain_gene_descends(
                    old(self).world.animals@,
                    net_params(final(self).world.animals@[s].brain.nn),
                    i,
                    old(self).config.mutation_coeff,
                ),
            forall|s: int|
                0 <= s < final(self).world.animals@.len() ==> brain_bred_from_some(
                    old(self).world.animals@,
                    net_params((#[trigger] final(self).world.animals@[s]).brain.nn),
                    old(self).config.mutation_coeff,
                    old(self).config.mutation_chance,
                ),
    {
        let ghost c: Config = self.config;
        let ghost ancestors: Seq<Animal> = self.world.animals@;
        self.age = 0;
        let n: usize = self.world.animals.len();
        let ghost pc: int = param_count(brain_widths(c));
        let mut individuals: Vec<AnimalIndividual> = Vec::new();
        for i in 0..n
            invariant
                self.config == c,
                config_wf(c),
                self.ga.mutation_method.chance == c.mutation_chance,
                self.ga.mutation_method.coefficient == c.mutation_coeff,
                self.age == 0,
                world_wf(self.world, c),
                n == self.world.animals@.len(),
                pc == param_count(brain_widths(c)),
                forall|k: int|
                    0 <= k < self.world.animals@.len() ==> (
                    #[trigger] self.world.animals@[k]).satiation as int <= (
                    c.generation_length as int + 1) * (c.n_foods as int),
                ancestors == self.world.animals@,
                individuals@.len() == i,
                forall|k: int|
                    0 <= k < i ==> (#[trigger] individuals@[k]).chromosome_view() == net_params(
                        ancestors[k].brain.nn,
                    ),
                forall|k: int|
                    0 <= k < i ==> (#[trigger] individuals@[k]).chromosome_view().len() == pc,
                forall|k: int|
                    0 <= k < i ==> crate::chromosome::chrom_wf(
                        (#[trigger] individuals@[k]).chromosome_view(),
                    ),
                forall|k: int|
                    0 <= k < i ==> (#[trigger] individuals@[k]).fitness_view() as int <= (
                    c.generation_length as int + 1) * (c.n_foods as int),
        {
            let ind = AnimalIndividual::from_animal(&self.config, &self.world.animals[i]);
            individuals.push(ind);
        }
        proof {
            let fs = pop_fits(individuals@);
            lemma_fit_sum_each_bounded(
                fs,
                individuals@.len() as int,
                (c.generation_length as int + 1) * (c.n_foods as int),
            );
            assert((individuals@.len() as int) * ((c.generation_length as int + 1) * (
            c.n_foods as int)) <= 10_000int * ((1_000_000int + 1) * 10_000int))
                by (nonlinear_arith)
                requires
                    0 <= individuals@.len() as int <= 10_000int,
                    1 <= c.generation_length as int <= 1_000_000int,
                    0 <= c.n_foods as int <= 10_000int,
            ;
        }
        let mut evolved: Vec<AnimalIndividual> = self.ga.evolve(rng, &individuals);
        let ghost pop0: Seq<AnimalIndividual> = individuals@;
        let ghost evolved0: Seq<AnimalIndividual> = evolved@;
        let mut new_animals: Vec<Animal> = Vec::new();
        let en: usize = evolved.len();
        for i in 0..en
            invariant
                self.config == c,
                config_wf(c),
                self.ga.mutation_method.chance == c.mutation_chance,
                self.ga.mutation_method.coefficient == c.mutation_coeff,
                self.age == 0,
                world_wf(self.world, c),
                en == c.n_animals,
                pc == param_count(brain_widths(c)),
                evolved@ == evolved0.skip(i as int),
                evolved0.len() == en,
                pop0 == individuals@,
                ancestors.len() == en,
                forall|k: int|
                    0 <= k < pop0.len() ==> (#[trigger] pop0[k]).chromosome_view() == net_params(
                        ancestors[k].brain.nn,
                    ),
                forall|s2: int, j: int|
                    0 <= s2 < evolved0.len() && 0 <= j < evolved0[s2].chromosome_view().len()
                        ==> #[trigger] gene_descends(
                        pop0,
                        evolved0[s2].chromosome_view(),
                        j,
                        self.ga.mutation_method.coefficient,
                    ),
                evolved@.len() == en - i,
                forall|k: int|
                    0 <= k < evolved@.len() ==> (#[trigger] evolved@[k]).chromosome_view().len()
                        == pc,
                forall|k: int|
                    0 <= k < evolved@.len() ==> crate::chromosome::chrom_wf(
                        (#[trigger] evolved@[k]).chromosome_view(),
                    ),
                forall|s2: int|
                    0 <= s2 < evolved0.len() ==> bred_from_some(
                        pop0,
                        (#[trigger] evolved0[s2]).chromosome_view(),
                        self.ga.mutation_method.coefficient,
                        self.ga.mutation_method.chance,
                    ),
                new_animals@.len() == i,
                forall|k: int| 0 <= k < i ==> animal_wf(#[trigger] new_animals@[k], c),
                forall|k: int| 0 <= k < i ==> (#[trigger] new_animals@[k]).satiation == 0,
                forall|k: int| 0 <= k < i ==> (#[trigger] new_animals@[k]).speed == c.speed_init,
                forall|k: int|
                    0 <= k < i ==> net_params((#[trigger] new_animals@[k]).brain.nn)
                        == evolved0[k].chromosome_view(),
        {
            let ind: AnimalIndividual = evolved.remove(0);
            proof {
                assert(ind == evolved0[i as int]);
            }
            let a: Animal = ind.into_animal(&self.config, rng);
            new_animals.push(a);
        }
        self.world.animals = new_animals;
        let m: usize = self.world.foods.len();
        for fi in 0..m
            invariant
                self.config == c,
                config_wf(c),
                self.ga.mutation_method.chance == c.mutation_chance,
                self.ga.mutation_method.coefficient == c.mutation_coeff,
                self.age == 0,
                m == self.world.foods@.len(),
                m == c.n_foods,
                self.world.animals@.len() == c.n_animals,
                forall|k: int| 0 <= k < self.world.animals@.len() ==> animal_wf(
                    #[trigger] self.world.animals@[k],
                    c,
                ),
                forall|k: int| 0 <= k < self.world.animals@.len() ==> (
                #[trigger] self.world.animals@[k]).satiation == 0,
                forall|k: int| 0 <= k < self.world.animals@.len() ==> (
                #[trigger] self.world.animals@[k]).speed == c.speed_init,
                forall|k: int| 0 <= k < self.world.foods@.len() ==> food_wf(
                    #[trigger] self.world.foods@[k],
                ),
                forall|s2: int|
                    0 <= s2 < evolved0.len() ==> bred_from_some(
                        pop0,
                        (#[trigger] evolved0[s2]).chromosome_view(),
                        self.ga.mutation_method.coefficient,
                        self.ga.mutation_method.chance,
                    ),
                ancestors.len() == c.n_animals,
                pop0.len() == c.n_animals,
                evolved0.len() == c.n_animals,
                forall|k: int|
                    0 <= k < pop0.len() ==> (#[trigger] pop0[k]).chromosome_view() == net_params(
                        ancestors[k].brain.nn,
                    ),
                forall|s2: int, j: int|
                    0 <= s2 < evolved0.len() && 0 <= j < evolved0[s2].chromosome_view().len()
                        ==> #[trigger] gene_descends(
                        pop0,
                        evolved0[s2].chromosome_view(),
                        j,
                        self.ga.mutation_method.coefficient,
                    ),
                forall|k: int|
                    0 <= k < self.world.animals@.len() ==> net_params(
                        (#[trigger] self.world.animals@[k]).brain.nn,
                    ) == evolved0[k].chromosome_view(),
        {
            let f = Food::random(rng);
            self.world.foods.set(fi, f);
        }
        proof {
            assert forall|i: int| 0 <= i < self.world.animals@.len() implies sat_ok(
                #[trigger] self.world.animals@[i],
                c,
                self.age as int,
            ) by {
                assert(self.world.animals@[i].satiation == 0);
            }
            assert forall|s: int, i: int|
                0 <= s < self.world.animals@.len() && 0 <= i < net_params(
                    self.world.animals@[s].brain.nn,
                ).len() implies #[trigger] brain_gene_descends(
                ancestors,
                net_params(self.world.animals@[s].brain.nn),
                i,
                c.mutation_coeff,
            ) by {
                let genes = net_params(self.world.animals@[s].brain.nn);
                assert(genes == evolved0[s].chromosome_view());
                assert(gene_descends(pop0, evolved0[s].chromosome_view(), i, c.mutation_coeff));
                let p = choose|p: int|
                    0 <= p < pop0.len() && perturbed_within(
                        #[trigger] pop0[p].chromosome_view()[i],
                        evolved0[s].chromosome_view()[i],
                        c.mutation_coeff,
                    );
                assert(pop0[p].chromosome_view() == net_params(ancestors[p].brain.nn));
                assert(0 <= p < ancestors.len() && perturbed_within(
                    net_params(ancestors[p].brain.nn)[i],
                    genes[i],
                    c.mutation_coeff,
                ));
            }
            assert forall|s: int| 0 <= s < self.world.animals@.len() implies brain_bred_from_some(
                ancestors,
                net_params((#[trigger] self.world.animals@[s]).brain.nn),
                c.mutation_coeff,
                c.mutation_chance,
            ) by {
                let genes = net_params(self.world.animals@[s].brain.nn);
                assert(genes == evolved0[s].chromosome_view());
                assert(bred_from_some(
                    pop0,
                    evolved0[s].chromosome_view(),
                    c.mutation_coeff,
                    c.mutation_chance,
                ));
                let (pa, pb) = choose|pa: int, pb: int|
                    #[trigger] bred_from(
                        pop0,
                        evolved0[s].chromosome_view(),
                        pa,
                        pb,
                        c.mutation_coeff,
                        c.mutation_chance,
                    );
                assert(pop0[pa].chromosome_view() == net_params(ancestors[pa].brain.nn));
                assert(pop0[pb].chromosome_view() == net_params(ancestors[pb].brain.nn));
                assert(brain_bred_from(
                    ancestors,
                    genes,
                    pa,
                    pb,
                    c.mutation_coeff,
                    c.mutation_chance,
                )) by {
                    assert forall|i: int|
                        0 <= i < genes.len() implies ((perturbed_within(
                            net_params(ancestors[pa].brain.nn)[i],
                            #[trigger] genes[i],
                            c.mutation_coeff,
                        ) || perturbed_within(
                            net_params(ancestors[pb].brain.nn)[i],
                            genes[i],
                            c.mutation_coeff,
                        )) && (c.mutation_chance == 0 ==> genes[i] == net_params(
                            ancestors[pa].brain.nn,
                        )[i] || genes[i] == net_params(ancestors[pb].brain.nn)[i])) by {
                        assert(perturbed_within(
                            pop0[pa].chromosome_view()[i],
                            genes[i],
                            c.mutation_coeff,
                        ) || perturbed_within(
                            pop0[pb].chromosome_view()[i],
                            genes[i],
                            c.mutation_coeff,
                        ));
                    }
                }
            }
        }
    }
}

/// A sum of values each at most `bound` is at most `k * bound`.
proof fn lemma_fit_sum_each_bounded(fs: Seq<u64>, k: int, bound: int)
    requires
        0 <= k <= fs.len(),
        forall|i: int| 0 <= i < fs.len() ==> (#[trigger] fs[i]) as int <= bound,
        bound >= 0,
    ensures
        fit_sum(fs, k) <= k * bound,
    decreases k,
{
    if k <= 0 {
        assert(fit_sum(fs, k) == 0);
        assert(k * bound == 0) by (nonlinear_arith)
            requires
                k == 0,
        ;
    } else {
        lemma_fit_sum_each_bounded(fs, k - 1, bound);
        assert((k - 1) * bound + bound == k * bound) by (nonlinear_arith);
    }
}

} // verus!
