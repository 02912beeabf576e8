//! The genetic algorithm: fitness-proportionate selection, uniform
//! crossover and bounded per-gene mutation over opaque chromosomes.
//!
//! The algorithm never decodes a chromosome itself: `evolve` turns one
//! scored generation into the next generation's chromosomes and hands each
//! to the caller-supplied `Individual::create`.

use vstd::prelude::*;
use crate::chromosome::{Chromosome, chrom_wf};
use crate::fx::{in_range, mag, fx_add_spec, fx_mul, fx_add, lemma_fx_mul_mag, SCALE};
use crate::rng::{rng_below, rand_index, rand_in, coin};

verus! {

/// One scored member of a generation, as the algorithm sees it: a chromosome
/// and a non-negative integer fitness.
pub trait Individual: Sized {
    /// The genes this individual carries, as the contracts speak of them.
    spec fn chromosome_view(&self) -> Seq<i64>;

    /// The fitness this individual scored, as the contracts speak of it.
    spec fn fitness_view(&self) -> u64;

    fn chromosome(&self) -> (r: &Chromosome)
        ensures
            r.genes@ == self.chromosome_view(),
    ;

    fn fitness(&self) -> (r: u64)
        ensures
            r == self.fitness_view(),
    ;

    fn create(chromosome: Chromosome) -> (r: Self)
        requires
            chrom_wf(chromosome.genes@),
        ensures
            r.chromosome_view() == chromosome.genes@,
    ;
}

/// The fitness of each member of a population, in order.
pub open spec fn pop_fits<I: Individual>(pop: Seq<I>) -> Seq<u64> {
    Seq::new(pop.len(), |i: int| pop[i].fitness_view())
}

/// The sum of the first `k` fitness values.
pub open spec fn fit_sum(fs: Seq<u64>, k: int) -> int
    decreases k,
{
    if k <= 0 {
        0
    } else {
        fit_sum(fs, k - 1) + fs[k - 1]
    }
}

pub proof fn lemma_fit_sum_mono(fs: Seq<u64>, i: int, j: int)
    requires
        i <= j,
    ensures
        fit_sum(fs, i) <= fit_sum(fs, j),
    decreases j - i,
{
    if i < j {
        lemma_fit_sum_mono(fs, i, j - 1);
    }
}

/// How one member is chosen by a fitness-proportionate wheel: each member
/// owns the band `[fit_sum(..i), fit_sum(..i+1))` of the total, and the
/// uniform draw `u` picks the band it falls in, so the chance of member `i`
/// is `fitness_i / total`.
pub fn weighted_index(fitnesses: &Vec<u64>, u: u64) -> (idx: usize)
    requires
        fitnesses@.len() > 0,
        fit_sum(fitnesses@, fitnesses@.len() as int) <= u64::MAX,
        (u as int) < fit_sum(fitnesses@, fitnesses@.len() as int),
    ensures
        idx < fitnesses@.len(),
        fit_sum(fitnesses@, idx as int) <= u as int,
        (u as int) < fit_sum(fitnesses@, idx as int + 1),
{
    let n: usize = fitnesses.len();
    let mut acc: u64 = 0;
    for i in 0..n
        invariant
            n == fitnesses@.len(),
            n > 0,
            fit_sum(fitnesses@, n as int) <= u64::MAX,
            (u as int) < fit_sum(fitnesses@, n as int),
            acc as int == fit_sum(fitnesses@, i as int),
            fit_sum(fitnesses@, i as int) <= u as int,
    {
        proof {
            lemma_fit_sum_mono(fitnesses@, i as int + 1, n as int);
        }
        let acc2: u64 = acc + fitnesses[i];
        if u < acc2 {
            return i;
        }
        acc = acc2;
    }
    proof {
        assert(false);
    }
    0
}

/// A strategy that picks one member of a scored population, by index,
/// sampling with replacement. Fitness must matter: while any fitness is
/// positive, a zero-fitness member is never chosen.
pub trait SelectionMethod {
    fn select<I: Individual>(
        &self,
        rng: &mut rand_chacha::ChaCha8Rng,
        population: &Vec<I>,
    ) -> (r: usize)
        requires
            population@.len() > 0,
            fit_sum(pop_fits(population@), population@.len() as int) <= u64::MAX,
        ensures
            r < population@.len(),
            fit_sum(pop_fits(population@), population@.len() as int) > 0
                ==> population@[r as int].fitness_view() > 0,
    ;
}

/// Fitness-proportionate selection: the chance of a member is its share of
/// the population's total fitness; a population whose total fitness is zero
/// falls back to a uniform pick.
pub struct RouletteWheelSelection;

impl RouletteWheelSelection {
    pub fn new() -> (r: Self) {
        RouletteWheelSelection
    }
}

impl SelectionMethod for RouletteWheelSelection {
    fn select<I: Individual>(
        &self,
        rng: &mut rand_chacha::ChaCha8Rng,
        population: &Vec<I>,
    ) -> (r: usize) {
        let n: usize = population.len();
        let mut fitnesses: Vec<u64> = Vec::new();
        for i in 0..n
            invariant
                n == population@.len(),
                fitnesses@.len() == i,
                forall|k: int|
                    0 <= k < i ==> fitnesses@[k] == pop_fits(population@)[k],
        {
            let f: u64 = population[i].fitness();
            fitnesses.push(f);
        }
        proof {
            assert(fitnesses@ =~= pop_fits(population@));
        }
        let mut total: u64 = 0;
        for i in 0..n
            invariant
                n == fitnesses@.len(),
                fitnesses@ == pop_fits(population@),
                fit_sum(fitnesses@, n as int) <= u64::MAX,
                total as int == fit_sum(fitnesses@, i as int),
        {
            proof {
                lemma_fit_sum_mono(fitnesses@, i as int + 1, n as int);
            }
            total = total + fitnesses[i];
        }
        if total == 0 {
            rand_index(rng, n)
        } else {
            let u: u64 = rng_below(rng, total);
            let idx: usize = weighted_index(&fitnesses, u);
            proof {
                assert(fit_sum(fitnesses@, idx as int + 1) == fit_sum(fitnesses@, idx as int)
                    + fitnesses@[idx as int]);
                assert(fitnesses@[idx as int] > 0);
                assert(pop_fits(population@)[idx as int] == population@[idx as int].fitness_view());
            }
            idx
        }
    }
}

/// Uniform crossover: a child of the same length whose every gene comes from
/// one parent or the other, chosen by a fair coin per position.
pub struct UniformCrossover;

impl UniformCrossover {
    pub fn new() -> (r: Self) {
        UniformCrossover
    }

    pub fn crossover(
        &self,
        rng: &mut rand_chacha::ChaCha8Rng,
        a: &Chromosome,
        b: &Chromosome,
    ) -> (r: Chromosome)
        requires
            a.genes@.len() == b.genes@.len(),
        ensures
            r.genes@.len() == a.genes@.len(),
            forall|i: int|
                0 <= i < r.genes@.len() ==> #[trigger] r.genes@[i] == a.genes@[i] || r.genes@[i]
                    == b.genes@[i],
    {
        let n: usize = a.len();
        let mut genes: Vec<i64> = Vec::new();
        for i in 0..n
            invariant
                n == a.genes@.len(),
                n == b.genes@.len(),
                genes@.len() == i,
                forall|k: int|
                    0 <= k < i ==> #[trigger] genes@[k] == a.genes@[k] || genes@[k] == b.genes@[k],
        {
            let g: i64 = if coin(rng) {
                a.gene(i)
            } else {
                b.gene(i)
            };
            genes.push(g);
        }
        Chromosome { genes }
    }
}

/// A new gene value differs from the old one by a saturating shift of
/// magnitude at most `coeff`.
pub open spec fn perturbed_within(x_old: i64, x_new: i64, coeff: i64) -> bool {
    exists|d: int|
        mag(d) <= mag(coeff as int) && x_new == fx_add_spec(x_old as int, d)
}

/// Bounded per-gene mutation: with probability `chance` (a fixed-point value
/// in `[0, 1]`), a gene is shifted by a uniformly drawn perturbation of
/// magnitude at most `coefficient`, the shift saturating at the scalar cap.
pub struct GaussianMutation {
    pub chance: i64,
    pub coefficient: i64,
}

impl GaussianMutation {
    pub fn new(chance: i64, coefficient: i64) -> (r: Self)
        requires
            0 <= chance <= SCALE,
            in_range(coefficient as int),
        ensures
            r.chance == chance,
            r.coefficient == coefficient,
    {
        GaussianMutation { chance, coefficient }
    }

    pub fn mutate(&self, rng: &mut rand_chacha::ChaCha8Rng, c: &mut Chromosome)
        requires
            0 <= self.chance <= SCALE,
            in_range(self.coefficient as int),
            chrom_wf(old(c).genes@),
        ensures
            final(c).genes@.len() == old(c).genes@.len(),
            chrom_wf(final(c).genes@),
            self.chance == 0 ==> final(c).genes@ == old(c).genes@,
            forall|i: int|
                0 <= i < final(c).genes@.len() ==> perturbed_within(
                    old(c).genes@[i],
                    #[trigger] final(c).genes@[i],
                    self.coefficient,
                ),
    {
        let n: usize = c.len();
        let ghost orig: Seq<i64> = c.genes@;
        let ghost mut ds: Seq<int> = Seq::empty();
        for i in 0..n
            invariant
                n == orig.len(),
                c.genes@.len() == orig.len(),
                0 <= self.chance <= SCALE,
                in_range(self.coefficient as int),
                chrom_wf(orig),
                chrom_wf(c.genes@),
                forall|k: int| i <= k < orig.len() ==> #[trigger] c.genes@[k] == orig[k],
                self.chance == 0 ==> c.genes@ == orig,
                ds.len() == i,
                forall|k: int|
                    0 <= k < i ==> mag(#[trigger] ds[k]) <= mag(self.coefficient as int)
                        && c.genes@[k] == fx_add_spec(orig[k] as int, ds[k]),
        {
            let ghost before: Seq<i64> = c.genes@;
            let roll: i64 = rand_in(rng, 0, SCALE - 1);
            if roll < self.chance {
                let sign: i64 = if coin(rng) {
                    -1
                } else {
                    1
                };
                let u: i64 = rand_in(rng, 0, SCALE);
                let m: i64 = fx_mul(self.coefficient, u);
                let delta: i64 = if sign < 0 {
                    -m
                } else {
                    m
                };
                proof {
                    lemma_fx_mul_mag(self.coefficient as int, u as int);
                }
                let g: i64 = fx_add(c.gene(i), delta);
                c.set_gene(i, g);
                proof {
                    ds = ds.push(delta as int);
                    assert(c.genes@[i as int] == fx_add_spec(orig[i as int] as int, delta as int));
                    assert(mag(delta as int) <= mag(self.coefficient as int));
                }
            } else {
                proof {
                    ds = ds.push(0int);
                    assert(c.genes@[i as int] == fx_add_spec(orig[i as int] as int, 0)) by {
                        assert(in_range(orig[i as int] as int));
                    }
                }
            }
            proof {
                assert forall|k: int|
                    0 <= k < i + 1 implies mag(#[trigger] ds[k]) <= mag(self.coefficient as int)
                        && c.genes@[k] == fx_add_spec(orig[k] as int, ds[k]) by {
                    if k < i {
                        assert(before[k] == c.genes@[k]);
                    }
                }
            }
        }
        proof {
            assert(orig == old(c).genes@);
            assert forall|i: int|
                0 <= i < c.genes@.len() implies perturbed_within(
                    old(c).genes@[i],
                    #[trigger] c.genes@[i],
                    self.coefficient,
                ) by {
                assert(mag(ds[i]) <= mag(self.coefficient as int) && c.genes@[i] == fx_add_spec(
                    old(c).genes@[i] as int,
                    ds[i],
                ));
            }
        }
    }
}

/// A child gene at position `i` descends from some member of the old
/// population: it equals that member's gene at the same position, moved by
/// a saturating shift of magnitude at most `coeff`.
pub open spec fn gene_descends<I: Individual>(
    pop: Seq<I>,
    child: Seq<i64>,
    i: int,
    coeff: i64,
) -> bool {
    exists|p: int|
        0 <= p < pop.len() && perturbed_within(
            #[trigger] pop[p].chromosome_view()[i],
            child[i],
            coeff,
        )
}

/// A child was bred from the two population members `pa` and `pb`: every
/// gene is one parent's gene at the same position moved by a saturating
/// shift of magnitude at most `coeff`, and with a mutation chance of zero
/// every gene equals one parent's gene exactly.
pub open spec fn bred_from<I: Individual>(
    pop: Seq<I>,
    child: Seq<i64>,
    pa: int,
    pb: int,
    coeff: i64,
    chance: i64,
) -> bool {
    &&& 0 <= pa < pop.len()
    &&& 0 <= pb < pop.len()
    &&& forall|i: int|
        0 <= i < child.len() ==> ((perturbed_within(
            pop[pa].chromosome_view()[i],
            #[trigger] child[i],
            coeff,
        ) || perturbed_within(pop[pb].chromosome_view()[i], child[i], coeff)) && (chance == 0
            ==> child[i] == pop[pa].chromosome_view()[i] || child[i]
            == pop[pb].chromosome_view()[i]))
}

/// A child was bred from some one pair of population members.
pub open spec fn bred_from_some<I: Individual>(
    pop: Seq<I>,
    child: Seq<i64>,
    coeff: i64,
    chance: i64,
) -> bool {
    exists|pa: int, pb: int| #[trigger] bred_from(pop, child, pa, pb, coeff, chance)
}

/// The whole algorithm: a selection strategy plus the crossover and mutation
/// operators, applied slot by slot to breed the next generation.
pub struct GeneticAlgorithm<S> {
    pub selection_method: S,
    pub crossover_method: UniformCrossover,
    pub mutation_method: GaussianMutation,
}

impl<S: SelectionMethod> GeneticAlgorithm<S> {
    pub fn new(
        selection_method: S,
        crossover_method: UniformCrossover,
        mutation_method: GaussianMutation,
    ) -> (r: Self)
        requires
            0 <= mutation_method.chance <= SCALE,
            in_range(mutation_method.coefficient as int),
        ensures
            r.mutation_method == mutation_method,
    {
        GeneticAlgorithm { selection_method, crossover_method, mutation_method }
    }

    /// Breeds a population of the same size: for every slot, two parents are
    /// selected independently with replacement, their chromosomes crossed
    /// uniformly, the child mutated, and the caller's `create` turns the
    /// child chromosome back into a domain individual.
    pub fn evolve<I: Individual>(
        &self,
        rng: &mut rand_chacha::ChaCha8Rng,
        population: &Vec<I>,
    ) -> (r: Vec<I>)
        requires
            population@.len() > 0,
            0 <= self.mutation_method.chance <= SCALE,
            in_range(self.mutation_method.coefficient as int),
            forall|i: int|
                0 <= i < population@.len() ==> (#[trigger] population@[i]).chromosome_view().len()
                    == population@[0].chromosome_view().len(),
            forall|i: int|
                0 <= i < population@.len() ==> chrom_wf(
                    (#[trigger] population@[i]).chromosome_view(),
                ),
            fit_sum(pop_fits(population@), population@.len() as int) <= u64::MAX,
        ensures
            r@.len() == population@.len(),
            forall|i: int|
                0 <= i < r@.len() ==> (#[trigger] r@[i]).chromosome_view().len()
                    == population@[0].chromosome_view().len(),
            forall|i: int| 0 <= i < r@.len() ==> chrom_wf((#[trigger] r@[i]).chromosome_view()),
            forall|s: int, i: int|
                0 <= s < r@.len() && 0 <= i < r@[s].chromosome_view().len() ==> #[trigger] gene_descends(
                    population@,
                    r@[s].chromosome_view(),
                    i,
                    self.mutation_method.coefficient,
                ),
            forall|s: int|
                0 <= s < r@.len() ==> bred_from_some(
                    population@,
                    (#[trigger] r@[s]).chromosome_view(),
                    self.mutation_method.coefficient,
                    self.mutation_method.chance,
                ),
    {
        let n: usize = population.len();
        let mut out: Vec<I> = Vec::new();
        let ghost mut pairs: Seq<(int, int)> = Seq::empty();
        for slot in 0..n
            invariant
                pairs.len() == slot,
                forall|s: int|
                    0 <= s < slot ==> bred_from(
                        population@,
                        (#[trigger] out@[s]).chromosome_view(),
                        pairs[s].0,
                        pairs[s].1,
                        self.mutation_method.coefficient,
                        self.mutation_method.chance,
                    ),
                n == population@.len(),
                n > 0,
                0 <= self.mutation_method.chance <= SCALE,
                in_range(self.mutation_method.coefficient as int),
                forall|i: int|
                    0 <= i < population@.len() ==> (
                    #[trigger] population@[i]).chromosome_view().len()
                        == population@[0].chromosome_view().len(),
                forall|i: int|
                    0 <= i < population@.len() ==> chrom_wf(
                        (#[trigger] population@[i]).chromosome_view(),
                    ),
                fit_sum(pop_fits(population@), population@.len() as int) <= u64::MAX,
                out@.len() == slot,
                forall|i: int|
                    0 <= i < out@.len() ==> (#[trigger] out@[i]).chromosome_view().len()
                        == population@[0].chromosome_view().len(),
                forall|i: int|
                    0 <= i < out@.len() ==> chrom_wf((#[trigger] out@[i]).chromosome_view()),
                forall|s: int, i: int|
                    0 <= s < out@.len() && 0 <= i < out@[s].chromosome_view().len()
                        ==> #[trigger] gene_descends(
                        population@,
                        out@[s].chromosome_view(),
                        i,
                        self.mutation_method.coefficient,
                    ),
        {
            let ia: usize = self.selection_method.select(rng, population);
            let ib: usize = self.selection_method.select(rng, population);
            let parent_a: &Chromosome = population[ia].chromosome();
            let parent_b: &Chromosome = population[ib].chromosome();
            let ghost pa: Seq<i64> = parent_a.genes@;
            let ghost pb: Seq<i64> = parent_b.genes@;
            let mut child: Chromosome = self.crossover_method.crossover(rng, parent_a, parent_b);
            let ghost crossed: Seq<i64> = child.genes@;
            proof {
                assert(chrom_wf(child.genes@));
            }
            self.mutation_method.mutate(rng, &mut child);
            proof {
                assert forall|i: int|
                    0 <= i < child.genes@.len() implies gene_descends(
                        population@,
                        child.genes@,
                        i,
                        self.mutation_method.coefficient,
                    ) by {
                    assert(perturbed_within(
                        crossed[i],
                        child.genes@[i],
                        self.mutation_method.coefficient,
                    ));
                    if crossed[i] == pa[i] {
                        assert(population@[ia as int].chromosome_view()[i] == pa[i]);
                        assert(perturbed_within(
                            population@[ia as int].chromosome_view()[i],
                            child.genes@[i],
                            self.mutation_method.coefficient,
                        ));
                    } else {
                        assert(crossed[i] == pb[i]);
                        assert(population@[ib as int].chromosome_view()[i] == pb[i]);
                        assert(perturbed_within(
                            population@[ib as int].chromosome_view()[i],
                            child.genes@[i],
                            self.mutation_method.coefficient,
                        ));
                    }
                }
            }
            proof {
                pairs = pairs.push((ia as int, ib as int));
                assert forall|i: int|
                    0 <= i < child.genes@.len() implies ((perturbed_within(
                        population@[ia as int].chromosome_view()[i],
                        #[trigger] child.genes@[i],
                        self.mutation_method.coefficient,
                    ) || perturbed_within(
                        population@[ib as int].chromosome_view()[i],
                        child.genes@[i],
                        self.mutation_method.coefficient,
                    )) && (self.mutation_method.chance == 0 ==> child.genes@[i]
                        == population@[ia as int].chromosome_view()[i] || child.genes@[i]
                        == population@[ib as int].chromosome_view()[i])) by {
                    assert(perturbed_within(
                        crossed[i],
                        child.genes@[i],
                        self.mutation_method.coefficient,
                    ));
                    assert(crossed[i] == pa[i] || crossed[i] == pb[i]);
                    assert(pa[i] == population@[ia as int].chromosome_view()[i]);
                    assert(pb[i] == population@[ib as int].chromosome_view()[i]);
                    if self.mutation_method.chance == 0 {
                        assert(child.genes@ == crossed);
                    }
                }
                assert(bred_from(
                    population@,
                    child.genes@,
                    ia as int,
                    ib as int,
                    self.mutation_method.coefficient,
                    self.mutation_method.chance,
                ));
            }
            let ghost child_genes: Seq<i64> = child.genes@;
            let offspring: I = I::create(child);
            proof {
                assert(offspring.chromosome_view() == child_genes);
            }
            out.push(offspring);
        }
        proof {
            assert forall|s: int| 0 <= s < out@.len() implies bred_from_some(
                population@,
                (#[trigger] out@[s]).chromosome_view(),
                self.mutation_method.coefficient,
                self.mutation_method.chance,
            ) by {
                assert(bred_from(
                    population@,
                    out@[s].chromosome_view(),
                    pairs[s].0,
                    pairs[s].1,
                    self.mutation_method.coefficient,
                    self.mutation_method.chance,
                ));
            }
        }
        out
    }
}

} // verus!
