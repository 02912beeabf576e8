use evosim::chromosome::Chromosome;
use evosim::fx::{fx_mul, SCALE};
use evosim::ga::{
    GaussianMutation, GeneticAlgorithm, RouletteWheelSelection, SelectionMethod, UniformCrossover,
    weighted_index,
};
use evosim::ga::Individual;
use evosim::animal_individual::AnimalIndividual;
use rand::SeedableRng;
use rand_chacha::ChaCha8Rng;

fn individual(fitness: u64) -> AnimalIndividual {
    AnimalIndividual { fitness, chromosome: Chromosome { genes: vec![] } }
}

#[test]
fn selection_test() {
    let method = RouletteWheelSelection::new();
    let mut rng = ChaCha8Rng::from_seed(Default::default());

    let population = vec![individual(2), individual(1), individual(4), individual(3)];

    let mut histogram: [u64; 5] = [0; 5];
    for _ in 0..1000 {
        let idx = method.select(&mut rng, &population);
        let fitness = population[idx].fitness as usize;
        histogram[fitness] += 1;
    }

    // Frequencies must be near-proportional to fitness: expected
    // 100 / 200 / 300 / 400 out of 1000, each within a tolerance of 40.
    let expected: [u64; 5] = [0, 100, 200, 300, 400];
    for f in 1..5 {
        let got = histogram[f] as i64;
        let want = expected[f] as i64;
        assert!((got - want).abs() <= 40, "fitness {f}: got {got}, want about {want}");
    }

    // The stream is seeded, so the same run repeats exactly.
    let mut rng2 = ChaCha8Rng::from_seed(Default::default());
    let mut histogram2: [u64; 5] = [0; 5];
    for _ in 0..1000 {
        let idx = method.select(&mut rng2, &population);
        histogram2[population[idx].fitness as usize] += 1;
    }
    assert_eq!(histogram, histogram2);
}

#[test]
fn weighted_index_bands_test() {
    // Fitness [2, 1, 4, 3]: the wheel's bands are [0,2) [2,3) [3,7) [7,10).
    let fitnesses: Vec<u64> = vec![2, 1, 4, 3];
    assert_eq!(weighted_index(&fitnesses, 0), 0);
    assert_eq!(weighted_index(&fitnesses, 1), 0);
    assert_eq!(weighted_index(&fitnesses, 2), 1);
    assert_eq!(weighted_index(&fitnesses, 3), 2);
    assert_eq!(weighted_index(&fitnesses, 6), 2);
    assert_eq!(weighted_index(&fitnesses, 7), 3);
    assert_eq!(weighted_index(&fitnesses, 9), 3);
}

fn chromosome() -> Chromosome {
    Chromosome { genes: vec![3_000_000, 1_000_000, 2_000_000] }
}

#[test]
fn chromosome_len_test() {
    assert_eq!(chromosome().len(), 3);
}

#[test]
fn chromosome_iter_test() {
    let chromosome = chromosome();
    let genes = chromosome.to_vec();

    assert_eq!(genes.len(), 3);
    assert_eq!(genes[0], 3_000_000);
    assert_eq!(genes[1], 1_000_000);
    assert_eq!(genes[2], 2_000_000);
}

#[test]
fn chromosome_iter_mut_test() {
    let mut chromosome = chromosome();

    // Scale every gene by ten, in place.
    let ten = 10 * SCALE;
    for i in 0..chromosome.len() {
        let g = chromosome.gene(i);
        chromosome.set_gene(i, fx_mul(g, ten));
    }

    let genes = chromosome.to_vec();
    assert_eq!(genes.len(), 3);
    assert_eq!(genes[0], 30_000_000);
    assert_eq!(genes[1], 10_000_000);
    assert_eq!(genes[2], 20_000_000);
}

#[test]
fn chromosome_index_test() {
    let chromosome = Chromosome { genes: vec![3_000_000, 1_000_000, 2_000_000] };

    assert_eq!(chromosome.gene(0), 3_000_000);
    assert_eq!(chromosome.gene(1), 1_000_000);
    assert_eq!(chromosome.gene(2), 2_000_000);
}

#[test]
fn chromosome_from_iterator_test() {
    let chromosome = Chromosome::new(vec![3_000_000, 1_000_000, 2_000_000]);

    assert_eq!(chromosome.gene(0), 3_000_000);
    assert_eq!(chromosome.gene(1), 1_000_000);
    assert_eq!(chromosome.gene(2), 2_000_000);
}

#[test]
fn chromosome_into_iterator_test() {
    let chromosome = Chromosome { genes: vec![3_000_000, 1_000_000, 2_000_000] };

    let genes = chromosome.to_vec();

    assert_eq!(genes.len(), 3);
    assert_eq!(genes[0], 3_000_000);
    assert_eq!(genes[1], 1_000_000);
    assert_eq!(genes[2], 2_000_000);
}

#[test]
fn uniform_crossover_test() {
    let mut rng = ChaCha8Rng::from_seed(Default::default());
    let a = Chromosome { genes: vec![1_000_000, 2_000_000, 3_000_000] };
    let b = Chromosome { genes: vec![10_000_000, 20_000_000, 30_000_000] };

    let child = UniformCrossover::new().crossover(&mut rng, &a, &b);

    assert_eq!(child.len(), 3);
    for i in 0..3 {
        let g = child.gene(i);
        assert!(g == a.gene(i) || g == b.gene(i), "gene {i} came from neither parent");
    }
}

#[test]
fn gaussian_mutation_zero_chance_test() {
    let mut rng = ChaCha8Rng::from_seed(Default::default());
    let mut c = chromosome();
    let before = c.to_vec();

    GaussianMutation::new(0, 300_000).mutate(&mut rng, &mut c);

    assert_eq!(c.to_vec(), before);
}

#[test]
fn gaussian_mutation_full_chance_test() {
    let mut rng = ChaCha8Rng::from_seed(Default::default());
    let mut c = chromosome();
    let before = c.to_vec();

    GaussianMutation::new(SCALE, 300_000).mutate(&mut rng, &mut c);

    let after = c.to_vec();
    assert_eq!(after.len(), before.len());
    for i in 0..before.len() {
        assert_ne!(after[i], before[i], "gene {i} was not perturbed");
        assert!((after[i] - before[i]).abs() <= 300_000);
    }
}

#[test]
fn evolve_singleton_chance_zero_test() {
    // One individual, mutation chance zero: both selected parents are the
    // same animal, uniform crossover of identical chromosomes is the
    // identity, and chance-zero mutation is a no-op — the sole child
    // reproduces the parent's genes bit for bit.
    let mut rng = ChaCha8Rng::from_seed(Default::default());
    let ga = GeneticAlgorithm::new(
        RouletteWheelSelection::new(),
        UniformCrossover::new(),
        GaussianMutation::new(0, 300_000),
    );
    let population = vec![AnimalIndividual {
        fitness: 1,
        chromosome: Chromosome { genes: vec![1_000_000, -2_000_000, 3_000_000] },
    }];

    let next = ga.evolve(&mut rng, &population);

    assert_eq!(next.len(), 1);
    assert_eq!(next[0].chromosome().to_vec(), vec![1_000_000, -2_000_000, 3_000_000]);
}

#[test]
fn evolve_preserves_length_test() {
    let mut rng = ChaCha8Rng::from_seed(Default::default());
    let ga = GeneticAlgorithm::new(
        RouletteWheelSelection::new(),
        UniformCrossover::new(),
        GaussianMutation::new(10_000, 300_000),
    );
    let population = vec![
        AnimalIndividual { fitness: 2, chromosome: Chromosome { genes: vec![0, 0, 0] } },
        AnimalIndividual { fitness: 5, chromosome: Chromosome { genes: vec![9, 9, 9] } },
    ];

    let next = ga.evolve(&mut rng, &population);

    assert_eq!(next.len(), 2);
    for child in &next {
        assert_eq!(child.chromosome().len(), 3);
    }
}
