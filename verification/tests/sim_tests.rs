use evosim::brain::Brain;
use evosim::chromosome::Chromosome;
use evosim::config::Config;
use evosim::eye::Eye;
use evosim::food::Food;
use evosim::fx::SCALE;
use evosim::geom::{cos_fx, sin_fx, TURN};
use evosim::sim::Simulation;
use rand::SeedableRng;
use rand_chacha::ChaCha8Rng;

fn eye() -> Eye {
    // Range 0.25, aperture 225 degrees (0.625 of a turn), nine cells.
    Eye::new(250_000, 625_000, 9)
}

#[test]
fn eye_food_straight_ahead_test() {
    // Animal at the centre facing along +x; food 0.1 ahead: only the
    // central cell (index 4 of 9) lights up, with (0.25-0.1)/0.25 = 0.6.
    let foods = vec![Food::new(600_000, 500_000)];
    let vision = eye().process_vision(500_000, 500_000, 0, &foods);

    assert_eq!(vision.len(), 9);
    for (i, v) in vision.iter().enumerate() {
        if i == 4 {
            assert_eq!(*v, 600_000);
        } else {
            assert_eq!(*v, 0);
        }
    }
}

#[test]
fn eye_food_out_of_range_test() {
    // Food 0.4 away with range 0.25: every cell stays dark.
    let foods = vec![Food::new(900_000, 500_000)];
    let vision = eye().process_vision(500_000, 500_000, 0, &foods);
    assert_eq!(vision, vec![0; 9]);
}

#[test]
fn eye_food_outside_aperture_test() {
    // Food 0.2 behind the animal: inside the range, outside the 225-degree
    // aperture, so every cell stays dark.
    let foods = vec![Food::new(300_000, 500_000)];
    let vision = eye().process_vision(500_000, 500_000, 0, &foods);
    assert_eq!(vision, vec![0; 9]);
}

#[test]
fn eye_wraps_around_the_torus_test() {
    // Animal near the left edge facing -x; the food near the right edge is
    // 0.1 away across the boundary, straight ahead.
    let foods = vec![Food::new(950_000, 500_000)];
    let vision = eye().process_vision(50_000, 500_000, 500_000, &foods);

    assert_eq!(vision.len(), 9);
    for (i, v) in vision.iter().enumerate() {
        if i == 4 {
            assert_eq!(*v, 600_000);
        } else {
            assert_eq!(*v, 0);
        }
    }
}

#[test]
fn eye_contributions_accumulate_test() {
    // Two foods straight ahead map to the same cell and their
    // contributions sum without normalization.
    let foods = vec![Food::new(600_000, 500_000), Food::new(700_000, 500_000)];
    let vision = eye().process_vision(500_000, 500_000, 0, &foods);
    assert_eq!(vision[4], 600_000 + 200_000);
}

fn small_config() -> Config {
    let mut c = Config::standard();
    c.generation_length = 5;
    c.n_animals = 3;
    c.n_foods = 5;
    c
}

#[test]
fn simulation_invariants_test() {
    let mut rng = ChaCha8Rng::from_seed(Default::default());
    let mut sim = Simulation::random(small_config(), &mut rng);

    // Twenty ticks cross several generation boundaries (length 5); the
    // population size, food count and coordinate ranges never change.
    for _ in 0..20 {
        sim.step(&mut rng);

        let world = sim.world();
        assert_eq!(world.animals().len(), 3);
        assert_eq!(world.foods().len(), 5);
        for a in world.animals().iter() {
            let (x, y) = a.position();
            assert!(0 <= x && x < SCALE);
            assert!(0 <= y && y < SCALE);
            let r = a.rotation();
            assert!(0 <= r && r < TURN);
        }
        for f in world.foods().iter() {
            let (x, y) = f.position();
            assert!(0 <= x && x < SCALE);
            assert!(0 <= y && y < SCALE);
        }
    }
}

#[test]
fn simulation_deterministic_test() {
    // Two simulations driven by identically seeded streams stay identical.
    let mut rng1 = ChaCha8Rng::from_seed(Default::default());
    let mut rng2 = ChaCha8Rng::from_seed(Default::default());
    let mut sim1 = Simulation::random(small_config(), &mut rng1);
    let mut sim2 = Simulation::random(small_config(), &mut rng2);

    for _ in 0..12 {
        sim1.step(&mut rng1);
        sim2.step(&mut rng2);
    }

    let (w1, w2) = (sim1.world(), sim2.world());
    for (a1, a2) in w1.animals().iter().zip(w2.animals().iter()) {
        assert_eq!(a1.position(), a2.position());
        assert_eq!(a1.rotation(), a2.rotation());
        assert_eq!(a1.satiation(), a2.satiation());
    }
    for (f1, f2) in w1.foods().iter().zip(w2.foods().iter()) {
        assert_eq!(f1.position(), f2.position());
    }
}

#[test]
fn sine_cosine_axes_test() {
    // The fixed-point sine and cosine are exact on the axes.
    assert_eq!(sin_fx(0), 0);
    assert_eq!(sin_fx(250_000), 1_000_000);
    assert_eq!(sin_fx(500_000), 0);
    assert_eq!(sin_fx(750_000), -1_000_000);
    assert_eq!(cos_fx(0), 1_000_000);
    assert_eq!(cos_fx(250_000), 0);
    assert_eq!(cos_fx(500_000), -1_000_000);
}

#[test]
fn brain_decode_test() {
    // A 1-1-2 network chosen so the raw outputs are the input itself and a
    // constant 0.5: with input 0.6 the decoded deltas are
    // speed = (0.6-0.5) + (0.5-0.5) = 0.1 and rotation = 0.1 - 0.0 = 0.1.
    let mut c = Config::standard();
    c.eye_cells = 1;
    c.brain_neurons = 1;

    let genes = vec![
        0, 1_000_000, // hidden neuron: bias 0, weight 1
        0, 1_000_000, // first output: bias 0, weight 1
        500_000, 0, // second output: bias 0.5, weight 0
    ];
    let brain = Brain::from_chromosome(&c, &Chromosome::new(genes)).unwrap();

    let (speed_delta, rotation_delta) = brain.propagate(&c, vec![600_000]);
    assert_eq!(speed_delta, 100_000);
    assert_eq!(rotation_delta, 100_000);
}

#[test]
fn simulation_standard_config_test() {
    let mut rng = ChaCha8Rng::from_seed(Default::default());
    let mut sim = Simulation::random(Config::standard(), &mut rng);
    sim.step(&mut rng);
    assert_eq!(sim.world().animals().len(), 40);
    assert_eq!(sim.world().foods().len(), 60);
}
