use evosim::chromosome::Chromosome;
use evosim::fx::SCALE;
use evosim::nn::{Layer, LayerTopology, Network, NetworkError, Neuron};
use rand::SeedableRng;
use rand_chacha::ChaCha8Rng;

#[test]
fn neuron_random_test() {
    let mut rng = ChaCha8Rng::from_seed(Default::default());
    let neuron = Neuron::random(&mut rng, 4);

    assert_eq!(neuron.weights.len(), 4);
    assert!(neuron.bias.abs() <= SCALE);
    for w in &neuron.weights {
        assert!(w.abs() <= SCALE);
    }

    // The stream is seeded: the same seed rebuilds the same neuron.
    let mut rng2 = ChaCha8Rng::from_seed(Default::default());
    let neuron2 = Neuron::random(&mut rng2, 4);
    assert_eq!(neuron.bias, neuron2.bias);
    assert_eq!(neuron.weights, neuron2.weights);
}

#[test]
fn neuron_propagate_test() {
    let neuron = Neuron { bias: 500_000, weights: vec![-300_000, 800_000] };

    // The ReLU clips a strongly negative sum to zero.
    assert_eq!(neuron.propagate(&vec![-10_000_000, -10_000_000]), 0);

    // (-0.3 * 0.5) + (0.8 * 1.0) + 0.5 = 1.15, exactly in fixed point.
    assert_eq!(neuron.propagate(&vec![500_000, 1_000_000]), 1_150_000);
}

#[test]
fn test_with_new() {
    let neuron = Neuron::new(500_000, vec![-300_000, 800_000]);
    assert_eq!(neuron.propagate(&vec![-10_000_000, -10_000_000]), 0);
    assert_eq!(neuron.propagate(&vec![500_000, 1_000_000]), 1_150_000);
}

#[test]
fn layer_propagate_test() {
    let layer = Layer::new(vec![
        Neuron::new(100_000, vec![200_000, 300_000]),
        Neuron::new(-100_000, vec![200_000, 300_000]),
    ]);

    let results = layer.propagate(&vec![500_000, 1_000_000]);
    assert_eq!(results, vec![500_000, 300_000]);
}

#[test]
fn network_propagate_test() {
    let network = Network::new(vec![
        Layer::new(vec![Neuron::new(100_000, vec![200_000, 300_000])]),
        Layer::new(vec![Neuron::new(500_000, vec![600_000])]),
    ]);

    let results = network.propagate(vec![200_000, 300_000]);
    assert_eq!(results, vec![638_000]);
}

#[test]
fn network_weights_test() {
    // Two single-neuron layers; flatten() lists bias then weights, neuron
    // by neuron, layer by layer.
    let network = Network::new(vec![
        Layer::new(vec![Neuron::new(100_000, vec![200_000, 300_000, 400_000])]),
        Layer::new(vec![Neuron::new(500_000, vec![600_000, 700_000, 800_000])]),
    ]);

    let actual = network.weights();
    let expected = vec![
        100_000, 200_000, 300_000, 400_000, 500_000, 600_000, 700_000, 800_000,
    ];
    assert_eq!(actual, expected);
}

fn topology() -> Vec<LayerTopology> {
    vec![
        LayerTopology { neurons: 2 },
        LayerTopology { neurons: 2 },
        LayerTopology { neurons: 1 },
    ]
}

#[test]
fn network_round_trip_test() {
    // 2-2-1 topology: 2*(2+1) + 1*(2+1) = 9 parameters.
    let genes: Vec<i64> = vec![
        100_000, 200_000, 300_000, -100_000, 400_000, -500_000, 250_000, 350_000, -450_000,
    ];
    let chromosome = Chromosome::new(genes.clone());

    let network = Network::from_weights(&topology(), &chromosome).unwrap();
    assert_eq!(network.weights(), genes);

    // The rebuilt network propagates exactly as the flattened one.
    let rebuilt = Network::from_weights(&topology(), &Chromosome::new(network.weights())).unwrap();
    let inputs = vec![700_000, -200_000];
    assert_eq!(network.propagate(inputs.clone()), rebuilt.propagate(inputs));
}

#[test]
fn network_propagate_length_test() {
    let mut rng = ChaCha8Rng::from_seed(Default::default());
    let network = Network::random(&topology(), &mut rng);
    let out = network.propagate(vec![123_456, -654_321]);
    assert_eq!(out.len(), 1);
}

#[test]
fn from_weights_rejects_bad_input_test() {
    let genes = Chromosome::new(vec![100_000; 8]);
    assert!(matches!(
        Network::from_weights(&topology(), &genes),
        Err(NetworkError::GeneCountMismatch)
    ));

    let short = vec![LayerTopology { neurons: 2 }];
    assert!(matches!(
        Network::from_weights(&short, &genes),
        Err(NetworkError::TopologyTooShort)
    ));

    let empty = vec![
        LayerTopology { neurons: 2 },
        LayerTopology { neurons: 0 },
        LayerTopology { neurons: 1 },
    ];
    assert!(matches!(
        Network::from_weights(&empty, &genes),
        Err(NetworkError::EmptyLayer)
    ));

    let nine = Chromosome::new(vec![100_000; 9]);
    assert!(Network::from_weights(&topology(), &nine).is_ok());
}
