use neural_network::{Layer, LayerTopology, Network, Neuron, NnError, RandomSource};
use rand::Rng;
use rand::SeedableRng;
use rand_chacha::ChaCha8Rng;

/// A reproducible random source: a seeded ChaCha stream, each draw
/// uniform over [-1.0, 1.0] and handed out as f32 bits.
struct SeededSource(ChaCha8Rng);

impl RandomSource for SeededSource {
    fn next_unit(&mut self) -> u32 {
        self.0.gen_range(-1.0f32..=1.0).to_bits()
    }
}

fn seeded() -> SeededSource {
    SeededSource(ChaCha8Rng::from_seed(Default::default()))
}

fn bits(v: &[f32]) -> Vec<u32> {
    v.iter().map(|x| x.to_bits()).collect()
}

/// Relative equality of two 32-bit floats:
/// equal, or within machine epsilon absolutely or relatively.
fn rel_eq(a: f32, b: f32) -> bool {
    if a == b {
        return true;
    }
    if a.is_infinite() || b.is_infinite() {
        return false;
    }
    let diff = (a - b).abs();
    if diff <= f32::EPSILON {
        return true;
    }
    diff <= f32::EPSILON * a.abs().max(b.abs())
}

fn assert_rel_eq(actual_bits: u32, expected: f32) {
    let a = f32::from_bits(actual_bits);
    assert!(rel_eq(a, expected), "{} vs {}", a, expected);
}

fn assert_rel_eq_slice(actual: &[u32], expected: &[f32]) {
    assert_eq!(actual.len(), expected.len());
    for i in 0..actual.len() {
        assert_rel_eq(actual[i], expected[i]);
    }
}

#[test]
fn test() {
    let mut rng = seeded();
    let network = Network::random(
        &mut rng,
        &vec![
            LayerTopology { neurons: 3 },
            LayerTopology { neurons: 2 },
            LayerTopology { neurons: 1 },
        ],
    )
    .unwrap();

    assert_eq!(network.layers.len(), 2);
    assert_eq!(network.layers[0].neurons.len(), 2);

    assert_rel_eq(network.layers[0].neurons[0].bias, -0.6255188);
    assert_rel_eq_slice(
        &network.layers[0].neurons[0].weights,
        &[0.67383957, 0.8181262, 0.26284897],
    );
    assert_rel_eq(network.layers[0].neurons[1].bias, 0.5238807);
    assert_rel_eq_slice(
        &network.layers[0].neurons[1].weights,
        &[-0.5351684, 0.069369555, -0.7648182],
    );

    assert_eq!(network.layers[1].neurons.len(), 1);
    assert_rel_eq_slice(&network.layers[1].neurons[0].weights, &[-0.48879623, -0.19277143]);
}

#[test]
fn lib_test() {
    let layers = (
        Layer::new(vec![
            Neuron::new(0.0f32.to_bits(), bits(&[-0.5, -0.4, -0.3])),
            Neuron::new(0.0f32.to_bits(), bits(&[-0.2, -0.1, 0.0])),
        ])
        .unwrap(),
        Layer::new(vec![Neuron::new(0.0f32.to_bits(), bits(&[-0.5, 0.5]))]).unwrap(),
    );
    let network = Network::new(vec![layers.0.clone(), layers.1.clone()]).unwrap();

    let actual = network.propagate(bits(&[0.5, 0.6, 0.7]));
    let expected = layers.1.propagate(&layers.0.propagate(&bits(&[0.5, 0.6, 0.7])));

    assert_eq!(actual.len(), expected.len());
    for i in 0..actual.len() {
        assert!(rel_eq(f32::from_bits(actual[i]), f32::from_bits(expected[i])));
    }
}

#[test]
fn seeded_construction_is_deterministic() {
    let topology = vec![LayerTopology { neurons: 3 }, LayerTopology { neurons: 2 }];
    let a = Network::random(&mut seeded(), &topology).unwrap();
    let b = Network::random(&mut seeded(), &topology).unwrap();
    assert_eq!(a.layers.len(), b.layers.len());
    for (la, lb) in a.layers.iter().zip(b.layers.iter()) {
        assert_eq!(la.neurons.len(), lb.neurons.len());
        for (na, nb) in la.neurons.iter().zip(lb.neurons.iter()) {
            assert_eq!(na.bias, nb.bias);
            assert_eq!(na.weights, nb.weights);
        }
    }
}

#[test]
fn shape_follows_topology() {
    let topology = vec![
        LayerTopology { neurons: 4 },
        LayerTopology { neurons: 3 },
        LayerTopology { neurons: 2 },
        LayerTopology { neurons: 1 },
    ];
    let network = Network::random(&mut seeded(), &topology).unwrap();
    assert_eq!(network.layers.len(), 3);
    for l in 0..3 {
        assert_eq!(network.layers[l].neurons.len(), topology[l + 1].neurons);
        for n in &network.layers[l].neurons {
            assert_eq!(n.weights.len(), topology[l].neurons);
        }
    }
}

#[test]
fn minimal_topology_boundary() {
    let topology = vec![LayerTopology { neurons: 1 }, LayerTopology { neurons: 1 }];
    // Draw order: the neuron's bias first, then its single weight.
    let draws = bits(&[-0.25, 0.75]);
    let network = Network::from_draws(&topology, &draws).unwrap();
    assert_eq!(network.layers.len(), 1);
    assert_eq!(network.layers[0].neurons.len(), 1);
    assert_eq!(network.layers[0].neurons[0].weights, bits(&[0.75]));
    assert_eq!(network.layers[0].neurons[0].bias, (-0.25f32).to_bits());

    let x = 0.5f32;
    let expected = (0.75f32 * x + -0.25f32).max(0.0);
    let out = network.propagate(bits(&[x]));
    assert_eq!(out, bits(&[expected]));

    // A negative weighted sum is rectified to zero.
    let clamped = network.propagate(bits(&[-1.0]));
    assert_eq!(clamped, bits(&[0.0]));
}

#[test]
fn degenerate_topology_is_rejected() {
    let r = Network::random(&mut seeded(), &vec![LayerTopology { neurons: 3 }]);
    assert!(matches!(r, Err(NnError::InvalidTopology)));
    let r = Network::from_draws(&vec![LayerTopology { neurons: 3 }], &vec![]);
    assert!(matches!(r, Err(NnError::InvalidTopology)));
}

#[test]
fn zero_width_topology_is_rejected() {
    let t = vec![LayerTopology { neurons: 3 }, LayerTopology { neurons: 0 }];
    let r = Network::random(&mut seeded(), &t);
    assert!(matches!(r, Err(NnError::InvalidTopology)));
}

#[test]
fn empty_layer_is_rejected() {
    assert!(matches!(Layer::new(vec![]), Err(NnError::InvalidTopology)));
}

#[test]
fn uneven_widths_are_rejected() {
    let r = Layer::new(vec![
        Neuron::new(0.0f32.to_bits(), bits(&[0.1, 0.2])),
        Neuron::new(0.0f32.to_bits(), bits(&[0.3])),
    ]);
    assert!(matches!(r, Err(NnError::InvalidTopology)));
}

#[test]
fn mismatched_chain_is_rejected() {
    let a = Layer::new(vec![
        Neuron::new(0.0f32.to_bits(), bits(&[0.1, 0.2])),
        Neuron::new(0.0f32.to_bits(), bits(&[0.3, 0.4])),
    ])
    .unwrap();
    // Expects three inputs, but the first layer yields two outputs.
    let b = Layer::new(vec![Neuron::new(0.0f32.to_bits(), bits(&[0.5, 0.6, 0.7]))]).unwrap();
    let r = Network::new(vec![a, b]);
    assert!(matches!(r, Err(NnError::InvalidTopology)));
}

#[test]
fn wrong_input_length_is_a_dimension_mismatch() {
    let network =
        Network::from_draws(
            &vec![LayerTopology { neurons: 2 }, LayerTopology { neurons: 1 }],
            &bits(&[0.0, 0.5, -0.5]),
        )
        .unwrap();
    let r = network.checked_propagate(bits(&[1.0]));
    assert!(matches!(r, Err(NnError::DimensionMismatch)));
    let ok = network.checked_propagate(bits(&[1.0, 2.0]));
    assert!(ok.is_ok());
}

#[test]
fn neuron_arithmetic_matches_hardware_floats() {
    let neuron = Neuron::new(0.125f32.to_bits(), bits(&[0.5, 0.25]));
    let out = neuron.propagate(&bits(&[0.3, 0.7]));
    let sum = 0.0f32 + 0.3f32 * 0.5f32 + 0.7f32 * 0.25f32;
    let expected = (0.125f32 + sum).max(0.0);
    assert_eq!(out, expected.to_bits());
}

#[test]
fn nan_input_is_rectified_to_zero() {
    let neuron = Neuron::new(0.0f32.to_bits(), bits(&[1.0]));
    let out = neuron.propagate(&vec![f32::NAN.to_bits()]);
    assert_eq!(out, 0.0f32.to_bits());
}

#[test]
fn negative_zero_input_yields_positive_zero() {
    let neuron = Neuron::new((-0.0f32).to_bits(), bits(&[1.0]));
    let out = neuron.propagate(&vec![(-0.0f32).to_bits()]);
    assert_eq!(out, 0.0f32.to_bits());
}

#[test]
fn outputs_are_never_negative() {
    let topology = vec![LayerTopology { neurons: 3 }, LayerTopology { neurons: 2 }];
    let network = Network::random(&mut seeded(), &topology).unwrap();
    let out = network.propagate(bits(&[-1.0, 2.5, -0.75]));
    for o in out {
        assert!(f32::from_bits(o) >= 0.0);
    }
}
