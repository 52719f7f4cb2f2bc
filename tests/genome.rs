use evosim::chromosome::Chromosome;
use evosim::genome::{brain_topology, brain_weight_count, decode_genome, encode_genome, BODY_GENES};
use evosim::network::{count_weights, Activation, Network};

#[test]
fn brain_topology_follows_eye() {
    let topology = brain_topology(9);
    assert_eq!(topology.len(), 3);
    assert_eq!(topology[0].neurons, 9);
    assert_eq!(topology[0].activation, Activation::ReLU);
    assert_eq!(topology[1].neurons, 18);
    assert_eq!(topology[1].activation, Activation::ReLU);
    assert_eq!(topology[2].neurons, 2);
    assert_eq!(topology[2].activation, Activation::Tanh);
}

#[test]
fn brain_weight_count_is_computed_from_topology() {
    assert_eq!(brain_weight_count(9), 218);
    assert_eq!(brain_weight_count(1), 10);
    assert_eq!(brain_weight_count(0), 2);
    assert_eq!(brain_weight_count(4), count_weights(&brain_topology(4)));
}

#[test]
fn genome_round_trip() {
    let cells = 3;
    let n = brain_weight_count(cells);
    let brain_weights: Vec<f32> = (0..n).map(|i| i as f32 * 0.25 - 3.0).collect();
    let brain = Network::from_weights(&brain_topology(cells), &brain_weights);
    let body = Chromosome::new(vec![0.05, 2.5]);

    let genome = encode_genome(&brain, &body);
    assert_eq!(genome.len(), n + BODY_GENES);
    assert_eq!(genome.get(0), -3.0);
    assert_eq!(genome.get(n), 0.05);
    assert_eq!(genome.get(n + 1), 2.5);

    let (decoded_brain, decoded_body) = decode_genome(cells, genome);
    assert_eq!(decoded_brain.weights(), brain_weights);
    assert_eq!(decoded_body.genes(), body.genes());
}

#[test]
fn decode_splits_at_brain_weight_count() {
    let cells = 1;
    let genes: Vec<i32> = (0..12).collect();
    let (brain, body) = decode_genome(cells, Chromosome::new(genes));
    assert_eq!(brain.layers().len(), 2);
    assert_eq!(brain.weights(), (0..10).collect::<Vec<i32>>());
    assert_eq!(body.genes(), &vec![10, 11]);
}
