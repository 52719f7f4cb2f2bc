use evosim::selection::RouletteWheelSelection;
use rand::SeedableRng;
use rand_chacha::ChaCha8Rng;
use std::collections::BTreeMap;

#[test]
fn roulette_wheel_draws_in_proportion_to_fitness() {
    let method = RouletteWheelSelection::new();
    let mut rng = ChaCha8Rng::from_seed(Default::default());

    let population: Vec<u64> = vec![1, 2, 3, 4];

    let mut actual_histogram: BTreeMap<u64, i32> = BTreeMap::new();
    for _ in 0..1000 {
        let chosen = method.select(&mut rng, &population);
        *actual_histogram.entry(population[chosen]).or_default() += 1;
    }

    // Close to 1:2:3:4 ...
    for (&fitness, &count) in &actual_histogram {
        assert!((count - 100 * fitness as i32).abs() <= 15, "{:?}", actual_histogram);
    }

    // ... and the same counts on every run with this seed.
    let expected_histogram: BTreeMap<u64, i32> =
        [(1, 95), (2, 194), (3, 310), (4, 401)].into_iter().collect();

    assert_eq!(actual_histogram, expected_histogram);
}

#[test]
fn select_never_picks_zero_fitness() {
    let mut rng = ChaCha8Rng::from_seed(Default::default());
    let fitness: Vec<u64> = vec![0, 5, 0, 0];
    for _ in 0..100 {
        assert_eq!(RouletteWheelSelection::new().select(&mut rng, &fitness), 1);
    }
}

#[test]
fn select_takes_the_largest_total() {
    let mut rng = ChaCha8Rng::from_seed(Default::default());
    let fitness: Vec<u64> = vec![u64::MAX - 1, 1];
    let chosen = RouletteWheelSelection::new().select(&mut rng, &fitness);
    assert!(chosen < 2);
}
