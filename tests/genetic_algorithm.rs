use evosim::chromosome::Chromosome;
use evosim::crossover::UniformCrossover;
use evosim::genetic_algorithm::{GeneticAlgorithm, MutationMethod};
use evosim::selection::RouletteWheelSelection;
use rand::{Rng, SeedableRng};
use rand_chacha::ChaCha8Rng;

struct GaussianMutation {
    rate: f32,
    factor: f32,
}

impl MutationMethod<f32> for GaussianMutation {
    fn mutate(&self, rng: &mut ChaCha8Rng, child: &mut Chromosome<f32>) {
        for i in 0..child.len() {
            let sign = if rng.gen_bool(0.5) { -1.0 } else { 1.0 };
            if rng.gen_bool(self.rate as _) {
                child.set(i, child.get(i) + sign * self.factor * rng.gen::<f32>());
            }
        }
    }
}

struct KeepGenes;

impl MutationMethod<f32> for KeepGenes {
    fn mutate(&self, _rng: &mut ChaCha8Rng, _child: &mut Chromosome<f32>) {}
}

fn relative_eq(a: &[f32], b: &[f32]) -> bool {
    approx::RelativeEq::relative_eq(a, b, f32::EPSILON, f32::EPSILON)
}

fn individual(genes: &[f32]) -> Chromosome<f32> {
    Chromosome::new(genes.to_vec())
}

#[test]
fn genetic_algorithm_five_generations_for_fixed_seed() {
    let mut rng = ChaCha8Rng::from_seed(Default::default());

    let ga = GeneticAlgorithm::new(
        RouletteWheelSelection::new(),
        UniformCrossover::new(),
        GaussianMutation { rate: 0.25, factor: 1.0 },
    );

    let mut population = vec![
        individual(&[0.0, 0.0, 0.0]),
        individual(&[1.0, 1.0, 1.0]),
        individual(&[2.0, 2.0, 2.0]),
        individual(&[3.0, 3.0, 3.0]),
        individual(&[4.0, 4.0, 4.0]),
    ];

    for _ in 0..5 {
        // Fitness: the sum of the genes, rounded down.
        let fitness: Vec<u64> =
            population.iter().map(|c| c.genes().iter().sum::<f32>().max(0.0) as u64).collect();
        population = ga.step(&mut rng, &population, &fitness).0;
    }

    let expected_population = vec![
        individual(&[1.4455037, 3.0, 2.818238]),
        individual(&[1.4455037, 3.0, 2.3689342]),
        individual(&[2.0, 2.2948349, 3.3165293]),
        individual(&[2.0, 2.2948349, 2.3689342]),
        individual(&[2.0, 3.0493236, 3.0377474]),
    ];

    assert_eq!(population.len(), 5);
    for (actual, expected) in population.iter().zip(&expected_population) {
        assert!(relative_eq(actual.genes(), expected.genes()), "{:?} != {:?}", actual, expected);
    }
}

#[test]
fn step_keeps_population_size_and_lengths() {
    let mut rng = ChaCha8Rng::from_seed(Default::default());
    let ga = GeneticAlgorithm::new(RouletteWheelSelection::new(), UniformCrossover::new(), KeepGenes);
    let population = vec![individual(&[1.0, 2.0]), individual(&[3.0, 4.0]), individual(&[5.0, 6.0])];
    let next = ga.step(&mut rng, &population, &vec![1, 1, 1]).0;
    assert_eq!(next.len(), 3);
    for child in &next {
        assert_eq!(child.len(), 2);
        assert!(child.get(0) == 1.0 || child.get(0) == 3.0 || child.get(0) == 5.0);
        assert!(child.get(1) == 2.0 || child.get(1) == 4.0 || child.get(1) == 6.0);
    }
}

#[test]
fn step_never_breeds_from_zero_fitness() {
    let mut rng = ChaCha8Rng::from_seed(Default::default());
    let ga = GeneticAlgorithm::new(RouletteWheelSelection::new(), UniformCrossover::new(), KeepGenes);
    let population = vec![individual(&[1.0, 1.0]), individual(&[2.0, 2.0]), individual(&[3.0, 3.0])];
    let next = ga.step(&mut rng, &population, &vec![0, 4, 0]).0;
    assert_eq!(next.len(), 3);
    for child in &next {
        assert_eq!(child.genes(), &vec![2.0, 2.0]);
    }
}

#[test]
fn breed_crosses_over_then_mutates() {
    let mut rng = ChaCha8Rng::from_seed(Default::default());
    let ga = GeneticAlgorithm::new(RouletteWheelSelection::new(), UniformCrossover::new(), KeepGenes);
    let a = individual(&[1.0, 2.0, 3.0, 4.0]);
    let b = individual(&[-1.0, -2.0, -3.0, -4.0]);
    let child = ga.breed(&mut rng, &a, &b);
    assert_eq!(child.len(), 4);
    for i in 0..4 {
        assert!(child.get(i) == a.get(i) || child.get(i) == b.get(i));
    }
}

#[test]
fn step_reports_statistics_of_the_given_population() {
    let mut rng = ChaCha8Rng::from_seed(Default::default());
    let ga = GeneticAlgorithm::new(RouletteWheelSelection::new(), UniformCrossover::new(), KeepGenes);
    let population = vec![individual(&[1.0]), individual(&[2.0]), individual(&[3.0]), individual(&[4.0])];
    let (_, stats) = ga.step(&mut rng, &population, &vec![3, 0, 9, 4]);
    assert_eq!(stats.min_fitness(), 0);
    assert_eq!(stats.max_fitness(), 9);
    assert_eq!(stats.total_fitness(), 16);
    assert_eq!(stats.count(), 4);
}
