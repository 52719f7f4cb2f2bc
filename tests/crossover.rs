use evosim::chromosome::Chromosome;
use evosim::crossover::UniformCrossover;
use rand::SeedableRng;
use rand_chacha::ChaCha8Rng;

#[test]
fn uniform_test() {
    let mut rng = ChaCha8Rng::from_seed(Default::default());
    let parent_a: Chromosome<f32> = Chromosome::new((1..=100).map(|n| n as f32).collect());
    let parent_b: Chromosome<f32> = Chromosome::new((1..=100).map(|n| -n as f32).collect());
    let child = UniformCrossover::new().crossover(&mut rng, &parent_a, &parent_b);

    // Number of genes different between 'child' and 'parent_a'
    let diff_a = child.genes().iter().zip(parent_a.genes()).filter(|(c, p)| c != p).count();

    // Number of genes different between 'child' and 'parent_b'
    let diff_b = child.genes().iter().zip(parent_b.genes()).filter(|(c, p)| c != p).count();

    assert_eq!(diff_a, 49);
    assert_eq!(diff_b, 51);
}

#[test]
fn crossover_with_takes_genes_by_coin() {
    let a = Chromosome::new(vec![1, 2, 3, 4]);
    let b = Chromosome::new(vec![10, 20, 30, 40]);
    let child = UniformCrossover::new().crossover_with(&a, &b, &vec![true, false, false, true]);
    assert_eq!(child.genes(), &vec![1, 20, 30, 4]);
}

#[test]
fn crossover_origins_add_up_to_length() {
    let mut rng = ChaCha8Rng::from_seed([7; 32]);
    let a: Chromosome<i32> = Chromosome::new((0..37).collect());
    let b: Chromosome<i32> = Chromosome::new((100..137).collect());
    let child = UniformCrossover::new().crossover(&mut rng, &a, &b);
    let from_a = (0..37).filter(|&i| child.get(i) == a.get(i)).count();
    let from_b = (0..37).filter(|&i| child.get(i) == b.get(i)).count();
    assert_eq!(from_a + from_b, 37);
    assert!(from_a > 0 && from_b > 0);
}

#[test]
fn crossover_of_empty_parents_is_empty() {
    let mut rng = ChaCha8Rng::from_seed(Default::default());
    let a: Chromosome<f32> = Chromosome::new(vec![]);
    let child = UniformCrossover::new().crossover(&mut rng, &a, &a.clone());
    assert_eq!(child.len(), 0);
}
