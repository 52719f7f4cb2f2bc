use vstd::prelude::*;
use rand_chacha::ChaCha8Rng;
use crate::chromosome::Chromosome;
use crate::crossover::{UniformCrossover, mixed};
use crate::selection::{RouletteWheelSelection, total_fitness};
use crate::statistics::{Statistics, min_fitness_of, max_fitness_of};

verus! {

/// How a child's genes are perturbed after crossover, in place. Implemented
/// by users of the library for their gene type.
pub trait MutationMethod<G> {
    /// Whether `after` is a possible result of mutating `before`. A mutation
    /// verified in Verus may state more; by default, only the length is kept.
    open spec fn mutated(&self, before: Seq<G>, after: Seq<G>) -> bool {
        after.len() == before.len()
    }

    fn mutate(&self, rng: &mut ChaCha8Rng, child: &mut Chromosome<G>)
        ensures
            final(child)@.len() == old(child)@.len(),
            self.mutated(old(child)@, final(child)@),
    ;
}

/// `child` can come out of breeding: the mutation of a crossover, with some
/// coin flips, of two members of `population` that have fitness.
pub open spec fn bred_from<G, M: MutationMethod<G>>(
    mutation: M,
    population: Seq<Chromosome<G>>,
    fitness: Seq<u64>,
    child: Seq<G>,
) -> bool {
    exists|a: int, b: int, coins: Seq<bool>|
        #![trigger mutation.mutated(mixed(population[a]@, population[b]@, coins), child)]
        0 <= a < fitness.len() && 0 <= b < fitness.len() && fitness[a] > 0 && fitness[b] > 0
            && coins.len() == population[a]@.len() && mutation.mutated(
            mixed(population[a]@, population[b]@, coins),
            child,
        )
}

/// All chromosomes of `population` have `len` genes.
pub open spec fn all_of_len<G>(population: Seq<Chromosome<G>>, len: nat) -> bool {
    forall|i: int| 0 <= i < population.len() ==> (#[trigger] population[i])@.len() == len
}

/// The genetic algorithm: roulette-wheel selection of parents, uniform
/// crossover of their chromosomes, then mutation of the child.
pub struct GeneticAlgorithm<M> {
    selection_method: RouletteWheelSelection,
    crossover_method: UniformCrossover,
    mutation_method: M,
}

impl<M> GeneticAlgorithm<M> {
    /// The mutation applied to every child.
    pub closed spec fn mutation(&self) -> M {
        self.mutation_method
    }

    pub fn new(
        selection_method: RouletteWheelSelection,
        crossover_method: UniformCrossover,
        mutation_method: M,
    ) -> (r: GeneticAlgorithm<M>)
        ensures
            r.mutation() == mutation_method,
    {
        GeneticAlgorithm { selection_method, crossover_method, mutation_method }
    }

    /// One offspring of two parents of equal length: crossover, then mutation.
    pub fn breed<G: Copy>(
        &self,
        rng: &mut ChaCha8Rng,
        parent_a: &Chromosome<G>,
        parent_b: &Chromosome<G>,
    ) -> (r: Chromosome<G>)
        where
            M: MutationMethod<G>,
        requires
            parent_a@.len() == parent_b@.len(),
        ensures
            r@.len() == parent_a@.len(),
            exists|coins: Seq<bool>|
                coins.len() == parent_a@.len() && self.mutation().mutated(
                    mixed(parent_a@, parent_b@, coins),
                    r@,
                ),
    {
        let mut child = self.crossover_method.crossover(rng, parent_a, parent_b);
        self.mutation_method.mutate(rng, &mut child);
        child
    }

    /// A new population of the same size: for each slot, two parents drawn
    /// by fitness (possibly the same one twice) are crossed over, and the
    /// child is mutated. Also the fitness statistics of the given population.
    /// The population must not be empty and must have some fitness.
    pub fn step<G: Copy>(
        &self,
        rng: &mut ChaCha8Rng,
        population: &Vec<Chromosome<G>>,
        fitness: &Vec<u64>,
    ) -> (r: (Vec<Chromosome<G>>, Statistics))
        where
            M: MutationMethod<G>,
        requires
            population@.len() > 0,
            fitness@.len() == population@.len(),
            0 < total_fitness(fitness@) <= u64::MAX,
            all_of_len(population@, population@[0]@.len()),
        ensures
            r.0@.len() == population@.len(),
            all_of_len(r.0@, population@[0]@.len()),
            forall|k: int|
                0 <= k < r.0@.len() ==> bred_from(
                    self.mutation(),
                    population@,
                    fitness@,
                    #[trigger] r.0@[k]@,
                ),
            r.1.min_fitness() == min_fitness_of(fitness@),
            r.1.max_fitness() == max_fitness_of(fitness@),
            r.1.total_fitness() == total_fitness(fitness@),
            r.1.count() == population@.len(),
    {
        let n = population.len();
        let ghost len = population@[0]@.len();
        let mut children: Vec<Chromosome<G>> = Vec::new();
        let mut i: usize = 0;
        while i < n
            invariant
                n == population@.len(),
                fitness@.len() == n,
                n > 0,
                len == population@[0]@.len(),
                all_of_len(population@, len),
                0 < total_fitness(fitness@) <= u64::MAX,
                i <= n,
                children@.len() == i,
                all_of_len(children@, len),
                forall|k: int|
                    0 <= k < i ==> bred_from(
                        self.mutation(),
                        population@,
                        fitness@,
                        #[trigger] children@[k]@,
                    ),
            decreases n - i,
        {
            let a = self.selection_method.select(rng, fitness);
            let b = self.selection_method.select(rng, fitness);
            assert((population@[a as int])@.len() == len);
            assert((population@[b as int])@.len() == len);
            let child = self.breed(rng, &population[a], &population[b]);
            proof {
                let coins = choose|coins: Seq<bool>|
                    coins.len() == population@[a as int]@.len() && self.mutation().mutated(
                        mixed(population@[a as int]@, population@[b as int]@, coins),
                        child@,
                    );
                assert(bred_from(self.mutation(), population@, fitness@, child@));
            }
            let ghost prev = children@;
            children.push(child);
            assert forall|k: int| 0 <= k < children@.len() implies bred_from(
                self.mutation(),
                population@,
                fitness@,
                #[trigger] children@[k]@,
            ) by {
                if k < i {
                    assert(children@[k] == prev[k]);
                }
            }
            i = i + 1;
        }
        (children, Statistics::new(fitness))
    }
}

} // verus!
