use vstd::prelude::*;
use crate::selection::total_fitness;

verus! {

/// The smallest fitness of a non-empty population.
pub open spec fn min_fitness_of(fitness: Seq<u64>) -> u64
    decreases fitness.len(),
{
    if fitness.len() <= 1 {
        fitness[0]
    } else {
        let rest = min_fitness_of(fitness.drop_last());
        if fitness.last() < rest {
            fitness.last()
        } else {
            rest
        }
    }
}

/// The largest fitness of a non-empty population.
pub open spec fn max_fitness_of(fitness: Seq<u64>) -> u64
    decreases fitness.len(),
{
    if fitness.len() <= 1 {
        fitness[0]
    } else {
        let rest = max_fitness_of(fitness.drop_last());
        if fitness.last() > rest {
            fitness.last()
        } else {
            rest
        }
    }
}

/// Fitness of a population: smallest, largest and total, and the number of
/// individuals (the mean is the total over that number).
#[derive(Clone, Copy, Debug)]
pub struct Statistics {
    min_fitness: u64,
    max_fitness: u64,
    total_fitness: u64,
    count: usize,
}

proof fn lemma_total_fitness_prefix(fitness: Seq<u64>, k: int)
    requires
        0 <= k <= fitness.len(),
    ensures
        total_fitness(fitness.subrange(0, k)) <= total_fitness(fitness),
    decreases fitness.len(),
{
    if k < fitness.len() {
        assert(fitness.drop_last().subrange(0, k) =~= fitness.subrange(0, k));
        lemma_total_fitness_prefix(fitness.drop_last(), k);
    } else {
        assert(fitness.subrange(0, k) =~= fitness);
    }
}

impl Statistics {
    pub fn new(fitness: &Vec<u64>) -> (r: Statistics)
        requires
            fitness@.len() > 0,
            total_fitness(fitness@) <= u64::MAX,
        ensures
            r.min_fitness() == min_fitness_of(fitness@),
            r.max_fitness() == max_fitness_of(fitness@),
            r.total_fitness() == total_fitness(fitness@),
            r.count() == fitness@.len(),
    {
        let mut min = fitness[0];
        let mut max = fitness[0];
        let mut total = fitness[0];
        let mut i: usize = 1;
        assert(fitness@.subrange(0, 1).drop_last() =~= fitness@.subrange(0, 0));
        assert(total_fitness(fitness@.subrange(0, 0)) == 0);
        while i < fitness.len()
            invariant
                1 <= i <= fitness@.len(),
                total_fitness(fitness@) <= u64::MAX,
                min == min_fitness_of(fitness@.subrange(0, i as int)),
                max == max_fitness_of(fitness@.subrange(0, i as int)),
                total == total_fitness(fitness@.subrange(0, i as int)),
            decreases fitness@.len() - i,
        {
            proof {
                let next = fitness@.subrange(0, i + 1);
                assert(next.drop_last() =~= fitness@.subrange(0, i as int));
                lemma_total_fitness_prefix(fitness@, i + 1);
            }
            let f = fitness[i];
            if f < min {
                min = f;
            }
            if f > max {
                max = f;
            }
            total = total + f;
            i = i + 1;
        }
        assert(fitness@.subrange(0, i as int) =~= fitness@);
        Statistics { min_fitness: min, max_fitness: max, total_fitness: total, count: fitness.len() }
    }

    pub closed spec fn spec_min_fitness(&self) -> u64 {
        self.min_fitness
    }

    #[verifier::when_used_as_spec(spec_min_fitness)]
    pub fn min_fitness(&self) -> (r: u64)
        ensures
            r == self.spec_min_fitness(),
    {
        self.min_fitness
    }

    pub closed spec fn spec_max_fitness(&self) -> u64 {
        self.max_fitness
    }

    #[verifier::when_used_as_spec(spec_max_fitness)]
    pub fn max_fitness(&self) -> (r: u64)
        ensures
            r == self.spec_max_fitness(),
    {
        self.max_fitness
    }

    pub closed spec fn spec_total_fitness(&self) -> u64 {
        self.total_fitness
    }

    #[verifier::when_used_as_spec(spec_total_fitness)]
    pub fn total_fitness(&self) -> (r: u64)
        ensures
            r == self.spec_total_fitness(),
    {
        self.total_fitness
    }

    pub closed spec fn spec_count(&self) -> usize {
        self.count
    }

    #[verifier::when_used_as_spec(spec_count)]
    pub fn count(&self) -> (r: usize)
        ensures
            r == self.spec_count(),
    {
        self.count
    }
}

} // verus!
