use vstd::prelude::*;
use rand_chacha::ChaCha8Rng;

verus! {

/// The sum of the fitness values.
pub open spec fn total_fitness(fitness: Seq<u64>) -> nat
    decreases fitness.len(),
{
    if fitness.len() == 0 {
        0
    } else {
        total_fitness(fitness.drop_last()) + fitness.last() as nat
    }
}

/// Relies on `rand::distributions::WeightedIndex` (`new`, then `sample`): an
/// index drawn with probability proportional to its weight, so never one of
/// weight zero; `new` refuses an empty list and a zero total. The total must
/// fit in a `u64`, as `new` adds the weights up in that type.
#[verifier::external_body]
fn weighted_index(rng: &mut ChaCha8Rng, weights: &Vec<u64>) -> (r: Option<usize>)
    requires
        total_fitness(weights@) <= u64::MAX,
    ensures
        r is None <==> total_fitness(weights@) == 0,
        r matches Some(i) ==> i < weights@.len() && weights@[i as int] > 0,
{
    match rand::distributions::WeightedIndex::new(weights.iter()) {
        Ok(d) => Some(rand::distributions::Distribution::sample(&d, rng)),
        Err(_) => None,
    }
}

/// Draws an individual with probability proportional to its fitness.
pub struct RouletteWheelSelection;

impl RouletteWheelSelection {
    pub fn new() -> (r: RouletteWheelSelection) {
        RouletteWheelSelection
    }

    /// The index of the drawn individual, given each individual's fitness.
    /// There must be something to draw: at least one individual, and some fitness.
    pub fn select(&self, rng: &mut ChaCha8Rng, fitness: &Vec<u64>) -> (r: usize)
        requires
            fitness@.len() > 0,
            0 < total_fitness(fitness@) <= u64::MAX,
        ensures
            r < fitness@.len(),
            fitness@[r as int] > 0,
    {
        match weighted_index(rng, fitness) {
            Some(i) => i,
            None => {
                proof {
                    assert(false);
                }
                0
            },
        }
    }
}

} // verus!
