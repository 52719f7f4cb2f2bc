use vstd::prelude::*;
use rand_chacha::ChaCha8Rng;
use crate::chromosome::Chromosome;
use crate::random::coin_flip;

verus! {

/// The child of a uniform crossover whose coin flips came out as `coins`:
/// gene `i` comes from the first parent where coin `i` is heads.
pub open spec fn mixed<G>(a: Seq<G>, b: Seq<G>, coins: Seq<bool>) -> Seq<G> {
    Seq::new(a.len(), |i: int| if coins[i] { a[i] } else { b[i] })
}

/// Number of positions below `n` where `child` and `parent` hold the same gene.
pub open spec fn same_genes<G>(child: Seq<G>, parent: Seq<G>, n: int) -> nat
    decreases n,
{
    if n <= 0 {
        0
    } else {
        same_genes(child, parent, n - 1) + if child[n - 1] == parent[n - 1] {
            1nat
        } else {
            0nat
        }
    }
}

/// Every gene of a crossover child comes from one parent: where the parents
/// differ at every position, the genes taken from the first parent and those
/// taken from the second add up to the length.
pub proof fn lemma_crossover_origins<G>(a: Seq<G>, b: Seq<G>, coins: Seq<bool>)
    requires
        a.len() == b.len(),
        coins.len() == a.len(),
        forall|i: int| 0 <= i < a.len() ==> a[i] != b[i],
    ensures
        forall|i: int|
            0 <= i < a.len() ==> #[trigger] mixed(a, b, coins)[i] == a[i] || mixed(a, b, coins)[i]
                == b[i],
        same_genes(mixed(a, b, coins), a, a.len() as int) + same_genes(
            mixed(a, b, coins),
            b,
            a.len() as int,
        ) == a.len(),
{
    lemma_origins_prefix(a, b, coins, a.len() as int);
}

proof fn lemma_origins_prefix<G>(a: Seq<G>, b: Seq<G>, coins: Seq<bool>, n: int)
    requires
        a.len() == b.len(),
        coins.len() == a.len(),
        0 <= n <= a.len(),
        forall|i: int| 0 <= i < a.len() ==> a[i] != b[i],
    ensures
        same_genes(mixed(a, b, coins), a, n) + same_genes(mixed(a, b, coins), b, n) == n,
    decreases n,
{
    if n > 0 {
        lemma_origins_prefix(a, b, coins, n - 1);
        assert(a[n - 1] != b[n - 1]);
    }
}

/// Each gene of the child is copied from one parent or the other, with equal odds.
pub struct UniformCrossover;

impl UniformCrossover {
    pub fn new() -> (r: UniformCrossover) {
        UniformCrossover
    }

    /// Crosses two parents of equal length, flipping one coin per gene.
    pub fn crossover<G: Copy>(
        &self,
        rng: &mut ChaCha8Rng,
        parent_a: &Chromosome<G>,
        parent_b: &Chromosome<G>,
    ) -> (r: Chromosome<G>)
        requires
            parent_a@.len() == parent_b@.len(),
        ensures
            exists|coins: Seq<bool>|
                coins.len() == parent_a@.len() && r@ == mixed(parent_a@, parent_b@, coins),
    {
        let mut coins: Vec<bool> = Vec::new();
        let n = parent_a.len();
        let mut i: usize = 0;
        while i < n
            invariant
                i <= n,
                coins@.len() == i,
            decreases n - i,
        {
            coins.push(coin_flip(rng));
            i = i + 1;
        }
        self.crossover_with(parent_a, parent_b, &coins)
    }

    /// The child for given coin flips: gene `i` from `parent_a` where
    /// `coins[i]` holds, else from `parent_b`.
    pub fn crossover_with<G: Copy>(
        &self,
        parent_a: &Chromosome<G>,
        parent_b: &Chromosome<G>,
        coins: &Vec<bool>,
    ) -> (r: Chromosome<G>)
        requires
            parent_a@.len() == parent_b@.len(),
            coins@.len() == parent_a@.len(),
        ensures
            r@ == mixed(parent_a@, parent_b@, coins@),
    {
        let n = parent_a.len();
        let mut genes: Vec<G> = Vec::new();
        let mut i: usize = 0;
        while i < n
            invariant
                i <= n,
                n == parent_a@.len(),
                n == parent_b@.len(),
                n == coins@.len(),
                genes@ == mixed(parent_a@, parent_b@, coins@).subrange(0, i as int),
            decreases n - i,
        {
            if coins[i] {
                genes.push(parent_a.get(i));
            } else {
                genes.push(parent_b.get(i));
            }
            i = i + 1;
        }
        Chromosome::new(genes)
    }
}

} // verus!
