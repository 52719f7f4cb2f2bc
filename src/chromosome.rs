use vstd::prelude::*;

verus! {

/// An ordered, fixed-length sequence of genes: the genetic encoding of an
/// individual. The gene type is left open; the simulation uses real numbers.
#[derive(Clone, Debug)]
pub struct Chromosome<G> {
    genes: Vec<G>,
}

impl<G> View for Chromosome<G> {
    type V = Seq<G>;

    closed spec fn view(&self) -> Seq<G> {
        self.genes@
    }
}

impl<G> Chromosome<G> {
    /// A chromosome holds no more genes than memory can address.
    pub proof fn lemma_len_bound(&self)
        ensures
            self@.len() <= usize::MAX,
    {
        assert(self.genes@.len() == self.genes.len());
    }
}

impl<G: Copy> Chromosome<G> {
    pub fn new(genes: Vec<G>) -> (r: Chromosome<G>)
        ensures
            r@ == genes@,
    {
        Chromosome { genes }
    }

    pub fn len(&self) -> (r: usize)
        ensures
            r == self@.len(),
    {
        self.genes.len()
    }

    pub fn get(&self, index: usize) -> (r: G)
        requires
            index < self@.len(),
        ensures
            r == self@[index as int],
    {
        self.genes[index]
    }

    /// Overwrites one gene.
    pub fn set(&mut self, index: usize, gene: G)
        requires
            index < old(self)@.len(),
        ensures
            final(self)@ == old(self)@.update(index as int, gene),
    {
        self.genes.set(index, gene);
    }

    pub fn genes(&self) -> (r: &Vec<G>)
        ensures
            r@ == self@,
    {
        &self.genes
    }

    pub fn into_genes(self) -> (r: Vec<G>)
        ensures
            r@ == self@,
    {
        self.genes
    }

    /// Splits into the genes before `offset` and the genes from `offset` on.
    pub fn split_at(self, offset: usize) -> (r: (Chromosome<G>, Chromosome<G>))
        requires
            offset <= self@.len(),
        ensures
            r.0@ == self@.subrange(0, offset as int),
            r.1@ == self@.subrange(offset as int, self@.len() as int),
    {
        let mut head: Vec<G> = Vec::new();
        let mut tail: Vec<G> = Vec::new();
        let n = self.genes.len();
        let mut i: usize = 0;
        while i < n
            invariant
                n == self@.len(),
                offset <= n,
                i <= n,
                i <= offset ==> head@ == self@.subrange(0, i as int) && tail@.len() == 0,
                i > offset ==> head@ == self@.subrange(0, offset as int) && tail@
                    == self@.subrange(offset as int, i as int),
            decreases n - i,
        {
            if i < offset {
                head.push(self.genes[i]);
            } else {
                tail.push(self.genes[i]);
            }
            i = i + 1;
        }
        (Chromosome { genes: head }, Chromosome { genes: tail })
    }

    /// The genes of `self` followed by the genes of `other`.
    pub fn concat(&self, other: &Chromosome<G>) -> (r: Chromosome<G>)
        requires
            self@.len() + other@.len() <= usize::MAX,
        ensures
            r@ == self@ + other@,
    {
        let mut genes: Vec<G> = Vec::new();
        let mut i: usize = 0;
        while i < self.genes.len()
            invariant
                i <= self@.len(),
                genes@ == self@.subrange(0, i as int),
            decreases self@.len() - i,
        {
            genes.push(self.genes[i]);
            i = i + 1;
        }
        let mut j: usize = 0;
        while j < other.genes.len()
            invariant
                j <= other@.len(),
                genes@ == self@ + other@.subrange(0, j as int),
            decreases other@.len() - j,
        {
            genes.push(other.genes[j]);
            j = j + 1;
        }
        Chromosome { genes }
    }
}

} // verus!
