use vstd::prelude::*;
use crate::chromosome::Chromosome;
use crate::network::{
    Activation, LayerTopology, Network, count_weights, layer_weight_count, network_genes, shaped, weight_count,
    lemma_weights_round_trip, LayerModel,
};

verus! {

/// Number of body genes that follow the brain's genes: size, then color.
pub const BODY_GENES: usize = 2;

/// The brain of a creature whose eye has `cells` cells: one input per cell,
/// a hidden layer twice as wide, and two outputs (speed and rotation change).
pub open spec fn brain_topology_of(cells: usize) -> Seq<LayerTopology> {
    seq![
        LayerTopology { neurons: cells, activation: Activation::ReLU },
        LayerTopology { neurons: (2 * cells) as usize, activation: Activation::ReLU },
        LayerTopology { neurons: 2, activation: Activation::Tanh },
    ]
}

/// Number of brain genes of a creature whose eye has `cells` cells.
pub open spec fn brain_gene_count(cells: usize) -> nat {
    weight_count(brain_topology_of(cells))
}

/// The brain of an eye of `c` cells holds `2c(c + 1) + 2(2c + 1)` genes:
/// the hidden layer's `2c` neurons with `c + 1` genes each, then the two
/// outputs with `2c + 1` each.
pub proof fn lemma_brain_gene_count(cells: usize)
    requires
        2 * cells <= usize::MAX,
    ensures
        brain_gene_count(cells) == 2 * cells * (cells + 1) + 2 * (2 * cells + 1),
{
    let t = brain_topology_of(cells);
    assert(t.drop_last() =~= seq![t[0], t[1]]);
    assert(t.drop_last().drop_last() =~= seq![t[0]]);
    assert(weight_count(seq![t[0]]) == 0);
    assert(weight_count(t.drop_last()) == layer_weight_count(cells as nat, (2 * cells) as nat));
    assert(layer_weight_count(cells as nat, (2 * cells) as nat) == 2 * cells * (cells + 1))
        by (nonlinear_arith);
}

/// A creature's genome: the brain's weights, then the body genes.
pub open spec fn genome<G>(brain: Seq<LayerModel<G>>, body: Seq<G>) -> Seq<G> {
    network_genes(brain) + body
}

/// The brain topology for an eye of `cells` cells.
pub fn brain_topology(cells: usize) -> (r: Vec<LayerTopology>)
    requires
        2 * cells <= usize::MAX,
    ensures
        r@ == brain_topology_of(cells),
{
    let mut r: Vec<LayerTopology> = Vec::new();
    r.push(LayerTopology { neurons: cells, activation: Activation::ReLU });
    r.push(LayerTopology { neurons: 2 * cells, activation: Activation::ReLU });
    r.push(LayerTopology { neurons: 2, activation: Activation::Tanh });
    assert(r@ =~= brain_topology_of(cells));
    r
}

/// Where the body genes start: computed from the topology on every call.
pub fn brain_weight_count(cells: usize) -> (r: usize)
    requires
        2 * cells <= usize::MAX,
        brain_gene_count(cells) <= usize::MAX,
    ensures
        r == brain_gene_count(cells),
{
    count_weights(&brain_topology(cells))
}

/// The genome of a creature with this brain and these body genes.
pub fn encode_genome<G: Copy>(brain: &Network<G>, body: &Chromosome<G>) -> (r: Chromosome<G>)
    requires
        network_genes(brain@).len() + body@.len() <= usize::MAX,
    ensures
        r@ == genome(brain@, body@),
{
    let brain_genes = Chromosome::new(brain.weights());
    brain_genes.concat(body)
}

/// Splits a genome into the brain, for an eye of `cells` cells, and the body genes.
pub fn decode_genome<G: Copy>(cells: usize, chromosome: Chromosome<G>) -> (r: (
    Network<G>,
    Chromosome<G>,
))
    requires
        2 * cells <= usize::MAX,
        chromosome@.len() == brain_gene_count(cells) + BODY_GENES,
    ensures
        shaped(r.0@, brain_topology_of(cells)),
        r.1@.len() == BODY_GENES,
        genome(r.0@, r.1@) == chromosome@,
{
    let topology = brain_topology(cells);
    proof {
        chromosome.lemma_len_bound();
    }
    let offset = count_weights(&topology);
    let (brain_genes, body) = chromosome.split_at(offset);
    let brain = Network::from_weights(&topology, brain_genes.genes());
    assert(genome(brain@, body@) =~= chromosome@);
    (brain, body)
}

/// Decoding an encoded genome gives back the brain and the body genes: two
/// brains of the same eye with body genes of the right length that encode
/// to the same genome are equal, and so are their body genes.
pub proof fn lemma_genome_round_trip<G>(
    cells: usize,
    brain: Seq<LayerModel<G>>,
    body: Seq<G>,
    decoded_brain: Seq<LayerModel<G>>,
    decoded_body: Seq<G>,
)
    requires
        shaped(brain, brain_topology_of(cells)),
        shaped(decoded_brain, brain_topology_of(cells)),
        body.len() == BODY_GENES,
        decoded_body.len() == BODY_GENES,
        genome(decoded_brain, decoded_body) == genome(brain, body),
    ensures
        decoded_brain == brain,
        decoded_body == body,
{
    let all = genome(brain, body);
    let n = network_genes(brain).len();
    crate::network::lemma_network_genes_len(brain, brain_topology_of(cells));
    crate::network::lemma_network_genes_len(decoded_brain, brain_topology_of(cells));
    assert(network_genes(brain) =~= all.subrange(0, n as int));
    assert(network_genes(decoded_brain) =~= all.subrange(0, n as int));
    assert(body =~= all.subrange(n as int, all.len() as int));
    assert(decoded_body =~= all.subrange(n as int, all.len() as int));
    lemma_weights_round_trip(brain, decoded_brain, brain_topology_of(cells));
}

} // verus!
