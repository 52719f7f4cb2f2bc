use vstd::prelude::*;

verus! {

broadcast use vstd::seq_lib::group_seq_properties;

/// The function a layer applies to its neurons' sums.
#[derive(Clone, Copy, Debug, PartialEq, Eq, Structural)]
pub enum Activation {
    ReLU,
    Sigmoid,
    Softmax,
    Tanh,
    Identity,
}

/// The size of one layer, and the activation of the neurons that feed it.
#[derive(Clone, Copy, Debug)]
pub struct LayerTopology {
    pub neurons: usize,
    pub activation: Activation,
}

/// One neuron: a bias and one weight per input.
#[derive(Clone, Debug)]
pub struct Neuron<W> {
    bias: W,
    weights: Vec<W>,
}

/// The neurons of one layer, and the activation applied to their outputs.
#[derive(Clone, Debug)]
pub struct Layer<W> {
    neurons: Vec<Neuron<W>>,
    activation: Activation,
}

/// A feed-forward network: the layers in the order inputs go through them.
#[derive(Clone, Debug)]
pub struct Network<W> {
    layers: Vec<Layer<W>>,
}

/// A layer as a value: its activation, and each neuron's genes.
pub type LayerModel<W> = (Activation, Seq<Seq<W>>);

impl<W> View for Neuron<W> {
    /// The neuron's genes: the bias, then the weights in input order.
    type V = Seq<W>;

    closed spec fn view(&self) -> Seq<W> {
        seq![self.bias] + self.weights@
    }
}

pub open spec fn neuron_models<W>(neurons: Seq<Neuron<W>>) -> Seq<Seq<W>> {
    neurons.map_values(|n: Neuron<W>| n@)
}

impl<W> View for Layer<W> {
    type V = LayerModel<W>;

    closed spec fn view(&self) -> LayerModel<W> {
        (self.activation, neuron_models(self.neurons@))
    }
}

pub open spec fn layer_models<W>(layers: Seq<Layer<W>>) -> Seq<LayerModel<W>> {
    layers.map_values(|l: Layer<W>| l@)
}

impl<W> View for Network<W> {
    type V = Seq<LayerModel<W>>;

    closed spec fn view(&self) -> Seq<LayerModel<W>> {
        layer_models(self.layers@)
    }
}

/// The genes of a layer: its neurons' genes, neuron after neuron.
pub open spec fn layer_genes<W>(layer: LayerModel<W>) -> Seq<W> {
    layer.1.flatten()
}

/// The genes of a network, layer after layer: the canonical weight order.
pub open spec fn network_genes<W>(layers: Seq<LayerModel<W>>) -> Seq<W> {
    layers.map_values(|l: LayerModel<W>| layer_genes(l)).flatten()
}

/// Number of weights and biases in a layer of `outputs` neurons with `inputs` inputs each.
pub open spec fn layer_weight_count(inputs: nat, outputs: nat) -> nat {
    outputs * (inputs + 1)
}

/// Number of weights and biases of a network of the given topology.
pub open spec fn weight_count(topology: Seq<LayerTopology>) -> nat
    decreases topology.len(),
{
    if topology.len() < 2 {
        0
    } else {
        weight_count(topology.drop_last()) + layer_weight_count(
            topology[topology.len() - 2].neurons as nat,
            topology.last().neurons as nat,
        )
    }
}

/// A layer fed by `inputs` values, with the size and activation that `shape` gives.
pub open spec fn layer_shaped<W>(layer: LayerModel<W>, inputs: nat, shape: LayerTopology) -> bool {
    &&& layer.0 == shape.activation
    &&& layer.1.len() == shape.neurons
    &&& forall|j: int| 0 <= j < layer.1.len() ==> #[trigger] layer.1[j].len() == inputs + 1
}

/// A network whose layers follow `topology`: layer `i` joins sizes `i` and `i + 1`.
pub open spec fn shaped<W>(layers: Seq<LayerModel<W>>, topology: Seq<LayerTopology>) -> bool {
    &&& layers.len() + 1 == topology.len()
    &&& forall|i: int|
        0 <= i < layers.len() ==> layer_shaped(
            #[trigger] layers[i],
            topology[i].neurons as nat,
            topology[i + 1],
        )
}

proof fn lemma_flatten_prefix_push<A>(s: Seq<Seq<A>>, i: int)
    requires
        0 <= i < s.len(),
    ensures
        s.subrange(0, i + 1).flatten() == s.subrange(0, i).flatten() + s[i],
{
    assert(s.subrange(0, i + 1) =~= s.subrange(0, i).push(s[i]));
    s.subrange(0, i).lemma_flatten_push(s[i]);
}

proof fn lemma_flatten_drop_last<A>(s: Seq<Seq<A>>)
    requires
        s.len() > 0,
    ensures
        s.flatten() == s.drop_last().flatten() + s.last(),
{
    assert(s =~= s.drop_last().push(s.last()));
    s.drop_last().lemma_flatten_push(s.last());
}

/// A flattening of pieces of length `k` each has length `count * k`.
proof fn lemma_flatten_uniform_len<A>(s: Seq<Seq<A>>, k: nat)
    requires
        forall|j: int| 0 <= j < s.len() ==> #[trigger] s[j].len() == k,
    ensures
        s.flatten().len() == s.len() * k,
    decreases s.len(),
{
    if s.len() > 0 {
        lemma_flatten_drop_last(s);
        lemma_flatten_uniform_len(s.drop_last(), k);
        assert((s.len() - 1) * k + k == s.len() * k) by (nonlinear_arith);
    }
}

/// Pieces of one common length are determined by their flattening.
proof fn lemma_flatten_uniform_injective<A>(s: Seq<Seq<A>>, t: Seq<Seq<A>>, k: nat)
    requires
        s.len() == t.len(),
        forall|j: int| 0 <= j < s.len() ==> #[trigger] s[j].len() == k,
        forall|j: int| 0 <= j < t.len() ==> #[trigger] t[j].len() == k,
        s.flatten() == t.flatten(),
    ensures
        s == t,
    decreases s.len(),
{
    if s.len() > 0 {
        lemma_flatten_drop_last(s);
        lemma_flatten_drop_last(t);
        lemma_flatten_uniform_len(s.drop_last(), k);
        lemma_flatten_uniform_len(t.drop_last(), k);
        let n = s.drop_last().flatten().len();
        assert(s.drop_last().flatten() =~= s.flatten().subrange(0, n as int));
        assert(t.drop_last().flatten() =~= t.flatten().subrange(0, n as int));
        assert(s.last() =~= s.flatten().subrange(n as int, s.flatten().len() as int));
        assert(t.last() =~= t.flatten().subrange(n as int, t.flatten().len() as int));
        lemma_flatten_uniform_injective(s.drop_last(), t.drop_last(), k);
        assert(s =~= s.drop_last().push(s.last()));
        assert(t =~= t.drop_last().push(t.last()));
    }
}

proof fn lemma_layer_genes_len<W>(layer: LayerModel<W>, inputs: nat, shape: LayerTopology)
    requires
        layer_shaped(layer, inputs, shape),
    ensures
        layer_genes(layer).len() == layer_weight_count(inputs, shape.neurons as nat),
{
    lemma_flatten_uniform_len(layer.1, inputs + 1);
}

proof fn lemma_network_genes_drop_last<W>(layers: Seq<LayerModel<W>>)
    requires
        layers.len() > 0,
    ensures
        network_genes(layers) == network_genes(layers.drop_last()) + layer_genes(layers.last()),
{
    let f = |l: LayerModel<W>| layer_genes(l);
    assert(layers.drop_last().map_values(f) =~= layers.map_values(f).drop_last());
    lemma_flatten_drop_last(layers.map_values(f));
}

pub(crate) proof fn lemma_network_genes_len<W>(layers: Seq<LayerModel<W>>, topology: Seq<LayerTopology>)
    requires
        shaped(layers, topology),
    ensures
        network_genes(layers).len() == weight_count(topology),
    decreases layers.len(),
{
    if layers.len() > 0 {
        let n = layers.len() - 1;
        lemma_network_genes_drop_last(layers);
        assert(layer_shaped(layers[n], topology[n].neurons as nat, topology[n + 1]));
        lemma_layer_genes_len(layers.last(), topology[n].neurons as nat, topology.last());
        assert forall|i: int| 0 <= i < layers.drop_last().len() implies layer_shaped(
            #[trigger] layers.drop_last()[i],
            topology.drop_last()[i].neurons as nat,
            topology.drop_last()[i + 1],
        ) by {
            assert(layer_shaped(layers[i], topology[i].neurons as nat, topology[i + 1]));
        }
        lemma_network_genes_len(layers.drop_last(), topology.drop_last());
    }
}

/// Decoding an encoded network gives the network back: two networks of the
/// same topology with the same flat weight sequence are the same network.
pub proof fn lemma_weights_round_trip<W>(
    net: Seq<LayerModel<W>>,
    decoded: Seq<LayerModel<W>>,
    topology: Seq<LayerTopology>,
)
    requires
        shaped(net, topology),
        shaped(decoded, topology),
        network_genes(decoded) == network_genes(net),
    ensures
        decoded == net,
    decreases net.len(),
{
    if net.len() > 0 {
        let n = net.len() - 1;
        lemma_network_genes_drop_last(net);
        lemma_network_genes_drop_last(decoded);
        assert forall|i: int| 0 <= i < n implies layer_shaped(
            #[trigger] net.drop_last()[i],
            topology.drop_last()[i].neurons as nat,
            topology.drop_last()[i + 1],
        ) && layer_shaped(
            decoded.drop_last()[i],
            topology.drop_last()[i].neurons as nat,
            topology.drop_last()[i + 1],
        ) by {
            assert(layer_shaped(net[i], topology[i].neurons as nat, topology[i + 1]));
            assert(layer_shaped(decoded[i], topology[i].neurons as nat, topology[i + 1]));
        }
        lemma_network_genes_len(net.drop_last(), topology.drop_last());
        lemma_network_genes_len(decoded.drop_last(), topology.drop_last());
        let all = network_genes(net);
        let m = network_genes(net.drop_last()).len();
        assert(network_genes(net.drop_last()) =~= all.subrange(0, m as int));
        assert(network_genes(decoded.drop_last()) =~= all.subrange(0, m as int));
        assert(layer_genes(net.last()) =~= all.subrange(m as int, all.len() as int));
        assert(layer_genes(decoded.last()) =~= all.subrange(m as int, all.len() as int));
        lemma_weights_round_trip(net.drop_last(), decoded.drop_last(), topology.drop_last());
        let inputs = topology[n].neurons as nat;
        assert(layer_shaped(net[n], inputs, topology[n + 1]));
        assert(layer_shaped(decoded[n], inputs, topology[n + 1]));
        lemma_flatten_uniform_injective(net.last().1, decoded.last().1, inputs + 1);
        assert(net =~= net.drop_last().push(net.last()));
        assert(decoded =~= decoded.drop_last().push(decoded.last()));
    }
}


proof fn lemma_weight_count_prefix(topology: Seq<LayerTopology>, k: int)
    requires
        0 <= k <= topology.len(),
    ensures
        weight_count(topology.subrange(0, k)) <= weight_count(topology),
    decreases topology.len(),
{
    if k < topology.len() {
        assert(topology.drop_last() =~= topology.subrange(0, topology.len() - 1));
        assert(topology.drop_last().subrange(0, k) =~= topology.subrange(0, k));
        lemma_weight_count_prefix(topology.drop_last(), k);
    } else {
        assert(topology.subrange(0, k) =~= topology);
    }
}

/// Number of weights and biases in a layer of `outputs` neurons with `inputs` inputs each.
fn layer_size(inputs: usize, outputs: usize) -> (r: usize)
    requires
        layer_weight_count(inputs as nat, outputs as nat) <= usize::MAX,
    ensures
        r == layer_weight_count(inputs as nat, outputs as nat),
{
    assert(outputs * inputs <= outputs * (inputs + 1)) by (nonlinear_arith);
    assert(outputs * inputs + outputs == outputs * (inputs + 1)) by (nonlinear_arith);
    outputs * inputs + outputs
}

/// Number of weights and biases of a network of the given topology.
pub fn count_weights(topology: &Vec<LayerTopology>) -> (r: usize)
    requires
        weight_count(topology@) <= usize::MAX,
    ensures
        r == weight_count(topology@),
{
    let mut count: usize = 0;
    let mut i: usize = 1;
    if topology.len() < 2 {
        return 0;
    }
    assert(topology@.subrange(0, 1).drop_last() =~= topology@.subrange(0, 0));
    while i < topology.len()
        invariant
            1 <= i <= topology@.len(),
            weight_count(topology@) <= usize::MAX,
            count == weight_count(topology@.subrange(0, i as int)),
        decreases topology@.len() - i,
    {
        proof {
            let next = topology@.subrange(0, i + 1);
            assert(next.drop_last() =~= topology@.subrange(0, i as int));
            lemma_weight_count_prefix(topology@, i + 1);
            assert(weight_count(next) == count + layer_weight_count(
                topology[i - 1].neurons as nat,
                topology[i as int].neurons as nat,
            ));
        }
        count = count + layer_size(topology[i - 1].neurons, topology[i].neurons);
        i = i + 1;
    }
    assert(topology@.subrange(0, i as int) =~= topology@);
    count
}

impl<W: Copy> Neuron<W> {
    /// Reads a neuron fed by `inputs` values from `weights[offset..]`: the bias, then the weights.
    pub fn from_weights(inputs: usize, weights: &Vec<W>, offset: usize) -> (r: Neuron<W>)
        requires
            offset + inputs + 1 <= weights@.len(),
        ensures
            r@ == weights@.subrange(offset as int, offset + inputs + 1),
    {
        let bias = weights[offset];
        let len = weights.len();
        let start = offset + 1;
        let mut ws: Vec<W> = Vec::new();
        let mut i: usize = 0;
        while i < inputs
            invariant
                i <= inputs,
                start == offset + 1,
                len == weights@.len(),
                start + inputs <= weights@.len(),
                ws@ == weights@.subrange(offset + 1, offset + 1 + i),
            decreases inputs - i,
        {
            ws.push(weights[start + i]);
            i = i + 1;
        }
        let r = Neuron { bias, weights: ws };
        assert(r@ =~= weights@.subrange(offset as int, offset + inputs + 1));
        r
    }

    pub fn bias(&self) -> (r: W)
        ensures
            r == self@[0],
    {
        self.bias
    }

    /// The input weights, in input order.
    pub fn weights(&self) -> (r: &Vec<W>)
        ensures
            r@ == self@.drop_first(),
    {
        proof {
            assert(self.weights@ =~= self@.drop_first());
        }
        &self.weights
    }

    /// Appends the neuron's genes to `out`.
    fn push_genes(&self, out: &mut Vec<W>)
        ensures
            final(out)@ == old(out)@ + self@,
    {
        out.push(self.bias);
        let mut i: usize = 0;
        while i < self.weights.len()
            invariant
                i <= self.weights@.len(),
                out@ == old(out)@ + seq![self.bias] + self.weights@.subrange(0, i as int),
            decreases self.weights@.len() - i,
        {
            out.push(self.weights[i]);
            i = i + 1;
        }
        assert(out@ =~= old(out)@ + self@);
    }
}

impl<W: Copy> Layer<W> {
    /// Reads a layer fed by `inputs` values, of the size and activation of
    /// `shape`, from `weights[offset..]`, neuron after neuron.
    pub fn from_weights(
        inputs: usize,
        shape: LayerTopology,
        weights: &Vec<W>,
        offset: usize,
    ) -> (r: Layer<W>)
        requires
            offset + layer_weight_count(inputs as nat, shape.neurons as nat) <= weights@.len(),
        ensures
            layer_shaped(r@, inputs as nat, shape),
            layer_genes(r@) == weights@.subrange(
                offset as int,
                offset + layer_weight_count(inputs as nat, shape.neurons as nat),
            ),
    {
        let ghost end = offset + layer_weight_count(inputs as nat, shape.neurons as nat);
        let len = weights.len();
        let mut neurons: Vec<Neuron<W>> = Vec::new();
        let mut pos: usize = offset;
        let mut j: usize = 0;
        while j < shape.neurons
            invariant
                j <= shape.neurons,
                pos <= end,
                len == weights@.len(),
                end == offset + layer_weight_count(inputs as nat, shape.neurons as nat),
                end <= weights@.len(),
                pos == offset + j * (inputs + 1),
                neurons@.len() == j,
                forall|k: int| 0 <= k < j ==> #[trigger] neurons@[k]@.len() == inputs + 1,
                neuron_models(neurons@).flatten() == weights@.subrange(offset as int, pos as int),
            decreases shape.neurons - j,
        {
            assert((j + 1) * (inputs + 1) <= shape.neurons * (inputs + 1)) by (nonlinear_arith)
                requires
                    j < shape.neurons,
            ;
            assert(pos + inputs + 1 == offset + (j + 1) * (inputs + 1)) by (nonlinear_arith)
                requires
                    pos == offset + j * (inputs + 1),
            ;
            assert(pos + inputs + 1 <= end);
            let neuron = Neuron::from_weights(inputs, weights, pos);
            let ghost prev = neurons@;
            neurons.push(neuron);
            proof {
                let models = neuron_models(neurons@);
                assert(models =~= neuron_models(prev).push(neuron@));
                neuron_models(prev).lemma_flatten_push(neuron@);
                assert(weights@.subrange(offset as int, pos + inputs + 1) =~= weights@.subrange(
                    offset as int,
                    pos as int,
                ) + weights@.subrange(pos as int, pos + inputs + 1));
            }
            pos = pos + inputs + 1;
            j = j + 1;
        }
        let r = Layer { neurons, activation: shape.activation };
        proof {
            assert(pos == end) by (nonlinear_arith)
                requires
                    pos == offset + j * (inputs + 1),
                    j == shape.neurons,
                    end == offset + shape.neurons * (inputs + 1),
            ;
        }
        r
    }

    pub fn activation(&self) -> (r: Activation)
        ensures
            r == self@.0,
    {
        self.activation
    }

    pub fn neurons(&self) -> (r: &Vec<Neuron<W>>)
        ensures
            neuron_models(r@) == self@.1,
    {
        &self.neurons
    }

    /// Appends the layer's genes to `out`.
    fn push_genes(&self, out: &mut Vec<W>)
        ensures
            final(out)@ == old(out)@ + layer_genes(self@),
    {
        let mut j: usize = 0;
        while j < self.neurons.len()
            invariant
                j <= self.neurons@.len(),
                out@ == old(out)@ + neuron_models(self.neurons@).subrange(0, j as int).flatten(),
            decreases self.neurons@.len() - j,
        {
            self.neurons[j].push_genes(out);
            proof {
                lemma_flatten_prefix_push(neuron_models(self.neurons@), j as int);
            }
            j = j + 1;
        }
        assert(neuron_models(self.neurons@).subrange(0, j as int) =~= neuron_models(
            self.neurons@,
        ));
    }
}

impl<W: Copy> Network<W> {
    /// Builds a network of the given topology from its flat weight sequence,
    /// in the order `weights` returns: layer after layer, neuron after
    /// neuron, each neuron's bias before its weights.
    pub fn from_weights(topology: &Vec<LayerTopology>, weights: &Vec<W>) -> (r: Network<W>)
        requires
            topology@.len() > 1,
            weights@.len() == weight_count(topology@),
        ensures
            shaped(r@, topology@),
            network_genes(r@) == weights@,
    {
        let len = weights.len();
        let mut layers: Vec<Layer<W>> = Vec::new();
        let mut pos: usize = 0;
        let mut i: usize = 1;
        assert(topology@.subrange(0, 1).drop_last() =~= topology@.subrange(0, 0));
        while i < topology.len()
            invariant
                1 <= i <= topology@.len(),
                weights@.len() == weight_count(topology@),
                pos == weight_count(topology@.subrange(0, i as int)),
                pos <= weights@.len(),
                len == weights@.len(),
                shaped(layer_models(layers@), topology@.subrange(0, i as int)),
                network_genes(layer_models(layers@)) == weights@.subrange(0, pos as int),
            decreases topology@.len() - i,
        {
            proof {
                let next = topology@.subrange(0, i + 1);
                assert(next.drop_last() =~= topology@.subrange(0, i as int));
                lemma_weight_count_prefix(topology@, i + 1);
                assert(weight_count(next) == pos + layer_weight_count(
                    topology[i - 1].neurons as nat,
                    topology[i as int].neurons as nat,
                ));
            }
            let layer = Layer::from_weights(topology[i - 1].neurons, topology[i], weights, pos);
            let ghost prev = layers@;
            layers.push(layer);
            proof {
                let models = layer_models(layers@);
                assert(models =~= layer_models(prev).push(layer@));
                assert(models.drop_last() =~= layer_models(prev));
                lemma_network_genes_drop_last(models);
                let next = topology@.subrange(0, i + 1);
                assert forall|k: int| 0 <= k < models.len() implies layer_shaped(
                    #[trigger] models[k],
                    next[k].neurons as nat,
                    next[k + 1],
                ) by {
                    if k < models.len() - 1 {
                        assert(models[k] == layer_models(prev)[k]);
                    }
                }
                let end = pos + layer_weight_count(
                    topology[i - 1].neurons as nat,
                    topology[i as int].neurons as nat,
                );
                assert(weights@.subrange(0, end) =~= weights@.subrange(0, pos as int)
                    + weights@.subrange(pos as int, end));
            }
            pos = pos + layer_size(topology[i - 1].neurons, topology[i].neurons);
            i = i + 1;
        }
        assert(topology@.subrange(0, i as int) =~= topology@);
        assert(weights@.subrange(0, pos as int) =~= weights@);
        Network { layers }
    }

    /// The flat weight sequence: layer after layer, neuron after neuron,
    /// each neuron's bias before its weights.
    pub fn weights(&self) -> (r: Vec<W>)
        ensures
            r@ == network_genes(self@),
    {
        let mut out: Vec<W> = Vec::new();
        let mut i: usize = 0;
        while i < self.layers.len()
            invariant
                i <= self.layers@.len(),
                out@ == network_genes(layer_models(self.layers@).subrange(0, i as int)),
            decreases self.layers@.len() - i,
        {
            self.layers[i].push_genes(&mut out);
            proof {
                let all = layer_models(self.layers@);
                let next = all.subrange(0, i + 1);
                assert(next.drop_last() =~= all.subrange(0, i as int));
                lemma_network_genes_drop_last(next);
            }
            i = i + 1;
        }
        assert(layer_models(self.layers@).subrange(0, i as int) =~= layer_models(self.layers@));
        out
    }

    /// The layers, in the order inputs go through them.
    pub fn layers(&self) -> (r: &Vec<Layer<W>>)
        ensures
            layer_models(r@) == self@,
    {
        &self.layers
    }
}

} // verus!
