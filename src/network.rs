//! The per-neuron network: each neuron holds its bias and one weight per
//! input. Its genes are, layer by layer from the input and neuron by neuron,
//! the bias followed by the weights in input order.
use crate::chromosome::Gene;
use crate::topology::{
    LayerTopology,
    gene_count,
    gene_count_of,
    genes_before,
    lemma_genes_before_monotone,
};
use rand::rngs::StdRng;
use vstd::prelude::*;

verus! {

#[derive(Clone, Debug)]
pub struct Neuron<G> {
    bias: G,
    weights: Vec<G>,
}

#[derive(Clone, Debug)]
pub struct Layer<G> {
    inputs: usize,
    neurons: Vec<Neuron<G>>,
}

#[derive(Clone, Debug)]
pub struct Network<G> {
    layers: Vec<Layer<G>>,
}

impl<G> Neuron<G> {
    pub closed spec fn bias_spec(&self) -> G {
        self.bias
    }

    pub closed spec fn weights_view(&self) -> Seq<G> {
        self.weights@
    }
}

impl<G: Copy> Neuron<G> {
    pub fn bias(&self) -> (r: G)
        ensures
            r == self.bias_spec(),
    {
        self.bias
    }

    /// One weight per input, in input order.
    pub fn weights(&self) -> (r: &Vec<G>)
        ensures
            r@ == self.weights_view(),
    {
        &self.weights
    }
}

impl<G> Layer<G> {
    pub closed spec fn neurons_view(&self) -> Seq<Neuron<G>> {
        self.neurons@
    }

    pub closed spec fn inputs_spec(&self) -> nat {
        self.inputs as nat
    }

    pub fn num_inputs(&self) -> (r: usize)
        ensures
            r == self.inputs_spec(),
    {
        self.inputs
    }

    pub fn neurons(&self) -> (r: &Vec<Neuron<G>>)
        ensures
            r@ == self.neurons_view(),
    {
        &self.neurons
    }
}

/// Where neuron `j` of a layer with `inputs` inputs starts, counted from the layer's first gene.
pub open spec fn neuron_offset(j: int, inputs: int) -> int {
    j * (inputs + 1)
}

proof fn lemma_neuron_fits(j: int, i: int, inputs: int, outputs: int)
    requires
        0 <= j < outputs,
        0 <= i <= inputs,
    ensures
        0 <= neuron_offset(j, inputs) + i < outputs * (inputs + 1),
        neuron_offset(j, inputs) + inputs + 1 == neuron_offset(j + 1, inputs),
        neuron_offset(j + 1, inputs) <= outputs * (inputs + 1),
{
    assert(0 <= j * (inputs + 1)) by (nonlinear_arith)
        requires 0 <= j, 0 <= inputs;
    assert((j + 1) * (inputs + 1) <= outputs * (inputs + 1)) by (nonlinear_arith)
        requires j + 1 <= outputs, 0 <= inputs;
    assert((j + 1) * (inputs + 1) == j * (inputs + 1) + inputs + 1) by (nonlinear_arith);
}

impl<G> Network<G> {
    pub closed spec fn layers_view(&self) -> Seq<Layer<G>> {
        self.layers@
    }

    /// The neuron counts of the network, input layer first.
    pub open spec fn topology_is(&self, t: Seq<LayerTopology>) -> bool {
        let ls = self.layers_view();
        &&& t.len() == ls.len() + 1
        &&& t.len() >= 2
        &&& forall|k: int|
            0 <= k < ls.len() ==> (#[trigger] ls[k]).neurons_view().len() == t[k + 1].neurons
                && ls[k].inputs_spec() == t[k].neurons
        &&& forall|k: int, j: int|
            0 <= k < ls.len() && 0 <= j < ls[k].neurons_view().len() ==> (
            #[trigger] ls[k].neurons_view()[j]).weights_view().len() == t[k].neurons
    }

    /// `w` is the gene sequence of this network of topology `t`: neuron `j`
    /// of layer `k` has its bias at `genes_before(t, k) + j * (inputs + 1)`
    /// and its weights right after.
    pub open spec fn encoded_by(&self, t: Seq<LayerTopology>, w: Seq<G>) -> bool {
        let ls = self.layers_view();
        &&& w.len() == gene_count(t)
        &&& forall|k: int, j: int|
            0 <= k < ls.len() && 0 <= j < ls[k].neurons_view().len() ==> w[genes_before(t, k)
                + neuron_offset(j, t[k].neurons as int)] == (
            #[trigger] ls[k].neurons_view()[j]).bias_spec()
        &&& forall|k: int, j: int, i: int|
            0 <= k < ls.len() && 0 <= j < ls[k].neurons_view().len() && 0 <= i < t[k].neurons
                ==> w[genes_before(t, k) + neuron_offset(j, t[k].neurons as int) + 1 + i]
                == #[trigger] ls[k].neurons_view()[j].weights_view()[i]
    }

    /// The neuron counts of the network, input layer first.
    pub open spec fn topology(&self) -> Seq<LayerTopology> {
        let ls = self.layers_view();
        Seq::new(
            ls.len() + 1,
            |i: int|
                if i < ls.len() {
                    LayerTopology { neurons: ls[i].inputs_spec() as usize }
                } else {
                    LayerTopology { neurons: ls[ls.len() - 1].neurons_view().len() as usize }
                },
        )
    }

    pub open spec fn well_formed(&self) -> bool {
        self.layers_view().len() >= 1 && self.topology_is(self.topology())
    }

    /// The layers, input side first.
    pub fn layers(&self) -> (r: &Vec<Layer<G>>)
        ensures
            r@ == self.layers_view(),
    {
        &self.layers
    }
}

impl<G: Copy> Network<G> {
    /// Builds the network of topology `layers` from its genes, consuming them
    /// all in the per-neuron ordering.
    #[verifier::spinoff_prover]
    pub fn from_weights(layers: &Vec<LayerTopology>, weights: Vec<G>) -> (r: Network<G>)
        requires
            layers@.len() >= 2,
            weights@.len() == gene_count(layers@),
        ensures
            r.topology_is(layers@),
            r.topology() == layers@,
            r.well_formed(),
            r.encoded_by(layers@, weights@),
    {
        let ghost t = layers@;
        let total = weights.len();
        let mut built: Vec<Layer<G>> = Vec::new();
        let mut pos: usize = 0;
        let mut k: usize = 0;
        while k < layers.len() - 1
            invariant
                pos == genes_before(t, k as int),
                t == layers@,
                t.len() >= 2,
                total == weights@.len(),
                weights@.len() == gene_count(t),
                k + 1 <= t.len(),
                built@.len() == k,
                forall|m: int|
                    0 <= m < k ==> (#[trigger] built@[m]).neurons@.len() == t[m + 1].neurons
                        && built@[m].inputs == t[m].neurons,
                forall|m: int, j: int|
                    0 <= m < k && 0 <= j < built@[m].neurons@.len() ==> (
                    #[trigger] built@[m].neurons@[j]).weights@.len() == t[m].neurons,
                forall|m: int, j: int|
                    0 <= m < k && 0 <= j < built@[m].neurons@.len() ==> weights@[genes_before(t, m)
                        + neuron_offset(j, t[m].neurons as int)] == (
                    #[trigger] built@[m].neurons@[j]).bias,
                forall|m: int, j: int, i: int|
                    0 <= m < k && 0 <= j < built@[m].neurons@.len() && 0 <= i < t[m].neurons
                        ==> weights@[genes_before(t, m) + neuron_offset(j, t[m].neurons as int) + 1
                        + i] == #[trigger] built@[m].neurons@[j].weights@[i],
            decreases t.len() - k,
        {
            let inputs = layers[k].neurons;
            let outputs = layers[k + 1].neurons;
            let ghost base = genes_before(t, k as int);
            proof {
                lemma_genes_before_monotone(t, k + 1, t.len() - 1);
                assert(genes_before(t, k + 1) == base + (inputs + 1) * outputs);
                assert((inputs + 1) * outputs == outputs * (inputs + 1)) by (nonlinear_arith);
            }
            let mut neurons: Vec<Neuron<G>> = Vec::new();
            let mut j: usize = 0;
            while j < outputs
                invariant
                    total == weights@.len(),
                    base + outputs * (inputs + 1) <= weights@.len(),
                    j <= outputs,
                    pos == base + neuron_offset(j as int, inputs as int),
                    neurons@.len() == j,
                    forall|a: int| 0 <= a < j ==> (#[trigger] neurons@[a]).weights@.len() == inputs,
                    forall|a: int|
                        0 <= a < j ==> weights@[base + neuron_offset(a, inputs as int)] == (
                        #[trigger] neurons@[a]).bias,
                    forall|a: int, i: int|
                        0 <= a < j && 0 <= i < inputs ==> weights@[base + neuron_offset(a, inputs as int)
                            + 1 + i] == #[trigger] neurons@[a].weights@[i],
                decreases outputs - j,
            {
                proof {
                    lemma_neuron_fits(j as int, inputs as int, inputs as int, outputs as int);
                }
                let bias = weights[pos];
                let mut ws: Vec<G> = Vec::new();
                let mut i: usize = 0;
                while i < inputs
                    invariant
                        total == weights@.len(),
                        pos + inputs + 1 <= weights@.len(),
                        i <= inputs,
                        ws@.len() == i,
                        forall|b: int| 0 <= b < i ==> weights@[pos + 1 + b] == #[trigger] ws@[b],
                    decreases inputs - i,
                {
                    ws.push(weights[pos + 1 + i]);
                    i = i + 1;
                }
                neurons.push(Neuron { bias, weights: ws });
                pos = pos + inputs + 1;
                j = j + 1;
            }
            proof {
                assert(neuron_offset(outputs as int, inputs as int) == outputs * (inputs + 1));
            }
            built.push(Layer { inputs, neurons });
            k = k + 1;
        }
        let r = Network { layers: built };
        assert(r.topology() =~= t);
        r
    }

    /// The network's genes: for each layer and each neuron in order, its
    /// bias and then its weights.
    #[verifier::spinoff_prover]
    #[verifier::rlimit(40)]
    pub fn weights(&self) -> (r: Vec<G>)
        requires
            self.well_formed(),
        ensures
            r@.len() == gene_count(self.topology()),
            self.encoded_by(self.topology(), r@),
    {
        let ghost t = self.topology();
        let ghost ls = self.layers@;
        let mut out: Vec<G> = Vec::new();
        let mut k: usize = 0;
        while k < self.layers.len()
            invariant
                t == self.topology(),
                ls == self.layers@,
                self.well_formed(),
                k <= ls.len(),
                out@.len() == genes_before(t, k as int),
                forall|m: int, j: int|
                    0 <= m < k && 0 <= j < ls[m].neurons@.len() ==> out@[genes_before(t, m)
                        + neuron_offset(j, t[m].neurons as int)] == (#[trigger] ls[m].neurons@[j]).bias,
                forall|m: int, j: int, i: int|
                    0 <= m < k && 0 <= j < ls[m].neurons@.len() && 0 <= i < t[m].neurons
                        ==> out@[genes_before(t, m) + neuron_offset(j, t[m].neurons as int) + 1 + i]
                        == #[trigger] ls[m].neurons@[j].weights@[i],
            decreases ls.len() - k,
        {
            let layer = &self.layers[k];
            let inputs = layer.inputs;
            let ghost start = out@.len() as int;
            let ghost prev = out@;
            proof {
                assert(t[k as int].neurons == inputs);
                assert(t[k + 1].neurons == layer.neurons@.len());
            }
            let mut j: usize = 0;
            while j < layer.neurons.len()
                invariant
                    self.well_formed(),
                    t == self.topology(),
                    ls == self.layers@,
                    k < ls.len(),
                    layer == ls[k as int],
                    inputs == t[k as int].neurons,
                    j <= layer.neurons@.len(),
                    prev.len() == start,
                    out@.len() == start + neuron_offset(j as int, inputs as int),
                    forall|a: int| 0 <= a < start ==> out@[a] == #[trigger] prev[a],
                    forall|a: int|
                        0 <= a < j ==> out@[start + neuron_offset(a, inputs as int)] == (
                        #[trigger] layer.neurons@[a]).bias,
                    forall|a: int, i: int|
                        0 <= a < j && 0 <= i < inputs ==> out@[start + neuron_offset(a, inputs as int)
                            + 1 + i] == #[trigger] layer.neurons@[a].weights@[i],
                decreases layer.neurons@.len() - j,
            {
                let neuron = &layer.neurons[j];
                proof {
                    assert(neuron.weights@.len() == inputs);
                    lemma_neuron_fits(j as int, 0, inputs as int, layer.neurons@.len() as int);
                }
                let ghost nstart = out@.len() as int;
                let ghost prev2 = out@;
                out.push(neuron.bias);
                proof {
                    assert forall|a: int| 0 <= a < nstart implies out@[a] == #[trigger] prev2[a] by {
                        assert(out@ == prev2.push(neuron.bias));
                    }
                }
                let mut i: usize = 0;
                while i < neuron.weights.len()
                    invariant
                        i <= neuron.weights@.len(),
                        prev2.len() == nstart,
                        out@.len() == nstart + 1 + i,
                        out@[nstart] == neuron.bias,
                        forall|a: int| 0 <= a < nstart ==> out@[a] == #[trigger] prev2[a],
                        forall|b: int| 0 <= b < i ==> out@[nstart + 1 + b] == #[trigger] neuron.weights@[b],
                    decreases neuron.weights@.len() - i,
                {
                    let ghost pushed_from = out@;
                    out.push(neuron.weights[i]);
                    proof {
                        assert forall|a: int| 0 <= a < pushed_from.len() implies #[trigger] out@[a]
                            == pushed_from[a] by {
                            assert(out@ == pushed_from.push(neuron.weights@[i as int]));
                        }
                        assert(out@[nstart] == pushed_from[nstart]);
                        assert forall|b: int| 0 <= b < i + 1 implies out@[nstart + 1 + b]
                            == #[trigger] neuron.weights@[b] by {
                            if b < i {
                                assert(out@[nstart + 1 + b] == pushed_from[nstart + 1 + b]);
                            }
                        }
                        assert forall|a: int| 0 <= a < nstart implies out@[a] == #[trigger] prev2[a] by {
                            assert(out@[a] == pushed_from[a]);
                        }
                    }
                    i = i + 1;
                }
                proof {
                    assert forall|a: int| 0 <= a < start implies out@[a] == #[trigger] prev[a] by {
                        assert(out@[a] == prev2[a]);
                    }
                    assert forall|a: int|
                        0 <= a < j + 1 implies out@[start + neuron_offset(a, inputs as int)] == (
                        #[trigger] layer.neurons@[a]).bias by {
                        if a < j {
                            lemma_neuron_fits(a, 0, inputs as int, j as int);
                            assert(out@[start + neuron_offset(a, inputs as int)] == prev2[start
                                + neuron_offset(a, inputs as int)]);
                        }
                    }
                    assert forall|a: int, b: int|
                        0 <= a < j + 1 && 0 <= b < inputs implies out@[start + neuron_offset(a, inputs as int)
                            + 1 + b] == #[trigger] layer.neurons@[a].weights@[b] by {
                        if a < j {
                            lemma_neuron_fits(a, b + 1, inputs as int, j as int);
                            assert(out@[start + neuron_offset(a, inputs as int) + 1 + b] == prev2[start
                                + neuron_offset(a, inputs as int) + 1 + b]);
                        } else {
                            assert(out@[nstart + 1 + b] == neuron.weights@[b]);
                        }
                    }
                    lemma_neuron_fits(j as int, inputs as int, inputs as int, layer.neurons@.len() as int);
                }
                j = j + 1;
            }
            proof {
                let outputs = layer.neurons@.len() as int;
                assert(genes_before(t, k + 1) == start + (inputs + 1) * outputs);
                assert((inputs + 1) * outputs == outputs * (inputs + 1)) by (nonlinear_arith);
                assert forall|m: int, j: int|
                    0 <= m < k + 1 && 0 <= j < ls[m].neurons@.len() implies out@[genes_before(t, m)
                        + neuron_offset(j, t[m].neurons as int)] == (#[trigger] ls[m].neurons@[j]).bias by {
                    if m < k {
                        lemma_genes_before_monotone(t, m + 1, k as int);
                        lemma_neuron_fits(j, 0, t[m].neurons as int, ls[m].neurons@.len() as int);
                        assert(t[m + 1].neurons == ls[m].neurons@.len());
                        assert(genes_before(t, m + 1) == genes_before(t, m) + (t[m].neurons + 1) * t[m + 1].neurons);
                        assert((t[m].neurons + 1) * t[m + 1].neurons == t[m + 1].neurons * (t[m].neurons + 1)) by (nonlinear_arith);
                        let p = genes_before(t, m) + neuron_offset(j, t[m].neurons as int);
                        assert(out@[p] == prev[p]);
                    }
                }
                assert forall|m: int, j: int, i: int|
                    0 <= m < k + 1 && 0 <= j < ls[m].neurons@.len() && 0 <= i < t[m].neurons
                        implies out@[genes_before(t, m) + neuron_offset(j, t[m].neurons as int) + 1 + i]
                        == #[trigger] ls[m].neurons@[j].weights@[i] by {
                    if m < k {
                        lemma_genes_before_monotone(t, m + 1, k as int);
                        lemma_neuron_fits(j, i + 1, t[m].neurons as int, ls[m].neurons@.len() as int);
                        assert(t[m + 1].neurons == ls[m].neurons@.len());
                        assert(genes_before(t, m + 1) == genes_before(t, m) + (t[m].neurons + 1) * t[m + 1].neurons);
                        assert((t[m].neurons + 1) * t[m + 1].neurons == t[m + 1].neurons * (t[m].neurons + 1)) by (nonlinear_arith);
                        let p = genes_before(t, m) + neuron_offset(j, t[m].neurons as int) + 1 + i;
                        assert(out@[p] == prev[p]);
                    }
                }
            }
            k = k + 1;
        }
        out
    }
}

impl<G: Gene> Network<G> {
    /// A network of topology `layers` whose biases and weights are each drawn
    /// uniformly from `[-1, 1]`.
    pub fn random(rng: &mut StdRng, layers: &Vec<LayerTopology>) -> (r: Network<G>)
        requires
            layers@.len() >= 2,
            gene_count(layers@) <= usize::MAX,
        ensures
            r.well_formed(),
            r.topology() == layers@,
    {
        let count = match gene_count_of(layers) {
            Some(c) => c,
            None => 0,
        };
        let mut genes: Vec<G> = Vec::new();
        let mut i: usize = 0;
        while i < count
            invariant
                i <= count,
                genes@.len() == i,
            decreases count - i,
        {
            genes.push(G::random_weight(rng));
            i = i + 1;
        }
        Network::from_weights(layers, genes)
    }

    /// Evaluates the network: each neuron yields `relu(bias + weights · inputs)`.
    pub fn forward(&self, inputs: Vec<G>) -> (r: Vec<G>)
        requires
            self.well_formed(),
            inputs@.len() == self.topology()[0].neurons,
        ensures
            r@.len() == self.topology()[self.layers_view().len() as int].neurons,
    {
        let ghost t = self.topology();
        let mut current = inputs;
        let mut k: usize = 0;
        while k < self.layers.len()
            invariant
                self.well_formed(),
                t == self.topology(),
                k <= self.layers@.len(),
                current@.len() == t[k as int].neurons,
            decreases self.layers@.len() - k,
        {
            let layer = &self.layers[k];
            proof {
                assert(layer.inputs == t[k as int].neurons);
                assert(layer.neurons@.len() == t[k + 1].neurons);
            }
            let mut next: Vec<G> = Vec::new();
            let mut j: usize = 0;
            while j < layer.neurons.len()
                invariant
                    self.well_formed(),
                    t == self.topology(),
                    k < self.layers@.len(),
                    layer == self.layers@[k as int],
                    current@.len() == t[k as int].neurons,
                    j <= layer.neurons@.len(),
                    next@.len() == j,
                decreases layer.neurons@.len() - j,
            {
                let neuron = &layer.neurons[j];
                proof {
                    assert(neuron.weights@.len() == t[k as int].neurons);
                }
                let mut sum = G::zero();
                let mut i: usize = 0;
                while i < neuron.weights.len()
                    invariant
                        i <= neuron.weights@.len(),
                        current@.len() == neuron.weights@.len(),
                    decreases neuron.weights@.len() - i,
                {
                    sum = sum.plus(current[i].times(neuron.weights[i]));
                    i = i + 1;
                }
                next.push(neuron.bias.plus(sum).relu());
                j = j + 1;
            }
            current = next;
            k = k + 1;
        }
        current
    }
}

/// Decoding is exact: two networks of topology `t` that the same gene
/// sequence encodes hold the same biases and weights, neuron by neuron.
/// With `from_weights` and `weights` this is the round trip
/// `from_weights(t, n.weights(t))` = `n`.
pub proof fn lemma_decode_encode<G>(n: Network<G>, m: Network<G>, t: Seq<LayerTopology>, w: Seq<G>)
    requires
        n.topology_is(t),
        m.topology_is(t),
        n.encoded_by(t, w),
        m.encoded_by(t, w),
    ensures
        n.layers_view().len() == m.layers_view().len(),
        forall|k: int, j: int|
            0 <= k < n.layers_view().len() && 0 <= j < n.layers_view()[k].neurons_view().len() ==> {
                &&& (#[trigger] n.layers_view()[k].neurons_view()[j]).bias_spec()
                    == m.layers_view()[k].neurons_view()[j].bias_spec()
                &&& n.layers_view()[k].neurons_view()[j].weights_view()
                    == m.layers_view()[k].neurons_view()[j].weights_view()
            },
{
    let nl = n.layers_view();
    let ml = m.layers_view();
    assert forall|k: int, j: int|
        0 <= k < nl.len() && 0 <= j < nl[k].neurons_view().len() implies {
        &&& (#[trigger] nl[k].neurons_view()[j]).bias_spec() == ml[k].neurons_view()[j].bias_spec()
        &&& nl[k].neurons_view()[j].weights_view() == ml[k].neurons_view()[j].weights_view()
    } by {
        let a = nl[k].neurons_view()[j];
        let b = ml[k].neurons_view()[j];
        assert(ml[k].neurons_view().len() == t[k + 1].neurons);
        assert(w[genes_before(t, k) + neuron_offset(j, t[k].neurons as int)] == a.bias_spec());
        assert(w[genes_before(t, k) + neuron_offset(j, t[k].neurons as int)] == b.bias_spec());
        assert forall|i: int| 0 <= i < a.weights_view().len() implies a.weights_view()[i]
            == b.weights_view()[i] by {
            let p = genes_before(t, k) + neuron_offset(j, t[k].neurons as int) + 1 + i;
            assert(w[p] == nl[k].neurons_view()[j].weights_view()[i]);
            assert(w[p] == ml[k].neurons_view()[j].weights_view()[i]);
        }
        assert(a.weights_view() =~= b.weights_view());
    }
}

} // verus!
