//! The flattened-matrix network: each layer holds a row-major weight matrix
//! (one row per output neuron) and a bias vector. Its genes are, layer by
//! layer from the input, the matrix entries in row-major order followed by
//! the biases.
use crate::chromosome::Gene;
use crate::topology::{
    LayerTopology,
    gene_count,
    gene_count_of,
    genes_before,
    lemma_genes_before_monotone,
};
use crate::util::{matrix_vector_mult, vector_vector_add};
use rand::rngs::StdRng;
use vstd::prelude::*;

verus! {

/// One layer of weights: `weights` is `num_outputs` rows of `num_inputs` entries.
#[derive(Clone, Debug)]
pub struct MatrixLayer<G> {
    weights: Vec<G>,
    bias: Vec<G>,
    num_inputs: usize,
    num_outputs: usize,
}

/// A feed-forward network made of matrix layers.
#[derive(Clone, Debug)]
pub struct MatrixNetwork<G> {
    layers: Vec<MatrixLayer<G>>,
}

impl<G> MatrixLayer<G> {
    pub closed spec fn weights_view(&self) -> Seq<G> {
        self.weights@
    }

    pub closed spec fn bias_view(&self) -> Seq<G> {
        self.bias@
    }

    pub closed spec fn inputs(&self) -> nat {
        self.num_inputs as nat
    }

    pub closed spec fn outputs(&self) -> nat {
        self.num_outputs as nat
    }

    /// The weight matrix, row-major, one row per output neuron.
    pub fn weights(&self) -> (r: &Vec<G>)
        ensures
            r@ == self.weights_view(),
    {
        &self.weights
    }

    /// The bias of each output neuron.
    pub fn bias(&self) -> (r: &Vec<G>)
        ensures
            r@ == self.bias_view(),
    {
        &self.bias
    }

    pub fn num_inputs(&self) -> (r: usize)
        ensures
            r == self.inputs(),
    {
        self.num_inputs
    }

    pub fn num_outputs(&self) -> (r: usize)
        ensures
            r == self.outputs(),
    {
        self.num_outputs
    }
}

impl<G> MatrixNetwork<G> {
    pub closed spec fn layers_view(&self) -> Seq<MatrixLayer<G>> {
        self.layers@
    }

    /// Every layer holds a full matrix and bias vector, and each layer's
    /// outputs feed the next layer's inputs.
    pub open spec fn well_formed(&self) -> bool {
        let ls = self.layers_view();
        &&& ls.len() >= 1
        &&& forall|k: int|
            0 <= k < ls.len() ==> (#[trigger] ls[k]).weights_view().len() == ls[k].inputs()
                * ls[k].outputs() && ls[k].bias_view().len() == ls[k].outputs()
        &&& forall|k: int|
            0 <= k < ls.len() - 1 ==> (#[trigger] ls[k]).outputs() == ls[k + 1].inputs()
    }

    /// The neuron counts of the network, input layer first.
    pub open spec fn topology(&self) -> Seq<LayerTopology> {
        let ls = self.layers_view();
        Seq::new(
            ls.len() + 1,
            |i: int|
                if i < ls.len() {
                    LayerTopology { neurons: ls[i].inputs() as usize }
                } else {
                    LayerTopology { neurons: ls[ls.len() - 1].outputs() as usize }
                },
        )
    }

    /// `w` is this network's gene sequence: layer `k` starts at
    /// `genes_before(topology, k)` with its matrix, then its biases.
    pub open spec fn encoded_by(&self, w: Seq<G>) -> bool {
        let ls = self.layers_view();
        let t = self.topology();
        &&& w.len() == gene_count(t)
        &&& forall|k: int, i: int|
            0 <= k < ls.len() && 0 <= i < ls[k].inputs() * ls[k].outputs() ==> w[genes_before(t, k)
                + i] == #[trigger] ls[k].weights_view()[i]
        &&& forall|k: int, j: int|
            0 <= k < ls.len() && 0 <= j < ls[k].outputs() ==> w[genes_before(t, k) + ls[k].inputs()
                * ls[k].outputs() + j] == #[trigger] ls[k].bias_view()[j]
    }

    /// The layers, input side first.
    pub fn layers(&self) -> (r: &Vec<MatrixLayer<G>>)
        ensures
            r@ == self.layers_view(),
    {
        &self.layers
    }
}

/// Decoding is exact: two well-formed networks of one topology that the same
/// gene sequence encodes hold the same matrices and biases, layer by layer.
/// With `from_weights` and `weights` this is the round trip
/// `from_weights(n.topology(), n.weights())` = `n`.
pub proof fn lemma_decode_encode<G>(n: MatrixNetwork<G>, m: MatrixNetwork<G>, w: Seq<G>)
    requires
        n.well_formed(),
        m.well_formed(),
        n.topology() == m.topology(),
        n.encoded_by(w),
        m.encoded_by(w),
    ensures
        n.layers_view().len() == m.layers_view().len(),
        forall|k: int|
            0 <= k < n.layers_view().len() ==> {
                &&& (#[trigger] n.layers_view()[k]).inputs() == m.layers_view()[k].inputs()
                &&& n.layers_view()[k].outputs() == m.layers_view()[k].outputs()
                &&& n.layers_view()[k].weights_view() == m.layers_view()[k].weights_view()
                &&& n.layers_view()[k].bias_view() == m.layers_view()[k].bias_view()
            },
{
    let t = n.topology();
    let nl = n.layers_view();
    let ml = m.layers_view();
    assert(t.len() == nl.len() + 1);
    assert(m.topology().len() == ml.len() + 1);
    assert forall|k: int| 0 <= k < nl.len() implies {
        &&& (#[trigger] nl[k]).inputs() == ml[k].inputs()
        &&& nl[k].outputs() == ml[k].outputs()
        &&& nl[k].weights_view() == ml[k].weights_view()
        &&& nl[k].bias_view() == ml[k].bias_view()
    } by {
        assert(t[k] == m.topology()[k]);
        assert(t[k + 1] == m.topology()[k + 1]);
        if k < nl.len() - 1 {
            assert(nl[k].outputs() == nl[k + 1].inputs());
            assert(ml[k].outputs() == ml[k + 1].inputs());
        }
        assert(nl[k].outputs() == t[k + 1].neurons);
        assert(ml[k].outputs() == m.topology()[k + 1].neurons);
        assert forall|i: int| 0 <= i < nl[k].weights_view().len() implies nl[k].weights_view()[i]
            == ml[k].weights_view()[i] by {
            assert(w[genes_before(t, k) + i] == nl[k].weights_view()[i]);
            assert(w[genes_before(t, k) + i] == ml[k].weights_view()[i]);
        }
        assert forall|j: int| 0 <= j < nl[k].bias_view().len() implies nl[k].bias_view()[j]
            == ml[k].bias_view()[j] by {
            let p = genes_before(t, k) + nl[k].inputs() * nl[k].outputs() + j;
            assert(w[p] == nl[k].bias_view()[j]);
            assert(w[p] == ml[k].bias_view()[j]);
        }
        assert(nl[k].weights_view() =~= ml[k].weights_view());
        assert(nl[k].bias_view() =~= ml[k].bias_view());
    }
}

impl<G: Copy> MatrixNetwork<G> {
    /// Builds the network of topology `layers` from its genes, consuming them
    /// all in the matrix ordering.
    #[verifier::spinoff_prover]
    pub fn from_weights(layers: &Vec<LayerTopology>, weights: Vec<G>) -> (r: MatrixNetwork<G>)
        requires
            layers@.len() >= 2,
            weights@.len() == gene_count(layers@),
        ensures
            r.well_formed(),
            r.topology() == layers@,
            r.encoded_by(weights@),
    {
        let ghost t = layers@;
        let mut built: Vec<MatrixLayer<G>> = Vec::new();
        let total = weights.len();
        let mut pos: usize = 0;
        let mut k: usize = 0;
        while k < layers.len() - 1
            invariant
                total == weights@.len(),
                t == layers@,
                t.len() >= 2,
                weights@.len() == gene_count(t),
                k + 1 <= t.len(),
                built@.len() == k,
                pos == genes_before(t, k as int),
                forall|m: int|
                    0 <= m < k ==> {
                        let l = #[trigger] built@[m];
                        &&& l.num_inputs == t[m].neurons
                        &&& l.num_outputs == t[m + 1].neurons
                        &&& l.weights@.len() == l.num_inputs * l.num_outputs
                        &&& l.bias@.len() == l.num_outputs
                        &&& forall|i: int|
                            0 <= i < l.num_inputs * l.num_outputs ==> weights@[genes_before(t, m)
                                + i] == #[trigger] l.weights@[i]
                        &&& forall|j: int|
                            0 <= j < l.num_outputs ==> weights@[genes_before(t, m) + l.num_inputs
                                * l.num_outputs + j] == #[trigger] l.bias@[j]
                    },
            decreases t.len() - k,
        {
            let num_inputs = layers[k].neurons;
            let num_outputs = layers[k + 1].neurons;
            proof {
                lemma_genes_before_monotone(t, k + 1, t.len() - 1);
                assert(genes_before(t, k + 1) == pos + (num_inputs + 1) * num_outputs);
                assert((num_inputs + 1) * num_outputs == num_inputs * num_outputs + num_outputs)
                    by (nonlinear_arith);
                assert(pos + num_inputs * num_outputs + num_outputs <= weights@.len());
            }
            let cells = num_inputs * num_outputs;
            let mut matrix: Vec<G> = Vec::new();
            let mut i: usize = 0;
            while i < cells
                invariant
                    i <= cells,
                    matrix@.len() == i,
                    pos + cells + num_outputs <= weights@.len(),
                    total == weights@.len(),
                    forall|a: int| 0 <= a < i ==> weights@[pos + a] == #[trigger] matrix@[a],
                decreases cells - i,
            {
                matrix.push(weights[pos + i]);
                i = i + 1;
            }
            let mut bias: Vec<G> = Vec::new();
            let mut j: usize = 0;
            while j < num_outputs
                invariant
                    j <= num_outputs,
                    bias@.len() == j,
                    pos + cells + num_outputs <= weights@.len(),
                    total == weights@.len(),
                    forall|a: int| 0 <= a < j ==> weights@[pos + cells + a] == #[trigger] bias@[a],
                decreases num_outputs - j,
            {
                bias.push(weights[pos + cells + j]);
                j = j + 1;
            }
            built.push(MatrixLayer { weights: matrix, bias, num_inputs, num_outputs });
            pos = pos + cells + num_outputs;
            k = k + 1;
        }
        let r = MatrixNetwork { layers: built };
        assert(r.topology() =~= t);
        r
    }

    /// The network's genes: for each layer, its matrix row by row, then its biases.
    #[verifier::spinoff_prover]
    pub fn weights(&self) -> (r: Vec<G>)
        requires
            self.well_formed(),
        ensures
            r@.len() == gene_count(self.topology()),
            self.encoded_by(r@),
    {
        let ghost t = self.topology();
        let ghost ls = self.layers@;
        let mut out: Vec<G> = Vec::new();
        let mut k: usize = 0;
        while k < self.layers.len()
            invariant
                t == self.topology(),
                ls == self.layers@,
                self.well_formed(),
                k <= ls.len(),
                out@.len() == genes_before(t, k as int),
                forall|m: int, i: int|
                    0 <= m < k && 0 <= i < ls[m].num_inputs * ls[m].num_outputs ==> out@[genes_before(t, m)
                        + i] == #[trigger] ls[m].weights@[i],
                forall|m: int, j: int|
                    0 <= m < k && 0 <= j < ls[m].num_outputs ==> out@[genes_before(t, m)
                        + ls[m].num_inputs * ls[m].num_outputs + j] == #[trigger] ls[m].bias@[j],
            decreases ls.len() - k,
        {
            let layer = &self.layers[k];
            let ghost start = out@.len();
            proof {
                assert(t[k as int].neurons == layer.num_inputs);
                assert(t[k + 1].neurons == layer.num_outputs);
                assert((layer.num_inputs + 1) * layer.num_outputs == layer.num_inputs
                    * layer.num_outputs + layer.num_outputs) by (nonlinear_arith);
                assert(genes_before(t, k + 1) == start + layer.weights@.len() + layer.bias@.len());
            }
            let ghost prev = out@;
            let mut i: usize = 0;
            while i < layer.weights.len()
                invariant
                    i <= layer.weights@.len(),
                    out@.len() == start + i,
                    forall|a: int| 0 <= a < start ==> out@[a] == #[trigger] prev[a],
                    forall|a: int| 0 <= a < i ==> out@[start + a] == #[trigger] layer.weights@[a],
                decreases layer.weights@.len() - i,
            {
                out.push(layer.weights[i]);
                i = i + 1;
            }
            let mut j: usize = 0;
            while j < layer.bias.len()
                invariant
                    j <= layer.bias@.len(),
                    out@.len() == start + layer.weights@.len() + j,
                    forall|a: int| 0 <= a < start ==> out@[a] == #[trigger] prev[a],
                    forall|a: int|
                        0 <= a < layer.weights@.len() ==> out@[start + a] == #[trigger] layer.weights@[a],
                    forall|a: int|
                        0 <= a < j ==> out@[start + layer.weights@.len() + a] == #[trigger] layer.bias@[a],
                decreases layer.bias@.len() - j,
            {
                out.push(layer.bias[j]);
                j = j + 1;
            }
            proof {
                assert forall|m: int, i: int|
                    0 <= m < k && 0 <= i < ls[m].num_inputs * ls[m].num_outputs implies out@[genes_before(t, m)
                        + i] == #[trigger] ls[m].weights@[i] by {
                    lemma_genes_before_monotone(t, m + 1, k as int);
                    assert((ls[m].num_inputs + 1) * ls[m].num_outputs == ls[m].num_inputs
                        * ls[m].num_outputs + ls[m].num_outputs) by (nonlinear_arith);
                    assert(t[m].neurons == ls[m].num_inputs);
                    assert(t[m + 1].neurons == ls[m].num_outputs);
                    assert(prev[genes_before(t, m) + i] == out@[genes_before(t, m) + i]);
                }
                assert forall|m: int, j: int|
                    0 <= m < k && 0 <= j < ls[m].num_outputs implies out@[genes_before(t, m)
                        + ls[m].num_inputs * ls[m].num_outputs + j] == #[trigger] ls[m].bias@[j] by {
                    lemma_genes_before_monotone(t, m + 1, k as int);
                    assert((ls[m].num_inputs + 1) * ls[m].num_outputs == ls[m].num_inputs
                        * ls[m].num_outputs + ls[m].num_outputs) by (nonlinear_arith);
                    assert(t[m].neurons == ls[m].num_inputs);
                    assert(t[m + 1].neurons == ls[m].num_outputs);
                    let p = genes_before(t, m) + ls[m].num_inputs * ls[m].num_outputs + j;
                    assert(prev[p] == out@[p]);
                }
                assert forall|i: int|
                    0 <= i < ls[k as int].num_inputs * ls[k as int].num_outputs implies out@[genes_before(t, k as int)
                        + i] == #[trigger] ls[k as int].weights@[i] by {
                    assert(out@[start + i] == layer.weights@[i]);
                }
                assert forall|j: int|
                    0 <= j < ls[k as int].num_outputs implies out@[genes_before(t, k as int)
                        + ls[k as int].num_inputs * ls[k as int].num_outputs + j] == #[trigger] ls[k as int].bias@[j] by {
                    assert(out@[start + layer.weights@.len() + j] == layer.bias@[j]);
                }
            }
            k = k + 1;
        }
        out
    }
}

impl<G: Gene> MatrixNetwork<G> {
    /// A network of topology `layers` whose weights and biases are each drawn
    /// uniformly from `[-1, 1]`.
    pub fn random(rng: &mut StdRng, layers: &Vec<LayerTopology>) -> (r: MatrixNetwork<G>)
        requires
            layers@.len() >= 2,
            gene_count(layers@) <= usize::MAX,
        ensures
            r.well_formed(),
            r.topology() == layers@,
    {
        let count = match gene_count_of(layers) {
            Some(c) => c,
            None => 0,
        };
        let mut genes: Vec<G> = Vec::new();
        let mut i: usize = 0;
        while i < count
            invariant
                i <= count,
                genes@.len() == i,
            decreases count - i,
        {
            genes.push(G::random_weight(rng));
            i = i + 1;
        }
        MatrixNetwork::from_weights(layers, genes)
    }

    /// Evaluates the network: each layer yields, for each output neuron,
    /// `relu(row · inputs + bias)`.
    pub fn forward(&self, inputs: Vec<G>) -> (r: Vec<G>)
        requires
            self.well_formed(),
            inputs@.len() == self.layers_view()[0].inputs(),
        ensures
            r@.len() == self.topology()[self.layers_view().len() as int].neurons,
    {
        let mut current = inputs;
        let mut k: usize = 0;
        while k < self.layers.len()
            invariant
                self.well_formed(),
                k <= self.layers@.len(),
                k < self.layers@.len() ==> current@.len() == self.layers@[k as int].num_inputs,
                k == self.layers@.len() ==> current@.len() == self.layers@[k - 1].num_outputs,
            decreases self.layers@.len() - k,
        {
            let layer = &self.layers[k];
            let rows = layer.num_outputs;
            let cols = layer.num_inputs;
            proof {
                assert(layer.weights@.len() == layer.num_outputs * layer.num_inputs) by (nonlinear_arith)
                    requires layer.weights@.len() == layer.num_inputs * layer.num_outputs;
            }
            let product = matrix_vector_mult(
                &layer.weights,
                &current,
                layer.num_outputs,
                layer.num_inputs,
            );
            let sums = vector_vector_add(&product, &layer.bias);
            let mut next: Vec<G> = Vec::new();
            let mut row: usize = 0;
            while row < sums.len()
                invariant
                    row <= sums@.len(),
                    next@.len() == row,
                decreases sums@.len() - row,
            {
                next.push(sums[row].relu());
                row = row + 1;
            }
            current = next;
            k = k + 1;
        }
        current
    }
}

} // verus!
