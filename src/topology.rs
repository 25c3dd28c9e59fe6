//! Layer topologies and the number of genes a network of a given shape holds.
use vstd::prelude::*;

verus! {

/// The number of neurons of one layer.
#[derive(Clone, Copy, Debug, PartialEq, Eq, Structural)]
pub struct LayerTopology {
    pub neurons: usize,
}

/// Genes of the layer that maps `inputs` neurons onto `outputs` neurons:
/// one bias and one weight per input for each output.
pub open spec fn layer_gene_count(inputs: nat, outputs: nat) -> nat {
    (inputs + 1) * outputs
}

/// Genes of the first `k` layers of weights of topology `t` (layer `k` maps
/// neuron layer `k` onto neuron layer `k + 1`).
pub open spec fn genes_before(t: Seq<LayerTopology>, k: int) -> nat
    decreases k,
{
    if k <= 0 {
        0
    } else {
        genes_before(t, k - 1) + layer_gene_count(t[k - 1].neurons as nat, t[k].neurons as nat)
    }
}

/// Genes of a whole network of topology `t`.
pub open spec fn gene_count(t: Seq<LayerTopology>) -> nat {
    genes_before(t, t.len() - 1)
}

/// Genes of the layers before `k` never exceed those before a later layer.
pub proof fn lemma_genes_before_monotone(t: Seq<LayerTopology>, j: int, k: int)
    requires
        0 <= j <= k,
    ensures
        genes_before(t, j) <= genes_before(t, k),
    decreases k - j,
{
    if j < k {
        lemma_genes_before_monotone(t, j, k - 1);
    }
}

/// The number of genes that a network of topology `layers` is encoded into,
/// or `None` when that number does not fit in `usize`.
pub fn gene_count_of(layers: &Vec<LayerTopology>) -> (r: Option<usize>)
    requires
        layers@.len() >= 1,
    ensures
        r.is_some() <==> gene_count(layers@) <= usize::MAX,
        r.is_some() ==> r.unwrap() == gene_count(layers@),
{
    let mut total: usize = 0;
    let mut k: usize = 1;
    while k < layers.len()
        invariant
            1 <= k <= layers@.len(),
            total == genes_before(layers@, k - 1),
        decreases layers@.len() - k,
    {
        let inputs = layers[k - 1].neurons;
        let outputs = layers[k].neurons;
        let layer: Option<usize> = if outputs == 0 {
            Some(0)
        } else {
            match inputs.checked_add(1) {
                Some(p) => p.checked_mul(outputs),
                None => None,
            }
        };
        proof {
            let i = inputs as nat;
            let o = outputs as nat;
            if o > 0 {
                assert((i + 1) * o >= i + 1) by (nonlinear_arith)
                    requires o > 0;
            } else {
                assert((i + 1) * o == 0) by (nonlinear_arith)
                    requires o == 0;
            }
            assert(layer.is_some() <==> (i + 1) * o <= usize::MAX);
            assert(layer.is_some() ==> layer.unwrap() == (i + 1) * o);
            assert(genes_before(layers@, k as int) == total + (i + 1) * o);
        }
        let next = match layer {
            Some(l) => total.checked_add(l),
            None => None,
        };
        match next {
            Some(n) => {
                total = n;
            },
            None => {
                proof {
                    lemma_genes_before_monotone(layers@, k as int, layers@.len() - 1);
                }
                return None;
            },
        }
        k = k + 1;
    }
    Some(total)
}

/// The topology of a brain whose eye has `eye_cells` cells: the eye, one hidden
/// layer twice as wide, and two outputs (speed and rotation).
pub fn eye_topology(eye_cells: usize) -> (r: Vec<LayerTopology>)
    requires
        eye_cells <= usize::MAX / 2,
    ensures
        r@ == seq![
            LayerTopology { neurons: eye_cells },
            LayerTopology { neurons: (2 * eye_cells) as usize },
            LayerTopology { neurons: 2 },
        ],
{
    let mut r: Vec<LayerTopology> = Vec::new();
    r.push(LayerTopology { neurons: eye_cells });
    r.push(LayerTopology { neurons: 2 * eye_cells });
    r.push(LayerTopology { neurons: 2 });
    assert(r@ =~= seq![
        LayerTopology { neurons: eye_cells },
        LayerTopology { neurons: (2 * eye_cells) as usize },
        LayerTopology { neurons: 2 },
    ]);
    r
}

/// The topology that a configuration describes: `eye_cells` inputs,
/// `hidden_layers` hidden layers of `hidden_size` neurons, and two outputs.
pub fn configured_topology(eye_cells: usize, hidden_layers: usize, hidden_size: usize) -> (r: Vec<
    LayerTopology,
>)
    requires
        hidden_layers < usize::MAX - 1,
    ensures
        r@.len() == hidden_layers + 2,
        r@[0].neurons == eye_cells,
        forall|i: int| 1 <= i <= hidden_layers ==> #[trigger] r@[i].neurons == hidden_size,
        r@[hidden_layers + 1].neurons == 2,
{
    let mut r: Vec<LayerTopology> = Vec::new();
    r.push(LayerTopology { neurons: eye_cells });
    let mut i: usize = 0;
    while i < hidden_layers
        invariant
            i <= hidden_layers,
            r@.len() == i + 1,
            r@[0].neurons == eye_cells,
            forall|j: int| 1 <= j <= i ==> #[trigger] r@[j].neurons == hidden_size,
        decreases hidden_layers - i,
    {
        r.push(LayerTopology { neurons: hidden_size });
        i = i + 1;
    }
    r.push(LayerTopology { neurons: 2 });
    r
}

} // verus!
