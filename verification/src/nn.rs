//! The feedforward neural network.
//!
//! A network is an ordered sequence of layers; a layer an ordered sequence of
//! neurons; a neuron one bias and one weight per input. Propagation runs each
//! layer in order, each neuron computing `relu(bias + dot(inputs, weights))`
//! in saturating fixed-point arithmetic (see `fx`). A network flattens to,
//! and is rebuilt from, the ordered parameter sequence
//! (bias, weights...) per neuron, neurons in layer order.

use vstd::prelude::*;
use crate::fx::{in_range, fx_add, fx_mul, fx_add_spec, fx_mul_spec, SCALE};
use crate::chromosome::{Chromosome, chrom_wf};
use crate::rng::rand_in;

verus! {

/// The width of one layer, as the embedder states a topology.
pub struct LayerTopology {
    pub neurons: usize,
}

#[derive(Debug)]
pub struct Neuron {
    pub bias: i64,
    pub weights: Vec<i64>,
}

#[derive(Debug)]
pub struct Layer {
    pub neurons: Vec<Neuron>,
}

#[derive(Debug)]
pub struct Network {
    pub layers: Vec<Layer>,
}

/// Why a network could not be rebuilt from a topology and a parameter
/// sequence.
#[derive(Debug, PartialEq, Eq, Structural)]
pub enum NetworkError {
    /// The topology holds fewer than two entries, so no transition exists.
    TopologyTooShort,
    /// Some topology entry asks for a layer of zero neurons.
    EmptyLayer,
    /// The parameter sequence is shorter or longer than the topology demands.
    GeneCountMismatch,
}

/// A neuron is well formed for input width `inw` when it has one weight per
/// input and every parameter is a scalar in range.
pub open spec fn neuron_wf(n: Neuron, inw: int) -> bool {
    &&& n.weights@.len() == inw
    &&& in_range(n.bias as int)
    &&& chrom_wf(n.weights@)
}

/// A layer is well formed for input width `inw` when it is non-empty and all
/// its neurons are well formed for that width.
pub open spec fn layer_wf(l: Layer, inw: int) -> bool {
    &&& l.neurons@.len() >= 1
    &&& forall|i: int| 0 <= i < l.neurons@.len() ==> neuron_wf(#[trigger] l.neurons@[i], inw)
}

/// The input width a layer at position `i` must accept: the width of the
/// external input for the first layer, the previous layer's neuron count
/// after that.
pub open spec fn layer_in(layers: Seq<Layer>, i: int) -> int {
    if i == 0 {
        layers[0].neurons@[0].weights@.len() as int
    } else {
        layers[i - 1].neurons@.len() as int
    }
}

/// A network is well formed when it has at least one layer (so at least one
/// transition of a two-entry topology) and the layers chain.
pub open spec fn net_wf(n: Network) -> bool {
    &&& n.layers@.len() >= 1
    &&& forall|i: int|
        0 <= i < n.layers@.len() ==> layer_wf(#[trigger] n.layers@[i], layer_in(n.layers@, i))
}

/// The ordered layer widths a network realizes: its input width, then each
/// layer's neuron count.
pub open spec fn widths_of(layers: Seq<Layer>) -> Seq<int> {
    seq![layer_in(layers, 0)] + Seq::new(layers.len(), |i: int| layers[i].neurons@.len() as int)
}

/// The widths a topology vector states.
pub open spec fn topo_widths(topology: Seq<LayerTopology>) -> Seq<int> {
    topology.map(|i: int, t: LayerTopology| t.neurons as int)
}

/// Every parameter of the neuron was drawn from `[-1, 1]`: magnitude at
/// most one unit.
pub open spec fn neuron_in_unit(n: Neuron) -> bool {
    &&& -SCALE <= n.bias <= SCALE
    &&& forall|i: int| 0 <= i < n.weights@.len() ==> -SCALE <= #[trigger] n.weights@[i] <= SCALE
}

/// Every parameter of every neuron of the layer lies in `[-1, 1]`.
pub open spec fn layer_in_unit(l: Layer) -> bool {
    forall|k: int| 0 <= k < l.neurons@.len() ==> neuron_in_unit(#[trigger] l.neurons@[k])
}

/// Every parameter of the network lies in `[-1, 1]`.
pub open spec fn net_in_unit(n: Network) -> bool {
    forall|j: int| 0 <= j < n.layers@.len() ==> layer_in_unit(#[trigger] n.layers@[j])
}

/// Rectified linear unit.
pub open spec fn relu(x: int) -> int {
    if x < 0 { 0 } else { x }
}

/// The saturating dot product of the first `k` weight/input pairs,
/// accumulated left to right.
pub open spec fn dot_acc(ws: Seq<i64>, xs: Seq<i64>, k: int) -> int
    decreases k,
{
    if k <= 0 {
        0
    } else {
        fx_add_spec(dot_acc(ws, xs, k - 1), fx_mul_spec(ws[k - 1] as int, xs[k - 1] as int))
    }
}

/// What one neuron outputs on the given inputs.
pub open spec fn neuron_out(n: Neuron, xs: Seq<i64>) -> i64 {
    relu(fx_add_spec(dot_acc(n.weights@, xs, n.weights@.len() as int), n.bias as int)) as i64
}

/// What one layer outputs: one value per neuron, in order.
pub open spec fn layer_out(l: Layer, xs: Seq<i64>) -> Seq<i64> {
    Seq::new(l.neurons@.len(), |i: int| neuron_out(l.neurons@[i], xs))
}

/// The output of running the layers from position `i` on, on `xs`.
pub open spec fn net_out_from(layers: Seq<Layer>, i: int, xs: Seq<i64>) -> Seq<i64>
    decreases layers.len() - i,
{
    if i < 0 || i >= layers.len() {
        xs
    } else {
        net_out_from(layers, i + 1, layer_out(layers[i], xs))
    }
}

/// What the whole network outputs on `xs`.
pub open spec fn net_out(n: Network, xs: Seq<i64>) -> Seq<i64> {
    net_out_from(n.layers@, 0, xs)
}

/// One neuron's contribution to the flattened parameter sequence: its bias,
/// then its weights in order.
pub open spec fn neuron_params(n: Neuron) -> Seq<i64> {
    seq![n.bias] + n.weights@
}

/// The flattened parameters of a sequence of neurons, in order.
pub open spec fn neurons_params(ns: Seq<Neuron>) -> Seq<i64>
    decreases ns.len(),
{
    if ns.len() == 0 {
        Seq::empty()
    } else {
        neurons_params(ns.drop_last()) + neuron_params(ns.last())
    }
}

/// The flattened parameters of a sequence of layers, in order.
pub open spec fn layers_params(ls: Seq<Layer>) -> Seq<i64>
    decreases ls.len(),
{
    if ls.len() == 0 {
        Seq::empty()
    } else {
        layers_params(ls.drop_last()) + neurons_params(ls.last().neurons@)
    }
}

/// The whole network's flattened parameter sequence: this ordering is the
/// chromosome encoding.
pub open spec fn net_params(n: Network) -> Seq<i64> {
    layers_params(n.layers@)
}

/// The parameters still to be consumed from transition `i` on: each layer
/// `i+1` takes one bias and one weight per input for each of its neurons.
pub open spec fn pc_from(w: Seq<int>, i: int) -> int
    decreases w.len() - i,
{
    if i < 0 || i + 1 >= w.len() {
        0
    } else {
        w[i + 1] * (w[i] + 1) + pc_from(w, i + 1)
    }
}

/// The total parameter count a topology demands.
pub open spec fn param_count(w: Seq<int>) -> int {
    pc_from(w, 0)
}

proof fn lemma_pc_from_nonneg(w: Seq<int>, i: int)
    requires
        forall|k: int| 0 <= k < w.len() ==> w[k] >= 0,
    ensures
        pc_from(w, i) >= 0,
    decreases w.len() - i,
{
    if i >= 0 && i + 1 < w.len() {
        assert(w[i + 1] * (w[i] + 1) >= 0) by (nonlinear_arith)
            requires
                w[i + 1] >= 0,
                w[i] + 1 >= 0,
        ;
        lemma_pc_from_nonneg(w, i + 1);
    }
}

proof fn lemma_neurons_params_take(ns: Seq<Neuron>, i: int)
    requires
        0 <= i < ns.len(),
    ensures
        neurons_params(ns.take(i + 1)) == neurons_params(ns.take(i)) + neuron_params(ns[i]),
{
    assert(ns.take(i + 1).drop_last() =~= ns.take(i));
    assert(ns.take(i + 1).last() == ns[i]);
}

proof fn lemma_layers_params_take(ls: Seq<Layer>, i: int)
    requires
        0 <= i < ls.len(),
    ensures
        layers_params(ls.take(i + 1)) == layers_params(ls.take(i)) + neurons_params(
            ls[i].neurons@,
        ),
{
    assert(ls.take(i + 1).drop_last() =~= ls.take(i));
    assert(ls.take(i + 1).last() == ls[i]);
}

proof fn lemma_chrom_wf_concat(a: Seq<i64>, b: Seq<i64>)
    requires
        chrom_wf(a),
        chrom_wf(b),
    ensures
        chrom_wf(a + b),
{
    assert forall|i: int| 0 <= i < (a + b).len() implies crate::fx::in_range(
        #[trigger] (a + b)[i] as int,
    ) by {
        if i < a.len() {
            assert((a + b)[i] == a[i]);
        } else {
            assert((a + b)[i] == b[i - a.len()]);
        }
    }
}

proof fn lemma_neurons_params_range(ns: Seq<Neuron>, inw: int)
    requires
        forall|k: int| 0 <= k < ns.len() ==> neuron_wf(#[trigger] ns[k], inw),
    ensures
        chrom_wf(neurons_params(ns)),
    decreases ns.len(),
{
    if ns.len() > 0 {
        assert forall|k: int| 0 <= k < ns.drop_last().len() implies neuron_wf(
            #[trigger] ns.drop_last()[k],
            inw,
        ) by {
            assert(ns.drop_last()[k] == ns[k]);
        }
        lemma_neurons_params_range(ns.drop_last(), inw);
        let last = ns[ns.len() - 1];
        assert(neuron_wf(last, inw));
        assert(chrom_wf(neuron_params(last))) by {
            assert forall|i: int| 0 <= i < neuron_params(last).len() implies crate::fx::in_range(
                #[trigger] neuron_params(last)[i] as int,
            ) by {
                if i == 0 {
                    assert(neuron_params(last)[0] == last.bias);
                } else {
                    assert(neuron_params(last)[i] == last.weights@[i - 1]);
                }
            }
        }
        lemma_chrom_wf_concat(neurons_params(ns.drop_last()), neuron_params(last));
    }
}

/// The flattened parameters of a well-formed network are scalars in range:
/// a chromosome that decodes a network is itself well formed.
pub proof fn lemma_net_params_range(n: Network)
    requires
        net_wf(n),
    ensures
        chrom_wf(net_params(n)),
{
    lemma_layers_params_range(n.layers@);
}

proof fn lemma_layers_params_range(ls: Seq<Layer>)
    requires
        forall|i: int| 0 <= i < ls.len() ==> layer_wf(#[trigger] ls[i], layer_in(ls, i)),
    ensures
        chrom_wf(layers_params(ls)),
    decreases ls.len(),
{
    if ls.len() > 0 {
        let ls2 = ls.drop_last();
        assert forall|i: int| 0 <= i < ls2.len() implies layer_wf(
            #[trigger] ls2[i],
            layer_in(ls2, i),
        ) by {
            assert(ls2[i] == ls[i]);
            if i > 0 {
                assert(ls2[i - 1] == ls[i - 1]);
            } else {
                assert(ls2[0] == ls[0]);
            }
            assert(layer_in(ls2, i) == layer_in(ls, i));
        }
        lemma_layers_params_range(ls2);
        let last = ls[ls.len() - 1];
        assert(layer_wf(last, layer_in(ls, ls.len() - 1)));
        lemma_neurons_params_range(last.neurons@, layer_in(ls, ls.len() - 1));
        lemma_chrom_wf_concat(layers_params(ls2), neurons_params(last.neurons@));
    }
}

proof fn lemma_neurons_params_len(ns: Seq<Neuron>, inw: int)
    requires
        forall|k: int| 0 <= k < ns.len() ==> neuron_wf(#[trigger] ns[k], inw),
        inw >= 0,
    ensures
        neurons_params(ns).len() == ns.len() * (inw + 1),
    decreases ns.len(),
{
    if ns.len() == 0 {
        assert(0int * (inw + 1) == 0) by (nonlinear_arith);
    } else {
        assert forall|k: int| 0 <= k < ns.drop_last().len() implies neuron_wf(
            #[trigger] ns.drop_last()[k],
            inw,
        ) by {
            assert(ns.drop_last()[k] == ns[k]);
        }
        lemma_neurons_params_len(ns.drop_last(), inw);
        assert(neuron_wf(ns[ns.len() - 1], inw));
        assert((ns.len() - 1) * (inw + 1) + (inw + 1) == ns.len() * (inw + 1)) by (nonlinear_arith);
    }
}

proof fn lemma_pc_drop_last(w: Seq<int>, i: int)
    requires
        w.len() >= 2,
        0 <= i <= w.len() - 2,
    ensures
        pc_from(w, i) == pc_from(w.drop_last(), i) + w[w.len() - 1] * (w[w.len() - 2] + 1),
    decreases w.len() - i,
{
    let w2 = w.drop_last();
    if i == w.len() - 2 {
        assert(pc_from(w, i + 1) == 0);
        assert(pc_from(w2, i) == 0);
    } else {
        lemma_pc_drop_last(w, i + 1);
        assert(w2[i + 1] == w[i + 1]);
        assert(w2[i] == w[i]);
    }
}

/// A well-formed network's flattened parameter sequence has exactly the
/// length its topology demands.
pub proof fn lemma_net_params_len(n: Network)
    requires
        net_wf(n),
    ensures
        net_params(n).len() == param_count(widths_of(n.layers@)),
{
    lemma_layers_params_len(n.layers@);
}

proof fn lemma_layers_params_len(ls: Seq<Layer>)
    requires
        ls.len() >= 1,
        forall|i: int| 0 <= i < ls.len() ==> layer_wf(#[trigger] ls[i], layer_in(ls, i)),
    ensures
        layers_params(ls).len() == param_count(widths_of(ls)),
    decreases ls.len(),
{
    let w = widths_of(ls);
    if ls.len() == 1 {
        assert(w.len() == 2);
        assert(w[0] == layer_in(ls, 0));
        assert(w[1] == ls[0].neurons@.len() as int);
        assert(param_count(w) == w[1] * (w[0] + 1) + pc_from(w, 1));
        assert(pc_from(w, 1) == 0);
        assert(ls.drop_last().len() == 0);
        assert(layers_params(ls) == layers_params(ls.drop_last()) + neurons_params(
            ls[0].neurons@,
        ));
        assert(layers_params(ls.drop_last()) == Seq::<i64>::empty());
        assert(layer_wf(ls[0], layer_in(ls, 0)));
        lemma_neurons_params_len(ls[0].neurons@, layer_in(ls, 0));
    } else {
        let ls2 = ls.drop_last();
        assert forall|i: int| 0 <= i < ls2.len() implies layer_wf(
            #[trigger] ls2[i],
            layer_in(ls2, i),
        ) by {
            assert(ls2[i] == ls[i]);
            if i > 0 {
                assert(ls2[i - 1] == ls[i - 1]);
            } else {
                assert(ls2[0] == ls[0]);
            }
            assert(layer_in(ls2, i) == layer_in(ls, i));
        }
        lemma_layers_params_len(ls2);
        assert(widths_of(ls2) =~= w.drop_last()) by {
            assert(widths_of(ls2).len() == ls2.len() + 1);
            assert forall|j: int| 0 <= j < widths_of(ls2).len() implies widths_of(ls2)[j]
                == w.drop_last()[j] by {
                if j == 0 {
                    assert(ls2[0] == ls[0]);
                    assert(widths_of(ls2)[0] == layer_in(ls2, 0));
                    assert(w.drop_last()[0] == layer_in(ls, 0));
                } else {
                    assert(ls2[j - 1] == ls[j - 1]);
                }
            }
        }
        lemma_pc_drop_last(w, 0);
        let lastw = layer_in(ls, ls.len() - 1);
        assert(w[w.len() - 2] == lastw) by {
            assert(w[w.len() - 2] == ls[ls.len() - 2].neurons@.len() as int);
        }
        assert(w[w.len() - 1] == ls[ls.len() - 1].neurons@.len() as int);
        assert(layer_wf(ls[ls.len() - 1], lastw));
        lemma_neurons_params_len(ls[ls.len() - 1].neurons@, lastw);
        assert(layers_params(ls) == layers_params(ls2) + neurons_params(
            ls[ls.len() - 1].neurons@,
        ));
    }
}

proof fn lemma_concat_inject(a1: Seq<i64>, b1: Seq<i64>, a2: Seq<i64>, b2: Seq<i64>)
    requires
        a1 + b1 == a2 + b2,
        a1.len() == a2.len(),
    ensures
        a1 == a2,
        b1 == b2,
{
    assert((a1 + b1).len() == a1.len() + b1.len());
    assert((a2 + b2).len() == a2.len() + b2.len());
    assert((a1 + b1).len() == (a2 + b2).len());
    assert(b1.len() == b2.len());
    assert(a1 =~= a2) by {
        assert forall|i: int| 0 <= i < a1.len() implies a1[i] == a2[i] by {
            assert(a1[i] == (a1 + b1)[i]);
            assert(a2[i] == (a2 + b2)[i]);
        }
    }
    assert(b1 =~= b2) by {
        assert forall|i: int| 0 <= i < b1.len() implies b1[i] == b2[i] by {
            assert(b1[i] == (a1 + b1)[i + a1.len()]);
            assert(b2[i] == (a2 + b2)[i + a2.len()]);
        }
    }
}

proof fn lemma_neurons_params_len_eq(a: Seq<Neuron>, b: Seq<Neuron>)
    requires
        a.len() == b.len(),
        forall|k: int|
            0 <= k < a.len() ==> (#[trigger] a[k]).weights@.len() == (#[trigger] b[k]).weights@.len(),
    ensures
        neurons_params(a).len() == neurons_params(b).len(),
    decreases a.len(),
{
    if a.len() > 0 {
        lemma_neurons_params_len_eq(a.drop_last(), b.drop_last());
    }
}

proof fn lemma_neurons_inject(a: Seq<Neuron>, b: Seq<Neuron>)
    requires
        a.len() == b.len(),
        forall|k: int|
            0 <= k < a.len() ==> (#[trigger] a[k]).weights@.len() == (#[trigger] b[k]).weights@.len(),
        neurons_params(a) == neurons_params(b),
    ensures
        forall|k: int|
            0 <= k < a.len() ==> (#[trigger] a[k]).bias == (#[trigger] b[k]).bias
                && a[k].weights@ == b[k].weights@,
    decreases a.len(),
{
    if a.len() > 0 {
        lemma_neurons_params_len_eq(a.drop_last(), b.drop_last());
        lemma_concat_inject(
            neurons_params(a.drop_last()),
            neuron_params(a.last()),
            neurons_params(b.drop_last()),
            neuron_params(b.last()),
        );
        lemma_neurons_inject(a.drop_last(), b.drop_last());
        let k = a.len() - 1;
        assert(a[k].bias == neuron_params(a.last())[0]);
        assert(b[k].bias == neuron_params(b.last())[0]);
        assert(a[k].weights@ =~= b[k].weights@) by {
            assert forall|j: int| 0 <= j < a[k].weights@.len() implies a[k].weights@[j]
                == b[k].weights@[j] by {
                assert(a[k].weights@[j] == neuron_params(a.last())[j + 1]);
                assert(b[k].weights@[j] == neuron_params(b.last())[j + 1]);
            }
        }
        assert forall|i: int| 0 <= i < a.len() implies (#[trigger] a[i]).bias == (
        #[trigger] b[i]).bias && a[i].weights@ == b[i].weights@ by {
            if i < a.len() - 1 {
                assert(a.drop_last()[i] == a[i]);
                assert(b.drop_last()[i] == b[i]);
            }
        }
    }
}

proof fn lemma_layer_out_eq(l1: Layer, l2: Layer, xs: Seq<i64>)
    requires
        l1.neurons@.len() == l2.neurons@.len(),
        forall|k: int|
            0 <= k < l1.neurons@.len() ==> (#[trigger] l1.neurons@[k]).bias == (
            #[trigger] l2.neurons@[k]).bias && l1.neurons@[k].weights@ == l2.neurons@[k].weights@,
    ensures
        layer_out(l1, xs) == layer_out(l2, xs),
{
    assert(layer_out(l1, xs) =~= layer_out(l2, xs)) by {
        assert forall|i: int| 0 <= i < l1.neurons@.len() implies layer_out(l1, xs)[i] == layer_out(
            l2,
            xs,
        )[i] by {
            assert(l1.neurons@[i].weights@ == l2.neurons@[i].weights@);
            assert(neuron_out(l1.neurons@[i], xs) == neuron_out(l2.neurons@[i], xs));
        }
    }
}

proof fn lemma_net_out_from_eq(ls1: Seq<Layer>, ls2: Seq<Layer>, i: int, xs: Seq<i64>)
    requires
        ls1.len() == ls2.len(),
        forall|j: int|
            0 <= j < ls1.len() ==> (#[trigger] ls1[j]).neurons@.len() == (
            #[trigger] ls2[j]).neurons@.len(),
        forall|j: int, k: int|
            0 <= j < ls1.len() && 0 <= k < ls1[j].neurons@.len() ==> (
            #[trigger] ls1[j].neurons@[k]).bias == (#[trigger] ls2[j].neurons@[k]).bias
                && ls1[j].neurons@[k].weights@ == ls2[j].neurons@[k].weights@,
    ensures
        net_out_from(ls1, i, xs) == net_out_from(ls2, i, xs),
    decreases ls1.len() - i,
{
    if 0 <= i < ls1.len() {
        lemma_layer_out_eq(ls1[i], ls2[i], xs);
        lemma_net_out_from_eq(ls1, ls2, i + 1, layer_out(ls1[i], xs));
    }
}

proof fn lemma_layers_params_len_eq(a: Seq<Layer>, b: Seq<Layer>)
    requires
        a.len() == b.len(),
        forall|j: int|
            0 <= j < a.len() ==> (#[trigger] a[j]).neurons@.len() == (#[trigger] b[j]).neurons@.len(),
        forall|j: int, k: int|
            0 <= j < a.len() && 0 <= k < a[j].neurons@.len() ==> (
            #[trigger] a[j].neurons@[k]).weights@.len() == (
            #[trigger] b[j].neurons@[k]).weights@.len(),
    ensures
        layers_params(a).len() == layers_params(b).len(),
    decreases a.len(),
{
    if a.len() > 0 {
        assert forall|j: int|
            0 <= j < a.drop_last().len() implies (#[trigger] a.drop_last()[j]).neurons@.len() == (
        #[trigger] b.drop_last()[j]).neurons@.len() by {
            assert(a.drop_last()[j] == a[j]);
            assert(b.drop_last()[j] == b[j]);
        }
        assert forall|j: int, k: int|
            0 <= j < a.drop_last().len() && 0 <= k < a.drop_last()[j].neurons@.len() implies (
        #[trigger] a.drop_last()[j].neurons@[k]).weights@.len() == (
        #[trigger] b.drop_last()[j].neurons@[k]).weights@.len() by {
            assert(a.drop_last()[j] == a[j]);
            assert(b.drop_last()[j] == b[j]);
        }
        lemma_layers_params_len_eq(a.drop_last(), b.drop_last());
        let j0 = a.len() - 1;
        assert forall|k: int| 0 <= k < a.last().neurons@.len() implies (
        #[trigger] a.last().neurons@[k]).weights@.len() == (
        #[trigger] b.last().neurons@[k]).weights@.len() by {
            assert(a[j0].neurons@[k] == a.last().neurons@[k]);
            assert(b[j0].neurons@[k] == b.last().neurons@[k]);
        }
        lemma_neurons_params_len_eq(a.last().neurons@, b.last().neurons@);
    }
}

proof fn lemma_layers_inject(a: Seq<Layer>, b: Seq<Layer>)
    requires
        a.len() == b.len(),
        forall|j: int|
            0 <= j < a.len() ==> (#[trigger] a[j]).neurons@.len() == (#[trigger] b[j]).neurons@.len(),
        forall|j: int, k: int|
            0 <= j < a.len() && 0 <= k < a[j].neurons@.len() ==> (
            #[trigger] a[j].neurons@[k]).weights@.len() == (
            #[trigger] b[j].neurons@[k]).weights@.len(),
        layers_params(a) == layers_params(b),
    ensures
        forall|j: int, k: int|
            0 <= j < a.len() && 0 <= k < a[j].neurons@.len() ==> (
            #[trigger] a[j].neurons@[k]).bias == (#[trigger] b[j].neurons@[k]).bias
                && a[j].neurons@[k].weights@ == b[j].neurons@[k].weights@,
    decreases a.len(),
{
    if a.len() > 0 {
        let j0 = a.len() - 1;
        assert forall|k: int| 0 <= k < a.last().neurons@.len() implies (
        #[trigger] a.last().neurons@[k]).weights@.len() == (
        #[trigger] b.last().neurons@[k]).weights@.len() by {
            assert(a[j0].neurons@[k] == a.last().neurons@[k]);
            assert(b[j0].neurons@[k] == b.last().neurons@[k]);
        }
        lemma_neurons_params_len_eq(a.last().neurons@, b.last().neurons@);
        assert forall|j: int|
            0 <= j < a.drop_last().len() implies (#[trigger] a.drop_last()[j]).neurons@.len() == (
        #[trigger] b.drop_last()[j]).neurons@.len() by {
            assert(a.drop_last()[j] == a[j]);
            assert(b.drop_last()[j] == b[j]);
        }
        assert forall|j: int, k: int|
            0 <= j < a.drop_last().len() && 0 <= k < a.drop_last()[j].neurons@.len() implies (
        #[trigger] a.drop_last()[j].neurons@[k]).weights@.len() == (
        #[trigger] b.drop_last()[j].neurons@[k]).weights@.len() by {
            assert(a.drop_last()[j] == a[j]);
            assert(b.drop_last()[j] == b[j]);
        }
        lemma_layers_params_len_eq(a.drop_last(), b.drop_last());
        lemma_concat_inject(
            layers_params(a.drop_last()),
            neurons_params(a.last().neurons@),
            layers_params(b.drop_last()),
            neurons_params(b.last().neurons@),
        );
        lemma_layers_inject(a.drop_last(), b.drop_last());
        lemma_neurons_inject(a.last().neurons@, b.last().neurons@);
        assert forall|j: int, k: int|
            0 <= j < a.len() && 0 <= k < a[j].neurons@.len() implies (
        #[trigger] a[j].neurons@[k]).bias == (#[trigger] b[j].neurons@[k]).bias
            && a[j].neurons@[k].weights@ == b[j].neurons@[k].weights@ by {
            if j < a.len() - 1 {
                assert(a.drop_last()[j] == a[j]);
                assert(b.drop_last()[j] == b[j]);
                assert(a.drop_last()[j].neurons@[k] == a[j].neurons@[k]);
                assert(b.drop_last()[j].neurons@[k] == b[j].neurons@[k]);
            } else {
                assert(a[j].neurons@[k] == a.last().neurons@[k]);
                assert(b[j].neurons@[k] == b.last().neurons@[k]);
            }
        }
    }
}

/// The round-trip law: two well-formed networks that realize the same
/// topology and flatten to the same parameter sequence propagate identically
/// on every input. With the contracts of `weights` and `from_weights`, a
/// network rebuilt from its own flattening behaves exactly as the original.
pub proof fn lemma_round_trip(n1: Network, n2: Network, xs: Seq<i64>)
    requires
        net_wf(n1),
        net_wf(n2),
        widths_of(n1.layers@) == widths_of(n2.layers@),
        net_params(n1) == net_params(n2),
    ensures
        net_out(n1, xs) == net_out(n2, xs),
{
    let a = n1.layers@;
    let b = n2.layers@;
    assert(widths_of(a).len() == 1 + a.len());
    assert(widths_of(b).len() == 1 + b.len());
    assert(a.len() == b.len());
    assert forall|j: int| 0 <= j < a.len() implies (#[trigger] a[j]).neurons@.len() == (
    #[trigger] b[j]).neurons@.len() by {
        assert(widths_of(a)[j + 1] == a[j].neurons@.len() as int);
        assert(widths_of(b)[j + 1] == b[j].neurons@.len() as int);
    }
    assert forall|j: int| 0 <= j < a.len() implies layer_in(a, j) == layer_in(b, j) by {
        if j == 0 {
            assert(widths_of(a)[0] == layer_in(a, 0));
            assert(widths_of(b)[0] == layer_in(b, 0));
        }
    }
    assert forall|j: int, k: int|
        0 <= j < a.len() && 0 <= k < a[j].neurons@.len() implies (
    #[trigger] a[j].neurons@[k]).weights@.len() == (#[trigger] b[j].neurons@[k]).weights@.len() by {
        assert(layer_wf(a[j], layer_in(a, j)));
        assert(layer_wf(b[j], layer_in(b, j)));
        assert(neuron_wf(a[j].neurons@[k], layer_in(a, j)));
        assert(neuron_wf(b[j].neurons@[k], layer_in(b, j)));
    }
    lemma_layers_inject(a, b);
    lemma_net_out_from_eq(a, b, 0, xs);
}

pub proof fn lemma_dot_in_range(ws: Seq<i64>, xs: Seq<i64>, k: int)
    ensures
        in_range(dot_acc(ws, xs, k)),
{
    if k <= 0 {
    }
}

/// A neuron's output is a scalar in `[0, CAP]`, and the spec-level cast in
/// `neuron_out` is lossless.
pub proof fn lemma_neuron_out_range(n: Neuron, xs: Seq<i64>)
    ensures
        0 <= neuron_out(n, xs) as int,
        in_range(neuron_out(n, xs) as int),
        neuron_out(n, xs) as int == relu(
            fx_add_spec(dot_acc(n.weights@, xs, n.weights@.len() as int), n.bias as int),
        ),
{
    lemma_dot_in_range(n.weights@, xs, n.weights@.len() as int);
}

impl Neuron {
    pub fn new(bias: i64, weights: Vec<i64>) -> (r: Self)
        ensures
            r.bias == bias,
            r.weights@ == weights@,
    {
        Neuron { bias, weights }
    }

    /// A fresh neuron for `inw` inputs, every parameter drawn uniformly from
    /// `[-1, 1]` (in fixed point, `[-SCALE, SCALE]`).
    pub fn random(rng: &mut rand_chacha::ChaCha8Rng, inw: usize) -> (r: Self)
        ensures
            neuron_wf(r, inw as int),
            neuron_in_unit(r),
    {
        let bias: i64 = rand_in(rng, -SCALE, SCALE);
        let mut weights: Vec<i64> = Vec::new();
        for i in 0..inw
            invariant
                weights@.len() == i,
                chrom_wf(weights@),
                forall|k: int| 0 <= k < i ==> -SCALE <= #[trigger] weights@[k] <= SCALE,
        {
            let w: i64 = rand_in(rng, -SCALE, SCALE);
            weights.push(w);
        }
        Neuron { bias, weights }
    }

    pub fn propagate(&self, inputs: &Vec<i64>) -> (r: i64)
        requires
            neuron_wf(*self, inputs@.len() as int),
            chrom_wf(inputs@),
        ensures
            r == neuron_out(*self, inputs@),
            0 <= r,
            in_range(r as int),
    {
        let n: usize = self.weights.len();
        let mut acc: i64 = 0;
        for i in 0..n
            invariant
                n == self.weights@.len(),
                neuron_wf(*self, inputs@.len() as int),
                chrom_wf(inputs@),
                acc as int == dot_acc(self.weights@, inputs@, i as int),
                in_range(acc as int),
        {
            let p: i64 = fx_mul(self.weights[i], inputs[i]);
            acc = fx_add(acc, p);
        }
        let t: i64 = fx_add(acc, self.bias);
        proof {
            lemma_neuron_out_range(*self, inputs@);
        }
        if t < 0 {
            0
        } else {
            t
        }
    }
}

impl Layer {
    pub fn new(neurons: Vec<Neuron>) -> (r: Self)
        ensures
            r.neurons@ == neurons@,
    {
        Layer { neurons }
    }

    /// A fresh layer of `outn` random neurons, each for `inw` inputs.
    pub fn random(rng: &mut rand_chacha::ChaCha8Rng, inw: usize, outn: usize) -> (r: Self)
        requires
            outn >= 1,
        ensures
            layer_wf(r, inw as int),
            r.neurons@.len() == outn,
            layer_in_unit(r),
    {
        let mut neurons: Vec<Neuron> = Vec::new();
        for i in 0..outn
            invariant
                neurons@.len() == i,
                forall|k: int| 0 <= k < i ==> neuron_wf(#[trigger] neurons@[k], inw as int),
                forall|k: int| 0 <= k < i ==> neuron_in_unit(#[trigger] neurons@[k]),
        {
            let n = Neuron::random(rng, inw);
            neurons.push(n);
        }
        Layer { neurons }
    }

    pub fn propagate(&self, inputs: &Vec<i64>) -> (r: Vec<i64>)
        requires
            layer_wf(*self, inputs@.len() as int),
            chrom_wf(inputs@),
        ensures
            r@ == layer_out(*self, inputs@),
            r@.len() == self.neurons@.len(),
            chrom_wf(r@),
    {
        let n: usize = self.neurons.len();
        let mut out: Vec<i64> = Vec::new();
        for i in 0..n
            invariant
                n == self.neurons@.len(),
                layer_wf(*self, inputs@.len() as int),
                chrom_wf(inputs@),
                out@.len() == i,
                forall|k: int| 0 <= k < i ==> out@[k] == neuron_out(#[trigger] self.neurons@[k], inputs@),
                chrom_wf(out@),
        {
            let v: i64 = self.neurons[i].propagate(inputs);
            out.push(v);
        }
        assert(out@ =~= layer_out(*self, inputs@));
        out
    }
}

impl Network {
    pub fn new(layers: Vec<Layer>) -> (r: Self)
        ensures
            r.layers@ == layers@,
    {
        Network { layers }
    }

    /// A fresh network for the given topology: one layer per consecutive
    /// pair of widths, every parameter drawn uniformly from `[-1, 1]`.
    pub fn random(topology: &Vec<LayerTopology>, rng: &mut rand_chacha::ChaCha8Rng) -> (r: Self)
        requires
            topology@.len() > 1,
            forall|i: int| 0 <= i < topology@.len() ==> (#[trigger] topology@[i]).neurons >= 1,
        ensures
            net_wf(r),
            widths_of(r.layers@) == topo_widths(topology@),
            net_in_unit(r),
    {
        let tlen: usize = topology.len();
        let mut layers: Vec<Layer> = Vec::new();
        for li in 1..tlen
            invariant
                tlen == topology@.len(),
                1 < tlen,
                forall|i: int| 0 <= i < topology@.len() ==> (#[trigger] topology@[i]).neurons >= 1,
                layers@.len() == li - 1,
                forall|k: int|
                    0 <= k < li - 1 ==> (#[trigger] layers@[k]).neurons@.len()
                        == topology@[k + 1].neurons,
                forall|k: int|
                    0 <= k < li - 1 ==> layer_wf(
                        #[trigger] layers@[k],
                        topology@[k].neurons as int,
                    ),
                forall|k: int|
                    0 <= k < li - 1 ==> (#[trigger] layers@[k]).neurons@[0].weights@.len()
                        == topology@[k].neurons,
                forall|k: int| 0 <= k < li - 1 ==> layer_in_unit(#[trigger] layers@[k]),
        {
            let inw: usize = topology[li - 1].neurons;
            let outn: usize = topology[li].neurons;
            let l = Layer::random(rng, inw, outn);
            assert(l.neurons@[0].weights@.len() == inw as int);
            layers.push(l);
        }
        let r = Network { layers };
        assert forall|i: int| 0 <= i < r.layers@.len() implies layer_wf(
            #[trigger] r.layers@[i],
            layer_in(r.layers@, i),
        ) by {
            if i == 0 {
                assert(layer_in(r.layers@, 0) == topology@[0].neurons as int);
            } else {
                assert(layer_in(r.layers@, i) == r.layers@[i - 1].neurons@.len() as int);
                assert(r.layers@[i - 1].neurons@.len() == topology@[i].neurons);
            }
        }
        assert(widths_of(r.layers@) =~= topo_widths(topology@));
        r
    }

    /// Flattens the network to its ordered parameter sequence: per neuron
    /// its bias then its weights, neurons in layer order, layers in network
    /// order. This ordering is the chromosome encoding.
    pub fn weights(&self) -> (r: Vec<i64>)
        ensures
            r@ == net_params(*self),
    {
        let mut out: Vec<i64> = Vec::new();
        let nl: usize = self.layers.len();
        for li in 0..nl
            invariant
                nl == self.layers@.len(),
                out@ == layers_params(self.layers@.take(li as int)),
        {
            let nn_count: usize = self.layers[li].neurons.len();
            let ghost base: Seq<i64> = out@;
            for ni in 0..nn_count
                invariant
                    nl == self.layers@.len(),
                    li < nl,
                    nn_count == self.layers@[li as int].neurons@.len(),
                    base == layers_params(self.layers@.take(li as int)),
                    out@ == base + neurons_params(
                        self.layers@[li as int].neurons@.take(ni as int),
                    ),
            {
                let ghost nbase: Seq<i64> = out@;
                let nw: usize = self.layers[li].neurons[ni].weights.len();
                out.push(self.layers[li].neurons[ni].bias);
                for wi in 0..nw
                    invariant
                        nl == self.layers@.len(),
                        li < nl,
                        ni < self.layers@[li as int].neurons@.len(),
                        nw == self.layers@[li as int].neurons@[ni as int].weights@.len(),
                        out@ == nbase + seq![self.layers@[li as int].neurons@[ni as int].bias]
                            + self.layers@[li as int].neurons@[ni as int].weights@.take(wi as int),
                {
                    out.push(self.layers[li].neurons[ni].weights[wi]);
                    proof {
                        let nrn = self.layers@[li as int].neurons@[ni as int];
                        assert(nrn.weights@.take(wi + 1) =~= nrn.weights@.take(wi as int) + seq![
                            nrn.weights@[wi as int],
                        ]);
                        assert(out@ =~= nbase + seq![nrn.bias] + nrn.weights@.take(wi + 1));
                    }
                }
                proof {
                    let ns = self.layers@[li as int].neurons@;
                    let nrn = ns[ni as int];
                    assert(nrn.weights@.take(nw as int) =~= nrn.weights@);
                    lemma_neurons_params_take(ns, ni as int);
                    assert(neuron_params(nrn) =~= seq![nrn.bias] + nrn.weights@);
                    assert(out@ =~= base + neurons_params(ns.take(ni + 1)));
                }
            }
            proof {
                let ns = self.layers@[li as int].neurons@;
                assert(ns.take(nn_count as int) =~= ns);
                lemma_layers_params_take(self.layers@, li as int);
            }
        }
        proof {
            assert(self.layers@.take(nl as int) =~= self.layers@);
        }
        out
    }

    /// Rebuilds a network from a topology and the parameter sequence that
    /// `weights` produced, consuming exactly the demanded count in the same
    /// order; a short topology, an empty layer, or a parameter sequence of
    /// the wrong length is rejected with the matching error.
    pub fn from_weights(topology: &Vec<LayerTopology>, chromosome: &Chromosome) -> (r: Result<
        Network,
        NetworkError,
    >)
        requires
            chrom_wf(chromosome.genes@),
        ensures
            match r {
                Ok(net) => {
                    &&& topology@.len() >= 2
                    &&& forall|i: int|
                        0 <= i < topology@.len() ==> (#[trigger] topology@[i]).neurons >= 1
                    &&& chromosome.genes@.len() == param_count(topo_widths(topology@))
                    &&& net_wf(net)
                    &&& widths_of(net.layers@) == topo_widths(topology@)
                    &&& net_params(net) == chromosome.genes@
                },
                Err(e) => {
                    ||| (e == NetworkError::TopologyTooShort && topology@.len() < 2)
                    ||| (e == NetworkError::EmptyLayer && topology@.len() >= 2 && exists|i: int|
                        0 <= i < topology@.len() && (#[trigger] topology@[i]).neurons == 0)
                    ||| (e == NetworkError::GeneCountMismatch && topology@.len() >= 2 && (forall|
                        i: int,
                    |
                        0 <= i < topology@.len() ==> (#[trigger] topology@[i]).neurons >= 1)
                        && chromosome.genes@.len() != param_count(topo_widths(topology@)))
                },
            },
    {
        let tlen: usize = topology.len();
        if tlen < 2 {
            return Err(NetworkError::TopologyTooShort);
        }
        for i in 0..tlen
            invariant
                tlen == topology@.len(),
                2 <= tlen,
                forall|k: int| 0 <= k < i ==> (#[trigger] topology@[k]).neurons >= 1,
        {
            if topology[i].neurons == 0 {
                assert(exists|k: int|
                    0 <= k < topology@.len() && (#[trigger] topology@[k]).neurons == 0) by {
                    assert(topology@[i as int].neurons == 0);
                }
                return Err(NetworkError::EmptyLayer);
            }
        }
        let ghost w: Seq<int> = topo_widths(topology@);
        proof {
            assert forall|k: int| 0 <= k < w.len() implies #[trigger] w[k] >= 1 by {
                assert(w[k] == topology@[k].neurons as int);
            }
        }
        let glen: usize = chromosome.len();
        let mut cursor: usize = 0;
        let mut layers: Vec<Layer> = Vec::new();
        for li in 1..tlen
            invariant
                tlen == topology@.len(),
                1 < tlen,
                w == topo_widths(topology@),
                forall|k: int| 0 <= k < tlen ==> (#[trigger] topology@[k]).neurons >= 1,
                chrom_wf(chromosome.genes@),
                glen == chromosome.genes@.len(),
                cursor <= glen,
                param_count(w) == cursor + pc_from(w, li - 1),
                layers@.len() == li - 1,
                layers_params(layers@) == chromosome.genes@.take(cursor as int),
                forall|k: int|
                    0 <= k < li - 1 ==> (#[trigger] layers@[k]).neurons@.len() == topology@[k
                        + 1].neurons,
                forall|k: int|
                    0 <= k < li - 1 ==> layer_wf(#[trigger] layers@[k], topology@[k].neurons as int),
                forall|k: int|
                    0 <= k < li - 1 ==> (#[trigger] layers@[k]).neurons@[0].weights@.len()
                        == topology@[k].neurons,
        {
            let inw: usize = topology[li - 1].neurons;
            let outn: usize = topology[li].neurons;
            proof {
                assert(w[li as int] == outn as int);
                assert(w[li - 1] == inw as int);
                assert(pc_from(w, li - 1) == (outn as int) * (inw as int + 1) + pc_from(
                    w,
                    li as int,
                ));
            }
            let mut neurons: Vec<Neuron> = Vec::new();
            let ghost lbase: int = cursor as int;
            for ni in 0..outn
                invariant
                    tlen == topology@.len(),
                    1 <= li < tlen,
                    w == topo_widths(topology@),
                    inw == topology@[li - 1].neurons,
                    outn == topology@[li as int].neurons,
                    inw >= 1,
                    outn >= 1,
                    forall|k: int| 0 <= k < tlen ==> (#[trigger] topology@[k]).neurons >= 1,
                    chrom_wf(chromosome.genes@),
                    glen == chromosome.genes@.len(),
                    cursor <= glen,
                    param_count(w) == cursor + (outn - ni) * (inw as int + 1) + pc_from(
                        w,
                        li as int,
                    ),
                    neurons@.len() == ni,
                    layers_params(layers@) == chromosome.genes@.take(lbase),
                    lbase <= cursor,
                    layers_params(layers@) + neurons_params(neurons@) == chromosome.genes@.take(
                        cursor as int,
                    ),
                    forall|k: int|
                        0 <= k < ni ==> neuron_wf(#[trigger] neurons@[k], inw as int),
            {
                let remaining: usize = glen - cursor;
                if remaining == 0 || inw > remaining - 1 {
                    proof {
                        assert forall|k: int| 0 <= k < w.len() implies #[trigger] w[k] >= 1 by {
                            assert(w[k] == topology@[k].neurons as int);
                        }
                        lemma_pc_from_nonneg(w, li as int);
                        assert((outn - ni) * (inw as int + 1) >= inw as int + 1)
                            by (nonlinear_arith)
                            requires
                                outn - ni >= 1,
                                inw as int + 1 >= 1,
                        ;
                        assert(param_count(w) > glen);
                    }
                    return Err(NetworkError::GeneCountMismatch);
                }
                let ghost nstart: int = cursor as int;
                let bias: i64 = chromosome.gene(cursor);
                cursor = cursor + 1;
                let mut ws: Vec<i64> = Vec::new();
                for wi in 0..inw
                    invariant
                        glen == chromosome.genes@.len(),
                        chrom_wf(chromosome.genes@),
                        0 <= nstart,
                        nstart + 1 + inw <= glen,
                        cursor == nstart + 1 + wi,
                        ws@.len() == wi,
                        ws@ == chromosome.genes@.subrange(nstart + 1, cursor as int),
                {
                    let ghost prevws: Seq<i64> = ws@;
                    let g: i64 = chromosome.gene(cursor);
                    ws.push(g);
                    cursor = cursor + 1;
                    proof {
                        assert(ws@ =~= prevws + seq![g]);
                        assert(ws@ =~= chromosome.genes@.subrange(nstart + 1, cursor as int));
                    }
                }
                let nrn = Neuron { bias, weights: ws };
                let ghost prevns: Seq<Neuron> = neurons@;
                neurons.push(nrn);
                proof {
                    assert(neuron_params(nrn) =~= chromosome.genes@.subrange(
                        nstart,
                        cursor as int,
                    ));
                    assert(neurons@.drop_last() =~= prevns);
                    assert(neurons@.last() == nrn);
                    assert(neurons_params(neurons@) == neurons_params(prevns) + neuron_params(nrn));
                    assert(chromosome.genes@.take(cursor as int) =~= chromosome.genes@.take(nstart)
                        + chromosome.genes@.subrange(nstart, cursor as int));
                    assert(layers_params(layers@) + neurons_params(neurons@) =~= chromosome.genes@
                        .take(cursor as int));
                    assert((outn - ni) * (inw as int + 1) == (inw as int + 1) + (outn - (ni + 1)) * (
                    inw as int + 1)) by (nonlinear_arith);
                }
            }
            let layer = Layer { neurons };
            let ghost prevls: Seq<Layer> = layers@;
            layers.push(layer);
            proof {
                assert((outn - outn) * (inw as int + 1) == 0);
                assert(param_count(w) == cursor + pc_from(w, li as int));
                assert(layers@.drop_last() =~= prevls);
                assert(layers@.last() == layer);
                assert(layers_params(layers@) == layers_params(prevls) + neurons_params(
                    layer.neurons@,
                ));
                assert(layers_params(layers@) =~= chromosome.genes@.take(cursor as int));
            }
        }
        if cursor != glen {
            proof {
                assert(pc_from(w, tlen - 1) == 0);
            }
            return Err(NetworkError::GeneCountMismatch);
        }
        let net = Network { layers };
        proof {
            assert(pc_from(w, tlen - 1) == 0);
            assert forall|i: int| 0 <= i < net.layers@.len() implies layer_wf(
                #[trigger] net.layers@[i],
                layer_in(net.layers@, i),
            ) by {
                if i == 0 {
                    assert(layer_in(net.layers@, 0) == topology@[0].neurons as int);
                } else {
                    assert(layer_in(net.layers@, i) == net.layers@[i - 1].neurons@.len() as int);
                    assert(net.layers@[i - 1].neurons@.len() == topology@[i].neurons);
                }
            }
            assert(widths_of(net.layers@) =~= topo_widths(topology@));
            assert(net_params(net) =~= chromosome.genes@);
        }
        Ok(net)
    }

    /// Runs the inputs through every layer in order; the result is the last
    /// layer's output, one value per neuron of it.
    pub fn propagate(&self, inputs: Vec<i64>) -> (r: Vec<i64>)
        requires
            net_wf(*self),
            inputs@.len() == layer_in(self.layers@, 0),
            chrom_wf(inputs@),
        ensures
            r@ == net_out(*self, inputs@),
            r@.len() == self.layers@.last().neurons@.len(),
            chrom_wf(r@),
    {
        let n: usize = self.layers.len();
        let mut cur: Vec<i64> = inputs;
        let ghost orig: Seq<i64> = cur@;
        for i in 0..n
            invariant
                n == self.layers@.len(),
                net_wf(*self),
                chrom_wf(cur@),
                net_out_from(self.layers@, i as int, cur@) == net_out(*self, orig),
                cur@.len() == if i < n {
                    layer_in(self.layers@, i as int)
                } else {
                    self.layers@.last().neurons@.len() as int
                },
        {
            let next = self.layers[i].propagate(&cur);
            cur = next;
        }
        cur
    }
}

} // verus!
