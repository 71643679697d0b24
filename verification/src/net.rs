//! The network: an ordered sequence of layers, a single shared bias and a
//! learning rate.

use vstd::prelude::*;

use crate::fixed::{fx_add, fx_mul, fx_sub, Fx, SCALE};
use crate::layer::{
    grad_output, neurons_view, prop_hidden_prefix, prop_out_prefix, spec_sig_deriv,
    spec_sig_deriv_act, wsum, Layer,
};
use crate::neuron::NeuronView;
use crate::rng::random_unit;

verus! {

/// The spec-level images of a sequence of layers.
pub open spec fn layers_view(s: Seq<Layer>) -> Seq<Seq<NeuronView>> {
    s.map_values(|l: Layer| l@)
}

/// The spec-level image of a network.
#[verifier::ext_equal]
pub ghost struct NetView {
    pub layers: Seq<Seq<NeuronView>>,
    pub bias: int,
    pub learning_rate: int,
}

/// A freshly constructed layer: `n` neurons with zeroed state, each with
/// `w` outgoing weights drawn from `[0, 1)`.
pub open spec fn fresh_layer(l: Seq<NeuronView>, n: int, w: int) -> bool {
    &&& l.len() == n
    &&& forall|i: int|
        0 <= i < l.len() ==> {
            &&& (#[trigger] l[i]).incoming == 0
            &&& l[i].activation == 0
            &&& l[i].gradient == 0
            &&& l[i].weights.len() == w
            &&& forall|j: int| 0 <= j < l[i].weights.len() ==> 0 <= #[trigger] l[i].weights[j] < SCALE
        }
}

/// The first `k` terms of the summed cost over the output layer:
/// `sum_k 0.5 * (activation_k - expected)^2`.
pub open spec fn cost_sum(l: Seq<NeuronView>, expected: int, k: int) -> int
    decreases k,
{
    if k <= 0 {
        0
    } else {
        fx_add(
            cost_sum(l, expected, k - 1),
            fx_mul(
                500_000_000,
                fx_mul(fx_sub(l[k - 1].activation, expected), fx_sub(l[k - 1].activation, expected)),
            ),
        )
    }
}

/// The first `k` terms of the summed cost derivative:
/// `sum_k (activation_k - expected) * sigmoid'(activation_k)`, the
/// derivative re-applying the logistic.
pub open spec fn cost_derivative_sum(l: Seq<NeuronView>, expected: int, k: int) -> int
    decreases k,
{
    if k <= 0 {
        0
    } else {
        fx_add(
            cost_derivative_sum(l, expected, k - 1),
            fx_mul(fx_sub(l[k - 1].activation, expected), spec_sig_deriv(l[k - 1].activation)),
        )
    }
}

/// The input layer after the two features of a sample are written into
/// it: both values of each neuron are set positionally.
pub open spec fn seeded_input(l: Seq<NeuronView>, x: int, y: int) -> Seq<NeuronView> {
    Seq::new(
        l.len(),
        |i: int|
            NeuronView {
                incoming: if i == 0 { x } else { y },
                activation: if i == 0 { x } else { y },
                weights: l[i].weights,
                gradient: l[i].gradient,
            },
    )
}

/// One forward step: the next layer's values recomputed from `cur`.
pub open spec fn ff_layer(cur: Seq<NeuronView>, nxt: Seq<NeuronView>, bias: int) -> Seq<
    NeuronView,
> {
    Seq::new(
        nxt.len(),
        |j: int|
            NeuronView {
                incoming: wsum(cur, j, bias),
                activation: crate::sigmoid::sigmoid_raw(wsum(cur, j, bias)),
                weights: nxt[j].weights,
                gradient: nxt[j].gradient,
            },
    )
}

/// The layers after the first `k` forward steps: step `t` rewrites layer
/// `t` from the already-updated layer `t - 1`.
pub open spec fn forward_upto(layers: Seq<Seq<NeuronView>>, bias: int, k: int) -> Seq<
    Seq<NeuronView>,
>
    decreases k,
{
    if k <= 0 {
        layers
    } else {
        let prev = forward_upto(layers, bias, k - 1);
        prev.update(k, ff_layer(prev[k - 1], prev[k], bias))
    }
}

/// A topology the training loop can run on: two input neurons, every
/// layer populated, and every weight vector long enough for both passes
/// to index into it.
pub open spec fn trainable(layers: Seq<Seq<NeuronView>>) -> bool {
    &&& layers.len() >= 2
    &&& layers[0].len() == 2
    &&& forall|k: int| 0 <= k < layers.len() ==> (#[trigger] layers[k]).len() > 0
    &&& forall|k: int, i: int|
        0 <= k < layers.len() - 1 && 0 <= i < layers[k].len() ==> (#[trigger] layers[k][i]).weights.len()
            >= layers[k + 1].len()
    &&& forall|k: int, j: int|
        0 <= k <= layers.len() - 3 && 0 <= j < layers[k + 1].len() ==> (#[trigger] layers[k
            + 1][j]).weights.len() >= layers[k].len()
    &&& forall|j: int|
        0 <= j < layers[layers.len() - 1].len() ==> (#[trigger] layers[layers.len()
            - 1][j]).weights.len() == 0
}

/// Forward steps keep every layer's length, weights and gradients.
pub proof fn lemma_forward_upto_shape(layers: Seq<Seq<NeuronView>>, bias: int, k: int)
    requires
        0 <= k < layers.len(),
    ensures
        forward_upto(layers, bias, k).len() == layers.len(),
        forall|t: int|
            0 <= t < layers.len() ==> (#[trigger] forward_upto(layers, bias, k)[t]).len()
                == layers[t].len(),
        forall|t: int, i: int|
            0 <= t < layers.len() && 0 <= i < layers[t].len() ==> (#[trigger] forward_upto(
                layers,
                bias,
                k,
            )[t][i]).weights == layers[t][i].weights && forward_upto(layers, bias, k)[t][i].gradient
                == layers[t][i].gradient,
    decreases k,
{
    if k <= 0 {
    } else {
        lemma_forward_upto_shape(layers, bias, k - 1);
    }
}

/// Seeding the input layer keeps its length and its weights and gradients.
pub proof fn lemma_seeded_shape(l: Seq<NeuronView>, x: int, y: int)
    ensures
        seeded_input(l, x, y).len() == l.len(),
        forall|i: int|
            0 <= i < l.len() ==> (#[trigger] seeded_input(l, x, y)[i]).weights == l[i].weights
                && seeded_input(l, x, y)[i].gradient == l[i].gradient,
{
}

/// The gradient one backward step assigns to neuron `k` of a layer.
///
/// With no next layer the expected values drive it, positionally and only
/// as far as they reach; with a next layer of weightless neurons (the
/// output layer) the error flows through this layer's own weights; with
/// any other next layer it flows through the next layer's weights and the
/// derivative re-applies the logistic.
pub open spec fn bp_gradient(
    l: Seq<NeuronView>,
    expected: Seq<int>,
    next: Option<Seq<NeuronView>>,
    k: int,
) -> int {
    match next {
        None => if k < expected.len() {
            grad_output(l[k].activation, expected[k])
        } else {
            l[k].gradient
        },
        Some(nv) => if nv[0].weights.len() == 0 {
            fx_mul(
                spec_sig_deriv_act(l[k].activation),
                prop_out_prefix(l[k].weights, nv, nv.len() as int),
            )
        } else {
            fx_mul(spec_sig_deriv(l[k].activation), prop_hidden_prefix(nv, k, nv.len() as int))
        },
    }
}

/// One backward step on a layer: gradients assigned, then every outgoing
/// weight moved by `lr * gradient * activation` of its neuron.
pub open spec fn bp_layer(
    l: Seq<NeuronView>,
    expected: Seq<int>,
    lr: int,
    next: Option<Seq<NeuronView>>,
) -> Seq<NeuronView> {
    Seq::new(
        l.len(),
        |k: int|
            NeuronView {
                incoming: l[k].incoming,
                activation: l[k].activation,
                weights: Seq::new(
                    l[k].weights.len(),
                    |m: int|
                        fx_add(
                            l[k].weights[m],
                            fx_mul(
                                fx_mul(lr, bp_gradient(l, expected, next, k)),
                                l[k].activation,
                            ),
                        ),
                ),
                gradient: bp_gradient(l, expected, next, k),
            },
    )
}

/// The layers after the backward pass has processed layers `k` and above:
/// the output layer goes first with no next layer, and each lower layer
/// reads the layer just processed above it.
pub open spec fn backward_down(
    layers: Seq<Seq<NeuronView>>,
    expected: Seq<int>,
    lr: int,
    k: int,
) -> Seq<Seq<NeuronView>>
    decreases layers.len() - k,
{
    if k < 0 || k >= layers.len() {
        layers
    } else {
        let prev = backward_down(layers, expected, lr, k + 1);
        let nxt: Option<Seq<NeuronView>> = if k == layers.len() - 1 {
            None
        } else {
            Some(prev[k + 1])
        };
        prev.update(k, bp_layer(prev[k], expected, lr, nxt))
    }
}

/// Backward steps keep every layer's length, every weight vector's length
/// and every neuron's incoming and activation values.
pub proof fn lemma_backward_down_shape(
    layers: Seq<Seq<NeuronView>>,
    expected: Seq<int>,
    lr: int,
    k: int,
)
    ensures
        backward_down(layers, expected, lr, k).len() == layers.len(),
        forall|t: int|
            0 <= t < layers.len() ==> (#[trigger] backward_down(layers, expected, lr, k)[t]).len()
                == layers[t].len(),
        forall|t: int, i: int|
            0 <= t < layers.len() && 0 <= i < layers[t].len() ==> (#[trigger] backward_down(
                layers,
                expected,
                lr,
                k,
            )[t][i]).weights.len() == layers[t][i].weights.len() && backward_down(
                layers,
                expected,
                lr,
                k,
            )[t][i].incoming == layers[t][i].incoming && backward_down(
                layers,
                expected,
                lr,
                k,
            )[t][i].activation == layers[t][i].activation,
    decreases layers.len() - k,
{
    if k < 0 || k >= layers.len() {
    } else {
        lemma_backward_down_shape(layers, expected, lr, k + 1);
    }
}

/// The network after one training sample `(x, y, expected)`: inputs
/// seeded, forward pass, backward pass, and one bias update from the
/// output neuron's gradient.
pub open spec fn sample_step(net: NetView, x: int, y: int, expected: int) -> NetView {
    let seeded = net.layers.update(0, seeded_input(net.layers[0], x, y));
    let forwarded = forward_upto(seeded, net.bias, net.layers.len() - 1);
    let backed = backward_down(forwarded, seq![expected], net.learning_rate, 0);
    NetView {
        layers: backed,
        bias: fx_add(
            net.bias,
            fx_mul(net.learning_rate, backed[net.layers.len() - 1][0].gradient),
        ),
        learning_rate: net.learning_rate,
    }
}

/// The network after one pass over the first `k` samples of the set.
pub open spec fn train_epoch(net: NetView, set: Seq<(Fx, Fx, Fx)>, k: int) -> NetView
    decreases k,
{
    if k <= 0 {
        net
    } else {
        let p = train_epoch(net, set, k - 1);
        sample_step(p, set[k - 1].0@, set[k - 1].1@, set[k - 1].2@)
    }
}

/// The network after `n` full passes over the training set.
pub open spec fn train_iters(net: NetView, set: Seq<(Fx, Fx, Fx)>, n: int) -> NetView
    decreases n,
{
    if n <= 0 {
        net
    } else {
        train_epoch(train_iters(net, set, n - 1), set, set.len() as int)
    }
}

/// A feedforward network: input layer first, output layer last, a single
/// bias shared by every forward computation and a fixed learning rate.
#[derive(Debug, Clone)]
pub struct NeuralNet {
    layers: Vec<Layer>,
    bias: Fx,
    learning_rate: Fx,
}

impl View for NeuralNet {
    type V = NetView;

    closed spec fn view(&self) -> NetView {
        NetView {
            layers: layers_view(self.layers@),
            bias: self.bias@,
            learning_rate: self.learning_rate@,
        }
    }
}

impl NeuralNet {
    /// Build the topology: an input layer wired toward the hidden width,
    /// `num_layers - 2` hidden layers (the last wired toward the output
    /// width), and an output layer with no outgoing weights.  The bias is
    /// one random draw from `[0, 1)`.
    pub fn new(
        num_layers: usize,
        num_inputs: usize,
        num_hidden_layer_neurons: usize,
        num_outputs: usize,
        learning_rate: Fx,
    ) -> (net: NeuralNet)
        requires
            num_layers >= 2,
        ensures
            net@.layers.len() == num_layers,
            net@.learning_rate == learning_rate@,
            0 <= net@.bias < SCALE,
            fresh_layer(net@.layers[0], num_inputs as int, num_hidden_layer_neurons as int),
            forall|k: int|
                1 <= k < num_layers - 2 ==> fresh_layer(
                    #[trigger] net@.layers[k],
                    num_hidden_layer_neurons as int,
                    num_hidden_layer_neurons as int,
                ),
            num_layers >= 3 ==> fresh_layer(
                net@.layers[num_layers - 2],
                num_hidden_layer_neurons as int,
                num_outputs as int,
            ),
            fresh_layer(net@.layers[num_layers - 1], num_outputs as int, 0),
            (num_inputs == 2 && num_outputs >= 1 && num_hidden_layer_neurons >= 1 && (num_layers
                == 2 ==> num_hidden_layer_neurons >= num_outputs) && (num_layers == 3
                ==> num_outputs >= 2) && (num_layers >= 4 ==> num_hidden_layer_neurons >= 2
                && num_outputs >= num_hidden_layer_neurons)) ==> trainable(net@.layers),
    {
        let mut layers: Vec<Layer> = Vec::new();

        // input layer
        layers.push(Layer::new(num_inputs, num_hidden_layer_neurons));

        // hidden layers; the last one is wired toward the output layer
        let num_hidden_layers: usize = num_layers - 2;
        let mut i: usize = 0;
        while i < num_hidden_layers
            invariant
                i <= num_hidden_layers,
                num_hidden_layers == num_layers - 2,
                layers@.len() == i + 1,
                fresh_layer(
                    layers@[0]@,
                    num_inputs as int,
                    num_hidden_layer_neurons as int,
                ),
                forall|k: int|
                    1 <= k < layers@.len() && k < num_layers - 2 ==> fresh_layer(
                        (#[trigger] layers@[k])@,
                        num_hidden_layer_neurons as int,
                        num_hidden_layer_neurons as int,
                    ),
                i == num_hidden_layers && num_layers >= 3 ==> fresh_layer(
                    layers@[num_layers - 2]@,
                    num_hidden_layer_neurons as int,
                    num_outputs as int,
                ),
            decreases num_hidden_layers - i,
        {
            if i == num_hidden_layers - 1 {
                // hidden layer wired toward the output layer
                layers.push(Layer::new(num_hidden_layer_neurons, num_outputs));
            } else {
                layers.push(Layer::new(num_hidden_layer_neurons, num_hidden_layer_neurons));
            }
            i = i + 1;
        }

        // output layer, with no outgoing connections
        layers.push(Layer::new(num_outputs, 0));

        let bias: Fx = random_unit();

        let net = NeuralNet { layers, bias, learning_rate };
        proof {
            assert(forall|k: int|
                0 <= k < net.layers@.len() ==> #[trigger] net@.layers[k] == net.layers@[k]@);
        }
        net
    }

    /// The layers of this network, input layer first.
    pub fn get_layers(&self) -> (r: &Vec<Layer>)
        ensures
            layers_view(r@) == self@.layers,
    {
        &self.layers
    }

    /// Mutable access to the layers of this network.
    pub fn get_layers_mut(&mut self) -> (r: &mut Vec<Layer>)
        ensures
            layers_view((*r)@) == old(self)@.layers,
            final(self)@.layers == layers_view((*final(r))@),
            final(self)@.bias == old(self)@.bias,
            final(self)@.learning_rate == old(self)@.learning_rate,
    {
        &mut self.layers
    }

    /// The shared bias.
    pub fn get_bias(&self) -> (r: Fx)
        ensures
            r@ == self@.bias,
    {
        self.bias
    }

    /// The learning rate.
    pub fn get_learning_rate(&self) -> (r: Fx)
        ensures
            r@ == self@.learning_rate,
    {
        self.learning_rate
    }

    /// Seed the input layer with a sample's two features and run the full
    /// forward pass; the result is the first output neuron's activation.
    pub fn forward(&mut self, x: Fx, y: Fx) -> (r: Fx)
        requires
            trainable(old(self)@.layers),
        ensures
            final(self)@.layers == forward_upto(
                old(self)@.layers.update(0, seeded_input(old(self)@.layers[0], x@, y@)),
                old(self)@.bias,
                old(self)@.layers.len() - 1,
            ),
            final(self)@.layers.len() == old(self)@.layers.len(),
            final(self)@.bias == old(self)@.bias,
            final(self)@.learning_rate == old(self)@.learning_rate,
            r@ == final(self)@.layers[final(self)@.layers.len() - 1][0].activation,
            trainable(final(self)@.layers),
    {
        let ghost orig = self@.layers;
        let ghost seeded = orig.update(0, seeded_input(orig[0], x@, y@));

        // write the two features into the input layer
        let mut values: Vec<Fx> = Vec::new();
        values.push(x);
        values.push(y);
        proof {
            assert(orig[0] == self.layers@[0]@);
        }
        let res = {
            let l0 = &mut self.layers[0];
            l0.set_neuron_values_explicit(values)
        };
        proof {
            assert(res is Ok);
            assert(forall|t: int|
                0 <= t < self.layers@.len() ==> #[trigger] self@.layers[t] == self.layers@[t]@);
            assert(self@.layers[0] =~= seeded_input(orig[0], x@, y@));
            assert(self@.layers =~= seeded);
            lemma_seeded_shape(orig[0], x@, y@);
        }

        // run the forward pass, layer by layer
        let bias: Fx = self.bias;
        let count: usize = self.layers.len();
        let mut k: usize = 0;
        while k < count - 1
            invariant
                count == self.layers@.len(),
                count >= 2,
                k <= count - 1,
                trainable(orig),
                seeded == orig.update(0, seeded_input(orig[0], x@, y@)),
                seeded.len() == count,
                forall|t: int| 0 <= t < count ==> (#[trigger] seeded[t]).len() == orig[t].len(),
                forall|t: int, i: int|
                    0 <= t < count && 0 <= i < orig[t].len() ==> (#[trigger] seeded[t][i]).weights
                        == orig[t][i].weights,
                self@.layers == forward_upto(seeded, bias@, k as int),
                self.bias == old(self).bias,
                bias == self.bias,
                self.learning_rate == old(self).learning_rate,
            decreases count - 1 - k,
        {
            proof {
                lemma_forward_upto_shape(seeded, bias@, k as int);
                assert(forall|t: int|
                    0 <= t < self.layers@.len() ==> #[trigger] self@.layers[t]
                        == self.layers@[t]@);
            }
            let mut cur: Layer = self.layers[k].duplicate();
            proof {
                assert(cur@ == forward_upto(seeded, bias@, k as int)[k as int]);
                assert(forall|i: int|
                    0 <= i < cur@.len() ==> (#[trigger] cur@[i]).weights == orig[k as int][i].weights);
                assert(cur@.len() == orig[k as int].len());
                assert(forward_upto(seeded, bias@, k as int)[k as int + 1].len() == orig[
                    k as int + 1].len());
            }
            let nxt = &mut self.layers[k + 1];
            proof {
                assert((*nxt)@ == forward_upto(seeded, bias@, k as int)[k as int + 1]);
            }
            cur.feed_forward(nxt, bias);
            proof {
                assert(forall|t: int|
                    0 <= t < self.layers@.len() ==> #[trigger] self@.layers[t]
                        == self.layers@[t]@);
                let prev = forward_upto(seeded, bias@, k as int);
                assert(self@.layers[k as int + 1] =~= ff_layer(
                    prev[k as int],
                    prev[k as int + 1],
                    bias@,
                ));
                assert(self@.layers =~= forward_upto(seeded, bias@, k as int + 1));
            }
            k = k + 1;
        }

        // read the prediction off the output layer
        proof {
            lemma_forward_upto_shape(seeded, bias@, count as int - 1);
            assert(self@.layers[count - 1].len() == orig[count as int - 1].len());
            assert(forall|t: int|
                0 <= t < self.layers@.len() ==> #[trigger] self@.layers[t] == self.layers@[t]@);
            assert(self.layers@[count as int - 1]@.len() > 0);
            // the final topology has the same lengths, so it stays trainable
            assert(trainable(self@.layers));
        }
        let out_neurons = self.layers[count - 1].get_neurons();
        let r: Fx = out_neurons[0].get_activation_value();
        proof {
            assert(neurons_view(out_neurons@)[0] == out_neurons@[0]@);
        }
        r
    }

    /// Run one sample through the network: seed the inputs, run the
    /// forward pass, back-propagate from the output layer downward and
    /// update the shared bias once from the output neuron's gradient.
    pub fn train_sample(&mut self, x: Fx, y: Fx, expected: Fx)
        requires
            trainable(old(self)@.layers),
        ensures
            final(self)@ == sample_step(old(self)@, x@, y@, expected@),
            trainable(final(self)@.layers),
    {
        let _prediction: Fx = self.forward(x, y);

        let ghost fwd = self@.layers;
        let ghost e_seq: Seq<int> = seq![expected@];
        let mut expected_vec: Vec<Fx> = Vec::new();
        expected_vec.push(expected);
        proof {
            assert(forall|t: int|
                0 <= t < e_seq.len() ==> #[trigger] expected_vec@[t]@ == e_seq[t]);
        }

        let learning_rate: Fx = self.learning_rate;
        let count: usize = self.layers.len();
        let mut k: usize = count;
        while k > 0
            invariant
                count == self.layers@.len(),
                count >= 2,
                k <= count,
                trainable(fwd),
                fwd.len() == count,
                e_seq == seq![expected@],
                expected_vec@.len() == 1,
                expected_vec@[0]@ == expected@,
                self@.layers == backward_down(fwd, e_seq, learning_rate@, k as int),
                self@.bias == old(self)@.bias,
                learning_rate@ == self@.learning_rate,
                self@.learning_rate == old(self)@.learning_rate,
            decreases k,
        {
            proof {
                lemma_backward_down_shape(fwd, e_seq, learning_rate@, k as int);
                assert(forall|t: int|
                    0 <= t < self.layers@.len() ==> #[trigger] self@.layers[t]
                        == self.layers@[t]@);
            }
            k = k - 1;
            let ghost prev = backward_down(fwd, e_seq, learning_rate@, k as int + 1);
            if k == count - 1 {
                let l = &mut self.layers[k];
                proof {
                    assert((*l)@ == prev[k as int]);
                }
                l.back_propagate(&expected_vec, learning_rate, None);
                proof {
                    let done = bp_layer(prev[k as int], e_seq, learning_rate@, None);
                    assert forall|t: int| 0 <= t < prev[k as int].len() implies self.layers@[
                        k as int]@[t] =~= done[t] by {
                        assert(self.layers@[k as int]@[t].weights =~= done[t].weights);
                    }
                    assert(self.layers@[k as int]@ =~= done);
                }
            } else {
                let next_copy: Layer = self.layers[k + 1].duplicate();
                proof {
                    assert(next_copy@ == prev[k as int + 1]);
                    // the layer above is populated, and the weight lengths
                    // admit whichever branch its shape selects
                    assert(prev[k as int + 1].len() == fwd[k as int + 1].len());
                    assert(forall|j: int|
                        0 <= j < prev[k as int + 1].len()
                            ==> (#[trigger] prev[k as int + 1][j]).weights.len() == fwd[k as int
                            + 1][j].weights.len());
                    assert(prev[k as int].len() == fwd[k as int].len());
                    assert(forall|i: int|
                        0 <= i < prev[k as int].len()
                            ==> (#[trigger] prev[k as int][i]).weights.len() == fwd[k as int][i].weights.len());
                }
                let l = &mut self.layers[k];
                proof {
                    assert((*l)@ == prev[k as int]);
                }
                l.back_propagate(&expected_vec, learning_rate, Some(&next_copy));
                proof {
                    let nxt_spec: Option<Seq<NeuronView>> = Some(prev[k as int + 1]);
                    let done = bp_layer(prev[k as int], e_seq, learning_rate@, nxt_spec);
                    assert forall|t: int| 0 <= t < prev[k as int].len() implies self.layers@[
                        k as int]@[t] =~= done[t] by {
                        assert(self.layers@[k as int]@[t].weights =~= done[t].weights);
                    }
                    assert(self.layers@[k as int]@ =~= done);
                }
            }
            proof {
                assert(forall|t: int|
                    0 <= t < self.layers@.len() ==> #[trigger] self@.layers[t]
                        == self.layers@[t]@);
                assert(self@.layers =~= backward_down(fwd, e_seq, learning_rate@, k as int));
            }
        }

        // one bias update per sample, from the output neuron's gradient
        proof {
            lemma_backward_down_shape(fwd, e_seq, learning_rate@, 0);
            assert(forall|t: int|
                0 <= t < self.layers@.len() ==> #[trigger] self@.layers[t] == self.layers@[t]@);
            assert(fwd[count as int - 1].len() > 0);
            assert(self@.layers[count as int - 1].len() == fwd[count as int - 1].len());
            assert(self.layers@[count as int - 1]@.len() > 0);
        }
        let last: usize = count - 1;
        let out_neurons = self.layers[last].get_neurons();
        let g: Fx = out_neurons[0].get_error_gradient();
        proof {
            assert(neurons_view(out_neurons@)[0] == out_neurons@[0]@);
            assert(g@ == self@.layers[count as int - 1][0].gradient);
        }
        self.bias = self.bias.add(self.learning_rate.mul(g));
        proof {
            assert(trainable(self@.layers));
            let net0 = old(self)@;
            let seeded0 = net0.layers.update(0, seeded_input(net0.layers[0], x@, y@));
            let forwarded0 = forward_upto(seeded0, net0.bias, net0.layers.len() - 1);
            assert(net0.layers.len() == count);
            assert(fwd == forwarded0);
            let backed0 = backward_down(forwarded0, e_seq, net0.learning_rate, 0);
            assert(self@.layers == backed0);
            assert(self@.bias == fx_add(
                net0.bias,
                fx_mul(net0.learning_rate, backed0[net0.layers.len() - 1][0].gradient),
            ));
            assert(final(self)@ =~~= sample_step(net0, x@, y@, expected@));
        }
    }

    /// Per-sample training: `iterations` passes over the whole set, each
    /// sample seeding the inputs, running the forward pass, back-propagating
    /// from the output layer down, and updating the shared bias once.
    pub fn train(&mut self, training_set: &Vec<(Fx, Fx, Fx)>, iterations: usize)
        requires
            trainable(old(self)@.layers),
        ensures
            final(self)@ == train_iters(old(self)@, training_set@, iterations as int),
            trainable(final(self)@.layers),
    {
        let mut it: usize = 0;
        while it < iterations
            invariant
                it <= iterations,
                self@ == train_iters(old(self)@, training_set@, it as int),
                trainable(self@.layers),
            decreases iterations - it,
        {
            let ghost base = self@;
            let mut i: usize = 0;
            while i < training_set.len()
                invariant
                    i <= training_set@.len(),
                    self@ == train_epoch(base, training_set@, i as int),
                    trainable(self@.layers),
                decreases training_set@.len() - i,
            {
                let (x, y, expected) = training_set[i];
                self.train_sample(x, y, expected);
                i = i + 1;
            }
            proof {
                assert(self@ == train_iters(old(self)@, training_set@, it as int + 1));
            }
            it = it + 1;
        }
    }

    /// The summed squared-error cost of the output layer against a single
    /// expected value: `sum 0.5 * (activation - expected)^2`.
    pub fn cost_function(output_layer: &Layer, expected: Fx) -> (r: Fx)
        ensures
            r@ == cost_sum(output_layer@, expected@, output_layer@.len() as int),
    {
        let half: Fx = Fx::from_raw(500_000_000);
        let mut acc: Fx = Fx::zero();
        let neurons = output_layer.get_neurons();
        let mut i: usize = 0;
        while i < neurons.len()
            invariant
                i <= neurons@.len(),
                neurons_view(neurons@) == output_layer@,
                half@ == 500_000_000,
                acc@ == cost_sum(output_layer@, expected@, i as int),
            decreases neurons@.len() - i,
        {
            proof {
                assert(output_layer@[i as int] == neurons@[i as int]@);
            }
            let d: Fx = neurons[i].get_activation_value().sub(expected);
            acc = acc.add(half.mul(d.mul(d)));
            i = i + 1;
        }
        acc
    }

    /// The summed derivative of the cost of the output layer against a
    /// single expected value: `sum (activation - expected) * sigmoid'(activation)`.
    pub fn cost_function_derivative(output_layer: &Layer, expected: Fx) -> (r: Fx)
        ensures
            r@ == cost_derivative_sum(output_layer@, expected@, output_layer@.len() as int),
    {
        let mut acc: Fx = Fx::zero();
        let neurons = output_layer.get_neurons();
        let mut i: usize = 0;
        while i < neurons.len()
            invariant
                i <= neurons@.len(),
                neurons_view(neurons@) == output_layer@,
                acc@ == cost_derivative_sum(output_layer@, expected@, i as int),
            decreases neurons@.len() - i,
        {
            proof {
                assert(output_layer@[i as int] == neurons@[i as int]@);
            }
            let a: Fx = neurons[i].get_activation_value();
            let d: Fx = a.sub(expected);
            acc = acc.add(d.mul(Layer::sigmoid_derivative(a)));
            i = i + 1;
        }
        acc
    }
}

} // verus!
