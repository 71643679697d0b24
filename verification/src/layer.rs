//! A layer of neurons: forward propagation, backward propagation and the
//! explicit setters used to wire a topology by hand.

use vstd::prelude::*;

use crate::errors::ShapeMismatch;
use crate::fixed::{fx_add, fx_mul, fx_of_int, fx_sub, Fx, SCALE};
use crate::neuron::{weights_view, Neuron, NeuronView};
use crate::sigmoid::{sigmoid_exec, sigmoid_raw};

verus! {

/// The spec-level images of a sequence of neurons.
pub open spec fn neurons_view(s: Seq<Neuron>) -> Seq<NeuronView> {
    s.map_values(|n: Neuron| n@)
}

/// The derivative of the logistic function at an already-activated value
/// `a`, namely `a * (1 - a)`.
pub open spec fn spec_sig_deriv_act(a: int) -> int {
    fx_mul(a, fx_sub(SCALE as int, a))
}

/// The derivative of the logistic function at a raw pre-activation `x`,
/// namely `sigmoid(x) * (1 - sigmoid(x))`.
pub open spec fn spec_sig_deriv(x: int) -> int {
    fx_mul(sigmoid_raw(x), fx_sub(SCALE as int, sigmoid_raw(x)))
}

/// The first `k` terms of the weighted sum feeding neuron `j` of the next
/// layer: `sum_i weights[i][j] * activation[i]`, folded left to right.
pub open spec fn wsum_prefix(ns: Seq<NeuronView>, j: int, k: int) -> int
    decreases k,
{
    if k <= 0 {
        0
    } else {
        fx_add(wsum_prefix(ns, j, k - 1), fx_mul(ns[k - 1].weights[j], ns[k - 1].activation))
    }
}

/// The full weighted sum feeding neuron `j` of the next layer, bias last.
pub open spec fn wsum(ns: Seq<NeuronView>, j: int, bias: int) -> int {
    fx_add(wsum_prefix(ns, j, ns.len() as int), bias)
}

/// The gradient of an output neuron: twice the raw error times the
/// logistic derivative at the already-activated value.
pub open spec fn grad_output(a: int, expected: int) -> int {
    fx_mul(fx_mul(fx_of_int(2), fx_sub(expected, a)), spec_sig_deriv_act(a))
}

/// The first `k` terms of the error a neuron with outgoing weights `w`
/// collects from the output layer `next`: `sum_j w[j] * gradient[j]`.
pub open spec fn prop_out_prefix(w: Seq<int>, next: Seq<NeuronView>, k: int) -> int
    decreases k,
{
    if k <= 0 {
        0
    } else {
        fx_add(prop_out_prefix(w, next, k - 1), fx_mul(w[k - 1], next[k - 1].gradient))
    }
}

/// The first `k` terms of the error neuron `i` collects from a hidden
/// next layer: `sum_j next[j].weights[i] * next[j].gradient`.
pub open spec fn prop_hidden_prefix(next: Seq<NeuronView>, i: int, k: int) -> int
    decreases k,
{
    if k <= 0 {
        0
    } else {
        fx_add(prop_hidden_prefix(next, i, k - 1), fx_mul(next[k - 1].weights[i], next[k - 1].gradient))
    }
}

/// The layer after `set_default_neuron_values(v)`: both values of every
/// neuron equal `v`; weights and gradients are kept.
pub open spec fn defaults_set(l: Seq<NeuronView>, v: int) -> Seq<NeuronView> {
    Seq::new(
        l.len(),
        |i: int|
            NeuronView { incoming: v, activation: v, weights: l[i].weights, gradient: l[i].gradient },
    )
}

/// Law: setting default neuron values is idempotent in the sense that a
/// second call with another value leaves the layer exactly as one call
/// with that last value would; nothing accumulates across calls.
pub proof fn lemma_set_default_idempotent(l: Seq<NeuronView>, v1: int, v2: int)
    ensures
        defaults_set(defaults_set(l, v1), v2) == defaults_set(l, v2),
{
    assert(defaults_set(defaults_set(l, v1), v2) =~~= defaults_set(l, v2));
}

/// Law: the logistic derivative over an already-activated value peaks at
/// one half, where it is exactly one quarter, and vanishes at zero and at
/// one.
pub proof fn lemma_sig_deriv_act_peak(a: int)
    ensures
        spec_sig_deriv_act(a) <= spec_sig_deriv_act(500_000_000),
        spec_sig_deriv_act(500_000_000) == 250_000_000,
        spec_sig_deriv_act(0) == 0,
        spec_sig_deriv_act(SCALE as int) == 0,
{
    let s = SCALE as int;
    assert(spec_sig_deriv_act(500_000_000) == 250_000_000) by {
        assert(fx_sub(s, 500_000_000) == 500_000_000);
        crate::fixed::lemma_tdiv_concrete(
            (500_000_000 as int) * (500_000_000 as int),
            s,
            250_000_000,
        );
    };
    assert(spec_sig_deriv_act(0) == 0) by {
        crate::fixed::lemma_tdiv_exact(0, s);
        assert(0 * fx_sub(s, 0) == 0);
        assert(0 * s == 0);
    };
    assert(spec_sig_deriv_act(s) == 0) by {
        crate::fixed::lemma_tdiv_exact(0, s);
        assert(s * fx_sub(s, s) == 0);
        assert(0 * s == 0);
    };
    let b = fx_sub(s, a);
    if 0 <= a <= s {
        assert(a * b <= (500_000_000 as int) * (500_000_000 as int)) by (nonlinear_arith)
            requires
                0 <= a <= s,
                b == s - a,
                s == 1_000_000_000,
        ;
        assert(a * b >= 0) by (nonlinear_arith)
            requires
                a >= 0,
                b >= 0,
        ;
        crate::fixed::lemma_tdiv_mono(a * b, (500_000_000 as int) * (500_000_000 as int), s);
        crate::fixed::lemma_tdiv_concrete(
            (500_000_000 as int) * (500_000_000 as int),
            s,
            250_000_000,
        );
    } else {
        assert(a * b <= 0) by (nonlinear_arith)
            requires
                (a < 0 && b > 0) || (a > 0 && b <= 0),
        ;
        crate::fixed::lemma_tdiv_mono(a * b, 0, s);
        crate::fixed::lemma_tdiv_exact(0, s);
        assert(0 * s == 0);
    }
}

/// A layer: an ordered sequence of neurons of fixed count.
#[derive(Debug, Clone)]
pub struct Layer {
    neurons: Vec<Neuron>,
}

impl View for Layer {
    type V = Seq<NeuronView>;

    closed spec fn view(&self) -> Seq<NeuronView> {
        neurons_view(self.neurons@)
    }
}

impl Layer {
    /// A layer of `num_neurons` fresh neurons, each with one random
    /// outgoing weight per neuron of the next layer.
    pub fn new(num_neurons: usize, num_neurons_in_next_layer: usize) -> (l: Layer)
        ensures
            l@.len() == num_neurons,
            forall|i: int|
                0 <= i < num_neurons ==> {
                    &&& (#[trigger] l@[i]).incoming == 0
                    &&& l@[i].activation == 0
                    &&& l@[i].gradient == 0
                    &&& l@[i].weights.len() == num_neurons_in_next_layer
                    &&& forall|j: int|
                        0 <= j < num_neurons_in_next_layer ==> 0 <= #[trigger] l@[i].weights[j]
                            < SCALE
                },
    {
        let mut neurons: Vec<Neuron> = Vec::new();
        let mut i: usize = 0;
        while i < num_neurons
            invariant
                i <= num_neurons,
                neurons@.len() == i,
                forall|t: int|
                    0 <= t < i ==> {
                        &&& (#[trigger] neurons@[t]@).incoming == 0
                        &&& neurons@[t]@.activation == 0
                        &&& neurons@[t]@.gradient == 0
                        &&& neurons@[t]@.weights.len() == num_neurons_in_next_layer
                        &&& forall|j: int|
                            0 <= j < num_neurons_in_next_layer ==> 0 <= #[trigger] neurons@[t]@.weights[j]
                                < SCALE
                    },
            decreases num_neurons - i,
        {
            neurons.push(Neuron::new(num_neurons_in_next_layer));
            i = i + 1;
        }
        let l = Layer { neurons };
        proof {
            assert(forall|i: int| 0 <= i < num_neurons ==> l@[i] == l.neurons@[i]@);
        }
        l
    }

    /// The neurons of this layer.
    pub fn get_neurons(&self) -> (r: &Vec<Neuron>)
        ensures
            neurons_view(r@) == self@,
    {
        &self.neurons
    }

    /// Mutable access to the neurons of this layer.
    pub fn get_neurons_mut(&mut self) -> (r: &mut Vec<Neuron>)
        ensures
            neurons_view((*r)@) == old(self)@,
            final(self)@ == neurons_view((*final(r))@),
    {
        &mut self.neurons
    }

    /// An owned copy with the same view.
    pub fn duplicate(&self) -> (r: Layer)
        ensures
            r@ == self@,
    {
        let mut neurons: Vec<Neuron> = Vec::new();
        let mut i: usize = 0;
        while i < self.neurons.len()
            invariant
                i <= self.neurons@.len(),
                neurons@.len() == i,
                forall|t: int| 0 <= t < i ==> #[trigger] neurons@[t]@ == self.neurons@[t]@,
            decreases self.neurons@.len() - i,
        {
            neurons.push(self.neurons[i].duplicate());
            i = i + 1;
        }
        let r = Layer { neurons };
        proof {
            assert(forall|t: int| 0 <= t < r.neurons@.len() ==> #[trigger] r@[t] == r.neurons@[t]@);
            assert(forall|t: int|
                0 <= t < self.neurons@.len() ==> #[trigger] self@[t] == self.neurons@[t]@);
            assert(r@ =~= self@);
        }
        r
    }

    /// How many neurons this layer holds.
    pub fn num_neurons(&self) -> (r: usize)
        ensures
            r == self@.len(),
    {
        self.neurons.len()
    }

    /// The logistic activation `1 / (1 + e^-sum)`.
    pub fn sigmoid(sum: Fx) -> (r: Fx)
        ensures
            r@ == sigmoid_raw(sum@),
            1 <= r@ <= SCALE - 1,
    {
        let raw: i64 = sigmoid_exec(sum.raw());
        Fx::from_raw(raw)
    }

    /// The logistic derivative at a raw pre-activation input:
    /// `sigmoid(input) * (1 - sigmoid(input))`.
    pub fn sigmoid_derivative(input: Fx) -> (r: Fx)
        ensures
            r@ == spec_sig_deriv(input@),
    {
        let s = Layer::sigmoid(input);
        s.mul(Fx::one().sub(s))
    }

    /// The logistic derivative expressed over an already-activated value:
    /// `activated_value * (1 - activated_value)`.
    pub fn sigmoid_derivative_already_activated(activated_value: Fx) -> (r: Fx)
        ensures
            r@ == spec_sig_deriv_act(activated_value@),
    {
        activated_value.mul(Fx::one().sub(activated_value))
    }

    /// Set both the incoming and the activation value of every neuron
    /// to `value`; weights and gradients stay put.
    pub fn set_default_neuron_values(&mut self, value: Fx)
        ensures
            final(self)@ == defaults_set(old(self)@, value@),
            final(self)@.len() == old(self)@.len(),
            forall|i: int|
                0 <= i < old(self)@.len() ==> {
                    &&& (#[trigger] final(self)@[i]).incoming == value@
                    &&& final(self)@[i].activation == value@
                    &&& final(self)@[i].weights == old(self)@[i].weights
                    &&& final(self)@[i].gradient == old(self)@[i].gradient
                },
    {
        let ghost orig = self.neurons@;
        let mut i: usize = 0;
        while i < self.neurons.len()
            invariant
                i <= self.neurons@.len(),
                self.neurons@.len() == orig.len(),
                forall|t: int| i <= t < orig.len() ==> self.neurons@[t] == orig[t],
                forall|t: int|
                    0 <= t < i ==> {
                        &&& (#[trigger] self.neurons@[t]@).incoming == value@
                        &&& self.neurons@[t]@.activation == value@
                        &&& self.neurons@[t]@.weights == orig[t]@.weights
                        &&& self.neurons@[t]@.gradient == orig[t]@.gradient
                    },
            decreases self.neurons@.len() - i,
        {
            let n = &mut self.neurons[i];
            n.set_activation_value(value);
            n.set_incoming_value(value);
            i = i + 1;
        }
        proof {
            assert(forall|i: int| 0 <= i < orig.len() ==> old(self)@[i] == orig[i]@);
            assert(forall|i: int| 0 <= i < orig.len() ==> final(self)@[i] == self.neurons@[i]@);
            assert(final(self)@ =~~= defaults_set(old(self)@, value@));
        }
    }

    /// Seed every neuron's incoming and activation value positionally, or
    /// report the exact count mismatch and change nothing.
    pub fn set_neuron_values_explicit(&mut self, values: Vec<Fx>) -> (r: Result<
        (),
        ShapeMismatch,
    >)
        ensures
            r is Ok <==> values@.len() == old(self)@.len(),
            final(self)@.len() == old(self)@.len(),
            r is Ok ==> forall|i: int|
                0 <= i < old(self)@.len() ==> {
                    &&& (#[trigger] final(self)@[i]).incoming == values@[i]@
                    &&& final(self)@[i].activation == values@[i]@
                    &&& final(self)@[i].weights == old(self)@[i].weights
                    &&& final(self)@[i].gradient == old(self)@[i].gradient
                },
            r is Err ==> *final(self) == *old(self) && r == Err::<(), ShapeMismatch>(
                ShapeMismatch::ValueCount {
                    expected: old(self)@.len() as usize,
                    got: values@.len() as usize,
                },
            ),
    {
        if self.neurons.len() != values.len() {
            let e = ShapeMismatch::ValueCount { expected: self.neurons.len(), got: values.len() };
            return Err(e);
        }
        let ghost orig = self.neurons@;
        let mut i: usize = 0;
        while i < self.neurons.len()
            invariant
                i <= self.neurons@.len(),
                self.neurons@.len() == orig.len(),
                values@.len() == orig.len(),
                forall|t: int| i <= t < orig.len() ==> self.neurons@[t] == orig[t],
                forall|t: int|
                    0 <= t < i ==> {
                        &&& (#[trigger] self.neurons@[t]@).incoming == values@[t]@
                        &&& self.neurons@[t]@.activation == values@[t]@
                        &&& self.neurons@[t]@.weights == orig[t]@.weights
                        &&& self.neurons@[t]@.gradient == orig[t]@.gradient
                    },
            decreases self.neurons@.len() - i,
        {
            let v: Fx = values[i];
            let n = &mut self.neurons[i];
            n.set_incoming_value(v);
            n.set_activation_value(v);
            i = i + 1;
        }
        proof {
            assert(forall|i: int| 0 <= i < orig.len() ==> old(self)@[i] == orig[i]@);
            assert(forall|i: int| 0 <= i < orig.len() ==> final(self)@[i] == self.neurons@[i]@);
        }
        Ok(())
    }
    /// Replace every neuron's weight vector positionally.  The outer count
    /// must equal the neuron count and each inner vector must match that
    /// neuron's weight length; otherwise the exact mismatch is reported and
    /// nothing changes.
    pub fn set_neuron_weights_explicit(&mut self, weights: &Vec<Vec<Fx>>) -> (r: Result<
        (),
        ShapeMismatch,
    >)
        ensures
            r is Ok <==> (weights@.len() == old(self)@.len() && forall|i: int|
                0 <= i < weights@.len() ==> (#[trigger] weights@[i])@.len()
                    == old(self)@[i].weights.len()),
            final(self)@.len() == old(self)@.len(),
            r is Ok ==> forall|i: int|
                0 <= i < old(self)@.len() ==> {
                    &&& (#[trigger] final(self)@[i]).incoming == old(self)@[i].incoming
                    &&& final(self)@[i].activation == old(self)@[i].activation
                    &&& final(self)@[i].weights == weights_view(weights@[i]@)
                    &&& final(self)@[i].gradient == old(self)@[i].gradient
                },
            r is Err ==> *final(self) == *old(self),
            weights@.len() != old(self)@.len() ==> r == Err::<(), ShapeMismatch>(
                ShapeMismatch::WeightVectorCount {
                    expected: old(self)@.len() as usize,
                    got: weights@.len() as usize,
                },
            ),
            (weights@.len() == old(self)@.len() && r is Err) ==> exists|i: int|
                0 <= i < weights@.len() && (#[trigger] weights@[i])@.len()
                    != old(self)@[i].weights.len() && (forall|t: int|
                    0 <= t < i ==> (#[trigger] weights@[t])@.len() == old(self)@[t].weights.len())
                    && r == Err::<(), ShapeMismatch>(
                    ShapeMismatch::WeightCount {
                        expected: old(self)@[i].weights.len() as usize,
                        got: weights@[i]@.len() as usize,
                    },
                ),
    {
        let neuron_len: usize = self.neurons.len();
        let weights_vec_len: usize = weights.len();
        if neuron_len != weights_vec_len {
            let e = ShapeMismatch::WeightVectorCount { expected: neuron_len, got: weights_vec_len };
            return Err(e);
        }
        let mut i: usize = 0;
        while i < neuron_len
            invariant
                i <= neuron_len,
                neuron_len == self.neurons@.len(),
                weights@.len() == neuron_len,
                forall|t: int|
                    0 <= t < i ==> (#[trigger] weights@[t])@.len()
                        == self.neurons@[t]@.weights.len(),
                *self == *old(self),
            decreases neuron_len - i,
        {
            let expected_here: usize = self.neurons[i].num_weights();
            let got_here: usize = weights[i].len();
            if expected_here != got_here {
                let e = ShapeMismatch::WeightCount { expected: expected_here, got: got_here };
                return Err(e);
            }
            i = i + 1;
        }
        let ghost orig = self.neurons@;
        let mut i: usize = 0;
        while i < neuron_len
            invariant
                i <= neuron_len,
                neuron_len == self.neurons@.len(),
                neuron_len == orig.len(),
                weights@.len() == neuron_len,
                forall|t: int|
                    0 <= t < orig.len() ==> (#[trigger] weights@[t])@.len()
                        == orig[t]@.weights.len(),
                forall|t: int| i <= t < orig.len() ==> self.neurons@[t] == orig[t],
                forall|t: int|
                    0 <= t < i ==> {
                        &&& (#[trigger] self.neurons@[t]@).incoming == orig[t]@.incoming
                        &&& self.neurons@[t]@.activation == orig[t]@.activation
                        &&& self.neurons@[t]@.weights == weights_view(weights@[t]@)
                        &&& self.neurons@[t]@.gradient == orig[t]@.gradient
                    },
            decreases neuron_len - i,
        {
            let row: &Vec<Fx> = &weights[i];
            let n = &mut self.neurons[i];
            n.set_weights(row);
            i = i + 1;
        }
        proof {
            assert(forall|i: int| 0 <= i < orig.len() ==> old(self)@[i] == orig[i]@);
            assert(forall|i: int| 0 <= i < orig.len() ==> final(self)@[i] == self.neurons@[i]@);
        }
        Ok(())
    }

    /// Propagate this layer's activations forward: every neuron `j` of the
    /// next layer receives the weighted sum of this layer's activations
    /// plus the bias, and the logistic of that sum as its activation.
    pub fn feed_forward(&mut self, next_layer: &mut Layer, bias: Fx)
        requires
            forall|i: int|
                0 <= i < old(self)@.len() ==> (#[trigger] old(self)@[i]).weights.len() >= old(
                    next_layer,
                )@.len(),
        ensures
            *final(self) == *old(self),
            final(next_layer)@.len() == old(next_layer)@.len(),
            forall|j: int|
                0 <= j < old(next_layer)@.len() ==> {
                    &&& (#[trigger] final(next_layer)@[j]).incoming == wsum(old(self)@, j, bias@)
                    &&& final(next_layer)@[j].activation == sigmoid_raw(
                        wsum(old(self)@, j, bias@),
                    )
                    &&& final(next_layer)@[j].weights == old(next_layer)@[j].weights
                    &&& final(next_layer)@[j].gradient == old(next_layer)@[j].gradient
                },
    {
        let ghost orig_next = next_layer.neurons@;
        let count: usize = next_layer.neurons.len();
        let mut j: usize = 0;
        while j < count
            invariant
                j <= count,
                *self == *old(self),
                count == next_layer.neurons@.len(),
                count == orig_next.len(),
                forall|i: int|
                    0 <= i < self@.len() ==> (#[trigger] self@[i]).weights.len() >= count,
                forall|t: int| j <= t < count ==> next_layer.neurons@[t] == orig_next[t],
                forall|t: int|
                    0 <= t < j ==> {
                        &&& (#[trigger] next_layer.neurons@[t]@).incoming == wsum(
                            self@,
                            t,
                            bias@,
                        )
                        &&& next_layer.neurons@[t]@.activation == sigmoid_raw(
                            wsum(self@, t, bias@),
                        )
                        &&& next_layer.neurons@[t]@.weights == orig_next[t]@.weights
                        &&& next_layer.neurons@[t]@.gradient == orig_next[t]@.gradient
                    },
            decreases count - j,
        {
            let mut acc: Fx = Fx::zero();
            let mut i: usize = 0;
            while i < self.neurons.len()
                invariant
                    i <= self.neurons@.len(),
                    *self == *old(self),
                    j < count,
                    forall|t: int|
                        0 <= t < self@.len() ==> (#[trigger] self@[t]).weights.len() >= count,
                    acc@ == wsum_prefix(self@, j as int, i as int),
                decreases self.neurons@.len() - i,
            {
                proof {
                    assert(self@[i as int] == self.neurons@[i as int]@);
                }
                let w: Fx = self.neurons[i].weight(j);
                let a: Fx = self.neurons[i].get_activation_value();
                acc = acc.add(w.mul(a));
                i = i + 1;
            }
            proof {
                assert(self@.len() == self.neurons@.len());
                assert(acc@ == wsum_prefix(self@, j as int, self@.len() as int));
            }
            let sum: Fx = acc.add(bias);
            assert(sum@ == wsum(self@, j as int, bias@));
            let activated_value: Fx = Layer::sigmoid(sum);
            let n = &mut next_layer.neurons[j];
            n.set_incoming_value(sum);
            n.set_activation_value(activated_value);
            j = j + 1;
        }
        proof {
            assert(forall|t: int| 0 <= t < count ==> old(next_layer)@[t] == orig_next[t]@);
            assert(forall|t: int|
                0 <= t < count ==> final(next_layer)@[t] == next_layer.neurons@[t]@);
        }
    }

    /// Give every neuron the gradient `sigmoid'(activation) * error`,
    /// reading the activation as an already-activated value.
    pub fn set_neuron_error_gradients(&mut self, error: Fx)
        ensures
            final(self)@.len() == old(self)@.len(),
            forall|i: int|
                0 <= i < old(self)@.len() ==> {
                    &&& (#[trigger] final(self)@[i]).incoming == old(self)@[i].incoming
                    &&& final(self)@[i].activation == old(self)@[i].activation
                    &&& final(self)@[i].weights == old(self)@[i].weights
                    &&& final(self)@[i].gradient == fx_mul(
                        spec_sig_deriv_act(old(self)@[i].activation),
                        error@,
                    )
                },
    {
        let ghost orig = self.neurons@;
        let mut i: usize = 0;
        while i < self.neurons.len()
            invariant
                i <= self.neurons@.len(),
                self.neurons@.len() == orig.len(),
                forall|t: int| i <= t < orig.len() ==> self.neurons@[t] == orig[t],
                forall|t: int|
                    0 <= t < i ==> {
                        &&& (#[trigger] self.neurons@[t]@).incoming == orig[t]@.incoming
                        &&& self.neurons@[t]@.activation == orig[t]@.activation
                        &&& self.neurons@[t]@.weights == orig[t]@.weights
                        &&& self.neurons@[t]@.gradient == fx_mul(
                            spec_sig_deriv_act(orig[t]@.activation),
                            error@,
                        )
                    },
            decreases self.neurons@.len() - i,
        {
            let sigmoid_d: Fx = Layer::sigmoid_derivative_already_activated(
                self.neurons[i].get_activation_value(),
            );
            let g: Fx = sigmoid_d.mul(error);
            let n = &mut self.neurons[i];
            n.set_error_gradient(g);
            i = i + 1;
        }
        proof {
            assert(forall|i: int| 0 <= i < orig.len() ==> old(self)@[i] == orig[i]@);
            assert(forall|i: int| 0 <= i < orig.len() ==> final(self)@[i] == self.neurons@[i]@);
        }
    }
    /// Add `learning_rate * gradient * activation` of each neuron to every
    /// one of that neuron's outgoing weights.
    ///
    /// Note that the same delta, built from the owning neuron's own
    /// gradient and activation, goes to all of that neuron's outgoing
    /// weights alike; this diverges from the conventional delta rule,
    /// which would scale each weight by the downstream neuron's gradient,
    /// and is kept deliberately as the engine's specified behavior.
    pub fn update_weights_back_prop(&mut self, learning_rate: Fx)
        ensures
            final(self)@.len() == old(self)@.len(),
            forall|k: int|
                0 <= k < old(self)@.len() ==> {
                    &&& (#[trigger] final(self)@[k]).incoming == old(self)@[k].incoming
                    &&& final(self)@[k].activation == old(self)@[k].activation
                    &&& final(self)@[k].gradient == old(self)@[k].gradient
                    &&& final(self)@[k].weights.len() == old(self)@[k].weights.len()
                    &&& forall|m: int|
                        0 <= m < old(self)@[k].weights.len() ==> (#[trigger] final(self)@[k].weights[m]) == fx_add(
                            old(self)@[k].weights[m],
                            fx_mul(
                                fx_mul(learning_rate@, old(self)@[k].gradient),
                                old(self)@[k].activation,
                            ),
                        )
                },
    {
        let ghost orig = self.neurons@;
        let mut k: usize = 0;
        while k < self.neurons.len()
            invariant
                k <= self.neurons@.len(),
                self.neurons@.len() == orig.len(),
                forall|t: int| k <= t < orig.len() ==> self.neurons@[t] == orig[t],
                forall|t: int|
                    0 <= t < k ==> {
                        &&& (#[trigger] self.neurons@[t]@).incoming == orig[t]@.incoming
                        &&& self.neurons@[t]@.activation == orig[t]@.activation
                        &&& self.neurons@[t]@.gradient == orig[t]@.gradient
                        &&& self.neurons@[t]@.weights.len() == orig[t]@.weights.len()
                        &&& forall|m: int|
                            0 <= m < orig[t]@.weights.len() ==> (#[trigger] self.neurons@[t]@.weights[m])
                                == fx_add(
                                orig[t]@.weights[m],
                                fx_mul(
                                    fx_mul(learning_rate@, orig[t]@.gradient),
                                    orig[t]@.activation,
                                ),
                            )
                    },
            decreases self.neurons@.len() - k,
        {
            let g: Fx = self.neurons[k].get_error_gradient();
            let a: Fx = self.neurons[k].get_activation_value();
            let delta: Fx = learning_rate.mul(g).mul(a);
            let old_weights: Vec<Fx> = self.neurons[k].get_weights();
            let mut new_weights: Vec<Fx> = Vec::new();
            let mut m: usize = 0;
            while m < old_weights.len()
                invariant
                    m <= old_weights@.len(),
                    new_weights@.len() == m,
                    forall|t: int|
                        0 <= t < m ==> (#[trigger] new_weights@[t]@) == fx_add(
                            old_weights@[t]@,
                            delta@,
                        ),
                decreases old_weights@.len() - m,
            {
                let val: Fx = old_weights[m].add(delta);
                new_weights.push(val);
                m = m + 1;
            }
            proof {
                assert(self.neurons@[k as int]@ == orig[k as int]@);
                assert(forall|t: int|
                    0 <= t < old_weights@.len() ==> #[trigger] weights_view(old_weights@)[t]
                        == old_weights@[t]@);
                assert(forall|t: int|
                    0 <= t < new_weights@.len() ==> #[trigger] weights_view(new_weights@)[t]
                        == new_weights@[t]@);
            }
            let n = &mut self.neurons[k];
            n.set_weights(&new_weights);
            proof {
                assert(forall|t: int|
                    0 <= t < new_weights@.len() ==> #[trigger] weights_view(new_weights@)[t]
                        == new_weights@[t]@);
            }
            k = k + 1;
        }
        proof {
            assert(forall|t: int| 0 <= t < orig.len() ==> old(self)@[t] == orig[t]@);
            assert(forall|t: int| 0 <= t < orig.len() ==> final(self)@[t] == self.neurons@[t]@);
        }
    }

    /// Compute this layer's error gradients and then update its weights.
    ///
    /// With no next layer this layer is the output layer and the gradient
    /// comes from the expected values; with a next layer whose neurons have
    /// no outgoing weights the error is collected through this layer's own
    /// weights; with any other next layer the error is collected through
    /// the next layer's weights, the derivative re-applying the logistic.
    pub fn back_propagate(
        &mut self,
        expected_values: &Vec<Fx>,
        learning_rate: Fx,
        next_layer: Option<&Layer>,
    )
        requires
            next_layer matches Some(nl) ==> {
                &&& nl@.len() > 0
                &&& nl@[0].weights.len() == 0 ==> forall|i: int|
                    0 <= i < old(self)@.len() ==> (#[trigger] old(self)@[i]).weights.len()
                        >= nl@.len()
                &&& nl@[0].weights.len() != 0 ==> forall|j: int|
                    0 <= j < nl@.len() ==> (#[trigger] nl@[j]).weights.len() >= old(self)@.len()
            },
        ensures
            final(self)@.len() == old(self)@.len(),
            next_layer is None ==> forall|k: int|
                0 <= k < old(self)@.len() ==> (#[trigger] final(self)@[k]).gradient == (
                if k < expected_values@.len() {
                    grad_output(old(self)@[k].activation, expected_values@[k]@)
                } else {
                    old(self)@[k].gradient
                }),
            next_layer matches Some(nl) ==> {
                &&& nl@[0].weights.len() == 0 ==> forall|k: int|
                    0 <= k < old(self)@.len() ==> (#[trigger] final(self)@[k]).gradient == fx_mul(
                        spec_sig_deriv_act(old(self)@[k].activation),
                        prop_out_prefix(old(self)@[k].weights, nl@, nl@.len() as int),
                    )
                &&& nl@[0].weights.len() != 0 ==> forall|k: int|
                    0 <= k < old(self)@.len() ==> (#[trigger] final(self)@[k]).gradient == fx_mul(
                        spec_sig_deriv(old(self)@[k].activation),
                        prop_hidden_prefix(nl@, k, nl@.len() as int),
                    )
            },
            forall|k: int|
                0 <= k < old(self)@.len() ==> {
                    &&& (#[trigger] final(self)@[k]).incoming == old(self)@[k].incoming
                    &&& final(self)@[k].activation == old(self)@[k].activation
                    &&& final(self)@[k].weights.len() == old(self)@[k].weights.len()
                    &&& forall|m: int|
                        0 <= m < old(self)@[k].weights.len() ==> (#[trigger] final(self)@[k].weights[m]) == fx_add(
                            old(self)@[k].weights[m],
                            fx_mul(
                                fx_mul(learning_rate@, final(self)@[k].gradient),
                                old(self)@[k].activation,
                            ),
                        )
                },
    {
        let ghost orig = self.neurons@;
        match next_layer {
            Some(next) => {
                if next.get_neurons()[0].num_weights() == 0 {
                    // the next layer is the output layer: collect its
                    // gradients through this layer's own weights
                    proof {
                        assert(next@[0] == next.neurons@[0]@);
                        assert(forall|t: int| 0 <= t < orig.len() ==> old(self)@[t] == orig[t]@);
                    }
                    let mut i: usize = 0;
                    while i < self.neurons.len()
                        invariant
                            i <= self.neurons@.len(),
                            self.neurons@.len() == orig.len(),
                            forall|t: int| i <= t < orig.len() ==> self.neurons@[t] == orig[t],
                            orig.len() == old(self)@.len(),
                            old(self)@ == neurons_view(orig),
                            forall|t: int|
                                0 <= t < old(self)@.len() ==> (#[trigger] old(
                                    self,
                                )@[t]).weights.len() >= next@.len(),
                            forall|t: int|
                                0 <= t < i ==> {
                                    &&& (#[trigger] self.neurons@[t]@).incoming
                                        == orig[t]@.incoming
                                    &&& self.neurons@[t]@.activation == orig[t]@.activation
                                    &&& self.neurons@[t]@.weights == orig[t]@.weights
                                    &&& self.neurons@[t]@.gradient == fx_mul(
                                        spec_sig_deriv_act(orig[t]@.activation),
                                        prop_out_prefix(
                                            orig[t]@.weights,
                                            next@,
                                            next@.len() as int,
                                        ),
                                    )
                                },
                        decreases self.neurons@.len() - i,
                    {
                        let mut acc: Fx = Fx::zero();
                        let mut jj: usize = 0;
                        let next_count: usize = next.num_neurons();
                        proof {
                            assert(self.neurons@[i as int] == orig[i as int]);
                            assert(neurons_view(orig)[i as int] == orig[i as int]@);
                            assert(old(self)@[i as int] == orig[i as int]@);
                        }
                        while jj < next_count
                            invariant
                                jj <= next_count,
                                next_count == next@.len(),
                                i < self.neurons@.len(),
                                self.neurons@[i as int] == orig[i as int],
                                self.neurons@.len() == orig.len(),
                                orig[i as int]@.weights.len() >= next_count,
                                acc@ == prop_out_prefix(
                                    orig[i as int]@.weights,
                                    next@,
                                    jj as int,
                                ),
                            decreases next_count - jj,
                        {
                            proof {
                                assert(next@[jj as int] == next.neurons@[jj as int]@);
                            }
                            let w: Fx = self.neurons[i].weight(jj);
                            let g: Fx = next.get_neurons()[jj].get_error_gradient();
                            acc = acc.add(w.mul(g));
                            jj = jj + 1;
                        }
                        let sigmoid_deriv: Fx = Layer::sigmoid_derivative_already_activated(
                            self.neurons[i].get_activation_value(),
                        );
                        let g: Fx = sigmoid_deriv.mul(acc);
                        let n = &mut self.neurons[i];
                        n.set_error_gradient(g);
                        i = i + 1;
                    }
                } else {
                    // an ordinary hidden layer: collect the error through
                    // the next layer's weights toward this neuron
                    proof {
                        assert(next@[0] == next.neurons@[0]@);
                        assert(forall|t: int| 0 <= t < orig.len() ==> old(self)@[t] == orig[t]@);
                    }
                    let mut i: usize = 0;
                    while i < self.neurons.len()
                        invariant
                            i <= self.neurons@.len(),
                            self.neurons@.len() == orig.len(),
                            self.neurons@.len() <= old(self)@.len(),
                            forall|t: int| i <= t < orig.len() ==> self.neurons@[t] == orig[t],
                            orig.len() == old(self)@.len(),
                            old(self)@ == neurons_view(orig),
                            forall|j: int|
                                0 <= j < next@.len() ==> (#[trigger] next@[j]).weights.len()
                                    >= old(self)@.len(),
                            forall|t: int|
                                0 <= t < i ==> {
                                    &&& (#[trigger] self.neurons@[t]@).incoming
                                        == orig[t]@.incoming
                                    &&& self.neurons@[t]@.activation == orig[t]@.activation
                                    &&& self.neurons@[t]@.weights == orig[t]@.weights
                                    &&& self.neurons@[t]@.gradient == fx_mul(
                                        spec_sig_deriv(orig[t]@.activation),
                                        prop_hidden_prefix(next@, t, next@.len() as int),
                                    )
                                },
                        decreases self.neurons@.len() - i,
                    {
                        let mut acc: Fx = Fx::zero();
                        let mut jj: usize = 0;
                        let next_count: usize = next.num_neurons();
                        while jj < next_count
                            invariant
                                jj <= next_count,
                                next_count == next@.len(),
                                i < orig.len(),
                                orig.len() == old(self)@.len(),
                                forall|j: int|
                                    0 <= j < next@.len() ==> (#[trigger] next@[j]).weights.len()
                                        >= old(self)@.len(),
                                acc@ == prop_hidden_prefix(next@, i as int, jj as int),
                            decreases next_count - jj,
                        {
                            proof {
                                assert(next@[jj as int] == next.neurons@[jj as int]@);
                            }
                            let w: Fx = next.get_neurons()[jj].weight(i);
                            let g: Fx = next.get_neurons()[jj].get_error_gradient();
                            acc = acc.add(w.mul(g));
                            jj = jj + 1;
                        }
                        proof {
                            assert(self.neurons@[i as int] == orig[i as int]);
                        }
                        let sigmoid_deriv: Fx = Layer::sigmoid_derivative(
                            self.neurons[i].get_activation_value(),
                        );
                        let g: Fx = sigmoid_deriv.mul(acc);
                        let n = &mut self.neurons[i];
                        n.set_error_gradient(g);
                        i = i + 1;
                    }
                }
            },
            None => {
                // this is the output layer: gradients from expected values,
                // paired positionally as far as both sequences reach
                let limit: usize = if expected_values.len() < self.neurons.len() {
                    expected_values.len()
                } else {
                    self.neurons.len()
                };
                let mut k: usize = 0;
                while k < limit
                    invariant
                        k <= limit,
                        self.neurons@.len() == orig.len(),
                        limit <= orig.len(),
                        limit <= expected_values@.len(),
                        forall|t: int| k <= t < orig.len() ==> self.neurons@[t] == orig[t],
                        forall|t: int|
                            0 <= t < k ==> {
                                &&& (#[trigger] self.neurons@[t]@).incoming == orig[t]@.incoming
                                &&& self.neurons@[t]@.activation == orig[t]@.activation
                                &&& self.neurons@[t]@.weights == orig[t]@.weights
                                &&& self.neurons@[t]@.gradient == grad_output(
                                    orig[t]@.activation,
                                    expected_values@[t]@,
                                )
                            },
                    decreases limit - k,
                {
                    let a: Fx = self.neurons[k].get_activation_value();
                    let expected: Fx = expected_values[k];
                    let error: Fx = expected.sub(a);
                    let sigmoid_deriv: Fx = Layer::sigmoid_derivative_already_activated(a);
                    let g: Fx = Fx::from_int(2).mul(error).mul(sigmoid_deriv);
                    let n = &mut self.neurons[k];
                    n.set_error_gradient(g);
                    k = k + 1;
                }
            },
        }
        let ghost mid = self.neurons@;
        proof {
            assert(forall|t: int| 0 <= t < orig.len() ==> old(self)@[t] == orig[t]@);
            assert(forall|t: int|
                0 <= t < mid.len() ==> #[trigger] neurons_view(mid)[t] == mid[t]@);
        }
        self.update_weights_back_prop(learning_rate);
        proof {
            assert(forall|t: int|
                0 <= t < mid.len() ==> #[trigger] neurons_view(mid)[t] == mid[t]@);
            assert(forall|t: int| 0 <= t < orig.len() ==> final(self)@[t] == self.neurons@[t]@);
        }
    }
}

} // verus!
