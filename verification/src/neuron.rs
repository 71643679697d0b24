//! A single neuron: its scalar state and its outgoing weights.

use vstd::prelude::*;

use crate::fixed::Fx;
use crate::fixed::SCALE;
use crate::rng::random_unit;

verus! {

/// The spec-level image of a neuron: raw values and raw weights.
#[verifier::ext_equal]
pub ghost struct NeuronView {
    pub incoming: int,
    pub activation: int,
    pub weights: Seq<int>,
    pub gradient: int,
}

/// The raw values of a weight vector.
pub open spec fn weights_view(w: Seq<Fx>) -> Seq<int> {
    w.map_values(|x: Fx| x@)
}

/// A neuron: the weighted sum it received, its activation, its outgoing
/// weights (one per neuron of the next layer), and the error gradient the
/// backward pass assigns to it.
#[derive(Debug, Clone)]
pub struct Neuron {
    incoming_value: Fx,
    activation_value: Fx,
    weights: Vec<Fx>,
    error_gradient: Fx,
}

impl View for Neuron {
    type V = NeuronView;

    closed spec fn view(&self) -> NeuronView {
        NeuronView {
            incoming: self.incoming_value@,
            activation: self.activation_value@,
            weights: weights_view(self.weights@),
            gradient: self.error_gradient@,
        }
    }
}

impl Neuron {
    /// A neuron with zeroed state and `num_weights` fresh random weights,
    /// each drawn from `[0, 1)`.
    pub fn new(num_weights: usize) -> (n: Neuron)
        ensures
            n@.incoming == 0,
            n@.activation == 0,
            n@.gradient == 0,
            n@.weights.len() == num_weights,
            forall|j: int| 0 <= j < num_weights ==> 0 <= #[trigger] n@.weights[j] < SCALE,
    {
        let mut init_weights: Vec<Fx> = Vec::new();
        let mut i: usize = 0;
        while i < num_weights
            invariant
                i <= num_weights,
                init_weights@.len() == i,
                forall|j: int| 0 <= j < i ==> 0 <= #[trigger] init_weights@[j]@ < SCALE,
            decreases num_weights - i,
        {
            init_weights.push(random_unit());
            i = i + 1;
        }
        proof {
            assert forall|j: int| 0 <= j < num_weights implies 0 <= #[trigger] weights_view(
                init_weights@,
            )[j] < SCALE by {
                assert(weights_view(init_weights@)[j] == init_weights@[j]@);
            }
        }
        Neuron {
            incoming_value: Fx::zero(),
            activation_value: Fx::zero(),
            weights: init_weights,
            error_gradient: Fx::zero(),
        }
    }

    /// A neuron with every field given outright.
    pub fn from_parts(incoming_value: Fx, activation_value: Fx, weights: Vec<Fx>, error_gradient: Fx) -> (n:
        Neuron)
        ensures
            n@.incoming == incoming_value@,
            n@.activation == activation_value@,
            n@.weights == weights_view(weights@),
            n@.gradient == error_gradient@,
    {
        Neuron { incoming_value, activation_value, weights, error_gradient }
    }

    /// An owned copy with the same view.
    pub fn duplicate(&self) -> (r: Neuron)
        ensures
            r@ == self@,
    {
        let r = Neuron::from_parts(
            self.get_incoming_value(),
            self.get_activation_value(),
            self.get_weights(),
            self.get_error_gradient(),
        );
        proof {
            assert(r@ =~= self@);
        }
        r
    }

    /// The weighted sum last fed into this neuron.
    pub fn get_incoming_value(&self) -> (r: Fx)
        ensures
            r@ == self@.incoming,
    {
        self.incoming_value
    }

    /// The activation this neuron last produced.
    pub fn get_activation_value(&self) -> (r: Fx)
        ensures
            r@ == self@.activation,
    {
        self.activation_value
    }

    /// A copy of the outgoing weight vector.
    pub fn get_weights(&self) -> (r: Vec<Fx>)
        ensures
            weights_view(r@) == self@.weights,
    {
        let mut out: Vec<Fx> = Vec::new();
        let mut i: usize = 0;
        while i < self.weights.len()
            invariant
                i <= self.weights@.len(),
                out@.len() == i,
                forall|j: int| 0 <= j < i ==> out@[j] == self.weights@[j],
            decreases self.weights@.len() - i,
        {
            out.push(self.weights[i]);
            i = i + 1;
        }
        proof {
            assert(weights_view(out@) =~= weights_view(self.weights@));
        }
        out
    }

    /// How many outgoing weights this neuron holds.
    pub fn num_weights(&self) -> (r: usize)
        ensures
            r == self@.weights.len(),
    {
        self.weights.len()
    }

    /// The outgoing weight toward neuron `index` of the next layer.
    pub fn weight(&self, index: usize) -> (r: Fx)
        requires
            index < self@.weights.len(),
        ensures
            r@ == self@.weights[index as int],
    {
        self.weights[index]
    }

    /// The error gradient the backward pass last assigned.
    pub fn get_error_gradient(&self) -> (r: Fx)
        ensures
            r@ == self@.gradient,
    {
        self.error_gradient
    }

    /// Overwrite the incoming value; nothing else moves.
    pub fn set_incoming_value(&mut self, incoming_value: Fx)
        ensures
            final(self)@.incoming == incoming_value@,
            final(self)@.activation == old(self)@.activation,
            final(self)@.weights == old(self)@.weights,
            final(self)@.gradient == old(self)@.gradient,
    {
        self.incoming_value = incoming_value;
    }

    /// Overwrite the activation value; nothing else moves.
    pub fn set_activation_value(&mut self, activation_value: Fx)
        ensures
            final(self)@.incoming == old(self)@.incoming,
            final(self)@.activation == activation_value@,
            final(self)@.weights == old(self)@.weights,
            final(self)@.gradient == old(self)@.gradient,
    {
        self.activation_value = activation_value;
    }

    /// Overwrite the error gradient; nothing else moves.
    pub fn set_error_gradient(&mut self, error_gradient: Fx)
        ensures
            final(self)@.incoming == old(self)@.incoming,
            final(self)@.activation == old(self)@.activation,
            final(self)@.weights == old(self)@.weights,
            final(self)@.gradient == error_gradient@,
    {
        self.error_gradient = error_gradient;
    }

    /// Overwrite the weights element by element.  Once a neuron has
    /// weights, the new vector must match their count exactly; an empty
    /// weight vector takes the new vector's length.
    pub fn set_weights(&mut self, new_weights: &Vec<Fx>)
        requires
            old(self)@.weights.len() == 0 || new_weights@.len() == old(self)@.weights.len(),
        ensures
            final(self)@.incoming == old(self)@.incoming,
            final(self)@.activation == old(self)@.activation,
            final(self)@.weights == weights_view(new_weights@),
            final(self)@.gradient == old(self)@.gradient,
    {
        if self.weights.len() == 0 {
            let mut i: usize = 0;
            while i < new_weights.len()
                invariant
                    i <= new_weights@.len(),
                    self.weights@.len() == i,
                    forall|j: int| 0 <= j < i ==> self.weights@[j] == new_weights@[j],
                    self.incoming_value == old(self).incoming_value,
                    self.activation_value == old(self).activation_value,
                    self.error_gradient == old(self).error_gradient,
                decreases new_weights@.len() - i,
            {
                self.weights.push(new_weights[i]);
                i = i + 1;
            }
        } else {
            let mut i: usize = 0;
            while i < self.weights.len()
                invariant
                    i <= self.weights@.len(),
                    self.weights@.len() == new_weights@.len(),
                    forall|j: int| 0 <= j < i ==> self.weights@[j] == new_weights@[j],
                    self.incoming_value == old(self).incoming_value,
                    self.activation_value == old(self).activation_value,
                    self.error_gradient == old(self).error_gradient,
                decreases self.weights@.len() - i,
            {
                let w: Fx = new_weights[i];
                self.weights.set(i, w);
                i = i + 1;
            }
        }
        proof {
            assert(weights_view(self.weights@) =~= weights_view(new_weights@));
        }
    }
}

} // verus!
