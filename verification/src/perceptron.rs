//! A single two-input perceptron trained by gradient descent on labelled
//! integer samples `(x, y, answer)`.

use vstd::prelude::*;

use crate::fixed::{fx_add, fx_mul, fx_of_int, fx_sub, Fx, SCALE};
use crate::layer::spec_sig_deriv_act;
use crate::rng::random_unit;
use crate::sigmoid::{sigmoid_exec, sigmoid_raw};

verus! {

/// The spec-level image of a perceptron.
#[verifier::ext_equal]
pub ghost struct PerceptronView {
    pub w1: int,
    pub w2: int,
    pub b: int,
    pub learning_rate: int,
}

/// The weighted sum the perceptron computes for inputs `x` and `y`:
/// `x * w1 + y * w2 + b`.
pub open spec fn p_sum(p: PerceptronView, x: int, y: int) -> int {
    fx_add(fx_add(fx_mul(fx_of_int(x), p.w1), fx_mul(fx_of_int(y), p.w2)), p.b)
}

/// One gradient-descent step on a single sample.
pub open spec fn p_step(p: PerceptronView, x: int, y: int, answer: int) -> PerceptronView {
    let output = sigmoid_raw(p_sum(p, x, y));
    let error = fx_sub(fx_of_int(answer), output);
    let deriv = spec_sig_deriv_act(output);
    PerceptronView {
        w1: fx_add(p.w1, fx_mul(p.learning_rate, fx_mul(fx_mul(fx_of_int(x), error), deriv))),
        w2: fx_add(p.w2, fx_mul(p.learning_rate, fx_mul(fx_mul(fx_of_int(y), error), deriv))),
        b: fx_add(p.b, fx_mul(p.learning_rate, fx_mul(error, deriv))),
        learning_rate: p.learning_rate,
    }
}

/// One pass over the first `k` samples of the training set.
pub open spec fn p_epoch(p: PerceptronView, set: Seq<(i32, i32, i32)>, k: int) -> PerceptronView
    decreases k,
{
    if k <= 0 {
        p
    } else {
        p_step(
            p_epoch(p, set, k - 1),
            set[k - 1].0 as int,
            set[k - 1].1 as int,
            set[k - 1].2 as int,
        )
    }
}

/// `n` full passes over the training set.
pub open spec fn p_train(p: PerceptronView, set: Seq<(i32, i32, i32)>, n: int) -> PerceptronView
    decreases n,
{
    if n <= 0 {
        p
    } else {
        p_epoch(p_train(p, set, n - 1), set, set.len() as int)
    }
}

/// A perceptron: two input weights, a bias and a learning rate.
#[derive(Debug, Clone)]
pub struct Perceptron {
    w1: Fx,
    w2: Fx,
    b: Fx,
    learning_rate: Fx,
}

impl View for Perceptron {
    type V = PerceptronView;

    closed spec fn view(&self) -> PerceptronView {
        PerceptronView {
            w1: self.w1@,
            w2: self.w2@,
            b: self.b@,
            learning_rate: self.learning_rate@,
        }
    }
}

impl Perceptron {
    /// A perceptron with random weights and bias from `[0, 1)`.
    pub fn new(learning_rate: Fx) -> (p: Perceptron)
        ensures
            0 <= p@.w1 < SCALE,
            0 <= p@.w2 < SCALE,
            0 <= p@.b < SCALE,
            p@.learning_rate == learning_rate@,
    {
        let w1: Fx = random_unit();
        let w2: Fx = random_unit();
        let b: Fx = random_unit();
        Perceptron { w1, w2, b, learning_rate }
    }

    /// The logistic activation of a weighted sum.
    fn sigmoid(sum: Fx) -> (r: Fx)
        ensures
            r@ == sigmoid_raw(sum@),
    {
        Fx::from_raw(sigmoid_exec(sum.raw()))
    }

    /// The logistic derivative at an already-activated output.
    fn sigmoid_derivative(output: Fx) -> (r: Fx)
        ensures
            r@ == spec_sig_deriv_act(output@),
    {
        output.mul(Fx::one().sub(output))
    }

    /// Run 10,001 passes of per-sample gradient descent over the set.
    pub fn train(&mut self, set: &Vec<(i32, i32, i32)>)
        ensures
            final(self)@ == p_train(old(self)@, set@, 10_001),
    {
        let mut e: usize = 0;
        while e <= 10_000
            invariant
                e <= 10_001,
                self@ == p_train(old(self)@, set@, e as int),
            decreases 10_001 - e,
        {
            let mut i: usize = 0;
            while i < set.len()
                invariant
                    i <= set@.len(),
                    e <= 10_000,
                    self@ == p_epoch(p_train(old(self)@, set@, e as int), set@, i as int),
                decreases set@.len() - i,
            {
                let ghost before = self@;
                let (x, y, answer) = set[i];
                let sum: Fx = Fx::from_int(x).mul(self.w1).add(Fx::from_int(y).mul(self.w2)).add(
                    self.b,
                );
                let output: Fx = Self::sigmoid(sum);

                let error: Fx = Fx::from_int(answer).sub(output);

                let sigmoid_derivative: Fx = Self::sigmoid_derivative(output);

                let weight1_gradient: Fx = Fx::from_int(x).mul(error).mul(sigmoid_derivative);
                let weight2_gradient: Fx = Fx::from_int(y).mul(error).mul(sigmoid_derivative);
                let bias_gradient: Fx = error.mul(sigmoid_derivative);

                self.w1 = self.w1.add(self.learning_rate.mul(weight1_gradient));
                self.w2 = self.w2.add(self.learning_rate.mul(weight2_gradient));
                self.b = self.b.add(self.learning_rate.mul(bias_gradient));

                proof {
                    assert(self@ =~= p_step(before, x as int, y as int, answer as int));
                    assert(self@ == p_epoch(
                        p_train(old(self)@, set@, e as int),
                        set@,
                        i as int + 1,
                    ));
                }
                i = i + 1;
            }
            proof {
                assert(self@ == p_train(old(self)@, set@, e as int + 1));
            }
            e = e + 1;
        }
    }

    /// The trained prediction for a sample's inputs: the activation of the
    /// weighted sum.
    pub fn predict(&self, x: i32, y: i32) -> (r: Fx)
        ensures
            r@ == sigmoid_raw(p_sum(self@, x as int, y as int)),
    {
        let sum: Fx = Fx::from_int(x).mul(self.w1).add(Fx::from_int(y).mul(self.w2)).add(self.b);
        Self::sigmoid(sum)
    }
}

} // verus!
