//! A small feedforward neural-network engine over exact fixed-point numbers.
//!
//! Values are counts of `1 / SCALE` units held in an `i64`; addition and
//! subtraction are exact up to saturation, multiplication truncates toward
//! zero after rescaling, and the logistic activation is computed by a
//! truncated power series.  Every arithmetic step is specified exactly, so
//! the forward pass, the backward pass and the weight-update rule are all
//! verified against their mathematical definitions.

pub mod errors;
pub mod fixed;
pub mod layer;
pub mod net;
pub mod perceptron;
pub mod neuron;
pub mod rng;
pub mod sigmoid;
