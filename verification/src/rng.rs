//! The one random draw the engine needs: a uniform value in `[0, 1)`.

use vstd::prelude::*;

use crate::fixed::{Fx, SCALE};

verus! {

/// Relies on rand::random_range: a draw from the thread-local generator,
/// uniform over the given half-open range.  Only membership in the range
/// is assumed of each outcome.
#[verifier::external_body]
fn random_raw_unit() -> (r: i64)
    ensures
        0 <= r < SCALE,
{
    rand::random_range(0..SCALE)
}

/// A fresh draw from `[0, 1)`, as a fixed-point value.
pub fn random_unit() -> (r: Fx)
    ensures
        0 <= r@ < SCALE,
{
    Fx::from_raw(random_raw_unit())
}

} // verus!
