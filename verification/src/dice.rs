//! Random draws, through the `rand` crate's thread-local generator.

use rand::Rng;
use vstd::prelude::*;

verus! {

/// Draws a number from `low..high` with `rand::rng().random_range(low..high)`.
/// The contract claims only what every outcome satisfies: the number lies in
/// the half-open range. `random_range` panics on an empty range, which the
/// `requires` rules out; which number comes back is left unsaid (it is
/// random).
#[verifier::external_body]
pub(crate) fn roll_in_range(low: u32, high: u32) -> (r: u32)
    requires
        low < high,
    ensures
        low <= r < high,
{
    rand::rng().random_range(low..high)
}

} // verus!
