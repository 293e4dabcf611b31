//! The one place where the host's random number generator is consulted:
//! the randomized horizontal component of a new ball's direction.

use vstd::prelude::*;

verus! {

/// Relies on macroquad::rand::gen_range (quad_rand's global generator):
/// for integer types it computes `low + (high - low) * u` for a uniform
/// `u` in `[0, 1)` via `f64` and truncates toward zero, and it never
/// panics. Within the small magnitudes required below every `f64` value
/// involved is exact, so every outcome lies in `[low, high)`. Nothing
/// more is promised of a random value.
#[verifier::external_body]
pub(crate) fn gen_range_i64(low: i64, high: i64) -> (r: i64)
    requires
        -1_000 <= low <= 0 < high <= 1_000,
    ensures
        low <= r < high,
{
    macroquad::rand::gen_range(low, high)
}

} // verus!
