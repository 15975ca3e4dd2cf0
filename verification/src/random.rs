//! The random source that jitters priorities and varies new branches.

use rand::rngs::StdRng;
use rand::Rng;
use vstd::prelude::*;

verus! {

/// The seedable generator of the `rand` crate, carried through as an opaque value.
#[verifier::external_type_specification]
#[verifier::external_body]
pub struct ExStdRng(StdRng);

/// Calls `Rng::random_range` with the half-open range from `low` to `high`. The
/// contract claims only what holds of every draw: the value lies in that range.
/// An empty range, on which the call panics, is left out.
#[verifier::external_body]
pub(crate) fn draw_in_range(source: &mut StdRng, low: i64, high: i64) -> (drawn: i64)
    requires
        low < high,
    ensures
        low <= drawn < high,
{
    source.random_range(low..high)
}

} // verus!
