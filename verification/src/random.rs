//! The random numbers the board draws, taken from `rand`'s standard
//! generator.

use rand::rngs::StdRng;
use rand::Rng;
use vstd::prelude::*;

verus! {

/// `rand::rngs::StdRng`, handed through to the draws below and never
/// looked into.
#[verifier::external_type_specification]
#[verifier::external_body]
pub struct ExStdRng(StdRng);

/// Draws an index with `rand::Rng::gen_range` on the half-open range
/// `lo..hi`. Trusted, not proved: that `gen_range` returns a value of the
/// range it is given. It panics on an empty range, which the precondition
/// rules out. Which value comes back is not stated.
#[verifier::external_body]
pub(crate) fn random_index(rng: &mut StdRng, lo: usize, hi: usize) -> (n: usize)
    requires
        lo < hi,
    ensures
        lo <= n < hi,
{
    rng.gen_range(lo..hi)
}

/// Rolls a die with `rand::Rng::gen_range` on the half-open range
/// `0..sides` of `i32`. Trusted, not proved: that `gen_range` returns a
/// value of the range it is given. It panics on an empty range, which the
/// precondition rules out. Which value comes back is not stated.
#[verifier::external_body]
pub(crate) fn random_roll(rng: &mut StdRng, sides: i32) -> (n: i32)
    requires
        0 < sides,
    ensures
        0 <= n < sides,
{
    rng.gen_range(0..sides)
}

} // verus!
