//! Random draws.

use rand::Rng;
use vstd::prelude::*;

verus! {

/// Draws a number below `bound` from the thread's generator.
///
/// Calls `rand::Rng::gen_range` on `rand::thread_rng()` with the range
/// `0..bound`, which hands back a value of that range and refuses an
/// empty one. Nothing is claimed about which value comes back.
#[verifier::external_body]
pub(crate) fn random_below(bound: usize) -> (draw: usize)
    requires
        bound > 0,
    ensures
        draw < bound,
{
    rand::thread_rng().gen_range(0..bound)
}

/// Draws any machine word from the thread's generator.
///
/// Calls `rand::random::<usize>()`; every value of the type may come back.
#[verifier::external_body]
pub(crate) fn random_word() -> usize {
    rand::random::<usize>()
}

} // verus!
