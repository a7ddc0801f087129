//! The source of the random byte that `CXNN` draws.

use vstd::prelude::*;
use rand::Rng;

verus! {

/// Draws one byte from the thread-local generator of the `rand` crate,
/// by `rand::rng()` and `Rng::random`.
///
/// Nothing is claimed of the byte: every value of `u8` may come back,
/// and two calls may differ. Nor is the call proved not to panic: the
/// generator does so when the operating system cannot seed it.
#[verifier::external_body]
pub(crate) fn random_byte() -> (byte: u8) {
    let mut generator = rand::rng();
    generator.random()
}

} // verus!
