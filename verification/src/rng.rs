//! Access to the process-wide cryptographic random source.

use vstd::prelude::*;

verus! {

/// Relies on `rand::thread_rng()` and `rand::RngCore::fill_bytes`: fills the
/// whole buffer with bytes from the thread-local CSPRNG. The contents are
/// random, so nothing is promised of them; the length is unchanged.
#[verifier::external_body]
pub fn fill_random(buf: &mut Vec<u8>)
    ensures
        final(buf)@.len() == old(buf)@.len(),
{
    rand::RngCore::fill_bytes(&mut rand::thread_rng(), buf.as_mut_slice())
}

/// Relies on `rand::Rng::gen_range`: returns a uniformly drawn value in
/// `[0, bound)`. The value is random, so only its range is promised.
#[verifier::external_body]
pub fn random_below(bound: u64) -> (r: u64)
    requires
        bound > 0,
    ensures
        r < bound,
{
    rand::Rng::gen_range(&mut rand::thread_rng(), 0..bound)
}

} // verus!
