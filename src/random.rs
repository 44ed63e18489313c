//! Randomness drawn from the operating system's generator.
use vstd::prelude::*;

verus! {

/// Relies on `rand::random`: a fresh 32-byte array from the thread-local generator.
#[verifier::external_body]
pub(crate) fn random_array32() -> (r: [u8; 32]) {
    rand::random::<[u8; 32]>()
}

/// Relies on `rand::Rng::fill` on the thread-local generator: `n` fresh random bytes.
#[verifier::external_body]
pub(crate) fn random_bytes(n: usize) -> (r: Vec<u8>)
    ensures
        r@.len() == n,
{
    let mut v = vec![0u8; n];
    rand::Rng::fill(&mut rand::thread_rng(), &mut v[..]);
    v
}

/// Relies on `rand::Rng::gen_range` on the thread-local generator: a value in `0..bound`.
#[verifier::external_body]
pub(crate) fn random_below(bound: u64) -> (r: u64)
    requires
        bound > 0,
    ensures
        r < bound,
{
    rand::Rng::gen_range(&mut rand::thread_rng(), 0..bound)
}

} // verus!
