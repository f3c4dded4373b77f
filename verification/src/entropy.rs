use vstd::prelude::*;

verus! {

/// Relies on rand's `OsRng` (`RngCore::fill_bytes`): fills a buffer with
/// bytes drawn from the operating system's secure randomness source. Nothing
/// is promised about the values — two calls on the same length may (and
/// should) differ — so only the length is stated. Aborts only if the
/// operating system's randomness source itself fails, which no input can
/// provoke.
#[verifier::external_body]
pub(crate) fn random_bytes(n: usize) -> (r: Vec<u8>)
    ensures
        r@.len() == n,
{
    let mut buf = vec![0u8; n];
    rand::RngCore::fill_bytes(&mut rand::rngs::OsRng, &mut buf);
    buf
}

} // verus!
