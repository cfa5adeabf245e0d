//! Random bytes from a generator that the operating system seeds.
use vstd::prelude::*;

verus! {

/// The generator of the crate rand: a value that Verus does not look into.
#[verifier::external_type_specification]
#[verifier::external_body]
pub struct ExStdRng(rand::rngs::StdRng);

/// A generator seeded by the operating system, or nothing where the
/// operating system gives no seed.
///
/// Calls `StdRng::try_from_os_rng` of the crate rand, which returns an
/// error in that case and does not panic. Of the generator nothing is
/// claimed.
#[verifier::external_body]
pub(crate) fn seeded_generator() -> Option<rand::rngs::StdRng> {
    match <rand::rngs::StdRng as rand::SeedableRng>::try_from_os_rng() {
        Ok(generator) => Some(generator),
        Err(_) => None,
    }
}

/// `len` bytes from the generator.
///
/// Calls `fill_bytes` of the crate rand, which fills the whole of the
/// buffer it is given. Of the bytes themselves nothing is claimed.
#[verifier::external_body]
pub(crate) fn random_bytes(generator: &mut rand::rngs::StdRng, len: usize) -> (bytes: Vec<u8>)
    ensures
        bytes@.len() == len,
{
    let mut bytes = vec![0u8; len];
    rand::RngCore::fill_bytes(generator, &mut bytes);
    bytes
}

} // verus!
