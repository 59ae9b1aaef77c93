//! Random bytes.

use aes_gcm::aead::rand_core::RngCore;
use aes_gcm::aead::OsRng;
use vstd::prelude::*;

verus! {

/// `OsRng.fill_bytes`: bytes from the random source of the operating system. Nothing is claimed of
/// their values. The call panics if the system has no random source.
#[verifier::external_body]
pub(crate) fn random_bytes<const N: usize>() -> (r: [u8; N])
{
    let mut r = [0u8; N];
    OsRng.fill_bytes(&mut r);
    r
}

} // verus!
