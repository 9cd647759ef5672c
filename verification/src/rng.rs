//! The cryptographically secure random source the PSS salt comes from.

use vstd::prelude::*;

use rand::RngCore;

verus! {

/// Relies on rand::rngs::OsRng (RngCore::fill_bytes): the buffer is filled
/// from the operating system's secure random source.  Nothing is assumed
/// about the bytes themselves; the process aborts if the source fails.
#[verifier::external_body]
pub(crate) fn random_bytes(len: usize) -> (r: Vec<u8>)
    ensures
        r@.len() == len,
{
    let mut salt = vec![0u8; len];
    rand::rngs::OsRng.fill_bytes(&mut salt);
    salt
}

} // verus!
