//! The digest primitives the PSS padding engine consumes: SHA-256, SHA-384
//! and SHA-512, selected by their PKCS#11 mechanism number.

use vstd::prelude::*;

use sha2::Digest;

use crate::error::Error;

verus! {

/// The PKCS#11 mechanism number selecting SHA-256.
pub const CKM_SHA256: u64 = 0x250;

/// The PKCS#11 mechanism number selecting SHA-384.
pub const CKM_SHA384: u64 = 0x260;

/// The PKCS#11 mechanism number selecting SHA-512.
pub const CKM_SHA512: u64 = 0x270;

/// The SHA-256 digest of a byte sequence, named but not written out: the
/// trusted wrapper below ties it to the outside implementation.
pub uninterp spec fn spec_sha256(data: Seq<u8>) -> Seq<u8>;

/// The SHA-384 digest of a byte sequence.
pub uninterp spec fn spec_sha384(data: Seq<u8>) -> Seq<u8>;

/// The SHA-512 digest of a byte sequence.
pub uninterp spec fn spec_sha512(data: Seq<u8>) -> Seq<u8>;

/// Relies on sha2::Sha256 through digest::Digest::digest: the result is the
/// SHA-256 digest of the input, 32 bytes, a function of the input alone.
#[verifier::external_body]
fn sha256(data: &[u8]) -> (r: Vec<u8>)
    ensures
        r@ == spec_sha256(data@),
        r@.len() == 32,
{
    sha2::Sha256::digest(data).to_vec()
}

/// Relies on sha2::Sha384 through digest::Digest::digest: the result is the
/// SHA-384 digest of the input, 48 bytes, a function of the input alone.
#[verifier::external_body]
fn sha384(data: &[u8]) -> (r: Vec<u8>)
    ensures
        r@ == spec_sha384(data@),
        r@.len() == 48,
{
    sha2::Sha384::digest(data).to_vec()
}

/// Relies on sha2::Sha512 through digest::Digest::digest: the result is the
/// SHA-512 digest of the input, 64 bytes, a function of the input alone.
#[verifier::external_body]
fn sha512(data: &[u8]) -> (r: Vec<u8>)
    ensures
        r@ == spec_sha512(data@),
        r@.len() == 64,
{
    sha2::Sha512::digest(data).to_vec()
}

/// Whether a mechanism number names one of the three supported digests.
pub open spec fn spec_hash_supported(hash_alg: u64) -> bool {
    hash_alg == CKM_SHA256 || hash_alg == CKM_SHA384 || hash_alg == CKM_SHA512
}

/// The output length, in bytes, of a supported digest.
pub open spec fn spec_hash_len(hash_alg: u64) -> nat {
    if hash_alg == CKM_SHA256 {
        32
    } else if hash_alg == CKM_SHA384 {
        48
    } else if hash_alg == CKM_SHA512 {
        64
    } else {
        0
    }
}

/// The digest a supported mechanism computes over a byte sequence.
pub open spec fn spec_hash(hash_alg: u64, data: Seq<u8>) -> Seq<u8> {
    if hash_alg == CKM_SHA256 {
        spec_sha256(data)
    } else if hash_alg == CKM_SHA384 {
        spec_sha384(data)
    } else if hash_alg == CKM_SHA512 {
        spec_sha512(data)
    } else {
        Seq::empty()
    }
}

/// Computes the digest the mechanism number selects; any other mechanism
/// is an internal failure.
pub fn compute_hash(hash_alg: u64, data: &[u8]) -> (r: Result<Vec<u8>, Error>)
    ensures
        match r {
            Ok(digest) => {
                &&& spec_hash_supported(hash_alg)
                &&& digest@ == spec_hash(hash_alg, data@)
                &&& digest@.len() == spec_hash_len(hash_alg)
            },
            Err(e) => {
                &&& !spec_hash_supported(hash_alg)
                &&& e == Error::LibraryFailure
            },
        },
{
    if hash_alg == CKM_SHA256 {
        Ok(sha256(data))
    } else if hash_alg == CKM_SHA384 {
        Ok(sha384(data))
    } else if hash_alg == CKM_SHA512 {
        Ok(sha512(data))
    } else {
        Err(Error::LibraryFailure)
    }
}

/// The output length of the digest the mechanism number selects; any other
/// mechanism is an internal failure.
pub fn hash_length(hash_alg: u64) -> (r: Result<usize, Error>)
    ensures
        match r {
            Ok(h_len) => spec_hash_supported(hash_alg) && h_len == spec_hash_len(hash_alg),
            Err(e) => !spec_hash_supported(hash_alg) && e == Error::LibraryFailure,
        },
{
    if hash_alg == CKM_SHA256 {
        Ok(32)
    } else if hash_alg == CKM_SHA384 {
        Ok(48)
    } else if hash_alg == CKM_SHA512 {
        Ok(64)
    } else {
        Err(Error::LibraryFailure)
    }
}

} // verus!
