//! SHA-256 and the double hash built from it.

use sha2::{Digest, Sha256};
use vstd::prelude::*;

verus! {

/// The SHA-256 digest of `data`: the 32 bytes that `sha2` computes for it.
pub uninterp spec fn sha256_digest(data: Seq<u8>) -> Seq<u8>;

/// The double hash: SHA-256 applied to the SHA-256 digest of `data`.
pub open spec fn double_digest(data: Seq<u8>) -> Seq<u8> {
    sha256_digest(sha256_digest(data))
}

pub struct Hash {}

impl Hash {
    /// Calls `sha2::Sha256::digest`. Trusted: the 32 bytes returned are the
    /// SHA-256 digest of `data`, a function of the bytes of `data` alone.
    #[verifier::external_body]
    pub fn sha256_bytes(data: &[u8]) -> (digest: [u8; 32])
        ensures
            digest@ == sha256_digest(data@),
    {
        Sha256::digest(data).into()
    }

    /// The SHA-256 digest of `data`.
    pub fn sha256(data: &[u8]) -> (digest: [u8; 32])
        ensures
            digest@ == sha256_digest(data@),
    {
        Hash::sha256_bytes(data)
    }

    /// The double hash of `data`.
    pub fn sha256d(data: &[u8]) -> (digest: [u8; 32])
        ensures
            digest@ == double_digest(data@),
            digest@.len() == 32,
    {
        let first = Hash::sha256_bytes(data);
        Hash::sha256_bytes(first.as_slice())
    }
}

} // verus!
