//! SHA-256, as the `sha2` crate computes it.

use sha2::Digest;
use vstd::prelude::*;

verus! {

/// The SHA-256 digest of `data`.
pub uninterp spec fn sha256_spec(data: Seq<u8>) -> Seq<u8>;

/// Calls `sha2::Sha256::digest` (the `Digest::digest` of the `digest`
/// crate) on `data`. Trusted: the result is the digest named
/// `sha256_spec(data)`, and it is 32 bytes long (the output size of
/// `Sha256` is `U32`).
#[verifier::external_body]
pub(crate) fn sha256(data: &[u8]) -> (digest: Vec<u8>)
    ensures
        digest@ == sha256_spec(data@),
        digest@.len() == 32,
{
    sha2::Sha256::digest(data).to_vec()
}

} // verus!
