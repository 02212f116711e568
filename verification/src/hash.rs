//! The two hash functions that the derivation rests on. Their digests are not
//! computed here: each is named, and the function that calls the hashing crate
//! is believed to return the digest so named.

use sha2::Digest;
use vstd::prelude::*;

verus! {

/// The Keccak-256 digest of `data`: 32 bytes.
pub uninterp spec fn keccak256(data: Seq<u8>) -> Seq<u8>;

/// The SHA-256 digest of `data`: 32 bytes.
pub uninterp spec fn sha256(data: Seq<u8>) -> Seq<u8>;

/// Calls `sha3::Keccak256::digest`. Believed, not proved: the result is the
/// Keccak-256 digest of the bytes given, which depends on them alone.
#[verifier::external_body]
pub(crate) fn keccak256_digest(data: &[u8]) -> (digest: [u8; 32])
    ensures
        digest@ == keccak256(data@),
{
    sha3::Keccak256::digest(data).into()
}

/// Calls `sha2::Sha256::digest`. Believed, not proved: the result is the
/// SHA-256 digest of the bytes given, which depends on them alone.
#[verifier::external_body]
pub(crate) fn sha256_digest(data: &[u8]) -> (digest: [u8; 32])
    ensures
        digest@ == sha256(data@),
{
    sha2::Sha256::digest(data).into()
}

} // verus!
