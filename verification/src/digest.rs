//! Hex-encoded SHA-256, the digest every hash in the store is built on.

use sha2::Digest;
use vstd::prelude::*;

verus! {

/// The lowercase hex encoding of the SHA-256 digest of `data`.  The digest
/// depends on the bytes alone; this name stands for its value.
pub uninterp spec fn sha256_hex_of(data: Seq<u8>) -> Seq<char>;

/// Relies on `sha2::Sha256` and `hex::encode`: the SHA-256 digest of
/// `data` is 32 bytes, and the hex encoding writes two digits per byte.
#[verifier::external_body]
pub(crate) fn sha256_hex(data: &[u8]) -> (r: String)
    ensures
        r@ == sha256_hex_of(data@),
        r@.len() == 64,
{
    hex::encode(sha2::Sha256::digest(data))
}

} // verus!
