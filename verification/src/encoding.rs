//! Base64 of blob payloads, as embedded in manifests.

use crate::errors::StoreError;
use base64::Engine;
use vstd::prelude::*;

verus! {

/// The standard base64 encoding of `data`.  The encoding depends on the
/// bytes alone; this name stands for its value.
pub uninterp spec fn b64_of(data: Seq<u8>) -> Seq<char>;

/// What the standard base64 decoder returns for `s`: the decoded bytes,
/// or `None` when `s` is not a valid encoding.
pub uninterp spec fn b64_decode_of(s: Seq<char>) -> Option<Seq<u8>>;

/// Relies on base64's `STANDARD` engine: encoding is a function of the
/// bytes alone, and decoding the result gives the bytes back.
#[verifier::external_body]
pub(crate) fn b64_encode(data: &[u8]) -> (r: String)
    ensures
        r@ == b64_of(data@),
        b64_decode_of(r@) == Some(data@),
{
    base64::engine::general_purpose::STANDARD.encode(data)
}

/// Relies on base64's `STANDARD` engine: decoding is a function of the
/// input alone, and fails exactly on inputs that are no valid encoding.
#[verifier::external_body]
pub(crate) fn b64_decode(s: &str) -> (r: Result<Vec<u8>, StoreError>)
    ensures
        r matches Ok(d) ==> Some(d@) == b64_decode_of(s@),
        r is Err ==> b64_decode_of(s@) is None,
        r matches Err(e) ==> e == StoreError::Decode,
{
    base64::engine::general_purpose::STANDARD
        .decode(s)
        .map_err(|_| StoreError::Decode)
}

} // verus!
