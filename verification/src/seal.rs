//! Authenticated encryption for the blob-chain sidecar.
//!
//! The sidecar is sealed with AES-256-GCM under a key derived from the
//! seed handed in; a fresh 12-byte random nonce is generated per write
//! and prepended to the ciphertext.

use crate::errors::StoreError;
use aes_gcm::aead::{Aead, KeyInit};
use sha2::Digest;
use vstd::prelude::*;

verus! {

/// What opening a sealed byte string under a key seed yields: the sealed
/// plaintext, or `None` when the bytes were not produced under this seed
/// or were altered.  Opening is a function of seed and bytes alone.
pub uninterp spec fn sealed_open_of(key_seed: Seq<u8>, data: Seq<u8>) -> Option<Seq<u8>>;

/// Relies on `aes_gcm::Aes256Gcm` encryption with a SHA-256-derived key
/// and a fresh random nonce prepended to the ciphertext: whatever nonce
/// was drawn, opening the result under the same seed gives the plaintext
/// back.
#[verifier::external_body]
pub(crate) fn seal_bytes(key_seed: &[u8], plain: &[u8]) -> (r: Result<Vec<u8>, StoreError>)
    ensures
        r matches Ok(sealed) ==> sealed_open_of(key_seed@, sealed@) == Some(plain@),
        r matches Err(e) ==> e == StoreError::Crypto,
{
    let key = sha2::Sha256::digest(key_seed);
    let cipher = aes_gcm::Aes256Gcm::new_from_slice(key.as_slice()).map_err(
        |_| StoreError::Crypto,
    )?;
    let nonce_bytes: [u8; 12] = rand::random();
    let nonce = aes_gcm::Nonce::try_from(&nonce_bytes[..]).map_err(|_| StoreError::Crypto)?;
    let ciphertext = cipher.encrypt(&nonce, plain).map_err(|_| StoreError::Crypto)?;
    let mut sealed = nonce_bytes.to_vec();
    sealed.extend_from_slice(&ciphertext);
    Ok(sealed)
}

/// Relies on `aes_gcm::Aes256Gcm` decryption with the same derived key,
/// splitting the nonce back off: opening is deterministic in seed and
/// bytes, and fails exactly when authentication fails.
#[verifier::external_body]
pub(crate) fn open_bytes(key_seed: &[u8], sealed: &[u8]) -> (r: Result<Vec<u8>, StoreError>)
    ensures
        r matches Ok(plain) ==> Some(plain@) == sealed_open_of(key_seed@, sealed@),
        r is Err ==> sealed_open_of(key_seed@, sealed@) is None,
        r matches Err(e) ==> e == StoreError::Crypto,
{
    if sealed.len() < 12 {
        return Err(StoreError::Crypto);
    }
    let key = sha2::Sha256::digest(key_seed);
    let cipher = aes_gcm::Aes256Gcm::new_from_slice(key.as_slice()).map_err(
        |_| StoreError::Crypto,
    )?;
    let (nonce_bytes, ciphertext) = sealed.split_at(12);
    let nonce = aes_gcm::Nonce::try_from(nonce_bytes).map_err(|_| StoreError::Crypto)?;
    cipher.decrypt(&nonce, ciphertext).map_err(|_| StoreError::Crypto)
}

} // verus!
