//! Content-addressed blob payloads and their chain hashes.

use crate::digest::{sha256_hex, sha256_hex_of};
use crate::encoding::{b64_decode, b64_decode_of, b64_encode, b64_of};
use crate::errors::StoreError;
use crate::text::{opt_view, push_str_bytes, str_bytes, string_eq};
use vstd::bytes::u64_to_le_bytes;
use vstd::prelude::*;

verus! {

/// The hash that links a blob into its snapshot's blob chain: the hex
/// SHA-256 of the previous blob's chain hash (absent for the genesis
/// blob) followed by this blob's content identity hash.
pub open spec fn chain_hash_of(prev: Option<Seq<char>>, content: Seq<char>) -> Seq<char> {
    match prev {
        Some(p) => sha256_hex_of(str_bytes(p) + str_bytes(content)),
        None => sha256_hex_of(str_bytes(content)),
    }
}

/// An immutable packaged payload: a tar stream, possibly compressed,
/// stored with its own hash and its links into the snapshot's blob chain.
#[derive(Debug, Clone)]
pub struct BlobPayload {
    /// `"tar"` or `"tar.zst"`.
    pub format: String,
    /// Hex SHA-256 of the payload bytes; the blob's id.
    pub sha256: String,
    /// Payload byte count.
    pub size: u64,
    /// The payload bytes, base64-encoded.
    pub b64: String,
    /// Chain hash of the preceding blob in this snapshot's blob chain,
    /// or `None` for the genesis blob.
    pub previous_blob_hash: Option<String>,
    /// This blob's chain hash; present exactly once the blob is finalized.
    pub blob_chain_hash: Option<String>,
}

/// The bytes hashed into a blob's content identity: format, payload hash,
/// size as little-endian 64-bit, and the base64 payload.
pub open spec fn content_identity_input_of(
    format: Seq<char>,
    sha256: Seq<char>,
    size: u64,
    b64: Seq<char>,
) -> Seq<u8> {
    str_bytes(format) + str_bytes(sha256) + vstd::bytes::spec_u64_to_le_bytes(size) + str_bytes(
        b64,
    )
}

/// The content identity hash of a blob with the given fields.
pub open spec fn content_identity_of(
    format: Seq<char>,
    sha256: Seq<char>,
    size: u64,
    b64: Seq<char>,
) -> Seq<char> {
    sha256_hex_of(content_identity_input_of(format, sha256, size, b64))
}

impl BlobPayload {
    /// The bytes hashed into the content identity.
    pub open spec fn content_identity_input(self) -> Seq<u8> {
        content_identity_input_of(self.format@, self.sha256@, self.size, self.b64@)
    }

    /// The blob's content identity hash.
    pub open spec fn spec_content_identity(self) -> Seq<char> {
        sha256_hex_of(self.content_identity_input())
    }

    /// The chain hash the blob's stored fields call for.
    pub open spec fn spec_chain_hash(self) -> Seq<char> {
        chain_hash_of(opt_view(self.previous_blob_hash), self.spec_content_identity())
    }

    /// The blob is finalized and recomputing its chain hash from the
    /// other fields reproduces the stored value.
    pub open spec fn integrity_ok(self) -> bool {
        opt_view(self.blob_chain_hash) == Some(self.spec_chain_hash())
    }

    /// The blob's hash, encoding and size all describe `data`.
    pub open spec fn holds_payload(self, data: Seq<u8>) -> bool {
        &&& self.sha256@ == sha256_hex_of(data)
        &&& self.b64@ == b64_of(data)
        &&& b64_decode_of(self.b64@) == Some(data)
        &&& self.size == data.len()
    }

    /// Package `data` as a fresh, not yet chained blob: its hash is the
    /// hex SHA-256 of `data` and its payload the base64 encoding of
    /// `data`.
    pub fn new(format: String, data: &[u8]) -> (r: BlobPayload)
        ensures
            r.format@ == format@,
            r.holds_payload(data@),
            r.sha256@.len() == 64,
            r.previous_blob_hash is None,
            r.blob_chain_hash is None,
    {
        let sha256 = sha256_hex(data);
        let b64 = b64_encode(data);
        BlobPayload {
            format,
            sha256,
            size: data.len() as u64,
            b64,
            previous_blob_hash: None,
            blob_chain_hash: None,
        }
    }

    /// An exact copy of the blob.
    pub fn duplicate(&self) -> (r: BlobPayload)
        ensures
            r == *self,
    {
        BlobPayload {
            format: self.format.clone(),
            sha256: self.sha256.clone(),
            size: self.size,
            b64: self.b64.clone(),
            previous_blob_hash: crate::text::clone_opt_string(&self.previous_blob_hash),
            blob_chain_hash: crate::text::clone_opt_string(&self.blob_chain_hash),
        }
    }

    /// Decode the base64 payload back to the stored bytes.
    pub fn decode(&self) -> (r: Result<Vec<u8>, StoreError>)
        ensures
            r matches Ok(d) ==> Some(d@) == b64_decode_of(self.b64@),
            r is Err ==> b64_decode_of(self.b64@) is None,
            r matches Err(e) ==> e == StoreError::Decode,
    {
        b64_decode(self.b64.as_str())
    }

    /// The blob's format tag.
    pub fn get_format(&self) -> (r: &str)
        ensures
            r@ == self.format@,
    {
        self.format.as_str()
    }

    /// The blob's content hash (its id).
    pub fn get_sha256(&self) -> (r: &str)
        ensures
            r@ == self.sha256@,
    {
        self.sha256.as_str()
    }

    /// The chain hash of the preceding blob, if any.
    pub fn get_previous_blob_hash(&self) -> (r: Option<&String>)
        ensures
            r is Some <==> self.previous_blob_hash is Some,
            r matches Some(h) ==> self.previous_blob_hash matches Some(p) && p@ == h@,
    {
        self.previous_blob_hash.as_ref()
    }

    /// The blob's own chain hash, if finalized.
    pub fn get_blob_chain_hash(&self) -> (r: Option<&String>)
        ensures
            r is Some <==> self.blob_chain_hash is Some,
            r matches Some(h) ==> self.blob_chain_hash matches Some(p) && p@ == h@,
    {
        self.blob_chain_hash.as_ref()
    }

    /// Set the link to the preceding blob in the chain.
    pub fn set_previous_blob_hash(&mut self, previous_hash: Option<String>)
        ensures
            final(self).previous_blob_hash == previous_hash,
            final(self).format == old(self).format,
            final(self).sha256 == old(self).sha256,
            final(self).size == old(self).size,
            final(self).b64 == old(self).b64,
            final(self).blob_chain_hash == old(self).blob_chain_hash,
    {
        self.previous_blob_hash = previous_hash;
    }

    /// The blob's content identity hash: the hex SHA-256 over format,
    /// payload hash, size and base64 payload.
    pub fn calculate_blob_content_hash(&self) -> (r: String)
        ensures
            r@ == self.spec_content_identity(),
            r@.len() == 64,
    {
        let mut input: Vec<u8> = Vec::new();
        push_str_bytes(&mut input, self.format.as_str());
        push_str_bytes(&mut input, self.sha256.as_str());
        let mut le = u64_to_le_bytes(self.size);
        input.append(&mut le);
        push_str_bytes(&mut input, self.b64.as_str());
        proof {
            assert(input@ =~= self.content_identity_input());
        }
        sha256_hex(input.as_slice())
    }

    /// Finalize the blob: compute its chain hash from the previous blob's
    /// chain hash (when present) and its own content identity, and store
    /// it.  Every other field is left as it was.
    pub fn finalize_blob_chain_hash(&mut self) -> (r: Result<(), StoreError>)
        ensures
            r is Ok,
            final(self).format == old(self).format,
            final(self).sha256 == old(self).sha256,
            final(self).size == old(self).size,
            final(self).b64 == old(self).b64,
            final(self).previous_blob_hash == old(self).previous_blob_hash,
            opt_view(final(self).blob_chain_hash) == Some(old(self).spec_chain_hash()),
            final(self).blob_chain_hash matches Some(h) && h@.len() == 64,
            final(self).integrity_ok(),
    {
        let content_hash = self.calculate_blob_content_hash();
        let mut input: Vec<u8> = Vec::new();
        match &self.previous_blob_hash {
            Some(prev) => push_str_bytes(&mut input, prev.as_str()),
            None => {},
        }
        push_str_bytes(&mut input, content_hash.as_str());
        proof {
            match &self.previous_blob_hash {
                Some(prev) => {
                    assert(input@ =~= str_bytes(prev@) + str_bytes(content_hash@));
                },
                None => {
                    assert(input@ =~= str_bytes(content_hash@));
                },
            }
        }
        let chain = sha256_hex(input.as_slice());
        self.blob_chain_hash = Some(chain);
        Ok(())
    }

    /// Whether recomputing the chain hash from the blob's fields
    /// reproduces the stored value; false for a blob never finalized.
    pub fn verify_blob_integrity(&self) -> (r: bool)
        ensures
            r == self.integrity_ok(),
    {
        let content_hash = self.calculate_blob_content_hash();
        let mut input: Vec<u8> = Vec::new();
        match &self.previous_blob_hash {
            Some(prev) => push_str_bytes(&mut input, prev.as_str()),
            None => {},
        }
        push_str_bytes(&mut input, content_hash.as_str());
        proof {
            match &self.previous_blob_hash {
                Some(prev) => {
                    assert(input@ =~= str_bytes(prev@) + str_bytes(content_hash@));
                },
                None => {
                    assert(input@ =~= str_bytes(content_hash@));
                },
            }
        }
        let expected = sha256_hex(input.as_slice());
        match &self.blob_chain_hash {
            Some(stored) => string_eq(stored, &expected),
            None => false,
        }
    }
}

} // verus!
