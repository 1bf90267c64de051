//! The per-snapshot blob chain: an ordered list of blob ids with the chain
//! hash of each blob and an integrity hash over the order.

use crate::blob::{chain_hash_of, content_identity_of, BlobPayload};
use crate::blob_table::{table_get, BlobTable};
use crate::clock::current_timestamp;
use crate::digest::{sha256_hex, sha256_hex_of};
use crate::encoding::{b64_decode_of, b64_of};
use crate::errors::StoreError;
use crate::text::{clone_opt_string, opt_view, push_str_bytes, str_bytes, string_eq};
use vstd::prelude::*;

verus! {

/// The views of a vector of strings.
pub open spec fn strings_view(v: Seq<String>) -> Seq<Seq<char>> {
    v.map_values(|s: String| s@)
}

/// The concatenated UTF-8 bytes of the blob ids, in chain order: the input
/// of the chain integrity hash.
pub open spec fn concat_id_bytes(ids: Seq<Seq<char>>) -> Seq<u8>
    decreases ids.len(),
{
    if ids.len() == 0 {
        Seq::empty()
    } else {
        concat_id_bytes(ids.drop_last()) + str_bytes(ids.last())
    }
}

/// The integrity hash a chain order calls for.
pub open spec fn spec_integrity_hash(ids: Seq<Seq<char>>) -> Seq<char> {
    sha256_hex_of(concat_id_bytes(ids))
}

/// The chain hash a blob at position `i` must link back to: the hash at
/// the position before it, or nothing at the head of the chain.
pub open spec fn expected_prev(hashes: Seq<Seq<char>>, i: int) -> Option<Seq<char>> {
    if i == 0 {
        None
    } else {
        Some(hashes[i - 1])
    }
}

/// The payload bytes a blob's base64 field actually decodes to; an
/// undecodable field counts as empty, and so can never reproduce the
/// stored hashes.
pub open spec fn recomputed_payload(b: BlobPayload) -> Seq<u8> {
    match b64_decode_of(b.b64@) {
        Some(d) => d,
        None => Seq::empty(),
    }
}

/// The content identity a blob would have were it rebuilt from the
/// payload its base64 field decodes to.
pub open spec fn recomputed_identity(b: BlobPayload) -> Seq<char> {
    let data = recomputed_payload(b);
    content_identity_of(b.format@, sha256_hex_of(data), data.len() as u64, b64_of(data))
}

/// Position `i` of the chain checks out: the blob is present, internally
/// consistent, linked to the hash the sidecar records for the position
/// before it, and its chain hash is reproduced from the payload bytes
/// themselves, both in the blob and in the sidecar.
pub open spec fn chain_position_ok(
    ids: Seq<Seq<char>>,
    hashes: Seq<Seq<char>>,
    blobs: Seq<(String, BlobPayload)>,
    i: int,
) -> bool {
    match table_get(blobs, ids[i]) {
        Some(b) => {
            &&& b.integrity_ok()
            &&& opt_view(b.previous_blob_hash) == expected_prev(hashes, i)
            &&& opt_view(b.blob_chain_hash) == Some(
                chain_hash_of(expected_prev(hashes, i), recomputed_identity(b)),
            )
            &&& hashes[i] == chain_hash_of(expected_prev(hashes, i), recomputed_identity(b))
        },
        None => false,
    }
}

/// The whole chain checks out against a table of blobs.
pub open spec fn spec_chain_verifies(meta: BlobChainMetadata, blobs: BlobTable) -> bool {
    &&& meta.integrity_valid()
    &&& forall|i: int|
        0 <= i < meta.ids().len() ==> #[trigger] chain_position_ok(
            meta.ids(),
            meta.hashes(),
            blobs.view_items(),
            i,
        )
}

/// A blob whose fields genuinely describe some payload bytes decodes and
/// rehashes back to its own content identity: rebuilding it from its
/// payload changes nothing.
pub proof fn lemma_genuine_blob_recomputed_identity(b: BlobPayload, data: Seq<u8>)
    requires
        b.holds_payload(data),
    ensures
        recomputed_identity(b) == b.spec_content_identity(),
{
    assert(recomputed_payload(b) == data);
    assert(data.len() < 0x1_0000_0000_0000_0000) by {
        assert(b.size == data.len());
    }
    assert(data.len() as u64 == b.size);
    assert(content_identity_of(b.format@, sha256_hex_of(data), data.len() as u64, b64_of(data))
        == content_identity_of(b.format@, b.sha256@, b.size, b.b64@));
}

/// A chain as the ingest pipeline builds it: one hash recorded per
/// position, the stored integrity hash current, and at every position a
/// genuine finalized blob linked to the hash recorded just before it.
pub open spec fn genuine_chain(meta: BlobChainMetadata, blobs: BlobTable) -> bool {
    &&& meta.wf()
    &&& meta.integrity_valid()
    &&& forall|i: int|
        0 <= i < meta.ids().len() ==> match table_get(
            blobs.view_items(),
            #[trigger] meta.ids()[i],
        ) {
            Some(b) => {
                &&& exists|data: Seq<u8>| b.holds_payload(data)
                &&& b.integrity_ok()
                &&& opt_view(b.previous_blob_hash) == expected_prev(meta.hashes(), i)
                &&& opt_view(b.blob_chain_hash) == Some(meta.hashes()[i])
            },
            None => false,
        }
}

/// Chains the pipeline builds pass verification: every blob that was
/// packaged, linked to the recorded tail and finalized checks out,
/// position by position.
pub proof fn lemma_genuine_chain_verifies(meta: BlobChainMetadata, blobs: BlobTable)
    requires
        genuine_chain(meta, blobs),
    ensures
        spec_chain_verifies(meta, blobs),
{
    assert forall|i: int| 0 <= i < meta.ids().len() implies #[trigger] chain_position_ok(
        meta.ids(),
        meta.hashes(),
        blobs.view_items(),
        i,
    ) by {
        let b = table_get(blobs.view_items(), meta.ids()[i]).unwrap();
        let data = choose|data: Seq<u8>| b.holds_payload(data);
        lemma_genuine_blob_recomputed_identity(b, data);
        assert(b.integrity_ok());
        assert(opt_view(b.blob_chain_hash) == Some(b.spec_chain_hash()));
        assert(b.spec_chain_hash() == chain_hash_of(
            expected_prev(meta.hashes(), i),
            recomputed_identity(b),
        ));
        assert(meta.hashes()[i] == chain_hash_of(
            expected_prev(meta.hashes(), i),
            recomputed_identity(b),
        ));
    }
}

/// Chaining one more genuine blob keeps a chain genuine: the blob the
/// pipeline just packaged, linked to the recorded tail and finalized,
/// stands at the new last position, and every earlier position is as it
/// was.
pub proof fn lemma_genuine_chain_extend(
    meta0: BlobChainMetadata,
    meta1: BlobChainMetadata,
    blobs0: BlobTable,
    blobs1: BlobTable,
    id: Seq<char>,
    hv: Seq<char>,
    b: BlobPayload,
    data: Seq<u8>,
)
    requires
        genuine_chain(meta0, blobs0),
        meta1.wf(),
        meta1.integrity_valid(),
        meta1.ids() == meta0.ids().push(id),
        meta1.hashes() == meta0.hashes().push(hv),
        b.holds_payload(data),
        b.integrity_ok(),
        opt_view(b.previous_blob_hash) == expected_prev(meta0.hashes(), meta0.ids().len() as int),
        opt_view(b.blob_chain_hash) == Some(hv),
        blobs1.spec_get(id) == Some(b),
        forall|other: Seq<char>|
            other != id ==> #[trigger] blobs1.spec_get(other) == blobs0.spec_get(other),
        forall|j: int| 0 <= j < meta0.ids().len() ==> #[trigger] meta0.ids()[j] != id,
    ensures
        genuine_chain(meta1, blobs1),
{
    let n = meta0.ids().len() as int;
    assert(meta0.wf());
    assert forall|i: int| 0 <= i < meta1.ids().len() implies match table_get(
        blobs1.view_items(),
        #[trigger] meta1.ids()[i],
    ) {
        Some(bi) => {
            &&& exists|d: Seq<u8>| bi.holds_payload(d)
            &&& bi.integrity_ok()
            &&& opt_view(bi.previous_blob_hash) == expected_prev(meta1.hashes(), i)
            &&& opt_view(bi.blob_chain_hash) == Some(meta1.hashes()[i])
        },
        None => false,
    } by {
        if i < n {
            assert(meta1.ids()[i] == meta0.ids()[i]);
            assert(meta1.ids()[i] != id);
            assert(blobs1.spec_get(meta1.ids()[i]) == blobs0.spec_get(meta0.ids()[i]));
            assert(meta1.hashes()[i] == meta0.hashes()[i]);
            if i > 0 {
                assert(meta1.hashes()[i - 1] == meta0.hashes()[i - 1]);
            }
            assert(expected_prev(meta1.hashes(), i) == expected_prev(meta0.hashes(), i));
        } else {
            assert(meta1.ids()[i] == id);
            assert(table_get(blobs1.view_items(), id) == Some(b));
            assert(b.holds_payload(data));
            assert(meta1.hashes()[i] == hv);
            if n > 0 {
                assert(meta1.hashes()[i - 1] == meta0.hashes()[n - 1]);
            }
            assert(expected_prev(meta1.hashes(), i) == expected_prev(meta0.hashes(), n));
        }
    }
}

/// The sidecar record of one snapshot's blob chain: blob ids in the order
/// they were chained, the chain hash of each, and an integrity hash over
/// the order.
#[derive(Debug, Clone)]
pub struct BlobChainMetadata {
    /// Blob ids, in chain order.
    pub chain_order: Vec<String>,
    /// The chain hash of the blob at each position of `chain_order`.
    pub chain_hashes: Vec<String>,
    /// Hex SHA-256 over the concatenated ids of `chain_order`.
    pub chain_integrity_hash: String,
    /// RFC 3339 time of the last update.
    pub last_updated: String,
}

impl BlobChainMetadata {
    /// The chain order, as character sequences.
    pub open spec fn ids(self) -> Seq<Seq<char>> {
        strings_view(self.chain_order@)
    }

    /// The recorded chain hashes, as character sequences.
    pub open spec fn hashes(self) -> Seq<Seq<char>> {
        strings_view(self.chain_hashes@)
    }

    /// One chain hash recorded for every position of the order.
    pub open spec fn wf(self) -> bool {
        self.chain_order@.len() == self.chain_hashes@.len()
    }

    /// The stored integrity hash equals the hash the order calls for.
    pub open spec fn integrity_valid(self) -> bool {
        self.chain_integrity_hash@ == spec_integrity_hash(self.ids())
    }

    /// An empty chain.  Its integrity hash is empty until the first
    /// update writes one.
    pub fn new() -> (r: BlobChainMetadata)
        ensures
            r.wf(),
            r.ids() =~= Seq::<Seq<char>>::empty(),
            r.hashes() =~= Seq::<Seq<char>>::empty(),
            r.chain_integrity_hash@ =~= Seq::<char>::empty(),
    {
        BlobChainMetadata {
            chain_order: Vec::new(),
            chain_hashes: Vec::new(),
            chain_integrity_hash: String::new(),
            last_updated: current_timestamp(),
        }
    }

    /// The concatenated id bytes the integrity hash is computed over.
    fn integrity_input(&self) -> (r: Vec<u8>)
        ensures
            r@ == concat_id_bytes(self.ids()),
    {
        let mut input: Vec<u8> = Vec::new();
        let n = self.chain_order.len();
        let mut i: usize = 0;
        while i < n
            invariant
                n == self.chain_order@.len(),
                i <= n,
                input@ == concat_id_bytes(self.ids().subrange(0, i as int)),
            decreases n - i,
        {
            push_str_bytes(&mut input, self.chain_order[i].as_str());
            proof {
                let ids = self.ids();
                assert(ids.subrange(0, i + 1 as int).drop_last() =~= ids.subrange(0, i as int));
                assert(ids.subrange(0, i + 1 as int).last() == ids[i as int]);
            }
            i += 1;
        }
        proof {
            assert(self.ids().subrange(0, n as int) =~= self.ids());
        }
        input
    }

    /// Recompute the integrity hash from the chain order.
    pub fn update_integrity_hash(&mut self)
        ensures
            final(self).chain_order == old(self).chain_order,
            final(self).chain_hashes == old(self).chain_hashes,
            final(self).last_updated == old(self).last_updated,
            final(self).integrity_valid(),
    {
        let input = self.integrity_input();
        self.chain_integrity_hash = sha256_hex(input.as_slice());
    }

    /// Append a blob to the chain: record its id at the next position,
    /// record its chain hash, stamp the update and refresh the integrity
    /// hash.
    pub fn add_blob(&mut self, blob_id: String, blob_chain_hash: String)
        requires
            old(self).wf(),
        ensures
            final(self).wf(),
            final(self).ids() =~= old(self).ids().push(blob_id@),
            final(self).hashes() =~= old(self).hashes().push(blob_chain_hash@),
            final(self).integrity_valid(),
    {
        self.chain_order.push(blob_id);
        self.chain_hashes.push(blob_chain_hash);
        self.last_updated = current_timestamp();
        self.update_integrity_hash();
    }

    /// The position of `blob_id` in the chain, if it is chained.
    pub fn get_position(&self, blob_id: &str) -> (r: Option<u64>)
        ensures
            r matches Some(p) ==> 0 <= p < self.ids().len() && self.ids()[p as int] == blob_id@,
            r is None ==> forall|j: int| 0 <= j < self.ids().len() ==> self.ids()[j] != blob_id@,
    {
        let n = self.chain_order.len();
        let mut i: usize = 0;
        while i < n
            invariant
                n == self.chain_order@.len(),
                i <= n,
                forall|j: int| 0 <= j < i ==> self.ids()[j] != blob_id@,
            decreases n - i,
        {
            if string_eq(&self.chain_order[i], &String::from_str(blob_id)) {
                return Some(i as u64);
            }
            i += 1;
        }
        None
    }

    /// The chain hash recorded for the position before `position`: `None`
    /// at the head of the chain.
    pub fn get_previous_blob_chain_hash(&self, position: u64) -> (r: Option<String>)
        requires
            self.wf(),
            position <= self.ids().len(),
        ensures
            opt_view(r) == expected_prev(self.hashes(), position as int),
    {
        if position == 0 {
            return None;
        }
        let n = self.chain_hashes.len();
        proof {
            assert(position - 1 < n);
        }
        let prev_position = (position - 1) as usize;
        let hash = self.chain_hashes[prev_position].clone();
        proof {
            assert(self.hashes()[position as int - 1] == self.chain_hashes@[position as int - 1]@);
        }
        Some(hash)
    }

    /// Whether the stored integrity hash matches the chain order.
    pub fn verify_integrity(&self) -> (r: bool)
        ensures
            r == self.integrity_valid(),
    {
        let input = self.integrity_input();
        let calculated = sha256_hex(input.as_slice());
        string_eq(&calculated, &self.chain_integrity_hash)
    }
}

/// Manager for one snapshot's blob chain: the sidecar record together
/// with where it lives on disk.
pub struct BlobChainManager {
    /// The store root the sidecar file lives under.
    pub storage_dir: String,
    /// The snapshot whose chain this is.
    pub backup_name: String,
    /// The chain record itself.
    pub metadata: BlobChainMetadata,
}

impl BlobChainManager {
    /// A manager over a fresh, empty chain.  A caller holding a stored
    /// sidecar hands its bytes to `import_sidecar` afterwards.
    pub fn new(storage_dir: String, backup_name: String) -> (r: BlobChainManager)
        ensures
            r.storage_dir@ == storage_dir@,
            r.backup_name@ == backup_name@,
            r.metadata.wf(),
            r.metadata.ids() =~= Seq::<Seq<char>>::empty(),
    {
        BlobChainManager { storage_dir, backup_name, metadata: BlobChainMetadata::new() }
    }

    /// Where the encrypted sidecar for this chain lives.
    pub fn get_metadata_path(&self) -> (r: String)
        ensures
            r@ == self.storage_dir@ + "/"@ + self.backup_name@ + "_blob_chain.encrypted"@,
    {
        let mut path = self.storage_dir.clone();
        path.append("/");
        path.append(self.backup_name.as_str());
        path.append("_blob_chain.encrypted");
        path
    }

    /// The chain record.
    pub fn get_chain_info(&self) -> (r: &BlobChainMetadata)
        ensures
            *r == self.metadata,
    {
        &self.metadata
    }

    /// Chain a blob: link it to the hash recorded for the current tail,
    /// finalize its chain hash, and append it to the chain.
    pub fn add_blob_to_chain(&mut self, blob_id: &str, blob: &mut BlobPayload) -> (r: Result<
        (),
        StoreError,
    >)
        requires
            old(self).metadata.wf(),
        ensures
            r is Ok,
            final(self).storage_dir == old(self).storage_dir,
            final(self).backup_name == old(self).backup_name,
            final(self).metadata.wf(),
            final(self).metadata.integrity_valid(),
            final(self).metadata.ids() =~= old(self).metadata.ids().push(blob_id@),
            final(self).metadata.hashes() =~= old(self).metadata.hashes().push(
                chain_hash_of(
                    expected_prev(old(self).metadata.hashes(), old(self).metadata.ids().len() as int),
                    old(blob).spec_content_identity(),
                ),
            ),
            final(blob).format == old(blob).format,
            final(blob).sha256 == old(blob).sha256,
            final(blob).size == old(blob).size,
            final(blob).b64 == old(blob).b64,
            opt_view(final(blob).previous_blob_hash) == expected_prev(
                old(self).metadata.hashes(),
                old(self).metadata.ids().len() as int,
            ),
            final(blob).integrity_ok(),
            opt_view(final(blob).blob_chain_hash) == Some(
                final(self).metadata.hashes().last(),
            ),
            final(self).metadata.hashes().last().len() == 64,
    {
        let current_position = self.metadata.chain_order.len() as u64;
        let previous_blob_hash = self.metadata.get_previous_blob_chain_hash(current_position);

        blob.set_previous_blob_hash(previous_blob_hash);
        match blob.finalize_blob_chain_hash() {
            Ok(()) => {},
            Err(e) => {
                return Err(e);
            },
        }

        let blob_chain_hash = match blob.get_blob_chain_hash() {
            Some(h) => h.clone(),
            None => {
                proof {
                    assert(false);
                }
                return Err(StoreError::IntegrityViolation);
            },
        };

        self.metadata.add_blob(String::from_str(blob_id), blob_chain_hash);
        Ok(())
    }

    /// Check the whole chain against a table of blobs, as stored in a
    /// manifest: integrity hash, membership, each blob's internal
    /// consistency, each link, and each chain hash recomputed from the
    /// payload bytes themselves.
    pub fn verify_blob_chain(&self, blobs: &BlobTable) -> (r: Result<bool, StoreError>)
        requires
            self.metadata.wf(),
        ensures
            r matches Ok(b) && b == spec_chain_verifies(self.metadata, *blobs),
    {
        if !self.metadata.verify_integrity() {
            return Ok(false);
        }

        let n = self.metadata.chain_order.len();
        let ghost ids = self.metadata.ids();
        let ghost hashes = self.metadata.hashes();
        let mut i: usize = 0;
        while i < n
            invariant
                self.metadata.wf(),
                self.metadata.integrity_valid(),
                ids == self.metadata.ids(),
                hashes == self.metadata.hashes(),
                n == self.metadata.chain_order@.len(),
                i <= n,
                forall|j: int|
                    0 <= j < i ==> #[trigger] chain_position_ok(
                        ids,
                        hashes,
                        blobs.view_items(),
                        j,
                    ),
            decreases n - i,
        {
            let blob_id = &self.metadata.chain_order[i];
            proof {
                assert(ids[i as int] == self.metadata.chain_order@[i as int]@);
            }
            let b = match blobs.get(blob_id.as_str()) {
                Some(b) => b,
                None => {
                    proof {
                        assert(!chain_position_ok(ids, hashes, blobs.view_items(), i as int));
                    }
                    return Ok(false);
                },
            };
            proof {
                assert(table_get(blobs.view_items(), ids[i as int]) == Some(*b));
            }

            if !b.verify_blob_integrity() {
                proof {
                    assert(!chain_position_ok(ids, hashes, blobs.view_items(), i as int));
                }
                return Ok(false);
            }

            let expected_prev_hash = self.metadata.get_previous_blob_chain_hash(i as u64);

            match (b.get_previous_blob_hash(), &expected_prev_hash) {
                (Some(actual), Some(expected)) => {
                    if !string_eq(actual, expected) {
                        proof {
                            assert(!chain_position_ok(ids, hashes, blobs.view_items(), i as int));
                        }
                        return Ok(false);
                    }
                },
                (None, None) => {},
                _ => {
                    proof {
                        assert(!chain_position_ok(ids, hashes, blobs.view_items(), i as int));
                    }
                    return Ok(false);
                },
            }

            // Rebuild the blob from the payload its base64 field decodes
            // to; tampered payload bytes change this identity.
            let data = match b.decode() {
                Ok(d) => d,
                Err(_) => Vec::new(),
            };
            let mut expected_blob = BlobPayload::new(
                String::from_str(b.get_format()),
                data.as_slice(),
            );
            expected_blob.set_previous_blob_hash(clone_opt_string(&expected_prev_hash));
            match expected_blob.finalize_blob_chain_hash() {
                Ok(()) => {},
                Err(e) => {
                    return Err(e);
                },
            }
            proof {
                assert(expected_blob.spec_content_identity() == recomputed_identity(*b));
            }
            let expected_hash = match expected_blob.get_blob_chain_hash() {
                Some(h) => h,
                None => {
                    proof {
                        assert(false);
                    }
                    return Err(StoreError::IntegrityViolation);
                },
            };

            proof {
                assert(expected_hash@ == chain_hash_of(
                    expected_prev(hashes, i as int),
                    recomputed_identity(*b),
                ));
            }
            match b.get_blob_chain_hash() {
                Some(actual) => {
                    if !string_eq(actual, expected_hash) {
                        proof {
                            assert(!chain_position_ok(ids, hashes, blobs.view_items(), i as int));
                        }
                        return Ok(false);
                    }
                },
                None => {
                    proof {
                        assert(!chain_position_ok(ids, hashes, blobs.view_items(), i as int));
                    }
                    return Ok(false);
                },
            }

            if !string_eq(&self.metadata.chain_hashes[i], expected_hash) {
                proof {
                    assert(hashes[i as int] == self.metadata.chain_hashes@[i as int]@);
                    assert(!chain_position_ok(ids, hashes, blobs.view_items(), i as int));
                }
                return Ok(false);
            }

            proof {
                assert(hashes[i as int] == self.metadata.chain_hashes@[i as int]@);
                assert(chain_position_ok(ids, hashes, blobs.view_items(), i as int));
            }
            i += 1;
        }

        Ok(true)
    }
}

} // verus!
