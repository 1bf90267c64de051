//! The per-snapshot manifest: metadata, entries, the blob table, and the
//! snapshot chain with its canonical backup hash.

use crate::blob::{chain_hash_of, BlobPayload};
use crate::blob_table::{lemma_table_get_at, BlobTable};
use crate::canon::{
    concat_bytes, concat_records, len_prefixed, lemma_map_values_multiset,
    lemma_sort_bytes_permutation, push_len_prefixed_str, sort_bytes, sort_records,
};
use crate::digest::{sha256_hex, sha256_hex_of};
use crate::entry::Entry;
use crate::errors::StoreError;
use crate::text::{opt_view, push_str_bytes, str_bytes, str_eq, string_eq};
use vstd::prelude::*;

verus! {

/// The canonical byte record of one entry: its fields, each prefixed with
/// its length, with one marker byte telling whether a tar member is named.
pub open spec fn entry_record(e: Entry) -> Seq<u8> {
    len_prefixed(str_bytes(e.blob_id@)) + len_prefixed(str_bytes(e.target_hint@)) + len_prefixed(
        str_bytes(e.logical_path@),
    ) + match e.tar_member {
        Some(m) => seq![1u8] + len_prefixed(str_bytes(m@)),
        None => seq![0u8],
    }
}

/// The canonical byte record of one blob table binding: the blob id and
/// the blob's descriptor fields (format, content hash, size) — not the
/// payload, which the content hash already pins down.
pub open spec fn blob_record(id: Seq<char>, b: BlobPayload) -> Seq<u8> {
    len_prefixed(str_bytes(id)) + len_prefixed(str_bytes(b.format@)) + len_prefixed(
        str_bytes(b.sha256@),
    ) + vstd::bytes::spec_u64_to_le_bytes(b.size)
}

/// The canonical records of a sequence of entries.
pub open spec fn entry_records_of(entries: Seq<Entry>) -> Seq<Seq<u8>> {
    entries.map_values(|e: Entry| entry_record(e))
}

/// The canonical records of the blob table's bindings.
pub open spec fn blob_records_of(items: Seq<(String, BlobPayload)>) -> Seq<Seq<u8>> {
    items.map_values(|p: (String, BlobPayload)| blob_record(p.0@, p.1))
}

/// A per-snapshot record: metadata, entries, the blobs they reference,
/// and the links into the snapshot chain.
#[derive(Debug, Clone)]
pub struct Manifest {
    /// Snapshot identifier, unique within the store.
    pub name: String,
    /// RFC 3339 creation time.
    pub created_at: String,
    /// Platform tag at creation time.
    pub os_source: String,
    /// The artifacts this snapshot recorded, in ingest order.
    pub entries: Vec<Entry>,
    /// Every blob an entry references, inlined for self-contained restore.
    pub blobs: BlobTable,
    /// Chain hash of the prior snapshot; `None` for the genesis snapshot.
    pub previous_backup_hash: Option<String>,
    /// This snapshot's chain hash; set at save time.
    pub backup_chain_hash: Option<String>,
}

/// The canonical byte sequence the backup hash is computed over: the
/// metadata fields, then the entry records in their canonical order, then
/// the blob records in theirs.  The arrangement of `entries` and `blobs`
/// does not matter; the chain fields are not part of it.
pub open spec fn canonical_bytes(m: Manifest) -> Seq<u8> {
    len_prefixed(str_bytes(m.name@)) + len_prefixed(str_bytes(m.created_at@)) + len_prefixed(
        str_bytes(m.os_source@),
    ) + concat_bytes(sort_bytes(entry_records_of(m.entries@))) + concat_bytes(
        sort_bytes(blob_records_of(m.blobs.view_items())),
    )
}

/// The canonical backup hash.
pub open spec fn spec_backup_hash(m: Manifest) -> Seq<char> {
    sha256_hex_of(canonical_bytes(m))
}

/// The snapshot chain hash: the hex SHA-256 of the previous snapshot's
/// chain hash (absent for the genesis snapshot) followed by the canonical
/// backup hash.
pub open spec fn spec_backup_chain_hash(m: Manifest) -> Seq<char> {
    chain_hash_of(opt_view(m.previous_backup_hash), spec_backup_hash(m))
}

/// The stored chain hash is present and recomputing it from the rest of
/// the manifest reproduces it.
pub open spec fn backup_integrity_ok(m: Manifest) -> bool {
    opt_view(m.backup_chain_hash) == Some(spec_backup_chain_hash(m))
}

/// Permuting `entries` or the blob table's bindings leaves the canonical
/// backup hash unchanged.
pub proof fn lemma_backup_hash_order_independent(m1: Manifest, m2: Manifest)
    requires
        m1.name@ == m2.name@,
        m1.created_at@ == m2.created_at@,
        m1.os_source@ == m2.os_source@,
        m1.entries@.to_multiset() == m2.entries@.to_multiset(),
        m1.blobs.view_items().to_multiset() == m2.blobs.view_items().to_multiset(),
    ensures
        spec_backup_hash(m1) == spec_backup_hash(m2),
{
    lemma_map_values_multiset(m1.entries@, m2.entries@, |e: Entry| entry_record(e));
    lemma_map_values_multiset(
        m1.blobs.view_items(),
        m2.blobs.view_items(),
        |p: (String, BlobPayload)| blob_record(p.0@, p.1),
    );
    lemma_sort_bytes_permutation(
        entry_records_of(m1.entries@),
        entry_records_of(m2.entries@),
    );
    lemma_sort_bytes_permutation(
        blob_records_of(m1.blobs.view_items()),
        blob_records_of(m2.blobs.view_items()),
    );
    assert(canonical_bytes(m1) == canonical_bytes(m2));
}

/// A manifest whose chain hash was computed by the save pipeline passes
/// the integrity check: `f` is `m` with its chain hash filled in, and
/// recomputation reproduces exactly that hash.
pub proof fn lemma_finalized_backup_verifies(m: Manifest, f: Manifest)
    requires
        f.name == m.name,
        f.created_at == m.created_at,
        f.os_source == m.os_source,
        f.entries == m.entries,
        f.blobs == m.blobs,
        f.previous_backup_hash == m.previous_backup_hash,
        opt_view(f.backup_chain_hash) == Some(spec_backup_chain_hash(m)),
    ensures
        backup_integrity_ok(f),
{
    assert(canonical_bytes(f) == canonical_bytes(m));
}

impl Manifest {
    /// The blob table is a table, and every entry's blob is in it.
    pub open spec fn wf(self) -> bool {
        &&& self.blobs.wf()
        &&& forall|i: int|
            0 <= i < self.entries@.len() ==> self.blobs.spec_contains(
                #[trigger] self.entries@[i].blob_id@,
            )
    }

    /// A fresh manifest for a snapshot being saved.
    pub fn new(name: String, created_at: String, os_source: String) -> (r: Manifest)
        ensures
            r.wf(),
            r.name@ == name@,
            r.created_at@ == created_at@,
            r.os_source@ == os_source@,
            r.entries@.len() == 0,
            r.blobs.view_items().len() == 0,
            r.previous_backup_hash is None,
            r.backup_chain_hash is None,
    {
        Manifest {
            name,
            created_at,
            os_source,
            entries: Vec::new(),
            blobs: BlobTable::new(),
            previous_backup_hash: None,
            backup_chain_hash: None,
        }
    }

    /// A named manifest with everything else empty, as a loading shell.
    pub fn empty(name: String) -> (r: Manifest)
        ensures
            r.wf(),
            r.name@ == name@,
            r.created_at@.len() == 0,
            r.os_source@.len() == 0,
            r.entries@.len() == 0,
            r.blobs.view_items().len() == 0,
            r.previous_backup_hash is None,
            r.backup_chain_hash is None,
    {
        Manifest {
            name,
            created_at: String::new(),
            os_source: String::new(),
            entries: Vec::new(),
            blobs: BlobTable::new(),
            previous_backup_hash: None,
            backup_chain_hash: None,
        }
    }

    /// The canonical record of one entry.
    fn entry_record_bytes(e: &Entry) -> (r: Vec<u8>)
        ensures
            r@ == entry_record(*e),
    {
        let mut out: Vec<u8> = Vec::new();
        push_len_prefixed_str(&mut out, e.blob_id.as_str());
        push_len_prefixed_str(&mut out, e.target_hint.as_str());
        push_len_prefixed_str(&mut out, e.logical_path.as_str());
        match &e.tar_member {
            Some(m) => {
                out.push(1u8);
                push_len_prefixed_str(&mut out, m.as_str());
            },
            None => {
                out.push(0u8);
            },
        }
        proof {
            assert(out@ =~= entry_record(*e));
        }
        out
    }

    /// The canonical record of one blob table binding.
    fn blob_record_bytes(id: &String, b: &BlobPayload) -> (r: Vec<u8>)
        ensures
            r@ == blob_record(id@, *b),
    {
        let mut out: Vec<u8> = Vec::new();
        push_len_prefixed_str(&mut out, id.as_str());
        push_len_prefixed_str(&mut out, b.get_format());
        push_len_prefixed_str(&mut out, b.get_sha256());
        let mut le = vstd::bytes::u64_to_le_bytes(b.size);
        out.append(&mut le);
        proof {
            assert(out@ =~= blob_record(id@, *b));
        }
        out
    }

    /// The canonical backup hash of this manifest: deterministic in the
    /// manifest's contents and independent of the order of `entries` and
    /// `blobs`.
    pub fn calculate_backup_hash(&self) -> (r: String)
        ensures
            r@ == spec_backup_hash(*self),
            r@.len() == 64,
    {
        let mut entry_records: Vec<Vec<u8>> = Vec::new();
        let n = self.entries.len();
        let mut i: usize = 0;
        while i < n
            invariant
                n == self.entries@.len(),
                i <= n,
                crate::canon::bytes_view(entry_records@) =~~= entry_records_of(
                    self.entries@.subrange(0, i as int),
                ),
            decreases n - i,
        {
            let ghost before = entry_records@;
            let rec = Self::entry_record_bytes(&self.entries[i]);
            entry_records.push(rec);
            proof {
                let recs = crate::canon::bytes_view(entry_records@);
                let target = entry_records_of(self.entries@.subrange(0, i + 1 as int));
                assert(crate::canon::bytes_view(before).len() == before.len());
                assert(entry_records_of(self.entries@.subrange(0, i as int)).len() == i);
                assert(before.len() == i as int);
                assert(entry_records@.len() == i + 1);
                assert(recs.len() == i + 1);
                assert(target.len() == i + 1);
                assert forall|k: int| 0 <= k < recs.len() implies recs[k] == target[k] by {
                    assert(recs[k] == entry_records@[k]@);
                    assert(target[k] == entry_record(self.entries@.subrange(0, i + 1 as int)[k]));
                    if k < i {
                        assert(entry_records@[k] == before[k]);
                        assert(crate::canon::bytes_view(before)[k] == before[k]@);
                        assert(crate::canon::bytes_view(before)[k] == entry_records_of(
                            self.entries@.subrange(0, i as int),
                        )[k]);
                        assert(entry_records_of(self.entries@.subrange(0, i as int))[k]
                            == entry_record(self.entries@.subrange(0, i as int)[k]));
                    } else {
                        assert(entry_records@[k]@ == entry_record(self.entries@[i as int]));
                    }
                }
                assert(recs =~~= target);
            }
            i += 1;
        }
        proof {
            assert(self.entries@.subrange(0, n as int) =~= self.entries@);
        }
        let sorted_entries = sort_records(entry_records);
        let entry_bytes = concat_records(&sorted_entries);

        let mut blob_records: Vec<Vec<u8>> = Vec::new();
        let m = self.blobs.len();
        let mut j: usize = 0;
        while j < m
            invariant
                m == self.blobs.view_items().len(),
                j <= m,
                crate::canon::bytes_view(blob_records@) =~~= blob_records_of(
                    self.blobs.view_items().subrange(0, j as int),
                ),
            decreases m - j,
        {
            let (id, b) = self.blobs.item_at(j);
            let ghost before = blob_records@;
            let rec = Self::blob_record_bytes(id, b);
            blob_records.push(rec);
            proof {
                let recs = crate::canon::bytes_view(blob_records@);
                let target = blob_records_of(self.blobs.view_items().subrange(0, j + 1 as int));
                assert(crate::canon::bytes_view(before).len() == before.len());
                assert(blob_records_of(self.blobs.view_items().subrange(0, j as int)).len() == j);
                assert(before.len() == j as int);
                assert(blob_records@.len() == j + 1);
                assert(recs.len() == j + 1);
                assert(target.len() == j + 1);
                assert forall|k: int| 0 <= k < recs.len() implies recs[k] == target[k] by {
                    assert(recs[k] == blob_records@[k]@);
                    assert(target[k] == blob_record(
                        self.blobs.view_items().subrange(0, j + 1 as int)[k].0@,
                        self.blobs.view_items().subrange(0, j + 1 as int)[k].1,
                    ));
                    if k < j {
                        assert(blob_records@[k] == before[k]);
                        assert(crate::canon::bytes_view(before)[k] == before[k]@);
                        assert(crate::canon::bytes_view(before)[k] == blob_records_of(
                            self.blobs.view_items().subrange(0, j as int),
                        )[k]);
                        assert(blob_records_of(self.blobs.view_items().subrange(0, j as int))[k]
                            == blob_record(
                            self.blobs.view_items().subrange(0, j as int)[k].0@,
                            self.blobs.view_items().subrange(0, j as int)[k].1,
                        ));
                    } else {
                        assert(blob_records@[k]@ == blob_record(
                            self.blobs.view_items()[j as int].0@,
                            self.blobs.view_items()[j as int].1,
                        ));
                    }
                }
                assert(recs =~~= target);
            }
            j += 1;
        }
        proof {
            assert(self.blobs.view_items().subrange(0, m as int) =~= self.blobs.view_items());
        }
        let sorted_blobs = sort_records(blob_records);
        let blob_bytes = concat_records(&sorted_blobs);

        let mut input: Vec<u8> = Vec::new();
        push_len_prefixed_str(&mut input, self.name.as_str());
        push_len_prefixed_str(&mut input, self.created_at.as_str());
        push_len_prefixed_str(&mut input, self.os_source.as_str());
        let mut entry_tail = entry_bytes;
        input.append(&mut entry_tail);
        let mut blob_tail = blob_bytes;
        input.append(&mut blob_tail);
        proof {
            assert(input@ =~= canonical_bytes(*self));
        }
        sha256_hex(input.as_slice())
    }

    /// Adopt the prior snapshot's chain hash as this manifest's previous
    /// link.  Fails with a broken chain when the prior snapshot was never
    /// finalized.
    pub fn set_previous_backup(&mut self, previous: &Manifest) -> (r: Result<(), StoreError>)
        ensures
            final(self).name == old(self).name,
            final(self).created_at == old(self).created_at,
            final(self).os_source == old(self).os_source,
            final(self).entries == old(self).entries,
            final(self).blobs == old(self).blobs,
            final(self).backup_chain_hash == old(self).backup_chain_hash,
            r is Ok <==> previous.backup_chain_hash is Some,
            r is Ok ==> opt_view(final(self).previous_backup_hash) == opt_view(
                previous.backup_chain_hash,
            ),
            r is Err ==> final(self).previous_backup_hash == old(self).previous_backup_hash,
            r matches Err(e) ==> e == StoreError::BrokenChain,
    {
        match &previous.backup_chain_hash {
            Some(h) => {
                self.previous_backup_hash = Some(h.clone());
                Ok(())
            },
            None => Err(StoreError::BrokenChain),
        }
    }

    /// Compute the snapshot chain hash from the previous link and the
    /// canonical backup hash, and store it.  Everything else is left as
    /// it was, and the manifest then passes the integrity check.
    pub fn finalize_chain_hash(&mut self)
        ensures
            final(self).name == old(self).name,
            final(self).created_at == old(self).created_at,
            final(self).os_source == old(self).os_source,
            final(self).entries == old(self).entries,
            final(self).blobs == old(self).blobs,
            final(self).previous_backup_hash == old(self).previous_backup_hash,
            opt_view(final(self).backup_chain_hash) == Some(spec_backup_chain_hash(*old(self))),
            final(self).backup_chain_hash matches Some(h) && h@.len() == 64,
            backup_integrity_ok(*final(self)),
    {
        let backup_hash = self.calculate_backup_hash();
        let mut input: Vec<u8> = Vec::new();
        match &self.previous_backup_hash {
            Some(prev) => push_str_bytes(&mut input, prev.as_str()),
            None => {},
        }
        push_str_bytes(&mut input, backup_hash.as_str());
        proof {
            match &self.previous_backup_hash {
                Some(prev) => {
                    assert(input@ =~= str_bytes(prev@) + str_bytes(backup_hash@));
                },
                None => {
                    assert(input@ =~= str_bytes(backup_hash@));
                },
            }
        }
        let chain = sha256_hex(input.as_slice());
        self.backup_chain_hash = Some(chain);
        proof {
            lemma_finalized_backup_verifies(*old(self), *self);
        }
    }

    /// Whether recomputing the chain hash from the manifest's contents
    /// reproduces the stored value; false for a manifest never saved.
    pub fn verify_backup_integrity(&self) -> (r: Result<bool, StoreError>)
        ensures
            r matches Ok(b) && b == backup_integrity_ok(*self),
    {
        let backup_hash = self.calculate_backup_hash();
        let mut input: Vec<u8> = Vec::new();
        match &self.previous_backup_hash {
            Some(prev) => push_str_bytes(&mut input, prev.as_str()),
            None => {},
        }
        push_str_bytes(&mut input, backup_hash.as_str());
        proof {
            match &self.previous_backup_hash {
                Some(prev) => {
                    assert(input@ =~= str_bytes(prev@) + str_bytes(backup_hash@));
                },
                None => {
                    assert(input@ =~= str_bytes(backup_hash@));
                },
            }
        }
        let expected = sha256_hex(input.as_slice());
        match &self.backup_chain_hash {
            Some(stored) => Ok(string_eq(stored, &expected)),
            None => Ok(false),
        }
    }

    /// The blob id of an already stored blob with this content hash, if
    /// this manifest holds one.
    pub fn find_existing_blob_by_content(&self, content_hash: &str) -> (r: Option<String>)
        requires
            self.wf(),
        ensures
            r matches Some(id) ==> self.blobs.spec_get(id@) matches Some(b) && b.sha256@
                == content_hash@,
            r is None ==> forall|i: int|
                0 <= i < self.blobs.view_items().len()
                    ==> #[trigger] self.blobs.view_items()[i].1.sha256@ != content_hash@,
    {
        let n = self.blobs.len();
        let mut i: usize = 0;
        while i < n
            invariant
                self.wf(),
                n == self.blobs.view_items().len(),
                i <= n,
                forall|j: int|
                    0 <= j < i ==> #[trigger] self.blobs.view_items()[j].1.sha256@
                        != content_hash@,
            decreases n - i,
        {
            let (id, b) = self.blobs.item_at(i);
            if str_eq(b.get_sha256(), content_hash) {
                proof {
                    lemma_table_get_at(self.blobs.view_items(), i as int);
                }
                return Some(id.clone());
            }
            i += 1;
        }
        None
    }

    /// Bind a blob into the manifest's blob table under its id.
    pub fn add_blob_for_testing(&mut self, blob_id: String, blob: BlobPayload)
        requires
            old(self).wf(),
        ensures
            final(self).wf(),
            final(self).name == old(self).name,
            final(self).created_at == old(self).created_at,
            final(self).os_source == old(self).os_source,
            final(self).entries == old(self).entries,
            final(self).previous_backup_hash == old(self).previous_backup_hash,
            final(self).backup_chain_hash == old(self).backup_chain_hash,
            final(self).blobs.spec_get(blob_id@) == Some(blob),
            forall|other: Seq<char>|
                other != blob_id@ ==> #[trigger] final(self).blobs.spec_get(other) == old(
                    self,
                ).blobs.spec_get(other),
            crate::blob_table::insert_shape(
                old(self).blobs.view_items(),
                final(self).blobs.view_items(),
                blob_id@,
                blob,
            ),
    {
        self.blobs.insert(blob_id, blob);
    }

    /// Record an entry for a blob the table already holds.
    pub fn add_entry(&mut self, entry: Entry)
        requires
            old(self).wf(),
            old(self).blobs.spec_contains(entry.blob_id@),
        ensures
            final(self).wf(),
            final(self).name == old(self).name,
            final(self).created_at == old(self).created_at,
            final(self).os_source == old(self).os_source,
            final(self).blobs == old(self).blobs,
            final(self).previous_backup_hash == old(self).previous_backup_hash,
            final(self).backup_chain_hash == old(self).backup_chain_hash,
            final(self).entries@ == old(self).entries@.push(entry),
    {
        self.entries.push(entry);
    }
}

} // verus!
