//! The ingest and restore pipelines: package, compress, hash, deduplicate
//! and chain on the way in; decode, decompress and extract on the way out.
//!
//! Reading source files and writing blob files is the caller's part; the
//! pipelines take bytes and hand back bytes together with what must be
//! stored where.

use crate::archive::{
    clean_dir_inputs, clean_tar_path, dir_items, file_items, find_member, member_lookup,
    pack_dir, pack_file, tar_items_of, tar_items_view, tar_list, TarItem,
};
use crate::blob::BlobPayload;
use crate::blob_table::lemma_table_get_index;
use crate::chain::BlobChainManager;
use crate::compress::{compress_payload, decompress_payload, zstd_decode_of};
use crate::digest::{sha256_hex, sha256_hex_of};
use crate::encoding::b64_decode_of;
use crate::entry::Entry;
use crate::errors::StoreError;
use crate::manifest::Manifest;
use crate::performance::{PerformanceConfig, PerformanceMetrics};
use crate::text::{str_bytes, str_eq};
use vstd::prelude::*;

verus! {

/// Whether some blob of the manifest holds content with this hash.
pub open spec fn manifest_has_content(m: Manifest, hash: Seq<char>) -> bool {
    exists|i: int|
        0 <= i < m.blobs.view_items().len() && #[trigger] m.blobs.view_items()[i].1.sha256@
            == hash
}

/// Whether content with this hash is stored anywhere: in the manifest
/// being built or in any other snapshot of the store.
pub open spec fn store_has_content(m: Manifest, others: Seq<Manifest>, hash: Seq<char>) -> bool {
    manifest_has_content(m, hash) || exists|k: int|
        0 <= k < others.len() && manifest_has_content(#[trigger] others[k], hash)
}

/// Every blob is keyed by its own content hash.
pub open spec fn content_addressed(m: Manifest) -> bool {
    forall|i: int|
        0 <= i < m.blobs.view_items().len() ==> #[trigger] m.blobs.view_items()[i].0@
            == m.blobs.view_items()[i].1.sha256@
}

/// Every manifest of the store is well-formed and content-addressed, and
/// snapshot names are unique within the store.
pub open spec fn backups_wf(others: Seq<Manifest>) -> bool {
    &&& forall|k: int|
        0 <= k < others.len() ==> (#[trigger] others[k]).wf() && content_addressed(others[k])
    &&& forall|k1: int, k2: int|
        0 <= k1 < k2 < others.len() ==> (#[trigger] others[k1]).name@ != (
        #[trigger] others[k2]).name@
}

/// Whether one manifest is well-formed and content-addressed: every
/// entry's blob is present, each blob id is bound once, and each blob is
/// keyed by its own content hash.
pub fn check_manifest(m: &Manifest) -> (r: bool)
    ensures
        r == (m.wf() && content_addressed(*m)),
{
    let nb = m.blobs.len();
    let mut i: usize = 0;
    while i < nb
        invariant
            nb == m.blobs.view_items().len(),
            i <= nb,
            forall|a: int, b: int|
                0 <= a < b < nb && a < i ==> m.blobs.view_items()[a].0@
                    != m.blobs.view_items()[b].0@,
            forall|a: int|
                0 <= a < i ==> (#[trigger] m.blobs.view_items()[a]).0@
                    == m.blobs.view_items()[a].1.sha256@,
        decreases nb - i,
    {
        let (id, blob) = m.blobs.item_at(i);
        if !str_eq(id.as_str(), blob.get_sha256()) {
            return false;
        }
        let mut j: usize = i + 1;
        while j < nb
            invariant
                nb == m.blobs.view_items().len(),
                i < nb,
                i < j <= nb,
                id@ == m.blobs.view_items()[i as int].0@,
                forall|b: int|
                    i < b < j ==> m.blobs.view_items()[i as int].0@
                        != (#[trigger] m.blobs.view_items()[b]).0@,
            decreases nb - j,
        {
            let (other, _) = m.blobs.item_at(j);
            if str_eq(id.as_str(), other.as_str()) {
                return false;
            }
            j += 1;
        }
        proof {
            assert forall|a: int, b: int| 0 <= a < b < nb && a < i + 1 implies m.blobs.view_items()[a].0@
                != m.blobs.view_items()[b].0@ by {
                if a == i as int {
                    assert(m.blobs.view_items()[i as int].0@ != m.blobs.view_items()[b].0@);
                }
            }
        }
        i += 1;
    }

    let ne = m.entries.len();
    let mut k: usize = 0;
    while k < ne
        invariant
            ne == m.entries@.len(),
            m.blobs.wf(),
            k <= ne,
            forall|a: int|
                0 <= a < k ==> m.blobs.spec_contains((#[trigger] m.entries@[a]).blob_id@),
        decreases ne - k,
    {
        if !m.blobs.contains(m.entries[k].blob_id.as_str()) {
            return false;
        }
        k += 1;
    }
    true
}

/// Whether a loaded store can be trusted by the engine: every manifest
/// well-formed and content-addressed, and snapshot names unique.  A
/// caller that reads manifests from disk checks them here before handing
/// them to ingest or to the chain walk.
pub fn validate_store(manifests: &Vec<Manifest>) -> (r: bool)
    ensures
        r == backups_wf(manifests@),
        r ==> crate::snapshots::store_names_unique(manifests@),
{
    let n = manifests.len();
    let mut i: usize = 0;
    while i < n
        invariant
            n == manifests@.len(),
            i <= n,
            forall|a: int|
                0 <= a < i ==> (#[trigger] manifests@[a]).wf() && content_addressed(
                    manifests@[a],
                ),
            forall|a: int, b: int|
                0 <= a < b < n && a < i ==> (#[trigger] manifests@[a]).name@ != (
                #[trigger] manifests@[b]).name@,
        decreases n - i,
    {
        if !check_manifest(&manifests[i]) {
            return false;
        }
        let mut j: usize = i + 1;
        while j < n
            invariant
                n == manifests@.len(),
                i < n,
                i < j <= n,
                forall|b: int|
                    i < b < j ==> manifests@[i as int].name@ != (#[trigger] manifests@[b]).name@,
            decreases n - j,
        {
            if str_eq(manifests[i].name.as_str(), manifests[j].name.as_str()) {
                return false;
            }
            j += 1;
        }
        proof {
            assert forall|a: int, b: int|
                0 <= a < b < n && a < i + 1 implies (#[trigger] manifests@[a]).name@ != (
            #[trigger] manifests@[b]).name@ by {
                if a == i as int {
                    assert(manifests@[i as int].name@ != manifests@[b].name@);
                }
            }
        }
        i += 1;
    }
    true
}

/// A freshly ingested file blob holds a compressed tar archive with
/// exactly one file member, and its fields describe those payload bytes.
pub open spec fn fresh_file_blob_ok(
    b: BlobPayload,
    payload: Seq<u8>,
    name: Seq<char>,
    data: Seq<u8>,
) -> bool {
    &&& b.holds_payload(payload)
    &&& b.format@ == "tar.zst"@
    &&& exists|t: Seq<u8>|
        zstd_decode_of(payload) == Some(t) && #[trigger] tar_items_of(t) == Some(
            seq![(name, false, data)],
        )
}

/// A freshly ingested directory blob holds a compressed tar archive of
/// the given tree: the directories first, then the files.
pub open spec fn fresh_dir_blob_ok(
    b: BlobPayload,
    payload: Seq<u8>,
    dirs: Seq<String>,
    files: Seq<(String, Vec<u8>)>,
) -> bool {
    &&& b.holds_payload(payload)
    &&& b.format@ == "tar.zst"@
    &&& exists|t: Seq<u8>|
        zstd_decode_of(payload) == Some(t) && #[trigger] tar_items_of(t) == Some(
            dir_items(dirs) + file_items(files),
        )
}

/// One file handed to the batch ingest pipeline.
pub struct FileInput {
    /// The file's base name: the tar member name on restore.
    pub name: String,
    /// The origin path, informational.
    pub logical_path: String,
    /// The file's bytes.
    pub data: Vec<u8>,
    /// The tag the entry carries.
    pub target_hint: String,
}

/// The first position of `out` holding a smaller payload than `x`: where
/// `x` belongs when files are arranged largest first.
fn insert_pos_by_size(out: &Vec<FileInput>, x: &FileInput) -> (p: usize)
    ensures
        p <= out@.len(),
        forall|k: int| 0 <= k < p ==> (#[trigger] out@[k]).data@.len() >= x.data@.len(),
        p < out@.len() ==> out@[p as int].data@.len() < x.data@.len(),
{
    let n = out.len();
    let mut p: usize = 0;
    while p < n
        invariant
            n == out@.len(),
            p <= n,
            forall|k: int| 0 <= k < p ==> (#[trigger] out@[k]).data@.len() >= x.data@.len(),
        decreases n - p,
    {
        if out[p].data.len() < x.data.len() {
            return p;
        }
        p += 1;
    }
    p
}

/// Arrange files for packaging: largest payload first, to smooth parallel
/// compression throughput, keeping exactly the given files.
pub fn order_files_for_pack(files: Vec<FileInput>) -> (r: Vec<FileInput>)
    ensures
        r@.to_multiset() == files@.to_multiset(),
        forall|i: int, j: int|
            0 <= i < j < r@.len() ==> (#[trigger] r@[i]).data@.len() >= (
            #[trigger] r@[j]).data@.len(),
{
    let ghost orig = files@;
    let mut rest = files;
    let mut out: Vec<FileInput> = Vec::new();

    proof {
        broadcast use vstd::seq_lib::group_to_multiset_ensures;

        assert(out@.to_multiset().add(rest@.to_multiset()) =~= orig.to_multiset());
    }

    while rest.len() > 0
        invariant
            forall|i: int, j: int|
                0 <= i < j < out@.len() ==> (#[trigger] out@[i]).data@.len() >= (
                #[trigger] out@[j]).data@.len(),
            out@.to_multiset().add(rest@.to_multiset()) == orig.to_multiset(),
        decreases rest@.len(),
    {
        let ghost out_before = out@;
        let ghost rest_before = rest@;
        let x = rest.remove(0);

        let p = insert_pos_by_size(&out, &x);

        proof {
            broadcast use vstd::seq_lib::group_to_multiset_ensures;

            assert(rest@ =~= rest_before.drop_first());
            assert(rest_before.drop_first() =~= rest_before.remove(0));
        }
        let ghost xv = x;
        out.insert(p, x);
        proof {
            broadcast use vstd::seq_lib::group_to_multiset_ensures;

            let after = out@;
            assert(after =~= out_before.insert(p as int, xv));
            assert forall|i: int, j: int|
                0 <= i < j < after.len() implies (#[trigger] after[i]).data@.len() >= (
            #[trigger] after[j]).data@.len() by {
                if j < p {
                    assert(after[i] == out_before[i] && after[j] == out_before[j]);
                } else if i > p {
                    assert(after[i] == out_before[i - 1] && after[j] == out_before[j - 1]);
                } else if i < p && j == p {
                    assert(after[i] == out_before[i] && after[j] == xv);
                } else if i == p && j > p {
                    assert(after[i] == xv && after[j] == out_before[j - 1]);
                    assert(p < out_before.len());
                    assert(out_before[p as int].data@.len() < xv.data@.len());
                    if j - 1 > p {
                        assert(out_before[p as int].data@.len() >= out_before[j - 1].data@.len());
                    }
                } else {
                    assert(i < p && j > p);
                    assert(after[i] == out_before[i] && after[j] == out_before[j - 1]);
                    assert(i < j - 1);
                    assert(out_before[i].data@.len() >= out_before[j - 1].data@.len());
                }
            }
            assert(after.remove(p as int) =~= out_before);
            assert(after.to_multiset().remove(xv) =~= out_before.to_multiset());
            assert(after.contains(after[p as int]));
            assert(after.to_multiset() =~= out_before.to_multiset().insert(xv));
            assert(rest_before.to_multiset() =~= rest@.to_multiset().insert(xv)) by {
                assert(rest_before[0] == xv);
                assert(rest_before.remove(0) =~= rest@);
                assert(rest_before.to_multiset().remove(xv) =~= rest@.to_multiset());
                assert(rest_before.contains(rest_before[0]));
            }
            assert(out@.to_multiset().add(rest@.to_multiset()) =~= orig.to_multiset());
        }
    }

    proof {
        broadcast use vstd::seq_lib::group_to_multiset_ensures;

        assert(rest@.to_multiset() =~= vstd::multiset::Multiset::<FileInput>::empty()) by {
            assert(rest@ =~= Seq::<FileInput>::empty());
        }
        assert(out@.to_multiset() =~= orig.to_multiset());
    }
    out
}

/// What one ingest did: which blob the new entry points at, whether an
/// already stored blob was reused, and the payload to write into the
/// content store when one was created.
pub struct IngestOutcome {
    /// The blob id the new entry references.
    pub blob_id: String,
    /// The hex content hash of the compressed payload; always equal to
    /// `blob_id` in a content-addressed store.
    pub content_hash: String,
    /// Whether an already stored blob was reused.
    pub reused: bool,
    /// For a fresh blob, the payload bytes to write under
    /// `blobs/<blob_id>.tar.zst`; nothing is written on reuse.
    pub payload_to_store: Option<Vec<u8>>,
}

/// What ingest promises of its outcome, for a manifest `m0` growing to
/// `m1` and a chain `c0` growing to `c1`.
pub open spec fn ingest_ok(
    m0: Manifest,
    m1: Manifest,
    c0: BlobChainManager,
    c1: BlobChainManager,
    others: Seq<Manifest>,
    out: IngestOutcome,
) -> bool {
    &&& m1.wf()
    &&& content_addressed(m1)
    &&& m1.name == m0.name
    &&& m1.created_at == m0.created_at
    &&& m1.os_source == m0.os_source
    &&& m1.previous_backup_hash == m0.previous_backup_hash
    &&& m1.backup_chain_hash == m0.backup_chain_hash
    &&& m1.entries@.len() == m0.entries@.len() + 1
    &&& m1.entries@.drop_last() =~= m0.entries@
    &&& m1.entries@.last().blob_id@ == out.blob_id@
    &&& out.blob_id@ == out.content_hash@
    &&& m1.blobs.spec_get(out.blob_id@) matches Some(b) && b.sha256@ == out.content_hash@
    &&& forall|other: Seq<char>|
        other != out.blob_id@ ==> #[trigger] m1.blobs.spec_get(other) == m0.blobs.spec_get(other)
    &&& out.reused == store_has_content(m0, others, out.content_hash@)
    &&& out.reused ==> out.payload_to_store is None && c1 == c0
    &&& !out.reused ==> (out.payload_to_store matches Some(p) && out.content_hash@
        == sha256_hex_of(p@))
    &&& !out.reused ==> c1.metadata.wf() && c1.metadata.integrity_valid()
        && c1.metadata.ids() =~= c0.metadata.ids().push(out.blob_id@)
        && c1.storage_dir == c0.storage_dir && c1.backup_name == c0.backup_name
}

/// Deduplication yields one blob id per content: outcomes naming the same
/// content hash name the same blob.
pub proof fn lemma_dedup_same_blob_id(out1: IngestOutcome, out2: IngestOutcome)
    requires
        out1.blob_id@ == out1.content_hash@,
        out2.blob_id@ == out2.content_hash@,
        out1.content_hash@ == out2.content_hash@,
    ensures
        out1.blob_id@ == out2.blob_id@,
{
}

/// What restoring one entry yields: a single file's bytes when the entry
/// names a tar member, or the whole archived tree.
#[derive(Debug, PartialEq)]
pub enum RestoredContent {
    /// The bytes of the one restored file.
    File(Vec<u8>),
    /// The members of the restored tree, to be written below the
    /// destination's parent.
    Tree(Vec<TarItem>),
}

/// The plain value of a restored content: a file's bytes, or a tree's
/// members.
pub enum RestoredValue {
    File(Seq<u8>),
    Tree(Seq<(Seq<char>, bool, Seq<u8>)>),
}

/// The tar stream a blob's payload decodes and decompresses to.
pub open spec fn spec_restore_payload(b: BlobPayload) -> Result<Seq<u8>, StoreError> {
    match b64_decode_of(b.b64@) {
        None => Err(StoreError::Decode),
        Some(raw) => if b.format@ == "tar"@ {
            Ok(raw)
        } else if b.format@ == "tar.zst"@ {
            match zstd_decode_of(raw) {
                Some(t) => Ok(t),
                None => Err(StoreError::Decompression),
            }
        } else {
            Err(StoreError::UnknownFormat)
        },
    }
}

/// The members a blob's archive lists.
pub open spec fn spec_restore_items(b: BlobPayload) -> Result<
    Seq<(Seq<char>, bool, Seq<u8>)>,
    StoreError,
> {
    match spec_restore_payload(b) {
        Err(e) => Err(e),
        Ok(t) => match tar_items_of(t) {
            None => Err(StoreError::Pack),
            Some(items) => Ok(items),
        },
    }
}

/// The bytes restoring `member` from a blob yields.
pub open spec fn spec_restore_member(b: BlobPayload, member: Seq<char>) -> Result<
    Seq<u8>,
    StoreError,
> {
    match spec_restore_items(b) {
        Err(e) => Err(e),
        Ok(items) => match member_lookup(items, member) {
            Some(d) => Ok(d),
            None => Err(StoreError::MemberNotFound),
        },
    }
}

/// Restoring a freshly ingested single-file blob gives back, byte for
/// byte, the file that was ingested.
pub proof fn lemma_ingest_restore_round_trip(
    b: BlobPayload,
    payload: Seq<u8>,
    name: Seq<char>,
    data: Seq<u8>,
)
    requires
        fresh_file_blob_ok(b, payload, name, data),
    ensures
        spec_restore_member(b, name) == Ok::<Seq<u8>, StoreError>(data),
{
    let t = choose|t: Seq<u8>|
        zstd_decode_of(payload) == Some(t) && #[trigger] tar_items_of(t) == Some(
            seq![(name, false, data)],
        );
    assert(b64_decode_of(b.b64@) == Some(payload));
    reveal_strlit("tar");
    reveal_strlit("tar.zst");
    assert("tar"@.len() == 3);
    assert("tar.zst"@.len() == 7);
    assert(b.format@ != "tar"@);
    assert(spec_restore_payload(b) == Ok::<Seq<u8>, StoreError>(t));
    let items = seq![(name, false, data)];
    assert(member_lookup(items, name) == Some(data)) by {
        assert(items[0].0 == name);
    }
}

/// The plain value a restored content carries.
pub open spec fn restored_view(c: RestoredContent) -> RestoredValue {
    match c {
        RestoredContent::File(d) => RestoredValue::File(d@),
        RestoredContent::Tree(items) => RestoredValue::Tree(tar_items_view(items@)),
    }
}

/// What restoring one entry of a manifest yields: the named member's
/// bytes or the whole tree, or the first failure on the way there.
pub open spec fn spec_restore_entry(m: Manifest, e: Entry) -> Result<RestoredValue, StoreError> {
    match m.blobs.spec_get(e.blob_id@) {
        None => Err(StoreError::MissingBlob),
        Some(b) => match e.tar_member {
            Some(member) => match spec_restore_member(b, member@) {
                Ok(d) => Ok(RestoredValue::File(d)),
                Err(err) => Err(err),
            },
            None => match spec_restore_items(b) {
                Ok(items) => Ok(RestoredValue::Tree(items)),
                Err(err) => Err(err),
            },
        },
    }
}

impl Manifest {
    /// The snapshot and blob id of an already stored blob whose content
    /// hash matches, searching every other snapshot of the store.  The
    /// first match wins.
    pub fn find_existing_blob_across_backups(content_hash: &str, backups: &Vec<Manifest>) -> (r:
        Option<(String, String)>)
        requires
            backups_wf(backups@),
        ensures
            r matches Some(hit) ==> exists|k: int|
                0 <= k < backups@.len() && (#[trigger] backups@[k]).name@ == hit.0@ && (
                backups@[k].blobs.spec_get(hit.1@) matches Some(b) && b.sha256@ == content_hash@)
                    && hit.1@ == content_hash@ && (forall|j: int|
                    0 <= j < k ==> !manifest_has_content(#[trigger] backups@[j], content_hash@)),
            r is None ==> forall|k: int|
                0 <= k < backups@.len() ==> !manifest_has_content(
                    #[trigger] backups@[k],
                    content_hash@,
                ),
    {
        let n = backups.len();
        let mut k: usize = 0;
        while k < n
            invariant
                backups_wf(backups@),
                n == backups@.len(),
                k <= n,
                forall|j: int|
                    0 <= j < k ==> !manifest_has_content(#[trigger] backups@[j], content_hash@),
            decreases n - k,
        {
            match backups[k].find_existing_blob_by_content(content_hash) {
                Some(id) => {
                    proof {
                        let m = backups@[k as int];
                        lemma_table_get_index(m.blobs.view_items(), id@);
                        let i = choose|i: int|
                            0 <= i < m.blobs.view_items().len()
                                && #[trigger] m.blobs.view_items()[i].0@ == id@
                                && m.blobs.spec_get(id@) == Some(m.blobs.view_items()[i].1);
                        assert(m.blobs.view_items()[i].0@ == m.blobs.view_items()[i].1.sha256@);
                        assert(id@ == content_hash@);
                    }
                    let name = backups[k].name.clone();
                    return Some((name, id));
                },
                None => {
                    proof {
                        assert(!manifest_has_content(backups@[k as int], content_hash@));
                    }
                },
            }
            k += 1;
        }
        None
    }

    /// Whether the store already holds content with this hash, and the
    /// payload to embed when it does.
    fn dedup_lookup(&self, content_hash: &str, others: &Vec<Manifest>) -> (r: Option<(
        String,
        BlobPayload,
    )>)
        requires
            self.wf(),
            content_addressed(*self),
            backups_wf(others@),
        ensures
            r matches Some(hit) ==> hit.0@ == content_hash@ && hit.1.sha256@ == content_hash@,
            r is Some ==> store_has_content(*self, others@, content_hash@),
            r is None ==> !store_has_content(*self, others@, content_hash@),
    {
        match self.find_existing_blob_by_content(content_hash) {
            Some(id) => {
                let blob = match self.blobs.get(id.as_str()) {
                    Some(b) => b.duplicate(),
                    None => {
                        proof {
                            assert(false);
                        }
                        return None;
                    },
                };
                proof {
                    lemma_table_get_index(self.blobs.view_items(), id@);
                    let i = choose|i: int|
                        0 <= i < self.blobs.view_items().len()
                            && #[trigger] self.blobs.view_items()[i].0@ == id@
                            && self.blobs.spec_get(id@) == Some(self.blobs.view_items()[i].1);
                    assert(self.blobs.view_items()[i].0@ == self.blobs.view_items()[i].1.sha256@);
                }
                Some((id, blob))
            },
            None => {
                match Self::find_existing_blob_across_backups(content_hash, others) {
                    Some((backup_name, id)) => {
                        proof {
                            assert(store_has_content(*self, others@, content_hash@)) by {
                                let k = choose|k: int|
                                    0 <= k < others@.len() && (#[trigger] others@[k]).name@
                                        == backup_name@ && (others@[k].blobs.spec_get(id@)
                                        matches Some(b) && b.sha256@ == content_hash@) && id@
                                        == content_hash@;
                                lemma_table_get_index(others@[k].blobs.view_items(), id@);
                            }
                        }
                        let blob = Self::fetch_blob(others, &backup_name, &id, content_hash);
                        match blob {
                            Some(b) => Some((id, b)),
                            None => {
                                proof {
                                    assert(false);
                                }
                                None
                            },
                        }
                    },
                    None => None,
                }
            },
        }
    }

    /// The payload stored under `id` in the named snapshot.  The hit the
    /// search reported guarantees the snapshot and the blob exist.
    fn fetch_blob(others: &Vec<Manifest>, backup_name: &String, id: &String, content_hash: &str)
        -> (r: Option<BlobPayload>)
        requires
            backups_wf(others@),
            exists|k: int|
                0 <= k < others@.len() && (#[trigger] others@[k]).name@ == backup_name@ && (
                others@[k].blobs.spec_get(id@) matches Some(b) && b.sha256@ == content_hash@),
        ensures
            r matches Some(b) ==> b.sha256@ == content_hash@,
            r is Some,
    {
        let ghost k0 = choose|k: int|
            0 <= k < others@.len() && (#[trigger] others@[k]).name@ == backup_name@ && (
            others@[k].blobs.spec_get(id@) matches Some(b) && b.sha256@ == content_hash@);
        let n = others.len();
        let mut k: usize = 0;
        while k < n
            invariant
                backups_wf(others@),
                n == others@.len(),
                0 <= k0 < n,
                others@[k0].name@ == backup_name@,
                (others@[k0].blobs.spec_get(id@) matches Some(b) && b.sha256@
                    == content_hash@),
                k <= n,
                forall|j: int| 0 <= j < k ==> (#[trigger] others@[j]).name@ != backup_name@,
            decreases n - k,
        {
            if crate::text::string_eq(&others[k].name, backup_name) {
                proof {
                    if k as int != k0 {
                        assert(others@[k as int].name@ != others@[k0].name@);
                        assert(false);
                    }
                }
                match others[k].blobs.get(id.as_str()) {
                    Some(b) => {
                        if str_eq(b.get_sha256(), content_hash) {
                            return Some(b.duplicate());
                        }
                        proof {
                            assert(false);
                        }
                        return None;
                    },
                    None => {
                        proof {
                            assert(false);
                        }
                        return None;
                    },
                }
            }
            k += 1;
        }
        proof {
            assert(others@[k0].name@ != backup_name@);
            assert(false);
        }
        None
    }

    /// Ingest one file: package it as a deterministic tar archive,
    /// compress, hash, reuse an already stored blob with the same content
    /// or create and chain a fresh one, and record the entry.
    pub fn create_blob_from_file(
        &mut self,
        chain: &mut BlobChainManager,
        config: &PerformanceConfig,
        others: &Vec<Manifest>,
        file_name: &str,
        logical_path: &str,
        file_data: &[u8],
        target_hint: &str,
    ) -> (r: Result<IngestOutcome, StoreError>)
        requires
            old(self).wf(),
            content_addressed(*old(self)),
            old(chain).metadata.wf(),
            backups_wf(others@),
            config.valid(),
        ensures
            r matches Ok(out) ==> ingest_ok(
                *old(self),
                *final(self),
                *old(chain),
                *final(chain),
                others@,
                out,
            ),
            r matches Ok(out) ==> {
                let e = final(self).entries@.last();
                &&& e.target_hint@ == target_hint@
                &&& e.logical_path@ == logical_path@
                &&& e.tar_member matches Some(m) && m@ == file_name@
            },
            r matches Ok(out) ==> (!out.reused ==> (out.payload_to_store matches Some(p) && (
            final(self).blobs.spec_get(out.blob_id@) matches Some(b) && fresh_file_blob_ok(
                b,
                p@,
                file_name@,
                file_data@,
            ) && b.integrity_ok()))),
            r is Ok <==> clean_tar_path(str_bytes(file_name@)),
            r matches Ok(out) ==> exists|p: Seq<u8>|
                out.content_hash@ == sha256_hex_of(p) && ((#[trigger] zstd_decode_of(p))
                    matches Some(t) && tar_items_of(t) == Some(
                    seq![(file_name@, false, file_data@)],
                )),
            r is Err ==> *final(self) == *old(self) && *final(chain) == *old(chain),
            r matches Err(e) ==> e == StoreError::Pack,
    {
        let tar_bytes = match pack_file(file_name, file_data) {
            Ok(t) => t,
            Err(e) => {
                return Err(e);
            },
        };
        let compressed = match compress_payload(tar_bytes.as_slice(), config) {
            Ok(c) => c,
            Err(_) => {
                proof {
                    assert(false);
                }
                return Err(StoreError::Compression);
            },
        };
        let content_hash = sha256_hex(compressed.as_slice());

        let member = Some(String::from_str(file_name));
        let ghost payload = compressed@;
        let r = self.ingest_payload(
            chain,
            others,
            compressed,
            content_hash,
            logical_path,
            target_hint,
            member,
        );
        proof {
            match &r {
                Ok(out) => {
                    assert(out.content_hash@ == sha256_hex_of(payload) && (zstd_decode_of(payload)
                        matches Some(t) && tar_items_of(t) == Some(
                        seq![(file_name@, false, file_data@)],
                    )));
                },
                Err(_) => {},
            }
        }
        r
    }

    /// Ingest one directory tree, already read into memory: package it as
    /// a deterministic tar archive (directories first, then files),
    /// compress, hash, deduplicate or chain, and record an entry with no
    /// tar member.
    pub fn create_blob_from_directory(
        &mut self,
        chain: &mut BlobChainManager,
        config: &PerformanceConfig,
        others: &Vec<Manifest>,
        dirs: &Vec<String>,
        files: &Vec<(String, Vec<u8>)>,
        logical_path: &str,
        target_hint: &str,
    ) -> (r: Result<IngestOutcome, StoreError>)
        requires
            old(self).wf(),
            content_addressed(*old(self)),
            old(chain).metadata.wf(),
            backups_wf(others@),
            config.valid(),
        ensures
            r matches Ok(out) ==> ingest_ok(
                *old(self),
                *final(self),
                *old(chain),
                *final(chain),
                others@,
                out,
            ),
            r matches Ok(out) ==> {
                let e = final(self).entries@.last();
                &&& e.target_hint@ == target_hint@
                &&& e.logical_path@ == logical_path@
                &&& e.tar_member is None
            },
            r matches Ok(out) ==> (!out.reused ==> (out.payload_to_store matches Some(p) && (
            final(self).blobs.spec_get(out.blob_id@) matches Some(b) && fresh_dir_blob_ok(
                b,
                p@,
                dirs@,
                files@,
            ) && b.integrity_ok()))),
            r is Ok <==> clean_dir_inputs(dirs@, files@),
            r matches Ok(out) ==> exists|p: Seq<u8>|
                out.content_hash@ == sha256_hex_of(p) && ((#[trigger] zstd_decode_of(p))
                    matches Some(t) && tar_items_of(t) == Some(
                    dir_items(dirs@) + file_items(files@),
                )),
            r is Err ==> *final(self) == *old(self) && *final(chain) == *old(chain),
            r matches Err(e) ==> e == StoreError::Pack,
    {
        let tar_bytes = match pack_dir(dirs, files) {
            Ok(t) => t,
            Err(e) => {
                return Err(e);
            },
        };
        let compressed = match compress_payload(tar_bytes.as_slice(), config) {
            Ok(c) => c,
            Err(_) => {
                proof {
                    assert(false);
                }
                return Err(StoreError::Compression);
            },
        };
        let content_hash = sha256_hex(compressed.as_slice());

        let ghost payload = compressed@;
        let r = self.ingest_payload(
            chain,
            others,
            compressed,
            content_hash,
            logical_path,
            target_hint,
            None,
        );
        proof {
            match &r {
                Ok(out) => {
                    assert(out.content_hash@ == sha256_hex_of(payload) && (zstd_decode_of(payload)
                        matches Some(t) && tar_items_of(t) == Some(
                        dir_items(dirs@) + file_items(files@),
                    )));
                },
                Err(_) => {},
            }
        }
        r
    }

    /// The shared tail of ingest: reuse a stored blob with this content
    /// hash, or store and chain a fresh one; then record the entry.
    fn ingest_payload(
        &mut self,
        chain: &mut BlobChainManager,
        others: &Vec<Manifest>,
        compressed: Vec<u8>,
        content_hash: String,
        logical_path: &str,
        target_hint: &str,
        tar_member: Option<String>,
    ) -> (r: Result<IngestOutcome, StoreError>)
        requires
            old(self).wf(),
            content_addressed(*old(self)),
            old(chain).metadata.wf(),
            backups_wf(others@),
            content_hash@ == sha256_hex_of(compressed@),
        ensures
            r is Ok,
            r matches Ok(out) ==> ingest_ok(
                *old(self),
                *final(self),
                *old(chain),
                *final(chain),
                others@,
                out,
            ),
            r matches Ok(out) ==> out.content_hash@ == content_hash@,
            r matches Ok(out) ==> {
                let e = final(self).entries@.last();
                &&& e.target_hint@ == target_hint@
                &&& e.logical_path@ == logical_path@
                &&& crate::text::opt_view(e.tar_member) == crate::text::opt_view(tar_member)
            },
            r matches Ok(out) ==> (!out.reused ==> (out.payload_to_store matches Some(p) && p@
                == compressed@ && (final(self).blobs.spec_get(out.blob_id@) matches Some(b)
                && b.holds_payload(p@) && b.format@ == "tar.zst"@ && b.integrity_ok()))),
    {
        match self.dedup_lookup(content_hash.as_str(), others) {
            Some((existing_id, existing_blob)) => {
                // Reuse: embed the stored blob and point the entry at it.
                // The blob chain is not extended; the blob was chained in
                // its originating snapshot.
                self.add_blob_for_testing(existing_id.clone(), existing_blob);
                let entry = Entry {
                    blob_id: existing_id.clone(),
                    target_hint: String::from_str(target_hint),
                    logical_path: String::from_str(logical_path),
                    tar_member,
                };
                self.add_entry(entry);
                proof {
                    assert(self.entries@.drop_last() =~= old(self).entries@);
                    lemma_items_content_addressed_insert(
                        old(self).blobs.view_items(),
                        self.blobs.view_items(),
                    );
                }
                Ok(IngestOutcome {
                    blob_id: existing_id,
                    content_hash,
                    reused: true,
                    payload_to_store: None,
                })
            },
            None => {
                let mut blob = BlobPayload::new(
                    String::from_str("tar.zst"),
                    compressed.as_slice(),
                );
                match chain.add_blob_to_chain(content_hash.as_str(), &mut blob) {
                    Ok(()) => {},
                    Err(_) => {
                        proof {
                            assert(false);
                        }
                        return Err(StoreError::IntegrityViolation);
                    },
                }
                self.add_blob_for_testing(content_hash.clone(), blob);
                let entry = Entry {
                    blob_id: content_hash.clone(),
                    target_hint: String::from_str(target_hint),
                    logical_path: String::from_str(logical_path),
                    tar_member,
                };
                self.add_entry(entry);
                proof {
                    assert(self.entries@.drop_last() =~= old(self).entries@);
                    lemma_items_content_addressed_insert(
                        old(self).blobs.view_items(),
                        self.blobs.view_items(),
                    );
                }
                Ok(IngestOutcome {
                    blob_id: content_hash.clone(),
                    content_hash,
                    reused: false,
                    payload_to_store: Some(compressed),
                })
            },
        }
    }

    /// Ingest one file as the batch pipeline does.  The size-adaptive and
    /// chunked compression choices live in the compression layer, so this
    /// is the single-file pipeline applied to one batch item.
    pub fn create_single_file_blob_optimized(
        &mut self,
        chain: &mut BlobChainManager,
        config: &PerformanceConfig,
        others: &Vec<Manifest>,
        file: &FileInput,
    ) -> (r: Result<IngestOutcome, StoreError>)
        requires
            old(self).wf(),
            content_addressed(*old(self)),
            old(chain).metadata.wf(),
            backups_wf(others@),
            config.valid(),
        ensures
            r matches Ok(out) ==> ingest_ok(
                *old(self),
                *final(self),
                *old(chain),
                *final(chain),
                others@,
                out,
            ),
            r is Ok <==> clean_tar_path(str_bytes(file.name@)),
            r is Err ==> *final(self) == *old(self) && *final(chain) == *old(chain),
            r matches Err(e) ==> e == StoreError::Pack,
    {
        self.create_blob_from_file(
            chain,
            config,
            others,
            file.name.as_str(),
            file.logical_path.as_str(),
            file.data.as_slice(),
            file.target_hint.as_str(),
        )
    }

    /// Ingest a batch of files in order.  A failing file aborts the batch;
    /// the files before it stay ingested.
    pub fn create_blobs_from_files_batch(
        &mut self,
        chain: &mut BlobChainManager,
        config: &PerformanceConfig,
        others: &Vec<Manifest>,
        files: &Vec<FileInput>,
        metrics: &mut PerformanceMetrics,
    ) -> (r: Result<Vec<IngestOutcome>, StoreError>)
        requires
            old(self).wf(),
            content_addressed(*old(self)),
            old(chain).metadata.wf(),
            backups_wf(others@),
            config.valid(),
        ensures
            final(self).wf(),
            content_addressed(*final(self)),
            final(chain).metadata.wf(),
            r is Ok <==> (forall|i: int|
                0 <= i < files@.len() ==> clean_tar_path(
                    str_bytes((#[trigger] files@[i]).name@),
                )),
            r matches Ok(outs) ==> outs@.len() == files@.len() && final(self).entries@.len()
                == old(self).entries@.len() + files@.len(),
            r matches Err(e) ==> e == StoreError::Pack,
    {
        let mut outcomes: Vec<IngestOutcome> = Vec::new();
        let n = files.len();
        let mut i: usize = 0;
        while i < n
            invariant
                n == files@.len(),
                i <= n,
                outcomes@.len() == i,
                forall|k: int|
                    0 <= k < i ==> clean_tar_path(str_bytes((#[trigger] files@[k]).name@)),
                self.entries@.len() == old(self).entries@.len() + i,
                self.wf(),
                content_addressed(*self),
                chain.metadata.wf(),
                backups_wf(others@),
                config.valid(),
            decreases n - i,
        {
            let out = match self.create_single_file_blob_optimized(
                chain,
                config,
                others,
                &files[i],
            ) {
                Ok(out) => out,
                Err(e) => {
                    return Err(e);
                },
            };
            metrics.add_file_processed();
            if out.reused {
                metrics.add_dedup_save();
            }
            outcomes.push(out);
            i += 1;
        }
        Ok(outcomes)
    }

    /// Restore a batch of entries to contents, in order.  One entry
    /// failing aborts the whole restore.
    pub fn restore_blobs_batch(&self, entries: &Vec<Entry>) -> (r: Result<
        Vec<RestoredContent>,
        StoreError,
    >)
        ensures
            r matches Ok(contents) ==> contents@.len() == entries@.len() && (forall|i: int|
                0 <= i < entries@.len() ==> spec_restore_entry(*self, #[trigger] entries@[i])
                    == Ok::<RestoredValue, StoreError>(restored_view(contents@[i]))),
            r matches Err(e) ==> exists|i: int|
                0 <= i < entries@.len() && spec_restore_entry(*self, #[trigger] entries@[i])
                    == Err::<RestoredValue, StoreError>(e),
    {
        let mut contents: Vec<RestoredContent> = Vec::new();
        let n = entries.len();
        let mut i: usize = 0;
        while i < n
            invariant
                n == entries@.len(),
                i <= n,
                contents@.len() == i,
                forall|k: int|
                    0 <= k < i ==> spec_restore_entry(*self, #[trigger] entries@[k]) == Ok::<
                        RestoredValue,
                        StoreError,
                    >(restored_view(contents@[k])),
            decreases n - i,
        {
            match self.restore_blob_to(&entries[i]) {
                Ok(c) => contents.push(c),
                Err(e) => {
                    return Err(e);
                },
            }
            i += 1;
        }
        Ok(contents)
    }

    /// Check this manifest's blobs against its snapshot's blob chain.
    pub fn verify_blob_chain_integrity(&self, chain: &BlobChainManager) -> (r: Result<
        bool,
        StoreError,
    >)
        requires
            chain.metadata.wf(),
        ensures
            r matches Ok(b) && b == crate::chain::spec_chain_verifies(chain.metadata, self.blobs),
    {
        chain.verify_blob_chain(&self.blobs)
    }

    /// Restore one entry to bytes: locate its blob, decode the payload,
    /// decompress when the format asks for it, and extract the named tar
    /// member — or the whole tree when no member is named.
    pub fn restore_blob_to(&self, entry: &Entry) -> (r: Result<RestoredContent, StoreError>)
        ensures
            r matches Ok(c) ==> spec_restore_entry(*self, *entry) == Ok::<
                RestoredValue,
                StoreError,
            >(restored_view(c)),
            r matches Err(e) ==> spec_restore_entry(*self, *entry) == Err::<
                RestoredValue,
                StoreError,
            >(e),
    {
        let blob = match self.blobs.get(entry.blob_id.as_str()) {
            Some(b) => b,
            None => {
                return Err(StoreError::MissingBlob);
            },
        };

        let raw = match blob.decode() {
            Ok(d) => d,
            Err(e) => {
                return Err(e);
            },
        };

        let tar_bytes: Vec<u8> = if str_eq(blob.get_format(), "tar") {
            raw
        } else if str_eq(blob.get_format(), "tar.zst") {
            match decompress_payload(raw.as_slice()) {
                Ok(t) => t,
                Err(e) => {
                    return Err(e);
                },
            }
        } else {
            return Err(StoreError::UnknownFormat);
        };

        let items = match tar_list(tar_bytes.as_slice()) {
            Ok(items) => items,
            Err(e) => {
                return Err(e);
            },
        };

        match &entry.tar_member {
            Some(member) => match find_member(&items, member.as_str()) {
                Some(d) => Ok(RestoredContent::File(d)),
                None => Err(StoreError::MemberNotFound),
            },
            None => Ok(RestoredContent::Tree(items)),
        }
    }
}

/// Inserting a blob under its own hash keeps the table content-addressed:
/// every binding either stood before or is the self-keyed new one.
proof fn lemma_items_content_addressed_insert(
    before: Seq<(String, BlobPayload)>,
    after: Seq<(String, BlobPayload)>,
)
    requires
        forall|i: int| 0 <= i < before.len() ==> #[trigger] before[i].0@ == before[i].1.sha256@,
        forall|i: int|
            0 <= i < after.len() ==> (0 <= i < before.len() && #[trigger] after[i] == before[i])
                || after[i].0@ == after[i].1.sha256@,
    ensures
        forall|i: int| 0 <= i < after.len() ==> #[trigger] after[i].0@ == after[i].1.sha256@,
{
    assert forall|i: int| 0 <= i < after.len() implies #[trigger] after[i].0@
        == after[i].1.sha256@ by {
        if 0 <= i < before.len() && after[i] == before[i] {
            assert(before[i].0@ == before[i].1.sha256@);
        }
    }
}

} // verus!
