//! Engine-level helpers: discovering the latest snapshot, summarizing a
//! chain, and describing a snapshot's place in the backup history.

use crate::canon::byte_le;
use crate::chain::BlobChainManager;
use crate::errors::StoreError;
use crate::manifest::{backup_integrity_ok, spec_backup_hash, Manifest};
use crate::text::{bytes_to_string, clone_opt_string, dec_chars, lemma_dec_chars_bytes,
    lemma_str_bytes_concat, lemma_str_bytes_injective, push_dec, push_str_bytes, str_bytes,
    str_eq};
use vstd::prelude::*;

verus! {

/// What a snapshot listing shows per snapshot.
#[derive(Debug, Clone)]
pub struct BackupInfo {
    pub name: String,
    pub created_at: String,
}

/// A snapshot's place in the backup history.
#[derive(Debug, Clone)]
pub struct BackupChainInfo {
    pub name: String,
    pub backup_hash: String,
    pub chain_hash: String,
    pub previous_backup_hash: Option<String>,
    pub is_integrity_valid: bool,
}

/// The listing of a store's snapshots, in the order given.
pub fn list_backups(manifests: &Vec<Manifest>) -> (r: Vec<BackupInfo>)
    ensures
        r@.len() == manifests@.len(),
        forall|i: int|
            0 <= i < r@.len() ==> (#[trigger] r@[i]).name@ == manifests@[i].name@
                && r@[i].created_at@ == manifests@[i].created_at@,
{
    let mut out: Vec<BackupInfo> = Vec::new();
    let n = manifests.len();
    let mut i: usize = 0;
    while i < n
        invariant
            n == manifests@.len(),
            i <= n,
            out@.len() == i,
            forall|j: int|
                0 <= j < i ==> (#[trigger] out@[j]).name@ == manifests@[j].name@
                    && out@[j].created_at@ == manifests@[j].created_at@,
        decreases n - i,
    {
        out.push(
            BackupInfo {
                name: manifests[i].name.clone(),
                created_at: manifests[i].created_at.clone(),
            },
        );
        i += 1;
    }
    out
}

/// The index of the latest snapshot: the one whose creation time orders
/// last, with the later listed one winning a tie.  RFC 3339 times from
/// one clock order chronologically as byte strings.
pub fn latest_backup_index(manifests: &Vec<Manifest>) -> (r: Option<usize>)
    ensures
        r is Some <==> manifests@.len() > 0,
        r matches Some(k) ==> k < manifests@.len() && forall|j: int|
            0 <= j < manifests@.len() ==> byte_le(
                str_bytes((#[trigger] manifests@[j]).created_at@),
                str_bytes(manifests@[k as int].created_at@),
            ),
{
    let n = manifests.len();
    if n == 0 {
        return None;
    }
    let mut best: usize = 0;
    proof {
        crate::canon::lemma_byte_le_total(
            str_bytes(manifests@[0].created_at@),
            str_bytes(manifests@[0].created_at@),
        );
    }
    let mut i: usize = 1;
    while i < n
        invariant
            n == manifests@.len(),
            1 <= i <= n,
            best < i,
            forall|j: int|
                0 <= j < i ==> byte_le(
                    str_bytes((#[trigger] manifests@[j]).created_at@),
                    str_bytes(manifests@[best as int].created_at@),
                ),
        decreases n - i,
    {
        let current = manifests[i].created_at.as_str().as_bytes_vec();
        let best_bytes = manifests[best].created_at.as_str().as_bytes_vec();
        if crate::canon::bytes_le(&best_bytes, &current) {
            proof {
                let cb = str_bytes(manifests@[i as int].created_at@);
                crate::canon::lemma_byte_le_total(cb, cb);
                assert forall|j: int|
                    0 <= j < i + 1 implies byte_le(
                    str_bytes((#[trigger] manifests@[j]).created_at@),
                    cb,
                ) by {
                    if j < i {
                        crate::canon::lemma_byte_le_transitive(
                            str_bytes(manifests@[j].created_at@),
                            str_bytes(manifests@[best as int].created_at@),
                            cb,
                        );
                    }
                }
            }
            best = i;
        } else {
            proof {
                crate::canon::lemma_byte_le_total(
                    str_bytes(manifests@[best as int].created_at@),
                    str_bytes(manifests@[i as int].created_at@),
                );
            }
        }
        i += 1;
    }
    Some(best)
}

/// A snapshot's chain record for the front end: its canonical hash, its
/// stored chain links, and whether the stored chain hash checks out.
pub fn get_backup_chain_info(m: &Manifest) -> (r: BackupChainInfo)
    ensures
        r.name@ == m.name@,
        r.backup_hash@ == spec_backup_hash(*m),
        m.backup_chain_hash matches Some(h) ==> r.chain_hash@ == h@,
        m.backup_chain_hash is None ==> r.chain_hash@.len() == 0,
        r.previous_backup_hash == m.previous_backup_hash,
        r.is_integrity_valid == backup_integrity_ok(*m),
{
    let backup_hash = m.calculate_backup_hash();
    let chain_hash = match &m.backup_chain_hash {
        Some(h) => h.clone(),
        None => String::new(),
    };
    let is_integrity_valid = match m.verify_backup_integrity() {
        Ok(b) => b,
        Err(_) => false,
    };
    BackupChainInfo {
        name: m.name.clone(),
        backup_hash,
        chain_hash,
        previous_backup_hash: clone_opt_string(&m.previous_backup_hash),
        is_integrity_valid,
    }
}

/// The first entry whose target hint matches, as restore resolves an
/// application to its entry.
pub fn find_entry_by_target_hint(m: &Manifest, hint: &str) -> (r: Option<usize>)
    ensures
        r matches Some(i) ==> i < m.entries@.len() && m.entries@[i as int].target_hint@ == hint@,
        r is None ==> forall|j: int|
            0 <= j < m.entries@.len() ==> (#[trigger] m.entries@[j]).target_hint@ != hint@,
{
    let n = m.entries.len();
    let mut i: usize = 0;
    while i < n
        invariant
            n == m.entries@.len(),
            i <= n,
            forall|j: int| 0 <= j < i ==> (#[trigger] m.entries@[j]).target_hint@ != hint@,
        decreases n - i,
    {
        if str_eq(m.entries[i].target_hint.as_str(), hint) {
            return Some(i);
        }
        i += 1;
    }
    None
}

/// A one-line summary of a snapshot's blob chain: how many blobs it
/// holds and its integrity hash.
pub fn get_blob_chain_info(chain: &BlobChainManager) -> (r: Result<String, StoreError>)
    ensures
        r matches Ok(s) && s@ == "Blob chain contains "@ + dec_chars(
            chain.metadata.chain_order@.len() as nat,
        ) + " blobs with integrity hash: "@ + chain.metadata.chain_integrity_hash@,
{
    let count = chain.metadata.chain_order.len();
    let mut out: Vec<u8> = Vec::new();
    push_str_bytes(&mut out, "Blob chain contains ");
    push_dec(&mut out, count as u64);
    push_str_bytes(&mut out, " blobs with integrity hash: ");
    push_str_bytes(&mut out, chain.metadata.chain_integrity_hash.as_str());
    let ghost message = "Blob chain contains "@ + dec_chars(count as nat)
        + " blobs with integrity hash: "@ + chain.metadata.chain_integrity_hash@;
    proof {
        lemma_dec_chars_bytes(count as nat);
        lemma_str_bytes_concat("Blob chain contains "@, dec_chars(count as nat));
        lemma_str_bytes_concat(
            "Blob chain contains "@ + dec_chars(count as nat),
            " blobs with integrity hash: "@,
        );
        lemma_str_bytes_concat(
            "Blob chain contains "@ + dec_chars(count as nat)
                + " blobs with integrity hash: "@,
            chain.metadata.chain_integrity_hash@,
        );
        assert(out@ =~= str_bytes(message));
        vstd::utf8::encode_utf8_valid_utf8(message);
    }
    match bytes_to_string(out) {
        Some(s) => {
            proof {
                lemma_str_bytes_injective(s@, message);
            }
            Ok(s)
        },
        None => {
            proof {
                assert(false);
            }
            Err(StoreError::Sidecar)
        },
    }
}

} // verus!
