//! The snapshot chain across a whole store: walking a chain of manifests
//! back to its genesis snapshot and verifying every link.

use crate::errors::StoreError;
use crate::manifest::{backup_integrity_ok, spec_backup_chain_hash, Manifest};
use crate::text::{opt_view, str_eq, string_eq};
use vstd::prelude::*;
use vstd::set_lib::lemma_len_subset;

verus! {

/// Snapshot names are unique within the store.
pub open spec fn store_names_unique(ms: Seq<Manifest>) -> bool {
    forall|i: int, j: int| 0 <= i < j < ms.len() ==> ms[i].name@ != ms[j].name@
}

/// The store is one linear chain `ms[0] -> ms[1] -> ... `, as the save
/// pipeline builds it: every manifest finalized, the first a genesis
/// snapshot, every later one linked to the chain hash of the one before
/// it, and no two snapshots sharing a chain hash.
pub open spec fn linear_chain(ms: Seq<Manifest>) -> bool {
    &&& ms.len() > 0
    &&& forall|i: int| 0 <= i < ms.len() ==> backup_integrity_ok(#[trigger] ms[i])
    &&& ms[0].previous_backup_hash is None
    &&& forall|i: int|
        0 < i < ms.len() ==> opt_view((#[trigger] ms[i]).previous_backup_hash) == Some(
            spec_backup_chain_hash(ms[i - 1]),
        )
    &&& forall|i: int, j: int|
        0 <= i < j < ms.len() ==> spec_backup_chain_hash(ms[i]) != spec_backup_chain_hash(ms[j])
}

/// The index of the snapshot with this name, if the store holds one.
pub fn find_index_by_name(manifests: &Vec<Manifest>, name: &str) -> (r: Option<usize>)
    ensures
        r matches Some(k) ==> k < manifests@.len() && manifests@[k as int].name@ == name@,
        r is None ==> forall|j: int|
            0 <= j < manifests@.len() ==> (#[trigger] manifests@[j]).name@ != name@,
{
    let n = manifests.len();
    let mut k: usize = 0;
    while k < n
        invariant
            n == manifests@.len(),
            k <= n,
            forall|j: int| 0 <= j < k ==> (#[trigger] manifests@[j]).name@ != name@,
        decreases n - k,
    {
        if str_eq(manifests[k].name.as_str(), name) {
            return Some(k);
        }
        k += 1;
    }
    None
}

/// The index of the first snapshot whose chain hash equals `hash`.
fn find_index_by_chain_hash(manifests: &Vec<Manifest>, hash: &str) -> (r: Option<usize>)
    ensures
        r matches Some(k) ==> k < manifests@.len() && opt_view(
            manifests@[k as int].backup_chain_hash,
        ) == Some(hash@),
        r is None ==> forall|j: int|
            0 <= j < manifests@.len() ==> opt_view((#[trigger] manifests@[j]).backup_chain_hash)
                != Some(hash@),
{
    let n = manifests.len();
    let mut k: usize = 0;
    while k < n
        invariant
            n == manifests@.len(),
            k <= n,
            forall|j: int|
                0 <= j < k ==> opt_view((#[trigger] manifests@[j]).backup_chain_hash) != Some(
                    hash@,
                ),
        decreases n - k,
    {
        match &manifests[k].backup_chain_hash {
            Some(h) => {
                if str_eq(h.as_str(), hash) {
                    return Some(k);
                }
            },
            None => {},
        }
        k += 1;
    }
    None
}

/// Whether one of the names equals `name`.
fn contains_name(names: &Vec<String>, name: &String) -> (r: bool)
    ensures
        r == exists|i: int| 0 <= i < names@.len() && (#[trigger] names@[i])@ == name@,
{
    let n = names.len();
    let mut k: usize = 0;
    while k < n
        invariant
            n == names@.len(),
            k <= n,
            forall|j: int| 0 <= j < k ==> (#[trigger] names@[j])@ != name@,
        decreases n - k,
    {
        if string_eq(&names[k], name) {
            proof {
                assert((names@[k as int])@ == name@);
            }
            return true;
        }
        k += 1;
    }
    false
}

/// Distinct names all drawn from a store with unique names are no more
/// numerous than the store.
proof fn lemma_visited_bounded(visited: Seq<Seq<char>>, ms: Seq<Manifest>)
    requires
        forall|i: int, j: int|
            0 <= i < j < visited.len() ==> #[trigger] visited[i] != #[trigger] visited[j],
        forall|i: int|
            0 <= i < visited.len() ==> exists|j: int|
                0 <= j < ms.len() && (#[trigger] ms[j]).name@ == #[trigger] visited[i],
    ensures
        visited.len() <= ms.len(),
{
    broadcast use vstd::set::group_set_axioms;
    broadcast use vstd::seq_lib::seq_to_set_is_finite;

    let names = ms.map_values(|m: Manifest| m.name@);
    assert(visited.no_duplicates());
    visited.unique_seq_to_set();
    names.lemma_cardinality_of_set();
    assert forall|x: Seq<char>| visited.to_set().contains(x) implies names.to_set().contains(
        x,
    ) by {
        let i = choose|i: int| 0 <= i < visited.len() && visited[i] == x;
        let j = choose|j: int| 0 <= j < ms.len() && (#[trigger] ms[j]).name@ == visited[i];
        assert(names[j] == x);
        assert(names.to_set().contains(names[j]));
    }
    lemma_len_subset(visited.to_set(), names.to_set());
}

/// Walk the snapshot chain from the named snapshot back to its genesis,
/// verifying each manifest's integrity and resolving each previous link
/// by chain hash.  A link that resolves nowhere is a broken chain; a walk
/// that revisits a snapshot is a cycle.
///
/// For a store that is one linear chain built by the save pipeline, the
/// walk from the last snapshot verifies the whole history.
pub fn verify_chain_from(start_name: &str, manifests: &Vec<Manifest>) -> (r: Result<
    bool,
    StoreError,
>)
    requires
        store_names_unique(manifests@),
    ensures
        (forall|j: int| 0 <= j < manifests@.len() ==> (#[trigger] manifests@[j]).name@ != start_name@)
            ==> r == Err::<bool, StoreError>(StoreError::BrokenChain),
        r matches Err(e) ==> e == StoreError::BrokenChain || e == StoreError::Cycle,
        r == Err::<bool, StoreError>(StoreError::BrokenChain) ==> (forall|j: int|
            0 <= j < manifests@.len() ==> (#[trigger] manifests@[j]).name@ != start_name@) || (
        exists|c: int|
            0 <= c < manifests@.len() && ((#[trigger] manifests@[c]).previous_backup_hash
                matches Some(p) && (forall|j: int|
                0 <= j < manifests@.len() ==> opt_view(
                    (#[trigger] manifests@[j]).backup_chain_hash,
                ) != Some(p@)))),
        r == Ok::<bool, StoreError>(true) ==> exists|j: int|
            0 <= j < manifests@.len() && (#[trigger] manifests@[j]).previous_backup_hash is None
                && backup_integrity_ok(manifests@[j]),
        r == Ok::<bool, StoreError>(false) ==> exists|j: int|
            0 <= j < manifests@.len() && !backup_integrity_ok(#[trigger] manifests@[j]),
        linear_chain(manifests@) && start_name@ == manifests@.last().name@ ==> r == Ok::<
            bool,
            StoreError,
        >(true),
{
    let ghost ms = manifests@;
    let ghost linear = linear_chain(ms) && start_name@ == ms.last().name@;
    let n = manifests.len();

    let mut cur: usize = match find_index_by_name(manifests, start_name) {
        Some(k) => k,
        None => {
            return Err(StoreError::BrokenChain);
        },
    };
    proof {
        if linear {
            if cur < n - 1 {
                assert(ms[cur as int].name@ == ms[n - 1].name@);
                assert(false);
            }
        }
    }
    let mut visited: Vec<String> = Vec::new();

    loop
        invariant
            store_names_unique(ms),
            ms == manifests@,
            n == ms.len(),
            cur < n,
            exists|j: int| 0 <= j < ms.len() && (#[trigger] ms[j]).name@ == start_name@,
            forall|i: int, j: int|
                0 <= i < j < visited@.len() ==> (#[trigger] visited@[i])@ != (
                #[trigger] visited@[j])@,
            forall|i: int|
                0 <= i < visited@.len() ==> exists|j: int|
                    0 <= j < ms.len() && (#[trigger] ms[j]).name@ == (#[trigger] visited@[i])@,
            forall|i: int| 0 <= i < visited@.len() ==> (#[trigger] visited@[i])@ != ms[cur as int].name@,
            linear == (linear_chain(ms) && start_name@ == ms.last().name@),
            linear ==> cur as int == n - 1 - visited@.len(),
            linear ==> forall|i: int|
                0 <= i < visited@.len() ==> (#[trigger] visited@[i])@ == ms[n - 1 - i].name@,
        decreases n - visited@.len(),
    {
        let m = &manifests[cur];

        let intact = match m.verify_backup_integrity() {
            Ok(b) => b,
            Err(e) => {
                proof {
                    assert(false);
                }
                return Err(e);
            },
        };
        if !intact {
            proof {
                if linear {
                    assert(backup_integrity_ok(ms[cur as int]));
                    assert(false);
                }
            }
            return Ok(false);
        }

        let prev = match &m.previous_backup_hash {
            None => {
                return Ok(true);
            },
            Some(p) => p,
        };

        proof {
            if linear && cur == 0 {
                assert(ms[0].previous_backup_hash is Some);
                assert(false);
            }
        }

        let ghost visited_before = visited@;
        visited.push(m.name.clone());
        proof {
            assert forall|i: int, j: int|
                0 <= i < j < visited@.len() implies (#[trigger] visited@[i])@ != (
            #[trigger] visited@[j])@ by {
                if j < visited_before.len() {
                    assert(visited@[i] == visited_before[i]);
                    assert(visited@[j] == visited_before[j]);
                } else {
                    assert((visited@[j])@ == ms[cur as int].name@);
                    assert(visited@[i] == visited_before[i]);
                }
            }
            assert forall|i: int| 0 <= i < visited@.len() implies exists|j: int|
                0 <= j < ms.len() && (#[trigger] ms[j]).name@ == (#[trigger] visited@[i])@ by {
                if i < visited_before.len() {
                    assert(visited@[i] == visited_before[i]);
                } else {
                    assert((visited@[i])@ == ms[cur as int].name@);
                }
            }
            lemma_visited_bounded(visited@.map_values(|s: String| s@), ms);
            assert(visited@.map_values(|s: String| s@).len() == visited@.len());
            if linear {
                assert forall|i: int|
                    0 <= i < visited@.len() implies (#[trigger] visited@[i])@ == ms[n - 1
                    - i].name@ by {
                    if i < visited_before.len() {
                        assert(visited@[i] == visited_before[i]);
                    } else {
                        assert((visited@[i])@ == ms[cur as int].name@);
                    }
                }
            }
        }

        let nxt = match find_index_by_chain_hash(manifests, prev.as_str()) {
            Some(k) => k,
            None => {
                proof {
                    if linear {
                        assert(opt_view(ms[cur as int].previous_backup_hash) == Some(
                            spec_backup_chain_hash(ms[cur as int - 1]),
                        ));
                        assert(prev@ == spec_backup_chain_hash(ms[cur as int - 1]));
                        assert(backup_integrity_ok(ms[cur as int - 1]));
                        assert(opt_view(ms[cur as int - 1].backup_chain_hash) == Some(prev@));
                        assert(false);
                    }
                    assert(ms[cur as int].previous_backup_hash matches Some(q) && (forall|j: int|
                        0 <= j < ms.len() ==> opt_view((#[trigger] ms[j]).backup_chain_hash)
                            != Some(q@)));
                }
                return Err(StoreError::BrokenChain);
            },
        };

        proof {
            if linear {
                // The chain hashes are pairwise distinct, so the resolved
                // index is the one just before the current snapshot.
                let nxti = nxt as int;
                let curi = cur as int;
                assert(opt_view(ms[nxti].backup_chain_hash) == Some(prev@));
                assert(backup_integrity_ok(ms[nxti]));
                assert(spec_backup_chain_hash(ms[nxti]) == prev@);
                assert(prev@ == spec_backup_chain_hash(ms[curi - 1]));
                if nxti != curi - 1 {
                    if nxti < curi - 1 {
                        assert(spec_backup_chain_hash(ms[nxti]) != spec_backup_chain_hash(
                            ms[curi - 1],
                        ));
                    } else {
                        assert(spec_backup_chain_hash(ms[curi - 1]) != spec_backup_chain_hash(
                            ms[nxti],
                        ));
                    }
                    assert(false);
                }
            }
        }

        if contains_name(&visited, &manifests[nxt].name) {
            proof {
                if linear {
                    // Every visited name belongs to a later position of the
                    // chain than the resolved one, and names are unique.
                    let i = choose|i: int|
                        0 <= i < visited@.len() && (#[trigger] visited@[i])@ == ms[nxt as int].name@;
                    assert((visited@[i])@ == ms[n - 1 - i].name@);
                    assert(n - 1 - i > nxt as int);
                    assert(ms[nxt as int].name@ != ms[n - 1 - i].name@);
                    assert(false);
                }
            }
            return Err(StoreError::Cycle);
        }

        cur = nxt;
    }
}

} // verus!
