//! The manifest's blob table: blob payloads keyed by their blob id.
//!
//! The table is an association vector with unique keys; a lookup finds the
//! one binding a key has.

use crate::blob::BlobPayload;
use crate::text::str_eq;
use vstd::prelude::*;

verus! {

/// The first binding of `id` among `items`, if any.
pub open spec fn table_get(items: Seq<(String, BlobPayload)>, id: Seq<char>) -> Option<
    BlobPayload,
>
    decreases items.len(),
{
    if items.len() == 0 {
        None
    } else if items[0].0@ == id {
        Some(items[0].1)
    } else {
        table_get(items.drop_first(), id)
    }
}

/// No two bindings share a key.
pub open spec fn keys_unique(items: Seq<(String, BlobPayload)>) -> bool {
    forall|i: int, j: int| 0 <= i < j < items.len() ==> items[i].0@ != items[j].0@
}

/// Looking a key up skips every binding with a different key.
pub proof fn lemma_table_get_skip(items: Seq<(String, BlobPayload)>, id: Seq<char>, n: int)
    requires
        0 <= n <= items.len(),
        forall|j: int| 0 <= j < n ==> items[j].0@ != id,
    ensures
        table_get(items, id) == table_get(items.skip(n), id),
    decreases n,
{
    if n == 0 {
        assert(items.skip(0) =~= items);
    } else {
        assert(items[0].0@ != id);
        assert forall|j: int| 0 <= j < n - 1 implies #[trigger] items.drop_first()[j].0@ != id by {
            assert(items.drop_first()[j] == items[j + 1]);
        }
        lemma_table_get_skip(items.drop_first(), id, n - 1);
        assert(items.drop_first().skip(n - 1) =~= items.skip(n));
    }
}

/// A pushed binding is found under its key when the key was unbound, and
/// leaves every other lookup as it was.
pub proof fn lemma_table_get_push(
    items: Seq<(String, BlobPayload)>,
    entry: (String, BlobPayload),
    id: Seq<char>,
)
    ensures
        table_get(items, id) is Some ==> table_get(items.push(entry), id) == table_get(items, id),
        table_get(items, id) is None && entry.0@ == id ==> table_get(items.push(entry), id)
            == Some(entry.1),
        table_get(items, id) is None && entry.0@ != id ==> table_get(items.push(entry), id)
            is None,
    decreases items.len(),
{
    if items.len() == 0 {
        assert(items.push(entry)[0] == entry);
        assert(items.push(entry).drop_first() =~= Seq::<(String, BlobPayload)>::empty());
        assert(table_get(Seq::<(String, BlobPayload)>::empty(), id) is None);
    } else {
        lemma_table_get_push(items.drop_first(), entry, id);
        assert(items.push(entry)[0] == items[0]);
        assert(items.push(entry).drop_first() =~= items.drop_first().push(entry));
        if items[0].0@ == id {
            assert(table_get(items, id) == Some(items[0].1));
            assert(table_get(items.push(entry), id) == Some(items[0].1));
        } else {
            assert(table_get(items.push(entry), id) == table_get(
                items.drop_first().push(entry),
                id,
            ));
            assert(table_get(items, id) == table_get(items.drop_first(), id));
        }
    }
}

/// Replacing the binding at a position under the same key changes the
/// lookup of that key alone.
pub proof fn lemma_table_get_update(
    items: Seq<(String, BlobPayload)>,
    n: int,
    entry: (String, BlobPayload),
    id: Seq<char>,
)
    requires
        0 <= n < items.len(),
        forall|j: int| 0 <= j < n ==> items[j].0@ != items[n].0@,
        entry.0@ == items[n].0@,
    ensures
        id == entry.0@ ==> table_get(items.update(n, entry), id) == Some(entry.1),
        id != entry.0@ ==> table_get(items.update(n, entry), id) == table_get(items, id),
    decreases n,
{
    let updated = items.update(n, entry);
    if n == 0 {
        assert(updated[0] == entry);
        assert(updated.drop_first() =~= items.drop_first());
    } else {
        assert(updated[0] == items[0]);
        assert(updated.drop_first() =~= items.drop_first().update(n - 1, entry));
        assert forall|j: int| 0 <= j < n - 1 implies #[trigger] items.drop_first()[j].0@
            != items.drop_first()[n - 1].0@ by {
            assert(items.drop_first()[j] == items[j + 1]);
            assert(items.drop_first()[n - 1] == items[n]);
        }
        lemma_table_get_update(items.drop_first(), n - 1, entry, id);
    }
}

/// Under unique keys, the lookup of the key at a position finds that
/// position's payload.
pub proof fn lemma_table_get_at(items: Seq<(String, BlobPayload)>, i: int)
    requires
        keys_unique(items),
        0 <= i < items.len(),
    ensures
        table_get(items, items[i].0@) == Some(items[i].1),
{
    lemma_table_get_skip(items, items[i].0@, i);
    assert(items.skip(i)[0] == items[i]);
}

/// A lookup that succeeds names a position holding the key.
pub proof fn lemma_table_get_index(items: Seq<(String, BlobPayload)>, id: Seq<char>)
    requires
        table_get(items, id) is Some,
    ensures
        exists|i: int|
            0 <= i < items.len() && #[trigger] items[i].0@ == id && table_get(items, id) == Some(
                items[i].1,
            ),
    decreases items.len(),
{
    if items[0].0@ == id {
        assert(items[0].0@ == id && table_get(items, id) == Some(items[0].1));
    } else {
        lemma_table_get_index(items.drop_first(), id);
        let i = choose|i: int|
            0 <= i < items.drop_first().len() && #[trigger] items.drop_first()[i].0@ == id
                && table_get(items.drop_first(), id) == Some(items.drop_first()[i].1);
        assert(items[i + 1] == items.drop_first()[i]);
        assert(items[i + 1].0@ == id && table_get(items, id) == Some(items[i + 1].1));
    }
}

/// How an insertion reshapes the bindings: every binding either kept its
/// position and value, or is the new binding.
pub open spec fn insert_shape(
    before: Seq<(String, BlobPayload)>,
    after: Seq<(String, BlobPayload)>,
    id: Seq<char>,
    blob: BlobPayload,
) -> bool {
    forall|i: int|
        #![trigger after[i]]
        0 <= i < after.len() ==> (0 <= i < before.len() && after[i] == before[i]) || (after[i].0@
            == id && after[i].1 == blob)
}

/// Blob payloads keyed by blob id, with each id bound at most once.
#[derive(Debug, Clone)]
pub struct BlobTable {
    pub items: Vec<(String, BlobPayload)>,
}

impl BlobTable {
    /// The bindings, in insertion order.
    pub open spec fn view_items(self) -> Seq<(String, BlobPayload)> {
        self.items@
    }

    /// Every key bound at most once.
    pub open spec fn wf(self) -> bool {
        keys_unique(self.items@)
    }

    /// The payload bound to `id`, if any.
    pub open spec fn spec_get(self, id: Seq<char>) -> Option<BlobPayload> {
        table_get(self.items@, id)
    }

    /// Whether `id` is bound.
    pub open spec fn spec_contains(self, id: Seq<char>) -> bool {
        self.spec_get(id) is Some
    }

    /// An empty table.
    pub fn new() -> (r: BlobTable)
        ensures
            r.wf(),
            r.view_items() =~= Seq::<(String, BlobPayload)>::empty(),
    {
        BlobTable { items: Vec::new() }
    }

    /// How many blob ids are bound.
    pub fn len(&self) -> (r: usize)
        ensures
            r == self.view_items().len(),
    {
        self.items.len()
    }

    /// The binding at a position, for walking the table.
    pub fn item_at(&self, i: usize) -> (r: (&String, &BlobPayload))
        requires
            i < self.view_items().len(),
        ensures
            r.0@ == self.view_items()[i as int].0@,
            *r.1 == self.view_items()[i as int].1,
    {
        let pair = &self.items[i];
        (&pair.0, &pair.1)
    }

    /// The payload bound to `id`, if any.
    pub fn get(&self, id: &str) -> (r: Option<&BlobPayload>)
        ensures
            match r {
                Some(b) => self.spec_get(id@) == Some(*b),
                None => self.spec_get(id@) is None,
            },
    {
        let n = self.items.len();
        let mut i: usize = 0;
        while i < n
            invariant
                n == self.items@.len(),
                i <= n,
                forall|j: int| 0 <= j < i ==> self.items@[j].0@ != id@,
            decreases n - i,
        {
            if str_eq(self.items[i].0.as_str(), id) {
                proof {
                    lemma_table_get_skip(self.items@, id@, i as int);
                    assert(self.items@.skip(i as int)[0] == self.items@[i as int]);
                }
                return Some(&self.items[i].1);
            }
            i += 1;
        }
        proof {
            lemma_table_get_skip(self.items@, id@, n as int);
            assert(self.items@.skip(n as int) =~= Seq::<(String, BlobPayload)>::empty());
        }
        None
    }

    /// Whether `id` is bound.
    pub fn contains(&self, id: &str) -> (r: bool)
        ensures
            r == self.spec_contains(id@),
    {
        match self.get(id) {
            Some(_) => true,
            None => false,
        }
    }

    /// Bind `id` to `blob`, replacing any previous binding of `id` and
    /// leaving every other binding as it was.
    pub fn insert(&mut self, id: String, blob: BlobPayload)
        requires
            old(self).wf(),
        ensures
            final(self).wf(),
            final(self).spec_get(id@) == Some(blob),
            forall|other: Seq<char>|
                other != id@ ==> #[trigger] final(self).spec_get(other) == old(self).spec_get(
                    other,
                ),
            old(self).spec_contains(id@) ==> final(self).view_items().len() == old(
                self,
            ).view_items().len(),
            !old(self).spec_contains(id@) ==> final(self).view_items().len() == old(
                self,
            ).view_items().len() + 1,
            insert_shape(old(self).view_items(), final(self).view_items(), id@, blob),
    {
        let ghost idv = id@;
        let n = self.items.len();
        let mut i: usize = 0;
        while i < n
            invariant
                self.items@ == old(self).items@,
                old(self).wf(),
                idv == id@,
                n == self.items@.len(),
                i <= n,
                forall|j: int| 0 <= j < i ==> self.items@[j].0@ != idv,
            decreases n - i,
        {
            if str_eq(self.items[i].0.as_str(), id.as_str()) {
                proof {
                    lemma_table_get_skip(self.items@, idv, i as int);
                    assert(self.items@.skip(i as int)[0] == self.items@[i as int]);
                }
                let ghost prior = self.items@;
                self.items.set(i, (id, blob));
                proof {
                    let entry = self.items@[i as int];
                    assert(self.items@ =~= prior.update(i as int, entry));
                    assert(entry.0@ == prior[i as int].0@);
                    lemma_table_get_update(prior, i as int, entry, idv);
                    assert forall|other: Seq<char>| other != idv implies #[trigger] table_get(
                        self.items@,
                        other,
                    ) == table_get(prior, other) by {
                        lemma_table_get_update(prior, i as int, entry, other);
                    }
                    assert forall|a: int, b: int|
                        0 <= a < b < self.items@.len() implies self.items@[a].0@
                        != self.items@[b].0@ by {
                        assert(self.items@[a].0@ == prior[a].0@);
                        assert(self.items@[b].0@ == prior[b].0@);
                    }
                }
                return ;
            }
            i += 1;
        }
        proof {
            lemma_table_get_skip(self.items@, idv, n as int);
            assert(self.items@.skip(n as int) =~= Seq::<(String, BlobPayload)>::empty());
        }
        let ghost prior = self.items@;
        self.items.push((id, blob));
        proof {
            let entry = self.items@[n as int];
            assert(self.items@ =~= prior.push(entry));
            assert(entry.0@ == idv);
            lemma_table_get_push(prior, entry, idv);
            assert forall|other: Seq<char>| other != idv implies #[trigger] table_get(
                self.items@,
                other,
            ) == table_get(prior, other) by {
                lemma_table_get_push(prior, entry, other);
            }
            assert forall|a: int, b: int|
                0 <= a < b < self.items@.len() implies self.items@[a].0@ != self.items@[b].0@ by {
                if b < n as int {
                    assert(self.items@[a] == prior[a]);
                    assert(self.items@[b] == prior[b]);
                } else {
                    assert(self.items@[b].0@ == idv);
                    assert(self.items@[a] == prior[a]);
                    if prior[a].0@ == idv {
                        lemma_table_get_skip(prior, idv, a);
                        assert(prior.skip(a)[0] == prior[a]);
                    }
                }
            }
        }
    }
}

} // verus!
