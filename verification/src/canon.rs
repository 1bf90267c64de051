//! Canonical byte records: a total order on byte strings, a verified sort,
//! and length-prefixed concatenation.  The canonical backup hash is built
//! on these, which is what makes it independent of the order entries and
//! blobs happen to be listed in.

use crate::text::str_bytes;
use vstd::prelude::*;
use vstd::relations::{sorted_by, total_ordering};
use vstd::seq_lib::lemma_sorted_unique;
use vstd::multiset::Multiset;
use vstd::slice::slice_to_vec;

verus! {

/// Lexicographic order on byte strings, shorter prefix first.
pub open spec fn byte_le(a: Seq<u8>, b: Seq<u8>) -> bool
    decreases a.len(),
{
    if a.len() == 0 {
        true
    } else if b.len() == 0 {
        false
    } else if a[0] < b[0] {
        true
    } else if a[0] > b[0] {
        false
    } else {
        byte_le(a.drop_first(), b.drop_first())
    }
}

/// The order as a relation value, for sorting.
pub open spec fn byte_le_fn() -> spec_fn(Seq<u8>, Seq<u8>) -> bool {
    |a: Seq<u8>, b: Seq<u8>| byte_le(a, b)
}

/// Any two byte strings are comparable.
pub proof fn lemma_byte_le_total(a: Seq<u8>, b: Seq<u8>)
    ensures
        byte_le(a, b) || byte_le(b, a),
    decreases a.len(),
{
    if a.len() > 0 && b.len() > 0 && a[0] == b[0] {
        lemma_byte_le_total(a.drop_first(), b.drop_first());
    }
}

/// Byte strings ordered both ways are equal.
pub proof fn lemma_byte_le_antisymmetric(a: Seq<u8>, b: Seq<u8>)
    requires
        byte_le(a, b),
        byte_le(b, a),
    ensures
        a == b,
    decreases a.len(),
{
    if a.len() == 0 {
        assert(b.len() == 0);
        assert(a =~= b);
    } else {
        assert(b.len() > 0);
        assert(a[0] == b[0]);
        lemma_byte_le_antisymmetric(a.drop_first(), b.drop_first());
        assert(a.len() == b.len());
        assert forall|i: int| 0 <= i < a.len() implies a[i] == b[i] by {
            if i > 0 {
                assert(a.drop_first()[i - 1] == b.drop_first()[i - 1]);
            }
        }
        assert(a =~= b);
    }
}

/// The order is transitive.
pub proof fn lemma_byte_le_transitive(a: Seq<u8>, b: Seq<u8>, c: Seq<u8>)
    requires
        byte_le(a, b),
        byte_le(b, c),
    ensures
        byte_le(a, c),
    decreases a.len(),
{
    if a.len() > 0 {
        assert(b.len() > 0);
        assert(c.len() > 0);
        if a[0] == c[0] {
            assert(a[0] == b[0] && b[0] == c[0]);
            lemma_byte_le_transitive(a.drop_first(), b.drop_first(), c.drop_first());
        } else {
            assert(a[0] < c[0]);
        }
    }
}

/// The order is a total order, in the sense the sorting lemmas ask for.
pub proof fn lemma_byte_le_total_ordering()
    ensures
        total_ordering(byte_le_fn()),
{
    let leq = byte_le_fn();
    assert forall|a: Seq<u8>| #[trigger] leq(a, a) by {
        lemma_byte_le_total(a, a);
    }
    assert forall|a: Seq<u8>, b: Seq<u8>| #[trigger] leq(a, b) && #[trigger] leq(b, a) implies a
        == b by {
        lemma_byte_le_antisymmetric(a, b);
    }
    assert forall|a: Seq<u8>, b: Seq<u8>, c: Seq<u8>|
        #[trigger] leq(a, b) && #[trigger] leq(b, c) implies leq(a, c) by {
        lemma_byte_le_transitive(a, b, c);
    }
    assert forall|a: Seq<u8>, b: Seq<u8>| #[trigger] leq(a, b) || #[trigger] leq(b, a) by {
        lemma_byte_le_total(a, b);
    }
}

/// The order restricted to two equal prefixes is decided past them.
proof fn lemma_byte_le_skip(a: Seq<u8>, b: Seq<u8>, n: int)
    requires
        0 <= n <= a.len(),
        n <= b.len(),
        forall|j: int| 0 <= j < n ==> a[j] == b[j],
    ensures
        byte_le(a, b) == byte_le(a.skip(n), b.skip(n)),
    decreases n,
{
    if n == 0 {
        assert(a.skip(0) =~= a);
        assert(b.skip(0) =~= b);
    } else {
        assert(a.len() > 0 && b.len() > 0 && a[0] == b[0]);
        assert forall|j: int| 0 <= j < n - 1 implies a.drop_first()[j] == b.drop_first()[j] by {
            assert(a.drop_first()[j] == a[j + 1]);
            assert(b.drop_first()[j] == b[j + 1]);
        }
        lemma_byte_le_skip(a.drop_first(), b.drop_first(), n - 1);
        assert(a.drop_first().skip(n - 1) =~= a.skip(n));
        assert(b.drop_first().skip(n - 1) =~= b.skip(n));
    }
}

/// Compare two byte strings in the lexicographic order.
pub fn bytes_le(a: &Vec<u8>, b: &Vec<u8>) -> (r: bool)
    ensures
        r == byte_le(a@, b@),
{
    let a_len = a.len();
    let b_len = b.len();
    let shorter = if a_len < b_len {
        a_len
    } else {
        b_len
    };
    let mut i: usize = 0;
    while i < shorter
        invariant
            shorter <= a@.len(),
            shorter <= b@.len(),
            i <= shorter,
            forall|j: int| 0 <= j < i ==> a@[j] == b@[j],
        decreases shorter - i,
    {
        if a[i] < b[i] {
            proof {
                lemma_byte_le_skip(a@, b@, i as int);
                assert(a@.skip(i as int)[0] == a@[i as int]);
                assert(b@.skip(i as int)[0] == b@[i as int]);
            }
            return true;
        }
        if a[i] > b[i] {
            proof {
                lemma_byte_le_skip(a@, b@, i as int);
                assert(a@.skip(i as int)[0] == a@[i as int]);
                assert(b@.skip(i as int)[0] == b@[i as int]);
            }
            return false;
        }
        i += 1;
    }
    proof {
        lemma_byte_le_skip(a@, b@, shorter as int);
        if a_len <= b_len {
            assert(a@.skip(shorter as int).len() == 0);
        } else {
            assert(a@.skip(shorter as int).len() > 0);
            assert(b@.skip(shorter as int).len() == 0);
        }
    }
    a_len <= b_len
}

/// The byte strings a vector of byte vectors holds.
pub open spec fn bytes_view(v: Seq<Vec<u8>>) -> Seq<Seq<u8>> {
    v.map_values(|x: Vec<u8>| x@)
}

/// The canonical sorted arrangement of a collection of byte records.
pub open spec fn sort_bytes(s: Seq<Seq<u8>>) -> Seq<Seq<u8>> {
    s.sort_by(byte_le_fn())
}

/// Sorting depends only on which records are present, not on their order:
/// collections with equal multisets sort to the same sequence.
pub proof fn lemma_sort_bytes_permutation(x: Seq<Seq<u8>>, y: Seq<Seq<u8>>)
    requires
        x.to_multiset() == y.to_multiset(),
    ensures
        sort_bytes(x) == sort_bytes(y),
{
    lemma_byte_le_total_ordering();
    x.lemma_sort_by_ensures(byte_le_fn());
    y.lemma_sort_by_ensures(byte_le_fn());
    lemma_sorted_unique(sort_bytes(x), sort_bytes(y), byte_le_fn());
}

/// The first position of `out` whose record is not below `x`: where `x`
/// belongs in a sorted arrangement.
fn find_insert_pos(out: &Vec<Vec<u8>>, x: &Vec<u8>) -> (p: usize)
    ensures
        p <= out@.len(),
        forall|k: int| 0 <= k < p ==> byte_le(bytes_view(out@)[k], x@),
        p < out@.len() ==> !byte_le(bytes_view(out@)[p as int], x@),
{
    let n = out.len();
    let mut p: usize = 0;
    while p < n
        invariant
            n == out@.len(),
            p <= n,
            forall|k: int| 0 <= k < p ==> byte_le(bytes_view(out@)[k], x@),
        decreases n - p,
    {
        proof {
            assert(bytes_view(out@)[p as int] == out@[p as int]@);
        }
        if !bytes_le(&out[p], x) {
            return p;
        }
        p += 1;
    }
    p
}

/// Sort a collection of byte records into the canonical arrangement.
pub fn sort_records(records: Vec<Vec<u8>>) -> (r: Vec<Vec<u8>>)
    ensures
        bytes_view(r@) == sort_bytes(bytes_view(records@)),
{
    let ghost orig = bytes_view(records@);
    let mut rest = records;
    let mut out: Vec<Vec<u8>> = Vec::new();

    proof {
        broadcast use vstd::seq_lib::group_to_multiset_ensures;

        assert(bytes_view(out@) =~= Seq::<Seq<u8>>::empty());
        assert(bytes_view(out@).to_multiset().add(bytes_view(rest@).to_multiset()) =~= orig.to_multiset());
    }

    while rest.len() > 0
        invariant
            sorted_by(bytes_view(out@), byte_le_fn()),
            bytes_view(out@).to_multiset().add(bytes_view(rest@).to_multiset())
                == orig.to_multiset(),
        decreases rest@.len(),
    {
        let ghost out_before = bytes_view(out@);
        let ghost rest_before = bytes_view(rest@);
        let x = rest.remove(0);

        let p = find_insert_pos(&out, &x);

        proof {
            broadcast use vstd::seq_lib::group_to_multiset_ensures;

            assert(bytes_view(rest@) =~= rest_before.drop_first());
            assert(rest_before.drop_first() =~= rest_before.remove(0));
        }
        let ghost xv = x@;
        out.insert(p, x);
        proof {
            broadcast use vstd::seq_lib::group_to_multiset_ensures;

            let after = bytes_view(out@);
            assert(after =~= out_before.insert(p as int, xv));
            // Sortedness across the insertion point.
            lemma_byte_le_total_ordering();
            assert forall|i: int, j: int| 0 <= i < j < after.len() implies #[trigger] byte_le_fn()(
                after[i],
                after[j],
            ) by {
                if j < p {
                    assert(after[i] == out_before[i] && after[j] == out_before[j]);
                } else if i > p {
                    assert(after[i] == out_before[i - 1] && after[j] == out_before[j - 1]);
                } else if i < p && j == p {
                    assert(after[i] == out_before[i] && after[j] == xv);
                    assert(byte_le(out_before[i], xv));
                } else if i == p && j > p {
                    assert(after[i] == xv && after[j] == out_before[j - 1]);
                    assert(p < out_before.len());
                    assert(!byte_le(out_before[p as int], xv));
                    lemma_byte_le_total(out_before[p as int], xv);
                    assert(byte_le(xv, out_before[p as int]));
                    if j - 1 > p {
                        assert(byte_le_fn()(out_before[p as int], out_before[j - 1]));
                        lemma_byte_le_transitive(xv, out_before[p as int], out_before[j - 1]);
                    }
                } else {
                    assert(i < p && j > p);
                    assert(after[i] == out_before[i] && after[j] == out_before[j - 1]);
                    assert(i < j - 1);
                    assert(byte_le_fn()(out_before[i], out_before[j - 1]));
                }
            }
            // Multiset bookkeeping: one record moved from rest to out.
            assert(after.remove(p as int) =~= out_before);
            assert(after.to_multiset().remove(xv) =~= out_before.to_multiset());
            assert(after.contains(after[p as int]));
            assert(after.to_multiset() =~= out_before.to_multiset().insert(xv));
            assert(rest_before.to_multiset() =~= bytes_view(rest@).to_multiset().insert(xv)) by {
                assert(rest_before[0] == xv);
                assert(rest_before =~= bytes_view(rest@).insert(0, xv));
                assert(rest_before.remove(0) =~= bytes_view(rest@));
                assert(rest_before.to_multiset().remove(xv) =~= bytes_view(rest@).to_multiset());
                assert(rest_before.contains(rest_before[0]));
            }
            assert(bytes_view(out@).to_multiset().add(bytes_view(rest@).to_multiset())
                =~= orig.to_multiset());
        }
    }

    proof {
        broadcast use vstd::seq_lib::group_to_multiset_ensures;

        assert(bytes_view(rest@).to_multiset() =~= Multiset::<Seq<u8>>::empty()) by {
            assert(bytes_view(rest@) =~= Seq::<Seq<u8>>::empty());
        }
        assert(bytes_view(out@).to_multiset() =~= orig.to_multiset());
        lemma_byte_le_total_ordering();
        orig.lemma_sort_by_ensures(byte_le_fn());
        lemma_sorted_unique(bytes_view(out@), sort_bytes(orig), byte_le_fn());
    }
    out
}

/// Mapping a function over collections with the same elements gives
/// collections with the same mapped elements.
pub proof fn lemma_map_values_multiset<T, U>(a: Seq<T>, b: Seq<T>, f: spec_fn(T) -> U)
    requires
        a.to_multiset() == b.to_multiset(),
    ensures
        a.map_values(f).to_multiset() == b.map_values(f).to_multiset(),
    decreases a.len(),
{
    broadcast use vstd::seq_lib::group_to_multiset_ensures;

    if a.len() == 0 {
        assert(b.to_multiset().len() == 0);
        assert(b.len() == 0);
        assert(a.map_values(f) =~= b.map_values(f));
    } else {
        let x = a[0];
        assert(a.to_multiset().count(x) > 0) by {
            assert(a.contains(x));
        }
        assert(b.contains(x)) by {
            assert(b.to_multiset().count(x) > 0);
        }
        let i = choose|i: int| 0 <= i < b.len() && b[i] == x;
        assert(a.drop_first() =~= a.remove(0));
        assert(a.remove(0).to_multiset() =~= a.to_multiset().remove(x));
        assert(b.remove(i).to_multiset() =~= b.to_multiset().remove(x));
        lemma_map_values_multiset(a.drop_first(), b.remove(i), f);

        let fa = a.map_values(f);
        let fb = b.map_values(f);
        assert(a.drop_first().map_values(f) =~= fa.drop_first());
        assert(b.remove(i).map_values(f) =~= fb.remove(i));
        assert(fa.drop_first() =~= fa.remove(0));
        assert(fa.remove(0).to_multiset() =~= fa.to_multiset().remove(f(x)));
        assert(fb.remove(i).to_multiset() =~= fb.to_multiset().remove(fb[i]));
        assert(fb[i] == f(x));
        assert(fa.to_multiset().count(f(x)) > 0) by {
            assert(fa.contains(fa[0]));
            assert(fa[0] == f(x));
        }
        assert(fb.to_multiset().count(f(x)) > 0) by {
            assert(fb.contains(fb[i]));
        }
        assert(fa.to_multiset() =~= fb.to_multiset()) by {
            assert(fa.to_multiset().remove(f(x)) =~= fb.to_multiset().remove(f(x)));
            assert forall|u: U| #[trigger] fa.to_multiset().count(u) == fb.to_multiset().count(
                u,
            ) by {
                if u == f(x) {
                    assert(fa.to_multiset().remove(f(x)).count(u) == fa.to_multiset().count(u)
                        - 1);
                    assert(fb.to_multiset().remove(f(x)).count(u) == fb.to_multiset().count(u)
                        - 1);
                } else {
                    assert(fa.to_multiset().remove(f(x)).count(u) == fa.to_multiset().count(u));
                    assert(fb.to_multiset().remove(f(x)).count(u) == fb.to_multiset().count(u));
                }
            }
        }
    }
}

/// The concatenation of a sequence of byte records.
pub open spec fn concat_bytes(s: Seq<Seq<u8>>) -> Seq<u8>
    decreases s.len(),
{
    if s.len() == 0 {
        Seq::empty()
    } else {
        concat_bytes(s.drop_last()) + s.last()
    }
}

/// Concatenate byte records in order.
pub fn concat_records(records: &Vec<Vec<u8>>) -> (r: Vec<u8>)
    ensures
        r@ == concat_bytes(bytes_view(records@)),
{
    let mut out: Vec<u8> = Vec::new();
    let n = records.len();
    let mut i: usize = 0;
    while i < n
        invariant
            n == records@.len(),
            i <= n,
            out@ == concat_bytes(bytes_view(records@).subrange(0, i as int)),
        decreases n - i,
    {
        let mut piece = slice_to_vec(records[i].as_slice());
        out.append(&mut piece);
        proof {
            let views = bytes_view(records@);
            assert(views.subrange(0, i + 1 as int).drop_last() =~= views.subrange(0, i as int));
            assert(views.subrange(0, i + 1 as int).last() == views[i as int]);
            assert(views[i as int] == records@[i as int]@);
        }
        i += 1;
    }
    proof {
        assert(bytes_view(records@).subrange(0, n as int) =~= bytes_view(records@));
    }
    out
}

/// A field of a canonical record: its byte length as little-endian 64-bit,
/// then its bytes.  The prefix makes records unambiguous to read back.
pub open spec fn len_prefixed(s: Seq<u8>) -> Seq<u8> {
    vstd::bytes::spec_u64_to_le_bytes(s.len() as u64) + s
}

/// Append the length-prefixed UTF-8 bytes of `s` to `out`.
pub fn push_len_prefixed_str(out: &mut Vec<u8>, s: &str)
    ensures
        final(out)@ == old(out)@ + len_prefixed(str_bytes(s@)),
{
    let bytes = s.as_bytes();
    let mut le = vstd::bytes::u64_to_le_bytes(bytes.len() as u64);
    let ghost before = out@;
    out.append(&mut le);
    out.extend_from_slice(bytes);
    proof {
        assert(out@ =~= before + len_prefixed(str_bytes(s@)));
    }
}

} // verus!
