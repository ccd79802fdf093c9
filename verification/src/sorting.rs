//! Shared facts about reordering: multisets of sequences under insertion
//! and removal, and of option slots as values are taken out.

use vstd::prelude::*;
use vstd::multiset::Multiset;
use vstd::seq_lib::group_seq_properties;

verus! {

broadcast use vstd::multiset::group_multiset_axioms;

/// A stable drawing: the result takes its entries from the input through
/// an injective index mapping, and entries whose keys are equal keep the
/// input's relative order.
pub open spec fn spec_stable_perm<T>(
    r: Seq<T>,
    files: Seq<T>,
    m: Seq<int>,
    key_eq: spec_fn(T, T) -> bool,
) -> bool {
    &&& m.len() == r.len()
    &&& (forall|q: int| 0 <= q < m.len() ==> 0 <= #[trigger] m[q] < files.len() && r[q] == files[m[q]])
    &&& (forall|p: int, q: int| 0 <= p < q < m.len() ==> #[trigger] m[p] != #[trigger] m[q])
    &&& (forall|p: int, q: int|
        0 <= p < q < m.len() && key_eq(r[p], r[q]) ==> #[trigger] m[p] < #[trigger] m[q])
}

/// Adjacent orderedness of a sequence under a relation.
pub open spec fn sorted_by<T>(s: Seq<T>, le: spec_fn(T, T) -> bool) -> bool {
    forall|i: int| 0 <= i < s.len() - 1 ==> le(#[trigger] s[i], s[i + 1])
}

/// Sequences with equal multisets draw from the same elements: every
/// entry of one occurs in the other.
pub proof fn lemma_ms_element<T>(a: Seq<T>, b: Seq<T>, q: int)
    requires
        a.to_multiset() == b.to_multiset(),
        0 <= q < a.len(),
    ensures
        exists|k: int| 0 <= k < b.len() && #[trigger] b[k] == a[q],
{
    broadcast use group_seq_properties;

    assert(a.contains(a[q]));
    assert(a.to_multiset().count(a[q]) > 0);
    assert(b.to_multiset().count(a[q]) > 0);
    assert(b.contains(a[q]));
    let k = choose|k: int| 0 <= k < b.len() && b[k] == a[q];
    assert(b[k] == a[q]);
}

/// Inserting anywhere adds exactly one occurrence to the multiset.
pub proof fn lemma_insert_multiset<T>(s: Seq<T>, j: int, x: T)
    requires
        0 <= j <= s.len(),
    ensures
        s.insert(j, x).to_multiset() == s.to_multiset().insert(x),
{
    broadcast use group_seq_properties;

    let t = s.insert(j, x);
    assert(t.remove(j) =~= s);
    assert(t[j] == x);
    assert(t.remove(j).to_multiset() =~= t.to_multiset().remove(x));
    assert(t.to_multiset().contains(x)) by {
        assert(t.contains(x));
    }
    assert(t.to_multiset() =~= s.to_multiset().insert(x));
}

/// Removing the front takes exactly one occurrence out of the multiset.
pub proof fn lemma_remove_multiset<T>(s: Seq<T>, j: int)
    requires
        0 <= j < s.len(),
    ensures
        s.remove(j).to_multiset() == s.to_multiset().remove(s[j]),
        s.to_multiset().contains(s[j]),
{
    broadcast use group_seq_properties;

    assert(s.remove(j).to_multiset() =~= s.to_multiset().remove(s[j]));
    assert(s.contains(s[j]));
}

/// The multiset of the values still present in a sequence of slots.
pub open spec fn opts_ms<T>(s: Seq<Option<T>>) -> Multiset<T>
    decreases s.len(),
{
    if s.len() == 0 {
        Multiset::empty()
    } else {
        match s.last() {
            Some(x) => opts_ms(s.drop_last()).insert(x),
            None => opts_ms(s.drop_last()),
        }
    }
}

/// Emptying one full slot takes exactly its value out of the multiset.
pub proof fn lemma_opts_ms_take<T>(s: Seq<Option<T>>, i: int)
    requires
        0 <= i < s.len(),
        s[i] is Some,
    ensures
        opts_ms(s).contains(s[i].unwrap()),
        opts_ms(s.update(i, None)) == opts_ms(s).remove(s[i].unwrap()),
    decreases s.len(),
{
    let t = s.update(i, None);
    if i == s.len() - 1 {
        assert(t.drop_last() =~= s.drop_last());
        assert(t.last() is None);
        assert(opts_ms(s) == opts_ms(s.drop_last()).insert(s[i].unwrap()));
        assert(opts_ms(t) == opts_ms(s.drop_last()));
        assert(opts_ms(t) =~= opts_ms(s).remove(s[i].unwrap()));
    } else {
        lemma_opts_ms_take(s.drop_last(), i);
        assert(t.drop_last() =~= s.drop_last().update(i, None));
        assert(t.last() == s.last());
        match s.last() {
            Some(x) => {
                assert(opts_ms(t) == opts_ms(s.drop_last().update(i, None)).insert(x));
                assert(opts_ms(t) =~= opts_ms(s).remove(s[i].unwrap()));
            },
            None => {
                assert(opts_ms(t) == opts_ms(s.drop_last().update(i, None)));
                assert(opts_ms(t) =~= opts_ms(s).remove(s[i].unwrap()));
            },
        }
    }
}

/// An empty sequence carries the empty multiset.
pub proof fn lemma_seq_empty_multiset<T>(s: Seq<T>)
    requires
        s.len() == 0,
    ensures
        s.to_multiset() == Multiset::<T>::empty(),
{
    broadcast use group_seq_properties;

    assert forall|x: T| s.to_multiset().count(x) == 0 by {
        assert(!s.contains(x));
    }
    assert(s.to_multiset() =~= Multiset::<T>::empty());
}

/// A sequence wrapped into full slots carries the same multiset.
pub proof fn lemma_opts_ms_all_some<T>(s: Seq<T>)
    ensures
        opts_ms(s.map_values(|x: T| Some(x))) == s.to_multiset(),
    decreases s.len(),
{
    broadcast use group_seq_properties;

    let m = s.map_values(|x: T| Some(x));
    if s.len() == 0 {
        assert(s.to_multiset() =~= Multiset::<T>::empty());
    } else {
        lemma_opts_ms_all_some(s.drop_last());
        assert(m.drop_last() =~= s.drop_last().map_values(|x: T| Some(x)));
        assert(m.last() == Some(s.last()));
        assert(s =~= s.drop_last().push(s.last()));
        assert(s.drop_last().push(s.last()).to_multiset() == s.drop_last().to_multiset().insert(
            s.last(),
        ));
        assert(opts_ms(m) =~= s.to_multiset());
    }
}

} // verus!
