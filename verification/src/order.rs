//! The order of keys, and the sort that puts them in it.
//!
//! Keys are compared through `Ord`. What the comparisons mean is taken from
//! vstd's model of `Ord`: `cmp_spec` says how two keys compare, and
//! `key_order_is_total` says that the comparisons of the key type compute a
//! total order. For the integer types vstd proves this in its broadcast groups
//! `group_laws_cmp` and `group_laws_eq`.

use core::cmp::Ordering;
use itertools::Itertools;
use vstd::laws_cmp::obeys_cmp;
use vstd::laws_eq::obeys_concrete_eq;
use vstd::prelude::*;
use vstd::relations::*;
use vstd::std_specs::cmp::OrdSpec;
use vstd::std_specs::cmp::PartialEqSpec;
use vstd::std_specs::cmp::PartialOrdSpec;

verus! {

/// `a` comes no later than `b` in the order of `K`.
pub open spec fn key_le<K: Ord>(a: K, b: K) -> bool {
    a.cmp_spec(&b) != Ordering::Greater
}

/// `a` comes strictly before `b` in the order of `K`.
pub open spec fn key_lt<K: Ord>(a: K, b: K) -> bool {
    a.cmp_spec(&b) == Ordering::Less
}

/// The comparisons of `K` compute one total order, in which two keys are
/// equal exactly when they are the same value: `cmp`, `partial_cmp` and `eq`
/// return what their models say, and the models agree with each other and
/// with `==` on values.
pub open spec fn key_order_is_total<K: Ord>() -> bool {
    obeys_cmp::<K>() && obeys_concrete_eq::<K>()
}

/// Under a total key order, `key_le` is reflexive, antisymmetric, transitive
/// and decides every pair.
pub proof fn lemma_key_le_total_ordering<K: Ord>()
    requires
        key_order_is_total::<K>(),
    ensures
        total_ordering(|a: K, b: K| key_le(a, b)),
        forall|a: K, b: K| #[trigger] key_lt(a, b) <==> key_le(a, b) && a != b,
{
    reveal(vstd::laws_cmp::obeys_cmp_ord);
    reveal(vstd::laws_cmp::obeys_cmp_partial_ord);
    reveal(vstd::laws_cmp::obeys_partial_cmp_spec_properties);
    reveal(vstd::laws_eq::obeys_concrete_eq);
    let le = |a: K, b: K| key_le(a, b);
    assert forall|a: K, b: K| #[trigger] a.cmp_spec(&b) == Ordering::Equal <==> a == b by {
        assert(a.partial_cmp_spec(&b) == Some(a.cmp_spec(&b)));
    }
    assert forall|a: K, b: K| #[trigger]
        a.cmp_spec(&b) == Ordering::Less <==> b.cmp_spec(&a) == Ordering::Greater by {
        assert(a.partial_cmp_spec(&b) == Some(a.cmp_spec(&b)));
        assert(b.partial_cmp_spec(&a) == Some(b.cmp_spec(&a)));
    }
    assert forall|a: K, b: K, c: K| #[trigger] le(a, b) && #[trigger] le(b, c) implies le(
        a,
        c,
    ) by {
        assert(a.partial_cmp_spec(&b) == Some(a.cmp_spec(&b)));
        assert(b.partial_cmp_spec(&c) == Some(b.cmp_spec(&c)));
        assert(a.partial_cmp_spec(&c) == Some(a.cmp_spec(&c)));
        assert(c.partial_cmp_spec(&a) == Some(c.cmp_spec(&a)));
    }
}

/// The keys stand in ascending order: none comes before one that precedes it.
pub open spec fn ascending<K: Ord>(keys: Seq<K>) -> bool {
    sorted_by(keys, |a: K, b: K| key_le(a, b))
}

/// `keys` lists the members of `dom` in strictly ascending order, each once.
pub open spec fn lists_ascending<K: Ord>(keys: Seq<K>, dom: Set<K>) -> bool {
    &&& forall|i: int, j: int|
        0 <= i < j < keys.len() ==> key_lt(#[trigger] keys[i], #[trigger] keys[j])
    &&& forall|k: K| dom.contains(k) <==> keys.contains(k)
}

/// Sorts borrowed keys with `Itertools::sorted`, which collects the items,
/// sorts them with the stable `slice::sort` and hands them back in that
/// order. The contract claims that the result refers to the same keys, each
/// as often as before, in ascending order. `slice::sort` may panic on an
/// order that is not total, so a total key order is required.
#[verifier::external_body]
pub(crate) fn sorted_refs<'a, K: Ord>(items: Vec<&'a K>) -> (sorted: Vec<&'a K>)
    requires
        key_order_is_total::<K>(),
    ensures
        sorted@.unref().to_multiset() == items@.unref().to_multiset(),
        ascending(sorted@.unref()),
{
    items.into_iter().sorted().collect()
}

/// Two duplicate-free sequences with the same members hold the same items
/// equally often.
proof fn lemma_same_members_same_multiset<K>(a: Seq<K>, b: Seq<K>)
    requires
        a.no_duplicates(),
        b.no_duplicates(),
        forall|k: K| a.contains(k) <==> b.contains(k),
    ensures
        a.to_multiset() == b.to_multiset(),
{
    broadcast use vstd::seq_lib::group_to_multiset_ensures;
    a.lemma_multiset_has_no_duplicates();
    b.lemma_multiset_has_no_duplicates();
    assert forall|k: K| a.to_multiset().count(k) == b.to_multiset().count(k) by {
        if a.contains(k) {
            assert(b.contains(k));
            assert(a.to_multiset().contains(k));
            assert(b.to_multiset().contains(k));
        }
    }
    assert(a.to_multiset() =~= b.to_multiset());
}

/// Sorting a duplicate-free listing of `dom` gives its strictly ascending listing.
pub(crate) proof fn lemma_sorted_listing<K: Ord>(found: Seq<K>, sorted: Seq<K>, dom: Set<K>)
    requires
        key_order_is_total::<K>(),
        found.no_duplicates(),
        found.to_set() == dom,
        sorted.to_multiset() == found.to_multiset(),
        ascending(sorted),
    ensures
        lists_ascending(sorted, dom),
{
    broadcast use vstd::seq_lib::group_to_multiset_ensures;
    lemma_key_le_total_ordering::<K>();
    found.lemma_multiset_has_no_duplicates();
    sorted.lemma_multiset_has_no_duplicates_conv();
    assert forall|i: int, j: int| 0 <= i < j < sorted.len() implies key_lt(
        #[trigger] sorted[i],
        #[trigger] sorted[j],
    ) by {
        let le = |a: K, b: K| key_le(a, b);
        assert(le(sorted[i], sorted[j]));
    }
    assert forall|k: K| dom.contains(k) <==> sorted.contains(k) by {
        assert(found.contains(k) <==> found.to_multiset().count(k) > 0);
        assert(sorted.contains(k) <==> sorted.to_multiset().count(k) > 0);
    }
}

/// The members of a finite set, in the order in which `to_seq` picks them,
/// occur once each.
proof fn lemma_to_seq_no_duplicates<K>(dom: Set<K>)
    requires
        dom.finite(),
    ensures
        dom.to_seq().no_duplicates(),
        dom.to_seq().to_set() == dom,
    decreases dom.len(),
{
    broadcast use vstd::set::group_set_axioms;
    dom.lemma_to_seq_to_set_id();
    if dom.len() != 0 {
        let x = dom.choose();
        let rest = dom.remove(x);
        lemma_to_seq_no_duplicates(rest);
        rest.lemma_to_seq_to_set_id();
        let head = Seq::<K>::empty().push(x);
        assert(dom.to_seq() == head + rest.to_seq());
        let all = dom.to_seq();
        assert forall|i: int, j: int|
            0 <= i < all.len() && 0 <= j < all.len() && i != j implies all[i] != all[j] by {
            if i > 0 {
                assert(rest.to_seq().to_set().contains(rest.to_seq()[i - 1]));
            }
            if j > 0 {
                assert(rest.to_seq().to_set().contains(rest.to_seq()[j - 1]));
            }
        }
    }
}

/// Every finite set of keys has a strictly ascending listing.
pub proof fn lemma_listing_exists<K: Ord>(dom: Set<K>) -> (keys: Seq<K>)
    requires
        key_order_is_total::<K>(),
        dom.finite(),
    ensures
        lists_ascending(keys, dom),
{
    lemma_key_le_total_ordering::<K>();
    lemma_to_seq_no_duplicates(dom);
    let le = |a: K, b: K| key_le(a, b);
    let keys = dom.to_seq().sort_by(le);
    dom.to_seq().lemma_sort_by_ensures(le);
    lemma_sorted_listing(dom.to_seq(), keys, dom);
    keys
}

/// A set of keys has at most one strictly ascending listing.
pub proof fn lemma_listing_unique<K: Ord>(a: Seq<K>, b: Seq<K>, dom: Set<K>)
    requires
        key_order_is_total::<K>(),
        lists_ascending(a, dom),
        lists_ascending(b, dom),
    ensures
        a == b,
{
    lemma_key_le_total_ordering::<K>();
    let le = |x: K, y: K| key_le(x, y);
    assert(a.no_duplicates());
    assert(b.no_duplicates());
    lemma_same_members_same_multiset(a, b);
    assert(sorted_by(a, le));
    assert(sorted_by(b, le));
    vstd::seq_lib::lemma_sorted_unique(a, b, le);
}

} // verus!
