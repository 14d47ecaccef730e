//! The borrowed view of a hash map that lists its entries by ascending key.

use crate::laws::lemma_empty_map_text;
use crate::layout::{map_text, pair_views, render_entries};
use crate::order::{
    key_order_is_total, lemma_listing_unique, lemma_sorted_listing, lists_ascending, sorted_refs,
};
use crate::text::DebugText;
use std::collections::HashMap;
use std::hash::Hash;
use vstd::prelude::*;
use vstd::std_specs::hash::*;
use vstd::std_specs::iter::IteratorSpec;

verus! {

/// The keys of the listed entries, in the order of the listing.
pub open spec fn keys_of<K, V>(entries: Seq<(K, V)>) -> Seq<K> {
    entries.map_values(|e: (K, V)| e.0)
}

/// `entries` lists the pairs of `map` by strictly ascending key: each key of
/// the map once, with the value that the map holds for it, and nothing else.
pub open spec fn lists_entries_ascending<K: Ord, V>(
    entries: Seq<(K, V)>,
    map: Map<K, V>,
) -> bool {
    &&& lists_ascending(keys_of(entries), map.dom())
    &&& forall|i: int| 0 <= i < entries.len() ==> map[(#[trigger] entries[i]).0] == entries[i].1
}

/// The pairs of `map` by ascending key.
pub open spec fn ascending_entries<K: Ord, V>(map: Map<K, V>) -> Seq<(K, V)> {
    choose|entries: Seq<(K, V)>| lists_entries_ascending(entries, map)
}

/// The key text and value text of each entry, in the order of the listing.
pub open spec fn entry_texts<K: DebugText, V: DebugText>(entries: Seq<(K, V)>) -> Seq<
    (Seq<char>, Seq<char>),
> {
    entries.map_values(|e: (K, V)| (e.0.debug_text(), e.1.debug_text()))
}

/// The text of `map` with its entries by ascending key.
pub open spec fn sorted_map_text<K: Ord + DebugText, V: DebugText>(map: Map<K, V>) -> Seq<char> {
    map_text(entry_texts(ascending_entries(map)))
}

/// A map has at most one listing of its pairs by ascending key.
pub proof fn lemma_entries_unique<K: Ord, V>(a: Seq<(K, V)>, b: Seq<(K, V)>, map: Map<K, V>)
    requires
        key_order_is_total::<K>(),
        lists_entries_ascending(a, map),
        lists_entries_ascending(b, map),
    ensures
        a == b,
{
    lemma_listing_unique(keys_of(a), keys_of(b), map.dom());
    assert(a.len() == b.len());
    assert forall|i: int| 0 <= i < a.len() implies a[i] == b[i] by {
        assert(keys_of(a)[i] == keys_of(b)[i]);
    }
    assert(a =~= b);
}

/// A hash map, borrowed to be read by ascending key.
///
/// The view holds the map by shared reference: it copies no key and no
/// value, and nothing read through it can change the map.
///
/// Its methods ask that the key type hashes and compares by the rules
/// (`obeys_key_model`, `key_order_is_total`). For the integer types vstd shows
/// both, in its broadcast groups `group_hash_axioms`, `group_laws_cmp` and
/// `group_laws_eq`.
pub struct SortedHashMapDebugOutput<'a, K, V>(pub &'a HashMap<K, V>);

impl<'a, K: Ord + Hash, V> SortedHashMapDebugOutput<'a, K, V> {
    /// The keys of the map in ascending order.
    pub fn sorted_keys(&self) -> (keys: Vec<&'a K>)
        requires
            obeys_key_model::<K>(),
            key_order_is_total::<K>(),
        ensures
            lists_ascending(keys@.unref(), self.0@.dom()),
    {
        broadcast use group_hash_axioms;
        let ghost walk = spec_keys_iter(self.0).remaining();
        let mut found: Vec<&'a K> = Vec::new();
        for k in it: self.0.keys()
            invariant
                it.seq() == walk,
                found@ == walk.take(it.index()),
        {
            found.push(k);
        }
        let keys = sorted_refs(found);
        proof {
            assert(found@ == walk);
            lemma_sorted_listing(found@.unref(), keys@.unref(), self.0@.dom());
        }
        keys
    }

    /// The entries of the map by ascending key.
    pub fn sorted_entries(&self) -> (entries: Vec<(&'a K, &'a V)>)
        requires
            obeys_key_model::<K>(),
            key_order_is_total::<K>(),
        ensures
            lists_entries_ascending(entries@.unref(), self.0@),
    {
        broadcast use group_hash_axioms;
        let keys = self.sorted_keys();
        let mut entries: Vec<(&'a K, &'a V)> = Vec::new();
        let mut i: usize = 0;
        while i < keys.len()
            invariant
                i <= keys.len(),
                obeys_key_model::<K>(),
                lists_ascending(keys@.unref(), self.0@.dom()),
                entries.len() == i,
                forall|j: int| 0 <= j < i ==> *(#[trigger] entries[j]).0 == *keys[j],
                forall|j: int| 0 <= j < i ==> *(#[trigger] entries[j]).1 == self.0@[*keys[j]],
            decreases keys.len() - i,
        {
            let key = keys[i];
            proof {
                assert(keys@.unref()[i as int] == *key);
                assert(keys@.unref().contains(*key));
            }
            let value = self.0.get(key).unwrap();
            entries.push((key, value));
            i += 1;
        }
        proof {
            assert(keys_of(entries@.unref()) == keys@.unref());
        }
        entries
    }
}

impl<'a, K: Ord + Hash + DebugText, V: DebugText> SortedHashMapDebugOutput<'a, K, V> {
    /// The text of the map with its entries by ascending key, such as
    /// `{1: "a", 2: "b"}`, and `{}` for an empty map.
    pub fn debug_string(&self) -> (text: String)
        requires
            obeys_key_model::<K>(),
            key_order_is_total::<K>(),
        ensures
            text@ == sorted_map_text(self.0@),
            self.0@.dom().len() == 0 ==> text@ == seq!['{', '}'],
    {
        let entries = self.sorted_entries();
        let mut pairs: Vec<(String, String)> = Vec::new();
        let mut i: usize = 0;
        while i < entries.len()
            invariant
                i <= entries.len(),
                pairs.len() == i,
                forall|j: int|
                    0 <= j < i ==> (#[trigger] pairs[j]).0@ == (*entries[j].0).debug_text()
                        && pairs[j].1@ == (*entries[j].1).debug_text(),
            decreases entries.len() - i,
        {
            let key = entries[i].0;
            let value = entries[i].1;
            pairs.push((key.debug_string(), value.debug_string()));
            i += 1;
        }
        proof {
            lemma_entries_unique(entries@.unref(), ascending_entries(self.0@), self.0@);
            assert(pair_views(pairs@) =~= entry_texts(entries@.unref()));
            if self.0@.dom().len() == 0 {
                assert(self.0@ =~= Map::empty());
                lemma_empty_map_text::<K, V>();
            }
        }
        render_entries(&pairs)
    }
}

/// Maps that can lend themselves out for key-sorted reading.
pub trait SortedOutputExt<'a> {
    /// The borrowed form.
    type Sorted;

    /// `sorted` is the borrowed form of this map: it reads the map itself.
    spec fn lends(&self, sorted: Self::Sorted) -> bool;

    /// Borrows `self` for key-sorted reading.
    fn sorted_debug(&'a self) -> (sorted: Self::Sorted)
        ensures
            self.lends(sorted),
    ;
}

impl<'a, K: 'a, V: 'a> SortedOutputExt<'a> for HashMap<K, V> {
    type Sorted = SortedHashMapDebugOutput<'a, K, V>;

    open spec fn lends(&self, sorted: Self::Sorted) -> bool {
        sorted.0 == self
    }

    fn sorted_debug(&'a self) -> (sorted: Self::Sorted) {
        SortedHashMapDebugOutput(self)
    }
}

} // verus!
