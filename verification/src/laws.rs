//! What holds of the sorted text of every map.

use crate::layout::map_text;
use crate::order::{key_lt, key_order_is_total, lemma_listing_exists, lists_ascending};
use crate::sorted_view::{
    ascending_entries, entry_texts, keys_of, lemma_entries_unique, lists_entries_ascending,
    sorted_map_text,
};
use crate::text::DebugText;
use vstd::prelude::*;

verus! {

/// Every finite map has a listing of its pairs by ascending key, and
/// `ascending_entries` is that listing.
pub proof fn lemma_ascending_entries_list<K: Ord, V>(map: Map<K, V>)
    requires
        key_order_is_total::<K>(),
        map.dom().finite(),
    ensures
        lists_entries_ascending(ascending_entries(map), map),
{
    let keys = lemma_listing_exists(map.dom());
    let witness = keys.map_values(|k: K| (k, map[k]));
    assert(keys_of(witness) =~= keys);
    assert(lists_entries_ascending(witness, map));
}

/// Key order: the sorted text of a map is the map literal of its entries,
/// and of any two of these entries the earlier one has the smaller key.
pub proof fn lemma_text_orders_keys<K: Ord + DebugText, V: DebugText>(map: Map<K, V>)
    requires
        key_order_is_total::<K>(),
        map.dom().finite(),
    ensures
        sorted_map_text(map) == map_text(entry_texts(ascending_entries(map))),
        forall|i: int, j: int|
            0 <= i < j < ascending_entries(map).len() ==> key_lt(
                (#[trigger] ascending_entries(map)[i]).0,
                (#[trigger] ascending_entries(map)[j]).0,
            ),
{
    lemma_ascending_entries_list(map);
    let entries = ascending_entries(map);
    assert forall|i: int, j: int| 0 <= i < j < entries.len() implies key_lt(
        (#[trigger] entries[i]).0,
        (#[trigger] entries[j]).0,
    ) by {
        assert(keys_of(entries)[i] == entries[i].0);
        assert(keys_of(entries)[j] == entries[j].0);
    }
}

/// Same content: the entries that the sorted text is laid out from are the
/// pairs of the map, each of them once and no others.
pub proof fn lemma_text_holds_the_pairs<K: Ord, V>(map: Map<K, V>)
    requires
        key_order_is_total::<K>(),
        map.dom().finite(),
    ensures
        ascending_entries(map).no_duplicates(),
        ascending_entries(map).to_set() == map.kv_pairs(),
        ascending_entries(map).len() == map.dom().len(),
{
    lemma_ascending_entries_list(map);
    let entries = ascending_entries(map);
    let keys = keys_of(entries);
    assert forall|i: int, j: int| 0 <= i < entries.len() && 0 <= j < entries.len() && i
        != j implies entries[i] != entries[j] by {
        assert(keys[i] == entries[i].0);
        assert(keys[j] == entries[j].0);
        if i < j {
            assert(key_lt(keys[i], keys[j]));
        } else {
            assert(key_lt(keys[j], keys[i]));
        }
        crate::order::lemma_key_le_total_ordering::<K>();
    }
    assert forall|pair: (K, V)| entries.to_set().contains(pair) <==> map.kv_pairs().contains(
        pair,
    ) by {
        if entries.contains(pair) {
            let i = choose|i: int| 0 <= i < entries.len() && entries[i] == pair;
            assert(keys[i] == pair.0);
            assert(keys.contains(pair.0));
        }
        if map.kv_pairs().contains(pair) {
            assert(keys.contains(pair.0));
            let i = choose|i: int| 0 <= i < keys.len() && keys[i] == pair.0;
            assert(entries[i] == pair);
        }
    }
    assert(entries.to_set() =~= map.kv_pairs());
    assert(keys.no_duplicates()) by {
        crate::order::lemma_key_le_total_ordering::<K>();
    }
    keys.unique_seq_to_set();
    assert(keys.to_set() =~= map.dom());
}

/// Agreement with an ordered map: whatever lists the pairs of the map by
/// strictly ascending key, as an ordered map built from the same pairs
/// does, is laid out to the same text as the sorted view of the map.
pub proof fn lemma_text_matches_ordered_listing<K: Ord + DebugText, V: DebugText>(
    map: Map<K, V>,
    listing: Seq<(K, V)>,
)
    requires
        key_order_is_total::<K>(),
        forall|i: int, j: int|
            0 <= i < j < listing.len() ==> key_lt(
                (#[trigger] listing[i]).0,
                (#[trigger] listing[j]).0,
            ),
        listing.to_set() == map.kv_pairs(),
    ensures
        map_text(entry_texts(listing)) == sorted_map_text(map),
{
    let keys = keys_of(listing);
    assert forall|k: K| map.dom().contains(k) <==> keys.contains(k) by {
        if map.dom().contains(k) {
            assert(map.kv_pairs().contains((k, map[k])));
            assert(listing.contains((k, map[k])));
            let i = choose|i: int| 0 <= i < listing.len() && listing[i] == (k, map[k]);
            assert(keys[i] == k);
        }
        if keys.contains(k) {
            let i = choose|i: int| 0 <= i < keys.len() && keys[i] == k;
            assert(listing.contains(listing[i]));
            assert(map.kv_pairs().contains(listing[i]));
        }
    }
    assert forall|i: int| 0 <= i < listing.len() implies map[(#[trigger] listing[i]).0]
        == listing[i].1 by {
        assert(listing.contains(listing[i]));
        assert(map.kv_pairs().contains(listing[i]));
    }
    assert(lists_ascending(keys, map.dom()));
    assert(lists_entries_ascending(listing, map));
    lemma_entries_unique(listing, ascending_entries(map), map);
}

/// The empty map: its sorted text is an opening brace directly followed by
/// a closing one.
pub proof fn lemma_empty_map_text<K: Ord + DebugText, V: DebugText>()
    ensures
        sorted_map_text(Map::<K, V>::empty()) == seq!['{', '}'],
{
    let map = Map::<K, V>::empty();
    assert(lists_entries_ascending(Seq::<(K, V)>::empty(), map));
    let entries = ascending_entries(map);
    if entries.len() > 0 {
        assert(keys_of(entries).contains(keys_of(entries)[0]));
    }
    assert(entry_texts(entries) =~= Seq::empty());
    assert(sorted_map_text(map) =~= seq!['{', '}']);
}

} // verus!
