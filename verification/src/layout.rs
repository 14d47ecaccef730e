//! The layout of a map literal: braces around entries joined by `", "`,
//! each entry a key text, `": "` and a value text.

use vstd::prelude::*;
use vstd::string::*;

verus! {

/// The text of one entry: the key, a colon and a space, the value.
pub open spec fn entry_text(key: Seq<char>, value: Seq<char>) -> Seq<char> {
    key + seq![':', ' '] + value
}

/// The texts of the entries in the given order, with `", "` between neighbours.
pub open spec fn entries_text(entries: Seq<(Seq<char>, Seq<char>)>) -> Seq<char>
    decreases entries.len(),
{
    if entries.len() == 0 {
        Seq::empty()
    } else if entries.len() == 1 {
        entry_text(entries[0].0, entries[0].1)
    } else {
        entries_text(entries.drop_last()) + seq![',', ' '] + entry_text(
            entries.last().0,
            entries.last().1,
        )
    }
}

/// The map literal that holds the given entries in the given order.
pub open spec fn map_text(entries: Seq<(Seq<char>, Seq<char>)>) -> Seq<char> {
    seq!['{'] + entries_text(entries) + seq!['}']
}

/// The key and value texts that a vector of string pairs stands for.
pub open spec fn pair_views(pairs: Seq<(String, String)>) -> Seq<(Seq<char>, Seq<char>)> {
    pairs.map_values(|p: (String, String)| (p.0@, p.1@))
}

/// Lays out entries whose key and value texts are already at hand.
pub fn render_entries(pairs: &Vec<(String, String)>) -> (text: String)
    ensures
        text@ == map_text(pair_views(pairs@)),
{
    let mut text = String::new();
    text.append("{");
    let ghost views = pair_views(pairs@);
    proof {
        reveal_strlit("{");
    }
    let mut i: usize = 0;
    while i < pairs.len()
        invariant
            i <= pairs.len(),
            views == pair_views(pairs@),
            text@ == seq!['{'] + entries_text(views.take(i as int)),
        decreases pairs.len() - i,
    {
        if i > 0 {
            text.append(", ");
        }
        text.append(pairs[i].0.as_str());
        text.append(": ");
        text.append(pairs[i].1.as_str());
        proof {
            reveal_strlit(", ");
            reveal_strlit(": ");
            let next = views.take(i + 1);
            assert(next.drop_last() == views.take(i as int));
            assert(next.last() == views[i as int]);
        }
        i += 1;
    }
    text.append("}");
    proof {
        reveal_strlit("}");
        assert(views.take(i as int) == views);
    }
    text
}

} // verus!
