//! The free-text filter: an item is kept when its title or its channel name
//! holds the filter text, letter case aside.

use vstd::prelude::*;
use crate::item::Item;
use crate::text::{contains, is_substring, lemma_empty_is_substring, lowercase_of, to_lowercase};

verus! {

/// The item's title or channel name, in lower case, holds `filter`.
/// The filter is taken as it is: callers pass it in lower case.
pub open spec fn matches_filter(it: Item, filter: Seq<char>) -> bool {
    ||| is_substring(filter, lowercase_of(it.title@))
    ||| is_substring(filter, lowercase_of(it.channel_title@))
}

/// The test "matches `filter`".
pub open spec fn matching(filter: Seq<char>) -> spec_fn(Item) -> bool {
    |it: Item| matches_filter(it, filter)
}

/// The items of `s` that match `filter`, in their order; all of `s` for the
/// empty filter.
pub open spec fn filtered(s: Seq<Item>, filter: Seq<char>) -> Seq<Item> {
    if filter.len() == 0 {
        s
    } else {
        s.filter(matching(filter))
    }
}

/// Every item matches the empty filter, so [`filtered`] is the plain
/// filter by [`matching`] for every filter text, the empty one included.
pub proof fn lemma_filtered_is_filter(s: Seq<Item>, filter: Seq<char>)
    ensures
        filtered(s, filter) == s.filter(matching(filter)),
    decreases s.len(),
{
    reveal(Seq::filter);
    if filter.len() == 0 {
        assert(filter =~= Seq::<char>::empty());
        if s.len() > 0 {
            lemma_filtered_is_filter(s.drop_last(), filter);
            lemma_empty_is_substring(lowercase_of(s.last().title@));
            assert(matching(filter)(s.last()));
            assert(s.drop_last().push(s.last()) =~= s);
        }
    }
}

/// The filter is exact: every item it keeps matches and comes from the
/// input, every matching item of the input is kept, and the empty filter
/// keeps the input as it is.
pub proof fn lemma_filtered_exact(s: Seq<Item>, filter: Seq<char>)
    ensures
        forall|i: int|
            0 <= i < filtered(s, filter).len() ==> matches_filter(
                #[trigger] filtered(s, filter)[i],
                filter,
            ),
        forall|i: int|
            0 <= i < filtered(s, filter).len() ==> s.contains(#[trigger] filtered(s, filter)[i]),
        forall|i: int|
            0 <= i < s.len() && matches_filter(s[i], filter) ==> filtered(s, filter).contains(
                #[trigger] s[i],
            ),
        filter.len() == 0 ==> filtered(s, filter) == s,
{
    lemma_filtered_is_filter(s, filter);
    let pred = matching(filter);
    let kept = s.filter(pred);
    assert forall|i: int| 0 <= i < kept.len() implies matches_filter(#[trigger] kept[i], filter)
        && s.contains(kept[i]) by {
        s.lemma_filter_pred(pred, i);
        assert(kept.contains(kept[i]));
        s.lemma_filter_contains_rev(pred, kept[i]);
    }
    assert forall|i: int| 0 <= i < s.len() && matches_filter(s[i], filter) implies kept.contains(
        #[trigger] s[i],
    ) by {
        s.lemma_filter_contains(pred, i);
    }
}

/// Decides whether one item matches the filter.
pub fn item_matches(item: &Item, filter: &str) -> (r: bool)
    ensures
        r == matches_filter(*item, filter@),
{
    let title = to_lowercase(item.title.as_str());
    if contains(title.as_str(), filter) {
        return true;
    }
    let channel = to_lowercase(item.channel_title.as_str());
    contains(channel.as_str(), filter)
}

/// Keeps the items that match the filter, in their order. The empty filter
/// keeps them all.
pub fn filter_items(items: Vec<Item>, filter: &str) -> (r: Vec<Item>)
    ensures
        r@ == filtered(items@, filter@),
{
    if filter.is_empty() {
        return items;
    }
    let ghost all = items@;
    let ghost pred = matching(filter@);
    let mut out: Vec<Item> = Vec::new();
    proof {
        reveal(Seq::filter);
        assert(all.take(0) =~= Seq::<Item>::empty());
    }
    for item in it: items
        invariant
            it.seq() == all,
            pred == matching(filter@),
            out@ == all.take(it.index() as int).filter(pred),
    {
        proof {
            let i = it.index() as int;
            reveal(Seq::filter);
            assert(item == all[i]);
            assert(all.take(i + 1).drop_last() =~= all.take(i));
            assert(all.take(i + 1).last() == all[i]);
        }
        if item_matches(&item, filter) {
            out.push(item);
        }
    }
    proof {
        assert(all.take(all.len() as int) =~= all);
    }
    out
}

} // verus!
