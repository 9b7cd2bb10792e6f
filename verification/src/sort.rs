//! Sorting the drained collection by item count, in either direction, so
//! that items of equal count keep the order in which they were collected.

use vstd::prelude::*;
use crate::item::Item;
use crate::text::{opt_str_view, str_eq};

verus! {

/// The direction of the sort by item count.
#[derive(Clone, Copy, Debug, PartialEq, Eq, Structural)]
pub enum SortOrder {
    Asc,
    Desc,
}

/// The direction that a request asks for: ascending for exactly `asc`,
/// descending for anything else and for nothing.
pub open spec fn sort_order_of(requested: Option<Seq<char>>) -> SortOrder {
    if requested == Some("asc"@) {
        SortOrder::Asc
    } else {
        SortOrder::Desc
    }
}

impl SortOrder {
    /// Reads the direction off a request.
    pub fn parse(requested: Option<&str>) -> (r: SortOrder)
        ensures
            r == sort_order_of(opt_str_view(requested)),
    {
        match requested {
            Some(s) => {
                if str_eq(s, "asc") {
                    SortOrder::Asc
                } else {
                    SortOrder::Desc
                }
            },
            None => SortOrder::Desc,
        }
    }

    /// The word for the direction in a response: `asc` or `desc`.
    pub fn as_str(&self) -> (r: &'static str)
        ensures
            r@ == (match *self {
                SortOrder::Asc => "asc"@,
                SortOrder::Desc => "desc"@,
            }),
    {
        match self {
            SortOrder::Asc => "asc",
            SortOrder::Desc => "desc",
        }
    }
}

/// A count `a` may stand before a count `b`.
pub open spec fn in_order(a: i64, b: i64, order: SortOrder) -> bool {
    match order {
        SortOrder::Asc => a <= b,
        SortOrder::Desc => a >= b,
    }
}

/// A count `a` must stand before a count `b`.
pub open spec fn strictly_before(a: i64, b: i64, order: SortOrder) -> bool {
    match order {
        SortOrder::Asc => a < b,
        SortOrder::Desc => a > b,
    }
}

/// Every item of `s` may stand before every later one.
pub open spec fn ordered(s: Seq<Item>, order: SortOrder) -> bool {
    forall|i: int, j: int|
        0 <= i < j < s.len() ==> in_order(
            (#[trigger] s[i]).total_item_count,
            (#[trigger] s[j]).total_item_count,
            order,
        )
}

/// The test "has the count `k`".
pub open spec fn has_count(k: i64) -> spec_fn(Item) -> bool {
    |it: Item| it.total_item_count == k
}

/// The items of `s` whose count is `k`, in the order they have in `s`.
pub open spec fn with_count(s: Seq<Item>, k: i64) -> Seq<Item> {
    s.filter(has_count(k))
}

/// `out` is `inp` sorted by count in the given direction, with ties left
/// in their order: `out` is ordered, and for every count the items of that
/// count are the same, in the same order, in both.
pub open spec fn is_stable_sort_of(out: Seq<Item>, inp: Seq<Item>, order: SortOrder) -> bool {
    &&& ordered(out, order)
    &&& forall|k: i64| #[trigger] with_count(out, k) == with_count(inp, k)
}

/// How many leading items of the ordered sequence `t` must stay before a
/// new item of count `count` that is to precede all its equals.
pub open spec fn insert_point(t: Seq<Item>, count: i64, order: SortOrder) -> int
    decreases t.len(),
{
    if t.len() > 0 && strictly_before(t[0].total_item_count, count, order) {
        1 + insert_point(t.drop_first(), count, order)
    } else {
        0
    }
}

/// The stable sort of `s` by count: each item is put into the sorted rest
/// behind it, before every item it ties with.
pub open spec fn stable_sorted(s: Seq<Item>, order: SortOrder) -> Seq<Item>
    decreases s.len(),
{
    if s.len() == 0 {
        s
    } else {
        let rest = stable_sorted(s.drop_first(), order);
        rest.insert(insert_point(rest, s[0].total_item_count, order), s[0])
    }
}

proof fn lemma_insert_point(t: Seq<Item>, count: i64, order: SortOrder)
    ensures
        0 <= insert_point(t, count, order) <= t.len(),
        forall|i: int|
            0 <= i < insert_point(t, count, order) ==> strictly_before(
                (#[trigger] t[i]).total_item_count,
                count,
                order,
            ),
        insert_point(t, count, order) < t.len() ==> !strictly_before(
            t[insert_point(t, count, order)].total_item_count,
            count,
            order,
        ),
    decreases t.len(),
{
    if t.len() > 0 && strictly_before(t[0].total_item_count, count, order) {
        let rest = t.drop_first();
        lemma_insert_point(rest, count, order);
        let p = insert_point(rest, count, order);
        assert forall|i: int| 0 <= i < p + 1 implies strictly_before(
            (#[trigger] t[i]).total_item_count,
            count,
            order,
        ) by {
            if i > 0 {
                assert(t[i] == rest[i - 1]);
            }
        }
        if p + 1 < t.len() {
            assert(t[p + 1] == rest[p]);
        }
    }
}

proof fn lemma_filter_one(x: Item, pred: spec_fn(Item) -> bool)
    ensures
        seq![x].filter(pred) == if pred(x) {
            seq![x]
        } else {
            Seq::<Item>::empty()
        },
{
    reveal_with_fuel(Seq::filter, 2);
    assert(seq![x].drop_last() =~= Seq::<Item>::empty());
    assert(Seq::<Item>::empty().push(x) =~= seq![x]);
}

proof fn lemma_filter_none(s: Seq<Item>, pred: spec_fn(Item) -> bool)
    requires
        forall|i: int| 0 <= i < s.len() ==> !pred(#[trigger] s[i]),
    ensures
        s.filter(pred) == Seq::<Item>::empty(),
    decreases s.len(),
{
    reveal(Seq::filter);
    if s.len() > 0 {
        lemma_filter_none(s.drop_last(), pred);
    } else {
        assert(s =~= Seq::<Item>::empty());
    }
}

/// Filtering a sequence with one more item put in at `p`.
proof fn lemma_filter_insert(s: Seq<Item>, p: int, x: Item, pred: spec_fn(Item) -> bool)
    requires
        0 <= p <= s.len(),
    ensures
        s.insert(p, x).filter(pred) == s.take(p).filter(pred) + seq![x].filter(pred) + s.skip(
            p,
        ).filter(pred),
        s.filter(pred) == s.take(p).filter(pred) + s.skip(p).filter(pred),
{
    assert(s.insert(p, x) =~= s.take(p) + seq![x] + s.skip(p));
    assert(s =~= s.take(p) + s.skip(p));
    Seq::filter_distributes_over_add(s.take(p) + seq![x], s.skip(p), pred);
    Seq::filter_distributes_over_add(s.take(p), seq![x], pred);
    Seq::filter_distributes_over_add(s.take(p), s.skip(p), pred);
}

/// Putting an item into an ordered sequence at its insert point keeps the
/// sequence ordered and puts the item first among the items of its count.
proof fn lemma_insert_at_point(t: Seq<Item>, x: Item, order: SortOrder)
    requires
        ordered(t, order),
    ensures
        ordered(t.insert(insert_point(t, x.total_item_count, order), x), order),
        forall|k: i64| #[trigger]
            with_count(t.insert(insert_point(t, x.total_item_count, order), x), k) == if k
                == x.total_item_count {
                seq![x] + with_count(t, k)
            } else {
                with_count(t, k)
            },
{
    let c = x.total_item_count;
    let p = insert_point(t, c, order);
    let out = t.insert(p, x);
    lemma_insert_point(t, c, order);
    assert forall|i: int, j: int| 0 <= i < j < out.len() implies in_order(
        (#[trigger] out[i]).total_item_count,
        (#[trigger] out[j]).total_item_count,
        order,
    ) by {
        if j < p {
            assert(out[i] == t[i] && out[j] == t[j]);
        } else if j == p {
            assert(out[i] == t[i]);
        } else if i < p {
            assert(out[i] == t[i] && out[j] == t[j - 1]);
        } else if i == p {
            assert(out[j] == t[j - 1]);
            assert(in_order(t[p].total_item_count, t[j - 1].total_item_count, order) || p == j
                - 1);
        } else {
            assert(out[i] == t[i - 1] && out[j] == t[j - 1]);
        }
    }
    assert forall|k: i64| #[trigger]
        with_count(out, k) == if k == c {
            seq![x] + with_count(t, k)
        } else {
            with_count(t, k)
        } by {
        let pred = has_count(k);
        lemma_filter_insert(t, p, x, pred);
        lemma_filter_one(x, pred);
        if k == c {
            assert forall|i: int| 0 <= i < t.take(p).len() implies !pred(
                #[trigger] t.take(p)[i],
            ) by {
                assert(t.take(p)[i] == t[i]);
            }
            lemma_filter_none(t.take(p), pred);
            assert(Seq::<Item>::empty() + seq![x] + t.skip(p).filter(pred) =~= seq![x] + (
            Seq::<Item>::empty() + t.skip(p).filter(pred)));
        } else {
            assert(t.take(p).filter(pred) + Seq::<Item>::empty() + t.skip(p).filter(pred)
                =~= t.take(p).filter(pred) + t.skip(p).filter(pred));
        }
    }
}

/// Filtering a sequence with its first item split off.
proof fn lemma_filter_first(s: Seq<Item>, pred: spec_fn(Item) -> bool)
    requires
        s.len() > 0,
    ensures
        s.filter(pred) == seq![s[0]].filter(pred) + s.drop_first().filter(pred),
{
    assert(s =~= seq![s[0]] + s.drop_first());
    Seq::filter_distributes_over_add(seq![s[0]], s.drop_first(), pred);
}

/// [`stable_sorted`] is a stable sort: its result is ordered, holds the
/// items of each count in the order they had, and is a rearrangement of
/// the input.
pub proof fn lemma_stable_sorted(s: Seq<Item>, order: SortOrder)
    ensures
        is_stable_sort_of(stable_sorted(s, order), s, order),
        stable_sorted(s, order).len() == s.len(),
        stable_sorted(s, order).to_multiset() == s.to_multiset(),
    decreases s.len(),
{
    broadcast use vstd::seq_lib::group_to_multiset_ensures;

    if s.len() == 0 {
    } else {
        let x = s[0];
        let tail = s.drop_first();
        let rest = stable_sorted(tail, order);
        lemma_stable_sorted(tail, order);
        lemma_insert_point(rest, x.total_item_count, order);
        lemma_insert_at_point(rest, x, order);
        let p = insert_point(rest, x.total_item_count, order);
        let out = rest.insert(p, x);
        assert forall|k: i64| #[trigger] with_count(out, k) == with_count(s, k) by {
            lemma_filter_first(s, has_count(k));
            lemma_filter_one(x, has_count(k));
            assert(with_count(rest, k) == with_count(tail, k));
            if k != x.total_item_count {
                assert(Seq::<Item>::empty() + with_count(tail, k) =~= with_count(tail, k));
            }
        }
        assert(s =~= tail.insert(0, x));
        assert(out.to_multiset() =~= s.to_multiset());
    }
}

/// In an ordered sequence each item may stand before its successor.
pub proof fn lemma_ordered_adjacent(s: Seq<Item>, order: SortOrder)
    requires
        ordered(s, order),
    ensures
        forall|i: int|
            0 <= i < s.len() - 1 ==> in_order(
                (#[trigger] s[i]).total_item_count,
                s[i + 1].total_item_count,
                order,
            ),
{
    assert forall|i: int| 0 <= i < s.len() - 1 implies in_order(
        (#[trigger] s[i]).total_item_count,
        s[i + 1].total_item_count,
        order,
    ) by {
        let a = s[i];
        let b = s[i + 1];
    }
}

/// Dropping items from an ordered sequence leaves it ordered.
pub proof fn lemma_filter_keeps_order(s: Seq<Item>, pred: spec_fn(Item) -> bool, order: SortOrder)
    requires
        ordered(s, order),
    ensures
        ordered(s.filter(pred), order),
    decreases s.len(),
{
    reveal(Seq::filter);
    if s.len() > 0 {
        let rest = s.drop_last();
        let kept = rest.filter(pred);
        assert forall|i: int, j: int| 0 <= i < j < rest.len() implies in_order(
            (#[trigger] rest[i]).total_item_count,
            (#[trigger] rest[j]).total_item_count,
            order,
        ) by {
            assert(rest[i] == s[i] && rest[j] == s[j]);
        }
        lemma_filter_keeps_order(rest, pred, order);
        if pred(s.last()) {
            let out = kept.push(s.last());
            assert forall|i: int, j: int| 0 <= i < j < out.len() implies in_order(
                (#[trigger] out[i]).total_item_count,
                (#[trigger] out[j]).total_item_count,
                order,
            ) by {
                if j < kept.len() {
                    assert(out[i] == kept[i] && out[j] == kept[j]);
                } else {
                    assert(out[i] == kept[i]);
                    assert(kept.contains(kept[i]));
                    rest.lemma_filter_contains_rev(pred, kept[i]);
                    let a = choose|a: int| 0 <= a < rest.len() && rest[a] == kept[i];
                    assert(s[a] == kept[i]);
                    assert(out[j] == s[s.len() - 1]);
                }
            }
        }
    }
}

/// Two filters may be applied in either order.
pub proof fn lemma_filter_commutes(
    s: Seq<Item>,
    p: spec_fn(Item) -> bool,
    q: spec_fn(Item) -> bool,
)
    ensures
        s.filter(p).filter(q) == s.filter(q).filter(p),
    decreases s.len(),
{
    reveal(Seq::filter);
    if s.len() > 0 {
        let rest = s.drop_last();
        let x = s.last();
        lemma_filter_commutes(rest, p, q);
        if p(x) {
            assert(rest.filter(p).push(x).drop_last() =~= rest.filter(p));
        }
        if q(x) {
            assert(rest.filter(q).push(x).drop_last() =~= rest.filter(q));
        }
    }
}

/// There is one stable sort: two ordered sequences that hold, for every
/// count, the same items of that count in the same order are equal.
pub proof fn lemma_stable_sort_unique(a: Seq<Item>, b: Seq<Item>, order: SortOrder)
    requires
        ordered(a, order),
        ordered(b, order),
        forall|k: i64| #[trigger] with_count(a, k) == with_count(b, k),
    ensures
        a == b,
    decreases a.len(),
{
    if a.len() == 0 || b.len() == 0 {
        if a.len() > 0 {
            let k = a[0].total_item_count;
            a.lemma_filter_contains(has_count(k), 0);
            b.lemma_filter_len(has_count(k));
            assert(with_count(a, k) == with_count(b, k));
        }
        if b.len() > 0 {
            let k = b[0].total_item_count;
            b.lemma_filter_contains(has_count(k), 0);
            a.lemma_filter_len(has_count(k));
            assert(with_count(a, k) == with_count(b, k));
        }
        assert(a =~= b);
    } else {
        let ka = a[0].total_item_count;
        let kb = b[0].total_item_count;
        assert(in_order(kb, ka, order)) by {
            a.lemma_filter_contains(has_count(ka), 0);
            assert(with_count(a, ka) == with_count(b, ka));
            b.lemma_filter_contains_rev(has_count(ka), a[0]);
            let j = choose|j: int| 0 <= j < b.len() && b[j] == a[0];
            if j > 0 {
                assert(in_order(b[0].total_item_count, b[j].total_item_count, order));
            }
        }
        assert(in_order(ka, kb, order)) by {
            b.lemma_filter_contains(has_count(kb), 0);
            assert(with_count(a, kb) == with_count(b, kb));
            a.lemma_filter_contains_rev(has_count(kb), b[0]);
            let j = choose|j: int| 0 <= j < a.len() && a[j] == b[0];
            if j > 0 {
                assert(in_order(a[0].total_item_count, a[j].total_item_count, order));
            }
        }
        assert(ka == kb);
        let ta = a.drop_first();
        let tb = b.drop_first();
        assert(a[0] == b[0]) by {
            lemma_filter_first(a, has_count(ka));
            lemma_filter_first(b, has_count(ka));
            lemma_filter_one(a[0], has_count(ka));
            lemma_filter_one(b[0], has_count(ka));
            assert(with_count(a, ka) == with_count(b, ka));
            assert((seq![a[0]] + ta.filter(has_count(ka)))[0] == a[0]);
            assert((seq![b[0]] + tb.filter(has_count(ka)))[0] == b[0]);
        }
        assert forall|k: i64| #[trigger] with_count(ta, k) == with_count(tb, k) by {
            let x = seq![a[0]].filter(has_count(k));
            lemma_filter_first(a, has_count(k));
            lemma_filter_first(b, has_count(k));
            assert(with_count(a, k) == with_count(b, k));
            assert((x + with_count(ta, k)).skip(x.len() as int) =~= with_count(ta, k));
            assert((x + with_count(tb, k)).skip(x.len() as int) =~= with_count(tb, k));
        }
        assert forall|i: int, j: int| 0 <= i < j < ta.len() implies in_order(
            (#[trigger] ta[i]).total_item_count,
            (#[trigger] ta[j]).total_item_count,
            order,
        ) by {
            assert(ta[i] == a[i + 1] && ta[j] == a[j + 1]);
        }
        assert forall|i: int, j: int| 0 <= i < j < tb.len() implies in_order(
            (#[trigger] tb[i]).total_item_count,
            (#[trigger] tb[j]).total_item_count,
            order,
        ) by {
            assert(tb[i] == b[i + 1] && tb[j] == b[j + 1]);
        }
        lemma_stable_sort_unique(ta, tb, order);
        assert(a =~= seq![a[0]] + ta);
        assert(b =~= seq![b[0]] + tb);
    }
}

/// Decides [`strictly_before`].
pub fn must_precede(a: i64, b: i64, order: SortOrder) -> (r: bool)
    ensures
        r == strictly_before(a, b, order),
{
    match order {
        SortOrder::Asc => a < b,
        SortOrder::Desc => a > b,
    }
}

/// What is known while two ordered runs are merged from their ends:
/// `left` and `right` are what is still to merge of `l0` and `r0`, and
/// `tail` is the end of the merged sequence, built so far.
spec fn merging(
    l0: Seq<Item>,
    r0: Seq<Item>,
    left: Seq<Item>,
    right: Seq<Item>,
    tail: Seq<Item>,
    order: SortOrder,
) -> bool {
    &&& left.len() <= l0.len()
    &&& right.len() <= r0.len()
    &&& left == l0.take(left.len() as int)
    &&& right == r0.take(right.len() as int)
    &&& ordered(l0, order)
    &&& ordered(r0, order)
    &&& ordered(tail, order)
    &&& tail.len() == (l0.len() - left.len()) + (r0.len() - right.len())
    &&& forall|i: int, t: int|
        0 <= i < left.len() && 0 <= t < tail.len() ==> in_order(
            (#[trigger] l0[i]).total_item_count,
            (#[trigger] tail[t]).total_item_count,
            order,
        )
    &&& forall|j: int, t: int|
        0 <= j < right.len() && 0 <= t < tail.len() ==> in_order(
            (#[trigger] r0[j]).total_item_count,
            (#[trigger] tail[t]).total_item_count,
            order,
        )
    &&& forall|i: int, j: int|
        left.len() <= i < l0.len() && 0 <= j < right.len() ==> strictly_before(
            (#[trigger] r0[j]).total_item_count,
            (#[trigger] l0[i]).total_item_count,
            order,
        )
    &&& forall|k: i64| #[trigger]
        with_count(tail, k) == with_count(l0.skip(left.len() as int), k) + with_count(
            r0.skip(right.len() as int),
            k,
        )
}

/// Moving the last item of the left run to the front of the tail keeps
/// what is known, if it must stand behind the last item of the right run
/// or the right run is used up.
proof fn lemma_merge_take_left(
    l0: Seq<Item>,
    r0: Seq<Item>,
    left: Seq<Item>,
    right: Seq<Item>,
    tail: Seq<Item>,
    order: SortOrder,
)
    requires
        merging(l0, r0, left, right, tail, order),
        left.len() > 0,
        right.len() > 0 ==> strictly_before(
            right.last().total_item_count,
            left.last().total_item_count,
            order,
        ),
    ensures
        merging(l0, r0, left.drop_last(), right, seq![left.last()] + tail, order),
{
    let l = left.len() as int;
    let r = right.len() as int;
    let a = left.last();
    let tail2 = seq![a] + tail;
    let left2 = left.drop_last();
    assert(a == l0[l - 1]);
    assert(left2 =~= l0.take(l - 1));
    assert forall|i: int, j: int| 0 <= i < j < tail2.len() implies in_order(
        (#[trigger] tail2[i]).total_item_count,
        (#[trigger] tail2[j]).total_item_count,
        order,
    ) by {
        if i == 0 {
            assert(tail2[j] == tail[j - 1]);
            assert(in_order(l0[l - 1].total_item_count, tail[j - 1].total_item_count, order));
        } else {
            assert(tail2[i] == tail[i - 1] && tail2[j] == tail[j - 1]);
        }
    }
    assert forall|i: int, t: int| 0 <= i < left2.len() && 0 <= t < tail2.len() implies in_order(
        (#[trigger] l0[i]).total_item_count,
        (#[trigger] tail2[t]).total_item_count,
        order,
    ) by {
        if t == 0 {
            assert(in_order(l0[i].total_item_count, l0[l - 1].total_item_count, order));
        } else {
            assert(tail2[t] == tail[t - 1]);
        }
    }
    assert forall|j: int, t: int| 0 <= j < right.len() && 0 <= t < tail2.len() implies in_order(
        (#[trigger] r0[j]).total_item_count,
        (#[trigger] tail2[t]).total_item_count,
        order,
    ) by {
        if t == 0 {
            assert(right.last() == r0[r - 1]);
            if j < r - 1 {
                assert(in_order(r0[j].total_item_count, r0[r - 1].total_item_count, order));
            }
        } else {
            assert(tail2[t] == tail[t - 1]);
        }
    }
    assert forall|i: int, j: int|
        left2.len() <= i < l0.len() && 0 <= j < right.len() implies strictly_before(
        (#[trigger] r0[j]).total_item_count,
        (#[trigger] l0[i]).total_item_count,
        order,
    ) by {
        if i == l - 1 {
            assert(right.last() == r0[r - 1]);
            if j < r - 1 {
                assert(in_order(r0[j].total_item_count, r0[r - 1].total_item_count, order));
            }
        }
    }
    assert forall|k: i64| #[trigger]
        with_count(tail2, k) == with_count(l0.skip(l - 1), k) + with_count(r0.skip(r), k) by {
        let pred = has_count(k);
        assert(l0.skip(l - 1) =~= seq![a] + l0.skip(l));
        Seq::filter_distributes_over_add(seq![a], tail, pred);
        Seq::filter_distributes_over_add(seq![a], l0.skip(l), pred);
        assert(with_count(tail, k) == with_count(l0.skip(l), k) + with_count(r0.skip(r), k));
        assert(seq![a].filter(pred) + (l0.skip(l).filter(pred) + r0.skip(r).filter(pred)) =~= (
        seq![a].filter(pred) + l0.skip(l).filter(pred)) + r0.skip(r).filter(pred));
    }
}

/// Moving the last item of the right run to the front of the tail keeps
/// what is known, if it need not stand before the last item of the left
/// run or the left run is used up.
proof fn lemma_merge_take_right(
    l0: Seq<Item>,
    r0: Seq<Item>,
    left: Seq<Item>,
    right: Seq<Item>,
    tail: Seq<Item>,
    order: SortOrder,
)
    requires
        merging(l0, r0, left, right, tail, order),
        right.len() > 0,
        left.len() > 0 ==> !strictly_before(
            right.last().total_item_count,
            left.last().total_item_count,
            order,
        ),
    ensures
        merging(l0, r0, left, right.drop_last(), seq![right.last()] + tail, order),
{
    let l = left.len() as int;
    let r = right.len() as int;
    let b = right.last();
    let tail2 = seq![b] + tail;
    let right2 = right.drop_last();
    assert(b == r0[r - 1]);
    assert(right2 =~= r0.take(r - 1));
    assert forall|i: int, j: int| 0 <= i < j < tail2.len() implies in_order(
        (#[trigger] tail2[i]).total_item_count,
        (#[trigger] tail2[j]).total_item_count,
        order,
    ) by {
        if i == 0 {
            assert(tail2[j] == tail[j - 1]);
            assert(in_order(r0[r - 1].total_item_count, tail[j - 1].total_item_count, order));
        } else {
            assert(tail2[i] == tail[i - 1] && tail2[j] == tail[j - 1]);
        }
    }
    assert forall|i: int, t: int| 0 <= i < left.len() && 0 <= t < tail2.len() implies in_order(
        (#[trigger] l0[i]).total_item_count,
        (#[trigger] tail2[t]).total_item_count,
        order,
    ) by {
        if t == 0 {
            assert(left.last() == l0[l - 1]);
            if i < l - 1 {
                assert(in_order(l0[i].total_item_count, l0[l - 1].total_item_count, order));
            }
        } else {
            assert(tail2[t] == tail[t - 1]);
        }
    }
    assert forall|j: int, t: int| 0 <= j < right2.len() && 0 <= t < tail2.len() implies in_order(
        (#[trigger] r0[j]).total_item_count,
        (#[trigger] tail2[t]).total_item_count,
        order,
    ) by {
        if t == 0 {
            assert(in_order(r0[j].total_item_count, r0[r - 1].total_item_count, order));
        } else {
            assert(tail2[t] == tail[t - 1]);
        }
    }
    assert forall|k: i64| #[trigger]
        with_count(tail2, k) == with_count(l0.skip(l), k) + with_count(r0.skip(r - 1), k) by {
        let pred = has_count(k);
        assert(r0.skip(r - 1) =~= seq![b] + r0.skip(r));
        Seq::filter_distributes_over_add(seq![b], tail, pred);
        Seq::filter_distributes_over_add(seq![b], r0.skip(r), pred);
        lemma_filter_one(b, pred);
        assert(with_count(tail, k) == with_count(l0.skip(l), k) + with_count(r0.skip(r), k));
        if k == b.total_item_count {
            assert forall|i: int| 0 <= i < l0.skip(l).len() implies !pred(
                #[trigger] l0.skip(l)[i],
            ) by {
                assert(l0.skip(l)[i] == l0[l + i]);
                assert(strictly_before(r0[r - 1].total_item_count, l0[l + i].total_item_count, order));
            }
            lemma_filter_none(l0.skip(l), pred);
            assert(seq![b] + (Seq::<Item>::empty() + r0.skip(r).filter(pred)) =~= Seq::<
                Item,
            >::empty() + (seq![b] + r0.skip(r).filter(pred)));
        } else {
            assert(Seq::<Item>::empty() + (l0.skip(l).filter(pred) + r0.skip(r).filter(pred))
                =~= l0.skip(l).filter(pred) + (Seq::<Item>::empty() + r0.skip(r).filter(pred)));
        }
    }
}

/// Merges two ordered runs into one. Where an item of the left run ties
/// with one of the right run, the left one comes first.
fn merge(left: Vec<Item>, right: Vec<Item>, order: SortOrder) -> (r: Vec<Item>)
    requires
        ordered(left@, order),
        ordered(right@, order),
    ensures
        is_stable_sort_of(r@, left@ + right@, order),
{
    let ghost l0 = left@;
    let ghost r0 = right@;
    let ghost mut tail: Seq<Item> = Seq::empty();
    let mut left = left;
    let mut right = right;
    let mut reversed: Vec<Item> = Vec::new();
    proof {
        assert(l0.take(l0.len() as int) =~= l0);
        assert(r0.take(r0.len() as int) =~= r0);
        assert(l0.skip(l0.len() as int) =~= Seq::<Item>::empty());
        assert(r0.skip(r0.len() as int) =~= Seq::<Item>::empty());
        assert forall|k: i64| #[trigger]
            with_count(tail, k) == with_count(l0.skip(l0.len() as int), k) + with_count(
                r0.skip(r0.len() as int),
                k,
            ) by {
            lemma_filter_none(Seq::<Item>::empty(), has_count(k));
        }
    }
    while left.len() > 0 || right.len() > 0
        invariant
            merging(l0, r0, left@, right@, tail, order),
            reversed@.len() == tail.len(),
            forall|i: int| 0 <= i < tail.len() ==> reversed@[i] == tail[tail.len() - 1 - i],
        decreases left.len() + right.len(),
    {
        let from_left = if right.len() == 0 {
            true
        } else if left.len() == 0 {
            false
        } else {
            must_precede(
                right[right.len() - 1].total_item_count,
                left[left.len() - 1].total_item_count,
                order,
            )
        };
        let ghost before = tail;
        if from_left {
            proof {
                lemma_merge_take_left(l0, r0, left@, right@, tail, order);
                tail = seq![left@.last()] + tail;
            }
            let x = left.pop().unwrap();
            reversed.push(x);
        } else {
            proof {
                lemma_merge_take_right(l0, r0, left@, right@, tail, order);
                tail = seq![right@.last()] + tail;
            }
            let x = right.pop().unwrap();
            reversed.push(x);
        }
        proof {
            assert forall|i: int| 0 <= i < tail.len() implies reversed@[i] == tail[tail.len() - 1
                - i] by {
                if i < before.len() {
                    assert(tail[tail.len() - 1 - i] == before[before.len() - 1 - i]);
                }
            }
        }
    }
    let mut out: Vec<Item> = Vec::new();
    while reversed.len() > 0
        invariant
            reversed@.len() + out@.len() == tail.len(),
            out@ == tail.take(out@.len() as int),
            forall|i: int| 0 <= i < reversed@.len() ==> reversed@[i] == tail[tail.len() - 1 - i],
        decreases reversed.len(),
    {
        let ghost n = out@.len() as int;
        let x = reversed.pop().unwrap();
        out.push(x);
        proof {
            assert(x == tail[n]);
            assert(out@ =~= tail.take(n + 1));
        }
    }
    proof {
        assert(out@ =~= tail);
        assert(l0.skip(0) =~= l0);
        assert(r0.skip(0) =~= r0);
        assert forall|k: i64| #[trigger] with_count(out@, k) == with_count(l0 + r0, k) by {
            Seq::filter_distributes_over_add(l0, r0, has_count(k));
            assert(with_count(tail, k) == with_count(l0.skip(0), k) + with_count(r0.skip(0), k));
        }
    }
    out
}

/// Sorts the items by count in the given direction. Items of equal count
/// keep the order they came in.
pub fn sort_items(items: Vec<Item>, order: SortOrder) -> (r: Vec<Item>)
    ensures
        r@ == stable_sorted(items@, order),
        is_stable_sort_of(r@, items@, order),
        r@.len() == items@.len(),
        r@.to_multiset() == items@.to_multiset(),
    decreases items.len(),
{
    let ghost all = items@;
    let n = items.len();
    proof {
        lemma_stable_sorted(all, order);
    }
    if n <= 1 {
        proof {
            lemma_stable_sort_unique(all, stable_sorted(all, order), order);
        }
        return items;
    }
    let half = n / 2;
    let mut left = items;
    let right = left.split_off(half);
    let ghost first = left@;
    let ghost second = right@;
    let left = sort_items(left, order);
    let right = sort_items(right, order);
    let out = merge(left, right, order);
    proof {
        assert(all =~= first + second);
        assert forall|k: i64| #[trigger] with_count(out@, k) == with_count(all, k) by {
            Seq::filter_distributes_over_add(left@, right@, has_count(k));
            Seq::filter_distributes_over_add(first, second, has_count(k));
            assert(with_count(left@, k) == with_count(first, k));
            assert(with_count(right@, k) == with_count(second, k));
        }
        lemma_stable_sort_unique(out@, stable_sorted(all, order), order);
    }
    out
}

} // verus!
