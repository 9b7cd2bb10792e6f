//! What holds of the library as a whole: laws that tie the sort, the
//! filter, the pager, the cache and the request handlers together. Each is
//! a theorem over the spec functions that the contracts of the executable
//! functions are written in.

use vstd::prelude::*;
use crate::cache::{is_fresh, lookup, CacheKeyView, CacheView};
use crate::filter::{
    filtered,
    lemma_filtered_exact,
    lemma_filtered_is_filter,
    matches_filter,
    matching,
};
use crate::item::Item;
use crate::mutation::{deleted_ids, invalidated, refreshed, unsubscribed, DeleteReply};
use crate::paging::{page_slice, page_start};
use crate::query::{normalized_limit, normalized_page, SubscriptionsQuery};
use crate::sort::{
    has_count,
    in_order,
    is_stable_sort_of,
    lemma_filter_commutes,
    lemma_filter_keeps_order,
    lemma_ordered_adjacent,
    lemma_stable_sorted,
    ordered,
    stable_sorted,
    with_count,
    SortOrder,
};
use crate::state::AppState;
use crate::subscriptions::{
    materialized,
    page_absorbed,
    query_started,
    request_key,
    QuerySession,
    QueryStep,
};
use crate::upstream::{QueryError, UpstreamPage};

verus! {

/// The smaller of two numbers.
pub open spec fn at_most(a: int, b: int) -> int {
    if a <= b {
        a
    } else {
        b
    }
}

/// Without a filter, page `page` of `limit` items is the part of the whole
/// sorted collection from index `(page - 1) * limit` up to `page * limit`,
/// both cut off at the collection's size.
pub proof fn law_unfiltered_page(all: Seq<Item>, order: SortOrder, page: int, limit: int)
    requires
        page >= 1,
        limit >= 1,
    ensures
        is_stable_sort_of(stable_sorted(all, order), all, order),
        page_slice(materialized(all, Seq::empty(), order), page, limit) == stable_sorted(
            all,
            order,
        ).subrange(
            at_most((page - 1) * limit, all.len() as int),
            at_most(page * limit, all.len() as int),
        ),
{
    lemma_stable_sorted(all, order);
    let sorted = stable_sorted(all, order);
    let total = all.len() as int;
    assert((page - 1) * limit >= 0 && page * limit == (page - 1) * limit + limit)
        by (nonlinear_arith)
        requires
            page >= 1,
            limit >= 1,
    ;
    assert(materialized(all, Seq::empty(), order) == sorted);
    if page_start(page, limit) >= total {
        assert(sorted.subrange(total, total) =~= Seq::<Item>::empty());
    }
}

/// A request without filter whose drain completes is answered with the
/// part of the whole sorted collection that its page and limit name.
pub proof fn law_unfiltered_request(
    pre: AppState,
    session: QuerySession,
    page: UpstreamPage,
    now: u128,
    step: QueryStep,
    post: AppState,
)
    requires
        session.wf(),
        session.query.filter@.len() == 0,
        page_absorbed(pre, session, page, now, step, post),
        step is Respond,
    ensures
        step->Respond_0.items@ == stable_sorted(
            session.items@ + page.items@,
            session.query.sort,
        ).subrange(
            at_most(
                (session.query.page - 1) * session.query.limit,
                (session.items@ + page.items@).len() as int,
            ),
            at_most(
                session.query.page * session.query.limit,
                (session.items@ + page.items@).len() as int,
            ),
        ),
        step->Respond_0.total_results == (session.items@ + page.items@).len(),
{
    let all = session.items@ + page.items@;
    assert(session.query.filter@ =~= Seq::<char>::empty());
    law_unfiltered_page(all, session.query.sort, session.query.page as int, session.query.limit as int);
    lemma_stable_sorted(all, session.query.sort);
}

/// The list that is cached and paged keeps exactly the matching items: each
/// of its items matches the filter, each matching item of the collection is
/// in it, and with the empty filter it is the whole sorted collection.
pub proof fn law_result_filtered(all: Seq<Item>, filter: Seq<char>, order: SortOrder)
    ensures
        forall|i: int|
            0 <= i < materialized(all, filter, order).len() ==> matches_filter(
                #[trigger] materialized(all, filter, order)[i],
                filter,
            ),
        forall|i: int|
            0 <= i < materialized(all, filter, order).len() ==> all.contains(
                #[trigger] materialized(all, filter, order)[i],
            ),
        forall|i: int|
            0 <= i < all.len() && matches_filter(all[i], filter) ==> materialized(
                all,
                filter,
                order,
            ).contains(#[trigger] all[i]),
        filter.len() == 0 ==> materialized(all, filter, order) == stable_sorted(all, order),
{
    broadcast use vstd::seq_lib::group_to_multiset_ensures;

    let sorted = stable_sorted(all, order);
    let list = materialized(all, filter, order);
    lemma_stable_sorted(all, order);
    lemma_filtered_exact(sorted, filter);
    assert forall|i: int| 0 <= i < list.len() implies all.contains(#[trigger] list[i]) by {
        assert(sorted.contains(list[i]));
        assert(sorted.to_multiset().count(list[i]) > 0);
        assert(all.to_multiset().count(list[i]) > 0);
    }
    assert forall|i: int| 0 <= i < all.len() && matches_filter(all[i], filter) implies list.contains(
        #[trigger] all[i],
    ) by {
        assert(all.contains(all[i]));
        assert(all.to_multiset().count(all[i]) > 0);
        assert(sorted.to_multiset().count(all[i]) > 0);
        assert(sorted.contains(all[i]));
        let j = choose|j: int| 0 <= j < sorted.len() && sorted[j] == all[i];
        assert(matches_filter(sorted[j], filter));
    }
}

/// The list that is cached and paged is sorted: each item may stand before
/// its successor (a count no smaller for `Desc`, no larger for `Asc`), and
/// items of equal count stand in the order in which they were collected.
/// It is the stable sort of the matching items of the collection.
pub proof fn law_result_sorted(all: Seq<Item>, filter: Seq<char>, order: SortOrder)
    ensures
        is_stable_sort_of(materialized(all, filter, order), filtered(all, filter), order),
        forall|i: int|
            0 <= i < materialized(all, filter, order).len() - 1 ==> in_order(
                (#[trigger] materialized(all, filter, order)[i]).total_item_count,
                materialized(all, filter, order)[i + 1].total_item_count,
                order,
            ),
{
    let sorted = stable_sorted(all, order);
    let list = materialized(all, filter, order);
    let keep = matching(filter);
    lemma_stable_sorted(all, order);
    lemma_filtered_is_filter(sorted, filter);
    lemma_filtered_is_filter(all, filter);
    lemma_filter_keeps_order(sorted, keep, order);
    assert forall|k: i64| #[trigger] with_count(list, k) == with_count(filtered(all, filter), k) by {
        lemma_filter_commutes(sorted, keep, has_count(k));
        lemma_filter_commutes(all, keep, has_count(k));
        assert(with_count(sorted, k) == with_count(all, k));
    }
    lemma_ordered_adjacent(list, order);
}

/// While the list that a drain stored is fresh, every request of the same
/// identity, filter and sort direction is answered from it, whatever page
/// and limit it names: no upstream call is asked for, and the answer is the
/// page of the list that the drain materialized.
pub proof fn law_page_from_cache(
    pre: AppState,
    session: QuerySession,
    page: UpstreamPage,
    stored_at: u128,
    first: QueryStep,
    mid: AppState,
    params: SubscriptionsQuery,
    now: u128,
    ttl: u128,
    second: QueryStep,
    post: AppState,
)
    requires
        page_absorbed(pre, session, page, stored_at, first, mid),
        first is Respond,
        request_key(session.identity@, params) == session.key(),
        query_started(mid, Some(session.identity@), params, now, ttl, second, post),
        is_fresh(stored_at, now, ttl),
    ensures
        second is Respond,
        second->Respond_0.is_page_of(
            materialized(session.items@ + page.items@, session.query.filter@, session.query.sort),
            normalized_page(params.page) as int,
            normalized_limit(params.limit) as int,
            session.query.sort,
        ),
        post.subs_cache@ == mid.subs_cache@,
        post.page_tokens@ == mid.page_tokens@,
{
    assert(mid.subs_cache@.contains_key(session.key()));
}

/// A request repeated while the cached list is fresh, with nothing changed
/// in between, is answered from the cache: no upstream call is asked for,
/// and the answer holds the same items and totals as the first.
pub proof fn law_repeat_within_ttl(
    pre: AppState,
    session: QuerySession,
    page: UpstreamPage,
    stored_at: u128,
    first: QueryStep,
    mid: AppState,
    params: SubscriptionsQuery,
    now: u128,
    ttl: u128,
    second: QueryStep,
    post: AppState,
)
    requires
        page_absorbed(pre, session, page, stored_at, first, mid),
        first is Respond,
        session.query.normalizes(params),
        query_started(mid, Some(session.identity@), params, now, ttl, second, post),
        is_fresh(stored_at, now, ttl),
    ensures
        second is Respond,
        second->Respond_0.items@ == first->Respond_0.items@,
        second->Respond_0.total_results == first->Respond_0.total_results,
        second->Respond_0.total_pages == first->Respond_0.total_pages,
        post.subs_cache@ == mid.subs_cache@,
        post.page_tokens@ == mid.page_tokens@,
{
    let key = request_key(session.identity@, params);
    assert(key == session.key());
    assert(mid.subs_cache@.contains_key(key));
}

/// A request repeated once the cached list has reached its time to live
/// is not answered from the cache: the stale entry is dropped and a drain
/// of the upstream collection starts.
pub proof fn law_repeat_after_ttl(
    pre: AppState,
    session: QuerySession,
    page: UpstreamPage,
    stored_at: u128,
    first: QueryStep,
    mid: AppState,
    params: SubscriptionsQuery,
    now: u128,
    ttl: u128,
    second: QueryStep,
    post: AppState,
)
    requires
        page_absorbed(pre, session, page, stored_at, first, mid),
        first is Respond,
        session.query.normalizes(params),
        query_started(mid, Some(session.identity@), params, now, ttl, second, post),
        !is_fresh(stored_at, now, ttl),
    ensures
        second is Fetch,
        second->Fetch_0.starts(session.identity@, params),
        !post.subs_cache@.contains_key(session.key()),
{
    let key = request_key(session.identity@, params);
    assert(key == session.key());
    assert(mid.subs_cache@.contains_key(key));
}

/// The list is sorted in the direction of its key and holds only items
/// that match the filter of its key.
pub open spec fn list_in_shape(key: CacheKeyView, list: Seq<Item>) -> bool {
    &&& ordered(list, key.sort)
    &&& forall|i: int| 0 <= i < list.len() ==> matches_filter(#[trigger] list[i], key.filter)
}

/// Every cached list is in the shape that its key asks for.
pub open spec fn lists_in_shape(cache: CacheView) -> bool {
    forall|key: CacheKeyView| #[trigger]
        cache.contains_key(key) ==> list_in_shape(key, cache[key].items)
}

/// Absorbing a page keeps the cache in shape: the list that a completed
/// drain stores is sorted and filtered as its key says, and the other lists
/// stay as they were.
pub proof fn law_drain_keeps_lists_in_shape(
    pre: AppState,
    session: QuerySession,
    page: UpstreamPage,
    now: u128,
    step: QueryStep,
    post: AppState,
)
    requires
        lists_in_shape(pre.subs_cache@),
        page_absorbed(pre, session, page, now, step, post),
    ensures
        lists_in_shape(post.subs_cache@),
{
    let before = pre.subs_cache@;
    let after = post.subs_cache@;
    let all = session.items@ + page.items@;
    if step is Respond {
        law_result_sorted(all, session.query.filter@, session.query.sort);
        law_result_filtered(all, session.query.filter@, session.query.sort);
        assert(list_in_shape(
            session.key(),
            materialized(all, session.query.filter@, session.query.sort),
        ));
    }
    assert forall|key: CacheKeyView| #[trigger] after.contains_key(key) implies list_in_shape(
        key,
        after[key].items,
    ) by {
        if !(step is Respond && key == session.key()) {
            assert(before.contains_key(key));
        }
    }
}

/// Starting a request and invalidating an identity keep the cache in
/// shape: they only drop lists.
pub proof fn law_reads_keep_lists_in_shape(
    pre: AppState,
    identity: Seq<char>,
    params: SubscriptionsQuery,
    now: u128,
    ttl: u128,
    step: QueryStep,
    post: AppState,
)
    requires
        lists_in_shape(pre.subs_cache@),
        query_started(pre, Some(identity), params, now, ttl, step, post) || invalidated(
            pre,
            identity,
            post,
        ),
    ensures
        lists_in_shape(post.subs_cache@),
{
    let before = pre.subs_cache@;
    let after = post.subs_cache@;
    assert forall|key: CacheKeyView| #[trigger] after.contains_key(key) implies list_in_shape(
        key,
        after[key].items,
    ) by {
        assert(before.contains_key(key));
    }
}

/// Invalidation is contained: the cached lists and the cursor chains of
/// every other identity stay as they were.
pub proof fn law_invalidation_is_contained(
    pre: AppState,
    identity: Seq<char>,
    post: AppState,
    key: CacheKeyView,
)
    requires
        invalidated(pre, identity, post),
        key.identity != identity,
    ensures
        post.subs_cache@.contains_key(key) == pre.subs_cache@.contains_key(key),
        post.subs_cache@.contains_key(key) ==> post.subs_cache@[key] == pre.subs_cache@[key],
        post.page_tokens@.contains_key(key.identity) == pre.page_tokens@.contains_key(key.identity),
        post.page_tokens@.contains_key(key.identity) ==> post.page_tokens@[key.identity]
            == pre.page_tokens@[key.identity],
        forall|any: CacheKeyView|
            any.identity == identity ==> !post.subs_cache@.contains_key(any),
        !post.page_tokens@.contains_key(identity),
{
}

/// After an identity was invalidated, its next request starts a drain of
/// the upstream collection, whatever it asks for and however young its
/// cached lists were.
pub proof fn law_query_after_invalidation(
    pre: AppState,
    identity: Seq<char>,
    mid: AppState,
    params: SubscriptionsQuery,
    now: u128,
    ttl: u128,
    step: QueryStep,
    post: AppState,
)
    requires
        invalidated(pre, identity, mid),
        query_started(mid, Some(identity), params, now, ttl, step, post),
    ensures
        step is Fetch,
        step->Fetch_0.starts(identity, params),
{
    let key = request_key(identity, params);
    assert(!mid.subs_cache@.contains_key(key));
    assert(lookup(mid.subs_cache@, key, now, ttl) is None);
}

/// After a refresh request with a credential, the next request of that
/// identity starts a drain of the upstream collection.
pub proof fn law_query_after_refresh(
    pre: AppState,
    identity: Seq<char>,
    r: Result<(), QueryError>,
    mid: AppState,
    params: SubscriptionsQuery,
    now: u128,
    ttl: u128,
    step: QueryStep,
    post: AppState,
)
    requires
        refreshed(pre, Some(identity), r, mid),
        query_started(mid, Some(identity), params, now, ttl, step, post),
    ensures
        r is Ok,
        step is Fetch,
{
    law_query_after_invalidation(pre, identity, mid, params, now, ttl, step, post);
}

/// After an unsubscribe request that deleted at least one id, the next
/// request of that identity starts a drain of the upstream collection.
pub proof fn law_query_after_unsubscribe(
    pre: AppState,
    identity: Seq<char>,
    ids: Seq<String>,
    replies: Seq<DeleteReply>,
    r: Result<crate::mutation::UnsubscribeResponse, QueryError>,
    mid: AppState,
    params: SubscriptionsQuery,
    now: u128,
    ttl: u128,
    step: QueryStep,
    post: AppState,
)
    requires
        unsubscribed(pre, Some(identity), ids, replies, r, mid),
        deleted_ids(ids, replies).len() > 0,
        query_started(mid, Some(identity), params, now, ttl, step, post),
    ensures
        step is Fetch,
{
    law_query_after_invalidation(pre, identity, mid, params, now, ttl, step, post);
}

} // verus!
