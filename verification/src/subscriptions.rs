//! The pagination coordinator: answers a "list subscriptions" request from
//! the result cache, or drains the upstream collection page by page, sorts
//! and filters it, caches the list and cuts the page asked for.
//!
//! The network calls are the caller's. A request starts with
//! [`get_subscriptions`]; as long as the step returned is
//! [`QueryStep::Fetch`], the caller performs one list call with the
//! session's cursor and hands the reply to [`resume_subscriptions`].
//!
//! A request without filter is served like any other: from the whole
//! collection, sorted. Nothing keeps two requests that miss the cache under
//! the same key at the same time from draining the collection twice; the
//! second to finish replaces the list of the first.

use vstd::prelude::*;
use crate::cache::{after_get, after_put, lookup, CacheKeyView};
use crate::chain::{chain_or_fresh, chains_after_page};
use crate::filter::{filter_items, filtered};
use crate::item::Item;
use crate::json::json_parse;
use crate::paging::{paginate_with_meta, PageResult};
use crate::query::{
    normalize,
    normalized_filter,
    normalized_limit,
    normalized_page,
    NormalizedQuery,
    SubscriptionsQuery,
};
use crate::sort::{sort_items, sort_order_of, stable_sorted, SortOrder};
use crate::state::{AppState, CACHE_TTL};
use crate::text::{opt_str_view, opt_string_view};
use crate::upstream::{
    decode_list_reply,
    is_success,
    page_reads,
    QueryError,
    UpstreamPage,
    UpstreamReply,
};

verus! {

/// A drain of the upstream collection in flight.
#[derive(Debug, PartialEq, Eq)]
pub struct QuerySession {
    /// Whose collection is drained.
    pub identity: String,
    /// The query that the drain serves.
    pub query: NormalizedQuery,
    /// The items collected so far, in upstream order.
    pub items: Vec<Item>,
    /// How many upstream pages were absorbed; it stops counting at
    /// `usize::MAX`.
    pub pages_fetched: usize,
    /// The cursor with which the next page is to be fetched; none for page 1.
    pub cursor: Option<String>,
}

/// What the caller is to do next.
#[derive(Debug, PartialEq, Eq)]
pub enum QueryStep {
    /// Answer the request with this page.
    Respond(PageResult),
    /// Perform one upstream list call with the session's cursor and resume
    /// with its reply.
    Fetch(QuerySession),
    /// Answer the request with this error.
    Fail(QueryError),
}

/// The list that is cached and paged for a query: the whole collection
/// sorted by count, ties in collection order, then cut down to the items
/// that match the filter.
pub open spec fn materialized(all: Seq<Item>, filter: Seq<char>, order: SortOrder) -> Seq<Item> {
    filtered(stable_sorted(all, order), filter)
}

/// One more than `n`, as far as a `usize` can count.
pub open spec fn counted(n: usize) -> usize {
    if n < usize::MAX {
        (n + 1) as usize
    } else {
        n
    }
}

impl QuerySession {
    /// The session's query is in its ranges.
    pub open spec fn wf(self) -> bool {
        self.query.wf()
    }

    /// The key under which the session's list is cached.
    pub open spec fn key(self) -> CacheKeyView {
        self.query.key_for(self.identity@)
    }

    /// `self` is the session with which the drain for `params` starts:
    /// nothing collected, page 1 to be fetched without cursor.
    pub open spec fn starts(self, identity: Seq<char>, params: SubscriptionsQuery) -> bool {
        &&& self.identity@ == identity
        &&& self.query.normalizes(params)
        &&& self.query.wf()
        &&& self.items@ == Seq::<Item>::empty()
        &&& self.pages_fetched == 0
        &&& self.cursor is None
    }

    /// `self` is `before` after one more page: the page's items behind
    /// those collected, and `next` as the cursor to go on with.
    pub open spec fn continues(self, before: QuerySession, page: UpstreamPage) -> bool {
        &&& self.identity == before.identity
        &&& self.query == before.query
        &&& self.items@ == before.items@ + page.items@
        &&& self.pages_fetched == counted(before.pages_fetched)
        &&& self.cursor == page.next_cursor
    }
}

/// `step` and `post` are how a request with these parameters starts at
/// time `now` in state `pre`.
///
/// Without credential it fails and nothing changes. Otherwise the cache is
/// read under the key of the credential and the normalized query: a fresh
/// list is paged at once; else a stale entry is dropped, the identity's
/// cursor chain is made sure of, and a drain starts.
pub open spec fn query_started(
    pre: AppState,
    token: Option<Seq<char>>,
    params: SubscriptionsQuery,
    now: u128,
    ttl: u128,
    step: QueryStep,
    post: AppState,
) -> bool {
    match token {
        None => step == QueryStep::Fail(QueryError::AuthMissing) && post == pre,
        Some(identity) => {
            let key = request_key(identity, params);
            &&& post.access_token == pre.access_token
            &&& post.subs_cache@ == after_get(pre.subs_cache@, key, now, ttl)
            &&& match lookup(pre.subs_cache@, key, now, ttl) {
                Some(list) => {
                    &&& step matches QueryStep::Respond(page) && page.is_page_of(
                        list,
                        normalized_page(params.page) as int,
                        normalized_limit(params.limit) as int,
                        key.sort,
                    )
                    &&& post.page_tokens@ == pre.page_tokens@
                },
                None => {
                    &&& step matches QueryStep::Fetch(session) && session.starts(identity, params)
                    &&& post.page_tokens@ == pre.page_tokens@.insert(
                        identity,
                        chain_or_fresh(pre.page_tokens@, identity),
                    )
                },
            }
        },
    }
}

/// The key under which the list of a request is cached: the identity, the
/// normalized filter text and the sort direction.
pub open spec fn request_key(identity: Seq<char>, params: SubscriptionsQuery) -> CacheKeyView {
    CacheKeyView {
        identity,
        filter: normalized_filter(opt_string_view(params.query)),
        sort: sort_order_of(opt_string_view(params.sort)),
    }
}

/// `step` and `post` are what absorbing `page` into `session` at time `now`
/// gives in state `pre`.
///
/// The page's items go behind those collected, and its cursor goes onto
/// the identity's chain as [`chains_after_page`] says. With a cursor the
/// drain goes on and the cache stays as it is. Without one the drain is
/// complete: the collection is materialized, cached under the session's
/// key with the time `now`, and the page asked for is cut from it.
pub open spec fn page_absorbed(
    pre: AppState,
    session: QuerySession,
    page: UpstreamPage,
    now: u128,
    step: QueryStep,
    post: AppState,
) -> bool {
    &&& post.access_token == pre.access_token
    &&& post.page_tokens@ == chains_after_page(
        pre.page_tokens@,
        session.identity@,
        session.pages_fetched + 1,
        page.next_cursor,
    )
    &&& match step {
        QueryStep::Fetch(next) => {
            &&& page.next_cursor is Some
            &&& next.continues(session, page)
            &&& post.subs_cache == pre.subs_cache
        },
        QueryStep::Respond(result) => {
            &&& page.next_cursor is None
            &&& result.is_page_of(
                materialized(
                    session.items@ + page.items@,
                    session.query.filter@,
                    session.query.sort,
                ),
                session.query.page as int,
                session.query.limit as int,
                session.query.sort,
            )
            &&& post.subs_cache@ == after_put(
                pre.subs_cache@,
                session.key(),
                materialized(
                    session.items@ + page.items@,
                    session.query.filter@,
                    session.query.sort,
                ),
                now,
            )
        },
        QueryStep::Fail(_) => false,
    }
}

/// `step` and `post` are what the reply to a list call gives for `session`
/// at time `now` in state `pre`.
///
/// A reply that is no page ends the drain with its error: what was
/// collected is dropped, nothing is cached, the state stays as it is. A
/// page is absorbed as [`page_absorbed`] says.
pub open spec fn query_resumed(
    pre: AppState,
    session: QuerySession,
    reply: UpstreamReply,
    now: u128,
    step: QueryStep,
    post: AppState,
) -> bool {
    match reply {
        UpstreamReply::Unreachable => {
            step == QueryStep::Fail(QueryError::UpstreamTransportError) && post == pre
        },
        UpstreamReply::Answer { status, body } => {
            if !is_success(status) {
                step == QueryStep::Fail(QueryError::UpstreamRejected(status)) && post == pre
            } else {
                match json_parse(body@) {
                    Some(doc) => exists|page: UpstreamPage|
                        page_reads(page, doc) && #[trigger] page_absorbed(
                            pre,
                            session,
                            page,
                            now,
                            step,
                            post,
                        ),
                    None => step == QueryStep::Fail(QueryError::UpstreamMalformed) && post == pre,
                }
            }
        },
    }
}

/// The identity that a credential stands for: the credential itself. No
/// credential is an error.
pub fn identity_of(token: Option<&str>) -> (r: Result<String, QueryError>)
    ensures
        match token {
            Some(t) => r matches Ok(identity) && identity@ == t@,
            None => r == Err::<String, QueryError>(QueryError::AuthMissing),
        },
{
    match token {
        Some(t) => Ok(t.to_owned()),
        None => Err(QueryError::AuthMissing),
    }
}

/// Starts a request at the time `now`, with `ttl` as the cache's time to
/// live.
pub fn get_subscriptions_at(
    state: &mut AppState,
    token: Option<&str>,
    params: &SubscriptionsQuery,
    now: u128,
    ttl: u128,
) -> (step: QueryStep)
    requires
        old(state).wf(),
    ensures
        final(state).wf(),
        query_started(*old(state), opt_str_view(token), *params, now, ttl, step, *final(state)),
{
    let identity = match identity_of(token) {
        Ok(identity) => identity,
        Err(e) => {
            return QueryStep::Fail(e);
        },
    };
    let query = normalize(params);
    let key = query.cache_key(identity.as_str());
    match state.subs_cache_page_at(&key, now, ttl, query.page, query.limit) {
        Some(page) => QueryStep::Respond(page),
        None => {
            state.ensure_user_tokens_init(identity.as_str());
            QueryStep::Fetch(
                QuerySession { identity, query, items: Vec::new(), pages_fetched: 0, cursor: None },
            )
        },
    }
}

/// Starts a request at the present time on the state's clock, with the
/// library's time to live. Whatever the clock reads, the outcome is that of
/// [`get_subscriptions_at`] for that reading.
pub fn get_subscriptions(state: &mut AppState, token: Option<&str>, params: &SubscriptionsQuery) -> (step:
    QueryStep)
    requires
        old(state).wf(),
    ensures
        final(state).wf(),
        exists|now: u128| #[trigger]
            query_started(
                *old(state),
                opt_str_view(token),
                *params,
                now,
                CACHE_TTL,
                step,
                *final(state),
            ),
{
    let now = state.clock.now();
    get_subscriptions_at(state, token, params, now, CACHE_TTL)
}

/// Absorbs one page into a drain at the time `now`, and completes the
/// request if the page is the last.
pub fn absorb_page(state: &mut AppState, session: QuerySession, page: UpstreamPage, now: u128) -> (step:
    QueryStep)
    requires
        old(state).wf(),
        session.wf(),
    ensures
        final(state).wf(),
        page_absorbed(*old(state), session, page, now, step, *final(state)),
{
    let QuerySession { identity, query, items, pages_fetched, cursor: _ } = session;
    let UpstreamPage { items: fresh, next_cursor, total_hint: _ } = page;
    let mut items = items;
    let mut fresh = fresh;
    items.append(&mut fresh);
    proof {
        state.page_tokens.lemma_chains_ok();
    }
    match next_cursor {
        Some(cursor) => {
            let cursor = Some(cursor);
            let pages_fetched = if pages_fetched < usize::MAX {
                state.record_next_cursor(identity.as_str(), pages_fetched + 1, &cursor);
                pages_fetched + 1
            } else {
                pages_fetched
            };
            QueryStep::Fetch(QuerySession { identity, query, items, pages_fetched, cursor })
        },
        None => {
            let sorted = sort_items(items, query.sort);
            let list = filter_items(sorted, query.filter.as_str());
            let result = paginate_with_meta(&list, query.page, query.limit, query.sort);
            let key = query.cache_key(identity.as_str());
            state.subs_cache_put_at(key, list, now);
            QueryStep::Respond(result)
        },
    }
}

/// Resumes a drain with the reply to its list call, at the time `now`.
pub fn resume_subscriptions_at(
    state: &mut AppState,
    session: QuerySession,
    reply: &UpstreamReply,
    now: u128,
) -> (step: QueryStep)
    requires
        old(state).wf(),
        session.wf(),
    ensures
        final(state).wf(),
        query_resumed(*old(state), session, *reply, now, step, *final(state)),
{
    match decode_list_reply(reply) {
        Ok(page) => absorb_page(state, session, page, now),
        Err(e) => QueryStep::Fail(e),
    }
}

/// Resumes a drain with the reply to its list call, at the present time on
/// the state's clock. Whatever the clock reads, the outcome is that of
/// [`resume_subscriptions_at`] for that reading.
pub fn resume_subscriptions(state: &mut AppState, session: QuerySession, reply: &UpstreamReply) -> (step:
    QueryStep)
    requires
        old(state).wf(),
        session.wf(),
    ensures
        final(state).wf(),
        exists|now: u128| #[trigger]
            query_resumed(*old(state), session, *reply, now, step, *final(state)),
{
    let now = state.clock.now();
    resume_subscriptions_at(state, session, reply, now)
}

} // verus!
