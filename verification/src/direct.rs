//! Direct page access: one page of the collection in upstream order, for a
//! request without filter, fetched with as few upstream calls as the cursor
//! chain allows.
//!
//! The page asked for is translated to the upstream page in which it starts
//! and an offset in that page. The cursor chain is grown, one upstream page
//! per call, until it reaches that page; then that one page is fetched and
//! cut. Nothing is sorted and nothing is cached, and a page that runs over
//! the end of its upstream page comes back short. This is an optimization
//! beside the regular path of [`crate::subscriptions`], which alone gives
//! pages of the sorted collection.

use vstd::prelude::*;
use crate::chain::{chain_or_fresh, chains_after_page, Chain};
use crate::item::Item;
use crate::json::json_parse;
use crate::paging::{count_pages, cut_window, pages_needed, window};
use crate::query::{normalize_limit, normalize_page, normalized_limit, normalized_page};
use crate::state::AppState;
use crate::subscriptions::identity_of;
use crate::text::opt_str_view;
use crate::upstream::{
    decode_list_reply,
    is_success,
    page_reads,
    QueryError,
    UpstreamPage,
    UpstreamReply,
    UPSTREAM_PAGE_SIZE,
};

verus! {

/// Where a page starts in the upstream collection.
#[derive(Clone, Copy, Debug, PartialEq, Eq)]
pub struct UpstreamLocation {
    /// The number of the upstream page, counted from 1.
    pub upstream_page: usize,
    /// The index in that page.
    pub offset: usize,
}

/// One page in upstream order.
#[derive(Debug, PartialEq, Eq)]
pub struct DirectPage {
    pub items: Vec<Item>,
    /// The upstream's estimate of the size of the collection, if it gave one.
    pub total_results: Option<usize>,
    /// The number of pages that the estimate makes.
    pub total_pages: Option<usize>,
    pub page: usize,
    pub limit: usize,
}

/// A direct page access in flight.
#[derive(Debug, PartialEq, Eq)]
pub struct DirectSession {
    /// Whose collection is read.
    pub identity: String,
    /// The page asked for, at least 1.
    pub page: usize,
    /// The page size, from 1 to 100.
    pub limit: usize,
    /// Where the page starts.
    pub target: UpstreamLocation,
    /// The number of the upstream page to fetch next.
    pub fetching: usize,
    /// The cursor to fetch it with.
    pub cursor: Option<String>,
}

/// What the caller is to do next.
#[derive(Debug, PartialEq, Eq)]
pub enum DirectStep {
    /// Answer the request with this page.
    Respond(DirectPage),
    /// Perform one upstream list call with the session's cursor and resume
    /// with its reply.
    Fetch(DirectSession),
    /// Answer the request with this error.
    Fail(QueryError),
}

/// The index in the collection at which page `page` starts, as far as a
/// `usize` can count.
pub open spec fn start_index(page: int, limit: int) -> int {
    if (page - 1) * limit <= usize::MAX {
        (page - 1) * limit
    } else {
        usize::MAX as int
    }
}

/// The upstream page in which page `page` starts, and the index in it,
/// with 50 items to the upstream page.
pub open spec fn located(page: int, limit: int) -> UpstreamLocation {
    UpstreamLocation {
        upstream_page: (start_index(page, limit) / 50 + 1) as usize,
        offset: (start_index(page, limit) % 50) as usize,
    }
}

/// The upstream page to fetch next on the way to page `target`, and the
/// cursor to fetch it with: the target itself if the chain has reached it,
/// else the last page that the chain knows, whose reply tells the cursor of
/// the page after it.
pub open spec fn next_fetch(chains: Map<Seq<char>, Chain>, identity: Seq<char>, target: int) -> (
    int,
    Option<String>,
) {
    let chain = chain_or_fresh(chains, identity);
    if target <= chain.len() {
        (target, chain[target - 1])
    } else {
        (chain.len() as int, chain.last())
    }
}

/// The totals of a page: the upstream's estimate and the number of pages
/// that it makes.
pub open spec fn totals_of(hint: Option<usize>, limit: int) -> (Option<usize>, Option<usize>) {
    match hint {
        Some(total) => (Some(total), Some(pages_needed(total as int, limit) as usize)),
        None => (None, None),
    }
}

impl DirectSession {
    /// Page and limit are in their ranges, the target is where the page
    /// starts, and the page to fetch is on the way to it.
    pub open spec fn wf(self) -> bool {
        &&& self.page >= 1
        &&& 1 <= self.limit <= 100
        &&& self.target == located(self.page as int, self.limit as int)
        &&& 1 <= self.fetching <= self.target.upstream_page
    }

    /// `self` reads page `page` of `limit` items for `identity` and is to
    /// fetch what [`next_fetch`] names for these chains.
    pub open spec fn plans(
        self,
        identity: String,
        page: usize,
        limit: usize,
        chains: Map<Seq<char>, Chain>,
    ) -> bool {
        &&& self.identity@ == identity@
        &&& self.page == page
        &&& self.limit == limit
        &&& self.target == located(page as int, limit as int)
        &&& (self.fetching as int, self.cursor) == next_fetch(
            chains,
            identity@,
            self.target.upstream_page as int,
        )
    }
}

impl DirectPage {
    /// `self` answers `session` with these items and the totals that the
    /// estimate gives.
    pub open spec fn answers(self, session: DirectSession, items: Seq<Item>, hint: Option<usize>) -> bool {
        &&& self.items@ == items
        &&& (self.total_results, self.total_pages) == totals_of(hint, session.limit as int)
        &&& self.page == session.page
        &&& self.limit == session.limit
    }
}

/// `step` and `post` are how a direct page access starts in state `pre`.
///
/// Without credential it fails and nothing changes. Otherwise page and
/// limit are normalized, the identity's cursor chain is made sure of, and
/// the first upstream call is planned. The cache is not touched.
pub open spec fn direct_started(
    pre: AppState,
    token: Option<Seq<char>>,
    page: Option<usize>,
    limit: Option<usize>,
    step: DirectStep,
    post: AppState,
) -> bool {
    match token {
        None => step == DirectStep::Fail(QueryError::AuthMissing) && post == pre,
        Some(identity) => {
            &&& step matches DirectStep::Fetch(session) && session.identity@ == identity
                && session.plans(
                session.identity,
                normalized_page(page),
                normalized_limit(limit),
                pre.page_tokens@,
            ) && session.wf()
            &&& post.page_tokens@ == pre.page_tokens@.insert(
                identity,
                chain_or_fresh(pre.page_tokens@, identity),
            )
            &&& post.subs_cache == pre.subs_cache
            &&& post.access_token == pre.access_token
        },
    }
}

/// `step` and `post` are what absorbing `page` into `session` gives in
/// state `pre`.
///
/// The page's cursor goes onto the identity's chain as
/// [`chains_after_page`] says. If the page is the target, the window that
/// starts at the target's offset is the answer. If it is not, and it is
/// the last of the collection, the page asked for lies behind the end and
/// the answer is empty. Otherwise the next upstream call is planned.
pub open spec fn direct_absorbed(
    pre: AppState,
    session: DirectSession,
    page: UpstreamPage,
    step: DirectStep,
    post: AppState,
) -> bool {
    let recorded = chains_after_page(
        pre.page_tokens@,
        session.identity@,
        session.fetching as int,
        page.next_cursor,
    );
    &&& post.subs_cache == pre.subs_cache
    &&& post.access_token == pre.access_token
    &&& if session.fetching == session.target.upstream_page {
        &&& step matches DirectStep::Respond(answer) && answer.answers(
            session,
            window(page.items@, session.target.offset as int, session.limit as int),
            page.total_hint,
        )
        &&& post.page_tokens@ == recorded
    } else if page.next_cursor is None {
        &&& step matches DirectStep::Respond(answer) && answer.answers(
            session,
            Seq::empty(),
            page.total_hint,
        )
        &&& post.page_tokens@ == recorded
    } else {
        &&& step matches DirectStep::Fetch(next) && next.plans(
            session.identity,
            session.page,
            session.limit,
            recorded,
        ) && next.wf()
        &&& post.page_tokens@ == recorded.insert(
            session.identity@,
            chain_or_fresh(recorded, session.identity@),
        )
    }
}

/// `step` and `post` are what the reply to a list call gives for `session`
/// in state `pre`: a reply that is no page ends the access with its error
/// and leaves the state as it is; a page is absorbed as
/// [`direct_absorbed`] says.
pub open spec fn direct_resumed(
    pre: AppState,
    session: DirectSession,
    reply: UpstreamReply,
    step: DirectStep,
    post: AppState,
) -> bool {
    match reply {
        UpstreamReply::Unreachable => {
            step == DirectStep::Fail(QueryError::UpstreamTransportError) && post == pre
        },
        UpstreamReply::Answer { status, body } => {
            if !is_success(status) {
                step == DirectStep::Fail(QueryError::UpstreamRejected(status)) && post == pre
            } else {
                match json_parse(body@) {
                    Some(doc) => exists|page: UpstreamPage|
                        page_reads(page, doc) && #[trigger] direct_absorbed(
                            pre,
                            session,
                            page,
                            step,
                            post,
                        ),
                    None => step == DirectStep::Fail(QueryError::UpstreamMalformed) && post == pre,
                }
            }
        },
    }
}

/// Translates a page to the upstream page in which it starts and the
/// index in that page.
pub fn locate(page: usize, limit: usize) -> (r: UpstreamLocation)
    requires
        page >= 1,
    ensures
        r == located(page as int, limit as int),
        r.upstream_page >= 1,
        r.offset < 50,
{
    let start = match (page - 1).checked_mul(limit) {
        Some(s) => s,
        None => usize::MAX,
    };
    UpstreamLocation {
        upstream_page: start / UPSTREAM_PAGE_SIZE + 1,
        offset: start % UPSTREAM_PAGE_SIZE,
    }
}

/// The totals that an estimate gives.
pub fn totals_from(hint: Option<usize>, limit: usize) -> (r: (Option<usize>, Option<usize>))
    requires
        limit >= 1,
    ensures
        r == totals_of(hint, limit as int),
{
    match hint {
        Some(total) => (Some(total), Some(count_pages(total, limit))),
        None => (None, None),
    }
}

/// Makes sure of the identity's chain and plans the next upstream call on
/// the way to page `target`.
fn plan_fetch(state: &mut AppState, identity: &str, target: usize) -> (r: (usize, Option<String>))
    requires
        old(state).wf(),
        target >= 1,
    ensures
        final(state).wf(),
        (r.0 as int, r.1) == next_fetch(old(state).page_tokens@, identity@, target as int),
        1 <= r.0 <= target,
        final(state).page_tokens@ == old(state).page_tokens@.insert(
            identity@,
            chain_or_fresh(old(state).page_tokens@, identity@),
        ),
        final(state).subs_cache == old(state).subs_cache,
        final(state).access_token == old(state).access_token,
{
    proof {
        state.page_tokens.lemma_chains_ok();
    }
    state.ensure_user_tokens_init(identity);
    proof {
        state.page_tokens.lemma_chains_ok();
    }
    match state.get_token_for_page(identity, target) {
        Some(cursor) => (target, cursor),
        None => state.tokens_len_and_last(identity),
    }
}

/// Starts a direct access to one page of the collection of the
/// credential's owner.
pub fn get_page_direct(
    state: &mut AppState,
    token: Option<&str>,
    page: Option<usize>,
    limit: Option<usize>,
) -> (step: DirectStep)
    requires
        old(state).wf(),
    ensures
        final(state).wf(),
        direct_started(*old(state), opt_str_view(token), page, limit, step, *final(state)),
{
    let identity = match identity_of(token) {
        Ok(identity) => identity,
        Err(e) => {
            return DirectStep::Fail(e);
        },
    };
    let page = normalize_page(page);
    let limit = normalize_limit(limit);
    let target = locate(page, limit);
    let (fetching, cursor) = plan_fetch(state, identity.as_str(), target.upstream_page);
    DirectStep::Fetch(DirectSession { identity, page, limit, target, fetching, cursor })
}

/// Absorbs one upstream page into a direct access.
pub fn absorb_direct(state: &mut AppState, session: DirectSession, page: UpstreamPage) -> (step:
    DirectStep)
    requires
        old(state).wf(),
        session.wf(),
    ensures
        final(state).wf(),
        direct_absorbed(*old(state), session, page, step, *final(state)),
{
    let DirectSession { identity, page: asked, limit, target, fetching, cursor: _ } = session;
    state.record_next_cursor(identity.as_str(), fetching, &page.next_cursor);
    if fetching == target.upstream_page {
        let items = cut_window(&page.items, target.offset, limit);
        let (total_results, total_pages) = totals_from(page.total_hint, limit);
        DirectStep::Respond(DirectPage { items, total_results, total_pages, page: asked, limit })
    } else if page.next_cursor.is_none() {
        let (total_results, total_pages) = totals_from(page.total_hint, limit);
        DirectStep::Respond(
            DirectPage { items: Vec::new(), total_results, total_pages, page: asked, limit },
        )
    } else {
        let (fetching, cursor) = plan_fetch(state, identity.as_str(), target.upstream_page);
        DirectStep::Fetch(DirectSession { identity, page: asked, limit, target, fetching, cursor })
    }
}

/// Resumes a direct access with the reply to its list call.
pub fn resume_page_direct(state: &mut AppState, session: DirectSession, reply: &UpstreamReply) -> (step:
    DirectStep)
    requires
        old(state).wf(),
        session.wf(),
    ensures
        final(state).wf(),
        direct_resumed(*old(state), session, *reply, step, *final(state)),
{
    match decode_list_reply(reply) {
        Ok(page) => absorb_direct(state, session, page),
        Err(e) => DirectStep::Fail(e),
    }
}

} // verus!
