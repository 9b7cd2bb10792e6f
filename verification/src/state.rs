//! The state shared by all requests: the credential last set, the cursor
//! chains and the result cache.

use vstd::prelude::*;
use crate::cache::{
    after_get,
    after_put,
    is_page_of_lookup,
    lookup,
    opt_items_view,
    without_identity,
    CacheKey,
    CacheKeyView,
    CacheView,
    CachedList,
    ResultCache,
};
use crate::chain::{
    chain_or_fresh,
    chains_after_page,
    cursor_for_page_of,
    length_and_last_of,
    Chain,
    CursorChainStore,
};
use crate::clock::Clock;
use crate::item::Item;
use crate::paging::PageResult;
use crate::text::clone_opt_string;

verus! {

/// How long a cached list is served: ten minutes, in nanoseconds.
pub const CACHE_TTL: u128 = 600_000_000_000;

/// The process-wide state. It is plain data: callers that share it between
/// requests put it behind a lock of their own and hold that lock for one
/// call at a time.
pub struct AppState {
    pub access_token: Option<String>,
    pub page_tokens: CursorChainStore,
    pub subs_cache: ResultCache,
    pub clock: Clock,
}

/// `found` and `left` are what a read of `key` at some time `now` returns
/// and leaves behind.
pub open spec fn is_read_at(
    cache: CacheView,
    key: CacheKeyView,
    now: u128,
    ttl: u128,
    found: Option<Seq<Item>>,
    left: CacheView,
) -> bool {
    found == lookup(cache, key, now, ttl) && left == after_get(cache, key, now, ttl)
}

impl AppState {
    /// The state's invariant: both stores are well formed.
    pub open spec fn wf(&self) -> bool {
        self.page_tokens.wf() && self.subs_cache.wf()
    }

    /// A state without credential, chains or cached lists, whose clock
    /// starts now.
    pub fn new() -> (r: Self)
        ensures
            r.wf(),
            r.access_token is None,
            r.page_tokens@ == Map::<Seq<char>, Chain>::empty(),
            r.subs_cache@ == Map::<CacheKeyView, CachedList>::empty(),
    {
        AppState {
            access_token: None,
            page_tokens: CursorChainStore::new(),
            subs_cache: ResultCache::new(),
            clock: Clock::start(),
        }
    }

    /// Remembers `token` as the current credential.
    pub fn set_token(&mut self, token: String)
        ensures
            final(self).access_token == Some(token),
            final(self).page_tokens == old(self).page_tokens,
            final(self).subs_cache == old(self).subs_cache,
    {
        self.access_token = Some(token);
    }

    /// A copy of the current credential, if one was set.
    pub fn get_token(&self) -> (r: Option<String>)
        ensures
            r == self.access_token,
    {
        clone_opt_string(&self.access_token)
    }

    /// Makes sure that `user_key` has a cursor chain: one that knows page 1
    /// only, unless it has a chain already.
    pub fn ensure_user_tokens_init(&mut self, user_key: &str)
        requires
            old(self).wf(),
        ensures
            final(self).wf(),
            final(self).page_tokens@ == old(self).page_tokens@.insert(
                user_key@,
                chain_or_fresh(old(self).page_tokens@, user_key@),
            ),
            old(self).page_tokens@.contains_key(user_key@) ==> final(self).page_tokens@ == old(
                self,
            ).page_tokens@,
            final(self).subs_cache == old(self).subs_cache,
            final(self).access_token == old(self).access_token,
    {
        self.page_tokens.ensure_initialized(user_key);
    }

    /// How many upstream pages the chain of `user_key` knows, and the
    /// cursor of the last of them; 0 and nothing where it has no chain.
    pub fn tokens_len_and_last(&self, user_key: &str) -> (r: (usize, Option<String>))
        requires
            self.wf(),
        ensures
            (r.0 as nat, r.1) == length_and_last_of(self.page_tokens@, user_key@),
    {
        self.page_tokens.length_and_last(user_key)
    }

    /// The cursor that fetches upstream page `yt_page` (counted from 1):
    /// nothing if the chain of `user_key` has not reached that page, else
    /// the cursor, which for page 1 is "no cursor".
    pub fn get_token_for_page(&self, user_key: &str, yt_page: usize) -> (r: Option<Option<String>>)
        requires
            self.wf(),
        ensures
            r == cursor_for_page_of(self.page_tokens@, user_key@, yt_page as int),
    {
        self.page_tokens.cursor_for_page(user_key, yt_page)
    }

    /// Appends `next` to the chain of `user_key`, which makes one more
    /// upstream page known.
    pub fn push_next_token(&mut self, user_key: &str, next: Option<String>)
        requires
            old(self).wf(),
        ensures
            final(self).wf(),
            final(self).page_tokens@ == old(self).page_tokens@.insert(
                user_key@,
                chain_or_fresh(old(self).page_tokens@, user_key@).push(next),
            ),
            final(self).subs_cache == old(self).subs_cache,
            final(self).access_token == old(self).access_token,
    {
        self.page_tokens.append_next(user_key, next);
    }

    /// Records the cursor that came back with upstream page `page_number`
    /// of `user_key`: it goes onto the chain if the page was the chain's last.
    pub fn record_next_cursor(&mut self, user_key: &str, page_number: usize, next: &Option<String>)
        requires
            old(self).wf(),
        ensures
            final(self).wf(),
            final(self).page_tokens@ == chains_after_page(
                old(self).page_tokens@,
                user_key@,
                page_number as int,
                *next,
            ),
            final(self).subs_cache == old(self).subs_cache,
            final(self).access_token == old(self).access_token,
    {
        self.page_tokens.record_next(user_key, page_number, next);
    }

    /// Drops the cursor chain of `user_key`.
    pub fn page_tokens_clear_user(&mut self, user_key: &str)
        requires
            old(self).wf(),
        ensures
            final(self).wf(),
            final(self).page_tokens@ == old(self).page_tokens@.remove(user_key@),
            final(self).subs_cache == old(self).subs_cache,
            final(self).access_token == old(self).access_token,
    {
        self.page_tokens.clear(user_key);
    }

    /// Reads the list cached under `key` at the time `now`: a copy of it if
    /// it is younger than `ttl`; else nothing, and a stale entry is dropped.
    pub fn subs_cache_get_at(&mut self, key: &CacheKey, now: u128, ttl: u128) -> (r: Option<
        Vec<Item>,
    >)
        requires
            old(self).wf(),
        ensures
            final(self).wf(),
            is_read_at(
                old(self).subs_cache@,
                key@,
                now,
                ttl,
                opt_items_view(r),
                final(self).subs_cache@,
            ),
            final(self).page_tokens == old(self).page_tokens,
            final(self).access_token == old(self).access_token,
    {
        self.subs_cache.get(key, now, ttl)
    }

    /// Cuts page `page` of `limit` items out of the list cached under `key`,
    /// read at the time `now`: the page if the list is younger than `ttl`;
    /// else nothing, and a stale entry is dropped.
    pub fn subs_cache_page_at(
        &mut self,
        key: &CacheKey,
        now: u128,
        ttl: u128,
        page: usize,
        limit: usize,
    ) -> (r: Option<PageResult>)
        requires
            old(self).wf(),
            page >= 1,
            limit >= 1,
        ensures
            final(self).wf(),
            is_page_of_lookup(
                r,
                old(self).subs_cache@,
                key@,
                now,
                ttl,
                page as int,
                limit as int,
            ),
            final(self).subs_cache@ == after_get(old(self).subs_cache@, key@, now, ttl),
            final(self).page_tokens == old(self).page_tokens,
            final(self).access_token == old(self).access_token,
    {
        self.subs_cache.get_page(key, now, ttl, page, limit)
    }

    /// Reads the list cached under `key` at the present time on the state's
    /// clock. Whatever the clock reads, the outcome is that of
    /// [`AppState::subs_cache_get_at`] for that reading.
    pub fn subs_cache_get(&mut self, key: &CacheKey, ttl: u128) -> (r: Option<Vec<Item>>)
        requires
            old(self).wf(),
        ensures
            final(self).wf(),
            exists|now: u128| #[trigger]
                is_read_at(
                    old(self).subs_cache@,
                    key@,
                    now,
                    ttl,
                    opt_items_view(r),
                    final(self).subs_cache@,
                ),
            final(self).page_tokens == old(self).page_tokens,
            final(self).access_token == old(self).access_token,
    {
        let now = self.clock.now();
        self.subs_cache_get_at(key, now, ttl)
    }

    /// Caches `items` under `key` with the time `now`, in place of what
    /// was cached there.
    pub fn subs_cache_put_at(&mut self, key: CacheKey, items: Vec<Item>, now: u128)
        requires
            old(self).wf(),
        ensures
            final(self).wf(),
            final(self).subs_cache@ == after_put(old(self).subs_cache@, key@, items@, now),
            final(self).page_tokens == old(self).page_tokens,
            final(self).access_token == old(self).access_token,
    {
        self.subs_cache.put(key, items, now);
    }

    /// Caches `items` under `key` with the present time on the state's
    /// clock.
    pub fn subs_cache_put(&mut self, key: CacheKey, items: Vec<Item>)
        requires
            old(self).wf(),
        ensures
            final(self).wf(),
            exists|now: u128| #[trigger]
                after_put(old(self).subs_cache@, key@, items@, now) == final(self).subs_cache@,
            final(self).page_tokens == old(self).page_tokens,
            final(self).access_token == old(self).access_token,
    {
        let now = self.clock.now();
        self.subs_cache_put_at(key, items, now);
    }

    /// Drops the list cached under `key`.
    pub fn subs_cache_invalidate(&mut self, key: &CacheKey)
        requires
            old(self).wf(),
        ensures
            final(self).wf(),
            final(self).subs_cache@ == old(self).subs_cache@.remove(key@),
            final(self).page_tokens == old(self).page_tokens,
            final(self).access_token == old(self).access_token,
    {
        self.subs_cache.invalidate(key);
    }

    /// Drops every list cached for `user_key`.
    pub fn subs_cache_invalidate_user(&mut self, user_key: &str)
        requires
            old(self).wf(),
        ensures
            final(self).wf(),
            final(self).subs_cache@ == without_identity(old(self).subs_cache@, user_key@),
            final(self).page_tokens == old(self).page_tokens,
            final(self).access_token == old(self).access_token,
    {
        self.subs_cache.invalidate_identity(user_key);
    }

    /// Drops every cached list.
    pub fn subs_cache_clear(&mut self)
        requires
            old(self).wf(),
        ensures
            final(self).wf(),
            final(self).subs_cache@ == Map::<CacheKeyView, CachedList>::empty(),
            final(self).page_tokens == old(self).page_tokens,
            final(self).access_token == old(self).access_token,
    {
        self.subs_cache.clear();
    }

    /// Forgets what is known of `identity` after its collection changed or
    /// a refresh was asked for: its cached lists and its cursor chain.
    pub fn on_mutation_or_refresh(&mut self, identity: &str)
        requires
            old(self).wf(),
        ensures
            final(self).wf(),
            final(self).subs_cache@ == without_identity(old(self).subs_cache@, identity@),
            final(self).page_tokens@ == old(self).page_tokens@.remove(identity@),
            final(self).access_token == old(self).access_token,
    {
        self.subs_cache.invalidate_identity(identity);
        self.page_tokens.clear(identity);
    }
}

} // verus!
