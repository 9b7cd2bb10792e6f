//! The result cache: fully sorted and filtered lists, kept per identity,
//! filter text and sort direction, each for a limited time.
//!
//! The entries are kept in a list; a lookup walks the list, and so does the
//! invalidation of an identity. An entry leaves the cache when it is read
//! stale, replaced or invalidated; nothing sweeps the cache in between.

use vstd::prelude::*;
use crate::assoc::{
    assoc_map,
    distinct,
    lemma_assoc_empty,
    lemma_assoc_lookup,
    lemma_assoc_push,
    lemma_assoc_remove,
    lemma_assoc_update,
};
use crate::item::Item;
use crate::paging::{paginate_with_meta, PageResult};
use crate::sort::SortOrder;
use crate::text::str_eq;

verus! {

/// What a cached list is filed under. Page and limit are no part of it:
/// every page of one list is cut from the same entry.
#[derive(Debug, PartialEq, Eq)]
pub struct CacheKey {
    pub identity: String,
    pub filter: String,
    pub sort: SortOrder,
}

/// A [`CacheKey`] as the contracts see it.
pub ghost struct CacheKeyView {
    pub identity: Seq<char>,
    pub filter: Seq<char>,
    pub sort: SortOrder,
}

impl View for CacheKey {
    type V = CacheKeyView;

    open spec fn view(&self) -> CacheKeyView {
        CacheKeyView { identity: self.identity@, filter: self.filter@, sort: self.sort }
    }
}

/// A materialized list and the time at which it was stored, in nanoseconds
/// on the clock of the store's owner.
#[derive(Debug, PartialEq, Eq)]
pub struct CacheEntry {
    pub created_at: u128,
    pub items: Vec<Item>,
}

/// A [`CacheEntry`] as the contracts see it.
pub ghost struct CachedList {
    pub created_at: u128,
    pub items: Seq<Item>,
}

impl View for CacheEntry {
    type V = CachedList;

    open spec fn view(&self) -> CachedList {
        CachedList { created_at: self.created_at, items: self.items@ }
    }
}

/// The view of an optional list of items.
pub open spec fn opt_items_view(r: Option<Vec<Item>>) -> Option<Seq<Item>> {
    match r {
        Some(items) => Some(items@),
        None => None,
    }
}

/// The contents of a cache as the contracts see them.
pub type CacheView = Map<CacheKeyView, CachedList>;

/// The age at `now` of something stored at `created_at`; 0 where the clock
/// reads earlier than the time of storing.
pub open spec fn age_at(created_at: u128, now: u128) -> int {
    if now >= created_at {
        now - created_at
    } else {
        0
    }
}

/// An entry stored at `created_at` is still served at `now`: its age is
/// below the time to live.
pub open spec fn is_fresh(created_at: u128, now: u128, ttl: u128) -> bool {
    age_at(created_at, now) < ttl
}

/// What a read of `key` at `now` returns: the list, if there is an entry
/// and it is fresh.
pub open spec fn lookup(cache: CacheView, key: CacheKeyView, now: u128, ttl: u128) -> Option<
    Seq<Item>,
> {
    if cache.contains_key(key) && is_fresh(cache[key].created_at, now, ttl) {
        Some(cache[key].items)
    } else {
        None
    }
}

/// `r` is page `page` of what a read of `key` at `now` returns, if it
/// returns a list, and nothing if not.
pub open spec fn is_page_of_lookup(
    r: Option<PageResult>,
    cache: CacheView,
    key: CacheKeyView,
    now: u128,
    ttl: u128,
    page: int,
    limit: int,
) -> bool {
    match lookup(cache, key, now, ttl) {
        Some(list) => r matches Some(p) && p.is_page_of(list, page, limit, key.sort),
        None => r is None,
    }
}

/// What a read of `key` at `now` leaves: an entry found stale is dropped.
pub open spec fn after_get(cache: CacheView, key: CacheKeyView, now: u128, ttl: u128) -> CacheView {
    if cache.contains_key(key) && !is_fresh(cache[key].created_at, now, ttl) {
        cache.remove(key)
    } else {
        cache
    }
}

/// What storing `items` under `key` at `now` leaves.
pub open spec fn after_put(cache: CacheView, key: CacheKeyView, items: Seq<Item>, now: u128) -> CacheView {
    cache.insert(key, CachedList { created_at: now, items })
}

/// The cache without the entries of one identity, whatever their filter
/// and sort direction.
pub open spec fn without_identity(cache: CacheView, identity: Seq<char>) -> CacheView {
    Map::new(
        |k: CacheKeyView| cache.contains_key(k) && k.identity != identity,
        |k: CacheKeyView| cache[k],
    )
}

struct CacheSlot {
    key: CacheKey,
    entry: CacheEntry,
}

/// The cached lists of all identities.
pub struct ResultCache {
    slots: Vec<CacheSlot>,
}

impl View for ResultCache {
    type V = CacheView;

    /// The entry under each key that has one.
    closed spec fn view(&self) -> CacheView {
        assoc_map(self.keys(), self.entries())
    }
}

/// Decides whether an entry stored at `created_at` is still served at `now`.
pub fn check_fresh(created_at: u128, now: u128, ttl: u128) -> (r: bool)
    ensures
        r == is_fresh(created_at, now, ttl),
{
    if now >= created_at {
        now - created_at < ttl
    } else {
        0 < ttl
    }
}

impl CacheKey {
    /// Decides whether two keys name the same entry.
    pub fn same_as(&self, other: &CacheKey) -> (r: bool)
        ensures
            r == (self@ == other@),
    {
        str_eq(self.identity.as_str(), other.identity.as_str()) && str_eq(
            self.filter.as_str(),
            other.filter.as_str(),
        ) && self.sort == other.sort
    }
}

impl ResultCache {
    closed spec fn keys(&self) -> Seq<CacheKeyView> {
        Seq::new(self.slots.len() as nat, |i: int| self.slots[i].key@)
    }

    closed spec fn entries(&self) -> Seq<CachedList> {
        Seq::new(self.slots.len() as nat, |i: int| self.slots[i].entry@)
    }

    /// The cache's invariant: no key has two entries.
    pub closed spec fn wf(&self) -> bool {
        distinct(self.keys())
    }

    /// An empty cache.
    pub fn new() -> (r: Self)
        ensures
            r.wf(),
            r@ == Map::<CacheKeyView, CachedList>::empty(),
    {
        let r = ResultCache { slots: Vec::new() };
        proof {
            lemma_assoc_empty::<CacheKeyView, CachedList>();
            assert(r.keys() =~= Seq::<CacheKeyView>::empty());
            assert(r.entries() =~= Seq::<CachedList>::empty());
        }
        r
    }

    fn position(&self, key: &CacheKey) -> (r: Option<usize>)
        requires
            self.wf(),
        ensures
            match r {
                Some(i) => {
                    &&& i < self.slots.len()
                    &&& self.slots[i as int].key@ == key@
                    &&& self@.contains_key(key@)
                    &&& self@[key@] == self.slots[i as int].entry@
                },
                None => !self.keys().contains(key@) && !self@.contains_key(key@),
            },
    {
        let mut i: usize = 0;
        while i < self.slots.len()
            invariant
                i <= self.slots.len(),
                self.wf(),
                forall|j: int| 0 <= j < i ==> self.slots[j].key@ != key@,
            decreases self.slots.len() - i,
        {
            if self.slots[i].key.same_as(key) {
                proof {
                    assert(self.keys()[i as int] == key@);
                    lemma_assoc_lookup(self.keys(), self.entries(), i as int);
                }
                return Some(i);
            }
            i = i + 1;
        }
        proof {
            if self.keys().contains(key@) {
                let j = choose|j: int| 0 <= j < self.keys().len() && self.keys()[j] == key@;
                assert(self.slots[j].key@ == key@);
            }
        }
        None
    }

    fn remove_at(&mut self, i: usize)
        requires
            old(self).wf(),
            i < old(self).slots.len(),
        ensures
            final(self).wf(),
            final(self)@ == old(self)@.remove(old(self).slots[i as int].key@),
    {
        let ghost keys = self.keys();
        let ghost entries = self.entries();
        let ghost before = self.slots@;
        let _ = self.slots.remove(i);
        proof {
            assert(self.slots@ == before.remove(i as int));
            assert(self.keys() =~= keys.remove(i as int));
            assert(self.entries() =~= entries.remove(i as int));
            lemma_assoc_remove(keys, entries, i as int);
        }
    }

    /// Reads the list stored under `key` at time `now`. A fresh entry is
    /// returned as a copy; a stale one is dropped and nothing is returned.
    pub fn get(&mut self, key: &CacheKey, now: u128, ttl: u128) -> (r: Option<Vec<Item>>)
        requires
            old(self).wf(),
        ensures
            final(self).wf(),
            opt_items_view(r) == lookup(old(self)@, key@, now, ttl),
            final(self)@ == after_get(old(self)@, key@, now, ttl),
    {
        match self.position(key) {
            Some(i) => {
                if check_fresh(self.slots[i].entry.created_at, now, ttl) {
                    Some(self.slots[i].entry.items.clone())
                } else {
                    self.remove_at(i);
                    None
                }
            },
            None => None,
        }
    }

    /// Cuts page `page` of `limit` items out of the list stored under `key`,
    /// read at time `now`, without copying the rest of the list. A stale
    /// entry is dropped and nothing is returned.
    pub fn get_page(&mut self, key: &CacheKey, now: u128, ttl: u128, page: usize, limit: usize) -> (r:
        Option<PageResult>)
        requires
            old(self).wf(),
            page >= 1,
            limit >= 1,
        ensures
            final(self).wf(),
            is_page_of_lookup(r, old(self)@, key@, now, ttl, page as int, limit as int),
            final(self)@ == after_get(old(self)@, key@, now, ttl),
    {
        match self.position(key) {
            Some(i) => {
                if check_fresh(self.slots[i].entry.created_at, now, ttl) {
                    Some(paginate_with_meta(&self.slots[i].entry.items, page, limit, key.sort))
                } else {
                    self.remove_at(i);
                    None
                }
            },
            None => None,
        }
    }

    /// Stores `items` under `key` with the time `now`, in place of what
    /// was there.
    pub fn put(&mut self, key: CacheKey, items: Vec<Item>, now: u128)
        requires
            old(self).wf(),
        ensures
            final(self).wf(),
            final(self)@ == after_put(old(self)@, key@, items@, now),
    {
        let ghost keys = self.keys();
        let ghost entries = self.entries();
        let ghost before = self.slots@;
        let ghost stored = CachedList { created_at: now, items: items@ };
        match self.position(&key) {
            Some(i) => {
                self.slots[i].entry = CacheEntry { created_at: now, items };
                proof {
                    assert(self.slots@.len() == before.len());
                    assert(forall|j: int|
                        0 <= j < before.len() && j != i ==> self.slots@[j] == before[j]);
                    assert(self.slots@[i as int].key == before[i as int].key);
                    assert(self.keys() =~= keys);
                    assert(self.entries() =~= entries.update(i as int, stored));
                    lemma_assoc_update(keys, entries, i as int, stored);
                }
            },
            None => {
                proof {
                    lemma_assoc_push(keys, entries, key@, stored);
                }
                self.slots.push(CacheSlot { key, entry: CacheEntry { created_at: now, items } });
                proof {
                    assert(self.keys() =~= keys.push(key@));
                    assert(self.entries() =~= entries.push(stored));
                }
            },
        }
    }

    /// Drops the entry under `key`, if there is one.
    pub fn invalidate(&mut self, key: &CacheKey)
        requires
            old(self).wf(),
        ensures
            final(self).wf(),
            final(self)@ == old(self)@.remove(key@),
    {
        match self.position(key) {
            Some(i) => {
                self.remove_at(i);
            },
            None => {
                proof {
                    assert(self@.remove(key@) =~= self@);
                }
            },
        }
    }

    /// Drops every entry of `identity`, whatever its filter and sort
    /// direction: one pass over all entries.
    pub fn invalidate_identity(&mut self, identity: &str)
        requires
            old(self).wf(),
        ensures
            final(self).wf(),
            final(self)@ == without_identity(old(self)@, identity@),
    {
        let ghost keys = self.keys();
        let ghost entries = self.entries();
        let ghost cache = self@;
        let ghost before = self.slots@;
        let mut all: Vec<CacheSlot> = Vec::new();
        core::mem::swap(&mut self.slots, &mut all);
        proof {
            assert(all@ == before);
            lemma_assoc_empty::<CacheKeyView, CachedList>();
            assert(self.keys() =~= Seq::<CacheKeyView>::empty());
            assert(self.entries() =~= Seq::<CachedList>::empty());
            assert(self@ =~= Map::new(
                |k: CacheKeyView| keys.take(0).contains(k) && k.identity != identity@,
                |k: CacheKeyView| cache[k],
            ));
        }
        for slot in it: all
            invariant
                it.seq() == before,
                keys.len() == before.len(),
                entries.len() == before.len(),
                forall|j: int| 0 <= j < before.len() ==> keys[j] == before[j].key@,
                forall|j: int| 0 <= j < before.len() ==> entries[j] == before[j].entry@,
                distinct(keys),
                cache == assoc_map(keys, entries),
                self.wf(),
                forall|j: int|
                    0 <= j < self.slots.len() ==> keys.take(it.index() as int).contains(
                        #[trigger] self.slots[j].key@,
                    ),
                self@ == Map::new(
                    |k: CacheKeyView|
                        keys.take(it.index() as int).contains(k) && k.identity != identity@,
                    |k: CacheKeyView| cache[k],
                ),
        {
            let ghost i = it.index() as int;
            let ghost seen = keys.take(i);
            let ghost seen_next = keys.take(i + 1);
            let ghost kept_keys = self.keys();
            let ghost kept_entries = self.entries();
            let ghost kept = self@;
            proof {
                assert(slot == before[i]);
                lemma_assoc_lookup(keys, entries, i);
                assert(seen_next[i] == keys[i]);
                assert forall|k: CacheKeyView| seen_next.contains(k) <==> (seen.contains(k) || k
                    == keys[i]) by {
                    if seen_next.contains(k) {
                        let j = choose|j: int| 0 <= j < seen_next.len() && seen_next[j] == k;
                        if j < i {
                            assert(seen[j] == k);
                        }
                    }
                    if seen.contains(k) {
                        let j = choose|j: int| 0 <= j < seen.len() && seen[j] == k;
                        assert(seen_next[j] == k);
                    }
                }
                assert(!seen.contains(keys[i])) by {
                    if seen.contains(keys[i]) {
                        let j = choose|j: int| 0 <= j < seen.len() && seen[j] == keys[i];
                        assert(keys[j] != keys[i]);
                    }
                }
            }
            if str_eq(slot.key.identity.as_str(), identity) {
                proof {
                    assert(kept =~= Map::new(
                        |k: CacheKeyView| seen_next.contains(k) && k.identity != identity@,
                        |k: CacheKeyView| cache[k],
                    ));
                }
            } else {
                proof {
                    assert(!kept_keys.contains(slot.key@)) by {
                        if kept_keys.contains(slot.key@) {
                            let j = choose|j: int|
                                0 <= j < kept_keys.len() && kept_keys[j] == slot.key@;
                            assert(seen.contains(self.slots[j].key@));
                        }
                    }
                    lemma_assoc_push(kept_keys, kept_entries, slot.key@, slot.entry@);
                }
                self.slots.push(slot);
                proof {
                    assert(self.keys() =~= kept_keys.push(keys[i]));
                    assert(self.entries() =~= kept_entries.push(entries[i]));
                    assert(self@ =~= Map::new(
                        |k: CacheKeyView| seen_next.contains(k) && k.identity != identity@,
                        |k: CacheKeyView| cache[k],
                    ));
                }
            }
        }
        proof {
            assert(keys.take(before.len() as int) =~= keys);
            assert(self@ =~= without_identity(cache, identity@));
        }
    }

    /// Drops every entry.
    pub fn clear(&mut self)
        requires
            old(self).wf(),
        ensures
            final(self).wf(),
            final(self)@ == Map::<CacheKeyView, CachedList>::empty(),
    {
        self.slots.clear();
        proof {
            lemma_assoc_empty::<CacheKeyView, CachedList>();
            assert(self.keys() =~= Seq::<CacheKeyView>::empty());
            assert(self.entries() =~= Seq::<CachedList>::empty());
        }
    }
}

} // verus!
