//! The query of a "list subscriptions" request, as it arrives and as the
//! library works with it.

use vstd::prelude::*;
use crate::cache::{CacheKey, CacheKeyView};
use crate::sort::{sort_order_of, SortOrder};
use crate::text::{lowercase_of, opt_string_view, text_or_empty, to_lowercase, trim, trimmed};

verus! {

/// The limit of a request that names none.
pub const DEFAULT_LIMIT: usize = 25;

/// The largest limit that is granted.
pub const MAX_LIMIT: usize = 100;

/// The query parameters of a request, as the client sent them.
#[derive(Debug)]
pub struct SubscriptionsQuery {
    pub query: Option<String>,
    pub page: Option<usize>,
    pub limit: Option<usize>,
    pub sort: Option<String>,
}

/// A query after normalization.
#[derive(Debug, PartialEq, Eq)]
pub struct NormalizedQuery {
    /// The filter text, trimmed and in lower case; empty for "no filter".
    pub filter: String,
    /// The page asked for, at least 1.
    pub page: usize,
    /// The page size, from 1 to 100.
    pub limit: usize,
    pub sort: SortOrder,
}

/// The page asked for: page 1 where none or page 0 is named.
pub open spec fn normalized_page(page: Option<usize>) -> usize {
    match page {
        Some(p) => if p < 1 {
            1
        } else {
            p
        },
        None => 1,
    }
}

/// The page size: 25 where none is named, else what is named, raised to 1
/// and lowered to 100.
pub open spec fn normalized_limit(limit: Option<usize>) -> usize {
    match limit {
        Some(l) => if l < 1 {
            1
        } else if l > 100 {
            100
        } else {
            l
        },
        None => 25,
    }
}

/// The filter text: what was sent, trimmed, then in lower case.
pub open spec fn normalized_filter(query: Option<Seq<char>>) -> Seq<char> {
    lowercase_of(trimmed(text_or_empty(query)))
}

impl NormalizedQuery {
    /// Page and limit are in their ranges.
    pub open spec fn wf(self) -> bool {
        self.page >= 1 && 1 <= self.limit <= 100
    }

    /// `self` is what [`normalize`] makes of `raw`.
    pub open spec fn normalizes(self, raw: SubscriptionsQuery) -> bool {
        &&& self.filter@ == normalized_filter(opt_string_view(raw.query))
        &&& self.page == normalized_page(raw.page)
        &&& self.limit == normalized_limit(raw.limit)
        &&& self.sort == sort_order_of(opt_string_view(raw.sort))
    }

    /// The key under which the list of `identity` for this query is
    /// cached.
    pub open spec fn key_for(self, identity: Seq<char>) -> CacheKeyView {
        CacheKeyView { identity, filter: self.filter@, sort: self.sort }
    }

    /// Decides [`NormalizedQuery::wf`].
    pub fn in_range(&self) -> (r: bool)
        ensures
            r == self.wf(),
    {
        self.page >= 1 && 1 <= self.limit && self.limit <= MAX_LIMIT
    }

    /// Builds the cache key of `identity` for this query.
    pub fn cache_key(&self, identity: &str) -> (r: CacheKey)
        ensures
            r@ == self.key_for(identity@),
    {
        CacheKey { identity: identity.to_owned(), filter: self.filter.clone(), sort: self.sort }
    }
}

/// Decides [`normalized_page`].
pub fn normalize_page(page: Option<usize>) -> (r: usize)
    ensures
        r == normalized_page(page),
        r >= 1,
{
    match page {
        Some(p) => {
            if p < 1 {
                1
            } else {
                p
            }
        },
        None => 1,
    }
}

/// Decides [`normalized_limit`].
pub fn normalize_limit(limit: Option<usize>) -> (r: usize)
    ensures
        r == normalized_limit(limit),
        1 <= r <= 100,
{
    match limit {
        Some(l) => {
            if l < 1 {
                1
            } else if l > MAX_LIMIT {
                MAX_LIMIT
            } else {
                l
            }
        },
        None => DEFAULT_LIMIT,
    }
}

/// Trims the filter text and puts it in lower case; no text is the empty
/// filter.
pub fn normalize_filter(query: &Option<String>) -> (r: String)
    ensures
        r@ == normalized_filter(opt_string_view(*query)),
{
    match query {
        Some(q) => to_lowercase(trim(q.as_str())),
        None => {
            proof {
                reveal_strlit("");
                assert(""@ =~= Seq::<char>::empty());
            }
            to_lowercase(trim(""))
        },
    }
}

/// Normalizes the query of a request.
pub fn normalize(params: &SubscriptionsQuery) -> (r: NormalizedQuery)
    ensures
        r.normalizes(*params),
        r.wf(),
{
    let sort = match &params.sort {
        Some(s) => SortOrder::parse(Some(s.as_str())),
        None => SortOrder::parse(None),
    };
    NormalizedQuery {
        filter: normalize_filter(&params.query),
        page: normalize_page(params.page),
        limit: normalize_limit(params.limit),
        sort,
    }
}

} // verus!
