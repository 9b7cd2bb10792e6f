//! Cutting one page out of a materialized list.

use vstd::prelude::*;
use crate::item::Item;
use crate::sort::SortOrder;

verus! {

/// One page of a result, with the totals of the whole list.
#[derive(Debug, PartialEq, Eq)]
pub struct PageResult {
    pub items: Vec<Item>,
    pub total_results: usize,
    pub total_pages: usize,
    pub page: usize,
    pub limit: usize,
    pub sort: SortOrder,
}

/// The index of the first item of page `page`, pages counted from 1.
pub open spec fn page_start(page: int, limit: int) -> int {
    (page - 1) * limit
}

/// Up to `limit` items of `all` from index `start` on; none where `start`
/// is behind the end.
pub open spec fn window(all: Seq<Item>, start: int, limit: int) -> Seq<Item> {
    if start >= all.len() {
        Seq::empty()
    } else if start + limit <= all.len() {
        all.subrange(start, start + limit)
    } else {
        all.subrange(start, all.len() as int)
    }
}

/// The items of page `page`: up to `limit` items from [`page_start`] on,
/// and none where the page starts behind the end of the list.
pub open spec fn page_slice(all: Seq<Item>, page: int, limit: int) -> Seq<Item> {
    window(all, page_start(page, limit), limit)
}

/// The number of pages of `limit` items that `total` items fill: the
/// quotient rounded up.
pub open spec fn pages_needed(total: int, limit: int) -> int {
    (total + limit - 1) / limit
}

impl PageResult {
    /// `self` is page `page` of `all` with the totals of `all`.
    pub open spec fn is_page_of(self, all: Seq<Item>, page: int, limit: int, sort: SortOrder) -> bool {
        &&& self.items@ == page_slice(all, page, limit)
        &&& self.total_results == all.len()
        &&& self.total_pages == pages_needed(all.len() as int, limit)
        &&& self.page == page
        &&& self.limit == limit
        &&& self.sort == sort
    }
}

proof fn lemma_pages_needed(total: int, limit: int)
    requires
        total >= 0,
        limit >= 1,
    ensures
        pages_needed(total, limit) == total / limit + if total % limit == 0 {
            0int
        } else {
            1int
        },
        0 <= total / limit <= total,
        total % limit != 0 ==> total / limit < total,
{
    let q = total / limit;
    let r = total % limit;
    assert(total == q * limit + r && 0 <= r < limit) by (nonlinear_arith)
        requires
            q == total / limit,
            r == total % limit,
            limit >= 1,
    ;
    assert(0 <= q <= total) by (nonlinear_arith)
        requires
            total == q * limit + r,
            0 <= r < limit,
            limit >= 1,
            total >= 0,
    ;
    if r == 0 {
        assert((q * limit + limit - 1) / limit == q) by (nonlinear_arith)
            requires
                limit >= 1,
        ;
    } else {
        assert((q * limit + r + limit - 1) / limit == q + 1) by (nonlinear_arith)
            requires
                limit >= 1,
                0 < r < limit,
        ;
        assert(q < q * limit + r) by (nonlinear_arith)
            requires
                q >= 0,
                limit >= 1,
                0 < r,
        ;
    }
}

/// The number of pages that `total` items fill.
pub fn count_pages(total: usize, limit: usize) -> (r: usize)
    requires
        limit >= 1,
    ensures
        r == pages_needed(total as int, limit as int),
{
    proof {
        lemma_pages_needed(total as int, limit as int);
    }
    if total % limit == 0 {
        total / limit
    } else {
        total / limit + 1
    }
}

/// Copies up to `limit` items of the list from index `start` on.
pub fn cut_window(items: &Vec<Item>, start: usize, limit: usize) -> (r: Vec<Item>)
    ensures
        r@ == window(items@, start as int, limit as int),
{
    let total = items.len();
    let mut out: Vec<Item> = Vec::new();
    if start < total {
        let end = if limit <= total - start {
            start + limit
        } else {
            total
        };
        let mut i = start;
        while i < end
            invariant
                start <= i <= end <= total,
                total == items.len(),
                out@ == items@.subrange(start as int, i as int),
            decreases end - i,
        {
            out.push(items[i].clone());
            proof {
                assert(items@.subrange(start as int, i + 1) =~= items@.subrange(
                    start as int,
                    i as int,
                ).push(items@[i as int]));
            }
            i = i + 1;
        }
    }
    out
}

/// Cuts page `page` of `limit` items out of the list and reports the
/// totals. A page behind the end of the list is empty, not an error.
pub fn paginate_with_meta(items: &Vec<Item>, page: usize, limit: usize, sort: SortOrder) -> (r:
    PageResult)
    requires
        page >= 1,
        limit >= 1,
    ensures
        r.is_page_of(items@, page as int, limit as int, sort),
{
    let total = items.len();
    let total_pages = count_pages(total, limit);
    let page_items = match (page - 1).checked_mul(limit) {
        Some(start) => cut_window(items, start, limit),
        None => Vec::new(),
    };
    PageResult { items: page_items, total_results: total, total_pages, page, limit, sort }
}

} // verus!
