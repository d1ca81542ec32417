//! Splitting result lists into pages.

use vstd::prelude::*;

use crate::text::{decimal, push_str, push_u64};

verus! {

/// Metadata about a paginated result.
pub struct PaginationInfo {
    pub page: usize,
    pub page_size: usize,
    pub total_items: usize,
    pub total_pages: usize,
    pub has_next: bool,
    pub has_previous: bool,
}

/// The number of pages that `total` items fill: full pages, plus one for a
/// partial last page; a single (empty) page when there are no items.
pub open spec fn page_count(total: nat, page_size: nat) -> nat {
    if total == 0 {
        1
    } else if total % page_size == 0 {
        total / page_size
    } else {
        total / page_size + 1
    }
}

/// The index of the first item on page `page` (pages are numbered from 1;
/// page 0 is read as page 1).
pub open spec fn page_start(page: nat, page_size: nat) -> nat {
    if page == 0 {
        0
    } else {
        ((page - 1) * page_size) as nat
    }
}

/// The items shown on page `page`.
pub open spec fn page_items<T>(items: Seq<T>, page: nat, page_size: nat) -> Seq<T> {
    let start = page_start(page, page_size);
    if start < items.len() {
        let end: int = if start + page_size < items.len() {
            (start + page_size) as int
        } else {
            items.len() as int
        };
        items.subrange(start as int, end)
    } else {
        Seq::empty()
    }
}

/// Whether `paginate` can compute the page without dividing by zero or
/// overflowing.
pub open spec fn can_paginate(total: nat, page: nat, page_size: nat) -> bool {
    &&& (total > 0 ==> page_size > 0)
    &&& page_start(page, page_size) + page_size <= usize::MAX
}

/// Paginate a slice of items, returning the requested page.
pub fn paginate<T>(items: &[T], page: usize, page_size: usize) -> (r: (&[T], PaginationInfo))
    requires
        can_paginate(items@.len(), page as nat, page_size as nat),
    ensures
        r.0@ == page_items(items@, page as nat, page_size as nat),
        r.1.page == page,
        r.1.page_size == page_size,
        r.1.total_items == items@.len(),
        r.1.total_pages == page_count(items@.len(), page_size as nat),
        r.1.has_next == (page < page_count(items@.len(), page_size as nat)),
        r.1.has_previous == (page > 1),
{
    let total = items.len();
    let total_pages = if total == 0 {
        1
    } else if total % page_size == 0 {
        total / page_size
    } else {
        assert(page_size != 1);
        assert(total / page_size < total) by (nonlinear_arith)
            requires
                page_size >= 2,
                total > 0,
        ;
        total / page_size + 1
    };
    let before = page.saturating_sub(1);
    proof {
        if page == 0 {
            assert(before == 0);
        } else {
            assert(before == page - 1);
        }
        assert(before * page_size == page_start(page as nat, page_size as nat));
    }
    let start = before * page_size;
    let end = if start + page_size < total {
        start + page_size
    } else {
        total
    };
    let slice = if start < total {
        vstd::slice::slice_subrange(items, start, end)
    } else {
        vstd::slice::slice_subrange(items, total, total)
    };
    assert(slice@ =~= page_items(items@, page as nat, page_size as nat));
    let info = PaginationInfo {
        page,
        page_size,
        total_items: total,
        total_pages,
        has_next: page < total_pages,
        has_previous: page > 1,
    };
    (slice, info)
}

/// Pages 1 to `n`, one after the other.
pub open spec fn pages_upto<T>(items: Seq<T>, page_size: nat, n: nat) -> Seq<T>
    decreases n,
{
    if n == 0 {
        Seq::empty()
    } else {
        pages_upto(items, page_size, (n - 1) as nat) + page_items(items, n, page_size)
    }
}

proof fn lemma_pages_upto<T>(items: Seq<T>, page_size: nat, n: nat)
    requires
        page_size > 0,
    ensures
        pages_upto(items, page_size, n) == items.take(
            if n * page_size < items.len() {
                (n * page_size) as int
            } else {
                items.len() as int
            },
        ),
    decreases n,
{
    if n == 0 {
        assert(items.take(0) =~= Seq::<T>::empty());
    } else {
        lemma_pages_upto(items, page_size, (n - 1) as nat);
        let prev = (n - 1) * page_size;
        assert(n * page_size == prev + page_size) by (nonlinear_arith)
            requires
                prev == (n - 1) * page_size,
                n >= 1,
        ;
        assert(prev >= 0) by (nonlinear_arith)
            requires
                prev == (n - 1) * page_size,
                n >= 1,
        ;
        if prev < items.len() {
            let end: int = if prev + page_size < items.len() {
                prev + page_size
            } else {
                items.len() as int
            };
            assert(items.take(prev) + items.subrange(prev, end) =~= items.take(end));
        } else {
            assert(pages_upto(items, page_size, n) =~= pages_upto(
                items,
                page_size,
                (n - 1) as nat,
            ));
        }
    }
}

/// Reading pages 1, 2, ... up to the last page gives back every item once,
/// in order; and no page holds more than `page_size` items.
pub proof fn law_pages_cover<T>(items: Seq<T>, page_size: nat, page: nat)
    requires
        page_size > 0,
    ensures
        pages_upto(items, page_size, page_count(items.len(), page_size)) == items,
        page_items(items, page, page_size).len() <= page_size,
{
    let n = items.len();
    let c = page_count(n, page_size);
    lemma_pages_upto(items, page_size, c);
    vstd::arithmetic::div_mod::lemma_fundamental_div_mod(n as int, page_size as int);
    if n > 0 {
        assert(c * page_size >= n) by (nonlinear_arith)
            requires
                n == page_size * (n / page_size) + (n % page_size),
                c == (if n % page_size == 0 {
                    n / page_size
                } else {
                    n / page_size + 1
                }),
                0 <= n % page_size < page_size,
        ;
    }
    assert(items.take(n as int) =~= items);
}

/// The text of a `PaginationInfo`: `Page <page>/<total_pages> (<total_items> items total)`.
pub open spec fn info_text(page: nat, total_pages: nat, total_items: nat) -> Seq<char> {
    "Page "@ + decimal(page) + "/"@ + decimal(total_pages) + " ("@ + decimal(total_items)
        + " items total)"@
}

impl PaginationInfo {
    /// The one-line description shown above a page of results.
    pub fn text(&self) -> (r: String)
        ensures
            r@ == info_text(self.page as nat, self.total_pages as nat, self.total_items as nat),
    {
        let mut out = String::new();
        push_str(&mut out, "Page ");
        push_u64(&mut out, self.page as u64);
        push_str(&mut out, "/");
        push_u64(&mut out, self.total_pages as u64);
        push_str(&mut out, " (");
        push_u64(&mut out, self.total_items as u64);
        push_str(&mut out, " items total)");
        assert(out@ =~= info_text(self.page as nat, self.total_pages as nat, self.total_items as nat));
        out
    }
}

} // verus!
