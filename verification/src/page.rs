//! Pagination metadata.

use vstd::prelude::*;
use crate::text::{append_decimal, decimal};

verus! {

/// The largest page count a [`Page`] can hold.
pub const MAX_PAGES: u16 = 65535;

/// Number of pages that hold `total` items at `per_page` items a page: the
/// quotient rounded up. With a page size of zero no page holds anything,
/// and there is none.
pub open spec fn pages_needed(total: nat, per_page: nat) -> nat {
    if per_page == 0 {
        0
    } else {
        ((total + per_page - 1) / (per_page as int)) as nat
    }
}

/// The page count that a [`Page`] reports for `total` items at `per_page`
/// items a page: the pages needed, capped at [`MAX_PAGES`].
///
/// A page size of zero leaves nothing to divide by: any items at all then
/// count as the maximum number of pages, and no items as no page.
pub open spec fn page_count(total: nat, per_page: nat) -> nat {
    if per_page == 0 {
        if total == 0 {
            0
        } else {
            MAX_PAGES as nat
        }
    } else {
        let exact = pages_needed(total, per_page);
        if exact > MAX_PAGES {
            MAX_PAGES as nat
        } else {
            exact
        }
    }
}

/// The page that is shown when `requested` is asked of `count` pages.
pub open spec fn clamp_page(count: nat, requested: nat) -> nat {
    if requested > count {
        count
    } else {
        requested
    }
}

/// First position of page `page`, counted from 1, in a list of `len` items
/// at `size` items a page; `len` where the page starts beyond the list.
pub open spec fn window_start(len: nat, page: nat, size: nat) -> nat {
    let skipped = (page - 1) * size;
    if skipped > len {
        len
    } else {
        skipped as nat
    }
}

/// The position after the last item of page `page`.
pub open spec fn window_end(len: nat, page: nat, size: nat) -> nat {
    let start = window_start(len, page, size);
    if start + size > len {
        len
    } else {
        start + size
    }
}

/// The items of page `page`: the list without its first `(page - 1) * size`
/// items, cut to at most `size` items. A page beyond the list is empty.
pub open spec fn window<T>(items: Seq<T>, page: nat, size: nat) -> Seq<T> {
    items.subrange(
        window_start(items.len(), page, size) as int,
        window_end(items.len(), page, size) as int,
    )
}

/// The page whose items are shown when page `requested` is asked of a list
/// of `total` items at `size` a page: the page asked for, or the last page
/// where that lies before it. It is 0 where there is no page at all.
pub open spec fn clamped_page(total: nat, requested: nat, size: nat) -> nat {
    clamp_page(pages_needed(total, size), requested)
}

/// The items shown when page `requested` is asked of `items` at `size` a
/// page and a request beyond the last page shows the last page.
pub open spec fn clamped_window<T>(items: Seq<T>, requested: nat, size: nat) -> Seq<T> {
    let page = clamped_page(items.len(), requested, size);
    if page >= 1 {
        window(items, page, size)
    } else {
        Seq::empty()
    }
}

/// The pages tile the list: the first page starts at the front, every page
/// starts where the page before it ends, no page holds more than `size`
/// items, and every page before the last is full.
pub proof fn lemma_pages_tile_the_list(len: nat, page: nat, size: nat)
    requires
        page >= 1,
    ensures
        window_start(len, 1, size) == 0,
        window_start(len, page + 1, size) == window_end(len, page, size),
        window_start(len, page, size) <= window_end(len, page, size) <= len,
        window_end(len, page, size) - window_start(len, page, size) <= size,
        window_end(len, page, size) < len ==> window_end(len, page, size) - window_start(
            len,
            page,
            size,
        ) == size,
{
    assert((page - 1) * size + size == page * size) by (nonlinear_arith);
    assert((page - 1) * size >= 0) by (nonlinear_arith)
        requires
            page >= 1,
    ;
    assert(0 * size == 0) by (nonlinear_arith);
}

/// As many pages as are needed hold the whole list, and one page fewer
/// does not: the rounded-up quotient is the number of the last page that
/// holds an item.
pub proof fn lemma_pages_needed(len: nat, size: nat)
    requires
        size >= 1,
    ensures
        pages_needed(len, size) * size >= len,
        len > 0 ==> pages_needed(len, size) >= 1 && (pages_needed(len, size) - 1) * size < len,
        len == 0 ==> pages_needed(len, size) == 0,
        pages_needed(len, size) <= len,
{
    let count = (len + size - 1) / (size as int);
    assert(count * size >= len && count * size <= len + size - 1 && count >= 0) by (nonlinear_arith)
        requires
            size >= 1,
            len >= 0,
            count == (len + size - 1) / (size as int),
    ;
    assert((count - 1) * size == count * size - size) by (nonlinear_arith);
    if len == 0 {
        assert(count == 0) by (nonlinear_arith)
            requires
                count * size <= size - 1,
                count >= 0,
                size >= 1,
        ;
    } else {
        assert(count >= 1) by (nonlinear_arith)
            requires
                count * size >= len,
                len > 0,
                size >= 1,
        ;
        assert(count <= len) by (nonlinear_arith)
            requires
                (count - 1) * size < len,
                count >= 1,
                size >= 1,
        ;
    }
}

/// The last page ends the list: with `size` at least one, the last page that
/// is needed, and every page behind it, ends where the list ends; every page
/// behind the last is empty, and the last page itself is not.
pub proof fn lemma_last_page_ends_the_list(len: nat, page: nat, size: nat)
    requires
        size >= 1,
        page >= 1,
        page >= pages_needed(len, size),
    ensures
        window_end(len, page, size) == len,
        page > pages_needed(len, size) ==> window_start(len, page, size) == len,
        page == pages_needed(len, size) ==> window_start(len, page, size) < len,
{
    let count = pages_needed(len, size);
    lemma_pages_needed(len, size);
    assert(page * size >= len) by (nonlinear_arith)
        requires
            page >= count,
            count * size >= len,
            size >= 1,
    ;
    assert((page - 1) * size + size == page * size) by (nonlinear_arith);
    if page > count {
        assert((page - 1) * size >= len) by (nonlinear_arith)
            requires
                page - 1 >= count,
                count * size >= len,
                size >= 1,
        ;
    }
}

/// A request beyond the last page shows the last page, down to the last
/// item of the list; a request within the pages shows the page asked for.
pub proof fn lemma_clamped_window<T>(items: Seq<T>, requested: nat, size: nat)
    requires
        size >= 1,
        requested >= 1,
    ensures
        requested <= pages_needed(items.len(), size) ==> clamped_window(items, requested, size)
            == window(items, requested, size),
        requested >= pages_needed(items.len(), size) && items.len() > 0 ==> clamped_window(
            items,
            requested,
            size,
        ) == items.subrange(
            (pages_needed(items.len(), size) - 1) * size,
            items.len() as int,
        ) && clamped_window(items, requested, size).len() > 0,
        items.len() == 0 ==> clamped_window(items, requested, size).len() == 0,
{
    let len = items.len();
    let count = pages_needed(len, size);
    lemma_pages_needed(len, size);
    if len > 0 {
        lemma_last_page_ends_the_list(len, count, size);
    }
}

/// Where the pages needed fit into a [`Page`], the page whose items are
/// shown is the page that the [`Page`] stands on.
pub proof fn lemma_clamped_page_is_current(total: nat, requested: nat, size: nat)
    requires
        size >= 1,
        pages_needed(total, size) <= MAX_PAGES,
    ensures
        Page::for_list_spec(total, requested, size).current == clamped_page(total, requested, size),
        Page::for_list_spec(total, requested, size).count == pages_needed(total, size),
{
}

/// Every item of a page is an item of the list, at the place the page's
/// start gives it.
pub proof fn lemma_window_is_part_of_the_list<T>(items: Seq<T>, page: nat, size: nat, at: int)
    requires
        page >= 1,
        0 <= at < window(items, page, size).len(),
    ensures
        window_start(items.len(), page, size) + at < items.len(),
        window(items, page, size)[at] == items[window_start(items.len(), page, size) + at],
{
    lemma_pages_tile_the_list(items.len(), page, size);
}

/// The bounds of page `page` in a list of `len` items.
pub fn window_bounds(len: usize, page: usize, size: usize) -> (bounds: (usize, usize))
    requires
        page >= 1,
    ensures
        bounds.0 == window_start(len as nat, page as nat, size as nat),
        bounds.1 == window_end(len as nat, page as nat, size as nat),
        bounds.0 <= bounds.1 <= len,
{
    let start: usize = match (page - 1).checked_mul(size) {
        Some(skipped) => if skipped > len {
            len
        } else {
            skipped
        },
        None => len,
    };
    let end: usize = if size > len - start {
        len
    } else {
        start + size
    };
    (start, end)
}

/// The bounds, in a list of `len` items at `size` a page, of the page whose
/// items are shown when page `requested` is asked for and a request beyond
/// the last page shows the last page; an empty range where there is no page.
pub fn clamped_bounds(len: usize, requested: usize, size: usize) -> (bounds: (usize, usize))
    ensures
        bounds.0 <= bounds.1 <= len,
        clamped_page(len as nat, requested as nat, size as nat) >= 1 ==> bounds.0
            == window_start(
            len as nat,
            clamped_page(len as nat, requested as nat, size as nat),
            size as nat,
        ) && bounds.1 == window_end(
            len as nat,
            clamped_page(len as nat, requested as nat, size as nat),
            size as nat,
        ),
        clamped_page(len as nat, requested as nat, size as nat) == 0 ==> bounds.0 == bounds.1,
{
    if size == 0 {
        return (0, 0);
    }
    proof {
        lemma_pages_needed(len as nat, size as nat);
    }
    let needed: usize = ((len as u128 + size as u128 - 1) / (size as u128)) as usize;
    let page: usize = if requested > needed {
        needed
    } else {
        requested
    };
    if page >= 1 {
        window_bounds(len, page, size)
    } else {
        (0, 0)
    }
}

/// Paging information for a list view.
#[derive(Debug, Clone, Copy, PartialEq, Eq)]
pub struct Page {
    /// Total number of pages.
    pub count: u16,
    /// The current page, counted from 1 and never beyond `count`.
    pub current: u16,
    /// The page before the current one, if there is one.
    pub prev: Option<u16>,
    /// The page after the current one, if there is one.
    pub next: Option<u16>,
}

impl Page {
    /// Whether `self` describes page `requested`, clamped, out of `count` pages.
    pub open spec fn describes(self, count: nat, requested: nat) -> bool {
        &&& self.count == count
        &&& self.current == clamp_page(count, requested)
        &&& self.prev == (if self.current > 1 {
            Some((self.current - 1) as u16)
        } else {
            None
        })
        &&& self.next == (if self.current < self.count {
            Some((self.current + 1) as u16)
        } else {
            None
        })
    }

    /// Whether the neighbour links agree with `current` and `count`.
    pub open spec fn wf(self) -> bool {
        self.describes(self.count as nat, self.current as nat)
    }

    /// Paging for `total` items at `per_page` a page, positioned on `current`.
    pub fn new(total: u32, current: u16, per_page: u16) -> (page: Page)
        ensures
            page.describes(page_count(total as nat, per_page as nat), current as nat),
            page.wf(),
    {
        let count: u16 = if per_page == 0 {
            if total == 0 {
                0
            } else {
                MAX_PAGES
            }
        } else {
            let exact: u64 = (total as u64 + per_page as u64 - 1) / (per_page as u64);
            if exact > MAX_PAGES as u64 {
                MAX_PAGES
            } else {
                exact as u16
            }
        };
        Page::from_count(count, current)
    }

    /// The paging information for page `requested` of a list of `total`
    /// items at `per_page` a page.
    pub open spec fn for_list_spec(total: nat, requested: nat, per_page: nat) -> Page {
        let count = page_count(total, per_page);
        let current = clamp_page(count, requested);
        Page {
            count: count as u16,
            current: current as u16,
            prev: if current > 1 {
                Some((current - 1) as u16)
            } else {
                None
            },
            next: if current < count {
                Some((current + 1) as u16)
            } else {
                None
            },
        }
    }

    /// Paging for a list of `total` items at `per_page` a page, positioned
    /// on page `requested`.
    pub fn for_list(total: usize, requested: usize, per_page: usize) -> (page: Page)
        ensures
            page == Page::for_list_spec(total as nat, requested as nat, per_page as nat),
            page.describes(page_count(total as nat, per_page as nat), requested as nat),
            page.wf(),
    {
        let count: u16 = if per_page == 0 {
            if total == 0 {
                0
            } else {
                MAX_PAGES
            }
        } else {
            let exact: u128 = (total as u128 + per_page as u128 - 1) / (per_page as u128);
            if exact > MAX_PAGES as u128 {
                MAX_PAGES
            } else {
                exact as u16
            }
        };
        let current: u16 = if requested > MAX_PAGES as usize {
            MAX_PAGES
        } else {
            requested as u16
        };
        Page::from_count(count, current)
    }

    /// The words put before the site's title on every page but the first.
    pub open spec fn title_prefix_text(self) -> Option<Seq<char>> {
        if self.current > 1 {
            Some("\u{7b2c}"@ + decimal(self.current as nat) + "\u{9875} - "@)
        } else {
            None
        }
    }

    /// The words put before the site's title on every page but the first:
    /// the page's number between the words for "page number".
    pub fn title_prefix(&self) -> (prefix: Option<String>)
        ensures
            match prefix {
                Some(text) => self.title_prefix_text() == Some(text@),
                None => self.title_prefix_text() is None,
            },
    {
        if self.current > 1 {
            let mut text = "\u{7b2c}".to_owned();
            append_decimal(&mut text, self.current as u64);
            text.append("\u{9875} - ");
            Some(text)
        } else {
            None
        }
    }

    /// Paging for a known number of pages, positioned on `current`.
    pub fn from_count(count: u16, current: u16) -> (page: Page)
        ensures
            page.describes(count as nat, current as nat),
            page.wf(),
    {
        let current: u16 = if current > count {
            count
        } else {
            current
        };
        let prev: Option<u16> = if current > 1 {
            Some(current - 1)
        } else {
            None
        };
        let next: Option<u16> = if current < count {
            Some(current + 1)
        } else {
            None
        };
        Page { count, current, prev, next }
    }
}

} // verus!
