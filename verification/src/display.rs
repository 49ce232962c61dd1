//! The derived pagination view of the listing: which slice of entries is
//! visible and which page, of how many, the selection sits on.  It is
//! recomputed from the viewport height, the listing length and the
//! selection index on every render and never stored.

use vstd::prelude::*;

verus! {

/// A viewport height of zero would make every page empty; it is treated as
/// one row.
pub open spec fn effective_height(height: usize) -> int {
    if height == 0 {
        1
    } else {
        height as int
    }
}

/// How many pages a listing of `len` entries fills: `ceil(len / height)`.
pub open spec fn total_pages(len: int, height: usize) -> int {
    (len + effective_height(height) - 1) / effective_height(height)
}

/// The zero-based page on which index `sel` sits.
pub open spec fn page_of(sel: int, height: usize) -> int {
    sel / effective_height(height)
}

/// The window of listing indices shown on one screen, and the selection's
/// page as `(currentPage, totalPages)`, both one-based.
pub struct Display {
    pub from: usize,
    pub to: usize,
    pub page: (usize, usize),
}

impl Display {
    /// The pagination view for a viewport of `height` rows over
    /// `content_len` entries with the selection at `selected_index`: the
    /// visible window starts at the selection's page boundary and runs one
    /// page, cut off at the end of the listing.
    pub fn new(height: usize, content_len: usize, selected_index: usize) -> (d: Display)
        requires
            selected_index < content_len,
        ensures
            d.from == page_of(selected_index as int, height) * effective_height(height),
            d.to == if d.from + effective_height(height) <= content_len {
                d.from + effective_height(height)
            } else {
                content_len as int
            },
            d.page.0 == page_of(selected_index as int, height) + 1,
            d.page.1 == total_pages(content_len as int, height),
            d.from <= selected_index < d.to <= content_len,
            d.page.0 <= d.page.1,
    {
        let h: usize = if height == 0 {
            1
        } else {
            height
        };
        let page_index = selected_index / h;
        proof {
            vstd::arithmetic::div_mod::lemma_fundamental_div_mod(
                selected_index as int,
                h as int,
            );
            vstd::arithmetic::div_mod::lemma_fundamental_div_mod(
                content_len as int + h - 1,
                h as int,
            );
            vstd::arithmetic::mul::lemma_mul_is_commutative(
                page_index as int,
                h as int,
            );
        }
        let from = page_index * h;
        let to = if from <= content_len - 1 && h <= content_len - 1 - from + 1 {
            from + h
        } else {
            content_len
        };
        let display_pages = (content_len - 1) / h + 1;
        proof {
            vstd::arithmetic::div_mod::lemma_fundamental_div_mod(
                content_len as int - 1,
                h as int,
            );
            assert((content_len as int + h - 1) / h as int == (content_len as int - 1) / h as int
                + 1) by {
                vstd::arithmetic::div_mod::lemma_div_plus_one(content_len as int - 1, h as int);
            }
            assert(page_index <= (content_len as int - 1) / h as int) by {
                vstd::arithmetic::div_mod::lemma_div_is_ordered(
                    selected_index as int,
                    content_len as int - 1,
                    h as int,
                );
            }
        }
        Display { from, to, page: (page_index + 1, display_pages) }
    }
}

} // verus!
