//! What a walk is told when it starts, and the bookkeeping of a walk.

use crate::models::{CompleteMessage, CompleteMessageView};
use vstd::prelude::*;

verus! {

/// Where the pages of a walk come from.
#[derive(Debug, Clone, Copy, PartialEq, Eq, Structural)]
pub enum PaginationType {
    /// From the changes that the mutation buffer has recorded.
    Cache,
    /// From the primary store.
    Fresh,
}

/// The number of pages of `page_size` entries that `count` entries fill: the
/// quotient, rounded up.
pub open spec fn pages_needed(count: int, page_size: int) -> int
    recommends
        0 <= count,
        0 < page_size,
{
    if count <= 0 {
        0
    } else {
        (count - 1) / page_size + 1
    }
}

/// `pages_needed` is the least number of pages that hold all entries.
pub proof fn lemma_pages_needed_is_least(count: int, page_size: int)
    requires
        0 <= count,
        0 < page_size,
    ensures
        0 <= pages_needed(count, page_size),
        count <= pages_needed(count, page_size) * page_size,
        count > 0 ==> (pages_needed(count, page_size) - 1) * page_size < count,
{
    if count > 0 {
        let q = (count - 1) / page_size;
        assert(count - 1 == q * page_size + (count - 1) % page_size) by (nonlinear_arith)
            requires
                q == (count - 1) / page_size,
                page_size > 0,
        ;
        assert(0 <= (count - 1) % page_size < page_size) by (nonlinear_arith)
            requires
                page_size > 0,
        ;
        assert(0 <= q) by (nonlinear_arith)
            requires
                q == (count - 1) / page_size,
                count - 1 >= 0,
                page_size > 0,
        ;
        assert((q + 1) * page_size == q * page_size + page_size) by (nonlinear_arith);
    } else {
        assert(0 * page_size == 0);
    }
}

/// The page count that a walk is told. With a page size of zero no page holds
/// anything, so a walk over any entries at all is told the largest count there
/// is.
pub open spec fn total_pages(count: usize, page_size: usize) -> usize {
    if count == 0 {
        0
    } else if page_size == 0 {
        usize::MAX
    } else {
        pages_needed(count as int, page_size as int) as usize
    }
}

/// What a walk is told when it starts.
#[derive(Debug, Clone, Copy, PartialEq, Eq, Structural)]
pub struct PaginationMetadata {
    pub total_pages: usize,
    pub kind: PaginationType,
}

impl PaginationMetadata {
    pub fn new(count_all: usize, page_size: usize, kind: PaginationType) -> (r: Self)
        ensures
            r.total_pages == total_pages(count_all, page_size),
            r.kind == kind,
    {
        let total_pages: usize = if count_all == 0 {
            0
        } else if page_size == 0 {
            usize::MAX
        } else {
            proof {
                lemma_pages_needed_is_least(count_all as int, page_size as int);
                assert(pages_needed(count_all as int, page_size as int) <= count_all) by (nonlinear_arith)
                    requires
                        count_all > 0,
                        page_size > 0,
                        (pages_needed(count_all as int, page_size as int) - 1) * page_size < count_all,
                ;
            }
            (count_all - 1) / page_size + 1
        };
        PaginationMetadata { total_pages, kind }
    }
}

/// One page of a walk over the primary store.
#[derive(Debug, Clone, PartialEq, Eq)]
pub struct DbResults {
    /// The number of the page within the walk, counted from one.
    pub page_number: usize,
    pub messages: Vec<CompleteMessage>,
}

pub struct DbResultsView {
    pub page_number: usize,
    pub messages: Seq<CompleteMessageView>,
}

impl View for DbResults {
    type V = DbResultsView;

    open spec fn view(&self) -> DbResultsView {
        DbResultsView {
            page_number: self.page_number,
            messages: self.messages@.map_values(|message: CompleteMessage| message@),
        }
    }
}

} // verus!
