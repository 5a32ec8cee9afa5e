//! The bookkeeping of a walk.
//!
//! A walk has two phases. A trigger tells the reader how many pages there are
//! and from where they come. Then the reader asks for one page after the
//! other, until a page ends the walk. Pages come from the queue of the mutation
//! buffer as long as it holds anything, and from the primary store otherwise.

use crate::mutation_manager::MutationManager;
use crate::pagination::{total_pages, PaginationMetadata, PaginationType};
use vstd::prelude::*;

verus! {

/// Where a walk stands.
#[derive(Debug, Clone, Copy, PartialEq, Eq, Structural)]
pub struct PaginationCursor {
    /// The number of entries on a page of the primary store.
    pub page_size: usize,
    /// The page count that the last trigger told.
    pub pages_count: usize,
    /// Whether a walk is under way.
    pub triggered: bool,
    /// The place in the primary store at which the next page starts.
    pub offset: usize,
    /// The number of pages of the primary store that this walk has served.
    pub page_number: usize,
}

/// From where the next page is to be taken.
#[derive(Debug, Clone, Copy, PartialEq, Eq, Structural)]
pub enum PageSource {
    /// From the queue of the mutation buffer.
    Cache,
    /// From the primary store, in the order of ids: `limit` entries, the first
    /// `offset` left out.
    Fresh { offset: usize, limit: usize },
}

/// A page was asked for while no walk was under way.
#[derive(Debug, Clone, Copy, PartialEq, Eq, Structural)]
pub struct NotTriggered;

impl PaginationCursor {
    /// The cursor after a walk has ended: no walk is under way, and the next
    /// one starts at the beginning of the primary store.
    pub open spec fn ended(self) -> PaginationCursor {
        PaginationCursor { triggered: false, offset: 0, page_number: 0, ..self }
    }

    /// The cursor after a page of `rows` entries came from the primary store.
    /// A page that is not full ends the walk. After a full page the next one
    /// starts behind it.
    pub open spec fn after_fresh_page(self, rows: usize) -> PaginationCursor {
        if rows < self.page_size {
            self.ended()
        } else {
            PaginationCursor {
                offset: if self.offset + self.page_size <= usize::MAX {
                    (self.offset + self.page_size) as usize
                } else {
                    usize::MAX
                },
                page_number: if self.page_number < usize::MAX {
                    (self.page_number + 1) as usize
                } else {
                    usize::MAX
                },
                ..self
            }
        }
    }

    /// The cursor after a page came from the queue. The page that empties the
    /// queue ends the walk.
    pub open spec fn after_cache_page(self, done: bool) -> PaginationCursor {
        if done {
            self.ended()
        } else {
            self
        }
    }

    /// No walk is under way.
    pub fn new(page_size: usize) -> (r: Self)
        ensures
            r == (PaginationCursor {
                page_size,
                pages_count: 0,
                triggered: false,
                offset: 0,
                page_number: 0,
            }),
    {
        PaginationCursor { page_size, pages_count: 0, triggered: false, offset: 0, page_number: 0 }
    }

    /// Starts a walk. Where the buffer holds pending changes they are queued,
    /// and the reader is told how many pages the queue fills. Otherwise the
    /// buffer is left alone and the reader is told how many pages the
    /// `fresh_count` entries of the primary store fill. Either way a walk is
    /// under way afterwards.
    pub fn trigger(&mut self, buffer: &mut MutationManager, fresh_count: usize) -> (r:
        PaginationMetadata)
        ensures
            old(buffer)@.has_pending() ==> {
                &&& r.kind == PaginationType::Cache
                &&& r.total_pages == total_pages(
                    final(buffer)@.queue.len() as usize,
                    old(buffer)@.page_size,
                )
                &&& final(buffer)@.queue.len() == old(buffer)@.queue.len()
                    + old(buffer)@.pending_total()
                &&& final(buffer)@.queue.len() <= usize::MAX
                &&& old(buffer)@.is_batch(final(buffer)@.queue.skip(old(buffer)@.queue.len() as int))
                &&& final(buffer)@ == old(buffer)@.snapshot(
                    final(buffer)@.queue.skip(old(buffer)@.queue.len() as int),
                )
            },
            !old(buffer)@.has_pending() ==> {
                &&& r.kind == PaginationType::Fresh
                &&& r.total_pages == total_pages(fresh_count, old(self).page_size)
                &&& final(buffer)@ == old(buffer)@
            },
            *final(self) == (PaginationCursor {
                triggered: true,
                pages_count: r.total_pages,
                ..*old(self)
            }),
            old(buffer)@.wf() ==> final(buffer)@.wf(),
    {
        let meta = if !buffer.is_empty_for_pagination() {
            buffer.get_pagination_meta()
        } else {
            PaginationMetadata::new(fresh_count, self.page_size, PaginationType::Fresh)
        };
        self.triggered = true;
        self.pages_count = meta.total_pages;
        meta
    }

    /// From where the next page is to be taken: from the queue as long as it
    /// holds anything, from the primary store otherwise. A page that is asked
    /// for while no walk is under way is refused.
    pub fn page_source(&self, queue_is_empty: bool) -> (r: Result<PageSource, NotTriggered>)
        ensures
            !self.triggered ==> r == Err::<PageSource, NotTriggered>(NotTriggered),
            self.triggered && !queue_is_empty ==> r == Ok::<PageSource, NotTriggered>(
                PageSource::Cache,
            ),
            self.triggered && queue_is_empty ==> r == Ok::<PageSource, NotTriggered>(
                PageSource::Fresh { offset: self.offset, limit: self.page_size },
            ),
    {
        if !self.triggered {
            Err(NotTriggered)
        } else if !queue_is_empty {
            Ok(PageSource::Cache)
        } else {
            Ok(PageSource::Fresh { offset: self.offset, limit: self.page_size })
        }
    }

    /// Notes that a page came from the queue. `done` is what the page said.
    pub fn cache_page_served(&mut self, done: bool)
        ensures
            *final(self) == old(self).after_cache_page(done),
    {
        if done {
            self.triggered = false;
            self.offset = 0;
            self.page_number = 0;
        }
    }

    /// Notes that a page of `rows` entries came from the primary store, and
    /// gives the number of the page within the walk, counted from one.
    pub fn fresh_page_served(&mut self, rows: usize) -> (number: usize)
        ensures
            *final(self) == old(self).after_fresh_page(rows),
            number == if old(self).page_number < usize::MAX {
                (old(self).page_number + 1) as usize
            } else {
                usize::MAX
            },
    {
        let number = self.page_number.saturating_add(1);
        if rows < self.page_size {
            self.triggered = false;
            self.offset = 0;
            self.page_number = 0;
        } else {
            self.offset = self.offset.saturating_add(self.page_size);
            self.page_number = number;
        }
        number
    }
}

impl PaginationCursor {
    /// The cursor after `count` full pages came from the primary store.
    pub open spec fn after_full_pages(self, count: nat) -> PaginationCursor
        decreases count,
    {
        if count == 0 {
            self
        } else {
            self.after_full_pages((count - 1) as nat).after_fresh_page(self.page_size)
        }
    }
}

/// A walk over the primary store goes through it without a gap: after any
/// number of full pages the next page starts right behind them, the walk is
/// still under way, and the page after that gets the next number. The first
/// page that is not full ends the walk and sets the cursor back to the start.
pub proof fn lemma_fresh_walk(cursor: PaginationCursor, count: nat, last: usize)
    requires
        cursor.triggered,
        cursor.page_size > 0,
        cursor.offset + count * cursor.page_size <= usize::MAX,
        cursor.page_number + count <= usize::MAX,
        last < cursor.page_size,
    ensures
        cursor.after_full_pages(count).offset == cursor.offset + count * cursor.page_size,
        cursor.after_full_pages(count).page_number == cursor.page_number + count,
        cursor.after_full_pages(count).triggered,
        cursor.after_full_pages(count).page_size == cursor.page_size,
        cursor.after_full_pages(count).pages_count == cursor.pages_count,
        cursor.after_full_pages(count).after_fresh_page(last) == cursor.ended(),
    decreases count,
{
    if count > 0 {
        let before = (count - 1) as nat;
        assert(before * cursor.page_size + cursor.page_size == count * cursor.page_size)
            by (nonlinear_arith)
            requires
                before + 1 == count,
        ;
        assert(0 <= before * cursor.page_size) by (nonlinear_arith);
        lemma_fresh_walk(cursor, before, last);
    } else {
        assert(0 * cursor.page_size == 0) by (nonlinear_arith);
    }
}

} // verus!
