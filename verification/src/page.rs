//! One page of a walk: what is needed to make it, and what it holds.

use crate::entry::{EntryView, Kind};
use crate::maybe::Maybe;
use crate::models::{
    ClientPutUpdate, ClientPutUpdateView, CompleteMessage, CompleteMessageView, Message,
    ServerPutUpdateWithoutImage,
};
use vstd::prelude::*;

verus! {

/// What a staged record holds: the whole entry of a created id, or the
/// updates to an id laid over each other.
#[derive(Debug, Clone, PartialEq, Eq)]
pub enum StagedPayload {
    Created(Message),
    Updated(ServerPutUpdateWithoutImage),
}

pub enum StagedPayloadView {
    Created(crate::models::MessageView),
    Updated(crate::models::ServerPutUpdateWithoutImageView),
}

impl View for StagedPayload {
    type V = StagedPayloadView;

    open spec fn view(&self) -> StagedPayloadView {
        match self {
            StagedPayload::Created(message) => StagedPayloadView::Created(message@),
            StagedPayload::Updated(update) => StagedPayloadView::Updated(update@),
        }
    }
}

/// The view of a staged record that may be missing.
pub open spec fn payload_view(staged: Option<StagedPayload>) -> Option<StagedPayloadView> {
    match staged {
        Some(payload) => Some(payload@),
        None => None,
    }
}

impl StagedPayloadView {
    /// Whether the content of the attachment goes into what a reader gets for
    /// the record: for an entry that has an attachment, and for updates that
    /// touched it.
    pub open spec fn needs_image(self) -> bool {
        match self {
            StagedPayloadView::Created(message) => message.has_image,
            StagedPayloadView::Updated(update) => update.image_updated == Maybe::Value(true),
        }
    }
}

impl StagedPayload {
    /// Whether the attachment of the id is to be read for a page that
    /// delivers this record. Where it is not, the page is the same whatever
    /// the record for it holds as the attachment.
    pub fn needs_image(&self) -> (r: bool)
        ensures
            r == self@.needs_image(),
    {
        match self {
            StagedPayload::Created(message) => message.has_image,
            StagedPayload::Updated(update) => match update.image_updated {
                Maybe::Value(true) => true,
                _ => false,
            },
        }
    }
}

/// What the stores hold for one entry of the queue: its staged record, and the
/// content of the attachment of its id. Either may be missing.
#[derive(Debug, Clone, PartialEq, Eq)]
pub struct PageRecord {
    pub staged: Option<StagedPayload>,
    pub image: Option<String>,
}

pub struct PageRecordView {
    pub staged: Option<StagedPayloadView>,
    pub image: Option<Seq<char>>,
}

impl View for PageRecord {
    type V = PageRecordView;

    open spec fn view(&self) -> PageRecordView {
        PageRecordView {
            staged: payload_view(self.staged),
            image: self.image.deep_view(),
        }
    }
}

/// The views of a list of records.
pub open spec fn record_views(records: Seq<PageRecord>) -> Seq<PageRecordView> {
    records.map_values(|record: PageRecord| record@)
}

/// An update or a deletion as a reader gets it: the update to `uuid` where
/// `put` is there, its deletion where `delete` is set.
#[derive(Debug, Clone, PartialEq, Eq)]
pub struct PutDeleteUpdate {
    pub uuid: String,
    pub put: Option<ClientPutUpdate>,
    pub delete: bool,
}

pub struct PutDeleteUpdateView {
    pub uuid: Seq<char>,
    pub put: Option<ClientPutUpdateView>,
    pub delete: bool,
}

impl View for PutDeleteUpdate {
    type V = PutDeleteUpdateView;

    open spec fn view(&self) -> PutDeleteUpdateView {
        PutDeleteUpdateView {
            uuid: self.uuid@,
            put: match self.put {
                Some(update) => Some(update@),
                None => None,
            },
            delete: self.delete,
        }
    }
}

/// One page of a walk.
#[derive(Debug, Clone, PartialEq, Eq)]
pub struct MutationResults {
    /// The entries that were created.
    pub posts: Vec<CompleteMessage>,
    /// The updates and deletions.
    pub puts_deletes: Vec<PutDeleteUpdate>,
    /// Whether this was the last page of the walk.
    pub done: bool,
}

pub struct MutationResultsView {
    pub posts: Seq<CompleteMessageView>,
    pub puts_deletes: Seq<PutDeleteUpdateView>,
    pub done: bool,
}

impl View for MutationResults {
    type V = MutationResultsView;

    open spec fn view(&self) -> MutationResultsView {
        MutationResultsView {
            posts: self.posts@.map_values(|post: CompleteMessage| post@),
            puts_deletes: self.puts_deletes@.map_values(|change: PutDeleteUpdate| change@),
            done: self.done,
        }
    }
}

impl MutationResults {
    /// A page that holds nothing and is not the last.
    pub fn new() -> (r: Self)
        ensures
            r@ == (MutationResultsView {
                posts: Seq::empty(),
                puts_deletes: Seq::empty(),
                done: false,
            }),
    {
        let r = MutationResults { posts: Vec::new(), puts_deletes: Vec::new(), done: false };
        assert(r@.posts =~= Seq::empty());
        assert(r@.puts_deletes =~= Seq::empty());
        r
    }
}

impl Default for MutationResults {
    fn default() -> (r: Self)
        ensures
            r@ == (MutationResultsView {
                posts: Seq::empty(),
                puts_deletes: Seq::empty(),
                done: false,
            }),
    {
        MutationResults::new()
    }
}

/// The record is what the entry needs: the staged entry of its id for a
/// creation, staged updates for an update. A deletion needs nothing.
pub open spec fn record_fits(entry: EntryView, record: PageRecordView) -> bool {
    match entry.kind {
        Kind::Post => record.staged matches Some(StagedPayloadView::Created(message))
            && message.uuid == entry.uuid,
        Kind::Put => record.staged matches Some(StagedPayloadView::Updated(_)),
        Kind::Delete => true,
    }
}

/// There is one record for each entry, and it is what the entry needs.
pub open spec fn records_fit(entries: Seq<EntryView>, records: Seq<PageRecordView>) -> bool {
    &&& entries.len() == records.len()
    &&& forall|i: int| 0 <= i < entries.len() ==> record_fits(entries[i], #[trigger] records[i])
}

/// What a reader gets for a creation.
pub open spec fn post_of(record: PageRecordView) -> CompleteMessageView
    recommends
        record.staged matches Some(StagedPayloadView::Created(_)),
{
    match record.staged {
        Some(StagedPayloadView::Created(message)) => message.complete(record.image),
        _ => arbitrary(),
    }
}

/// What a reader gets for an update or a deletion.
pub open spec fn change_of(entry: EntryView, record: PageRecordView) -> PutDeleteUpdateView
    recommends
        entry.kind != Kind::Post,
        record_fits(entry, record),
{
    PutDeleteUpdateView {
        uuid: entry.uuid,
        put: match (entry.kind, record.staged) {
            (Kind::Put, Some(StagedPayloadView::Updated(update))) => Some(
                update.deliver(record.image),
            ),
            _ => None,
        },
        delete: entry.kind == Kind::Delete,
    }
}

/// What a reader gets does not depend on the attachment where the staged
/// record does not need it, nor for a deletion.
pub proof fn lemma_image_is_ignored(
    entry: EntryView,
    staged: Option<StagedPayloadView>,
    first: Option<Seq<char>>,
    second: Option<Seq<char>>,
)
    requires
        staged matches Some(payload) ==> !payload.needs_image(),
    ensures
        staged is Some ==> post_of(PageRecordView { staged, image: first }) == post_of(
            PageRecordView { staged, image: second },
        ),
        change_of(entry, PageRecordView { staged, image: first }) == change_of(
            entry,
            PageRecordView { staged, image: second },
        ),
{
}

/// The created entries of a page, in the order of the queue.
pub open spec fn page_posts(entries: Seq<EntryView>, records: Seq<PageRecordView>) -> Seq<
    CompleteMessageView,
>
    recommends
        records_fit(entries, records),
    decreases entries.len(),
{
    if entries.len() == 0 || records.len() == 0 {
        Seq::empty()
    } else {
        let earlier = page_posts(entries.drop_last(), records.drop_last());
        if entries.last().kind == Kind::Post {
            earlier.push(post_of(records.last()))
        } else {
            earlier
        }
    }
}

/// The updates and deletions of a page, in the order of the queue.
pub open spec fn page_changes(entries: Seq<EntryView>, records: Seq<PageRecordView>) -> Seq<
    PutDeleteUpdateView,
>
    recommends
        records_fit(entries, records),
    decreases entries.len(),
{
    if entries.len() == 0 || records.len() == 0 {
        Seq::empty()
    } else {
        let earlier = page_changes(entries.drop_last(), records.drop_last());
        if entries.last().kind == Kind::Post {
            earlier
        } else {
            earlier.push(change_of(entries.last(), records.last()))
        }
    }
}

} // verus!
