//! What the handlers of requests decide.
//!
//! A handler talks to the primary store and to the attachment store, and what
//! these do is not known here. The functions in this file take what the stores
//! answered and decide what becomes of the buffer and what the reader is told.

use crate::id_set::{
    id_set_clear, id_set_contains, id_set_insert, id_set_len, id_set_remove, ids_of, new_id_set,
};
use crate::cursor::{PageSource, PaginationCursor};
use crate::models::{ImageChange, Message, MessageView, ServerPutUpdate};
use crate::mutation_manager::{
    action_views, BufferError, DeleteEffects, Delivery, MutationManager, StagingAction,
    StagingActionView,
};
use crate::page::{payload_view, record_views, records_fit, PageRecord, StagedPayload};
use crate::response::ErrorKind;
use ahash::AHashSet;
use vstd::prelude::*;

verus! {

/// The ids of the entries that the collection holds.
pub struct IdIndex {
    ids: AHashSet<String>,
}

impl View for IdIndex {
    type V = Set<Seq<char>>;

    closed spec fn view(&self) -> Set<Seq<char>> {
        ids_of(self.ids)
    }
}

impl IdIndex {
    /// An index that holds no id.
    pub fn new() -> (r: Self)
        ensures
            r@ == Set::<Seq<char>>::empty(),
    {
        IdIndex { ids: new_id_set() }
    }

    /// Whether the collection holds an entry with this id.
    pub fn contains(&self, id: &str) -> (r: bool)
        ensures
            r == self@.contains(id@),
    {
        id_set_contains(&self.ids, id)
    }

    /// The number of entries that the collection holds.
    pub fn len(&self) -> (r: usize)
        ensures
            r == self@.len(),
    {
        id_set_len(&self.ids)
    }

    /// Takes the id for a new entry. An id that is taken already is refused as
    /// a conflict.
    pub fn reserve(&mut self, id: &str) -> (r: Result<(), ErrorKind>)
        ensures
            old(self)@.contains(id@) ==> r == Err::<(), ErrorKind>(ErrorKind::Conflict) && final(self)@ == old(self)@,
            !old(self)@.contains(id@) ==> r.is_ok() && final(self)@ == old(self)@.insert(id@),
    {
        if id_set_contains(&self.ids, id) {
            Err(ErrorKind::Conflict)
        } else {
            id_set_insert(&mut self.ids, id.to_owned());
            Ok(())
        }
    }

    /// Gives up the id of an entry that is deleted. An id that the collection
    /// does not hold is not found.
    pub fn release(&mut self, id: &str) -> (r: Result<(), ErrorKind>)
        ensures
            final(self)@ == old(self)@.remove(id@),
            old(self)@.contains(id@) ==> r.is_ok(),
            !old(self)@.contains(id@) ==> r == Err::<(), ErrorKind>(ErrorKind::NotFound),
    {
        if id_set_remove(&mut self.ids, id) {
            Ok(())
        } else {
            Err(ErrorKind::NotFound)
        }
    }

    /// Gives up an id, whether the index holds it or not.
    pub fn forget(&mut self, id: &str)
        ensures
            final(self)@ == old(self)@.remove(id@),
    {
        id_set_remove(&mut self.ids, id);
    }

    /// Drops every id.
    pub fn clear(&mut self)
        ensures
            final(self)@ == Set::<Seq<char>>::empty(),
    {
        id_set_clear(&mut self.ids);
    }
}

/// The body of a request that creates an entry.
#[derive(Debug, Clone, PartialEq, Eq)]
pub struct PostMessage {
    pub uuid: String,
    pub author: String,
    pub message: String,
    pub likes: i32,
    /// Whether the entry comes with an attachment.
    pub image_update: bool,
    pub image: String,
}

pub struct PostMessageView {
    pub uuid: Seq<char>,
    pub author: Seq<char>,
    pub message: Seq<char>,
    pub likes: i32,
    pub image_update: bool,
    pub image: Seq<char>,
}

impl View for PostMessage {
    type V = PostMessageView;

    open spec fn view(&self) -> PostMessageView {
        PostMessageView {
            uuid: self.uuid@,
            author: self.author@,
            message: self.message@,
            likes: self.likes,
            image_update: self.image_update,
            image: self.image@,
        }
    }
}

impl PostMessageView {
    /// The entry that the body describes.
    pub open spec fn entry(self) -> MessageView {
        MessageView {
            uuid: self.uuid,
            author: self.author,
            message: Some(self.message),
            likes: self.likes,
            has_image: self.image_update,
        }
    }

    /// The attachment that is to be saved for the entry: the one that the body
    /// brings, unless it is empty.
    pub open spec fn attachment(self) -> Option<Seq<char>> {
        if self.image_update && self.image.len() > 0 {
            Some(self.image)
        } else {
            None
        }
    }
}

impl PostMessage {
    /// Parts the body into the entry and the attachment that is to be saved
    /// for it.
    pub fn into_parts(self) -> (r: (Message, Option<String>))
        ensures
            r.0@ == self@.entry(),
            r.1.deep_view() == self@.attachment(),
    {
        let attachment = if self.image_update && !self.image.as_str().is_empty() {
            Some(self.image)
        } else {
            None
        };
        (
            Message {
                uuid: self.uuid,
                author: self.author,
                message: Some(self.message),
                likes: self.likes,
                has_image: self.image_update,
            },
            attachment,
        )
    }
}

/// What the primary store made of a write.
#[derive(Debug, Clone, Copy, PartialEq, Eq, Structural)]
pub enum WriteOutcome {
    /// The write was carried out.
    Applied,
    /// The write found no entry to change.
    Missing,
    /// The write would have made a second entry with one id.
    Duplicate,
    /// The store failed.
    Failed,
}

impl WriteOutcome {
    /// The error that the reader is told of, if the write was not carried out.
    pub open spec fn error(self) -> Option<ErrorKind> {
        match self {
            WriteOutcome::Applied => None,
            WriteOutcome::Missing => Some(ErrorKind::NotFound),
            WriteOutcome::Duplicate => Some(ErrorKind::Conflict),
            WriteOutcome::Failed => Some(ErrorKind::Storage),
        }
    }

    pub fn check(&self) -> (r: Result<(), ErrorKind>)
        ensures
            match self.error() {
                Some(error) => r == Err::<(), ErrorKind>(error),
                None => r.is_ok(),
            },
    {
        match self {
            WriteOutcome::Applied => Ok(()),
            WriteOutcome::Missing => Err(ErrorKind::NotFound),
            WriteOutcome::Duplicate => Err(ErrorKind::Conflict),
            WriteOutcome::Failed => Err(ErrorKind::Storage),
        }
    }
}

/// The error that the reader is told of when the buffer refuses an operation.
pub open spec fn error_of(refusal: BufferError) -> ErrorKind {
    match refusal {
        BufferError::AlreadyPending => ErrorKind::Conflict,
        BufferError::StagingMismatch => ErrorKind::Storage,
    }
}

/// The error that the reader is told of when the buffer refuses an operation:
/// a conflict for an id that is pending already, a failure of the stores for a
/// staged record that is not what the buffer calls for.
pub fn told(refusal: BufferError) -> (r: ErrorKind)
    ensures
        r == error_of(refusal),
{
    match refusal {
        BufferError::AlreadyPending => ErrorKind::Conflict,
        BufferError::StagingMismatch => ErrorKind::Storage,
    }
}

/// A change that the buffer has recorded. Its record is still to be written.
#[derive(Debug, Clone, PartialEq, Eq)]
pub struct Recorded {
    /// What is to be done to the staging area.
    pub staging: StagingAction,
    /// Whether the id had nothing pending before. The recording of such a
    /// change is taken back where its record cannot be written.
    pub fresh: bool,
}

/// Ends the creation of an entry whose id the index has taken.
///
/// The buffer records the creation only where the primary store has carried
/// the write out. Otherwise the buffer stays as it is and the reader is told
/// why. Where the store failed, the index gives the id back, so that the
/// creation can be tried again. Where the store holds an entry with the id
/// already, the index keeps it.
pub fn finish_create(
    buffer: &mut MutationManager,
    index: &mut IdIndex,
    entry: Message,
    outcome: WriteOutcome,
) -> (r: Result<Recorded, ErrorKind>)
    ensures
        match outcome.error() {
            Some(ErrorKind::Conflict) => r == Err::<Recorded, ErrorKind>(ErrorKind::Conflict)
                && final(buffer)@ == old(buffer)@ && final(index)@ == old(index)@,
            Some(error) => r == Err::<Recorded, ErrorKind>(error) && final(buffer)@ == old(buffer)@
                && final(index)@ == old(index)@.remove(entry.uuid@),
            None => final(index)@ == old(index)@ && if old(buffer)@.is_pending(entry.uuid@) {
                r == Err::<Recorded, ErrorKind>(ErrorKind::Conflict) && final(buffer)@ == old(
                    buffer,
                )@
            } else {
                r.is_ok() && r.unwrap().staging@ == old(buffer)@.create_action(entry@)
                    && r.unwrap().fresh && final(buffer)@ == old(buffer)@.record_create(
                    entry.uuid@,
                )
            },
        },
        old(buffer)@.wf() ==> final(buffer)@.wf(),
{
    match outcome.check() {
        Err(ErrorKind::Conflict) => Err(ErrorKind::Conflict),
        Err(error) => {
            index.forget(entry.uuid.as_str());
            Err(error)
        },
        Ok(()) => match buffer.add_post(entry) {
            Ok(staging) => Ok(Recorded { staging, fresh: true }),
            Err(refusal) => Err(told(refusal)),
        },
    }
}

/// Ends an update. The buffer records the update only where the primary store
/// has carried the write out. `staged` is the record under the key that the
/// buffer names for the id. Where the store holds no entry with the id, the
/// index gives the id up.
pub fn finish_update(
    buffer: &mut MutationManager,
    index: &mut IdIndex,
    uuid: &str,
    put: ServerPutUpdate,
    staged: Option<StagedPayload>,
    outcome: WriteOutcome,
) -> (r: Result<Recorded, ErrorKind>)
    ensures
        match outcome.error() {
            Some(ErrorKind::NotFound) => r == Err::<Recorded, ErrorKind>(ErrorKind::NotFound)
                && final(buffer)@ == old(buffer)@ && final(index)@ == old(index)@.remove(uuid@),
            Some(error) => r == Err::<Recorded, ErrorKind>(error) && final(buffer)@ == old(buffer)@
                && final(index)@ == old(index)@,
            None => final(index)@ == old(index)@ && match old(buffer)@.merged_payload(
                uuid@,
                put@,
                payload_view(staged),
            ) {
                Some(payload) => r.is_ok() && r.unwrap().staging@ == StagingActionView::Write(
                    old(buffer)@.key(uuid@),
                    payload,
                ) && r.unwrap().fresh == !old(buffer)@.is_pending(uuid@) && final(buffer)@ == old(
                    buffer,
                )@.record_update(uuid@),
                None => r == Err::<Recorded, ErrorKind>(ErrorKind::Storage) && final(buffer)@
                    == old(buffer)@,
            },
        },
        old(buffer)@.wf() ==> final(buffer)@.wf(),
{
    match outcome.check() {
        Err(ErrorKind::NotFound) => {
            index.forget(uuid);
            Err(ErrorKind::NotFound)
        },
        Err(error) => Err(error),
        Ok(()) => {
            let fresh = !buffer.is_pending(uuid);
            match buffer.add_put(uuid, put, staged) {
                Ok(staging) => Ok(Recorded { staging, fresh }),
                Err(refusal) => Err(told(refusal)),
            }
        },
    }
}

/// Ends the writing of the record of a change that the buffer has recorded.
/// `fresh` is what came with the change. Where the record could not be
/// written the reader is told of a failure of the stores, and the recording of
/// a fresh change is taken back, so that the buffer is as it was before the
/// change. A change to an id that was pending before stays recorded with the
/// record that the staging area held.
pub fn finish_staging(buffer: &mut MutationManager, uuid: &str, fresh: bool, written: bool) -> (r:
    Result<(), ErrorKind>)
    ensures
        written ==> r.is_ok() && final(buffer)@ == old(buffer)@,
        !written ==> r == Err::<(), ErrorKind>(ErrorKind::Storage),
        !written && fresh ==> final(buffer)@ == old(buffer)@.unstaged(uuid@),
        !written && !fresh ==> final(buffer)@ == old(buffer)@,
        old(buffer)@.wf() ==> final(buffer)@.wf(),
{
    if written {
        Ok(())
    } else {
        if fresh {
            buffer.unstage(uuid);
        }
        Err(ErrorKind::Storage)
    }
}

/// Ends a deletion. The buffer records the deletion only where the primary
/// store has carried the write out, and the index gives the id up then. Where
/// the store holds no entry with the id, the index gives the id up as well.
/// Where the store failed, buffer and index stay as they are.
pub fn finish_delete(
    buffer: &mut MutationManager,
    index: &mut IdIndex,
    uuid: &str,
    outcome: WriteOutcome,
) -> (r: Result<DeleteEffects, ErrorKind>)
    ensures
        match outcome.error() {
            Some(ErrorKind::NotFound) => r == Err::<DeleteEffects, ErrorKind>(ErrorKind::NotFound)
                && final(buffer)@ == old(buffer)@ && final(index)@ == old(index)@.remove(uuid@),
            Some(error) => r == Err::<DeleteEffects, ErrorKind>(error) && final(buffer)@ == old(
                buffer,
            )@ && final(index)@ == old(index)@,
            None => r.is_ok() && r.unwrap().staging@ == old(buffer)@.delete_action(uuid@)
                && r.unwrap().image == ImageChange::Remove && final(buffer)@ == old(
                buffer,
            )@.record_delete(uuid@) && final(index)@ == old(index)@.remove(uuid@),
        },
        old(buffer)@.wf() ==> final(buffer)@.wf(),
{
    match outcome.check() {
        Err(ErrorKind::NotFound) => {
            index.forget(uuid);
            Err(ErrorKind::NotFound)
        },
        Err(error) => Err(error),
        Ok(()) => {
            index.forget(uuid);
            Ok(buffer.add_delete(uuid))
        },
    }
}

/// From where the next page is to be taken. A page that is asked for while no
/// walk is under way is refused as an error of the protocol.
pub fn next_source(cursor: &PaginationCursor, buffer: &MutationManager) -> (r: Result<
    PageSource,
    ErrorKind,
>)
    ensures
        !cursor.triggered ==> r == Err::<PageSource, ErrorKind>(ErrorKind::ProtocolState),
        cursor.triggered && buffer@.queue.len() > 0 ==> r == Ok::<PageSource, ErrorKind>(
            PageSource::Cache,
        ),
        cursor.triggered && buffer@.queue.len() == 0 ==> r == Ok::<PageSource, ErrorKind>(
            PageSource::Fresh { offset: cursor.offset, limit: cursor.page_size },
        ),
{
    match cursor.page_source(buffer.is_pagination_empty()) {
        Ok(source) => Ok(source),
        Err(_) => Err(ErrorKind::ProtocolState),
    }
}

/// Delivers the next page of the queue and notes it in the cursor: the page
/// that empties the queue ends the walk. Where the records are not what the
/// entries need, the reader is told of a failure of the stores, and buffer and
/// cursor stay as they are.
pub fn finish_cache_page(
    buffer: &mut MutationManager,
    cursor: &mut PaginationCursor,
    records: Vec<PageRecord>,
) -> (r: Result<Delivery, ErrorKind>)
    ensures
        records_fit(old(buffer)@.next_page(), record_views(records@)) ==> r.is_ok()
            && r.unwrap().page@ == old(buffer)@.page(record_views(records@)) && action_views(
            r.unwrap().staging@,
        ) == old(buffer)@.page_actions() && final(buffer)@ == old(buffer)@.advance() && *final(cursor) == old(cursor).after_cache_page(old(buffer)@.advance().queue.len() == 0),
        !records_fit(old(buffer)@.next_page(), record_views(records@)) ==> r == Err::<
            Delivery,
            ErrorKind,
        >(ErrorKind::Storage) && final(buffer)@ == old(buffer)@ && *final(cursor) == *old(cursor),
        old(buffer)@.wf() ==> final(buffer)@.wf(),
{
    match buffer.get(records) {
        Ok(delivery) => {
            cursor.cache_page_served(delivery.page.done);
            Ok(delivery)
        },
        Err(refusal) => Err(told(refusal)),
    }
}

/// Ends the deletion of everything. Buffer and index are emptied only where
/// the primary store has carried the write out. The staging area is then to
/// be wiped.
pub fn finish_clear(buffer: &mut MutationManager, index: &mut IdIndex, outcome: WriteOutcome) -> (r:
    Result<StagingAction, ErrorKind>)
    ensures
        match outcome.error() {
            Some(error) => r == Err::<StagingAction, ErrorKind>(error) && final(buffer)@ == old(
                buffer,
            )@ && final(index)@ == old(index)@,
            None => r.is_ok() && r.unwrap()@ == StagingActionView::Wipe && final(buffer)@ == old(
                buffer,
            )@.cleared() && final(index)@ == Set::<Seq<char>>::empty(),
        },
        old(buffer)@.wf() ==> final(buffer)@.wf(),
{
    match outcome.check() {
        Err(error) => Err(error),
        Ok(()) => {
            let action = buffer.clear();
            index.clear();
            Ok(action)
        },
    }
}

} // verus!
