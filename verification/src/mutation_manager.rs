//! The mutation buffer.
//!
//! The buffer keeps an index of the changes that no walk has delivered yet:
//! the ids that were created, the ids that were updated, and the deletions in
//! the order in which they came. The payload of a created or updated id is
//! staged outside the buffer, under a key that the buffer names. Each operation
//! says which staged record it needs, and returns what is to be done to the
//! staging area afterwards.
//!
//! When a walk starts the index is drained into a queue, which is then handed
//! out page by page. Changes that come while a walk is under way go to the
//! index again and wait for the next walk. Their payloads are staged under the
//! next generation, apart from those that the queue still refers to.

use crate::entry::{
    entries_of, entries_sorted, entry_views, lemma_count_in_distinct_list, lemma_entries_of_count,
    sort_entries, Entry, EntryView, Kind, StagingKey, StagingKeyView,
};
use crate::id_set::{
    id_set_clear, id_set_contains, id_set_drain, id_set_insert, id_set_is_empty, id_set_remove,
    id_views, ids_of, new_id_set,
};
use crate::models::{
    ClientPutUpdate, CompleteMessage, ImageChange, Message, MessageView, ServerPutUpdate,
    ServerPutUpdateView,
};
use crate::order::same_id;
use crate::page::{
    change_of, page_changes, page_posts, payload_view, post_of, record_fits, record_views,
    records_fit, MutationResults, MutationResultsView, PageRecord, PageRecordView,
    PutDeleteUpdate, StagedPayload, StagedPayloadView,
};
use crate::pagination::{total_pages, PaginationMetadata, PaginationType};
use ahash::AHashSet;
use std::collections::VecDeque;
use vstd::prelude::*;
use vstd::seq_lib::lemma_multiset_commutative;

verus! {

/// What is to be done to the staging area after an operation.
#[derive(Debug, Clone, PartialEq, Eq)]
pub enum StagingAction {
    /// Nothing.
    Keep,
    /// The record is written, in place of what the key held.
    Write(StagingKey, StagedPayload),
    /// The record is removed.
    Remove(StagingKey),
    /// Every record of a generation before this one is removed.
    SweepBefore(u64),
    /// Every record is removed.
    Wipe,
}

pub enum StagingActionView {
    Keep,
    Write(StagingKeyView, StagedPayloadView),
    Remove(StagingKeyView),
    SweepBefore(u64),
    Wipe,
}

impl View for StagingAction {
    type V = StagingActionView;

    open spec fn view(&self) -> StagingActionView {
        match self {
            StagingAction::Keep => StagingActionView::Keep,
            StagingAction::Write(key, payload) => StagingActionView::Write(key@, payload@),
            StagingAction::Remove(key) => StagingActionView::Remove(key@),
            StagingAction::SweepBefore(generation) => StagingActionView::SweepBefore(*generation),
            StagingAction::Wipe => StagingActionView::Wipe,
        }
    }
}

/// The views of a list of actions.
pub open spec fn action_views(actions: Seq<StagingAction>) -> Seq<StagingActionView> {
    actions.map_values(|action: StagingAction| action@)
}

/// What the deletion of an id asks of the stores.
#[derive(Debug, Clone, PartialEq, Eq)]
pub struct DeleteEffects {
    /// What is to be done to the staging area.
    pub staging: StagingAction,
    /// What is to be done to the attachment of the id.
    pub image: ImageChange,
}

/// A page, and what its delivery asks of the staging area.
#[derive(Debug, Clone, PartialEq, Eq)]
pub struct Delivery {
    pub page: MutationResults,
    /// What is to be done to the staging area, in this order.
    pub staging: Vec<StagingAction>,
}

/// The removal of the record of each entry that refers to one, in the order
/// of the entries.
pub open spec fn removals(entries: Seq<EntryView>) -> Seq<StagingActionView>
    decreases entries.len(),
{
    if entries.len() == 0 {
        Seq::empty()
    } else {
        let earlier = removals(entries.drop_last());
        match entries.last().staged_key() {
            Some(key) => earlier.push(StagingActionView::Remove(key)),
            None => earlier,
        }
    }
}

/// Why the buffer refused an operation.
#[derive(Debug, Clone, Copy, PartialEq, Eq, Structural)]
pub enum BufferError {
    /// The id of a new entry is in the index already.
    AlreadyPending,
    /// A staged record that was handed in is not the one that the index calls
    /// for.
    StagingMismatch,
}

/// The buffer as its operations see it.
pub struct BufferView {
    /// The ids whose creation no walk has taken up yet.
    pub created: Set<Seq<char>>,
    /// The ids with an update that no walk has taken up yet.
    pub updated: Set<Seq<char>>,
    /// The deletions that no walk has taken up yet, oldest first.
    pub deleted: Seq<Seq<char>>,
    /// What the walk under way has still to deliver, next first.
    pub queue: Seq<EntryView>,
    pub page_size: usize,
    /// The generation under which new payloads are staged.
    pub generation: u64,
}

impl BufferView {
    /// No id is both created and updated.
    pub open spec fn wf(self) -> bool {
        self.created.disjoint(self.updated)
    }

    /// A change waits for the next walk.
    pub open spec fn has_pending(self) -> bool {
        !(self.created =~= Set::<Seq<char>>::empty() && self.updated =~= Set::<Seq<char>>::empty()
            && self.deleted.len() == 0)
    }

    /// The id has a staged payload that no walk has taken up.
    pub open spec fn is_pending(self, id: Seq<char>) -> bool {
        self.created.contains(id) || self.updated.contains(id)
    }

    /// The key under which the payload of a pending id is staged.
    pub open spec fn key(self, id: Seq<char>) -> StagingKeyView {
        StagingKeyView { generation: self.generation, uuid: id }
    }

    /// The entry that a snapshot queues for a pending id.
    pub open spec fn pending_entry(self, kind: Kind, id: Seq<char>) -> EntryView {
        EntryView { kind, uuid: id, generation: self.generation }
    }

    /// The buffer after the creation of `id` was recorded.
    pub open spec fn record_create(self, id: Seq<char>) -> BufferView {
        BufferView { created: self.created.insert(id), ..self }
    }

    /// The buffer after the deletion of `id` was recorded. A creation that no
    /// walk has taken up is taken back, and no reader hears of the id at all.
    /// Any other deletion is queued.
    pub open spec fn record_delete(self, id: Seq<char>) -> BufferView {
        BufferView {
            created: self.created.remove(id),
            updated: self.updated.remove(id),
            deleted: if self.created.contains(id) {
                self.deleted
            } else {
                self.deleted.push(id)
            },
            ..self
        }
    }

    /// The buffer after an update to `id` was recorded.
    pub open spec fn record_update(self, id: Seq<char>) -> BufferView {
        if self.is_pending(id) {
            self
        } else {
            BufferView { updated: self.updated.insert(id), ..self }
        }
    }

    /// The buffer after the recording of a creation of `id` or of a first
    /// update to it was taken back: the id is not pending any more.
    pub open spec fn unstaged(self, id: Seq<char>) -> BufferView {
        BufferView { created: self.created.remove(id), updated: self.updated.remove(id), ..self }
    }

    /// The number of pending changes: of created ids, of updated ids, and of
    /// deletions.
    pub open spec fn pending_total(self) -> nat {
        self.created.len() + self.updated.len() + self.deleted.len()
    }

    /// The payload that is staged for `id` after the update `put`, where
    /// `staged` is the record that the staging area holds for the id. There is
    /// none where `staged` is not what the index calls for: the entry itself
    /// for a created id, earlier updates for an updated one.
    pub open spec fn merged_payload(
        self,
        id: Seq<char>,
        put: ServerPutUpdateView,
        staged: Option<StagedPayloadView>,
    ) -> Option<StagedPayloadView> {
        if self.created.contains(id) {
            match staged {
                Some(StagedPayloadView::Created(message)) => if message.uuid == id {
                    Some(StagedPayloadView::Created(message.apply(put)))
                } else {
                    None
                },
                _ => None,
            }
        } else if self.updated.contains(id) {
            match staged {
                Some(StagedPayloadView::Updated(update)) => Some(
                    StagedPayloadView::Updated(update.overlay(put)),
                ),
                _ => None,
            }
        } else {
            Some(StagedPayloadView::Updated(put.without_image()))
        }
    }

    /// How often a snapshot queues the entry `e`: once if `e` stands for a
    /// pending creation or update, and as often as its id was deleted if it
    /// stands for a deletion. Every entry of a snapshot carries the generation
    /// at which the snapshot is taken.
    pub open spec fn pending_count(self, e: EntryView) -> nat {
        if e.generation != self.generation {
            0
        } else {
            match e.kind {
                Kind::Post => if self.created.contains(e.uuid) {
                    1
                } else {
                    0
                },
                Kind::Put => if self.updated.contains(e.uuid) {
                    1
                } else {
                    0
                },
                Kind::Delete => self.deleted.to_multiset().count(e.uuid),
            }
        }
    }

    /// `batch` is what a snapshot of this buffer queues: every pending change,
    /// in queue order.
    pub open spec fn is_batch(self, batch: Seq<EntryView>) -> bool {
        &&& entries_sorted(batch)
        &&& forall|e: EntryView| #[trigger] batch.to_multiset().count(e) == self.pending_count(e)
    }

    /// The generation after a snapshot: the next one, as long as there is one.
    pub open spec fn next_generation(self) -> u64 {
        if self.generation < u64::MAX {
            (self.generation + 1) as u64
        } else {
            self.generation
        }
    }

    /// The buffer after a snapshot that queued `batch`: the queue is longer by
    /// `batch`, and the index is empty.
    pub open spec fn snapshot(self, batch: Seq<EntryView>) -> BufferView {
        BufferView {
            created: Set::empty(),
            updated: Set::empty(),
            deleted: Seq::empty(),
            queue: self.queue + batch,
            page_size: self.page_size,
            generation: self.next_generation(),
        }
    }

    /// The number of entries on the next page: a full page, or what is left of
    /// the queue.
    pub open spec fn page_len(self) -> int {
        if self.page_size <= self.queue.len() {
            self.page_size as int
        } else {
            self.queue.len() as int
        }
    }

    /// The entries that the next page delivers.
    pub open spec fn next_page(self) -> Seq<EntryView> {
        self.queue.take(self.page_len())
    }

    /// The buffer after the next page was delivered.
    pub open spec fn advance(self) -> BufferView {
        BufferView { queue: self.queue.skip(self.page_len()), ..self }
    }

    /// What the delivery of the next page asks of the staging area: the
    /// record of each entry that is delivered is removed, and after the last
    /// page whatever is left of earlier generations is swept away.
    pub open spec fn page_actions(self) -> Seq<StagingActionView> {
        if self.advance().queue.len() == 0 {
            removals(self.next_page()).push(StagingActionView::SweepBefore(self.generation))
        } else {
            removals(self.next_page())
        }
    }

    /// The page that is made of the next entries and the records for them.
    pub open spec fn page(self, records: Seq<PageRecordView>) -> MutationResultsView {
        MutationResultsView {
            posts: page_posts(self.next_page(), records),
            puts_deletes: page_changes(self.next_page(), records),
            done: self.advance().queue.len() == 0,
        }
    }

    /// What recording the creation of `entry` asks of the staging area: the
    /// entry is staged under the key of its id.
    pub open spec fn create_action(self, entry: MessageView) -> StagingActionView {
        StagingActionView::Write(self.key(entry.uuid), StagedPayloadView::Created(entry))
    }

    /// What recording the deletion of `id` asks of the staging area: the
    /// record of a pending id is removed.
    pub open spec fn delete_action(self, id: Seq<char>) -> StagingActionView {
        if self.is_pending(id) {
            StagingActionView::Remove(self.key(id))
        } else {
            StagingActionView::Keep
        }
    }

    /// The buffer after everything was dropped.
    pub open spec fn cleared(self) -> BufferView {
        BufferView {
            created: Set::empty(),
            updated: Set::empty(),
            deleted: Seq::empty(),
            queue: Seq::empty(),
            page_size: self.page_size,
            generation: 0,
        }
    }
}

/// The mutation buffer.
pub struct MutationManager {
    updates_post: AHashSet<String>,
    updates_put: AHashSet<String>,
    updates_delete: Vec<String>,
    updates_all: VecDeque<Entry>,
    page_size: usize,
    generation: u64,
}

impl View for MutationManager {
    type V = BufferView;

    closed spec fn view(&self) -> BufferView {
        BufferView {
            created: ids_of(self.updates_post),
            updated: ids_of(self.updates_put),
            deleted: id_views(self.updates_delete@),
            queue: entry_views(self.updates_all@),
            page_size: self.page_size,
            generation: self.generation,
        }
    }
}

impl MutationManager {
    /// An empty buffer that hands out pages of `page_size` entries.
    pub fn new(page_size: usize) -> (r: Self)
        ensures
            r@.created == Set::<Seq<char>>::empty(),
            r@.updated == Set::<Seq<char>>::empty(),
            r@.deleted == Seq::<Seq<char>>::empty(),
            r@.queue == Seq::<EntryView>::empty(),
            r@.page_size == page_size,
            r@.generation == 0,
            r@.wf(),
    {
        MutationManager {
            updates_post: new_id_set(),
            updates_put: new_id_set(),
            updates_delete: Vec::new(),
            updates_all: VecDeque::new(),
            page_size,
            generation: 0,
        }
    }

    /// Whether the walk under way has nothing left to deliver.
    pub fn is_pagination_empty(&self) -> (r: bool)
        ensures
            r == (self@.queue.len() == 0),
    {
        self.updates_all.len() == 0
    }

    /// Whether no change waits for the next walk.
    pub fn is_empty_for_pagination(&self) -> (r: bool)
        ensures
            r == !self@.has_pending(),
    {
        id_set_is_empty(&self.updates_post) && id_set_is_empty(&self.updates_put)
            && self.updates_delete.len() == 0
    }

    pub fn page_size(&self) -> (r: usize)
        ensures
            r == self@.page_size,
    {
        self.page_size
    }

    /// The generation under which new payloads are staged. Records of earlier
    /// generations belong to entries of the queue.
    pub fn generation(&self) -> (r: u64)
        ensures
            r == self@.generation,
    {
        self.generation
    }

    /// The key of the record that `add_put` needs for `uuid`, if it needs one:
    /// the staged payload of a pending id.
    pub fn staged_key(&self, uuid: &str) -> (r: Option<StagingKey>)
        ensures
            self@.is_pending(uuid@) ==> r.is_some() && r.unwrap()@ == self@.key(uuid@),
            !self@.is_pending(uuid@) ==> r.is_none(),
    {
        if id_set_contains(&self.updates_post, uuid) || id_set_contains(&self.updates_put, uuid) {
            Some(StagingKey { generation: self.generation, uuid: uuid.to_owned() })
        } else {
            None
        }
    }

    /// Whether the id has a staged payload that no walk has taken up.
    pub fn is_pending(&self, uuid: &str) -> (r: bool)
        ensures
            r == self@.is_pending(uuid@),
    {
        id_set_contains(&self.updates_post, uuid) || id_set_contains(&self.updates_put, uuid)
    }

    /// Takes back the recording of a creation or of a first update, where its
    /// record could not be written: the id is not pending afterwards, and all
    /// else is as it was.
    pub fn unstage(&mut self, uuid: &str)
        ensures
            final(self)@ == old(self)@.unstaged(uuid@),
            old(self)@.wf() ==> final(self)@.wf(),
    {
        id_set_remove(&mut self.updates_post, uuid);
        id_set_remove(&mut self.updates_put, uuid);
    }

    /// Records the creation of an entry. The entry is to be staged under the
    /// key that comes back. An id that is pending already is refused, and the
    /// buffer stays as it is. Where the entry cannot be staged, `unstage` takes
    /// the recording back.
    pub fn add_post(&mut self, message: Message) -> (r: Result<StagingAction, BufferError>)
        ensures
            old(self)@.is_pending(message.uuid@) ==> r == Err::<StagingAction, BufferError>(
                BufferError::AlreadyPending,
            ) && final(self)@ == old(self)@,
            !old(self)@.is_pending(message.uuid@) ==> r.is_ok() && r.unwrap()@ == old(
                self,
            )@.create_action(message@) && final(self)@ == old(self)@.record_create(message.uuid@),
            old(self)@.wf() ==> final(self)@.wf(),
    {
        if id_set_contains(&self.updates_post, message.uuid.as_str()) || id_set_contains(
            &self.updates_put,
            message.uuid.as_str(),
        ) {
            return Err(BufferError::AlreadyPending);
        }
        let key = StagingKey { generation: self.generation, uuid: message.uuid.clone() };
        id_set_insert(&mut self.updates_post, message.uuid.clone());
        Ok(StagingAction::Write(key, StagedPayload::Created(message)))
    }

    /// Records the deletion of an id. Where the id was pending its staged
    /// record is to be removed, and the attachment of the id is to be removed
    /// in any case.
    pub fn add_delete(&mut self, uuid: &str) -> (r: DeleteEffects)
        ensures
            final(self)@ == old(self)@.record_delete(uuid@),
            r.staging@ == old(self)@.delete_action(uuid@),
            r.image == ImageChange::Remove,
            old(self)@.wf() ==> final(self)@.wf(),
    {
        let was_updated = id_set_remove(&mut self.updates_put, uuid);
        let was_created = id_set_remove(&mut self.updates_post, uuid);
        if !was_created {
            self.updates_delete.push(uuid.to_owned());
            assert(id_views(self.updates_delete@) =~= id_views(old(self).updates_delete@).push(
                uuid@,
            ));
        }
        let staging = if was_created || was_updated {
            StagingAction::Remove(StagingKey { generation: self.generation, uuid: uuid.to_owned() })
        } else {
            StagingAction::Keep
        };
        DeleteEffects { staging, image: ImageChange::Remove }
    }

    /// Records an update to an id. `staged` is the record under
    /// `staged_key(uuid)`, where there is such a key. The update is merged into
    /// it, and what comes back is to be written in its place. Where `staged` is
    /// not what the index calls for, the update is refused and the buffer stays
    /// as it is. Where the update is the first to its id and cannot be staged,
    /// `unstage` takes the recording back.
    pub fn add_put(&mut self, uuid: &str, put: ServerPutUpdate, staged: Option<StagedPayload>) -> (r:
        Result<StagingAction, BufferError>)
        ensures
            match old(self)@.merged_payload(uuid@, put@, payload_view(staged)) {
                Some(payload) => r.is_ok() && r.unwrap()@ == StagingActionView::Write(
                    old(self)@.key(uuid@),
                    payload,
                ) && final(self)@ == old(self)@.record_update(uuid@),
                None => r == Err::<StagingAction, BufferError>(BufferError::StagingMismatch)
                    && final(self)@ == old(self)@,
            },
            old(self)@.wf() ==> final(self)@.wf(),
    {
        let key = StagingKey { generation: self.generation, uuid: uuid.to_owned() };
        if id_set_contains(&self.updates_post, uuid) {
            match staged {
                Some(StagedPayload::Created(mut message)) => {
                    if same_id(message.uuid.as_str(), uuid) {
                        message.update(put);
                        Ok(StagingAction::Write(key, StagedPayload::Created(message)))
                    } else {
                        Err(BufferError::StagingMismatch)
                    }
                },
                _ => Err(BufferError::StagingMismatch),
            }
        } else if id_set_contains(&self.updates_put, uuid) {
            match staged {
                Some(StagedPayload::Updated(mut update)) => {
                    update.update(put);
                    Ok(StagingAction::Write(key, StagedPayload::Updated(update)))
                },
                _ => Err(BufferError::StagingMismatch),
            }
        } else {
            id_set_insert(&mut self.updates_put, uuid.to_owned());
            Ok(StagingAction::Write(key, StagedPayload::Updated(put.without_image())))
        }
    }

    /// Starts a walk, or takes what came since the walk under way started into
    /// it: every pending change is moved to the end of the queue, in queue
    /// order, and the index is left empty. What was queued before stays queued,
    /// and the queue grows by the number of pending changes. The result tells
    /// how many pages the queue now fills.
    pub fn get_pagination_meta(&mut self) -> (r: PaginationMetadata)
        ensures
            old(self)@.queue.len() <= final(self)@.queue.len(),
            old(self)@.is_batch(final(self)@.queue.skip(old(self)@.queue.len() as int)),
            final(self)@ == old(self)@.snapshot(
                final(self)@.queue.skip(old(self)@.queue.len() as int),
            ),
            old(self)@.created.finite(),
            old(self)@.updated.finite(),
            final(self)@.queue.len() == old(self)@.queue.len() + old(self)@.pending_total(),
            final(self)@.queue.len() <= usize::MAX,
            r.total_pages == total_pages(final(self)@.queue.len() as usize, old(self)@.page_size),
            r.kind == PaginationType::Cache,
            final(self)@.wf(),
    {
        let generation = self.generation;
        let ghost before = self@;
        let mut batch: Vec<Entry> = Vec::new();
        let created = id_set_drain(&mut self.updates_post);
        let updated = id_set_drain(&mut self.updates_put);
        let mut deleted: Vec<String> = Vec::new();
        core::mem::swap(&mut self.updates_delete, &mut deleted);
        let ghost created_ids = id_views(created@);
        let ghost updated_ids = id_views(updated@);
        let ghost deleted_ids = id_views(deleted@);
        assert(entry_views(batch@) =~= Seq::empty());
        push_entries(&mut batch, created, Kind::Post, generation);
        push_entries(&mut batch, updated, Kind::Put, generation);
        push_entries(&mut batch, deleted, Kind::Delete, generation);
        let sorted = sort_entries(&batch);
        let ghost tail = entry_views(sorted@);
        proof {
            let posts = entries_of(Kind::Post, generation, created_ids);
            let puts = entries_of(Kind::Put, generation, updated_ids);
            let deletes = entries_of(Kind::Delete, generation, deleted_ids);
            assert(entry_views(batch@) =~= (posts + puts) + deletes);
            lemma_multiset_commutative(posts + puts, deletes);
            lemma_multiset_commutative(posts, puts);
            vstd::seq_lib::seq_to_set_is_finite(created_ids);
            vstd::seq_lib::seq_to_set_is_finite(updated_ids);
            created_ids.unique_seq_to_set();
            updated_ids.unique_seq_to_set();
            vstd::seq_lib::to_multiset_len(tail);
            vstd::seq_lib::to_multiset_len(entry_views(batch@));
            assert(tail.len() == before.pending_total());
            assert forall|e: EntryView| #[trigger]
                tail.to_multiset().count(e) == before.pending_count(e) by {
                lemma_entries_of_count(Kind::Post, generation, created_ids, e);
                lemma_entries_of_count(Kind::Put, generation, updated_ids, e);
                lemma_entries_of_count(Kind::Delete, generation, deleted_ids, e);
                lemma_count_in_distinct_list(created_ids, e.uuid);
                lemma_count_in_distinct_list(updated_ids, e.uuid);
            }
        }
        let ghost queue_before = self.updates_all@;
        for e in it: sorted
            invariant
                it.seq() == sorted@,
                self.updates_all@ == queue_before + sorted@.take(it.index() as int),
                self.page_size == before.page_size,
                self.generation == before.generation,
                self.updates_delete@.len() == 0,
                ids_of(self.updates_post) == Set::<Seq<char>>::empty(),
                ids_of(self.updates_put) == Set::<Seq<char>>::empty(),
        {
            self.updates_all.push_back(e);
            assert(sorted@.take(it.index() + 1) =~= sorted@.take(it.index() as int).push(e));
        }
        if self.generation < u64::MAX {
            self.generation = self.generation + 1;
        }
        proof {
            assert(sorted@.take(sorted@.len() as int) =~= sorted@);
            assert(entry_views(self.updates_all@) =~= before.queue + tail);
            assert(self@.queue.skip(before.queue.len() as int) =~= tail);
            assert(id_views(self.updates_delete@) =~= Seq::empty());
        }
        PaginationMetadata::new(self.updates_all.len(), self.page_size, PaginationType::Cache)
    }

    /// The entries that the next page delivers, in their order. For each of
    /// them `get` needs a record.
    pub fn page_plan(&self) -> (r: Vec<Entry>)
        ensures
            entry_views(r@) == self@.next_page(),
    {
        let n = if self.page_size <= self.updates_all.len() {
            self.page_size
        } else {
            self.updates_all.len()
        };
        let mut plan: Vec<Entry> = Vec::new();
        let mut i: usize = 0;
        while i < n
            invariant
                i <= n,
                n == self@.page_len(),
                n <= self.updates_all@.len(),
                entry_views(plan@) =~= self@.queue.take(i as int),
            decreases n - i,
        {
            let ghost earlier = entry_views(plan@);
            plan.push(self.updates_all[i].duplicate());
            assert(entry_views(plan@) =~= earlier.push(self@.queue[i as int]));
            assert(self@.queue.take(i + 1) =~= self@.queue.take(i as int).push(
                self@.queue[i as int],
            ));
            i += 1;
        }
        plan
    }

    /// Delivers the next page. `records` holds, for each entry of `page_plan`
    /// and in its order, what the staging area holds under the entry's key and
    /// what the attachment store holds for its id.
    ///
    /// The page holds the created entries as they were staged, each with its
    /// attachment, and the updates and deletions, each update with what became
    /// of the attachment. The entries leave the queue. The page is the last of
    /// the walk when the queue is empty after it. With the page comes what is
    /// to be done to the staging area: the records of the entries are removed,
    /// and after the last page what is left of earlier generations is swept.
    ///
    /// Where `records` is not what the entries need, nothing is delivered and
    /// the buffer stays as it is.
    pub fn get(&mut self, records: Vec<PageRecord>) -> (r: Result<Delivery, BufferError>)
        ensures
            records_fit(old(self)@.next_page(), record_views(records@)) ==> r.is_ok()
                && r.unwrap().page@ == old(self)@.page(record_views(records@)) && action_views(
                r.unwrap().staging@,
            ) == old(self)@.page_actions() && final(self)@ == old(self)@.advance(),
            !records_fit(old(self)@.next_page(), record_views(records@)) ==> r == Err::<
                Delivery,
                BufferError,
            >(BufferError::StagingMismatch) && final(self)@ == old(self)@,
            old(self)@.wf() ==> final(self)@.wf(),
    {
        let n = if self.page_size <= self.updates_all.len() {
            self.page_size
        } else {
            self.updates_all.len()
        };
        if records.len() != n {
            return Err(BufferError::StagingMismatch);
        }
        let ghost entries = self@.next_page();
        let ghost given = record_views(records@);
        let mut result = MutationResults::new();
        let mut staging: Vec<StagingAction> = Vec::new();
        let mut i: usize = 0;
        assert(action_views(staging@) =~= removals(entries.take(0)));
        for record in it: records
            invariant
                it.seq() == records@,
                i == it.index(),
                n == records@.len(),
                n == old(self)@.page_len(),
                n <= self.updates_all@.len(),
                *self == *old(self),
                entries == self@.next_page(),
                given == record_views(records@),
                result.done == false,
                result@.posts == page_posts(entries.take(i as int), given.take(i as int)),
                result@.puts_deletes == page_changes(entries.take(i as int), given.take(i as int)),
                action_views(staging@) == removals(entries.take(i as int)),
                forall|k: int| 0 <= k < i ==> record_fits(entries[k], #[trigger] given[k]),
        {
            let ghost before = result@;
            let ghost actions_before = action_views(staging@);
            proof {
                assert(entries.take(i + 1).drop_last() =~= entries.take(i as int));
                assert(given.take(i + 1).drop_last() =~= given.take(i as int));
                assert(record@ == given[i as int]);
                assert(self.updates_all@[i as int]@ == entries[i as int]);
            }
            let entry = &self.updates_all[i];
            match entry.kind {
                Kind::Post => match record.staged {
                    Some(StagedPayload::Created(message)) => {
                        if !same_id(message.uuid.as_str(), entry.uuid.as_str()) {
                            return Err(BufferError::StagingMismatch);
                        }
                        result.posts.push(CompleteMessage::new(message, record.image));
                        assert(result@.posts =~= before.posts.push(post_of(given[i as int])));
                        assert(result@.puts_deletes =~= before.puts_deletes);
                    },
                    _ => {
                        return Err(BufferError::StagingMismatch);
                    },
                },
                Kind::Put => match record.staged {
                    Some(StagedPayload::Updated(update)) => {
                        let change = PutDeleteUpdate {
                            uuid: entry.uuid.clone(),
                            put: Some(ClientPutUpdate::new(update, record.image)),
                            delete: false,
                        };
                        result.puts_deletes.push(change);
                        assert(result@.puts_deletes =~= before.puts_deletes.push(
                            change_of(entries[i as int], given[i as int]),
                        ));
                        assert(result@.posts =~= before.posts);
                    },
                    _ => {
                        return Err(BufferError::StagingMismatch);
                    },
                },
                Kind::Delete => {
                    let change = PutDeleteUpdate {
                        uuid: entry.uuid.clone(),
                        put: None,
                        delete: true,
                    };
                    result.puts_deletes.push(change);
                    assert(result@.puts_deletes =~= before.puts_deletes.push(
                        change_of(entries[i as int], given[i as int]),
                    ));
                    assert(result@.posts =~= before.posts);
                },
            }
            match entry.staged_key() {
                Some(key) => {
                    staging.push(StagingAction::Remove(key));
                    assert(action_views(staging@) =~= actions_before.push(
                        StagingActionView::Remove(entries[i as int].staged_key().unwrap()),
                    ));
                },
                None => {},
            }
            i += 1;
        }
        proof {
            assert(entries.take(n as int) =~= entries);
            assert(given.take(n as int) =~= given);
        }
        let mut k: usize = 0;
        while k < n
            invariant
                k <= n,
                n <= old(self)@.queue.len(),
                self.updates_all@ =~= old(self).updates_all@.skip(k as int),
                self.page_size == old(self).page_size,
                self.generation == old(self).generation,
                self.updates_delete == old(self).updates_delete,
                self.updates_post == old(self).updates_post,
                self.updates_put == old(self).updates_put,
            decreases n - k,
        {
            self.updates_all.pop_front();
            k += 1;
        }
        result.done = self.updates_all.len() == 0;
        assert(entry_views(self.updates_all@) =~= old(self)@.queue.skip(n as int));
        if result.done {
            let ghost actions_before = action_views(staging@);
            staging.push(StagingAction::SweepBefore(self.generation));
            assert(action_views(staging@) =~= actions_before.push(
                StagingActionView::SweepBefore(self.generation),
            ));
        }
        Ok(Delivery { page: result, staging })
    }

    /// Drops every change, pending or queued. The staging area is to be wiped.
    pub fn clear(&mut self) -> (r: StagingAction)
        ensures
            final(self)@ == old(self)@.cleared(),
            r@ == StagingActionView::Wipe,
            final(self)@.wf(),
    {
        id_set_clear(&mut self.updates_post);
        id_set_clear(&mut self.updates_put);
        self.updates_delete.clear();
        self.updates_all.clear();
        self.generation = 0;
        assert(id_views(self.updates_delete@) =~= Seq::empty());
        assert(entry_views(self.updates_all@) =~= Seq::empty());
        StagingAction::Wipe
    }
}

/// Adds an entry of the given kind and generation for each id, in the order of
/// the ids.
fn push_entries(batch: &mut Vec<Entry>, ids: Vec<String>, kind: Kind, generation: u64)
    ensures
        entry_views(final(batch)@) == entry_views(old(batch)@) + entries_of(
            kind,
            generation,
            id_views(ids@),
        ),
{
    let ghost start = entry_views(batch@);
    let ghost all = entries_of(kind, generation, id_views(ids@));
    assert(all.take(0) =~= Seq::empty());
    for id in it: ids
        invariant
            it.seq() == ids@,
            all == entries_of(kind, generation, id_views(ids@)),
            entry_views(batch@) == start + all.take(it.index() as int),
    {
        let ghost k = it.index() as int;
        let ghost prior = entry_views(batch@);
        assert(id == ids@[k]);
        batch.push(Entry { kind, uuid: id, generation });
        assert(all[k] == EntryView { kind, uuid: id@, generation });
        assert(all.take(k + 1) =~= all.take(k).push(all[k]));
        assert(entry_views(batch@) =~= prior.push(all[k]));
    }
    assert(all.take(ids@.len() as int) =~= all);
}

} // verus!
