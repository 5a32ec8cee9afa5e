//! The buffer and the staging area together.
//!
//! The buffer does not hold the staged records itself. It names the record
//! that an operation needs, and says what is to be done to the staging area
//! afterwards. This file states what follows where that is done: the staging
//! area then always holds what the buffer calls for, so that no update and no
//! page is ever refused, and a record is gone once its entry was delivered.

use crate::entry::{EntryView, Kind, StagingKeyView};
use crate::laws::lemma_apply_all_by_field;
use crate::models::{MessageView, ServerPutUpdateView, ServerPutUpdateWithoutImageView};
use crate::mutation_manager::{removals, BufferView, StagingActionView};
use crate::page::{record_fits, records_fit, PageRecordView, StagedPayloadView};
use vstd::prelude::*;
use vstd::seq_lib::lemma_multiset_commutative;

verus! {

pub type StagingView = Map<StagingKeyView, StagedPayloadView>;

impl StagingActionView {
    /// The staging area after the action was carried out.
    pub open spec fn apply(self, staging: StagingView) -> StagingView {
        match self {
            StagingActionView::Keep => staging,
            StagingActionView::Write(key, payload) => staging.insert(key, payload),
            StagingActionView::Remove(key) => staging.remove(key),
            StagingActionView::SweepBefore(generation) => staging.remove_keys(
                Set::new(|key: StagingKeyView| key.generation < generation),
            ),
            StagingActionView::Wipe => Map::empty(),
        }
    }
}

/// The staging area after the actions were carried out, one after the other.
pub open spec fn apply_all(actions: Seq<StagingActionView>, staging: StagingView) -> StagingView
    decreases actions.len(),
{
    if actions.len() == 0 {
        staging
    } else {
        actions.last().apply(apply_all(actions.drop_last(), staging))
    }
}

/// The record under a key, if there is one.
pub open spec fn load(staging: StagingView, key: StagingKeyView) -> Option<StagedPayloadView> {
    if staging.contains_key(key) {
        Some(staging[key])
    } else {
        None
    }
}

/// The record that an entry of the queue refers to, if there is one.
pub open spec fn load_for(staging: StagingView, entry: EntryView) -> Option<StagedPayloadView> {
    match entry.staged_key() {
        Some(key) => load(staging, key),
        None => None,
    }
}

/// The staging area holds the record that the entry needs.
pub open spec fn holds_record_of(staging: StagingView, entry: EntryView) -> bool {
    record_fits(entry, PageRecordView { staged: load_for(staging, entry), image: None })
}

/// The staging area without the records that the entries refer to.
pub open spec fn without_records(staging: StagingView, entries: Seq<EntryView>) -> StagingView {
    staging.remove_keys(
        Set::new(
            |key: StagingKeyView|
                exists|i: int| 0 <= i < entries.len() && (#[trigger] entries[i]).staged_key() == Some(key),
        ),
    )
}

/// A buffer and the staging area that belongs to it.
pub struct SystemView {
    pub buffer: BufferView,
    pub staging: StagingView,
}

impl SystemView {
    /// A buffer with nothing in it, and an empty staging area.
    pub open spec fn empty(page_size: usize) -> SystemView {
        SystemView {
            buffer: BufferView {
                created: Set::empty(),
                updated: Set::empty(),
                deleted: Seq::empty(),
                queue: Seq::empty(),
                page_size,
                generation: 0,
            },
            staging: Map::empty(),
        }
    }

    /// What is handed to an update of `id`: the record under the key of a
    /// pending id.
    pub open spec fn staged(self, id: Seq<char>) -> Option<StagedPayloadView> {
        if self.buffer.is_pending(id) {
            load(self.staging, self.buffer.key(id))
        } else {
            None
        }
    }

    /// After the creation of `entry`. A pending id is refused.
    pub open spec fn create(self, entry: MessageView) -> SystemView {
        if self.buffer.is_pending(entry.uuid) {
            self
        } else {
            SystemView {
                buffer: self.buffer.record_create(entry.uuid),
                staging: self.buffer.create_action(entry).apply(self.staging),
            }
        }
    }

    /// After the deletion of `id`.
    pub open spec fn delete(self, id: Seq<char>) -> SystemView {
        SystemView {
            buffer: self.buffer.record_delete(id),
            staging: self.buffer.delete_action(id).apply(self.staging),
        }
    }

    /// After an update to `id`.
    pub open spec fn update(self, id: Seq<char>, put: ServerPutUpdateView) -> SystemView {
        match self.buffer.merged_payload(id, put, self.staged(id)) {
            Some(payload) => SystemView {
                buffer: self.buffer.record_update(id),
                staging: self.staging.insert(self.buffer.key(id), payload),
            },
            None => self,
        }
    }

    /// After a snapshot that queued `batch`.
    pub open spec fn snapshot(self, batch: Seq<EntryView>) -> SystemView {
        SystemView { buffer: self.buffer.snapshot(batch), staging: self.staging }
    }

    /// The records that are handed in for the next page, where `images` is
    /// what the attachment store holds for its entries.
    pub open spec fn records(self, images: Seq<Option<Seq<char>>>) -> Seq<PageRecordView> {
        Seq::new(
            self.buffer.next_page().len(),
            |i: int|
                PageRecordView {
                    staged: load_for(self.staging, self.buffer.next_page()[i]),
                    image: images[i],
                },
        )
    }

    /// After the next page was delivered and what its delivery asks for was
    /// done.
    pub open spec fn deliver(self) -> SystemView {
        SystemView {
            buffer: self.buffer.advance(),
            staging: apply_all(self.buffer.page_actions(), self.staging),
        }
    }

    /// After the next page was delivered and the records of its entries were
    /// removed.
    pub open spec fn deliver_records(self) -> SystemView {
        SystemView {
            buffer: self.buffer.advance(),
            staging: without_records(self.staging, self.buffer.next_page()),
        }
    }

    /// After everything was dropped and the staging area was wiped.
    pub open spec fn clear(self) -> SystemView {
        SystemView {
            buffer: self.buffer.cleared(),
            staging: StagingActionView::Wipe.apply(self.staging),
        }
    }

    /// The staging area holds what the buffer calls for, and nothing else:
    /// the entry of each created id and the updates to each updated id, under
    /// the generation of the buffer, and the record of each queued creation and
    /// update, under an earlier generation. No two entries of the queue refer
    /// to the same record.
    pub open spec fn consistent(self) -> bool {
        &&& self.buffer.wf()
        &&& forall|id: Seq<char>| #[trigger]
            self.buffer.created.contains(id) ==> holds_record_of(
                self.staging,
                self.buffer.pending_entry(Kind::Post, id),
            )
        &&& forall|id: Seq<char>| #[trigger]
            self.buffer.updated.contains(id) ==> holds_record_of(
                self.staging,
                self.buffer.pending_entry(Kind::Put, id),
            )
        &&& forall|i: int|
            0 <= i < self.buffer.queue.len() ==> (#[trigger] self.buffer.queue[i]).generation
                < self.buffer.generation && holds_record_of(self.staging, self.buffer.queue[i])
        &&& forall|i: int, j: int|
            0 <= i < j < self.buffer.queue.len() && (#[trigger] self.buffer.queue[i]).staged_key()
                is Some ==> self.buffer.queue[i].staged_key() != (
            #[trigger] self.buffer.queue[j]).staged_key()
        &&& forall|key: StagingKeyView| #[trigger]
            self.staging.contains_key(key) ==> self.holds_for(key)
    }

    /// The record under `key` belongs to a pending id or to an entry of the
    /// queue.
    pub open spec fn holds_for(self, key: StagingKeyView) -> bool {
        ||| key.generation == self.buffer.generation && self.buffer.is_pending(key.uuid)
        ||| exists|i: int|
            0 <= i < self.buffer.queue.len() && (#[trigger] self.buffer.queue[i]).staged_key()
                == Some(key)
    }
}

/// An empty buffer and an empty staging area fit together.
pub proof fn lemma_empty_is_consistent(page_size: usize)
    ensures
        SystemView::empty(page_size).consistent(),
{
}

/// Creating an entry keeps buffer and staging area together.
pub proof fn lemma_create_keeps_consistent(system: SystemView, entry: MessageView)
    requires
        system.consistent(),
    ensures
        system.create(entry).consistent(),
{
    let after = system.create(entry);
    if !system.buffer.is_pending(entry.uuid) {
        let key = system.buffer.key(entry.uuid);
        assert forall|id: Seq<char>| #[trigger] after.buffer.created.contains(id) implies
            holds_record_of(after.staging, after.buffer.pending_entry(Kind::Post, id)) by {
            if id != entry.uuid {
                assert(system.buffer.created.contains(id));
                assert(system.buffer.key(id) != key);
            }
        }
        assert forall|id: Seq<char>| #[trigger] after.buffer.updated.contains(id) implies
            holds_record_of(after.staging, after.buffer.pending_entry(Kind::Put, id)) by {
            assert(system.buffer.updated.contains(id));
            assert(system.buffer.key(id) != key);
        }
        assert forall|i: int| 0 <= i < after.buffer.queue.len() implies (
        #[trigger] after.buffer.queue[i]).generation < after.buffer.generation
            && holds_record_of(after.staging, after.buffer.queue[i]) by {
            assert(system.buffer.queue[i].generation < system.buffer.generation);
        }
        assert forall|k: StagingKeyView| #[trigger] after.staging.contains_key(k) implies
            after.holds_for(k) by {
            if k != key {
                assert(system.holds_for(k));
            }
        }
    }
}

/// Deleting an id keeps buffer and staging area together.
pub proof fn lemma_delete_keeps_consistent(system: SystemView, id: Seq<char>)
    requires
        system.consistent(),
    ensures
        system.delete(id).consistent(),
{
    let after = system.delete(id);
    let key = system.buffer.key(id);
    assert forall|other: Seq<char>| #[trigger] after.buffer.created.contains(other) implies
        holds_record_of(after.staging, after.buffer.pending_entry(Kind::Post, other)) by {
        assert(system.buffer.created.contains(other));
        assert(system.buffer.key(other) != key);
    }
    assert forall|other: Seq<char>| #[trigger] after.buffer.updated.contains(other) implies
        holds_record_of(after.staging, after.buffer.pending_entry(Kind::Put, other)) by {
        assert(system.buffer.updated.contains(other));
        assert(system.buffer.key(other) != key);
    }
    assert forall|i: int| 0 <= i < after.buffer.queue.len() implies (
    #[trigger] after.buffer.queue[i]).generation < after.buffer.generation
        && holds_record_of(after.staging, after.buffer.queue[i]) by {
        assert(system.buffer.queue[i].generation < system.buffer.generation);
    }
    assert forall|k: StagingKeyView| #[trigger] after.staging.contains_key(k) implies
        after.holds_for(k) by {
        assert(system.holds_for(k));
    }
}

/// An update is never refused where buffer and staging area fit together, and
/// it keeps them together.
pub proof fn lemma_update_keeps_consistent(system: SystemView, id: Seq<char>, put: ServerPutUpdateView)
    requires
        system.consistent(),
    ensures
        system.buffer.merged_payload(id, put, system.staged(id)) is Some,
        system.update(id, put).consistent(),
{
    let after = system.update(id, put);
    let key = system.buffer.key(id);
    assert(system.buffer.merged_payload(id, put, system.staged(id)) is Some);
    assert forall|other: Seq<char>| #[trigger] after.buffer.created.contains(other) implies
        holds_record_of(after.staging, after.buffer.pending_entry(Kind::Post, other)) by {
        assert(system.buffer.created.contains(other));
        if other != id {
            assert(system.buffer.key(other) != key);
        }
    }
    assert forall|other: Seq<char>| #[trigger] after.buffer.updated.contains(other) implies
        holds_record_of(after.staging, after.buffer.pending_entry(Kind::Put, other)) by {
        if other != id {
            assert(system.buffer.updated.contains(other));
            assert(system.buffer.key(other) != key);
        }
    }
    assert forall|i: int| 0 <= i < after.buffer.queue.len() implies (
    #[trigger] after.buffer.queue[i]).generation < after.buffer.generation
        && holds_record_of(after.staging, after.buffer.queue[i]) by {
        assert(system.buffer.queue[i].generation < system.buffer.generation);
    }
    assert forall|k: StagingKeyView| #[trigger] after.staging.contains_key(k) implies
        after.holds_for(k) by {
        if k != key {
            assert(system.holds_for(k));
        }
    }
}

/// A change whose record could not be written leaves no trace once its
/// recording was taken back: buffer and staging area are as they were before
/// the change, and so they still fit together.
pub proof fn lemma_failed_write_is_undone(system: SystemView, id: Seq<char>)
    requires
        system.consistent(),
        !system.buffer.is_pending(id),
    ensures
        (SystemView { buffer: system.buffer.record_create(id).unstaged(id), ..system }) == system,
        (SystemView { buffer: system.buffer.record_update(id).unstaged(id), ..system }) == system,
{
    crate::laws::lemma_unstage_undoes(system.buffer, id);
}

/// A value that stands at two places of a list occurs in it at least twice.
proof fn lemma_count_of_repeated(entries: Seq<EntryView>, i: int, j: int)
    requires
        0 <= i < j < entries.len(),
        entries[i] == entries[j],
    ensures
        entries.to_multiset().count(entries[i]) >= 2,
{
    broadcast use vstd::multiset::group_multiset_axioms;

    let front = entries.take(j);
    let back = entries.skip(j);
    assert(entries =~= front + back);
    lemma_multiset_commutative(front, back);
    assert(front[i] == entries[i]);
    assert(front.contains(entries[i]));
    assert(back[0] == entries[i]);
    assert(back.contains(entries[i]));
    vstd::seq_lib::to_multiset_contains(front, entries[i]);
    vstd::seq_lib::to_multiset_contains(back, entries[i]);
}

/// A snapshot keeps buffer and staging area together, as long as there is a
/// next generation.
pub proof fn lemma_snapshot_keeps_consistent(system: SystemView, batch: Seq<EntryView>)
    requires
        system.consistent(),
        system.buffer.is_batch(batch),
        system.buffer.generation < u64::MAX,
    ensures
        system.snapshot(batch).consistent(),
{
    let after = system.snapshot(batch);
    let old_len = system.buffer.queue.len() as int;
    let queue = after.buffer.queue;
    assert forall|k: int| 0 <= k < batch.len() implies system.buffer.pending_count(
        #[trigger] batch[k],
    ) >= 1 by {
        assert(batch.contains(batch[k]));
        vstd::seq_lib::to_multiset_contains(batch, batch[k]);
        assert(batch.to_multiset().count(batch[k]) == system.buffer.pending_count(batch[k]));
    }
    assert forall|i: int| 0 <= i < queue.len() implies (#[trigger] queue[i]).generation
        < after.buffer.generation && holds_record_of(after.staging, queue[i]) by {
        if i < old_len {
            assert(queue[i] == system.buffer.queue[i]);
        } else {
            let e = batch[i - old_len];
            assert(queue[i] == e);
            assert(system.buffer.pending_count(e) >= 1);
            if e.kind == Kind::Post {
                assert(system.buffer.created.contains(e.uuid));
            } else if e.kind == Kind::Put {
                assert(system.buffer.updated.contains(e.uuid));
            }
        }
    }
    assert forall|i: int, j: int|
        0 <= i < j < queue.len() && (#[trigger] queue[i]).staged_key() is Some implies queue[i].staged_key()
        != (#[trigger] queue[j]).staged_key() by {
        if j < old_len {
            assert(queue[i] == system.buffer.queue[i]);
            assert(queue[j] == system.buffer.queue[j]);
        } else if i < old_len {
            assert(queue[i] == system.buffer.queue[i]);
            assert(queue[j] == batch[j - old_len]);
            assert(system.buffer.pending_count(batch[j - old_len]) >= 1);
        } else {
            let a = batch[i - old_len];
            let b = batch[j - old_len];
            assert(queue[i] == a);
            assert(queue[j] == b);
            assert(system.buffer.pending_count(a) >= 1);
            assert(system.buffer.pending_count(b) >= 1);
            if a.staged_key() == b.staged_key() {
                if a.kind == b.kind {
                    assert(a == b);
                    lemma_count_of_repeated(batch, i - old_len, j - old_len);
                    assert(batch.to_multiset().count(a) == system.buffer.pending_count(a));
                } else {
                    assert(system.buffer.created.contains(a.uuid));
                    assert(system.buffer.updated.contains(a.uuid));
                }
            }
        }
    }
    assert forall|k: StagingKeyView| #[trigger] after.staging.contains_key(k) implies
        after.holds_for(k) by {
        assert(system.holds_for(k));
        if k.generation == system.buffer.generation && system.buffer.is_pending(k.uuid) {
            let kind = if system.buffer.created.contains(k.uuid) {
                Kind::Post
            } else {
                Kind::Put
            };
            let e = EntryView { kind, uuid: k.uuid, generation: k.generation };
            assert(system.buffer.pending_count(e) == 1);
            assert(batch.to_multiset().count(e) == system.buffer.pending_count(e));
            vstd::seq_lib::to_multiset_contains(batch, e);
            let at = choose|at: int| 0 <= at < batch.len() && batch[at] == e;
            assert(queue[old_len + at] == e);
            assert(e.staged_key() == Some(k));
        } else {
            let at = choose|at: int|
                0 <= at < system.buffer.queue.len() && (#[trigger] system.buffer.queue[at]).staged_key()
                    == Some(k);
            assert(queue[at] == system.buffer.queue[at]);
        }
    }
}

proof fn lemma_deliver_records_keeps_consistent(system: SystemView, images: Seq<Option<Seq<char>>>)
    requires
        system.consistent(),
    ensures
        records_fit(system.buffer.next_page(), system.records(images)),
        system.deliver_records().consistent(),
        forall|i: int|
            0 <= i < system.buffer.next_page().len() ==> load_for(
                system.deliver_records().staging,
                #[trigger] system.buffer.next_page()[i],
            ) is None,
{
    let page = system.buffer.next_page();
    let n = page.len() as int;
    let after = system.deliver_records();
    let queue = system.buffer.queue;
    assert forall|i: int| 0 <= i < n implies record_fits(
        page[i],
        #[trigger] system.records(images)[i],
    ) by {
        assert(page[i] == queue[i]);
        assert(queue[i].generation < system.buffer.generation);
    }
    assert forall|id: Seq<char>| #[trigger] after.buffer.created.contains(id) implies
        holds_record_of(after.staging, after.buffer.pending_entry(Kind::Post, id)) by {
        lemma_pending_record_stays(system, id);
    }
    assert forall|id: Seq<char>| #[trigger] after.buffer.updated.contains(id) implies
        holds_record_of(after.staging, after.buffer.pending_entry(Kind::Put, id)) by {
        lemma_pending_record_stays(system, id);
    }
    assert forall|i: int| 0 <= i < after.buffer.queue.len() implies (
    #[trigger] after.buffer.queue[i]).generation < after.buffer.generation
        && holds_record_of(after.staging, after.buffer.queue[i]) by {
        let e = after.buffer.queue[i];
        assert(e == queue[i + n]);
        assert(queue[i + n].generation < system.buffer.generation);
        if e.staged_key() is Some {
            let key = e.staged_key().unwrap();
            assert forall|k: int| 0 <= k < n implies (#[trigger] page[k]).staged_key() != Some(
                key,
            ) by {
                assert(page[k] == queue[k]);
                if queue[k].staged_key() is Some {
                    assert(queue[k].staged_key() != queue[i + n].staged_key());
                }
            }
            assert(after.staging.contains_key(key) == system.staging.contains_key(key));
        }
    }
    assert forall|i: int, j: int|
        0 <= i < j < after.buffer.queue.len() && (#[trigger] after.buffer.queue[i]).staged_key()
            is Some implies after.buffer.queue[i].staged_key() != (
    #[trigger] after.buffer.queue[j]).staged_key() by {
        assert(after.buffer.queue[i] == queue[i + n]);
        assert(after.buffer.queue[j] == queue[j + n]);
    }
    assert forall|k: StagingKeyView| #[trigger] after.staging.contains_key(k) implies
        after.holds_for(k) by {
        assert(system.holds_for(k));
        if !(k.generation == system.buffer.generation && system.buffer.is_pending(k.uuid)) {
            let at = choose|at: int|
                0 <= at < queue.len() && (#[trigger] queue[at]).staged_key() == Some(k);
            if at < n {
                assert(page[at] == queue[at]);
                assert(!after.staging.contains_key(k));
            } else {
                assert(after.buffer.queue[at - n] == queue[at]);
            }
        }
    }
    assert forall|i: int| 0 <= i < n implies load_for(after.staging, #[trigger] page[i]) is None by {
    }
}

/// Removing the records of entries one after the other leaves the staging
/// area without the records of the entries.
proof fn lemma_removals_remove_records(staging: StagingView, entries: Seq<EntryView>)
    ensures
        apply_all(removals(entries), staging) == without_records(staging, entries),
    decreases entries.len(),
{
    if entries.len() == 0 {
        assert(without_records(staging, entries) =~= staging);
    } else {
        let front = entries.drop_last();
        lemma_removals_remove_records(staging, front);
        let earlier = removals(front);
        assert forall|key: StagingKeyView|
            (exists|i: int| 0 <= i < entries.len() && (#[trigger] entries[i]).staged_key() == Some(key))
                <==> ((exists|i: int|
                0 <= i < front.len() && (#[trigger] front[i]).staged_key() == Some(key))
                || entries.last().staged_key() == Some(key)) by {
            if exists|i: int| 0 <= i < entries.len() && (#[trigger] entries[i]).staged_key() == Some(key) {
                let i = choose|i: int|
                    0 <= i < entries.len() && (#[trigger] entries[i]).staged_key() == Some(key);
                if i < front.len() {
                    assert(front[i] == entries[i]);
                }
            }
            if exists|i: int| 0 <= i < front.len() && (#[trigger] front[i]).staged_key() == Some(key) {
                let i = choose|i: int|
                    0 <= i < front.len() && (#[trigger] front[i]).staged_key() == Some(key);
                assert(entries[i] == front[i]);
            }
            if entries.last().staged_key() == Some(key) {
                assert(entries[entries.len() - 1].staged_key() == Some(key));
            }
        }
        match entries.last().staged_key() {
            Some(key) => {
                assert(removals(entries).drop_last() =~= earlier);
                assert(apply_all(removals(entries), staging) =~= without_records(staging, entries));
            },
            None => {
                assert(apply_all(removals(entries), staging) =~= without_records(staging, entries));
            },
        }
    }
}

/// Where buffer and staging area fit together the records for the next page
/// fit its entries, so that the page is never refused. Delivering it keeps
/// buffer and staging area together, and afterwards the record of each entry
/// that was delivered is gone. After the last page of a walk the staging area
/// holds the records of pending ids and no others.
pub proof fn lemma_deliver_keeps_consistent(system: SystemView, images: Seq<Option<Seq<char>>>)
    requires
        system.consistent(),
    ensures
        records_fit(system.buffer.next_page(), system.records(images)),
        system.deliver().consistent(),
        forall|i: int|
            0 <= i < system.buffer.next_page().len() ==> load_for(
                system.deliver().staging,
                #[trigger] system.buffer.next_page()[i],
            ) is None,
        system.deliver().buffer.queue.len() == 0 ==> forall|key: StagingKeyView| #[trigger]
            system.deliver().staging.contains_key(key) ==> key.generation
                == system.buffer.generation && system.buffer.is_pending(key.uuid),
{
    lemma_deliver_records_keeps_consistent(system, images);
    lemma_removals_remove_records(system.staging, system.buffer.next_page());
    let kept = system.deliver_records();
    let after = system.deliver();
    if system.buffer.advance().queue.len() == 0 {
        assert(system.buffer.page_actions().drop_last() =~= removals(system.buffer.next_page()));
        assert forall|key: StagingKeyView| #[trigger] kept.staging.contains_key(key) implies key.generation
            == system.buffer.generation && system.buffer.is_pending(key.uuid) by {
            assert(kept.holds_for(key));
        }
        assert(after.staging =~= kept.staging);
    } else {
        assert(after.staging == kept.staging);
    }
}

/// Dropping everything leaves an empty buffer with an empty staging area.
pub proof fn lemma_clear_is_consistent(system: SystemView)
    ensures
        system.clear().consistent(),
        system.clear() == SystemView::empty(system.buffer.page_size),
{
}

/// Delivering a page leaves the records of pending ids alone.
proof fn lemma_pending_record_stays(system: SystemView, id: Seq<char>)
    requires
        system.consistent(),
        system.buffer.is_pending(id),
    ensures
        load(system.deliver_records().staging, system.buffer.key(id)) == load(
            system.staging,
            system.buffer.key(id),
        ),
{
    let page = system.buffer.next_page();
    let key = system.buffer.key(id);
    assert forall|k: int| 0 <= k < page.len() implies (#[trigger] page[k]).staged_key() != Some(
        key,
    ) by {
        assert(page[k] == system.buffer.queue[k]);
        assert(system.buffer.queue[k].generation < system.buffer.generation);
    }
}

impl SystemView {
    /// After a run of updates to `id`, one after the other.
    pub open spec fn update_all(self, id: Seq<char>, puts: Seq<ServerPutUpdateView>) -> SystemView
        decreases puts.len(),
    {
        if puts.len() == 0 {
            self
        } else {
            self.update_all(id, puts.drop_last()).update(id, puts.last())
        }
    }
}

/// After the creation of an entry and any run of updates to it, with no walk
/// started in between, the entry is staged with the updates applied to it in
/// their order. Its id is still pending as created, so that a walk delivers
/// the entry once, as it then is.
pub proof fn lemma_staged_after_create(
    system: SystemView,
    entry: MessageView,
    puts: Seq<ServerPutUpdateView>,
)
    requires
        system.consistent(),
        !system.buffer.is_pending(entry.uuid),
    ensures
        system.create(entry).update_all(entry.uuid, puts).staged(entry.uuid) == Some(
            StagedPayloadView::Created(entry.apply_all(puts)),
        ),
        system.create(entry).update_all(entry.uuid, puts).buffer == system.buffer.record_create(
            entry.uuid,
        ),
        system.create(entry).update_all(entry.uuid, puts).consistent(),
    decreases puts.len(),
{
    lemma_create_keeps_consistent(system, entry);
    if puts.len() > 0 {
        let earlier = system.create(entry).update_all(entry.uuid, puts.drop_last());
        lemma_staged_after_create(system, entry, puts.drop_last());
        lemma_apply_all_by_field(entry, puts.drop_last());
        lemma_update_keeps_consistent(earlier, entry.uuid, puts.last());
    }
}

/// After a run of updates to an id that had nothing pending, with no walk
/// started in between, the updates are staged laid over each other in their
/// order, and the id is pending as updated.
pub proof fn lemma_staged_after_updates(
    system: SystemView,
    id: Seq<char>,
    puts: Seq<ServerPutUpdateView>,
)
    requires
        system.consistent(),
        !system.buffer.is_pending(id),
        puts.len() > 0,
    ensures
        system.update_all(id, puts).staged(id) == Some(
            StagedPayloadView::Updated(
                ServerPutUpdateWithoutImageView::absent().overlay_all(puts),
            ),
        ),
        system.update_all(id, puts).buffer == system.buffer.record_update(id),
        system.update_all(id, puts).consistent(),
    decreases puts.len(),
{
    let earlier = puts.drop_last();
    let before = system.update_all(id, earlier);
    if earlier.len() > 0 {
        lemma_staged_after_updates(system, id, earlier);
    } else {
        assert(ServerPutUpdateWithoutImageView::absent().overlay_all(earlier)
            == ServerPutUpdateWithoutImageView::absent());
    }
    lemma_update_keeps_consistent(before, id, puts.last());
}

/// After a run of further updates to an id with updates staged already, the
/// updates are staged laid over what was staged, in their order.
pub proof fn lemma_staged_after_more_updates(
    system: SystemView,
    id: Seq<char>,
    puts: Seq<ServerPutUpdateView>,
)
    requires
        system.consistent(),
        system.buffer.updated.contains(id),
    ensures
        system.staged(id) matches Some(StagedPayloadView::Updated(staged))
            && system.update_all(id, puts).staged(id) == Some(
            StagedPayloadView::Updated(staged.overlay_all(puts)),
        ),
        system.update_all(id, puts).buffer == system.buffer,
        system.update_all(id, puts).consistent(),
    decreases puts.len(),
{
    assert(holds_record_of(system.staging, system.buffer.pending_entry(Kind::Put, id)));
    if puts.len() > 0 {
        let before = system.update_all(id, puts.drop_last());
        lemma_staged_after_more_updates(system, id, puts.drop_last());
        lemma_update_keeps_consistent(before, id, puts.last());
    }
}

} // verus!
