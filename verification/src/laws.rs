//! What holds of the buffer whatever is done with it.

use crate::entry::{lemma_sorted_entries_unique, EntryView};
use crate::maybe::Maybe;
use crate::models::{
    ImageChange, MessageView, ServerPutUpdateView, ServerPutUpdateWithoutImageView,
};
use crate::mutation_manager::BufferView;
use crate::pagination::{lemma_pages_needed_is_least, pages_needed};
use vstd::prelude::*;

verus! {

/// Recording a creation keeps created and updated ids apart, as long as the
/// id was not pending.
pub proof fn lemma_create_keeps_wf(buffer: BufferView, id: Seq<char>)
    requires
        buffer.wf(),
        !buffer.is_pending(id),
    ensures
        buffer.record_create(id).wf(),
{
}

/// Recording a deletion keeps created and updated ids apart.
pub proof fn lemma_delete_keeps_wf(buffer: BufferView, id: Seq<char>)
    requires
        buffer.wf(),
    ensures
        buffer.record_delete(id).wf(),
{
}

/// Recording an update keeps created and updated ids apart.
pub proof fn lemma_update_keeps_wf(buffer: BufferView, id: Seq<char>)
    requires
        buffer.wf(),
    ensures
        buffer.record_update(id).wf(),
{
}

/// Recording a change leaves the queue of the walk under way as it is: what a
/// snapshot has queued stays queued until it is delivered.
pub proof fn lemma_changes_leave_queue(buffer: BufferView, id: Seq<char>)
    ensures
        buffer.record_create(id).queue == buffer.queue,
        buffer.record_delete(id).queue == buffer.queue,
        buffer.record_update(id).queue == buffer.queue,
{
}

/// Taking the recording of a change back leaves the buffer as it was before
/// the change, where the id had nothing pending then.
pub proof fn lemma_unstage_undoes(buffer: BufferView, id: Seq<char>)
    requires
        !buffer.is_pending(id),
    ensures
        buffer.record_create(id).unstaged(id) == buffer,
        buffer.record_update(id).unstaged(id) == buffer,
{
    assert(buffer.record_create(id).unstaged(id).created =~= buffer.created);
    assert(buffer.record_create(id).unstaged(id).updated =~= buffer.updated);
    assert(buffer.record_update(id).unstaged(id).created =~= buffer.created);
    assert(buffer.record_update(id).unstaged(id).updated =~= buffer.updated);
}

/// An entry that is created and then deleted, with no walk started in
/// between, leaves no trace: the buffer is as it was before. The id is neither
/// created nor updated, and no deletion was queued for it, so that it is in
/// none of the three collections unless a deletion of it was queued before.
pub proof fn lemma_create_then_delete(buffer: BufferView, id: Seq<char>)
    requires
        !buffer.is_pending(id),
    ensures
        buffer.record_create(id).record_delete(id) == buffer,
        !buffer.record_create(id).record_delete(id).created.contains(id),
        !buffer.record_create(id).record_delete(id).updated.contains(id),
        buffer.record_create(id).record_delete(id).deleted == buffer.deleted,
        !buffer.deleted.contains(id) ==> !buffer.record_create(id).record_delete(id).deleted.contains(
            id,
        ),
{
    let after = buffer.record_create(id).record_delete(id);
    assert(after.created =~= buffer.created);
    assert(after.updated =~= buffer.updated);
}

/// The deletion of an id whose creation is not pending queues exactly one
/// deletion, after those that were queued before.
pub proof fn lemma_delete_of_delivered(buffer: BufferView, id: Seq<char>)
    requires
        !buffer.created.contains(id),
    ensures
        buffer.record_delete(id).deleted == buffer.deleted.push(id),
        buffer.record_delete(id).created == buffer.created,
        !buffer.record_delete(id).updated.contains(id),
{
    assert(buffer.record_delete(id).created =~= buffer.created);
}

/// What a snapshot queues is determined by the buffer: two batches of one
/// buffer are the same.
pub proof fn lemma_batch_unique(buffer: BufferView, first: Seq<EntryView>, second: Seq<EntryView>)
    requires
        buffer.is_batch(first),
        buffer.is_batch(second),
    ensures
        first == second,
{
    assert(first.to_multiset() =~= second.to_multiset());
    lemma_sorted_entries_unique(first, second);
}

/// A snapshot leaves nothing pending, and keeps what was queued before in
/// front of what it adds.
pub proof fn lemma_snapshot_extends(buffer: BufferView, batch: Seq<EntryView>)
    ensures
        buffer.snapshot(batch).queue.take(buffer.queue.len() as int) == buffer.queue,
        buffer.snapshot(batch).queue.skip(buffer.queue.len() as int) == batch,
        forall|id: Seq<char>| !buffer.snapshot(batch).is_pending(id),
        buffer.snapshot(batch).deleted.len() == 0,
        buffer.snapshot(batch).wf(),
{
    assert(buffer.snapshot(batch).queue.take(buffer.queue.len() as int) =~= buffer.queue);
    assert(buffer.snapshot(batch).queue.skip(buffer.queue.len() as int) =~= batch);
}

impl BufferView {
    /// The buffer after `count` pages were delivered.
    pub open spec fn after_pages(self, count: nat) -> BufferView
        decreases count,
    {
        if count == 0 {
            self
        } else {
            self.advance().after_pages((count - 1) as nat)
        }
    }

    /// The pages that a walk delivers until the queue is empty, first first.
    pub open spec fn pages(self) -> Seq<Seq<EntryView>>
        decreases self.queue.len(),
    {
        if self.page_size == 0 || self.queue.len() == 0 {
            Seq::empty()
        } else {
            seq![self.next_page()] + self.advance().pages()
        }
    }
}

/// A walk hands the queue out exactly once: its pages, one after the other,
/// are the queue, so that no entry is left out or comes twice. There are as
/// many pages as the walk was told, each page but the last is full, and the
/// last is not empty.
pub proof fn lemma_walk_partitions_queue(buffer: BufferView)
    requires
        buffer.page_size > 0,
    ensures
        buffer.pages().flatten() == buffer.queue,
        buffer.pages().len() == pages_needed(buffer.queue.len() as int, buffer.page_size as int),
        forall|i: int|
            0 <= i < buffer.pages().len() - 1 ==> (#[trigger] buffer.pages()[i]).len()
                == buffer.page_size,
        buffer.pages().len() > 0 ==> 0 < buffer.pages().last().len() <= buffer.page_size,
    decreases buffer.queue.len(),
{
    let size = buffer.page_size as int;
    let len = buffer.queue.len() as int;
    if len == 0 {
        assert(buffer.pages().flatten() =~= buffer.queue);
    } else {
        let rest = buffer.advance();
        lemma_walk_partitions_queue(rest);
        let first = buffer.next_page();
        assert(buffer.pages() == seq![first] + rest.pages());
        assert((seq![first] + rest.pages()).flatten() =~= first + rest.pages().flatten()) by {
            lemma_flatten_prepend(first, rest.pages());
        }
        assert(first + rest.queue =~= buffer.queue);
        lemma_pages_needed_step(len, size);
        assert forall|i: int| 0 <= i < buffer.pages().len() - 1 implies (
        #[trigger] buffer.pages()[i]).len() == buffer.page_size by {
            if i > 0 {
                assert(buffer.pages()[i] == rest.pages()[i - 1]);
            } else {
                assert(rest.pages().len() > 0);
                assert(rest.queue.len() > 0);
            }
        }
        if rest.pages().len() > 0 {
            assert(buffer.pages().last() == rest.pages().last());
        } else {
            assert(buffer.pages().last() == first);
            lemma_pages_needed_is_least(rest.queue.len() as int, size);
        }
    }
}

/// Taking a page off leaves one page less to fill.
proof fn lemma_pages_needed_step(len: int, size: int)
    requires
        len > 0,
        size > 0,
    ensures
        len <= size ==> pages_needed(len, size) == 1,
        len > size ==> pages_needed(len, size) == 1 + pages_needed(len - size, size),
{
    if len <= size {
        assert((len - 1) / size == 0) by (nonlinear_arith)
            requires
                0 <= len - 1 < size,
        ;
    } else {
        assert((len - 1) / size == 1 + (len - size - 1) / size) by (nonlinear_arith)
            requires
                size > 0,
                len - size - 1 >= 0,
        ;
    }
}

/// Flattening a list of lists takes the first list first.
proof fn lemma_flatten_prepend(first: Seq<EntryView>, rest: Seq<Seq<EntryView>>)
    ensures
        (seq![first] + rest).flatten() =~= first + rest.flatten(),
{
    let all = seq![first] + rest;
    assert(all.first() == first);
    assert(all.drop_first() =~= rest);
}

/// The pages of a walk are what `get` delivers call after call: the page with
/// number `index` holds the next entries of the buffer after `index` pages. The
/// page is marked as the last exactly when it is the last of the walk, and the
/// queue is empty after it.
pub proof fn lemma_pages_are_delivered_in_turn(buffer: BufferView, index: nat)
    requires
        buffer.page_size > 0,
        index < buffer.pages().len(),
    ensures
        buffer.pages()[index as int] == buffer.after_pages(index).next_page(),
        buffer.after_pages(index).advance() == buffer.after_pages(index + 1),
        (buffer.after_pages(index + 1).queue.len() == 0) <==> index == buffer.pages().len() - 1,
        buffer.after_pages(buffer.pages().len()).queue.len() == 0,
    decreases index,
{
    lemma_after_pages_unfold(buffer, index);
    lemma_after_all_pages(buffer);
    if index == 0 {
        assert(buffer.after_pages(1) == buffer.advance().after_pages(0));
        assert(buffer.pages() == seq![buffer.next_page()] + buffer.advance().pages());
        if buffer.advance().queue.len() == 0 {
        } else {
            assert(buffer.advance().pages().len() > 0);
        }
    } else {
        let rest = buffer.advance();
        assert(buffer.pages() == seq![buffer.next_page()] + rest.pages());
        lemma_pages_are_delivered_in_turn(rest, (index - 1) as nat);
        assert(buffer.after_pages(index) == rest.after_pages((index - 1) as nat));
        assert(buffer.after_pages(index + 1) == rest.after_pages(index as nat));
    }
}

proof fn lemma_after_pages_unfold(buffer: BufferView, count: nat)
    ensures
        buffer.after_pages(count).advance() == buffer.after_pages(count + 1),
    decreases count,
{
    if count == 0 {
        assert(buffer.after_pages(1) == buffer.advance().after_pages(0));
    } else {
        lemma_after_pages_unfold(buffer.advance(), (count - 1) as nat);
        assert(buffer.after_pages(count + 1) == buffer.advance().after_pages(count));
    }
}

proof fn lemma_after_all_pages(buffer: BufferView)
    requires
        buffer.page_size > 0,
    ensures
        buffer.after_pages(buffer.pages().len()).queue.len() == 0,
    decreases buffer.queue.len(),
{
    if buffer.queue.len() > 0 {
        lemma_after_all_pages(buffer.advance());
        assert(buffer.pages() == seq![buffer.next_page()] + buffer.advance().pages());
        assert(buffer.after_pages(buffer.pages().len()) == buffer.advance().after_pages(
            buffer.advance().pages().len(),
        ));
    }
}

} // verus!

verus! {

/// The last field of a list that is not left out, if there is one.
pub open spec fn last_given<T>(fields: Seq<Maybe<T>>) -> Maybe<T>
    decreases fields.len(),
{
    if fields.len() == 0 {
        Maybe::Absent
    } else if fields.last() is Absent {
        last_given(fields.drop_last())
    } else {
        fields.last()
    }
}

/// `last_given` is absent only where every field is left out. Otherwise it is
/// a field of the list that is not left out and after which every field is.
pub proof fn lemma_last_given<T>(fields: Seq<Maybe<T>>)
    ensures
        last_given(fields) is Absent <==> forall|i: int|
            0 <= i < fields.len() ==> #[trigger] fields[i] is Absent,
        !(last_given(fields) is Absent) ==> exists|i: int|
            0 <= i < fields.len() && #[trigger] fields[i] == last_given(fields) && forall|j: int|
                i < j < fields.len() ==> #[trigger] fields[j] is Absent,
    decreases fields.len(),
{
    if fields.len() > 0 {
        let front = fields.drop_last();
        lemma_last_given(front);
        if fields.last() is Absent {
            if !(last_given(front) is Absent) {
                let i = choose|i: int|
                    0 <= i < front.len() && #[trigger] front[i] == last_given(front) && forall|
                        j: int,
                    |
                        i < j < front.len() ==> #[trigger] front[j] is Absent;
                assert(fields[i] == last_given(fields));
                assert forall|j: int| i < j < fields.len() implies #[trigger] fields[j] is Absent by {
                    if j < front.len() {
                        assert(front[j] is Absent);
                    }
                }
            } else {
                assert forall|i: int| 0 <= i < fields.len() implies #[trigger] fields[i] is Absent by {
                    if i < front.len() {
                        assert(front[i] is Absent);
                    }
                }
            }
        } else {
            let i = fields.len() - 1;
            assert(fields[i] == last_given(fields));
        }
    }
}

/// What the last update that touches the attachment does to it.
pub open spec fn last_image_change(puts: Seq<ServerPutUpdateView>) -> ImageChange
    decreases puts.len(),
{
    if puts.len() == 0 {
        ImageChange::Keep
    } else if puts.last().image_change() == ImageChange::Keep {
        last_image_change(puts.drop_last())
    } else {
        puts.last().image_change()
    }
}

impl ServerPutUpdateWithoutImageView {
    /// The staged update after a run of updates was laid over it, one after
    /// the other.
    pub open spec fn overlay_all(self, puts: Seq<ServerPutUpdateView>) -> Self
        decreases puts.len(),
    {
        if puts.len() == 0 {
            self
        } else {
            self.overlay_all(puts.drop_last()).overlay(puts.last())
        }
    }
}

impl MessageView {
    /// The entry after a run of updates was applied to it, one after the
    /// other.
    pub open spec fn apply_all(self, puts: Seq<ServerPutUpdateView>) -> MessageView
        decreases puts.len(),
    {
        if puts.len() == 0 {
            self
        } else {
            self.apply_all(puts.drop_last()).apply(puts.last())
        }
    }
}

/// Staging an update for an id that has none staged is laying it over the
/// update that leaves everything as it is.
pub proof fn lemma_overlay_of_absent(put: ServerPutUpdateView)
    ensures
        ServerPutUpdateWithoutImageView::absent().overlay(put) == put.without_image(),
{
}

/// Updates that are laid over each other coalesce field by field: in each
/// field the last update that does not leave it out wins, and a field that
/// every update leaves out stays as it was staged.
pub proof fn lemma_overlay_all_by_field(
    staged: ServerPutUpdateWithoutImageView,
    puts: Seq<ServerPutUpdateView>,
)
    ensures
        staged.overlay_all(puts).author == last_given(
            puts.map_values(|put: ServerPutUpdateView| put.author),
        ).spec_or(staged.author),
        staged.overlay_all(puts).message == last_given(
            puts.map_values(|put: ServerPutUpdateView| put.message),
        ).spec_or(staged.message),
        staged.overlay_all(puts).likes == last_given(
            puts.map_values(|put: ServerPutUpdateView| put.likes),
        ).spec_or(staged.likes),
        staged.overlay_all(puts).image_updated == last_given(
            puts.map_values(|put: ServerPutUpdateView| put.image_updated),
        ).spec_or(staged.image_updated),
    decreases puts.len(),
{
    if puts.len() > 0 {
        let front = puts.drop_last();
        lemma_overlay_all_by_field(staged, front);
        assert(puts.map_values(|put: ServerPutUpdateView| put.author).drop_last()
            =~= front.map_values(|put: ServerPutUpdateView| put.author));
        assert(puts.map_values(|put: ServerPutUpdateView| put.message).drop_last()
            =~= front.map_values(|put: ServerPutUpdateView| put.message));
        assert(puts.map_values(|put: ServerPutUpdateView| put.likes).drop_last()
            =~= front.map_values(|put: ServerPutUpdateView| put.likes));
        assert(puts.map_values(|put: ServerPutUpdateView| put.image_updated).drop_last()
            =~= front.map_values(|put: ServerPutUpdateView| put.image_updated));
    }
}

/// Updates that are applied to a staged entry coalesce field by field: in each
/// field the last update that does not leave it out wins, by setting or by
/// clearing it, and a field that every update leaves out stays. The entry has
/// an attachment afterwards as the last update that touched the attachment
/// left it.
pub proof fn lemma_apply_all_by_field(entry: MessageView, puts: Seq<ServerPutUpdateView>)
    ensures
        entry.apply_all(puts).uuid == entry.uuid,
        entry.apply_all(puts).author == last_given(
            puts.map_values(|put: ServerPutUpdateView| put.author),
        ).spec_resolve(entry.author, Seq::empty()),
        entry.apply_all(puts).message == match last_given(
            puts.map_values(|put: ServerPutUpdateView| put.message),
        ) {
            Maybe::Absent => entry.message,
            Maybe::Null => None,
            Maybe::Value(text) => Some(text),
        },
        entry.apply_all(puts).likes == last_given(
            puts.map_values(|put: ServerPutUpdateView| put.likes),
        ).spec_resolve(entry.likes, 0i32),
        entry.apply_all(puts).has_image == match last_image_change(puts) {
            ImageChange::Keep => entry.has_image,
            ImageChange::Remove => false,
            ImageChange::Save => true,
        },
    decreases puts.len(),
{
    if puts.len() > 0 {
        let front = puts.drop_last();
        lemma_apply_all_by_field(entry, front);
        assert(puts.map_values(|put: ServerPutUpdateView| put.author).drop_last()
            =~= front.map_values(|put: ServerPutUpdateView| put.author));
        assert(puts.map_values(|put: ServerPutUpdateView| put.message).drop_last()
            =~= front.map_values(|put: ServerPutUpdateView| put.message));
        assert(puts.map_values(|put: ServerPutUpdateView| put.likes).drop_last()
            =~= front.map_values(|put: ServerPutUpdateView| put.likes));
    }
}

} // verus!
