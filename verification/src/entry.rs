//! The entries of a walk's queue, and the order in which one snapshot queues
//! them.

use crate::order::{compare_ids, id_lt, lemma_id_lt_total, lemma_id_lt_transitive, IdOrder};
use vstd::prelude::*;
use vstd::seq_lib::lemma_multiset_commutative;

verus! {

/// The kind of a change.
#[derive(Debug, Clone, Copy, PartialEq, Eq, Structural)]
pub enum Kind {
    Post,
    Put,
    Delete,
}

/// One change in the queue of a walk. `generation` is the generation under
/// which the payload of a created or updated id is staged.
#[derive(Debug, Clone, PartialEq, Eq)]
pub struct Entry {
    pub kind: Kind,
    pub uuid: String,
    pub generation: u64,
}

pub struct EntryView {
    pub kind: Kind,
    pub uuid: Seq<char>,
    pub generation: u64,
}

impl View for Entry {
    type V = EntryView;

    open spec fn view(&self) -> EntryView {
        EntryView { kind: self.kind, uuid: self.uuid@, generation: self.generation }
    }
}

/// The name of one staged record.
#[derive(Debug, Clone, PartialEq, Eq)]
pub struct StagingKey {
    pub generation: u64,
    pub uuid: String,
}

pub struct StagingKeyView {
    pub generation: u64,
    pub uuid: Seq<char>,
}

impl View for StagingKey {
    type V = StagingKeyView;

    open spec fn view(&self) -> StagingKeyView {
        StagingKeyView { generation: self.generation, uuid: self.uuid@ }
    }
}

impl EntryView {
    /// The key of the staged record that the entry refers to. A deletion
    /// refers to none.
    pub open spec fn staged_key(self) -> Option<StagingKeyView> {
        if self.kind == Kind::Delete {
            None
        } else {
            Some(StagingKeyView { generation: self.generation, uuid: self.uuid })
        }
    }
}

impl Kind {
    /// The name of the kind, as readers know it.
    pub fn name(&self) -> (r: &'static str)
        ensures
            r@ == match *self {
                Kind::Post => "post"@,
                Kind::Put => "put"@,
                Kind::Delete => "delete"@,
            },
    {
        match self {
            Kind::Post => "post",
            Kind::Put => "put",
            Kind::Delete => "delete",
        }
    }
}

/// The views of a list of entries.
pub open spec fn entry_views(entries: Seq<Entry>) -> Seq<EntryView> {
    entries.map_values(|entry: Entry| entry@)
}

/// Within one id an update comes before a deletion.
pub open spec fn kind_rank(kind: Kind) -> int {
    match kind {
        Kind::Post => 0,
        Kind::Put => 1,
        Kind::Delete => 2,
    }
}

/// `a` is queued no later than `b`: creations come first, by id; updates and
/// deletions follow, by id, the update to an id before its deletions.
pub open spec fn entry_le(a: EntryView, b: EntryView) -> bool {
    if (a.kind is Post) != (b.kind is Post) {
        a.kind is Post
    } else if a.uuid != b.uuid {
        id_lt(a.uuid, b.uuid)
    } else if a.kind != b.kind {
        kind_rank(a.kind) < kind_rank(b.kind)
    } else {
        a.generation <= b.generation
    }
}

/// The entries stand in queue order.
pub open spec fn entries_sorted(entries: Seq<EntryView>) -> bool {
    forall|i: int, j: int| 0 <= i < j < entries.len() ==> entry_le(entries[i], entries[j])
}

/// Of two entries one is queued no later than the other, and only an entry
/// itself is both no later and no earlier than it.
pub proof fn lemma_entry_le_total(a: EntryView, b: EntryView)
    ensures
        entry_le(a, b) || entry_le(b, a),
        entry_le(a, b) && entry_le(b, a) ==> a == b,
        entry_le(a, a),
{
    lemma_id_lt_total(a.uuid, b.uuid);
}

/// Queue order is transitive.
pub proof fn lemma_entry_le_transitive(a: EntryView, b: EntryView, c: EntryView)
    requires
        entry_le(a, b),
        entry_le(b, c),
    ensures
        entry_le(a, c),
{
    lemma_id_lt_total(a.uuid, b.uuid);
    lemma_id_lt_total(b.uuid, c.uuid);
    lemma_id_lt_total(a.uuid, c.uuid);
    if id_lt(a.uuid, b.uuid) && id_lt(b.uuid, c.uuid) {
        lemma_id_lt_transitive(a.uuid, b.uuid, c.uuid);
    }
}

/// Queue order is a total order.
pub proof fn lemma_entry_le_is_total_ordering()
    ensures
        vstd::relations::total_ordering(|a: EntryView, b: EntryView| entry_le(a, b)),
{
    let le = |a: EntryView, b: EntryView| entry_le(a, b);
    assert forall|a: EntryView| #[trigger] le(a, a) by {
        lemma_entry_le_total(a, a);
    }
    assert forall|a: EntryView, b: EntryView| #[trigger] le(a, b) && #[trigger] le(b, a) implies a
        == b by {
        lemma_entry_le_total(a, b);
    }
    assert forall|a: EntryView, b: EntryView| #[trigger] le(a, b) || #[trigger] le(b, a) by {
        lemma_entry_le_total(a, b);
    }
    assert forall|a: EntryView, b: EntryView, c: EntryView| #[trigger] le(a, b) && #[trigger] le(
        b,
        c,
    ) implies le(a, c) by {
        lemma_entry_le_transitive(a, b, c);
    }
}

/// Two lists in queue order that hold the same entries, each as often as the
/// other, are the same list.
pub proof fn lemma_sorted_entries_unique(x: Seq<EntryView>, y: Seq<EntryView>)
    requires
        entries_sorted(x),
        entries_sorted(y),
        x.to_multiset() == y.to_multiset(),
    ensures
        x == y,
{
    let le = |a: EntryView, b: EntryView| entry_le(a, b);
    lemma_entry_le_is_total_ordering();
    assert(vstd::relations::sorted_by(x, le));
    assert(vstd::relations::sorted_by(y, le));
    vstd::seq_lib::lemma_sorted_unique(x, y, le);
}

/// The entries of one kind and generation for a list of ids, in its order.
pub open spec fn entries_of(kind: Kind, generation: u64, ids: Seq<Seq<char>>) -> Seq<EntryView> {
    ids.map_values(|id: Seq<char>| EntryView { kind, uuid: id, generation })
}

/// An entry occurs among the entries for a list of ids as often as its id
/// occurs in the list, if it is of their kind and generation, and not at all
/// otherwise.
pub proof fn lemma_entries_of_count(kind: Kind, generation: u64, ids: Seq<Seq<char>>, e: EntryView)
    ensures
        entries_of(kind, generation, ids).to_multiset().count(e) == if e.kind == kind
            && e.generation == generation {
            ids.to_multiset().count(e.uuid)
        } else {
            0
        },
    decreases ids.len(),
{
    broadcast use vstd::multiset::group_multiset_axioms;

    if ids.len() == 0 {
        assert(entries_of(kind, generation, ids).to_multiset().len() == 0) by {
            vstd::seq_lib::to_multiset_len(entries_of(kind, generation, ids));
        }
        assert(ids.to_multiset().len() == 0) by {
            vstd::seq_lib::to_multiset_len(ids);
        }
    } else {
        let front = ids.drop_last();
        let last = EntryView { kind, uuid: ids.last(), generation };
        lemma_entries_of_count(kind, generation, front, e);
        assert(ids =~= front.push(ids.last()));
        assert(entries_of(kind, generation, ids) =~= entries_of(kind, generation, front).push(
            last,
        ));
        vstd::seq_lib::to_multiset_build(front, ids.last());
        vstd::seq_lib::to_multiset_build(entries_of(kind, generation, front), last);
    }
}

/// In a list that holds nothing twice, a value occurs once if the list holds
/// it and never if not.
pub proof fn lemma_count_in_distinct_list(ids: Seq<Seq<char>>, id: Seq<char>)
    requires
        ids.no_duplicates(),
    ensures
        ids.to_multiset().count(id) == if ids.to_set().contains(id) {
            1nat
        } else {
            0nat
        },
{
    ids.lemma_multiset_has_no_duplicates();
    vstd::seq_lib::to_multiset_contains(ids, id);
}

impl Entry {
    /// Whether `self` is queued no later than `other`.
    pub fn queued_before(&self, other: &Entry) -> (r: bool)
        ensures
            r == entry_le(self@, other@),
    {
        let self_is_post = match self.kind {
            Kind::Post => true,
            _ => false,
        };
        let other_is_post = match other.kind {
            Kind::Post => true,
            _ => false,
        };
        if self_is_post != other_is_post {
            return self_is_post;
        }
        match compare_ids(self.uuid.as_str(), other.uuid.as_str()) {
            IdOrder::Before => true,
            IdOrder::After => {
                proof {
                    lemma_id_lt_total(self.uuid@, other.uuid@);
                }
                false
            },
            IdOrder::Same => {
                match (self.kind, other.kind) {
                    (Kind::Put, Kind::Delete) => true,
                    (Kind::Delete, Kind::Put) => false,
                    _ => self.generation <= other.generation,
                }
            },
        }
    }

    /// The key of the staged record that the entry refers to.
    pub fn staged_key(&self) -> (r: Option<StagingKey>)
        ensures
            match self@.staged_key() {
                Some(key) => r.is_some() && r.unwrap()@ == key,
                None => r.is_none(),
            },
    {
        match self.kind {
            Kind::Delete => None,
            _ => Some(StagingKey { generation: self.generation, uuid: self.uuid.clone() }),
        }
    }

    /// A copy of the entry.
    pub fn duplicate(&self) -> (r: Entry)
        ensures
            r@ == self@,
    {
        Entry { kind: self.kind, uuid: self.uuid.clone(), generation: self.generation }
    }
}

/// Merges two lists in queue order into one.
fn merge_entries(left: &Vec<Entry>, right: &Vec<Entry>) -> (out: Vec<Entry>)
    requires
        entries_sorted(entry_views(left@)),
        entries_sorted(entry_views(right@)),
    ensures
        entries_sorted(entry_views(out@)),
        entry_views(out@).to_multiset() == entry_views(left@).to_multiset().add(
            entry_views(right@).to_multiset(),
        ),
{
    let ghost l = entry_views(left@);
    let ghost r = entry_views(right@);
    let mut out: Vec<Entry> = Vec::new();
    let mut i: usize = 0;
    let mut j: usize = 0;
    proof {
        assert(entry_views(out@) =~= Seq::empty());
        assert(l.take(0) =~= Seq::empty());
        assert(r.take(0) =~= Seq::empty());
        lemma_multiset_commutative(l.take(0), r.take(0));
    }
    while i < left.len() || j < right.len()
        invariant
            l == entry_views(left@),
            r == entry_views(right@),
            entries_sorted(l),
            entries_sorted(r),
            i <= left.len(),
            j <= right.len(),
            entries_sorted(entry_views(out@)),
            entry_views(out@).to_multiset() == l.take(i as int).to_multiset().add(
                r.take(j as int).to_multiset(),
            ),
            forall|k: int, m: int|
                0 <= k < out.len() && i <= m < l.len() ==> entry_le(
                    #[trigger] entry_views(out@)[k],
                    #[trigger] l[m],
                ),
            forall|k: int, m: int|
                0 <= k < out.len() && j <= m < r.len() ==> entry_le(
                    #[trigger] entry_views(out@)[k],
                    #[trigger] r[m],
                ),
        decreases left.len() - i + right.len() - j,
    {
        let ghost before = entry_views(out@);
        let take_left = if i < left.len() && j < right.len() {
            left[i].queued_before(&right[j])
        } else {
            i < left.len()
        };
        if take_left {
            let e = left[i].duplicate();
            out.push(e);
            proof {
                let x = l[i as int];
                assert(entry_views(out@) =~= before.push(x));
                assert(l.take(i + 1) =~= l.take(i as int).push(x));
                vstd::seq_lib::to_multiset_build(before, x);
                vstd::seq_lib::to_multiset_build(l.take(i as int), x);
                assert forall|k: int, m: int|
                    0 <= k < out.len() && j <= m < r.len() implies entry_le(
                    #[trigger] entry_views(out@)[k],
                    #[trigger] r[m],
                ) by {
                    if k == out.len() - 1 {
                        lemma_entry_le_transitive(x, r[j as int], r[m]);
                    }
                }
            }
            i += 1;
        } else {
            let e = right[j].duplicate();
            out.push(e);
            proof {
                let x = r[j as int];
                assert(entry_views(out@) =~= before.push(x));
                assert(r.take(j + 1) =~= r.take(j as int).push(x));
                vstd::seq_lib::to_multiset_build(before, x);
                vstd::seq_lib::to_multiset_build(r.take(j as int), x);
                assert forall|k: int, m: int|
                    0 <= k < out.len() && i <= m < l.len() implies entry_le(
                    #[trigger] entry_views(out@)[k],
                    #[trigger] l[m],
                ) by {
                    if k == out.len() - 1 {
                        lemma_entry_le_total(l[i as int], x);
                        lemma_entry_le_transitive(x, l[i as int], l[m]);
                    }
                }
            }
            j += 1;
        }
    }
    proof {
        assert(l.take(i as int) =~= l);
        assert(r.take(j as int) =~= r);
    }
    out
}

/// Sorts the entries from `lo` up to `hi` into queue order.
fn sort_range(entries: &Vec<Entry>, lo: usize, hi: usize) -> (out: Vec<Entry>)
    requires
        lo <= hi <= entries.len(),
    ensures
        entries_sorted(entry_views(out@)),
        entry_views(out@).to_multiset() == entry_views(entries@).subrange(
            lo as int,
            hi as int,
        ).to_multiset(),
    decreases hi - lo,
{
    let ghost all = entry_views(entries@);
    if hi - lo <= 1 {
        let mut out: Vec<Entry> = Vec::new();
        if hi - lo == 1 {
            out.push(entries[lo].duplicate());
        }
        assert(entry_views(out@) =~= all.subrange(lo as int, hi as int));
        out
    } else {
        let mid = lo + (hi - lo) / 2;
        let left = sort_range(entries, lo, mid);
        let right = sort_range(entries, mid, hi);
        proof {
            assert(all.subrange(lo as int, hi as int) =~= all.subrange(lo as int, mid as int)
                + all.subrange(mid as int, hi as int));
            lemma_multiset_commutative(
                all.subrange(lo as int, mid as int),
                all.subrange(mid as int, hi as int),
            );
        }
        merge_entries(&left, &right)
    }
}

/// Sorts entries into queue order: the result holds each entry as often as
/// `entries` does.
pub fn sort_entries(entries: &Vec<Entry>) -> (out: Vec<Entry>)
    ensures
        entries_sorted(entry_views(out@)),
        entry_views(out@).to_multiset() == entry_views(entries@).to_multiset(),
{
    assert(entry_views(entries@).subrange(0, entries.len() as int) =~= entry_views(entries@));
    sort_range(entries, 0, entries.len())
}

} // verus!
