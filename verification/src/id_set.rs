//! The hash set that holds pending ids.
//!
//! The set is `ahash::AHashSet<String>`, a `std::collections::HashSet` with the
//! hasher of `ahash`. Nothing in this file is proved: each function states what
//! the set's own method does, and the rest of the crate is proved from that.

use ahash::AHashSet;
use ahash::RandomState;
use vstd::prelude::*;

verus! {

/// `ahash::RandomState`, the hasher of the set. Nothing is known of it.
#[verifier::external_type_specification]
#[verifier::external_body]
pub struct ExRandomState(RandomState);

/// `ahash::AHashSet`. What a set holds is known only through `ids_of`.
#[verifier::external_type_specification]
#[verifier::external_body]
#[verifier::reject_recursive_types(T)]
#[verifier::reject_recursive_types(S)]
pub struct ExAHashSet<T, S>(AHashSet<T, S>);

/// The ids that a set holds, each as its sequence of characters.
pub uninterp spec fn ids_of(set: AHashSet<String>) -> Set<Seq<char>>;

/// `AHashSet::new`: a set that holds nothing.
#[verifier::external_body]
pub(crate) fn new_id_set() -> (set: AHashSet<String>)
    ensures
        ids_of(set) == Set::<Seq<char>>::empty(),
{
    AHashSet::new()
}

/// `HashSet::insert`, reached through the set's `DerefMut`: the id is in the
/// set afterwards, nothing else changes, and the result says whether the id was
/// new.
#[verifier::external_body]
pub(crate) fn id_set_insert(set: &mut AHashSet<String>, id: String) -> (added: bool)
    ensures
        ids_of(*final(set)) == ids_of(*old(set)).insert(id@),
        added == !ids_of(*old(set)).contains(id@),
{
    set.insert(id)
}

/// `HashSet::remove`: the id is not in the set afterwards, nothing else
/// changes, and the result says whether the id was there.
#[verifier::external_body]
pub(crate) fn id_set_remove(set: &mut AHashSet<String>, id: &str) -> (removed: bool)
    ensures
        ids_of(*final(set)) == ids_of(*old(set)).remove(id@),
        removed == ids_of(*old(set)).contains(id@),
{
    set.remove(id)
}

/// `HashSet::contains`.
#[verifier::external_body]
pub(crate) fn id_set_contains(set: &AHashSet<String>, id: &str) -> (found: bool)
    ensures
        found == ids_of(*set).contains(id@),
{
    set.contains(id)
}

/// `HashSet::is_empty`.
#[verifier::external_body]
pub(crate) fn id_set_is_empty(set: &AHashSet<String>) -> (empty: bool)
    ensures
        empty == (ids_of(*set) == Set::<Seq<char>>::empty()),
{
    set.is_empty()
}

/// `HashSet::len`: the number of ids in the set.
#[verifier::external_body]
pub(crate) fn id_set_len(set: &AHashSet<String>) -> (count: usize)
    ensures
        count == ids_of(*set).len(),
{
    set.len()
}

/// `HashSet::clear`.
#[verifier::external_body]
pub(crate) fn id_set_clear(set: &mut AHashSet<String>)
    ensures
        ids_of(*final(set)) == Set::<Seq<char>>::empty(),
{
    set.clear()
}

/// The ids of a list of strings.
pub open spec fn id_views(ids: Seq<String>) -> Seq<Seq<char>> {
    ids.map_values(|id: String| id@)
}

/// `HashSet::drain`, collected: the set is empty afterwards, and the result
/// holds each id that was in it exactly once. The order is that of the hash
/// table, so nothing is said of it.
#[verifier::external_body]
pub(crate) fn id_set_drain(set: &mut AHashSet<String>) -> (ids: Vec<String>)
    ensures
        ids_of(*final(set)) == Set::<Seq<char>>::empty(),
        id_views(ids@).no_duplicates(),
        id_views(ids@).to_set() == ids_of(*old(set)),
{
    set.drain().collect()
}

} // verus!
