//! A field that can be left out, cleared, or set.

use vstd::prelude::*;

verus! {

/// One field of a partial update.
///
/// `Absent` leaves the field as it is, `Null` clears it and `Value(x)` sets it
/// to `x`. On the wire an absent field has no key at all, a cleared field has
/// its key with a null, and a set field has its key with the value.
#[derive(Debug, Clone, Copy, PartialEq, Eq)]
pub enum Maybe<T> {
    Absent,
    Null,
    Value(T),
}

impl<T: DeepView> DeepView for Maybe<T> {
    type V = Maybe<T::V>;

    open spec fn deep_view(&self) -> Maybe<T::V> {
        match self {
            Maybe::Absent => Maybe::Absent,
            Maybe::Null => Maybe::Null,
            Maybe::Value(v) => Maybe::Value(v.deep_view()),
        }
    }
}

impl<T> Maybe<T> {
    /// The field as a later update `self` leaves it, when it held `older` before:
    /// `self` unless `self` is absent.
    pub open spec fn spec_or(self, older: Maybe<T>) -> Maybe<T> {
        if self is Absent {
            older
        } else {
            self
        }
    }

    /// The value of a stored field after this update: `current` if the update
    /// leaves the field out, `cleared` if it clears it, the new value otherwise.
    pub open spec fn spec_resolve(self, current: T, cleared: T) -> T {
        match self {
            Maybe::Absent => current,
            Maybe::Null => cleared,
            Maybe::Value(v) => v,
        }
    }

    /// The wire slot of the field: `None` when the key is left out,
    /// `Some(None)` for a null, `Some(Some(x))` for a value.
    pub open spec fn spec_into_field(self) -> Option<Option<T>> {
        match self {
            Maybe::Absent => None,
            Maybe::Null => Some(None),
            Maybe::Value(v) => Some(Some(v)),
        }
    }

    /// The field that a wire slot decodes to.
    pub open spec fn spec_from_field(slot: Option<Option<T>>) -> Maybe<T> {
        match slot {
            None => Maybe::Absent,
            Some(None) => Maybe::Null,
            Some(Some(v)) => Maybe::Value(v),
        }
    }

    pub fn is_absent(&self) -> (r: bool)
        ensures
            r == (*self is Absent),
    {
        match self {
            Maybe::Absent => true,
            _ => false,
        }
    }

    pub fn as_ref(&self) -> (r: Maybe<&T>)
        ensures
            *self matches Maybe::Absent ==> r is Absent,
            *self matches Maybe::Null ==> r is Null,
            *self matches Maybe::Value(v) ==> r == Maybe::Value(&v),
    {
        match self {
            Maybe::Absent => Maybe::Absent,
            Maybe::Null => Maybe::Null,
            Maybe::Value(v) => Maybe::Value(v),
        }
    }

    /// Lays a later update's field over an older one: the later one wins unless
    /// it is absent.
    pub fn or(self, older: Maybe<T>) -> (r: Maybe<T>)
        ensures
            r == self.spec_or(older),
    {
        match self {
            Maybe::Absent => older,
            m => m,
        }
    }

    /// Applies the field to a stored value. `cleared` is what a cleared field
    /// holds.
    pub fn resolve(self, current: T, cleared: T) -> (r: T)
        ensures
            r == self.spec_resolve(current, cleared),
    {
        match self {
            Maybe::Absent => current,
            Maybe::Null => cleared,
            Maybe::Value(v) => v,
        }
    }

    /// Encodes the field as a wire slot. An absent field gives `None`: its key
    /// must not be written.
    pub fn into_field(self) -> (slot: Option<Option<T>>)
        ensures
            slot == self.spec_into_field(),
    {
        match self {
            Maybe::Absent => None,
            Maybe::Null => Some(None),
            Maybe::Value(v) => Some(Some(v)),
        }
    }

    /// Decodes a wire slot: a missing key is absent, a null clears, a value sets.
    pub fn from_field(slot: Option<Option<T>>) -> (r: Maybe<T>)
        ensures
            r == Self::spec_from_field(slot),
    {
        match slot {
            None => Maybe::Absent,
            Some(None) => Maybe::Null,
            Some(Some(v)) => Maybe::Value(v),
        }
    }

    /// Encodes a field whose key is written: a null for a cleared field, the
    /// value for a set one. An absent field has no encoding of its own, so it
    /// is ruled out here.
    pub fn into_nullable(self) -> (r: Option<T>)
        requires
            !(self is Absent),
        ensures
            self.spec_into_field() == Some(r),
    {
        match self {
            Maybe::Value(v) => Some(v),
            _ => None,
        }
    }

    /// Encoding a field and decoding the slot gives the field back, and the key
    /// is left out exactly for an absent field.
    pub proof fn lemma_field_round_trip(self)
        ensures
            Self::spec_from_field(self.spec_into_field()) == self,
            self.spec_into_field() is None <==> self is Absent,
    {
    }

    /// Decoding a slot and encoding the field gives the slot back.
    pub proof fn lemma_slot_round_trip(slot: Option<Option<T>>)
        ensures
            Self::spec_from_field(slot).spec_into_field() == slot,
    {
    }
}

impl<T> Default for Maybe<T> {
    fn default() -> (r: Self)
        ensures
            r is Absent,
    {
        Maybe::Absent
    }
}

impl<T> From<Option<T>> for Maybe<T> {
    fn from(opt: Option<T>) -> (r: Maybe<T>) {
        match opt {
            Some(v) => Maybe::Value(v),
            None => Maybe::Null,
        }
    }
}

impl<T> vstd::std_specs::convert::FromSpecImpl<Option<T>> for Maybe<T> {
    open spec fn obeys_from_spec() -> bool {
        true
    }

    open spec fn from_spec(opt: Option<T>) -> Self {
        match opt {
            Some(v) => Maybe::Value(v),
            None => Maybe::Null,
        }
    }
}

} // verus!
