//! What a transaction asks to be done with a key, and what the key held
//! before.

use vstd::prelude::*;
use crate::codec::copy_bytes;
use crate::dagger::DaggerType;
use crate::key::Key;
use crate::timestamp::TimeStamp;

verus! {

/// The kinds of mutation.
#[derive(Clone, Copy, Debug, PartialEq, Eq, Structural)]
pub enum MutationType {
    Put,
    Delete,
    Dagger,
    Insert,
    Other,
}

/// One change that a transaction asks for.
#[derive(Debug, PartialEq, Eq)]
pub enum Mutation {
    /// Give the key a value.
    Put(Key, Vec<u8>),
    /// Delete the key.
    Delete(Key),
    /// Lock the key and leave it as it is.
    Dagger(Key),
    /// Give the key a value, given that it has none.
    Insert(Key, Vec<u8>),
    /// Only check that the key has no value.
    CheckNotExists(Key),
}

/// What a mutation holds.
pub enum MutationView {
    Put(Seq<u8>, Seq<u8>),
    Delete(Seq<u8>),
    Dagger(Seq<u8>),
    Insert(Seq<u8>, Seq<u8>),
    CheckNotExists(Seq<u8>),
}

impl MutationView {
    /// The key that the mutation is about.
    pub open spec fn key(self) -> Seq<u8> {
        match self {
            MutationView::Put(k, _) => k,
            MutationView::Delete(k) => k,
            MutationView::Dagger(k) => k,
            MutationView::Insert(k, _) => k,
            MutationView::CheckNotExists(k) => k,
        }
    }

    /// The value that the mutation gives the key, where it gives one.
    pub open spec fn value(self) -> Option<Seq<u8>> {
        match self {
            MutationView::Put(_, v) => Some(v),
            MutationView::Insert(_, v) => Some(v),
            _ => None,
        }
    }

    pub open spec fn mutation_type(self) -> MutationType {
        match self {
            MutationView::Put(..) => MutationType::Put,
            MutationView::Delete(..) => MutationType::Delete,
            MutationView::Dagger(..) => MutationType::Dagger,
            MutationView::Insert(..) => MutationType::Insert,
            MutationView::CheckNotExists(..) => MutationType::Other,
        }
    }

    /// Whether the mutation asks that the key have no value.
    pub open spec fn should_not_exists(self) -> bool {
        self is Insert || self is CheckNotExists
    }

    /// Whether the mutation only checks and writes nothing.
    pub open spec fn should_not_write(self) -> bool {
        self is CheckNotExists
    }

    /// The type of the dagger that the mutation takes; none for one that
    /// writes nothing.
    pub open spec fn dagger_type(self) -> Option<DaggerType> {
        match self {
            MutationView::Put(..) => Some(DaggerType::Put),
            MutationView::Delete(..) => Some(DaggerType::Delete),
            MutationView::Dagger(..) => Some(DaggerType::Dagger),
            MutationView::Insert(..) => Some(DaggerType::Put),
            MutationView::CheckNotExists(..) => None,
        }
    }

    /// The bytes that the mutation carries: those of its key and of its
    /// value; none for one that writes nothing.
    pub open spec fn size(self) -> nat {
        match self {
            MutationView::Put(k, v) => k.len() + v.len(),
            MutationView::Insert(k, v) => k.len() + v.len(),
            MutationView::Delete(k) => k.len(),
            MutationView::Dagger(k) => k.len(),
            MutationView::CheckNotExists(_) => 0,
        }
    }
}

impl View for Mutation {
    type V = MutationView;

    open spec fn view(&self) -> MutationView {
        match *self {
            Mutation::Put(k, v) => MutationView::Put(k@, v@),
            Mutation::Delete(k) => MutationView::Delete(k@),
            Mutation::Dagger(k) => MutationView::Dagger(k@),
            Mutation::Insert(k, v) => MutationView::Insert(k@, v@),
            Mutation::CheckNotExists(k) => MutationView::CheckNotExists(k@),
        }
    }
}

impl Clone for Mutation {
    fn clone(&self) -> (r: Self)
        ensures
            r@ == self@,
    {
        match self {
            Mutation::Put(k, v) => Mutation::Put(k.clone(), copy_bytes(v.as_slice())),
            Mutation::Delete(k) => Mutation::Delete(k.clone()),
            Mutation::Dagger(k) => Mutation::Dagger(k.clone()),
            Mutation::Insert(k, v) => Mutation::Insert(k.clone(), copy_bytes(v.as_slice())),
            Mutation::CheckNotExists(k) => Mutation::CheckNotExists(k.clone()),
        }
    }
}

impl Mutation {
    pub fn make_put(key: Key, value: Vec<u8>) -> (r: Mutation)
        ensures
            r@ == MutationView::Put(key@, value@),
    {
        Mutation::Put(key, value)
    }

    pub fn make_delete(key: Key) -> (r: Mutation)
        ensures
            r@ == MutationView::Delete(key@),
    {
        Mutation::Delete(key)
    }

    pub fn make_dagger(key: Key) -> (r: Mutation)
        ensures
            r@ == MutationView::Dagger(key@),
    {
        Mutation::Dagger(key)
    }

    pub fn make_insert(key: Key, value: Vec<u8>) -> (r: Mutation)
        ensures
            r@ == MutationView::Insert(key@, value@),
    {
        Mutation::Insert(key, value)
    }

    pub fn make_check_not_exists(key: Key) -> (r: Mutation)
        ensures
            r@ == MutationView::CheckNotExists(key@),
    {
        Mutation::CheckNotExists(key)
    }

    /// The key that the mutation is about.
    pub fn key(&self) -> (r: &Key)
        ensures
            r@ == self@.key(),
    {
        match self {
            Mutation::Put(k, _) => k,
            Mutation::Delete(k) => k,
            Mutation::Dagger(k) => k,
            Mutation::Insert(k, _) => k,
            Mutation::CheckNotExists(k) => k,
        }
    }

    pub fn mutation_type(&self) -> (r: MutationType)
        ensures
            r == self@.mutation_type(),
    {
        match self {
            Mutation::Put(..) => MutationType::Put,
            Mutation::Delete(..) => MutationType::Delete,
            Mutation::Dagger(..) => MutationType::Dagger,
            Mutation::Insert(..) => MutationType::Insert,
            Mutation::CheckNotExists(..) => MutationType::Other,
        }
    }

    /// The key and, where the mutation gives one, the value.
    pub fn into_key_value(self) -> (r: (Key, Option<Vec<u8>>))
        ensures
            r.0@ == self@.key(),
            crate::write::opt_bytes_view(r.1) == self@.value(),
    {
        match self {
            Mutation::Put(k, v) => (k, Some(v)),
            Mutation::Delete(k) => (k, None),
            Mutation::Dagger(k) => (k, None),
            Mutation::Insert(k, v) => (k, Some(v)),
            Mutation::CheckNotExists(k) => (k, None),
        }
    }

    /// Whether the mutation asks that the key have no value.
    pub fn should_not_exists(&self) -> (r: bool)
        ensures
            r == self@.should_not_exists(),
    {
        match self {
            Mutation::Insert(..) => true,
            Mutation::CheckNotExists(..) => true,
            _ => false,
        }
    }

    /// Whether the mutation only checks and writes nothing.
    pub fn should_not_write(&self) -> (r: bool)
        ensures
            r == self@.should_not_write(),
    {
        match self {
            Mutation::CheckNotExists(..) => true,
            _ => false,
        }
    }

    /// The type of the dagger that the mutation takes; none for one that
    /// writes nothing.
    pub fn dagger_type(&self) -> (r: Option<DaggerType>)
        ensures
            r == self@.dagger_type(),
    {
        match self {
            Mutation::Put(..) => Some(DaggerType::Put),
            Mutation::Delete(..) => Some(DaggerType::Delete),
            Mutation::Dagger(..) => Some(DaggerType::Dagger),
            Mutation::Insert(..) => Some(DaggerType::Put),
            Mutation::CheckNotExists(..) => None,
        }
    }
}

/// What a key held before a transaction changed it, as far as it is known.
#[derive(Debug, PartialEq, Eq)]
pub enum OldValue {
    /// The value itself.
    Value { value: Vec<u8> },
    /// The start timestamp under which the value is stored.
    ValueTimeStamp { start_ts: TimeStamp },
    /// The key held no value.
    NoValue,
    /// Nobody asked, or it is not known.
    Unspecified,
}

/// What an old value holds.
pub enum OldValueView {
    Value { value: Seq<u8> },
    ValueTimeStamp { start_ts: TimeStamp },
    NoValue,
    Unspecified,
}

impl View for OldValue {
    type V = OldValueView;

    open spec fn view(&self) -> OldValueView {
        match *self {
            OldValue::Value { value } => OldValueView::Value { value: value@ },
            OldValue::ValueTimeStamp { start_ts } => OldValueView::ValueTimeStamp { start_ts },
            OldValue::NoValue => OldValueView::NoValue,
            OldValue::Unspecified => OldValueView::Unspecified,
        }
    }
}

impl OldValue {
    /// Whether it is known what the key held.
    pub fn resolved(&self) -> (r: bool)
        ensures
            r == !(self@ is Unspecified),
    {
        match self {
            OldValue::Unspecified => false,
            _ => true,
        }
    }
}

} // verus!
