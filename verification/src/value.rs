use std::sync::Arc;
use vstd::prelude::*;

verus! {

/// The runtime type identifier that is kept with every stored value.
#[derive(Clone, Copy, PartialEq, Eq, Structural, Debug)]
pub enum ValueKind {
    Flag,
    Signed,
    Unsigned,
    Text,
    Bytes,
}

/// A value as the store keeps it: the concrete type is gone from the static
/// type, the variant remembers it, and the payload sits behind a shared handle.
pub enum StoredValue {
    Flag(Arc<bool>),
    Signed(Arc<i64>),
    Unsigned(Arc<u64>),
    Text(Arc<String>),
    Bytes(Arc<Vec<u8>>),
}

impl StoredValue {
    /// The runtime type identifier of the payload.
    pub open spec fn kind(&self) -> ValueKind {
        match self {
            StoredValue::Flag(_) => ValueKind::Flag,
            StoredValue::Signed(_) => ValueKind::Signed,
            StoredValue::Unsigned(_) => ValueKind::Unsigned,
            StoredValue::Text(_) => ValueKind::Text,
            StoredValue::Bytes(_) => ValueKind::Bytes,
        }
    }
}

/// A type whose values the context store can keep and hand back.
///
/// Storing erases the static type; `held` recovers the value from a stored
/// one exactly when the runtime type identifiers agree.
pub trait ContextValue: Sized {
    /// The runtime type identifier of this type.
    spec fn kind() -> ValueKind;

    /// The stored form of `self`.
    spec fn stored(self) -> StoredValue;

    /// The value of this type that `stored` holds, `None` if it holds a
    /// value of another type.
    spec fn held(stored: StoredValue) -> Option<Self>;

    /// A stored value holds a value of this type exactly when it carries
    /// this type's identifier.
    proof fn held_matches_kind(stored: StoredValue)
        ensures
            Self::held(stored) is Some <==> stored.kind() == Self::kind(),
    ;

    /// What was stored is what is held.
    proof fn held_of_stored(self)
        ensures
            Self::held(self.stored()) == Some(self),
    ;

    /// Erases the static type of `self`.
    fn into_stored(self) -> (stored: StoredValue)
        ensures
            stored == self.stored(),
    ;

    /// A shared handle to the payload of `stored` if it is of this type.
    fn from_stored(stored: &StoredValue) -> (handle: Option<Arc<Self>>)
        ensures
            match handle {
                Some(h) => Self::held(*stored) == Some(*h),
                None => Self::held(*stored) is None,
            },
    ;
}

/// `Arc::clone` of std: a second handle to the same allocation, so the value
/// behind the new handle is the value behind `handle`.
#[verifier::external_body]
fn share<T>(handle: &Arc<T>) -> (other: Arc<T>)
    ensures
        other == *handle,
{
    Arc::clone(handle)
}

impl ContextValue for bool {
    open spec fn kind() -> ValueKind {
        ValueKind::Flag
    }

    open spec fn stored(self) -> StoredValue {
        StoredValue::Flag(Arc::new(self))
    }

    open spec fn held(stored: StoredValue) -> Option<Self> {
        match stored {
            StoredValue::Flag(payload) => Some(*payload),
            _ => None,
        }
    }

    proof fn held_matches_kind(stored: StoredValue) {
    }

    proof fn held_of_stored(self) {
    }

    fn into_stored(self) -> (stored: StoredValue) {
        StoredValue::Flag(Arc::new(self))
    }

    fn from_stored(stored: &StoredValue) -> (handle: Option<Arc<Self>>) {
        match stored {
            StoredValue::Flag(payload) => Some(share(payload)),
            _ => None,
        }
    }
}

impl ContextValue for i64 {
    open spec fn kind() -> ValueKind {
        ValueKind::Signed
    }

    open spec fn stored(self) -> StoredValue {
        StoredValue::Signed(Arc::new(self))
    }

    open spec fn held(stored: StoredValue) -> Option<Self> {
        match stored {
            StoredValue::Signed(payload) => Some(*payload),
            _ => None,
        }
    }

    proof fn held_matches_kind(stored: StoredValue) {
    }

    proof fn held_of_stored(self) {
    }

    fn into_stored(self) -> (stored: StoredValue) {
        StoredValue::Signed(Arc::new(self))
    }

    fn from_stored(stored: &StoredValue) -> (handle: Option<Arc<Self>>) {
        match stored {
            StoredValue::Signed(payload) => Some(share(payload)),
            _ => None,
        }
    }
}

impl ContextValue for u64 {
    open spec fn kind() -> ValueKind {
        ValueKind::Unsigned
    }

    open spec fn stored(self) -> StoredValue {
        StoredValue::Unsigned(Arc::new(self))
    }

    open spec fn held(stored: StoredValue) -> Option<Self> {
        match stored {
            StoredValue::Unsigned(payload) => Some(*payload),
            _ => None,
        }
    }

    proof fn held_matches_kind(stored: StoredValue) {
    }

    proof fn held_of_stored(self) {
    }

    fn into_stored(self) -> (stored: StoredValue) {
        StoredValue::Unsigned(Arc::new(self))
    }

    fn from_stored(stored: &StoredValue) -> (handle: Option<Arc<Self>>) {
        match stored {
            StoredValue::Unsigned(payload) => Some(share(payload)),
            _ => None,
        }
    }
}

impl ContextValue for String {
    open spec fn kind() -> ValueKind {
        ValueKind::Text
    }

    open spec fn stored(self) -> StoredValue {
        StoredValue::Text(Arc::new(self))
    }

    open spec fn held(stored: StoredValue) -> Option<Self> {
        match stored {
            StoredValue::Text(payload) => Some(*payload),
            _ => None,
        }
    }

    proof fn held_matches_kind(stored: StoredValue) {
    }

    proof fn held_of_stored(self) {
    }

    fn into_stored(self) -> (stored: StoredValue) {
        StoredValue::Text(Arc::new(self))
    }

    fn from_stored(stored: &StoredValue) -> (handle: Option<Arc<Self>>) {
        match stored {
            StoredValue::Text(payload) => Some(share(payload)),
            _ => None,
        }
    }
}

impl ContextValue for Vec<u8> {
    open spec fn kind() -> ValueKind {
        ValueKind::Bytes
    }

    open spec fn stored(self) -> StoredValue {
        StoredValue::Bytes(Arc::new(self))
    }

    open spec fn held(stored: StoredValue) -> Option<Self> {
        match stored {
            StoredValue::Bytes(payload) => Some(*payload),
            _ => None,
        }
    }

    proof fn held_matches_kind(stored: StoredValue) {
    }

    proof fn held_of_stored(self) {
    }

    fn into_stored(self) -> (stored: StoredValue) {
        StoredValue::Bytes(Arc::new(self))
    }

    fn from_stored(stored: &StoredValue) -> (handle: Option<Arc<Self>>) {
        match stored {
            StoredValue::Bytes(payload) => Some(share(payload)),
            _ => None,
        }
    }
}

} // verus!
