//! Watch events: a key was put with an object, or a key was deleted.

use vstd::prelude::*;

verus! {

/// A change of one key of the store.
#[derive(Clone, Debug, PartialEq)]
pub enum WatchEvent<T> {
    Put(PutEvent<T>),
    Delete(DeleteEvent),
}

/// The key now holds the object.
#[derive(Clone, Debug, PartialEq)]
pub struct PutEvent<T> {
    pub key: String,
    pub object: T,
}

/// The key was deleted.
#[derive(Clone, Debug, PartialEq)]
pub struct DeleteEvent {
    pub key: String,
}

impl<T> WatchEvent<T> {
    /// The event of putting `object` under `key`.
    pub fn new_put(key: String, object: T) -> (r: Self)
        ensures
            r == WatchEvent::Put(PutEvent { key, object }),
    {
        WatchEvent::Put(PutEvent { key, object })
    }

    /// The event of deleting `key`.
    pub fn new_delete(key: String) -> (r: Self)
        ensures
            r == WatchEvent::<T>::Delete(DeleteEvent { key }),
    {
        WatchEvent::Delete(DeleteEvent { key })
    }
}

} // verus!
