//! Local caches of API objects, keyed by their paths and kept in step with
//! the watch events of the API server.

use vstd::prelude::*;
use crate::keyed::KeyedMap;
use crate::models::etcd::WatchEvent;
use crate::objects::Object;

verus! {

/// Objects keyed by their path in the API.
#[derive(Debug)]
pub struct Store<T> {
    objects: KeyedMap<T>,
}

/// What changed in a store.
#[derive(Clone, Debug, PartialEq)]
pub enum ReflectorNotification<T> {
    /// A new object.
    Add(T),
    /// An object replaced: old value, new value.
    Update(T, T),
    /// An object removed.
    Delete(T),
}

impl<T> View for Store<T> {
    type V = Map<Seq<char>, T>;

    closed spec fn view(&self) -> Map<Seq<char>, T> {
        self.objects.map_view()
    }
}

impl<T> Store<T> {
    /// Each key occurs once.
    pub closed spec fn wf(self) -> bool {
        self.objects.wf()
    }

    /// The objects in the order in which their keys first came.
    pub closed spec fn values(self) -> Seq<T> {
        self.objects.entries_view().map_values(|e: (String, T)| e.1)
    }

    /// The keys and objects, in the order in which the keys first came.
    pub closed spec fn entries(self) -> Seq<(String, T)> {
        self.objects.entries_view()
    }

    /// The objects are the objects of the entries.
    pub proof fn lemma_entries(self)
        ensures
            self.values() == self.entries().map_values(|e: (String, T)| e.1),
            self.values().len() == self.entries().len(),
    {
    }

    /// The key of the entry at position `i`.
    pub fn key_at(&self, i: usize) -> (k: &String)
        requires
            i < self.entries().len(),
        ensures
            *k == self.entries()[i as int].0,
    {
        self.objects.key_at(i)
    }

    /// Replaces the object at position `i`, keeping its key and place;
    /// returns the object it held.
    pub fn replace_at(&mut self, i: usize, object: T) -> (prev: T)
        requires
            i < old(self).entries().len(),
        ensures
            prev == old(self).entries()[i as int].1,
            final(self).entries() == old(self).entries().update(i as int, (old(self).entries()[i as int].0, object)),
            old(self).wf() ==> final(self).wf(),
    {
        self.objects.replace_value_at(i, object)
    }

    /// An empty store.
    pub fn new() -> (s: Self)
        ensures
            s.wf(),
            s@ == Map::<Seq<char>, T>::empty(),
            s.values() == Seq::<T>::empty(),
    {
        let s = Store { objects: KeyedMap::new() };
        assert(s.values() =~= Seq::<T>::empty());
        s
    }

    /// The number of objects.
    pub fn len(&self) -> (n: usize)
        ensures
            n == self.values().len(),
            n == self.entries().len(),
    {
        self.objects.len()
    }

    /// The object at position `i` of [`Store::values`].
    pub fn value_at(&self, i: usize) -> (v: &T)
        requires
            i < self.values().len(),
        ensures
            *v == self.values()[i as int],
    {
        self.objects.value_at(i)
    }

    /// The object under `key`.
    pub fn get(&self, key: &str) -> (r: Option<&T>)
        ensures
            r is Some <==> self@.contains_key(key@),
            r is Some ==> *r->0 == self@[key@],
    {
        self.objects.get(key)
    }

    /// Stores `object` under `key`; returns the object it replaces.
    pub fn insert(&mut self, key: String, object: T) -> (prev: Option<T>)
        requires
            old(self).wf(),
        ensures
            final(self).wf(),
            final(self)@ == old(self)@.insert(key@, object),
            prev is Some <==> old(self)@.contains_key(key@),
            prev is Some ==> prev->0 == old(self)@[key@],
    {
        self.objects.insert(key, object)
    }

    /// Removes the object under `key` and returns it.
    pub fn remove(&mut self, key: &str) -> (prev: Option<T>)
        requires
            old(self).wf(),
        ensures
            final(self).wf(),
            final(self)@ == old(self)@.remove(key@),
            prev is Some <==> old(self)@.contains_key(key@),
            prev is Some ==> prev->0 == old(self)@[key@],
    {
        self.objects.remove(key)
    }
}

impl<T: Clone> Store<T> {
    /// Applies a watch event: a put stores the object under its key and tells
    /// of an addition, or of an update with the object it replaces; a delete
    /// removes the key and tells of the deletion, or of nothing when the key
    /// was not there.
    pub fn apply(&mut self, event: WatchEvent<T>) -> (n: Option<ReflectorNotification<T>>)
        requires
            old(self).wf(),
        ensures
            final(self).wf(),
            final(self)@ == after_event(old(self)@, event),
            match event {
                WatchEvent::Put(e) => {
                    &&& final(self)@ == old(self)@.insert(e.key@, e.object)
                    &&& match n {
                        Some(ReflectorNotification::Add(new)) => !old(self)@.contains_key(e.key@) && cloned(
                            e.object,
                            new,
                        ),
                        Some(ReflectorNotification::Update(prev, new)) => old(self)@.contains_key(e.key@)
                            && prev == old(self)@[e.key@] && cloned(e.object, new),
                        _ => false,
                    }
                },
                WatchEvent::Delete(e) => {
                    &&& final(self)@ == old(self)@.remove(e.key@)
                    &&& old(self)@.contains_key(e.key@) ==> n == Some(
                        ReflectorNotification::Delete(old(self)@[e.key@]),
                    )
                    &&& !old(self)@.contains_key(e.key@) ==> n is None
                },
            },
    {
        match event {
            WatchEvent::Put(e) => {
                let copy = e.object.clone();
                match self.insert(e.key, e.object) {
                    Some(prev) => Some(ReflectorNotification::Update(prev, copy)),
                    None => Some(ReflectorNotification::Add(copy)),
                }
            },
            WatchEvent::Delete(e) => {
                match self.remove(e.key.as_str()) {
                    Some(prev) => Some(ReflectorNotification::Delete(prev)),
                    None => None,
                }
            },
        }
    }
}

impl<T: Object> Store<T> {
    /// Stores each listed object under its path, in order.
    pub fn fill(&mut self, objects: Vec<T>)
        requires
            old(self).wf(),
        ensures
            final(self).wf(),
            final(self)@ == fill_map(old(self)@, objects@),
    {
        let mut rest = objects;
        let ghost all = rest@;
        let ghost mut i: int = 0;
        assert(all.skip(0) =~= all);
        assert(all.take(0) =~= Seq::<T>::empty());
        while rest.len() > 0
            invariant
                0 <= i <= all.len(),
                rest@ == all.skip(i),
                self.wf(),
                self@ == fill_map(old(self)@, all.take(i)),
            decreases rest.len(),
        {
            let object = rest.remove(0);
            proof {
                assert(object == all[i]);
                assert(rest@ =~= all.skip(i + 1));
                assert(all.take(i + 1).drop_last() =~= all.take(i));
                assert(all.take(i + 1).last() == all[i]);
            }
            let key = object.uri();
            self.insert(key, object);
            proof {
                i = i + 1;
            }
        }
        assert(all.take(i) =~= all);
    }
}

/// The map after storing each object under its path, in order.
pub open spec fn fill_map<T: Object>(m: Map<Seq<char>, T>, objects: Seq<T>) -> Map<Seq<char>, T>
    decreases objects.len(),
{
    if objects.len() == 0 {
        m
    } else {
        fill_map(m, objects.drop_last()).insert(objects.last().uri_view(), objects.last())
    }
}

/// The objects of a store after a watch event: a put stores the object
/// under its key, a delete removes the key.
pub open spec fn after_event<T>(m: Map<Seq<char>, T>, event: WatchEvent<T>) -> Map<Seq<char>, T> {
    match event {
        WatchEvent::Put(e) => m.insert(e.key@, e.object),
        WatchEvent::Delete(e) => m.remove(e.key@),
    }
}

/// Law: after a put, the store holds the object under its key.
pub proof fn lemma_put_then_get<T>(m: Map<Seq<char>, T>, key: String, object: T)
    ensures
        ({
            let after = after_event(m, WatchEvent::Put(crate::models::etcd::PutEvent { key, object }));
            after.contains_key(key@) && after[key@] == object
        }),
{
}

/// Law: deleting a key that a put added gives back the store as it was
/// before the put.
pub proof fn lemma_delete_undoes_put<T>(m: Map<Seq<char>, T>, key: String, same_key: String, object: T)
    requires
        !m.contains_key(key@),
        same_key@ == key@,
    ensures
        after_event(
            after_event(m, WatchEvent::Put(crate::models::etcd::PutEvent { key, object })),
            WatchEvent::Delete(crate::models::etcd::DeleteEvent { key: same_key }),
        ) == m,
{
    assert(m.insert(key@, object).remove(key@) =~= m);
}

} // verus!
