//! A map keyed by strings, kept as a vector of entries in insertion order.

use vstd::prelude::*;
use crate::text::str_eq;

verus! {

/// A map from string keys to values, kept as entries in the order in which
/// their keys were first inserted. A key finds its first entry; the maps
/// built by this crate never repeat a key (see [`KeyedMap::wf`]).
#[derive(Clone, Debug, PartialEq)]
pub struct KeyedMap<V> {
    entries: Vec<(String, V)>,
}

/// Whether the keys of `e` are pairwise distinct.
pub open spec fn distinct_keys<V>(e: Seq<(String, V)>) -> bool {
    forall|i: int, j: int| 0 <= i < e.len() && 0 <= j < e.len() && i != j ==> e[i].0@ != e[j].0@
}

/// Whether `k` is the key of some entry of `e`.
pub open spec fn has_key<V>(e: Seq<(String, V)>, k: Seq<char>) -> bool {
    exists|i: int| 0 <= i < e.len() && e[i].0@ == k
}

/// Whether `i` is the position of the first entry with key `k` in `e`.
pub open spec fn is_first<V>(e: Seq<(String, V)>, k: Seq<char>, i: int) -> bool {
    0 <= i < e.len() && e[i].0@ == k && forall|j: int| 0 <= j < i ==> e[j].0@ != k
}

/// The position of the first entry with key `k` in `e`.
pub open spec fn key_index<V>(e: Seq<(String, V)>, k: Seq<char>) -> int {
    choose|i: int| is_first(e, k, i)
}

/// The map that a sequence of entries stands for: each key maps to the
/// value of its first entry.
pub open spec fn entries_map<V>(e: Seq<(String, V)>) -> Map<Seq<char>, V> {
    Map::new(|k: Seq<char>| has_key(e, k), |k: Seq<char>| e[key_index(e, k)].1)
}

/// The entries after storing `v` under `key`: an entry with that key gets
/// the new value in place, a new key is appended.
pub open spec fn entries_insert<V>(e: Seq<(String, V)>, key: String, v: V) -> Seq<(String, V)> {
    if has_key(e, key@) {
        e.update(key_index(e, key@), (key, v))
    } else {
        e.push((key, v))
    }
}

/// The entries after removing the first entry with key `k`, if any.
pub open spec fn entries_remove<V>(e: Seq<(String, V)>, k: Seq<char>) -> Seq<(String, V)> {
    if has_key(e, k) {
        e.remove(key_index(e, k))
    } else {
        e
    }
}

/// A key that occurs has a first entry.
pub proof fn lemma_first_exists<V>(e: Seq<(String, V)>, k: Seq<char>)
    requires
        has_key(e, k),
    ensures
        is_first(e, k, key_index(e, k)),
    decreases e.len(),
{
    if e[0].0@ == k {
        assert(is_first(e, k, 0));
    } else {
        let d = e.drop_first();
        let w = choose|i: int| 0 <= i < e.len() && e[i].0@ == k;
        assert(d[w - 1] == e[w]);
        lemma_first_exists(d, k);
        let i = key_index(d, k);
        assert forall|j: int| 0 <= j < i + 1 implies e[j].0@ != k by {
            if j > 0 {
                assert(e[j] == d[j - 1]);
            }
        }
        assert(is_first(e, k, i + 1));
    }
}

/// There is only one first entry of a key.
pub proof fn lemma_first_unique<V>(e: Seq<(String, V)>, k: Seq<char>, i: int)
    requires
        is_first(e, k, i),
    ensures
        key_index(e, k) == i,
{
    assert(has_key(e, k));
    lemma_first_exists(e, k);
    let j = key_index(e, k);
    if j < i {
        assert(e[j].0@ != k);
    } else if i < j {
        assert(e[i].0@ != k);
    }
}

/// With distinct keys, the entry at `i` is the one that its key finds.
pub proof fn lemma_key_index<V>(e: Seq<(String, V)>, i: int)
    requires
        distinct_keys(e),
        0 <= i < e.len(),
    ensures
        has_key(e, e[i].0@),
        key_index(e, e[i].0@) == i,
        entries_map(e).contains_key(e[i].0@),
        entries_map(e)[e[i].0@] == e[i].1,
{
    assert(has_key(e, e[i].0@));
    assert(is_first(e, e[i].0@, i)) by {
        assert forall|j: int| 0 <= j < i implies e[j].0@ != e[i].0@ by {}
    }
    lemma_first_unique(e, e[i].0@, i);
}

/// With distinct keys, the map of a sequence of entries is the map of all but
/// the last, with the last entry inserted.
pub proof fn lemma_entries_map_push<V>(e: Seq<(String, V)>)
    requires
        distinct_keys(e),
        e.len() > 0,
    ensures
        entries_map(e) == entries_map(e.drop_last()).insert(e.last().0@, e.last().1),
{
    let d = e.drop_last();
    let n = e.len() - 1;
    assert(distinct_keys(d)) by {
        assert forall|a: int, b: int| 0 <= a < d.len() && 0 <= b < d.len() && a != b implies d[a].0@
            != d[b].0@ by {
            assert(d[a] == e[a]);
            assert(d[b] == e[b]);
        }
    }
    lemma_key_index(e, n);
    assert forall|k: Seq<char>| #[trigger]
        entries_map(e).contains_key(k) == entries_map(d).insert(e.last().0@, e.last().1).contains_key(
            k,
        ) by {
        if has_key(d, k) {
            let j = choose|j: int| 0 <= j < d.len() && d[j].0@ == k;
            assert(e[j] == d[j]);
            assert(has_key(e, k));
        }
        if has_key(e, k) && k != e.last().0@ {
            let j = choose|j: int| 0 <= j < e.len() && e[j].0@ == k;
            assert(j != n);
            assert(d[j] == e[j]);
            assert(has_key(d, k));
        }
    }
    assert forall|k: Seq<char>| #[trigger] entries_map(e).contains_key(k) implies entries_map(e)[k]
        == entries_map(d).insert(e.last().0@, e.last().1)[k] by {
        lemma_first_exists(e, k);
        let j = key_index(e, k);
        lemma_key_index(e, j);
        if k != e.last().0@ {
            assert(j != n);
            assert(d[j] == e[j]);
            lemma_key_index(d, j);
        }
    }
    assert(entries_map(e) =~= entries_map(d).insert(e.last().0@, e.last().1));
}

impl<V> KeyedMap<V> {
    /// The keys of the entries are distinct.
    pub closed spec fn wf(self) -> bool {
        distinct_keys(self.entries@)
    }

    /// The entries, in order.
    pub closed spec fn entries_view(self) -> Seq<(String, V)> {
        self.entries@
    }

    /// The map that the entries stand for.
    pub open spec fn map_view(self) -> Map<Seq<char>, V> {
        entries_map(self.entries_view())
    }

    /// What [`KeyedMap::wf`] says of the entries.
    pub proof fn lemma_wf(self)
        ensures
            self.wf() <==> distinct_keys(self.entries_view()),
    {
    }

    /// An empty map.
    pub fn new() -> (m: Self)
        ensures
            m.wf(),
            m.entries_view() == Seq::<(String, V)>::empty(),
            m.map_view() == Map::<Seq<char>, V>::empty(),
    {
        let m = KeyedMap { entries: Vec::new() };
        assert(m.map_view() =~= Map::<Seq<char>, V>::empty());
        m
    }

    /// Number of entries.
    pub fn len(&self) -> (n: usize)
        ensures
            n == self.entries_view().len(),
    {
        self.entries.len()
    }

    /// The key of the entry at position `i`.
    pub fn key_at(&self, i: usize) -> (k: &String)
        requires
            i < self.entries_view().len(),
        ensures
            *k == self.entries_view()[i as int].0,
    {
        &self.entries[i].0
    }

    /// The value of the entry at position `i`.
    pub fn value_at(&self, i: usize) -> (v: &V)
        requires
            i < self.entries_view().len(),
        ensures
            *v == self.entries_view()[i as int].1,
    {
        &self.entries[i].1
    }

    /// The position of the first entry with the given key, if there is one.
    pub fn find(&self, key: &str) -> (r: Option<usize>)
        ensures
            r is Some <==> has_key(self.entries_view(), key@),
            r is Some ==> is_first(self.entries_view(), key@, r->0 as int) && key_index(
                self.entries_view(),
                key@,
            ) == r->0,
    {
        let mut i: usize = 0;
        while i < self.entries.len()
            invariant
                i <= self.entries@.len(),
                forall|j: int| 0 <= j < i ==> self.entries@[j].0@ != key@,
            decreases self.entries.len() - i,
        {
            if str_eq(self.entries[i].0.as_str(), key) {
                proof {
                    lemma_first_unique(self.entries@, key@, i as int);
                }
                return Some(i);
            }
            i = i + 1;
        }
        None
    }

    /// Whether some entry has the given key.
    pub fn contains_key(&self, key: &str) -> (r: bool)
        ensures
            r == self.map_view().contains_key(key@),
            r == has_key(self.entries_view(), key@),
    {
        self.find(key).is_some()
    }

    /// The value stored under `key`.
    pub fn get(&self, key: &str) -> (r: Option<&V>)
        ensures
            r is Some <==> self.map_view().contains_key(key@),
            r is Some ==> *r->0 == self.map_view()[key@],
    {
        match self.find(key) {
            Some(i) => Some(&self.entries[i].1),
            None => None,
        }
    }

    /// Replaces the value of the entry at position `i`, keeping its key and
    /// place; returns the value it held.
    pub fn replace_value_at(&mut self, i: usize, value: V) -> (prev: V)
        requires
            i < old(self).entries_view().len(),
        ensures
            prev == old(self).entries_view()[i as int].1,
            final(self).entries_view() == old(self).entries_view().update(
                i as int,
                (old(self).entries_view()[i as int].0, value),
            ),
            old(self).wf() ==> final(self).wf(),
    {
        let (key, prev) = self.entries.remove(i);
        self.entries.insert(i, (key, value));
        assert(self.entries@ =~= old(self).entries@.update(i as int, (old(self).entries@[i as int].0, value)));
        proof {
            if distinct_keys(old(self).entries@) {
                assert forall|a: int, b: int|
                    0 <= a < self.entries@.len() && 0 <= b < self.entries@.len() && a != b implies self.entries@[a].0@
                    != self.entries@[b].0@ by {
                    assert(self.entries@[a].0 == old(self).entries@[a].0);
                    assert(self.entries@[b].0 == old(self).entries@[b].0);
                }
            }
        }
        prev
    }

    /// Stores `value` under `key`. An existing entry keeps its position and
    /// gets the new value; a new key is appended. Returns the previous value.
    pub fn insert(&mut self, key: String, value: V) -> (prev: Option<V>)
        ensures
            final(self).map_view() == old(self).map_view().insert(key@, value),
            old(self).wf() ==> final(self).wf(),
            prev is Some <==> old(self).map_view().contains_key(key@),
            prev is Some ==> prev->0 == old(self).map_view()[key@],
            has_key(old(self).entries_view(), key@) ==> final(self).entries_view()
                == old(self).entries_view().update(
                key_index(old(self).entries_view(), key@),
                (key, value),
            ),
            !has_key(old(self).entries_view(), key@) ==> final(self).entries_view()
                == old(self).entries_view().push((key, value)),
            final(self).entries_view() == entries_insert(old(self).entries_view(), key, value),
    {
        let ghost old_e = self.entries@;
        let ghost k = key@;
        match self.find(key.as_str()) {
            Some(i) => {
                let old_entry = self.entries.remove(i);
                self.entries.insert(i, (key, value));
                let ghost new_e = old_e.update(i as int, (key, value));
                assert(self.entries@ =~= new_e);
                proof {
                    assert forall|j: int| 0 <= j < old_e.len() implies #[trigger] new_e[j].0@
                        == old_e[j].0@ by {}
                    assert forall|kk: Seq<char>| #[trigger]
                        entries_map(new_e).contains_key(kk) == entries_map(old_e).insert(
                            k,
                            value,
                        ).contains_key(kk) by {
                        if has_key(old_e, kk) {
                            let j = choose|j: int| 0 <= j < old_e.len() && old_e[j].0@ == kk;
                            assert(new_e[j].0@ == kk);
                        }
                        if has_key(new_e, kk) {
                            let j = choose|j: int| 0 <= j < new_e.len() && new_e[j].0@ == kk;
                            assert(old_e[j].0@ == kk);
                        }
                        if kk == k {
                            assert(new_e[i as int].0@ == kk);
                        }
                    }
                    assert forall|kk: Seq<char>| #[trigger]
                        entries_map(new_e).contains_key(kk) implies entries_map(new_e)[kk]
                        == entries_map(old_e).insert(k, value)[kk] by {
                        lemma_first_exists(new_e, kk);
                        let j = key_index(new_e, kk);
                        assert forall|j2: int| 0 <= j2 < j implies old_e[j2].0@ != kk by {
                            assert(new_e[j2].0@ == old_e[j2].0@);
                        }
                        assert(new_e[j].0@ == old_e[j].0@);
                        assert(is_first(old_e, kk, j));
                        lemma_first_unique(old_e, kk, j);
                        if kk == k {
                            assert(j == i);
                        } else {
                            assert(j != i);
                        }
                    }
                    assert(entries_map(new_e) =~= entries_map(old_e).insert(k, value));
                    if distinct_keys(old_e) {
                        assert(distinct_keys(new_e));
                    }
                }
                Some(old_entry.1)
            },
            None => {
                self.entries.push((key, value));
                let ghost new_e = old_e.push((key, value));
                assert(self.entries@ == new_e);
                proof {
                    let n = old_e.len() as int;
                    assert(is_first(new_e, k, n));
                    lemma_first_unique(new_e, k, n);
                    assert forall|kk: Seq<char>| #[trigger]
                        entries_map(new_e).contains_key(kk) == entries_map(old_e).insert(
                            k,
                            value,
                        ).contains_key(kk) by {
                        if has_key(old_e, kk) {
                            let j = choose|j: int| 0 <= j < old_e.len() && old_e[j].0@ == kk;
                            assert(new_e[j] == old_e[j]);
                        }
                        if has_key(new_e, kk) && kk != k {
                            let j = choose|j: int| 0 <= j < new_e.len() && new_e[j].0@ == kk;
                            assert(j < n);
                            assert(old_e[j].0@ == kk);
                        }
                    }
                    assert forall|kk: Seq<char>| #[trigger]
                        entries_map(new_e).contains_key(kk) implies entries_map(new_e)[kk]
                        == entries_map(old_e).insert(k, value)[kk] by {
                        if kk != k {
                            lemma_first_exists(old_e, kk);
                            let j = key_index(old_e, kk);
                            assert(is_first(new_e, kk, j));
                            lemma_first_unique(new_e, kk, j);
                        }
                    }
                    assert(entries_map(new_e) =~= entries_map(old_e).insert(k, value));
                    if distinct_keys(old_e) {
                        assert forall|a: int, b: int|
                            0 <= a < new_e.len() && 0 <= b < new_e.len() && a != b implies new_e[a].0@
                            != new_e[b].0@ by {
                            if a == n {
                                assert(old_e[b].0@ != k);
                            } else if b == n {
                                assert(old_e[a].0@ != k);
                            }
                        }
                    }
                }
                None
            },
        }
    }

    /// Removes the first entry with the given key, keeping the order of the
    /// others. Returns its value.
    pub fn remove(&mut self, key: &str) -> (prev: Option<V>)
        ensures
            old(self).wf() ==> final(self).wf() && final(self).map_view() == old(
                self,
            ).map_view().remove(key@),
            prev is Some <==> old(self).map_view().contains_key(key@),
            prev is Some ==> prev->0 == old(self).map_view()[key@],
            has_key(old(self).entries_view(), key@) ==> final(self).entries_view()
                == old(self).entries_view().remove(key_index(old(self).entries_view(), key@)),
            !has_key(old(self).entries_view(), key@) ==> final(self).entries_view()
                == old(self).entries_view(),
            final(self).entries_view() == entries_remove(old(self).entries_view(), key@),
    {
        let ghost old_e = self.entries@;
        match self.find(key) {
            Some(i) => {
                let entry = self.entries.remove(i);
                let ghost new_e = old_e.remove(i as int);
                assert(self.entries@ == new_e);
                proof {
                    if distinct_keys(old_e) {
                        lemma_key_index(old_e, i as int);
                        assert(distinct_keys(new_e)) by {
                            assert forall|a: int, b: int|
                                0 <= a < new_e.len() && 0 <= b < new_e.len() && a != b implies new_e[a].0@
                                != new_e[b].0@ by {
                                let a2 = if a < i { a } else { a + 1 };
                                let b2 = if b < i { b } else { b + 1 };
                                assert(new_e[a] == old_e[a2]);
                                assert(new_e[b] == old_e[b2]);
                            }
                        }
                        assert forall|kk: Seq<char>| #[trigger]
                            entries_map(new_e).contains_key(kk) == entries_map(old_e).remove(
                                key@,
                            ).contains_key(kk) by {
                            if has_key(old_e, kk) && kk != key@ {
                                let j = choose|j: int| 0 <= j < old_e.len() && old_e[j].0@ == kk;
                                assert(j != i);
                                let j2 = if j < i { j } else { j - 1 };
                                assert(new_e[j2] == old_e[j]);
                            }
                            if has_key(new_e, kk) {
                                let j = choose|j: int| 0 <= j < new_e.len() && new_e[j].0@ == kk;
                                let j2 = if j < i { j } else { j + 1 };
                                assert(new_e[j] == old_e[j2]);
                                assert(j2 != i);
                            }
                        }
                        assert forall|kk: Seq<char>| #[trigger]
                            entries_map(new_e).contains_key(kk) implies entries_map(new_e)[kk]
                            == entries_map(old_e).remove(key@)[kk] by {
                            lemma_first_exists(new_e, kk);
                            let j = key_index(new_e, kk);
                            lemma_key_index(new_e, j);
                            let j2 = if j < i { j } else { j + 1 };
                            assert(new_e[j] == old_e[j2]);
                            lemma_key_index(old_e, j2);
                        }
                        assert(entries_map(new_e) =~= entries_map(old_e).remove(key@));
                    }
                }
                Some(entry.1)
            },
            None => {
                assert(entries_map(old_e) =~= entries_map(old_e).remove(key@));
                None
            },
        }
    }
}

impl KeyedMap<String> {
    /// A copy of a map of strings, entry by entry.
    pub fn copy(&self) -> (r: KeyedMap<String>)
        ensures
            r.entries_view() == self.entries_view(),
            r.wf() == self.wf(),
    {
        let mut entries: Vec<(String, String)> = Vec::new();
        let mut i: usize = 0;
        while i < self.entries.len()
            invariant
                i <= self.entries@.len(),
                entries@ == self.entries@.take(i as int),
            decreases self.entries.len() - i,
        {
            entries.push((self.entries[i].0.clone(), self.entries[i].1.clone()));
            i = i + 1;
            assert(entries@ =~= self.entries@.take(i as int));
        }
        assert(self.entries@.take(i as int) =~= self.entries@);
        KeyedMap { entries }
    }
}

impl<V> KeyedMap<V> {
    /// The entries, in order, taking the map apart.
    pub fn into_entries(self) -> (r: Vec<(String, V)>)
        ensures
            r@ == self.entries_view(),
    {
        self.entries
    }
}

} // verus!
