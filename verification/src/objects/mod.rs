//! The API objects of the cluster and their common parts.

use vstd::prelude::*;
use crate::keyed::{KeyedMap, distinct_keys, entries_map, lemma_entries_map_push};
use crate::text::{
    chars_of, has_char, join, lemma_split_join, push_char, push_str, split, split_chars,
    string_of, to_lowercase, lowercase, views,
};

pub mod binding;
pub mod describe;
pub mod function;
pub mod gpu_job;
pub mod hpa;
pub mod ingress;
pub mod metrics;
pub mod node;
pub mod object_reference;
pub mod pod;
pub mod replica_set;
pub mod service;
pub mod workflow;

verus! {

/// Labels: a map of string keys and values used to organize and select objects.
/// Entries keep the order in which their keys were first inserted.
#[derive(Clone, Debug, PartialEq)]
pub struct Labels(KeyedMap<String>);

/// The text of one label, `key=value`.
pub open spec fn pair_text(p: (Seq<char>, Seq<char>)) -> Seq<char> {
    p.0 + seq!['='] + p.1
}

/// The text of a list of labels: `key=value` entries joined with `,`.
pub open spec fn labels_text(pairs: Seq<(Seq<char>, Seq<char>)>) -> Seq<char> {
    join(pairs.map_values(|p: (Seq<char>, Seq<char>)| pair_text(p)), seq![','])
}

/// The map of a list of labels, later entries overriding earlier ones.
pub open spec fn pairs_map(pairs: Seq<(Seq<char>, Seq<char>)>) -> Map<Seq<char>, Seq<char>>
    decreases pairs.len(),
{
    if pairs.len() == 0 {
        Map::empty()
    } else {
        pairs_map(pairs.drop_last()).insert(pairs.last().0, pairs.last().1)
    }
}

/// The labels that a list of `key=value` pieces stands for; None when some
/// piece has no `=`. Characters after a second `=` in a piece are ignored.
pub open spec fn parse_pieces(pieces: Seq<Seq<char>>) -> Option<Map<Seq<char>, Seq<char>>>
    decreases pieces.len(),
{
    if pieces.len() == 0 {
        Some(Map::empty())
    } else {
        match parse_pieces(pieces.drop_last()) {
            None => None,
            Some(m) => {
                let parts = split(pieces.last(), '=');
                if parts.len() < 2 {
                    None
                } else {
                    Some(m.insert(parts[0], parts[1]))
                }
            },
        }
    }
}

/// The labels that a text of the form `key1=value1,key2=value2` stands for.
pub open spec fn parse_labels(s: Seq<char>) -> Option<Map<Seq<char>, Seq<char>>> {
    parse_pieces(split(s, ','))
}

/// The key and value views of a list of string entries.
pub open spec fn entry_pairs(e: Seq<(String, String)>) -> Seq<(Seq<char>, Seq<char>)> {
    e.map_values(|x: (String, String)| (x.0@, x.1@))
}

/// With distinct keys, the label map of the entries is the map they stand for.
proof fn lemma_pairs_map(e: Seq<(String, String)>)
    requires
        distinct_keys(e),
    ensures
        pairs_map(entry_pairs(e)) == entries_map(e).map_values(|v: String| v@),
    decreases e.len(),
{
    if e.len() == 0 {
        assert(entries_map(e).map_values(|v: String| v@) =~= Map::<Seq<char>, Seq<char>>::empty());
    } else {
        let d = e.drop_last();
        assert(distinct_keys(d)) by {
            assert forall|a: int, b: int| 0 <= a < d.len() && 0 <= b < d.len() && a != b implies d[a].0@
                != d[b].0@ by {
                assert(d[a] == e[a]);
                assert(d[b] == e[b]);
            }
        }
        lemma_pairs_map(d);
        lemma_entries_map_push(e);
        assert(entry_pairs(e).drop_last() =~= entry_pairs(d));
        assert(entries_map(e).map_values(|v: String| v@) =~= entries_map(d).map_values(
            |v: String| v@,
        ).insert(e.last().0@, e.last().1@));
    }
}

/// Whether every label of `sel` is also a label of `l` with the same value.
pub open spec fn labels_match(l: Labels, sel: Labels) -> bool {
    forall|i: int|
        0 <= i < sel.pairs().len() ==> #[trigger] l@.contains_key(sel.pairs()[i].0)
            && l@[sel.pairs()[i].0] == sel.pairs()[i].1
}

/// Why a text could not be read as labels.
#[derive(Clone, Copy, Debug, PartialEq, Eq, Structural)]
pub enum LabelsError {
    /// A `key=value` piece has no `=`.
    MissingValue,
}

impl View for Labels {
    type V = Map<Seq<char>, Seq<char>>;

    closed spec fn view(&self) -> Map<Seq<char>, Seq<char>> {
        self.0.map_view().map_values(|v: String| v@)
    }
}

impl Labels {
    /// The entries as key and value texts, in order.
    pub closed spec fn pairs(self) -> Seq<(Seq<char>, Seq<char>)> {
        entry_pairs(self.0.entries_view())
    }

    /// The keys of the entries are distinct.
    pub closed spec fn well_formed(self) -> bool {
        self.0.wf()
    }

    /// The labels map what their entries say, later entries overriding.
    pub proof fn lemma_view(self)
        requires
            self.well_formed(),
        ensures
            self@ == pairs_map(self.pairs()),
            forall|i: int, j: int|
                0 <= i < self.pairs().len() && 0 <= j < self.pairs().len() && i != j
                    ==> self.pairs()[i].0 != self.pairs()[j].0,
    {
        self.0.lemma_wf();
        lemma_pairs_map(self.0.entries_view());
        let e = self.0.entries_view();
        assert forall|i: int, j: int|
            0 <= i < self.pairs().len() && 0 <= j < self.pairs().len() && i != j implies self.pairs()[i].0
            != self.pairs()[j].0 by {
            assert(self.pairs()[i].0 == e[i].0@);
            assert(self.pairs()[j].0 == e[j].0@);
        }
    }

    /// With distinct keys, each entry is what its key maps to.
    proof fn lemma_entry(self, j: int)
        requires
            self.well_formed(),
            0 <= j < self.pairs().len(),
        ensures
            self@.contains_key(self.pairs()[j].0),
            self@[self.pairs()[j].0] == self.pairs()[j].1,
    {
        self.0.lemma_wf();
        let e = self.0.entries_view();
        crate::keyed::lemma_key_index(e, j);
        assert(self.pairs()[j] == (e[j].0@, e[j].1@));
    }

    /// A key of the labels is the key of one of their entries.
    proof fn lemma_key_entry(self, k: Seq<char>) -> (j: int)
        requires
            self.well_formed(),
            self@.contains_key(k),
        ensures
            0 <= j < self.pairs().len(),
            self.pairs()[j].0 == k,
            self.pairs()[j].1 == self@[k],
    {
        self.0.lemma_wf();
        let e = self.0.entries_view();
        crate::keyed::lemma_first_exists(e, k);
        let j = crate::keyed::key_index(e, k);
        crate::keyed::lemma_key_index(e, j);
        assert(self.pairs()[j] == (e[j].0@, e[j].1@));
        j
    }

    /// No labels.
    pub fn new() -> (r: Labels)
        ensures
            r@ == Map::<Seq<char>, Seq<char>>::empty(),
            r.pairs() == Seq::<(Seq<char>, Seq<char>)>::empty(),
            r.well_formed(),
    {
        let r = Labels(KeyedMap::new());
        assert(r@ =~= Map::<Seq<char>, Seq<char>>::empty());
        assert(r.pairs() =~= Seq::<(Seq<char>, Seq<char>)>::empty());
        r
    }

    /// The number of labels.
    pub fn len(&self) -> (n: usize)
        ensures
            n == self.pairs().len(),
    {
        self.0.len()
    }

    /// The key of the entry at position `i`.
    pub fn key_at(&self, i: usize) -> (k: String)
        requires
            i < self.pairs().len(),
        ensures
            k@ == self.pairs()[i as int].0,
    {
        self.0.key_at(i).clone()
    }

    /// The value of the entry at position `i`.
    pub fn value_at(&self, i: usize) -> (v: String)
        requires
            i < self.pairs().len(),
        ensures
            v@ == self.pairs()[i as int].1,
    {
        self.0.value_at(i).clone()
    }

    /// Sets the label `key` to `value`. A key already present keeps its place.
    pub fn set(&mut self, key: &str, value: &str)
        ensures
            final(self)@ == old(self)@.insert(key@, value@),
            old(self).well_formed() ==> final(self).well_formed(),
            final(self).pairs().len() == old(self).pairs().len() || final(self).pairs() == old(
                self,
            ).pairs().push((key@, value@)),
            forall|i: int|
                0 <= i < old(self).pairs().len() && old(self).pairs()[i].0 != key@ ==> final(
                self).pairs()[i] == old(self).pairs()[i],
            (forall|i: int|
                0 <= i < old(self).pairs().len() ==> old(self).pairs()[i].0 != key@) ==> final(
            self).pairs() == old(self).pairs().push((key@, value@)),
    {
        let ghost old_e = self.0.entries_view();
        let k = crate::text::to_owned_string(key);
        let v = crate::text::to_owned_string(value);
        self.0.insert(k, v);
        proof {
            assert(self.0.map_view().map_values(|v: String| v@) =~= old(self)@.insert(
                key@,
                value@,
            ));
            let new_e = self.0.entries_view();
            if crate::keyed::has_key(old_e, key@) {
                crate::keyed::lemma_first_exists(old_e, key@);
                assert(entry_pairs(new_e).len() == entry_pairs(old_e).len());
                assert forall|i: int|
                    0 <= i < old(self).pairs().len() && old(self).pairs()[i].0 != key@ implies self.pairs()[i]
                    == old(self).pairs()[i] by {
                    let j = crate::keyed::key_index(old_e, key@);
                    assert(old_e[j].0@ == key@);
                    assert(i != j);
                }
            } else {
                assert(entry_pairs(new_e) =~= entry_pairs(old_e).push((key@, value@)));
            }
            if forall|i: int| 0 <= i < old(self).pairs().len() ==> old(self).pairs()[i].0 != key@ {
                assert(!crate::keyed::has_key(old_e, key@)) by {
                    if crate::keyed::has_key(old_e, key@) {
                        let j = crate::keyed::key_index(old_e, key@);
                        assert(old(self).pairs()[j].0 == key@);
                    }
                }
            }
        }
    }

    /// Sets the label `key` to `value` and gives the labels back for further
    /// insertions. A key already present keeps its place.
    pub fn insert(&mut self, key: &str, value: &str) -> (r: &mut Self)
        ensures
            (*r)@ == old(self)@.insert(key@, value@),
            old(self).well_formed() ==> (*r).well_formed(),
            (forall|i: int|
                0 <= i < old(self).pairs().len() ==> old(self).pairs()[i].0 != key@) ==> (
            *r).pairs() == old(self).pairs().push((key@, value@)),
            *final(self) == *final(r),
    {
        self.set(key, value);
        self
    }

    /// The value of the label `key`.
    pub fn get(&self, key: &str) -> (r: Option<String>)
        ensures
            r is Some <==> self@.contains_key(key@),
            r is Some ==> r->0@ == self@[key@],
    {
        match self.0.get(key) {
            Some(v) => Some(v.clone()),
            None => None,
        }
    }

    /// Whether every label of `labels` is also a label of `self` with the same
    /// value.
    pub fn matches(&self, labels: &Labels) -> (r: bool)
        ensures
            r == labels_match(*self, *labels),
            labels.well_formed() ==> (r == labels@.submap_of(self@)),
    {
        let ghost e = labels.0.entries_view();
        let mut i: usize = 0;
        while i < labels.0.len()
            invariant
                i <= e.len(),
                e == labels.0.entries_view(),
                forall|j: int|
                    0 <= j < i ==> #[trigger] self@.contains_key(labels.pairs()[j].0)
                        && self@[labels.pairs()[j].0] == labels.pairs()[j].1,
            decreases e.len() - i,
        {
            let k = labels.0.key_at(i);
            let v = labels.0.value_at(i);
            assert(labels.pairs()[i as int] == (k@, v@));
            let same = match self.0.get(k.as_str()) {
                Some(v2) => {
                    proof {
                        assert(self@[k@] == v2@);
                    }
                    crate::text::str_eq(v.as_str(), v2.as_str())
                },
                None => false,
            };
            assert(same == (self@.contains_key(k@) && self@[k@] == v@));
            if !same {
                proof {
                    assert(i < labels.pairs().len());
                    assert(!(self@.contains_key(labels.pairs()[i as int].0)
                        && self@[labels.pairs()[i as int].0] == labels.pairs()[i as int].1));
                    if labels.well_formed() {
                        labels.lemma_entry(i as int);
                    }
                }
                return false;
            }
            assert forall|j: int| 0 <= j < i + 1 implies #[trigger] self@.contains_key(labels.pairs()[j].0)
                && self@[labels.pairs()[j].0] == labels.pairs()[j].1 by {
                if j == i {
                    assert(labels.pairs()[j] == (k@, v@));
                }
            }
            i = i + 1;
        }
        proof {
            if labels.well_formed() {
                assert forall|k: Seq<char>| #[trigger] labels@.contains_key(k) implies self@.contains_key(k)
                    && self@[k] == labels@[k] by {
                    let j = labels.lemma_key_entry(k);
                    assert(self@.contains_key(labels.pairs()[j].0));
                }
            }
        }
        true
    }

    /// The labels as `key=value` entries joined with `,`, in entry order;
    /// empty for no labels.
    pub fn to_string(&self) -> (s: String)
        ensures
            s@ == labels_text(self.pairs()),
    {
        let ghost texts = self.pairs().map_values(|p: (Seq<char>, Seq<char>)| pair_text(p));
        let mut s = String::new();
        let mut i: usize = 0;
        while i < self.0.len()
            invariant
                i <= self.pairs().len(),
                texts == self.pairs().map_values(|p: (Seq<char>, Seq<char>)| pair_text(p)),
                s@ == join(texts.take(i as int), seq![',']),
            decreases self.pairs().len() - i,
        {
            let ghost before = s@;
            if i > 0 {
                push_char(&mut s, ',');
            }
            push_str(&mut s, self.0.key_at(i).as_str());
            push_char(&mut s, '=');
            push_str(&mut s, self.0.value_at(i).as_str());
            proof {
                let t = texts.take(i + 1);
                assert(t.drop_last() =~= texts.take(i as int));
                assert(t.last() == pair_text(self.pairs()[i as int]));
                if i > 0 {
                    assert(s@ =~= join(t.drop_last(), seq![',']) + seq![','] + t.last());
                } else {
                    assert(t.len() == 1);
                    assert(s@ =~= t[0]);
                }
            }
            i = i + 1;
        }
        assert(texts.take(i as int) =~= texts);
        s
    }

    /// Parses `key1=value1,key2=value2`. A piece without `=` is an error;
    /// characters after a second `=` in a piece are ignored, and a later
    /// piece overrides an earlier one with the same key.
    pub fn try_from(s: String) -> (r: Result<Labels, LabelsError>)
        ensures
            r is Ok <==> parse_labels(s@) is Some,
            r is Ok ==> r->Ok_0@ == parse_labels(s@)->0 && r->Ok_0.well_formed(),
            r is Err ==> r->Err_0 == LabelsError::MissingValue,
    {
        let chars = chars_of(s.as_str());
        let pieces = split_chars(&chars, ',');
        let ghost ps = views(pieces@);
        let mut labels = Labels::new();
        let mut i: usize = 0;
        assert(ps.take(0) =~= Seq::<Seq<char>>::empty());
        while i < pieces.len()
            invariant
                i <= pieces.len(),
                ps == views(pieces@),
                ps == split(s@, ','),
                parse_pieces(ps.take(i as int)) == Some(labels@),
                labels.well_formed(),
            decreases pieces.len() - i,
        {
            let parts = split_chars(&pieces[i], '=');
            assert(ps.take(i + 1).drop_last() =~= ps.take(i as int));
            assert(ps.take(i + 1).last() == pieces@[i as int]@);
            if parts.len() < 2 {
                proof {
                    lemma_parse_none_prefix(ps, (i + 1) as int);
                }
                return Err(LabelsError::MissingValue);
            }
            let key = string_of(&parts[0]);
            let value = string_of(&parts[1]);
            labels.set(key.as_str(), value.as_str());
            i = i + 1;
        }
        assert(ps.take(i as int) =~= ps);
        Ok(labels)
    }

    /// A copy of the labels.
    pub fn copy(&self) -> (r: Labels)
        ensures
            r@ == self@,
            r.pairs() == self.pairs(),
            r.well_formed() == self.well_formed(),
    {
        Labels(self.0.copy())
    }
}

/// Once a prefix of the pieces fails to parse, so does every longer one.
proof fn lemma_parse_none_prefix(ps: Seq<Seq<char>>, k: int)
    requires
        0 < k <= ps.len(),
        parse_pieces(ps.take(k)) is None,
    ensures
        parse_pieces(ps) is None,
    decreases ps.len() - k,
{
    if k < ps.len() {
        assert(ps.take(k + 1).drop_last() =~= ps.take(k));
        lemma_parse_none_prefix(ps, k + 1);
    } else {
        assert(ps.take(k) =~= ps);
    }
}

/// Parsing the text of a list of labels gives back their map, when no key or
/// value holds `=`.
proof fn lemma_parse_texts(pairs: Seq<(Seq<char>, Seq<char>)>)
    requires
        forall|i: int|
            0 <= i < pairs.len() ==> !has_char(#[trigger] pairs[i].0, '=') && !has_char(
                pairs[i].1,
                '=',
            ),
    ensures
        parse_pieces(pairs.map_values(|p: (Seq<char>, Seq<char>)| pair_text(p))) == Some(
            pairs_map(pairs),
        ),
    decreases pairs.len(),
{
    let texts = pairs.map_values(|p: (Seq<char>, Seq<char>)| pair_text(p));
    if pairs.len() > 0 {
        let d = pairs.drop_last();
        assert forall|i: int| 0 <= i < d.len() implies !has_char(#[trigger] d[i].0, '=') && !has_char(
            d[i].1,
            '=',
        ) by {
            assert(d[i] == pairs[i]);
        }
        lemma_parse_texts(d);
        assert(texts.drop_last() =~= d.map_values(|p: (Seq<char>, Seq<char>)| pair_text(p)));
        let last = pairs.last();
        assert(!has_char(last.0, '=') && !has_char(last.1, '=')) by {
            assert(last == pairs[pairs.len() - 1]);
        }
        let kv = seq![last.0, last.1];
        assert(join(kv, seq!['=']) == join(kv.drop_last(), seq!['=']) + seq!['='] + kv.last());
        assert(kv.drop_last() =~= seq![last.0]);
        assert(join(kv, seq!['=']) =~= pair_text(last));
        assert forall|i: int| 0 <= i < kv.len() implies !has_char(#[trigger] kv[i], '=') by {}
        lemma_split_join(kv, '=');
        assert(texts.last() == pair_text(last));
    } else {
        assert(texts =~= Seq::<Seq<char>>::empty());
    }
}

/// Law: printing labels and parsing the text gives the same labels, when
/// there is at least one label and no key or value holds `,` or `=`.
pub proof fn lemma_labels_text_roundtrip(l: Labels)
    requires
        l.well_formed(),
        l.pairs().len() > 0,
        forall|i: int|
            0 <= i < l.pairs().len() ==> !has_char(#[trigger] l.pairs()[i].0, ',') && !has_char(
                l.pairs()[i].1,
                ',',
            ) && !has_char(l.pairs()[i].0, '=') && !has_char(l.pairs()[i].1, '='),
    ensures
        parse_labels(labels_text(l.pairs())) == Some(l@),
{
    let pairs = l.pairs();
    let texts = pairs.map_values(|p: (Seq<char>, Seq<char>)| pair_text(p));
    assert forall|i: int| 0 <= i < texts.len() implies !has_char(#[trigger] texts[i], ',') by {
        let p = pairs[i];
        assert(texts[i] == p.0 + seq!['='] + p.1);
        if has_char(texts[i], ',') {
            let j = choose|j: int| 0 <= j < texts[i].len() && texts[i][j] == ',';
            if j < p.0.len() {
                assert(p.0[j] == ',');
            } else if j == p.0.len() {
                assert(texts[i][j] == '=');
            } else {
                assert(p.1[j - p.0.len() - 1] == ',');
            }
        }
    }
    lemma_split_join(texts, ',');
    lemma_parse_texts(pairs);
    l.lemma_view();
}

/// Law: every set of labels matches itself.
pub proof fn lemma_matches_reflexive(l: Labels)
    ensures
        l@.submap_of(l@),
{
}

/// Law: matching is transitive: if `a` matches `b` and `b` matches `c`,
/// then `a` matches `c`.
pub proof fn lemma_matches_transitive(a: Labels, b: Labels, c: Labels)
    requires
        b@.submap_of(a@),
        c@.submap_of(b@),
    ensures
        c@.submap_of(a@),
{
    vstd::map_lib::lemma_submap_of_trans(c@, b@, a@);
}

/// Law: every set of labels matches the empty selector.
pub proof fn lemma_matches_empty(a: Labels, empty: Labels)
    requires
        empty@ == Map::<Seq<char>, Seq<char>>::empty(),
    ensures
        empty@.submap_of(a@),
{
}

/// Metadata of every object.
#[derive(Clone, Debug, PartialEq)]
pub struct Metadata {
    /// Unique within a namespace; required when creating resources.
    pub name: String,
    /// A value unique in time and space, set by the server on creation.
    pub uid: Option<u128>,
    /// Labels to organize and select objects.
    pub labels: Labels,
    /// The objects that own this one.
    pub owner_references: Vec<crate::objects::object_reference::ObjectReference>,
}

impl Metadata {
    /// Empty name, no uid, no labels, no owners.
    pub fn default() -> (r: Metadata)
        ensures
            r.name@.len() == 0,
            r.uid is None,
            r.labels@ == Map::<Seq<char>, Seq<char>>::empty(),
            r.owner_references@.len() == 0,
    {
        Metadata { name: String::new(), uid: None, labels: Labels::new(), owner_references: Vec::new() }
    }

    /// Whether two metadata hold the same name, uid, labels and owners.
    pub open spec fn same_as(self, other: Metadata) -> bool {
        &&& self.name == other.name
        &&& self.uid == other.uid
        &&& self.labels@ == other.labels@
        &&& self.labels.pairs() == other.labels.pairs()
        &&& self.owner_references@ == other.owner_references@
    }

    /// A copy of the metadata.
    pub fn copy(&self) -> (r: Metadata)
        ensures
            r.same_as(*self),
    {
        Metadata {
            name: self.name.clone(),
            uid: self.uid,
            labels: self.labels.copy(),
            owner_references: crate::copy::copy_vec(&self.owner_references),
        }
    }
}

/// The path of an object in the API: `/api/v1/<plural>/<name>`.
pub open spec fn object_uri(plural: Seq<char>, name: Seq<char>) -> Seq<char> {
    seq!['/', 'a', 'p', 'i', '/', 'v', '1', '/'] + plural + seq!['/'] + name
}

/// Builds the path of an object in the API.
pub fn build_uri(plural: &str, name: &str) -> (r: String)
    ensures
        r@ == object_uri(plural@, name@),
{
    proof {
        reveal_strlit("/api/v1/");
    }
    let mut r = crate::text::to_owned_string("/api/v1/");
    push_str(&mut r, plural);
    push_char(&mut r, '/');
    push_str(&mut r, name);
    assert("/api/v1/"@ =~= seq!['/', 'a', 'p', 'i', '/', 'v', '1', '/']);
    assert(r@ =~= object_uri(plural@, name@));
    r
}

/// An object of the API: it has a kind, a name and a path.
pub trait Object {
    /// The kind of the object.
    spec fn kind_view(&self) -> Seq<char>;

    /// The name of the object.
    spec fn name_view(&self) -> Seq<char>;

    /// The path of the object in the API.
    spec fn uri_view(&self) -> Seq<char>;

    /// The kind of the object.
    fn kind(&self) -> (k: String)
        ensures
            k@ == self.kind_view(),
    ;

    /// The name of the object.
    fn name(&self) -> (n: String)
        ensures
            n@ == self.name_view(),
    ;

    /// The path of the object in the API.
    fn uri(&self) -> (u: String)
        ensures
            u@ == self.uri_view(),
    ;
}

impl Object for pod::Pod {
    open spec fn kind_view(&self) -> Seq<char> {
        seq!['P', 'o', 'd']
    }

    open spec fn name_view(&self) -> Seq<char> {
        self.metadata.name@
    }

    open spec fn uri_view(&self) -> Seq<char> {
        object_uri(seq!['p', 'o', 'd', 's'], self.metadata.name@)
    }

    fn kind(&self) -> (k: String) {
        proof {
            reveal_strlit("Pod");
        }
        let k = crate::text::to_owned_string("Pod");
        assert(k@ =~= seq!['P', 'o', 'd']);
        k
    }

    fn name(&self) -> (n: String) {
        self.metadata.name.clone()
    }

    fn uri(&self) -> (u: String) {
        proof {
            reveal_strlit("pods");
        }
        let u = build_uri("pods", self.metadata.name.as_str());
        assert("pods"@ =~= seq!['p', 'o', 'd', 's']);
        u
    }
}

impl Object for binding::Binding {
    open spec fn kind_view(&self) -> Seq<char> {
        seq!['B', 'i', 'n', 'd', 'i', 'n', 'g']
    }

    open spec fn name_view(&self) -> Seq<char> {
        self.metadata.name@
    }

    open spec fn uri_view(&self) -> Seq<char> {
        object_uri(seq!['b', 'i', 'n', 'd', 'i', 'n', 'g', 's'], self.metadata.name@)
    }

    fn kind(&self) -> (k: String) {
        proof {
            reveal_strlit("Binding");
        }
        let k = crate::text::to_owned_string("Binding");
        assert(k@ =~= seq!['B', 'i', 'n', 'd', 'i', 'n', 'g']);
        k
    }

    fn name(&self) -> (n: String) {
        self.metadata.name.clone()
    }

    fn uri(&self) -> (u: String) {
        proof {
            reveal_strlit("bindings");
        }
        let u = build_uri("bindings", self.metadata.name.as_str());
        assert("bindings"@ =~= seq!['b', 'i', 'n', 'd', 'i', 'n', 'g', 's']);
        u
    }
}

impl Object for node::Node {
    open spec fn kind_view(&self) -> Seq<char> {
        seq!['N', 'o', 'd', 'e']
    }

    open spec fn name_view(&self) -> Seq<char> {
        self.metadata.name@
    }

    open spec fn uri_view(&self) -> Seq<char> {
        object_uri(seq!['n', 'o', 'd', 'e', 's'], self.metadata.name@)
    }

    fn kind(&self) -> (k: String) {
        proof {
            reveal_strlit("Node");
        }
        let k = crate::text::to_owned_string("Node");
        assert(k@ =~= seq!['N', 'o', 'd', 'e']);
        k
    }

    fn name(&self) -> (n: String) {
        self.metadata.name.clone()
    }

    fn uri(&self) -> (u: String) {
        proof {
            reveal_strlit("nodes");
        }
        let u = build_uri("nodes", self.metadata.name.as_str());
        assert("nodes"@ =~= seq!['n', 'o', 'd', 'e', 's']);
        u
    }
}

impl Object for service::Service {
    open spec fn kind_view(&self) -> Seq<char> {
        seq!['S', 'e', 'r', 'v', 'i', 'c', 'e']
    }

    open spec fn name_view(&self) -> Seq<char> {
        self.metadata.name@
    }

    open spec fn uri_view(&self) -> Seq<char> {
        object_uri(seq!['s', 'e', 'r', 'v', 'i', 'c', 'e', 's'], self.metadata.name@)
    }

    fn kind(&self) -> (k: String) {
        proof {
            reveal_strlit("Service");
        }
        let k = crate::text::to_owned_string("Service");
        assert(k@ =~= seq!['S', 'e', 'r', 'v', 'i', 'c', 'e']);
        k
    }

    fn name(&self) -> (n: String) {
        self.metadata.name.clone()
    }

    fn uri(&self) -> (u: String) {
        proof {
            reveal_strlit("services");
        }
        let u = build_uri("services", self.metadata.name.as_str());
        assert("services"@ =~= seq!['s', 'e', 'r', 'v', 'i', 'c', 'e', 's']);
        u
    }
}

impl Object for replica_set::ReplicaSet {
    open spec fn kind_view(&self) -> Seq<char> {
        seq!['R', 'e', 'p', 'l', 'i', 'c', 'a', 'S', 'e', 't']
    }

    open spec fn name_view(&self) -> Seq<char> {
        self.metadata.name@
    }

    open spec fn uri_view(&self) -> Seq<char> {
        object_uri(seq!['r', 'e', 'p', 'l', 'i', 'c', 'a', 's', 'e', 't', 's'], self.metadata.name@)
    }

    fn kind(&self) -> (k: String) {
        proof {
            reveal_strlit("ReplicaSet");
        }
        let k = crate::text::to_owned_string("ReplicaSet");
        assert(k@ =~= seq!['R', 'e', 'p', 'l', 'i', 'c', 'a', 'S', 'e', 't']);
        k
    }

    fn name(&self) -> (n: String) {
        self.metadata.name.clone()
    }

    fn uri(&self) -> (u: String) {
        proof {
            reveal_strlit("replicasets");
        }
        let u = build_uri("replicasets", self.metadata.name.as_str());
        assert("replicasets"@ =~= seq!['r', 'e', 'p', 'l', 'i', 'c', 'a', 's', 'e', 't', 's']);
        u
    }
}

impl Object for hpa::HorizontalPodAutoscaler {
    open spec fn kind_view(&self) -> Seq<char> {
        seq!['H', 'o', 'r', 'i', 'z', 'o', 'n', 't', 'a', 'l', 'P', 'o', 'd', 'A', 'u', 't', 'o', 's', 'c', 'a', 'l', 'e', 'r']
    }

    open spec fn name_view(&self) -> Seq<char> {
        self.metadata.name@
    }

    open spec fn uri_view(&self) -> Seq<char> {
        object_uri(seq!['h', 'o', 'r', 'i', 'z', 'o', 'n', 't', 'a', 'l', 'p', 'o', 'd', 'a', 'u', 't', 'o', 's', 'c', 'a', 'l', 'e', 'r', 's'], self.metadata.name@)
    }

    fn kind(&self) -> (k: String) {
        proof {
            reveal_strlit("HorizontalPodAutoscaler");
        }
        let k = crate::text::to_owned_string("HorizontalPodAutoscaler");
        assert(k@ =~= seq!['H', 'o', 'r', 'i', 'z', 'o', 'n', 't', 'a', 'l', 'P', 'o', 'd', 'A', 'u', 't', 'o', 's', 'c', 'a', 'l', 'e', 'r']);
        k
    }

    fn name(&self) -> (n: String) {
        self.metadata.name.clone()
    }

    fn uri(&self) -> (u: String) {
        proof {
            reveal_strlit("horizontalpodautoscalers");
        }
        let u = build_uri("horizontalpodautoscalers", self.metadata.name.as_str());
        assert("horizontalpodautoscalers"@ =~= seq!['h', 'o', 'r', 'i', 'z', 'o', 'n', 't', 'a', 'l', 'p', 'o', 'd', 'a', 'u', 't', 'o', 's', 'c', 'a', 'l', 'e', 'r', 's']);
        u
    }
}

impl Object for function::Function {
    open spec fn kind_view(&self) -> Seq<char> {
        seq!['F', 'u', 'n', 'c', 't', 'i', 'o', 'n']
    }

    open spec fn name_view(&self) -> Seq<char> {
        self.metadata.name@
    }

    open spec fn uri_view(&self) -> Seq<char> {
        object_uri(seq!['f', 'u', 'n', 'c', 't', 'i', 'o', 'n', 's'], self.metadata.name@)
    }

    fn kind(&self) -> (k: String) {
        proof {
            reveal_strlit("Function");
        }
        let k = crate::text::to_owned_string("Function");
        assert(k@ =~= seq!['F', 'u', 'n', 'c', 't', 'i', 'o', 'n']);
        k
    }

    fn name(&self) -> (n: String) {
        self.metadata.name.clone()
    }

    fn uri(&self) -> (u: String) {
        proof {
            reveal_strlit("functions");
        }
        let u = build_uri("functions", self.metadata.name.as_str());
        assert("functions"@ =~= seq!['f', 'u', 'n', 'c', 't', 'i', 'o', 'n', 's']);
        u
    }
}

impl Object for gpu_job::GpuJob {
    open spec fn kind_view(&self) -> Seq<char> {
        seq!['G', 'p', 'u', 'J', 'o', 'b']
    }

    open spec fn name_view(&self) -> Seq<char> {
        self.metadata.name@
    }

    open spec fn uri_view(&self) -> Seq<char> {
        object_uri(seq!['g', 'p', 'u', 'j', 'o', 'b', 's'], self.metadata.name@)
    }

    fn kind(&self) -> (k: String) {
        proof {
            reveal_strlit("GpuJob");
        }
        let k = crate::text::to_owned_string("GpuJob");
        assert(k@ =~= seq!['G', 'p', 'u', 'J', 'o', 'b']);
        k
    }

    fn name(&self) -> (n: String) {
        self.metadata.name.clone()
    }

    fn uri(&self) -> (u: String) {
        proof {
            reveal_strlit("gpujobs");
        }
        let u = build_uri("gpujobs", self.metadata.name.as_str());
        assert("gpujobs"@ =~= seq!['g', 'p', 'u', 'j', 'o', 'b', 's']);
        u
    }
}

impl Object for ingress::Ingress {
    open spec fn kind_view(&self) -> Seq<char> {
        seq!['i', 'n', 'g', 'r', 'e', 's', 's']
    }

    open spec fn name_view(&self) -> Seq<char> {
        self.metadata.name@
    }

    open spec fn uri_view(&self) -> Seq<char> {
        object_uri(seq!['i', 'n', 'g', 'r', 'e', 's', 's', 'e', 's'], self.metadata.name@)
    }

    fn kind(&self) -> (k: String) {
        proof {
            reveal_strlit("ingress");
        }
        let k = crate::text::to_owned_string("ingress");
        assert(k@ =~= seq!['i', 'n', 'g', 'r', 'e', 's', 's']);
        k
    }

    fn name(&self) -> (n: String) {
        self.metadata.name.clone()
    }

    fn uri(&self) -> (u: String) {
        proof {
            reveal_strlit("ingresses");
        }
        let u = build_uri("ingresses", self.metadata.name.as_str());
        assert("ingresses"@ =~= seq!['i', 'n', 'g', 'r', 'e', 's', 's', 'e', 's']);
        u
    }
}

impl Object for workflow::Workflow {
    open spec fn kind_view(&self) -> Seq<char> {
        seq!['W', 'o', 'r', 'k', 'f', 'l', 'o', 'w']
    }

    open spec fn name_view(&self) -> Seq<char> {
        self.metadata.name@
    }

    open spec fn uri_view(&self) -> Seq<char> {
        object_uri(seq!['w', 'o', 'r', 'k', 'f', 'l', 'o', 'w', 's'], self.metadata.name@)
    }

    fn kind(&self) -> (k: String) {
        proof {
            reveal_strlit("Workflow");
        }
        let k = crate::text::to_owned_string("Workflow");
        assert(k@ =~= seq!['W', 'o', 'r', 'k', 'f', 'l', 'o', 'w']);
        k
    }

    fn name(&self) -> (n: String) {
        self.metadata.name.clone()
    }

    fn uri(&self) -> (u: String) {
        proof {
            reveal_strlit("workflows");
        }
        let u = build_uri("workflows", self.metadata.name.as_str());
        assert("workflows"@ =~= seq!['w', 'o', 'r', 'k', 'f', 'l', 'o', 'w', 's']);
        u
    }
}

/// The resource an object holds.
#[derive(Clone, Debug, PartialEq)]
pub enum KubeResource {
    Pod(pod::Pod),
    Binding(binding::Binding),
    Node(node::Node),
    Service(service::Service),
    ReplicaSet(replica_set::ReplicaSet),
    HorizontalPodAutoscaler(hpa::HorizontalPodAutoscaler),
    Function(function::Function),
    GpuJob(gpu_job::GpuJob),
    Ingress(ingress::Ingress),
    Workflow(workflow::Workflow),
}

/// The kind name of a resource, lowercase (the variant name, lowercased).
pub open spec fn resource_kind(r: KubeResource) -> Seq<char> {
    match r {
        KubeResource::Pod(_) => seq!['p', 'o', 'd'],
        KubeResource::Binding(_) => seq!['b', 'i', 'n', 'd', 'i', 'n', 'g'],
        KubeResource::Node(_) => seq!['n', 'o', 'd', 'e'],
        KubeResource::Service(_) => seq!['s', 'e', 'r', 'v', 'i', 'c', 'e'],
        KubeResource::ReplicaSet(_) => seq!['r', 'e', 'p', 'l', 'i', 'c', 'a', 's', 'e', 't'],
        KubeResource::HorizontalPodAutoscaler(_) => seq!['h', 'o', 'r', 'i', 'z', 'o', 'n', 't', 'a', 'l', 'p', 'o', 'd', 'a', 'u', 't', 'o', 's', 'c', 'a', 'l', 'e', 'r'],
        KubeResource::Function(_) => seq!['f', 'u', 'n', 'c', 't', 'i', 'o', 'n'],
        KubeResource::GpuJob(_) => seq!['g', 'p', 'u', 'j', 'o', 'b'],
        KubeResource::Ingress(_) => seq!['i', 'n', 'g', 'r', 'e', 's', 's'],
        KubeResource::Workflow(_) => seq!['w', 'o', 'r', 'k', 'f', 'l', 'o', 'w'],
    }
}

/// An API object: metadata and a resource.
#[derive(Clone, Debug, PartialEq)]
pub struct KubeObject {
    pub metadata: Metadata,
    pub resource: KubeResource,
}

impl KubeObject {
    /// The kind of the resource, lowercase.
    pub fn kind(&self) -> (k: String)
        ensures
            k@ == resource_kind(self.resource),
    {
        let k = match &self.resource {
            KubeResource::Pod(_) => {
                proof {
                    reveal_strlit("pod");
                }
                let k = crate::text::to_owned_string("pod");
                assert(k@ =~= seq!['p', 'o', 'd']);
                k
            },
            KubeResource::Binding(_) => {
                proof {
                    reveal_strlit("binding");
                }
                let k = crate::text::to_owned_string("binding");
                assert(k@ =~= seq!['b', 'i', 'n', 'd', 'i', 'n', 'g']);
                k
            },
            KubeResource::Node(_) => {
                proof {
                    reveal_strlit("node");
                }
                let k = crate::text::to_owned_string("node");
                assert(k@ =~= seq!['n', 'o', 'd', 'e']);
                k
            },
            KubeResource::Service(_) => {
                proof {
                    reveal_strlit("service");
                }
                let k = crate::text::to_owned_string("service");
                assert(k@ =~= seq!['s', 'e', 'r', 'v', 'i', 'c', 'e']);
                k
            },
            KubeResource::ReplicaSet(_) => {
                proof {
                    reveal_strlit("replicaset");
                }
                let k = crate::text::to_owned_string("replicaset");
                assert(k@ =~= seq!['r', 'e', 'p', 'l', 'i', 'c', 'a', 's', 'e', 't']);
                k
            },
            KubeResource::HorizontalPodAutoscaler(_) => {
                proof {
                    reveal_strlit("horizontalpodautoscaler");
                }
                let k = crate::text::to_owned_string("horizontalpodautoscaler");
                assert(k@ =~= seq!['h', 'o', 'r', 'i', 'z', 'o', 'n', 't', 'a', 'l', 'p', 'o', 'd', 'a', 'u', 't', 'o', 's', 'c', 'a', 'l', 'e', 'r']);
                k
            },
            KubeResource::Function(_) => {
                proof {
                    reveal_strlit("function");
                }
                let k = crate::text::to_owned_string("function");
                assert(k@ =~= seq!['f', 'u', 'n', 'c', 't', 'i', 'o', 'n']);
                k
            },
            KubeResource::GpuJob(_) => {
                proof {
                    reveal_strlit("gpujob");
                }
                let k = crate::text::to_owned_string("gpujob");
                assert(k@ =~= seq!['g', 'p', 'u', 'j', 'o', 'b']);
                k
            },
            KubeResource::Ingress(_) => {
                proof {
                    reveal_strlit("ingress");
                }
                let k = crate::text::to_owned_string("ingress");
                assert(k@ =~= seq!['i', 'n', 'g', 'r', 'e', 's', 's']);
                k
            },
            KubeResource::Workflow(_) => {
                proof {
                    reveal_strlit("workflow");
                }
                let k = crate::text::to_owned_string("workflow");
                assert(k@ =~= seq!['w', 'o', 'r', 'k', 'f', 'l', 'o', 'w']);
                k
            },
        };
        k
    }

    /// The name of the object.
    pub fn name(&self) -> (n: String)
        ensures
            n@ == self.metadata.name@,
    {
        self.metadata.name.clone()
    }
}

impl Object for KubeObject {
    open spec fn kind_view(&self) -> Seq<char> {
        resource_kind(self.resource)
    }

    open spec fn name_view(&self) -> Seq<char> {
        self.metadata.name@
    }

    /// `/api/v1/<kind>s/<name>`, with the name lowercased.
    open spec fn uri_view(&self) -> Seq<char> {
        object_uri(resource_kind(self.resource) + seq!['s'], lowercase(self.metadata.name@))
    }

    fn kind(&self) -> (k: String) {
        KubeObject::kind(self)
    }

    fn name(&self) -> (n: String) {
        KubeObject::name(self)
    }

    fn uri(&self) -> (u: String) {
        let mut plural = KubeObject::kind(self);
        push_char(&mut plural, 's');
        let name = to_lowercase(self.metadata.name.as_str());
        build_uri(plural.as_str(), name.as_str())
    }
}

} // verus!
