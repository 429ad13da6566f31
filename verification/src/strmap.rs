//! An insertion-ordered map with string keys.
//!
//! Component tables, path maps, schema property maps and extension maps all
//! preserve the order in which their entries were inserted, and never hold
//! the same key twice.  The map is a sequence of entries with a
//! uniqueness invariant; replacing a value keeps the entry's position.

use vstd::prelude::*;
use crate::value::str_eq;

verus! {

/// One entry of a [`StringMap`].
#[derive(Debug, Clone, PartialEq)]
pub struct Entry<V> {
    pub key: String,
    pub value: V,
}

/// An insertion-ordered map from strings to `V`, with unique keys.
#[derive(Debug, Clone, PartialEq)]
pub struct StringMap<V> {
    pub entries: Vec<Entry<V>>,
}

/// The value stored under `key` at or after position `i`, scanning forward;
/// the first occurrence wins.
pub open spec fn map_lookup_from<V>(es: Seq<Entry<V>>, key: Seq<char>, i: int) -> Option<V>
    decreases es.len() - i,
{
    if i < 0 || i >= es.len() {
        None
    } else if es[i].key@ == key {
        Some(es[i].value)
    } else {
        map_lookup_from(es, key, i + 1)
    }
}

/// The value stored under `key` in an entry sequence.
pub open spec fn map_lookup<V>(es: Seq<Entry<V>>, key: Seq<char>) -> Option<V> {
    map_lookup_from(es, key, 0)
}

/// A forward scan that passes only mismatching keys reaches the same result.
pub proof fn lemma_map_lookup_skip<V>(es: Seq<Entry<V>>, key: Seq<char>, p: int, i: int)
    requires
        0 <= p <= i <= es.len(),
        forall|j: int| p <= j < i ==> es[j].key@ != key,
    ensures
        map_lookup_from(es, key, p) == map_lookup_from(es, key, i),
    decreases i - p,
{
    if p < i {
        lemma_map_lookup_skip(es, key, p + 1, i);
    }
}

/// Looking a key up after appending an entry: the old binding wins where it
/// exists; otherwise only the appended entry's own key gains a binding.
pub proof fn lemma_map_lookup_push<V>(es: Seq<Entry<V>>, e: Entry<V>, key: Seq<char>)
    ensures
        map_lookup(es.push(e), key) == if map_lookup(es, key) is Some {
            map_lookup(es, key)
        } else if e.key@ == key {
            Some(e.value)
        } else {
            None
        },
    decreases es.len(),
{
    lemma_map_lookup_push_from(es, e, key, 0);
}

proof fn lemma_map_lookup_push_from<V>(es: Seq<Entry<V>>, e: Entry<V>, key: Seq<char>, i: int)
    requires
        0 <= i <= es.len(),
    ensures
        map_lookup_from(es.push(e), key, i) == if map_lookup_from(es, key, i) is Some {
            map_lookup_from(es, key, i)
        } else if e.key@ == key {
            Some(e.value)
        } else {
            None
        },
    decreases es.len() - i,
{
    if i < es.len() {
        lemma_map_lookup_push_from(es, e, key, i + 1);
    } else {
        assert(map_lookup_from(es.push(e), key, i + 1) is None);
        assert(es.push(e)[i] == e);
    }
}

/// Looking a key up after replacing the value at position `i` while keeping
/// that entry's key: the binding at that key changes where the scan first
/// reaches `i`, every other binding stays.
pub proof fn lemma_map_lookup_update<V>(es: Seq<Entry<V>>, i: int, v: V, key: Seq<char>)
    requires
        0 <= i < es.len(),
        forall|j: int| 0 <= j < i ==> es[j].key@ != es[i].key@,
    ensures
        map_lookup(es.update(i, Entry { key: es[i].key, value: v }), key) == if es[i].key@
            == key {
            Some(v)
        } else {
            map_lookup(es, key)
        },
{
    lemma_map_lookup_update_from(es, i, v, key, 0);
}

proof fn lemma_map_lookup_update_from<V>(es: Seq<Entry<V>>, i: int, v: V, key: Seq<char>, p: int)
    requires
        0 <= i < es.len(),
        0 <= p <= es.len(),
        forall|j: int| 0 <= j < i ==> es[j].key@ != es[i].key@,
    ensures
        map_lookup_from(es.update(i, Entry { key: es[i].key, value: v }), key, p) == if es[i].key@
            == key && p <= i {
            Some(v)
        } else {
            map_lookup_from(es, key, p)
        },
    decreases es.len() - p,
{
    if p < es.len() {
        lemma_map_lookup_update_from(es, i, v, key, p + 1);
    }
}

impl<V> StringMap<V> {
    /// How many entries the map holds.
    pub open spec fn spec_len(self) -> nat {
        self.entries@.len()
    }

    /// The key of the entry at position `i`.
    pub open spec fn key_at(self, i: int) -> Seq<char> {
        self.entries@[i].key@
    }

    /// The value of the entry at position `i`.
    pub open spec fn value_at(self, i: int) -> V {
        self.entries@[i].value
    }

    /// The binding stored under `key`.
    pub open spec fn spec_get(self, key: Seq<char>) -> Option<V> {
        map_lookup(self.entries@, key)
    }

    /// Whether the map has a binding for `key`.
    pub open spec fn spec_contains(self, key: Seq<char>) -> bool {
        self.spec_get(key) is Some
    }

    /// Well-formedness: no key occurs twice.
    pub open spec fn wf(self) -> bool {
        forall|i: int, j: int|
            0 <= i < j < self.entries@.len() ==> self.entries@[i].key@ != self.entries@[j].key@
    }

    /// Under uniqueness, the entry at position `i` is the binding of its key.
    pub proof fn lemma_get_at(self, i: int)
        requires
            self.wf(),
            0 <= i < self.spec_len(),
        ensures
            self.spec_get(self.key_at(i)) == Some(self.value_at(i)),
    {
        lemma_map_lookup_skip(self.entries@, self.key_at(i), 0, i);
    }

    /// A key with a binding stands at some position.
    pub proof fn lemma_contains_at(self, key: Seq<char>)
        requires
            self.spec_contains(key),
        ensures
            exists|i: int|
                0 <= i < self.spec_len() && self.key_at(i) == key && self.spec_get(key) == Some(
                    self.value_at(i),
                ),
    {
        lemma_contains_at_from(self.entries@, key, 0);
        let es = self.entries@;
        let i = choose|i: int|
            0 <= i < es.len() && es[i].key@ == key && map_lookup_from(es, key, 0) == Some(
                es[i].value,
            );
        assert(0 <= i < self.spec_len() && self.key_at(i) == key && self.spec_get(key) == Some(
            self.value_at(i),
        ));
    }

    /// The empty map.
    pub fn new() -> (r: Self)
        ensures
            r.spec_len() == 0,
            r.wf(),
            forall|k: Seq<char>| r.spec_get(k) is None,
    {
        StringMap { entries: Vec::new() }
    }

    /// How many entries the map holds.
    pub fn len(&self) -> (r: usize)
        ensures
            r == self.spec_len(),
    {
        self.entries.len()
    }

    /// Whether the map holds no entry.
    pub fn is_empty(&self) -> (r: bool)
        ensures
            r == (self.spec_len() == 0),
    {
        self.entries.len() == 0
    }

    /// The position of `key`'s entry, scanning forward.
    pub fn index_of(&self, key: &str) -> (r: Option<usize>)
        ensures
            match r {
                Some(i) => i < self.spec_len() && self.key_at(i as int) == key@ && self.spec_get(
                    key@,
                ) == Some(self.value_at(i as int)) && forall|j: int|
                    0 <= j < i ==> self.key_at(j) != key@,
                None => self.spec_get(key@) is None,
            },
    {
        let mut i: usize = 0;
        while i < self.entries.len()
            invariant
                i <= self.spec_len(),
                map_lookup(self.entries@, key@) == map_lookup_from(self.entries@, key@, i as int),
                forall|j: int| 0 <= j < i ==> self.key_at(j) != key@,
            decreases self.spec_len() - i,
        {
            if str_eq(self.entries[i].key.as_str(), key) {
                return Some(i);
            }
            i += 1;
        }
        None
    }

    /// The value bound to `key`, where there is one.
    pub fn get<'a>(&'a self, key: &str) -> (r: Option<&'a V>)
        ensures
            match r {
                Some(v) => self.spec_get(key@) == Some(*v),
                None => self.spec_get(key@) is None,
            },
    {
        match self.index_of(key) {
            Some(i) => Some(&self.entries[i].value),
            None => None,
        }
    }

    /// Whether the map has a binding for `key`.
    pub fn contains_key(&self, key: &str) -> (r: bool)
        ensures
            r == self.spec_contains(key@),
    {
        self.index_of(key).is_some()
    }

    /// Binds `key` to `value`.  An existing entry keeps its position and its
    /// key and has only its value replaced (the old value is returned); a new
    /// key is appended at the end.
    pub fn insert(&mut self, key: String, value: V) -> (old_v: Option<V>)
        requires
            old(self).wf(),
        ensures
            final(self).wf(),
            old_v == old(self).spec_get(key@),
            final(self).spec_get(key@) == Some(value),
            forall|k: Seq<char>|
                k != key@ ==> final(self).spec_get(k) == old(self).spec_get(k),
            old(self).spec_contains(key@) ==> {
                &&& final(self).spec_len() == old(self).spec_len()
                &&& forall|i: int|
                    0 <= i < final(self).spec_len() ==> final(self).key_at(i) == old(self).key_at(i)
                &&& forall|i: int|
                    0 <= i < final(self).spec_len() && old(self).key_at(i) != key@ ==> final(self).value_at(i) == old(self).value_at(i)
            },
            !old(self).spec_contains(key@) ==> {
                &&& final(self).spec_len() == old(self).spec_len() + 1
                &&& final(self).entries@ == old(self).entries@.push(
                    Entry { key, value },
                )
            },
    {
        match self.index_of(key.as_str()) {
            Some(i) => {
                let entry = self.entries.remove(i);
                let old_value = entry.value;
                let kept = Entry { key: entry.key, value };
                self.entries.insert(i, kept);
                proof {
                    assert(self.entries@ =~= old(self).entries@.update(
                        i as int,
                        Entry { key: old(self).entries@[i as int].key, value },
                    ));
                    assert forall|k: Seq<char>| true implies #[trigger] self.spec_get(k) == if old(self).key_at(i as int) == k {
                        Some(value)
                    } else {
                        old(self).spec_get(k)
                    } by {
                        lemma_map_lookup_update(old(self).entries@, i as int, value, k);
                    }
                    old(self).lemma_get_at(i as int);
                }
                Some(old_value)
            },
            None => {
                proof {
                    assert forall|k: Seq<char>| true implies map_lookup(
                        #[trigger] old(self).entries@.push(Entry { key, value }),
                        k,
                    ) == if old(self).spec_get(k) is Some {
                        old(self).spec_get(k)
                    } else if key@ == k {
                        Some(value)
                    } else {
                        None::<V>
                    } by {
                        lemma_map_lookup_push(old(self).entries@, Entry { key, value }, k);
                    }
                }
                self.entries.push(Entry { key, value });
                proof {
                    assert forall|i: int, j: int|
                        0 <= i < j < self.entries@.len() implies self.entries@[i].key@
                        != self.entries@[j].key@ by {
                        if j < self.entries@.len() - 1 {
                        } else {
                            old(self).lemma_contains_neg(i, key@);
                        }
                    }
                }
                None
            },
        }
    }

    /// Replaces the value at position `i`, returning the one it held.
    pub fn set_value_at(&mut self, i: usize, value: V) -> (old_v: V)
        requires
            i < old(self).spec_len(),
        ensures
            old_v == old(self).value_at(i as int),
            final(self).entries@ == old(self).entries@.update(
                i as int,
                Entry { key: old(self).entries@[i as int].key, value },
            ),
            old(self).wf() ==> final(self).wf(),
    {
        let entry = self.entries.remove(i);
        let old_value = entry.value;
        self.entries.insert(i, Entry { key: entry.key, value });
        proof {
            assert(self.entries@ =~= old(self).entries@.update(
                i as int,
                Entry { key: old(self).entries@[i as int].key, value },
            ));
        }
        old_value
    }

    /// The key of the entry at position `i`.
    pub fn key(&self, i: usize) -> (r: &String)
        requires
            i < self.spec_len(),
        ensures
            r@ == self.key_at(i as int),
    {
        &self.entries[i].key
    }

    /// The value of the entry at position `i`.
    pub fn value(&self, i: usize) -> (r: &V)
        requires
            i < self.spec_len(),
        ensures
            *r == self.value_at(i as int),
    {
        &self.entries[i].value
    }

    /// A key absent from the whole map differs from every stored key.
    proof fn lemma_contains_neg(self, i: int, key: Seq<char>)
        requires
            0 <= i < self.spec_len(),
            self.spec_get(key) is None,
        ensures
            self.key_at(i) != key,
    {
        lemma_absent_from(self.entries@, key, 0, i);
    }
}

proof fn lemma_absent_from<V>(es: Seq<Entry<V>>, key: Seq<char>, p: int, i: int)
    requires
        0 <= p <= i < es.len(),
        map_lookup_from(es, key, p) is None,
    ensures
        es[i].key@ != key,
    decreases i - p,
{
    if p < i {
        lemma_absent_from(es, key, p + 1, i);
    }
}

proof fn lemma_contains_at_from<V>(es: Seq<Entry<V>>, key: Seq<char>, p: int)
    requires
        0 <= p <= es.len(),
        map_lookup_from(es, key, p) is Some,
    ensures
        exists|i: int|
            p <= i < es.len() && es[i].key@ == key && map_lookup_from(es, key, p) == Some(
                es[i].value,
            ),
    decreases es.len() - p,
{
    if es[p].key@ == key {
    } else {
        lemma_contains_at_from(es, key, p + 1);
    }
}

} // verus!
