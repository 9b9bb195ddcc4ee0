//! A small map from texts to values that keeps its keys in insertion order.

use vstd::prelude::*;
use crate::json::{clone_value, json_of, Json};
use crate::text::{clone_strings, str_eq, views};

verus! {

/// A map keyed by text. No key occurs twice, and keys stay in the order in
/// which they were first inserted.
#[derive(Debug)]
pub struct StrMap<V> {
    keys: Vec<String>,
    vals: Vec<V>,
}

impl<V> StrMap<V> {
    /// The keys, in insertion order.
    pub closed spec fn keys(&self) -> Seq<Seq<char>> {
        views(self.keys@)
    }

    /// The values, each at the index of its key.
    pub closed spec fn vals(&self) -> Seq<V> {
        self.vals@
    }

    /// Keys and values pair up, and no key occurs twice.
    pub open spec fn wf(&self) -> bool {
        &&& self.keys().len() == self.vals().len()
        &&& self.keys().no_duplicates()
    }

    /// True when the map holds `key`.
    pub open spec fn has(&self, key: Seq<char>) -> bool {
        self.keys().contains(key)
    }

    /// The value under `key`.
    pub open spec fn at(&self, key: Seq<char>) -> V
        recommends
            self.has(key),
    {
        self.vals()[self.keys().index_of(key)]
    }

    /// The map as a mathematical map.
    pub open spec fn map(&self) -> Map<Seq<char>, V> {
        Map::new(|k: Seq<char>| self.has(k), |k: Seq<char>| self.at(k))
    }

    /// In a well-formed map the value under the key at index `i` is the
    /// value at index `i`.
    pub proof fn lemma_at_index(&self, i: int)
        requires
            self.wf(),
            0 <= i < self.keys().len(),
        ensures
            self.has(self.keys()[i]),
            self.at(self.keys()[i]) == self.vals()[i],
    {
        let k = self.keys()[i];
        let j = self.keys().index_of(k);
        assert(0 <= j < self.keys().len() && self.keys()[j] == k);
    }

    /// An empty map.
    pub fn new() -> (r: Self)
        ensures
            r.wf(),
            r.keys() == Seq::<Seq<char>>::empty(),
            r.vals() == Seq::<V>::empty(),
            r.map() == Map::<Seq<char>, V>::empty(),
    {
        let r = StrMap { keys: Vec::new(), vals: Vec::new() };
        proof {
            assert(r.keys() =~= Seq::<Seq<char>>::empty());
            assert(r.map() =~= Map::<Seq<char>, V>::empty());
        }
        r
    }

    /// The number of entries.
    pub fn len(&self) -> (r: usize)
        requires
            self.wf(),
        ensures
            r == self.keys().len(),
    {
        self.keys.len()
    }

    /// True when the map holds no entry.
    pub fn is_empty(&self) -> (r: bool)
        requires
            self.wf(),
        ensures
            r == (self.keys().len() == 0),
    {
        self.keys.len() == 0
    }

    /// The index of `key` among the keys.
    pub fn position(&self, key: &str) -> (r: Option<usize>)
        requires
            self.wf(),
        ensures
            r is Some == self.has(key@),
            r matches Some(i) ==> i < self.keys().len() && self.keys()[i as int] == key@
                && self.at(key@) == self.vals()[i as int],
    {
        let mut i: usize = 0;
        while i < self.keys.len()
            invariant
                0 <= i <= self.keys.len(),
                self.wf(),
                forall|k: int| 0 <= k < i ==> self.keys()[k] != key@,
            decreases self.keys.len() - i,
        {
            if str_eq(self.keys[i].as_str(), key) {
                proof {
                    self.lemma_at_index(i as int);
                }
                return Some(i);
            }
            i = i + 1;
        }
        None
    }

    /// True when the map holds `key`.
    pub fn contains_key(&self, key: &str) -> (r: bool)
        requires
            self.wf(),
        ensures
            r == self.has(key@),
    {
        self.position(key).is_some()
    }

    /// The value under `key`, if the map holds it.
    pub fn get(&self, key: &str) -> (r: Option<&V>)
        requires
            self.wf(),
        ensures
            r is Some == self.has(key@),
            r matches Some(v) ==> *v == self.at(key@),
    {
        match self.position(key) {
            Some(i) => Some(&self.vals[i]),
            None => None,
        }
    }

    /// The key at index `i`.
    pub fn key_at(&self, i: usize) -> (r: &String)
        requires
            self.wf(),
            i < self.keys().len(),
        ensures
            r@ == self.keys()[i as int],
    {
        &self.keys[i]
    }

    /// The value at index `i`.
    pub fn value_at(&self, i: usize) -> (r: &V)
        requires
            self.wf(),
            i < self.keys().len(),
        ensures
            *r == self.vals()[i as int],
    {
        &self.vals[i]
    }

    /// Puts `val` under `key`. A key that is already held keeps its place and
    /// its old value is handed back; a new key goes to the end.
    #[verifier::rlimit(50)]
    pub fn insert(&mut self, key: String, val: V) -> (r: Option<V>)
        requires
            old(self).wf(),
        ensures
            final(self).wf(),
            final(self).map() == old(self).map().insert(key@, val),
            old(self).has(key@) ==> r == Some(old(self).at(key@)) && final(self).keys() == old(
                self,
            ).keys() && final(self).vals() == old(self).vals().update(
                old(self).keys().index_of(key@),
                val,
            ),
            !old(self).has(key@) ==> r is None && final(self).keys() == old(self).keys().push(key@)
                && final(self).vals() == old(self).vals().push(val),
    {
        match self.position(key.as_str()) {
            Some(i) => {
                let mut val = val;
                let ghost new_val = val;
                proof {
                    let j = self.keys().index_of(key@);
                    assert(0 <= j < self.keys().len() && self.keys()[j] == key@);
                    assert(j == i);
                }
                self.vals.set_and_swap(i, &mut val);
                proof {
                    assert(self.keys() == old(self).keys());
                    assert forall|k: Seq<char>| #[trigger] self.has(k) implies self.at(k) == (if k
                        == key@ {
                        new_val
                    } else {
                        old(self).at(k)
                    }) by {
                        let j = self.keys().index_of(k);
                        assert(0 <= j < self.keys().len() && self.keys()[j] == k);
                    }
                    assert(self.map() =~= old(self).map().insert(key@, new_val));
                }
                Some(val)
            },
            None => {
                let ghost ks = self.keys();
                self.keys.push(key);
                self.vals.push(val);
                proof {
                    assert(self.keys() =~= ks.push(key@));
                    assert forall|k: Seq<char>| #[trigger] self.has(k) == (k == key@ || old(
                        self,
                    ).has(k)) by {
                        if old(self).has(k) {
                            let j = ks.index_of(k);
                            assert(0 <= j < ks.len() && ks[j] == k);
                            assert(self.keys()[j] == k);
                        }
                        if k == key@ {
                            assert(self.keys()[ks.len() as int] == k);
                        }
                        if self.has(k) {
                            let j = self.keys().index_of(k);
                            assert(0 <= j < self.keys().len() && self.keys()[j] == k);
                            if j < ks.len() {
                                assert(ks[j] == k);
                            }
                        }
                    }
                    assert forall|k: Seq<char>| #[trigger] self.has(k) implies self.at(k) == (if k
                        == key@ {
                        val
                    } else {
                        old(self).at(k)
                    }) by {
                        let j = self.keys().index_of(k);
                        assert(0 <= j < self.keys().len() && self.keys()[j] == k);
                        if k != key@ {
                            assert(j < ks.len());
                            let j0 = ks.index_of(k);
                            assert(ks[j] == k);
                            assert(0 <= j0 < ks.len() && ks[j0] == k);
                            assert(j0 == j);
                        } else {
                            assert(j == ks.len());
                        }
                    }
                    assert(self.map() =~= old(self).map().insert(key@, val));
                }
                None
            },
        }
    }

    /// Takes `key` out of the map and hands its value back. The other keys
    /// keep their order.
    #[verifier::rlimit(50)]
    pub fn remove(&mut self, key: &str) -> (r: Option<V>)
        requires
            old(self).wf(),
        ensures
            final(self).wf(),
            final(self).map() == old(self).map().remove(key@),
            r is Some == old(self).has(key@),
            r matches Some(v) ==> v == old(self).at(key@) && final(self).keys() == old(
                self,
            ).keys().remove(old(self).keys().index_of(key@)) && final(self).vals() == old(
                self,
            ).vals().remove(old(self).keys().index_of(key@)),
            r is None ==> final(self).keys() == old(self).keys() && final(self).vals() == old(
                self,
            ).vals(),
    {
        match self.position(key) {
            Some(i) => {
                let ghost ks = self.keys();
                let ghost vs = self.vals();
                proof {
                    let j = ks.index_of(key@);
                    assert(0 <= j < ks.len() && ks[j] == key@);
                    assert(j == i);
                }
                let _ = self.keys.remove(i);
                let v = self.vals.remove(i);
                proof {
                    assert(self.keys() =~= ks.remove(i as int));
                    assert forall|k: Seq<char>| #[trigger] self.has(k) == (k != key@ && old(
                        self,
                    ).has(k)) by {
                        if k != key@ && old(self).has(k) {
                            let j = ks.index_of(k);
                            assert(0 <= j < ks.len() && ks[j] == k);
                            if j < i {
                                assert(self.keys()[j] == k);
                            } else {
                                assert(self.keys()[j - 1] == k);
                            }
                        }
                        if self.has(k) {
                            let j = self.keys().index_of(k);
                            assert(0 <= j < self.keys().len() && self.keys()[j] == k);
                            if j < i {
                                assert(ks[j] == k);
                            } else {
                                assert(ks[j + 1] == k);
                            }
                        }
                    }
                    assert forall|k: Seq<char>| #[trigger] self.has(k) implies self.at(k) == old(
                        self,
                    ).at(k) by {
                        let j = self.keys().index_of(k);
                        assert(0 <= j < self.keys().len() && self.keys()[j] == k);
                        let j0 = ks.index_of(k);
                        assert(0 <= j0 < ks.len() && ks[j0] == k);
                        if j < i {
                            assert(ks[j] == k);
                            assert(j0 == j);
                        } else {
                            assert(ks[j + 1] == k);
                            assert(j0 == j + 1);
                        }
                    }
                    assert(self.map() =~= old(self).map().remove(key@));
                }
                Some(v)
            },
            None => {
                proof {
                    assert(self.map() =~= old(self).map().remove(key@));
                }
                None
            },
        }
    }
}


impl StrMap<serde_json::Value> {
    /// The contents of the map: the JSON value under each key.
    pub open spec fn json_map(&self) -> Map<Seq<char>, Json> {
        self.map().map_values(|v: serde_json::Value| json_of(v))
    }

    /// Two well-formed maps with the same keys, and values of the same
    /// contents at each index, have the same contents.
    pub proof fn lemma_same_entries_same_views(&self)
        ensures
            forall|other: StrMap<serde_json::Value>|
                self.wf() && other.keys() == self.keys() && other.vals().len() == self.vals().len()
                    && (forall|k: int|
                    0 <= k < self.vals().len() ==> json_of(#[trigger] other.vals()[k]) == json_of(
                        self.vals()[k],
                    )) ==> other.wf() && #[trigger] other.json_map() == self.json_map(),
    {
        assert forall|other: StrMap<serde_json::Value>|
            self.wf() && other.keys() == self.keys() && other.vals().len() == self.vals().len() && (
            forall|k: int|
                0 <= k < self.vals().len() ==> json_of(#[trigger] other.vals()[k]) == json_of(
                    self.vals()[k],
                )) implies other.wf() && #[trigger] other.json_map() == self.json_map() by {
            assert forall|k: Seq<char>| self.has(k) implies json_of(other.at(k)) == json_of(
                self.at(k),
            ) by {
                let j = self.keys().index_of(k);
                assert(0 <= j < self.keys().len() && self.keys()[j] == k);
                assert(json_of(other.vals()[j]) == json_of(self.vals()[j]));
            }
            assert(other.json_map() =~= self.json_map());
        }
    }

    /// A copy of the map: the same keys in the same order, each with a copy
    /// of its value.
    pub fn duplicate(&self) -> (r: Self)
        ensures
            r.keys() == self.keys(),
            r.vals().len() == self.vals().len(),
            forall|k: int|
                0 <= k < self.vals().len() ==> json_of(#[trigger] r.vals()[k]) == json_of(
                    self.vals()[k],
                ),
    {
        let keys = clone_strings(&self.keys);
        let mut vals: Vec<serde_json::Value> = Vec::new();
        let mut i: usize = 0;
        while i < self.vals.len()
            invariant
                0 <= i <= self.vals.len(),
                vals@.len() == i,
                forall|k: int| 0 <= k < i ==> json_of(vals@[k]) == json_of(self.vals@[k]),
            decreases self.vals.len() - i,
        {
            vals.push(clone_value(&self.vals[i]));
            i = i + 1;
        }
        StrMap { keys, vals }
    }
}

} // verus!
