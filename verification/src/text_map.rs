//! A map from text keys to values, kept as a list of entries in which no key
//! occurs twice.

use vstd::prelude::*;
use crate::text::str_eq;

verus! {

/// A finite map keyed by strings. The entries keep the order in which their keys
/// first arrived; no key occurs twice.
#[derive(Debug)]
pub struct TextMap<V: View> {
    entries: Vec<(String, V)>,
}

impl<V: View> View for TextMap<V> {
    type V = Map<Seq<char>, V::V>;

    /// The map from each key to the view of its value.
    open spec fn view(&self) -> Map<Seq<char>, V::V> {
        Map::new(
            |k: Seq<char>| self.model().contains_key(k),
            |k: Seq<char>| self.model()[k]@,
        )
    }
}

impl<V: View> TextMap<V> {
    /// Number of entries.
    pub closed spec fn spec_len(&self) -> nat {
        self.entries@.len()
    }

    /// Key of the `i`-th entry.
    pub closed spec fn spec_key(&self, i: int) -> Seq<char> {
        self.entries@[i].0@
    }

    /// Value of the `i`-th entry.
    pub closed spec fn spec_value(&self, i: int) -> V {
        self.entries@[i].1
    }

    /// No key occurs twice. Every map that a program holds is so.
    #[verifier::type_invariant]
    pub open spec fn wf(&self) -> bool {
        forall|i: int, j: int|
            0 <= i < j < self.spec_len() ==> self.spec_key(i) != self.spec_key(j)
    }

    /// True when some entry has the key `k`.
    pub open spec fn has(&self, k: Seq<char>) -> bool {
        exists|i: int| 0 <= i < self.spec_len() && #[trigger] self.spec_key(i) == k
    }

    /// Position of the entry with key `k`, where there is one.
    pub open spec fn index_of(&self, k: Seq<char>) -> int {
        choose|i: int| 0 <= i < self.spec_len() && #[trigger] self.spec_key(i) == k
    }

    /// The map that the entries stand for.
    pub open spec fn model(&self) -> Map<Seq<char>, V> {
        Map::new(|k: Seq<char>| self.has(k), |k: Seq<char>| self.spec_value(self.index_of(k)))
    }

    /// The views of a well-formed map and of its model agree key by key.
    pub proof fn lemma_view(&self)
        ensures
            forall|k: Seq<char>| self@.contains_key(k) == self.model().contains_key(k),
            forall|k: Seq<char>| self@.contains_key(k) ==> #[trigger] self@[k] == self.model()[k]@,
    {
    }

    /// In a well-formed map the `i`-th entry is what the model holds under its key.
    pub proof fn lemma_entry(&self, i: int)
        requires
            self.wf(),
            0 <= i < self.spec_len(),
        ensures
            self.model().contains_key(self.spec_key(i)),
            self.index_of(self.spec_key(i)) == i,
            self.model()[self.spec_key(i)] == self.spec_value(i),
    {
        let k = self.spec_key(i);
        let j = self.index_of(k);
        assert(0 <= j < self.spec_len() && self.spec_key(j) == k);
        if j < i {
            assert(self.spec_key(j) != self.spec_key(i));
        } else if i < j {
            assert(self.spec_key(i) != self.spec_key(j));
        }
    }

    /// Every key of the model is the key of some entry.
    pub proof fn lemma_has(&self, k: Seq<char>)
        requires
            self.model().contains_key(k),
        ensures
            0 <= self.index_of(k) < self.spec_len(),
            self.spec_key(self.index_of(k)) == k,
            self.model()[k] == self.spec_value(self.index_of(k)),
    {
    }

    /// An empty map.
    pub fn new() -> (r: Self)
        ensures
            r.wf(),
            r.spec_len() == 0,
            r.model() == Map::<Seq<char>, V>::empty(),
            r@ == Map::<Seq<char>, V::V>::empty(),
    {
        let entries: Vec<(String, V)> = Vec::new();
        let r = TextMap { entries };
        assert(r.model() =~= Map::<Seq<char>, V>::empty());
        assert(r@ =~= Map::<Seq<char>, V::V>::empty());
        r
    }

    /// Number of entries.
    pub fn len(&self) -> (n: usize)
        ensures
            n == self.spec_len(),
    {
        self.entries.len()
    }

    /// Key of the `i`-th entry.
    pub fn key_at(&self, i: usize) -> (k: &String)
        requires
            i < self.spec_len(),
        ensures
            k@ == self.spec_key(i as int),
    {
        &self.entries[i].0
    }

    /// Value of the `i`-th entry.
    pub fn value_at(&self, i: usize) -> (v: &V)
        requires
            i < self.spec_len(),
        ensures
            *v == self.spec_value(i as int),
    {
        &self.entries[i].1
    }

    /// Position of the entry with the given key.
    pub fn position(&self, key: &str) -> (r: Option<usize>)
        ensures
            match r {
                Some(i) => i < self.spec_len() && self.spec_key(i as int) == key@,
                None => !self.has(key@),
            },
    {
        let mut i: usize = 0;
        while i < self.entries.len()
            invariant
                i <= self.entries.len(),
                forall|j: int| 0 <= j < i ==> self.spec_key(j) != key@,
            decreases self.entries.len() - i,
        {
            if str_eq(self.entries[i].0.as_str(), key) {
                return Some(i);
            }
            i = i + 1;
        }
        None
    }

    /// True when the map has an entry for `key`.
    pub fn contains_key(&self, key: &str) -> (r: bool)
        ensures
            r == self.model().contains_key(key@),
            r == self@.contains_key(key@),
    {
        self.position(key).is_some()
    }

    /// The value under `key`, if the map has one.
    pub fn get(&self, key: &str) -> (r: Option<&V>)
        ensures
            match r {
                Some(v) => self.model().contains_key(key@) && *v == self.model()[key@]
                    && self@.contains_key(key@) && v@ == self@[key@],
                None => !self.model().contains_key(key@) && !self@.contains_key(key@),
            },
    {
        match self.position(key) {
            Some(i) => {
                proof {
                    use_type_invariant(self);
                    self.lemma_entry(i as int);
                }
                Some(&self.entries[i].1)
            },
            None => None,
        }
    }

    /// Puts `value` under `key`. Where the key was present its value is replaced
    /// and the old one returned.
    pub fn insert(&mut self, key: String, value: V) -> (r: Option<V>)
        ensures
            final(self).wf(),
            final(self).model() == old(self).model().insert(key@, value),
            final(self)@ == old(self)@.insert(key@, value@),
            forall|i: int|
                0 <= i < old(self).spec_len() && old(self).spec_key(i) != key@
                    ==> final(self).spec_key(i) == old(self).spec_key(i)
                    && final(self).spec_value(i) == old(self).spec_value(i),
            match r {
                Some(v) => old(self).model().contains_key(key@) && v == old(self).model()[key@]
                    && final(self).spec_len() == old(self).spec_len(),
                None => !old(self).model().contains_key(key@)
                    && final(self).spec_len() == old(self).spec_len() + 1,
            },
    {
        let ghost before = *self;
        proof {
            use_type_invariant(&*self);
        }
        match self.position(key.as_str()) {
            Some(i) => {
                proof {
                    before.lemma_entry(i as int);
                }
                let mut entry = (key, value);
                let mut entries: Vec<(String, V)> = Vec::new();
                std::mem::swap(&mut self.entries, &mut entries);
                std::mem::swap(&mut entries[i], &mut entry);
                proof {
                    assert forall|a: int, b: int| 0 <= a < b < entries@.len() implies entries@[a].0@
                        != entries@[b].0@ by {
                        assert(before.spec_key(a) != before.spec_key(b));
                    }
                }
                std::mem::swap(&mut self.entries, &mut entries);
                proof {
                    let after = *self;
                    assert forall|j: int| 0 <= j < after.spec_len() implies after.spec_key(j)
                        == before.spec_key(j) by {}
                    assert(after.wf());
                    assert forall|k: Seq<char>| after.has(k) == before.has(k) by {
                        if before.has(k) {
                            let j = before.index_of(k);
                            assert(after.spec_key(j) == k);
                        }
                        if after.has(k) {
                            let j = after.index_of(k);
                            assert(before.spec_key(j) == k);
                        }
                    }
                    assert(before.has(key@));
                    assert forall|k: Seq<char>| after.has(k) implies #[trigger] after.model()[k]
                        == before.model().insert(key@, value)[k] by {
                        let j = after.index_of(k);
                        after.lemma_entry(j);
                        before.lemma_entry(j);
                    }
                    assert(after.model() =~= before.model().insert(key@, value));
                    assert(after@ =~= before@.insert(key@, value@));
                }
                Some(entry.1)
            },
            None => {
                let mut entries: Vec<(String, V)> = Vec::new();
                std::mem::swap(&mut self.entries, &mut entries);
                entries.push((key, value));
                proof {
                    assert forall|i: int, j: int| 0 <= i < j < entries@.len() implies entries@[i].0@
                        != entries@[j].0@ by {
                        if j < before.spec_len() {
                            assert(before.spec_key(i) != before.spec_key(j));
                        } else {
                            assert(before.spec_key(i) != key@);
                        }
                    }
                }
                std::mem::swap(&mut self.entries, &mut entries);
                proof {
                    let after = *self;
                    let n = before.spec_len() as int;
                    assert forall|j: int| 0 <= j < n implies after.spec_key(j) == before.spec_key(
                        j,
                    ) && after.spec_value(j) == before.spec_value(j) by {}
                    assert(after.spec_key(n) == key@);
                    assert(after.wf()) by {
                        assert forall|i: int, j: int| 0 <= i < j < after.spec_len() implies
                            after.spec_key(i) != after.spec_key(j) by {
                            if j < n {
                                assert(before.spec_key(i) != before.spec_key(j));
                            } else {
                                assert(before.spec_key(i) != key@);
                            }
                        }
                    }
                    assert forall|k: Seq<char>| after.has(k) == (before.has(k) || k == key@) by {
                        if before.has(k) {
                            let j = before.index_of(k);
                            assert(after.spec_key(j) == k);
                        }
                        if after.has(k) {
                            let j = after.index_of(k);
                            if j < n {
                                assert(before.spec_key(j) == k);
                            }
                        }
                    }
                    assert forall|k: Seq<char>| after.has(k) implies #[trigger] after.model()[k]
                        == before.model().insert(key@, value)[k] by {
                        let j = after.index_of(k);
                        after.lemma_entry(j);
                        if j < n {
                            before.lemma_entry(j);
                        }
                    }
                    assert(after.model() =~= before.model().insert(key@, value));
                    assert(after@ =~= before@.insert(key@, value@));
                }
                None
            },
        }
    }
}

impl<V: View + Clone> Clone for TextMap<V> {
    /// A map with the same keys in the same order, each with a clone of its
    /// value.
    fn clone(&self) -> (r: Self)
        ensures
            r.spec_len() == self.spec_len(),
            forall|i: int| 0 <= i < self.spec_len() ==> r.spec_key(i) == self.spec_key(i),
    {
        proof {
            use_type_invariant(self);
        }
        let mut entries: Vec<(String, V)> = Vec::new();
        let mut i: usize = 0;
        while i < self.entries.len()
            invariant
                i <= self.entries@.len(),
                entries@.len() == i,
                forall|j: int| 0 <= j < i ==> (#[trigger] entries@[j]).0@ == self.entries@[j].0@,
            decreases self.entries@.len() - i,
        {
            entries.push((self.entries[i].0.clone(), self.entries[i].1.clone()));
            i = i + 1;
        }
        proof {
            assert forall|a: int, b: int| 0 <= a < b < entries@.len() implies entries@[a].0@
                != entries@[b].0@ by {
                assert(self.spec_key(a) != self.spec_key(b));
            }
        }
        TextMap { entries }
    }
}

} // verus!
