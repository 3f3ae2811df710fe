//! A map from strings to values that keeps its entries in the order in which they came.

use vstd::prelude::*;

use crate::text::same;

verus! {

/// Entries by name, each name at most once, in the order in which the names came.
pub struct Table<V> {
    pub entries: Vec<(String, V)>,
}

/// The names of a sequence of entries.
pub open spec fn names<V>(entries: Seq<(String, V)>) -> Seq<Seq<char>> {
    Seq::new(entries.len(), |i: int| entries[i].0@)
}

impl<V> Table<V> {
    /// The names, in order.
    pub open spec fn keys(self) -> Seq<Seq<char>> {
        names(self.entries@)
    }

    /// No name occurs twice.
    pub open spec fn wf(self) -> bool {
        self.keys().no_duplicates()
    }

    /// The entries as a map.
    pub open spec fn view(self) -> Map<Seq<char>, V> {
        Map::new(
            |k: Seq<char>| self.keys().contains(k),
            |k: Seq<char>| self.entries@[self.keys().index_of(k)].1,
        )
    }

    /// What the map holds under the name at index `i`.
    pub proof fn lemma_index(self, i: int)
        requires
            self.wf(),
            0 <= i < self.entries@.len(),
        ensures
            self@.dom().contains(self.entries@[i].0@),
            self@[self.entries@[i].0@] == self.entries@[i].1,
    {
        assert(self.keys()[i] == self.entries@[i].0@);
        assert(self.keys().contains(self.keys()[i]));
        let j = self.keys().index_of(self.keys()[i]);
        assert(self.keys()[j] == self.keys()[i]);
    }

    /// A table without entries.
    pub fn new() -> (r: Self)
        ensures
            r.wf(),
            r.keys() == Seq::<Seq<char>>::empty(),
            r@ == Map::<Seq<char>, V>::empty(),
    {
        let r = Table { entries: Vec::new() };
        proof {
            assert(r.keys() =~= Seq::<Seq<char>>::empty());
            assert(r@ =~= Map::<Seq<char>, V>::empty());
        }
        r
    }

    /// Where the entry named `key` stands.
    pub fn position(&self, key: &str) -> (r: Option<usize>)
        requires
            self.wf(),
        ensures
            match r {
                Some(i) => i < self.entries@.len() && self.keys()[i as int] == key@
                    && self@.dom().contains(key@) && self@[key@] == self.entries@[i as int].1,
                None => !self@.dom().contains(key@),
            },
    {
        let mut i: usize = 0;
        while i < self.entries.len()
            invariant
                self.wf(),
                i <= self.entries@.len(),
                forall|j: int| 0 <= j < i ==> self.keys()[j] != key@,
            decreases self.entries@.len() - i,
        {
            if same(self.entries[i].0.as_str(), key) {
                proof {
                    self.lemma_index(i as int);
                }
                return Some(i);
            }
            i = i + 1;
        }
        None
    }

    /// Whether there is an entry named `key`.
    pub fn contains_key(&self, key: &str) -> (r: bool)
        requires
            self.wf(),
        ensures
            r == self@.dom().contains(key@),
    {
        match self.position(key) {
            Some(_) => true,
            None => false,
        }
    }

    /// The value of the entry named `key`.
    pub fn get(&self, key: &str) -> (r: Option<&V>)
        requires
            self.wf(),
        ensures
            match r {
                Some(v) => self@.dom().contains(key@) && *v == self@[key@],
                None => !self@.dom().contains(key@),
            },
    {
        match self.position(key) {
            Some(i) => Some(&self.entries[i].1),
            None => None,
        }
    }

    /// Removes the entry named `key` and returns its value.
    pub fn remove(&mut self, key: &str) -> (r: Option<V>)
        requires
            old(self).wf(),
        ensures
            final(self).wf(),
            final(self)@ == old(self)@.remove(key@),
            match r {
                Some(v) => old(self)@.dom().contains(key@) && v == old(self)@[key@],
                None => !old(self)@.dom().contains(key@) && *final(self) == *old(self),
            },
            forall|k: Seq<char>|
                final(self).keys().contains(k) <==> old(self).keys().contains(k) && k != key@,
    {
        match self.position(key) {
            Some(i) => {
                let ghost before = *self;
                let entry = self.entries.remove(i);
                proof {
                    let after = *self;
                    assert(after.entries@ == before.entries@.remove(i as int));
                    assert(after.keys() =~= before.keys().remove(i as int));
                    assert forall|a: int, b: int|
                        0 <= a < b < after.keys().len() implies after.keys()[a]
                        != after.keys()[b] by {
                        let a0 = if a < i { a } else { a + 1 };
                        let b0 = if b < i { b } else { b + 1 };
                        assert(before.keys()[a0] != before.keys()[b0]);
                    }
                    assert forall|k: Seq<char>|
                        after.keys().contains(k) <==> (before.keys().contains(k) && k != key@) by {
                        if after.keys().contains(k) {
                            let a = choose|a: int| 0 <= a < after.keys().len() && after.keys()[a] == k;
                            let a0 = if a < i { a } else { a + 1 };
                            assert(before.keys()[a0] == k);
                            assert(a0 != i);
                        }
                        if before.keys().contains(k) && k != key@ {
                            let b = choose|b: int| 0 <= b < before.keys().len() && before.keys()[b] == k;
                            let b0 = if b < i { b } else { b - 1 };
                            assert(after.keys()[b0] == k);
                        }
                    }
                    assert forall|k: Seq<char>| after.keys().contains(k) implies #[trigger] after@[k]
                        == before@[k] by {
                        let a = choose|a: int| 0 <= a < after.keys().len() && after.keys()[a] == k;
                        let a0 = if a < i { a } else { a + 1 };
                        assert(before.keys()[a0] == k);
                        after.lemma_index(a);
                        before.lemma_index(a0);
                    }
                    assert(after@ =~= before@.remove(key@));
                }
                Some(entry.1)
            },
            None => {
                proof {
                    assert(self@ =~= self@.remove(key@));
                }
                None
            },
        }
    }

    /// Adds an entry, in the place of the one with the same name if there is one, else as the last.
    pub fn insert(&mut self, key: String, value: V)
        requires
            old(self).wf(),
        ensures
            final(self).wf(),
            final(self)@ == old(self)@.insert(key@, value),
            forall|k: Seq<char>|
                final(self).keys().contains(k) <==> old(self).keys().contains(k) || k == key@,
            old(self)@.dom().contains(key@) ==> final(self).keys() == old(self).keys(),
            !old(self)@.dom().contains(key@) ==> final(self).keys() == old(self).keys().push(key@),
    {
        let ghost before = *self;
        match self.position(key.as_str()) {
            Some(i) => {
                self.entries[i] = (key, value);
                proof {
                    assert(self.keys() =~= before.keys());
                    assert forall|k: Seq<char>| self.keys().contains(k) implies #[trigger] self@[k]
                        == before@.insert(key@, value)[k] by {
                        let a = choose|a: int| 0 <= a < self.keys().len() && self.keys()[a] == k;
                        self.lemma_index(a);
                        before.lemma_index(a);
                        before.lemma_index(i as int);
                    }
                    assert(self@ =~= before@.insert(key@, value));
                }
            },
            None => {
                self.entries.push((key, value));
                proof {
                    let n = before.keys().len();
                    assert(self.keys() =~= before.keys().push(key@));
                    assert(self.keys()[n as int] == key@);
                    assert forall|k: Seq<char>|
                        self.keys().contains(k) <==> (before.keys().contains(k) || k == key@) by {
                        if before.keys().contains(k) {
                            let b = choose|b: int| 0 <= b < before.keys().len() && before.keys()[b] == k;
                            assert(self.keys()[b] == k);
                        }
                    }
                    assert forall|k: Seq<char>| self.keys().contains(k) implies #[trigger] self@[k]
                        == before@.insert(key@, value)[k] by {
                        let a = choose|a: int| 0 <= a < self.keys().len() && self.keys()[a] == k;
                        self.lemma_index(a);
                        if a < n {
                            before.lemma_index(a);
                        }
                    }
                    assert(self@ =~= before@.insert(key@, value));
                }
            },
        }
    }
}

} // verus!
