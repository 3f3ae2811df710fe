//! A map that holds at most one value of each type.

use std::collections::HashMap;
use std::sync::Arc;

use vstd::prelude::*;

verus! {

broadcast use vstd::std_specs::hash::group_hash_axioms;

/// Values by their type.
///
/// A type is given by a number that no other type has. Values are shared between the maps that
/// hold them.
pub struct TypeMap<V> {
    pub map: Option<HashMap<u64, Arc<V>>>,
}

impl<V> TypeMap<V> {
    /// The values, by the numbers of their types.
    pub open spec fn view(self) -> Map<u64, V> {
        match self.map {
            Some(map) => Map::new(|k: u64| map@.dom().contains(k), |k: u64| *map@[k]),
            None => Map::empty(),
        }
    }

    /// A map without values.
    pub fn new() -> (r: Self)
        ensures
            r@ == Map::<u64, V>::empty(),
    {
        TypeMap { map: None }
    }

    /// The value of the type, if there is one.
    pub fn get(&self, type_id: u64) -> (r: Option<&V>)
        ensures
            match r {
                Some(v) => self@.dom().contains(type_id) && *v == self@[type_id],
                None => !self@.dom().contains(type_id),
            },
    {
        match &self.map {
            Some(map) => match map.get(&type_id) {
                Some(v) => Some(&**v),
                None => None,
            },
            None => None,
        }
    }

    /// Whether there is a value of the type.
    pub fn contains(&self, type_id: u64) -> (r: bool)
        ensures
            r == self@.dom().contains(type_id),
    {
        match &self.map {
            Some(map) => map.contains_key(&type_id),
            None => false,
        }
    }

    /// Adds a value, in the place of the one of the same type if there is one.
    pub fn insert(&mut self, type_id: u64, v: V)
        ensures
            final(self)@ == old(self)@.insert(type_id, v),
    {
        let mut map = match self.map.take() {
            Some(map) => map,
            None => HashMap::new(),
        };
        map.insert(type_id, Arc::new(v));
        self.map = Some(map);
        proof {
            assert(self@ =~= old(self)@.insert(type_id, v));
        }
    }

    /// Removes the value of the type, if there is one.
    pub fn remove(&mut self, type_id: u64)
        ensures
            final(self)@ == old(self)@.remove(type_id),
    {
        if let Some(mut map) = self.map.take() {
            map.remove(&type_id);
            self.map = Some(map);
        }
        proof {
            assert(self@ =~= old(self)@.remove(type_id));
        }
    }

    /// Removes all values.
    pub fn clear(&mut self)
        ensures
            final(self)@ == Map::<u64, V>::empty(),
    {
        self.map = None;
    }

    /// Adds all values of `other`, each in the place of the one of the same type.
    pub fn extend(&mut self, other: &Self)
        ensures
            final(self)@ == old(self)@.union_prefer_right(other@),
    {
        let other_map = match &other.map {
            None => {
                proof {
                    assert(self@ =~= self@.union_prefer_right(other@));
                }
                return;
            },
            Some(other_map) => other_map,
        };
        let mut map = match self.map.take() {
            Some(map) => map,
            None => HashMap::new(),
        };
        let ghost before = map@;
        for entry in it: other_map.iter()
            invariant
                forall|k: u64|
                    #[trigger] map@.dom().contains(k) <==> before.dom().contains(k) || exists|i: int|
                        0 <= i < it.index() && *(#[trigger] it.seq()[i]).0 == k,
                forall|k: u64| #[trigger]
                    map@.dom().contains(k) ==> map@[k] == if exists|i: int|
                        0 <= i < it.index() && *(#[trigger] it.seq()[i]).0 == k {
                        other_map@[k]
                    } else {
                        before[k]
                    },
                forall|i: int|
                    0 <= i < it.seq().len() ==> other_map@.dom().contains(
                        *(#[trigger] it.seq()[i]).0,
                    ) && other_map@[*it.seq()[i].0] == *it.seq()[i].1,
                forall|k: u64| #[trigger]
                    other_map@.dom().contains(k) ==> it.seq().contains((&k, &other_map@[k])),
        {
            let (k, v) = entry;
            proof {
                assert(*it.seq()[it.index()].0 == *k);
            }
            map.insert(*k, v.clone());
        }
        self.map = Some(map);
        proof {
            assert(self@ =~= old(self)@.union_prefer_right(other@));
        }
    }
}

impl<V> Default for TypeMap<V> {
    fn default() -> (r: Self)
        ensures
            r@ == Map::<u64, V>::empty(),
    {
        TypeMap::new()
    }
}

impl<V> Clone for TypeMap<V> {
    /// A map with the same values.
    fn clone(&self) -> (r: Self)
        ensures
            r@ == self@,
    {
        let mut r = TypeMap::new();
        r.extend(self);
        proof {
            assert(r@ =~= self@);
        }
        r
    }
}

} // verus!
