//! The elements of hashed collections, in no particular order.

use std::collections::{HashMap, HashSet};
use std::hash::Hash;

use vstd::prelude::*;
use vstd::std_specs::hash::obeys_key_model;
use vstd::std_specs::iter::IteratorSpec;

verus! {

broadcast use vstd::std_specs::hash::group_hash_axioms;

/// The elements of a set, each once.
pub fn set_elements<K: Copy + Eq + Hash>(set: &HashSet<K>) -> (r: Vec<K>)
    requires
        obeys_key_model::<K>(),
    ensures
        r@.no_duplicates(),
        r@.to_set() == set@,
{
    let ghost all = IteratorSpec::remaining(&set.iter()).unref();
    let mut elements: Vec<K> = Vec::new();
    for element in it: set.iter()
        invariant
            it.seq().unref() == all,
            elements@ == all.take(it.index()),
    {
        elements.push(*element);
        proof {
            assert(it.seq().unref()[it.index()] == *element);
            assert(elements@ =~= all.take(it.index() + 1));
        }
    }
    proof {
        assert(elements@ =~= all);
    }
    elements
}

/// The keys of a map, each once.
pub fn map_keys<V>(map: &HashMap<u128, V>) -> (r: Vec<u128>)
    ensures
        r@.no_duplicates(),
        r@.to_set() == map@.dom(),
{
    let ghost all = IteratorSpec::remaining(&map.keys()).unref();
    let mut elements: Vec<u128> = Vec::new();
    for element in it: map.keys()
        invariant
            it.seq().unref() == all,
            elements@ == all.take(it.index()),
    {
        elements.push(*element);
        proof {
            assert(it.seq().unref()[it.index()] == *element);
            assert(elements@ =~= all.take(it.index() + 1));
        }
    }
    proof {
        assert(elements@ =~= all);
    }
    elements
}

} // verus!
