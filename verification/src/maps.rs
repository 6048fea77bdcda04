//! Helpers for walking the keys of a `HashMap`.
use std::collections::HashMap;
use vstd::prelude::*;
use vstd::std_specs::iter::IteratorSpec;

verus! {

broadcast use vstd::std_specs::hash::group_hash_axioms;

/// The keys of `m`, each once, in the order in which the map hands them out.
pub fn keys_of<V>(m: &HashMap<u32, V>) -> (r: Vec<u32>)
    ensures
        r@.to_set() == m@.dom(),
        r@.no_duplicates(),
{
    let mut r: Vec<u32> = Vec::new();
    for k in it: m.keys()
        invariant
            r@ == it.seq().take(it.index() as int).unref(),
            it.seq().unref().to_set() == m@.dom(),
            it.seq().unref().no_duplicates(),
            it.index() == it.seq().len() ==> r@.to_set() == m@.dom() && r@.no_duplicates(),
    {
        r.push(*k);
        proof {
            assert(r@ =~= it.seq().take(it.index() as int + 1).unref());
            assert(it.seq().take(it.seq().len() as int) =~= it.seq());
        }
    }
    r
}

/// The keys of `m`, each once, in the order in which the map hands them out.
pub fn usize_keys_of<V>(m: &HashMap<usize, V>) -> (r: Vec<usize>)
    ensures
        r@.to_set() == m@.dom(),
        r@.no_duplicates(),
{
    let mut r: Vec<usize> = Vec::new();
    for k in it: m.keys()
        invariant
            r@ == it.seq().take(it.index() as int).unref(),
            it.seq().unref().to_set() == m@.dom(),
            it.seq().unref().no_duplicates(),
            it.index() == it.seq().len() ==> r@.to_set() == m@.dom() && r@.no_duplicates(),
    {
        r.push(*k);
        proof {
            assert(r@ =~= it.seq().take(it.index() as int + 1).unref());
            assert(it.seq().take(it.seq().len() as int) =~= it.seq());
        }
    }
    r
}

/// The keys of `m`, each once, in the order in which the map hands them out.
pub fn u64_keys_of<V>(m: &HashMap<u64, V>) -> (r: Vec<u64>)
    ensures
        r@.to_set() == m@.dom(),
        r@.no_duplicates(),
{
    let mut r: Vec<u64> = Vec::new();
    for k in it: m.keys()
        invariant
            r@ == it.seq().take(it.index() as int).unref(),
            it.seq().unref().to_set() == m@.dom(),
            it.seq().unref().no_duplicates(),
            it.index() == it.seq().len() ==> r@.to_set() == m@.dom() && r@.no_duplicates(),
    {
        r.push(*k);
        proof {
            assert(r@ =~= it.seq().take(it.index() as int + 1).unref());
            assert(it.seq().take(it.seq().len() as int) =~= it.seq());
        }
    }
    r
}

} // verus!
