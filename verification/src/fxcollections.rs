//! The operations that a node performs on fxhash's hash sets and hash maps.
//!
//! `FxHashSet` and `FxHashMap` are std's `HashSet` and `HashMap` built with
//! fxhash's `FxHasher`, a deterministic hasher. The contracts below state
//! what std's documentation promises of each call, over the views that vstd
//! gives these types (`Set` and `Map`); Verus believes them unchecked.
use vstd::prelude::*;

use fxhash::{FxHashMap, FxHashSet};

use crate::raft::{LogIndex, NodeId};

verus! {

/// std's `BuildHasherDefault`, the hasher builder that fxhash's collections
/// are parameterised with; opaque here.
#[verifier::external_type_specification]
#[verifier::external_body]
#[verifier::reject_recursive_types(H)]
pub struct ExBuildHasherDefault<H>(std::hash::BuildHasherDefault<H>);

/// fxhash's `FxHasher`; opaque here.
#[verifier::external_type_specification]
#[verifier::external_body]
pub struct ExFxHasher(fxhash::FxHasher);

/// `HashSet::insert`: adds `v` to the set and says whether it was absent.
#[verifier::external_body]
pub(crate) fn set_insert(s: &mut FxHashSet<NodeId>, v: NodeId) -> (added: bool)
    ensures
        final(s)@ == old(s)@.insert(v),
        added == !old(s)@.contains(v),
{
    s.insert(v)
}

/// `HashSet::len`: the number of elements of the set.
#[verifier::external_body]
pub(crate) fn set_len(s: &FxHashSet<NodeId>) -> (n: usize)
    ensures
        n == s@.len(),
{
    s.len()
}

/// `HashSet::contains`: whether `v` is an element of the set.
#[verifier::external_body]
pub(crate) fn set_contains(s: &FxHashSet<NodeId>, v: &NodeId) -> (found: bool)
    ensures
        found == s@.contains(*v),
{
    s.contains(v)
}

/// `HashSet::clone`: a set with the same elements.
#[verifier::external_body]
pub(crate) fn set_clone(s: &FxHashSet<NodeId>) -> (c: FxHashSet<NodeId>)
    ensures
        c@ == s@,
{
    s.clone()
}

/// `HashSet::iter`, collected: each element of the set once, in the
/// unspecified order in which the set is walked.
#[verifier::external_body]
pub(crate) fn set_elements(s: &FxHashSet<NodeId>) -> (v: Vec<NodeId>)
    ensures
        v@.to_set() == s@,
        v@.no_duplicates(),
{
    s.iter().copied().collect()
}

/// `HashMap::insert`: maps `k` to `v`, replacing any earlier value of `k`.
#[verifier::external_body]
pub(crate) fn map_insert(m: &mut FxHashMap<NodeId, LogIndex>, k: NodeId, v: LogIndex)
    ensures
        final(m)@ == old(m)@.insert(k, v),
{
    m.insert(k, v);
}

/// `HashMap::keys`, collected: each key of the map once, in the unspecified
/// order in which the map is walked.
#[verifier::external_body]
pub(crate) fn map_keys(m: &FxHashMap<NodeId, LogIndex>) -> (ks: Vec<NodeId>)
    ensures
        ks@.to_set() == m@.dom(),
        ks@.no_duplicates(),
{
    m.keys().copied().collect()
}

/// `HashMap::get` followed by `Option::unwrap`, on a key that the map holds:
/// the value of that key.
#[verifier::external_body]
pub(crate) fn get_and_unwrap<'a>(m: &'a FxHashMap<NodeId, LogIndex>, key: &'a NodeId) -> (v:
    &'a LogIndex)
    requires
        m@.contains_key(*key),
    ensures
        *v == m@[*key],
{
    m.get(key).unwrap()
}

} // verus!
