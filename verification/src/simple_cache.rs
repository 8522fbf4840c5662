//! The plainest store: a keyed map with no expiry, offered through the
//! common `Cache` interface.
use vstd::prelude::*;

use std::collections::HashMap;

use crate::cache::traits::{key_model_holds, Cache, CacheKey, CacheValue};

verus! {

broadcast use vstd::std_specs::hash::group_hash_axioms;

/// A keyed map without expiry. Its view is the underlying map.
pub struct SimpleCache<K, V> {
    inner: HashMap<K, V>,
}

impl<K, Val> View for SimpleCache<K, Val> {
    type V = Map<K, Val>;

    closed spec fn view(&self) -> Map<K, Val> {
        self.inner@
    }
}

impl<K: core::hash::Hash + Eq, V> SimpleCache<K, V> {
    /// An empty store.
    pub fn new() -> (r: Self)
        ensures
            r@ == Map::<K, V>::empty(),
    {
        SimpleCache { inner: HashMap::new() }
    }

    /// Looks `key` up: a clone of the stored value exactly when an entry
    /// exists.
    pub fn lookup(&self, key: &K) -> (r: Option<V>) where V: Clone
        ensures
            key_model_holds::<K>() ==> match r {
                Some(v) => self@.contains_key(*key) && cloned(self@[*key], v),
                None => !self@.contains_key(*key),
            },
    {
        match self.inner.get(key) {
            Some(v) => Some(v.clone()),
            None => None,
        }
    }

    /// Inserts or replaces the value under `key`; returns the displaced
    /// value if the key was present.
    pub fn insert(&mut self, key: K, value: V) -> (prev: Option<V>)
        ensures
            key_model_holds::<K>() ==> {
                &&& final(self)@ == old(self)@.insert(key, value)
                &&& match prev {
                    Some(v) => old(self)@.contains_key(key) && v == old(self)@[key],
                    None => !old(self)@.contains_key(key),
                }
            },
    {
        self.inner.insert(key, value)
    }

    /// Deletes the entry under `key`; returns the prior value if the key was
    /// present.
    pub fn delete(&mut self, key: &K) -> (prev: Option<V>)
        ensures
            key_model_holds::<K>() ==> {
                &&& final(self)@ == old(self)@.remove(*key)
                &&& match prev {
                    Some(v) => old(self)@.contains_key(*key) && v == old(self)@[*key],
                    None => !old(self)@.contains_key(*key),
                }
            },
    {
        self.inner.remove(key)
    }
}

impl<K: CacheKey, V: CacheValue> Cache<K, V> for SimpleCache<K, V> {
    fn get(&self, key: &K) -> Option<V> {
        self.lookup(key)
    }

    fn set(&mut self, key: K, value: V) -> Option<V> {
        self.insert(key, value)
    }

    fn remove(&mut self, key: &K) -> Option<V> {
        self.delete(key)
    }
}

} // verus!
