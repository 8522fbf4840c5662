//! A keyed store whose entries carry an expiry deadline: every insertion
//! lives for a fixed time-to-live, lookups treat expired entries as absent,
//! and a conditional remove lets a monitor delete an entry only if it is
//! still expired at the moment of removal.
//!
//! The host program drives the periodic monitor; the decisions it takes —
//! what counts as expired, what may be removed — are the verified methods
//! here. The map contracts hold whenever the key type obeys the standard
//! hash-table key model (as every primitive integer type does).
use vstd::prelude::*;

use std::collections::HashMap;

use crate::cache::byte_cache::deadline_for;
use crate::cache::traits::key_model_holds;

verus! {

broadcast use vstd::std_specs::hash::group_hash_axioms;

/// Every entry inserted by `TtlCache::set` lives this many seconds.
pub const DEFAULT_TTL_SECS: u64 = 300;

/// One stored entry: a value and the optional deadline (monotonic seconds)
/// past which it no longer counts.
#[derive(Clone, Debug)]
pub struct Entry<V> {
    pub value: V,
    pub expires_at: Option<u64>,
}

impl<V> Entry<V> {
    /// Whether the entry is expired at instant `now`: it has a deadline and
    /// `now` is strictly past it.
    pub open spec fn expired_at(&self, now: u64) -> bool {
        self.expires_at matches Some(deadline) && now > deadline
    }

    /// An entry created at instant `now`: with a ttl it expires that many
    /// seconds later, without one it never expires.
    pub fn new(value: V, ttl: Option<u64>, now: u64) -> (r: Self)
        ensures
            r.value == value,
            r.expires_at == deadline_for(ttl, now),
    {
        let expires_at = match ttl {
            Some(secs) => Some(now.saturating_add(secs)),
            None => None,
        };
        Entry { value, expires_at }
    }

    /// Whether this entry is expired at instant `now`.
    pub fn is_expired(&self, now: u64) -> (r: bool)
        ensures
            r == self.expired_at(now),
    {
        match self.expires_at {
            Some(deadline) => now > deadline,
            None => false,
        }
    }
}

/// The TTL store: a map whose entries all carry the default time-to-live.
/// Its view is the underlying map from keys to entries.
pub struct TtlCache<K, V> {
    store: HashMap<K, Entry<V>>,
}

impl<K, V> View for TtlCache<K, V> {
    type V = Map<K, Entry<V>>;

    closed spec fn view(&self) -> Map<K, Entry<V>> {
        self.store@
    }
}

impl<K: core::hash::Hash + Eq, V> TtlCache<K, V> {
    /// An empty store.
    pub fn new() -> (r: Self)
        ensures
            r@ == Map::<K, Entry<V>>::empty(),
    {
        TtlCache { store: HashMap::new() }
    }

    /// Looks `key` up at instant `now`: a clone of the stored value exactly
    /// when an entry exists and is not expired.
    pub fn get(&self, key: &K, now: u64) -> (r: Option<V>) where V: Clone
        ensures
            key_model_holds::<K>() ==> match r {
                Some(v) => self@.contains_key(*key) && !self@[*key].expired_at(now) && cloned(
                    self@[*key].value,
                    v,
                ),
                None => !self@.contains_key(*key) || self@[*key].expired_at(now),
            },
    {
        match self.store.get(key) {
            Some(entry) => {
                if entry.is_expired(now) {
                    None
                } else {
                    Some(entry.value.clone())
                }
            },
            None => None,
        }
    }

    /// Inserts or replaces the entry under `key` at instant `now`, expiring
    /// `DEFAULT_TTL_SECS` later; returns the displaced value if the key was
    /// present — expired or not.
    pub fn set(&mut self, key: K, value: V, now: u64) -> (prev: Option<V>)
        ensures
            key_model_holds::<K>() ==> {
                &&& final(self)@ == old(self)@.insert(
                    key,
                    Entry { value, expires_at: Some(now.saturating_add(DEFAULT_TTL_SECS)) },
                )
                &&& match prev {
                    Some(v) => old(self)@.contains_key(key) && v == old(self)@[key].value,
                    None => !old(self)@.contains_key(key),
                }
            },
    {
        let entry = Entry::new(value, Some(DEFAULT_TTL_SECS), now);
        match self.store.insert(key, entry) {
            Some(displaced) => Some(displaced.value),
            None => None,
        }
    }

    /// Deletes the entry under `key` and returns its value if the key was
    /// present.
    pub fn remove(&mut self, key: &K) -> (prev: Option<V>)
        ensures
            key_model_holds::<K>() ==> {
                &&& final(self)@ == old(self)@.remove(*key)
                &&& match prev {
                    Some(v) => old(self)@.contains_key(*key) && v == old(self)@[*key].value,
                    None => !old(self)@.contains_key(*key),
                }
            },
    {
        match self.store.remove(key) {
            Some(entry) => Some(entry.value),
            None => None,
        }
    }

    /// The monitor's conditional remove: deletes the entry under `key` only
    /// if one exists and is expired at instant `now`, so a key re-inserted
    /// since it was scanned is never lost while still live.
    pub fn remove_if_expired(&mut self, key: &K, now: u64) -> (removed: bool)
        ensures
            key_model_holds::<K>() ==> {
                &&& removed == (old(self)@.contains_key(*key) && old(self)@[*key].expired_at(now))
                &&& removed ==> final(self)@ == old(self)@.remove(*key)
                &&& !removed ==> final(self)@ == old(self)@
            },
    {
        let expired = match self.store.get(key) {
            Some(entry) => entry.is_expired(now),
            None => false,
        };
        if expired {
            self.store.remove(key);
            true
        } else {
            false
        }
    }
}

} // verus!
