//! A byte-buffer store keyed by any hashable key: entries hold opaque value
//! bytes and an optional expiry deadline. Lookups copy the bytes out, so a
//! reader never holds the store open.
//!
//! `User` is the sample record that a typed cache serialises into such
//! buffers; the serialisation itself is the host program's business.
use vstd::prelude::*;

use std::collections::HashMap;

use crate::cache::byte_cache::deadline_for;
use crate::cache::traits::key_model_holds;
use crate::protocol::wire::copy_bytes;

verus! {

broadcast use vstd::std_specs::hash::group_hash_axioms;

/// One stored entry: value bytes and the optional deadline (monotonic
/// seconds) past which it no longer counts.
#[derive(Clone, Debug)]
pub struct ByteEntry {
    pub data: Vec<u8>,
    pub expires_at: Option<u64>,
}

impl ByteEntry {
    /// Whether the entry is expired at instant `now`.
    pub open spec fn expired_at(&self, now: u64) -> bool {
        self.expires_at matches Some(deadline) && now > deadline
    }

    /// An entry created at instant `now`: with a ttl it expires that many
    /// seconds later, without one it never expires.
    pub fn new(data: Vec<u8>, ttl: Option<u64>, now: u64) -> (r: Self)
        ensures
            r.data == data,
            r.expires_at == deadline_for(ttl, now),
    {
        let expires_at = match ttl {
            Some(secs) => Some(now.saturating_add(secs)),
            None => None,
        };
        ByteEntry { data, expires_at }
    }

    /// Whether this entry is expired at instant `now`.
    pub fn is_expired(&self, now: u64) -> (r: bool)
        ensures
            r == self.expired_at(now),
    {
        match self.expires_at {
            Some(deadline) => now > deadline,
            None => false,
        }
    }
}

/// The byte store. Its view is the underlying map from keys to entries.
pub struct ByteStore<K> {
    inner: HashMap<K, ByteEntry>,
}

impl<K> View for ByteStore<K> {
    type V = Map<K, ByteEntry>;

    closed spec fn view(&self) -> Map<K, ByteEntry> {
        self.inner@
    }
}

impl<K: core::hash::Hash + Eq> ByteStore<K> {
    /// An empty store.
    pub fn new() -> (r: Self)
        ensures
            r@ == Map::<K, ByteEntry>::empty(),
    {
        ByteStore { inner: HashMap::new() }
    }

    /// Looks `key` up at instant `now`: a copy of the value bytes exactly
    /// when an entry exists and is not expired.
    pub fn get(&self, key: &K, now: u64) -> (r: Option<Vec<u8>>)
        ensures
            key_model_holds::<K>() ==> match r {
                Some(d) => self@.contains_key(*key) && !self@[*key].expired_at(now) && d@
                    == self@[*key].data@,
                None => !self@.contains_key(*key) || self@[*key].expired_at(now),
            },
    {
        match self.inner.get(key) {
            Some(entry) => {
                if entry.is_expired(now) {
                    None
                } else {
                    Some(copy_bytes(&entry.data))
                }
            },
            None => None,
        }
    }

    /// Inserts or replaces the entry under `key` at instant `now`, expiring
    /// `ttl` seconds later (never, when `ttl` is `None`).
    pub fn set(&mut self, key: K, data: Vec<u8>, ttl: Option<u64>, now: u64)
        ensures
            key_model_holds::<K>() ==> final(self)@ == old(self)@.insert(
                key,
                ByteEntry { data, expires_at: deadline_for(ttl, now) },
            ),
    {
        let entry = ByteEntry::new(data, ttl, now);
        self.inner.insert(key, entry);
    }
}

/// The sample record stored through the typed cache. The host program
/// serialises it to the aligned byte form this store keeps.
#[derive(Debug, PartialEq)]
pub struct User {
    pub id: u64,
    pub username: String,
    pub email: String,
    pub active_sessions: Vec<String>,
    pub metadata: Vec<u8>,
}

} // verus!
