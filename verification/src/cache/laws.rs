//! Laws of the byte store's TTL discipline, stated over the store's view —
//! the same map and expiry predicate that the contracts of `get`, `set`,
//! `remove` and `run_eviction` speak of.
use vstd::prelude::*;

use super::byte_cache::{entry_expired, EntryModel};

verus! {

/// Value `v` is observable for key `k` at instant `now` in store contents
/// `m`: an entry exists, it is not expired, and it holds `v`. This is
/// exactly when `ByteCache::get` returns `Some(v)`.
pub open spec fn observes(m: Map<Seq<u8>, EntryModel>, k: Seq<u8>, now: u64, v: Seq<u8>) -> bool {
    m.contains_key(k) && !entry_expired(m[k], now) && v == m[k].0
}

/// At most one entry per key: any two values observable for the same key at
/// the same instant are the same value.
pub proof fn lemma_at_most_one_entry(
    m: Map<Seq<u8>, EntryModel>,
    k: Seq<u8>,
    now: u64,
    v1: Seq<u8>,
    v2: Seq<u8>,
)
    requires
        observes(m, k, now, v1),
        observes(m, k, now, v2),
    ensures
        v1 == v2,
{
}

/// Past its deadline an entry is invisible: at every instant strictly after
/// the deadline, no value is observable for the key.
pub proof fn lemma_expired_entry_absent(m: Map<Seq<u8>, EntryModel>, k: Seq<u8>, d: u64, now: u64)
    requires
        m.contains_key(k),
        m[k].1 == Some(d),
        now > d,
    ensures
        forall|v: Seq<u8>| !observes(m, k, now, v),
{
}

/// An entry without a ttl never expires: its value stays observable at every
/// instant, as long as no later `set` or `remove` touches its key.
pub proof fn lemma_no_ttl_persists(m: Map<Seq<u8>, EntryModel>, k: Seq<u8>, v: Seq<u8>, now: u64)
    requires
        m.contains_key(k),
        m[k] == (v, Option::<u64>::None),
    ensures
        observes(m, k, now, v),
{
}

/// A `set` on a different key does not disturb what is observable for `k`.
pub proof fn lemma_set_other_key_preserves(
    m: Map<Seq<u8>, EntryModel>,
    k: Seq<u8>,
    other: Seq<u8>,
    e: EntryModel,
    now: u64,
    v: Seq<u8>,
)
    requires
        other != k,
    ensures
        observes(m.insert(other, e), k, now, v) == observes(m, k, now, v),
{
}

/// A `remove` of a different key does not disturb what is observable for
/// `k`.
pub proof fn lemma_remove_other_key_preserves(
    m: Map<Seq<u8>, EntryModel>,
    k: Seq<u8>,
    other: Seq<u8>,
    now: u64,
    v: Seq<u8>,
)
    requires
        other != k,
    ensures
        observes(m.remove(other), k, now, v) == observes(m, k, now, v),
{
}

} // verus!
