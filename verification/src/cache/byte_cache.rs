//! The concurrent byte store: a sharded map from key bytes to an entry of
//! (value bytes, optional expiry deadline).
//!
//! The map itself is `dashmap::DashMap`, taken on trust through the wrappers
//! below; everything around it — the expiry discipline, what `get` may
//! return, what the eviction pass removes — is verified against the map's
//! contents `dash_contents`.
//!
//! Instants are monotonic seconds carried by the caller. An entry is expired
//! exactly when it has a deadline and the current instant is strictly past
//! it.
use vstd::prelude::*;

verus! {

/// One stored entry: the value bytes and the optional expiry deadline, in
/// monotonic seconds. No deadline means "never expires".
#[derive(Debug, Clone)]
pub struct CacheEntry {
    pub data: Vec<u8>,
    pub expires_at: Option<u64>,
}

/// The mathematical shape of an entry: (value bytes, optional deadline).
pub type EntryModel = (Seq<u8>, Option<u64>);

/// Whether an entry is expired at instant `now`: it has a deadline and `now`
/// is strictly past it.
pub open spec fn entry_expired(e: EntryModel, now: u64) -> bool {
    e.1 matches Some(deadline) && now > deadline
}

/// The deadline an insertion with time-to-live `ttl` gets at instant `now`:
/// none when no ttl, otherwise `now + ttl` (saturating at the largest
/// representable instant, which is never reached).
pub open spec fn deadline_for(ttl: Option<u64>, now: u64) -> Option<u64> {
    match ttl {
        Some(secs) => Some(now.saturating_add(secs)),
        None => None,
    }
}

impl CacheEntry {
    /// The entry's mathematical shape.
    pub open spec fn model(&self) -> EntryModel {
        (self.data@, self.expires_at)
    }

    /// Whether this entry is expired at instant `now`.
    pub fn is_expired(&self, now: u64) -> (r: bool)
        ensures
            r == entry_expired(self.model(), now),
    {
        match self.expires_at {
            Some(deadline) => now > deadline,
            None => false,
        }
    }
}

/// The contents of a `DashMap` used as the byte store: which key bytes map
/// to which entry.
pub uninterp spec fn dash_contents(m: dashmap::DashMap<Vec<u8>, CacheEntry>) -> Map<
    Seq<u8>,
    EntryModel,
>;

/// Declares `dashmap::DashMap` so that it can stand in fields and
/// signatures; its behaviour enters only through the wrappers below.
#[verifier::external_type_specification]
#[verifier::external_body]
#[verifier::reject_recursive_types(K)]
#[verifier::reject_recursive_types(V)]
#[verifier::reject_recursive_types(S)]
pub struct ExDashMap<K, V, S>(dashmap::DashMap<K, V, S>);

/// Relies on `DashMap::new`: the fresh map is empty.
#[verifier::external_body]
fn dash_new() -> (r: dashmap::DashMap<Vec<u8>, CacheEntry>)
    ensures
        forall|k: Seq<u8>| !dash_contents(r).contains_key(k),
{
    dashmap::DashMap::new()
}

/// Relies on `DashMap::get`: returns the entry stored under `key`, if any.
#[verifier::external_body]
fn dash_get(m: &dashmap::DashMap<Vec<u8>, CacheEntry>, key: &Vec<u8>) -> (r: Option<CacheEntry>)
    ensures
        match r {
            Some(e) => dash_contents(*m).contains_key(key@) && dash_contents(*m)[key@]
                == e.model(),
            None => !dash_contents(*m).contains_key(key@),
        },
{
    m.get(key).map(|e| e.value().clone())
}

/// Relies on `DashMap::insert`: maps `key` to `e` and returns the displaced
/// entry if the key was present.
#[verifier::external_body]
fn dash_insert(
    m: &mut dashmap::DashMap<Vec<u8>, CacheEntry>,
    key: Vec<u8>,
    e: CacheEntry,
) -> (prev: Option<CacheEntry>)
    ensures
        dash_contents(*final(m)) == dash_contents(*old(m)).insert(key@, e.model()),
        match prev {
            Some(o) => dash_contents(*old(m)).contains_key(key@) && dash_contents(*old(m))[key@]
                == o.model(),
            None => !dash_contents(*old(m)).contains_key(key@),
        },
{
    m.insert(key, e)
}

/// Relies on `DashMap::remove`: deletes the entry under `key` and returns it
/// if the key was present.
#[verifier::external_body]
fn dash_remove(m: &mut dashmap::DashMap<Vec<u8>, CacheEntry>, key: &Vec<u8>) -> (prev: Option<
    CacheEntry,
>)
    ensures
        dash_contents(*final(m)) == dash_contents(*old(m)).remove(key@),
        match prev {
            Some(o) => dash_contents(*old(m)).contains_key(key@) && dash_contents(*old(m))[key@]
                == o.model(),
            None => !dash_contents(*old(m)).contains_key(key@),
        },
{
    m.remove(key).map(|(_, e)| e)
}

/// Relies on `DashMap::iter`: yields every entry exactly once, in no
/// particular order.
#[verifier::external_body]
fn dash_entries(m: &dashmap::DashMap<Vec<u8>, CacheEntry>) -> (r: Vec<(Vec<u8>, CacheEntry)>)
    ensures
        forall|i: int|
            #![trigger r@[i]]
            0 <= i < r@.len() ==> dash_contents(*m).contains_key(r@[i].0@) && dash_contents(
                *m,
            )[r@[i].0@] == r@[i].1.model(),
        forall|k: Seq<u8>|
            #[trigger] dash_contents(*m).contains_key(k) ==> exists|i: int|
                0 <= i < r@.len() && r@[i].0@ == k,
        forall|i: int, j: int|
            #![trigger r@[i], r@[j]]
            0 <= i < j < r@.len() ==> r@[i].0@ != r@[j].0@,
{
    m.iter().map(|e| (e.key().clone(), e.value().clone())).collect()
}

/// The byte store. Its view is the mapping from key bytes to entries; at any
/// observable instant a key has at most one entry, the view being a map.
pub struct ByteCache {
    store: dashmap::DashMap<Vec<u8>, CacheEntry>,
}

impl View for ByteCache {
    type V = Map<Seq<u8>, EntryModel>;

    closed spec fn view(&self) -> Map<Seq<u8>, EntryModel> {
        dash_contents(self.store)
    }
}

impl ByteCache {
    /// An empty store.
    pub fn new() -> (r: Self)
        ensures
            r@ == Map::<Seq<u8>, EntryModel>::empty(),
    {
        ByteCache { store: dash_new() }
    }

    /// Looks `key` up at instant `now`: returns the value bytes exactly when
    /// an entry exists and is not expired. Never removes anything — cleanup
    /// is the eviction pass's job.
    pub fn get(&self, key: &Vec<u8>, now: u64) -> (r: Option<Vec<u8>>)
        ensures
            match r {
                Some(d) => self@.contains_key(key@) && !entry_expired(self@[key@], now) && d@
                    == self@[key@].0,
                None => !self@.contains_key(key@) || entry_expired(self@[key@], now),
            },
    {
        match dash_get(&self.store, key) {
            Some(e) => {
                if e.is_expired(now) {
                    None
                } else {
                    Some(e.data)
                }
            },
            None => None,
        }
    }

    /// Inserts or replaces the entry under `key` at instant `now`, expiring
    /// `ttl` seconds later (never, when `ttl` is `None`). Returns the
    /// displaced value bytes if the key was present — expired or not.
    pub fn set(&mut self, key: Vec<u8>, value: Vec<u8>, ttl: Option<u64>, now: u64) -> (prev:
        Option<Vec<u8>>)
        ensures
            final(self)@ == old(self)@.insert(key@, (value@, deadline_for(ttl, now))),
            match prev {
                Some(d) => old(self)@.contains_key(key@) && d@ == old(self)@[key@].0,
                None => !old(self)@.contains_key(key@),
            },
    {
        let expires_at = match ttl {
            Some(secs) => Some(now.saturating_add(secs)),
            None => None,
        };
        let entry = CacheEntry { data: value, expires_at };
        match dash_insert(&mut self.store, key, entry) {
            Some(o) => Some(o.data),
            None => None,
        }
    }

    /// Deletes the entry under `key` and returns its value bytes if the key
    /// was present.
    pub fn remove(&mut self, key: &Vec<u8>) -> (prev: Option<Vec<u8>>)
        ensures
            final(self)@ == old(self)@.remove(key@),
            match prev {
                Some(d) => old(self)@.contains_key(key@) && d@ == old(self)@[key@].0,
                None => !old(self)@.contains_key(key@),
            },
    {
        match dash_remove(&mut self.store, key) {
            Some(o) => Some(o.data),
            None => None,
        }
    }

    /// The eviction pass: scans the store and removes exactly the entries
    /// expired at instant `now`; every live entry survives unchanged.
    pub fn run_eviction(&mut self, now: u64)
        ensures
            forall|k: Seq<u8>|
                #[trigger] final(self)@.contains_key(k) <==> (old(self)@.contains_key(k)
                    && !entry_expired(old(self)@[k], now)),
            forall|k: Seq<u8>|
                #[trigger] final(self)@.contains_key(k) ==> final(self)@[k] == old(self)@[k],
    {
        let snapshot = dash_entries(&self.store);
        let ghost m0 = self@;
        let mut i: usize = 0;
        while i < snapshot.len()
            invariant
                i <= snapshot@.len(),
                forall|j: int|
                    #![trigger snapshot@[j]]
                    0 <= j < snapshot@.len() ==> m0.contains_key(snapshot@[j].0@)
                        && m0[snapshot@[j].0@] == snapshot@[j].1.model(),
                forall|k: Seq<u8>|
                    #[trigger] m0.contains_key(k) ==> exists|j: int|
                        0 <= j < snapshot@.len() && snapshot@[j].0@ == k,
                forall|j: int, l: int|
                    #![trigger snapshot@[j], snapshot@[l]]
                    0 <= j < l < snapshot@.len() ==> snapshot@[j].0@ != snapshot@[l].0@,
                forall|k: Seq<u8>|
                    #[trigger] self@.contains_key(k) <==> (m0.contains_key(k) && !(exists|j: int|
                        0 <= j < i && snapshot@[j].0@ == k && entry_expired(
                            snapshot@[j].1.model(),
                            now,
                        ))),
                forall|k: Seq<u8>| #[trigger] self@.contains_key(k) ==> self@[k] == m0[k],
            decreases snapshot@.len() - i,
        {
            let ghost prev_view = self@;
            let ghost ii = i as int;
            let ghost ki = snapshot@[ii].0@;
            let expired = snapshot[i].1.is_expired(now);
            if expired {
                dash_remove(&mut self.store, &snapshot[i].0);
            }
            proof {
                assert forall|k: Seq<u8>| #[trigger]
                    self@.contains_key(k) <==> (m0.contains_key(k) && !(exists|j: int|
                        0 <= j < ii + 1 && snapshot@[j].0@ == k && entry_expired(
                            snapshot@[j].1.model(),
                            now,
                        ))) by {
                    let hit = exists|j: int|
                        0 <= j < ii + 1 && snapshot@[j].0@ == k && entry_expired(
                            snapshot@[j].1.model(),
                            now,
                        );
                    let hit_before = exists|j: int|
                        0 <= j < ii && snapshot@[j].0@ == k && entry_expired(
                            snapshot@[j].1.model(),
                            now,
                        );
                    if k == ki {
                        // the snapshot holds each key once, so only index ii
                        // can name this key
                        assert(!hit_before) by {
                            if hit_before {
                                let j = choose|j: int|
                                    0 <= j < ii && snapshot@[j].0@ == k && entry_expired(
                                        snapshot@[j].1.model(),
                                        now,
                                    );
                                assert(snapshot@[j].0@ != snapshot@[ii].0@);
                            }
                        }
                        if expired {
                            assert(hit);
                            assert(!self@.contains_key(k));
                        } else {
                            assert(!hit) by {
                                if hit {
                                    let j = choose|j: int|
                                        0 <= j < ii + 1 && snapshot@[j].0@ == k && entry_expired(
                                            snapshot@[j].1.model(),
                                            now,
                                        );
                                    if j < ii {
                                        assert(snapshot@[j].0@ != snapshot@[ii].0@);
                                    }
                                }
                            }
                        }
                    } else {
                        assert(hit == hit_before) by {
                            if hit {
                                let j = choose|j: int|
                                    0 <= j < ii + 1 && snapshot@[j].0@ == k && entry_expired(
                                        snapshot@[j].1.model(),
                                        now,
                                    );
                                assert(j != ii);
                                assert(0 <= j < ii && snapshot@[j].0@ == k && entry_expired(
                                    snapshot@[j].1.model(),
                                    now,
                                ));
                            }
                        }
                        if expired {
                            assert(self@ == prev_view.remove(ki));
                            assert(self@.contains_key(k) == prev_view.contains_key(k));
                        }
                    }
                }
                assert forall|k: Seq<u8>| #[trigger]
                    self@.contains_key(k) implies self@[k] == m0[k] by {
                    if expired {
                        assert(self@ == prev_view.remove(ki));
                        assert(prev_view.contains_key(k) && self@[k] == prev_view[k]);
                    }
                }
            }
            i = i + 1;
        }
        proof {
            assert forall|k: Seq<u8>| #[trigger]
                self@.contains_key(k) <==> (m0.contains_key(k) && !entry_expired(
                    m0[k],
                    now,
                )) by {
                if m0.contains_key(k) {
                    let j = choose|j: int|
                        0 <= j < snapshot@.len() && snapshot@[j].0@ == k;
                    assert(snapshot@[j].1.model() == m0[k]);
                }
            }
        }
    }
}

impl Default for ByteCache {
    /// An empty store.
    fn default() -> (r: Self)
        ensures
            r@ == Map::<Seq<u8>, EntryModel>::empty(),
    {
        ByteCache::new()
    }
}

} // verus!
