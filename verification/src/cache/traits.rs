//! The capability bounds a cache asks of its keys and values, and the common
//! cache interface.
use vstd::prelude::*;

verus! {

/// The map contracts of the stores hold when the key type obeys the standard
/// hash-table key model and the default hasher builds valid hashers; every
/// primitive integer key does.
pub open spec fn key_model_holds<K>() -> bool {
    vstd::std_specs::hash::obeys_key_model::<K>()
        && vstd::std_specs::hash::builds_valid_hashers::<std::collections::hash_map::RandomState>()
}

/// What a key type must offer: hashing, byte-exact equality, and free
/// movement between workers.
pub trait CacheKey: core::hash::Hash + Eq + Send + Sync + Clone + core::fmt::Debug + 'static {

}

impl<T> CacheKey for T where
    T: core::hash::Hash + Eq + Send + Sync + Clone + core::fmt::Debug + 'static
 {

}

/// What a stored value must offer.
pub trait CacheValue: Send + Sync + Clone + core::fmt::Debug + 'static {

}

impl<T> CacheValue for T where T: Send + Sync + Clone + core::fmt::Debug + 'static {

}

/// The common interface of the keyed stores: lookup, insert-or-replace
/// returning the displaced value, and removal returning the prior value.
pub trait Cache<K: CacheKey, V: CacheValue> {
    fn get(&self, key: &K) -> Option<V>;

    fn set(&mut self, key: K, value: V) -> Option<V>;

    fn remove(&mut self, key: &K) -> Option<V>;
}

} // verus!
