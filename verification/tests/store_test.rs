use rust_kvs::bytestore::{ByteEntry, ByteStore, User};
use rust_kvs::cache::ByteCache;
use rust_kvs::simple_cache::SimpleCache;
use rust_kvs::ttlcache::{Entry, TtlCache, DEFAULT_TTL_SECS};
use rust_kvs::Cache;

#[test]
fn byte_cache_set_get_remove() {
    let mut cache = ByteCache::new();
    assert_eq!(cache.get(&b"k".to_vec(), 0), None);
    assert_eq!(cache.set(b"k".to_vec(), b"v".to_vec(), None, 0), None);
    assert_eq!(cache.get(&b"k".to_vec(), 0), Some(b"v".to_vec()));
    let displaced = cache.set(b"k".to_vec(), b"w".to_vec(), None, 5);
    assert_eq!(displaced, Some(b"v".to_vec()));
    assert_eq!(cache.remove(&b"k".to_vec()), Some(b"w".to_vec()));
    assert_eq!(cache.get(&b"k".to_vec(), 5), None);
}

#[test]
fn byte_cache_ttl_expiry() {
    let mut cache = ByteCache::new();
    cache.set(b"k".to_vec(), b"v".to_vec(), Some(1), 10);
    // observable through the whole ttl, invisible strictly after it
    assert_eq!(cache.get(&b"k".to_vec(), 10), Some(b"v".to_vec()));
    assert_eq!(cache.get(&b"k".to_vec(), 11), Some(b"v".to_vec()));
    assert_eq!(cache.get(&b"k".to_vec(), 12), None);
}

#[test]
fn byte_cache_no_ttl_never_expires() {
    let mut cache = ByteCache::new();
    cache.set(b"k".to_vec(), b"v".to_vec(), None, 0);
    assert_eq!(cache.get(&b"k".to_vec(), u64::MAX), Some(b"v".to_vec()));
}

#[test]
fn byte_cache_eviction_removes_exactly_expired() {
    let mut cache = ByteCache::new();
    cache.set(b"dead".to_vec(), b"1".to_vec(), Some(1), 0);
    cache.set(b"live".to_vec(), b"2".to_vec(), Some(100), 0);
    cache.set(b"forever".to_vec(), b"3".to_vec(), None, 0);
    cache.run_eviction(50);
    // the expired entry is gone even for instants before its deadline
    assert_eq!(cache.get(&b"dead".to_vec(), 0), None);
    assert_eq!(cache.get(&b"live".to_vec(), 50), Some(b"2".to_vec()));
    assert_eq!(cache.get(&b"forever".to_vec(), 50), Some(b"3".to_vec()));
}

#[test]
fn simple_cache_test_simple_cache_get_none() {
    let mut cache = SimpleCache::<u32, u32>::new();
    let mut result = cache.set(2, 2);
    assert_eq!(result, None);
    result = cache.get(&2);
    assert_eq!(result, Some(2));
}

#[test]
fn simple_cache_remove_returns_prior() {
    let mut cache = SimpleCache::<u32, u32>::new();
    assert_eq!(cache.set(1, 10), None);
    assert_eq!(cache.set(1, 11), Some(10));
    assert_eq!(cache.remove(&1), Some(11));
    assert_eq!(cache.remove(&1), None);
    assert_eq!(cache.get(&1), None);
}

#[test]
fn ttl_entry_expiry() {
    let e = Entry::new(5u32, Some(10), 100);
    assert_eq!(e.expires_at, Some(110));
    assert!(!e.is_expired(110));
    assert!(e.is_expired(111));
    let forever = Entry::new(5u32, None, 100);
    assert_eq!(forever.expires_at, None);
    assert!(!forever.is_expired(u64::MAX));
}

#[test]
fn ttl_cache_default_ttl() {
    let mut cache = TtlCache::<u32, u32>::new();
    assert_eq!(cache.set(1, 7, 0), None);
    assert_eq!(cache.get(&1, DEFAULT_TTL_SECS), Some(7));
    assert_eq!(cache.get(&1, DEFAULT_TTL_SECS + 1), None);
}

#[test]
fn ttl_cache_set_get_remove() {
    let mut cache = TtlCache::<u32, u32>::new();
    assert_eq!(cache.get(&1, 0), None);
    assert_eq!(cache.set(1, 7, 0), None);
    assert_eq!(cache.set(1, 8, 0), Some(7));
    assert_eq!(cache.get(&1, 1), Some(8));
    assert_eq!(cache.remove(&1), Some(8));
    assert_eq!(cache.get(&1, 1), None);
}

#[test]
fn ttl_cache_conditional_remove() {
    let mut cache = TtlCache::<u32, u32>::new();
    cache.set(1, 7, 0);
    // still live at the moment of removal: kept
    assert!(!cache.remove_if_expired(&1, 10));
    assert_eq!(cache.get(&1, 10), Some(7));
    // expired at the moment of removal: dropped
    assert!(cache.remove_if_expired(&1, DEFAULT_TTL_SECS + 1));
    assert_eq!(cache.remove(&1), None);
}

#[test]
fn byte_store_set_get() {
    let mut store = ByteStore::<u64>::new();
    assert_eq!(store.get(&1, 0), None);
    store.set(1, b"payload".to_vec(), Some(2), 0);
    assert_eq!(store.get(&1, 2), Some(b"payload".to_vec()));
    assert_eq!(store.get(&1, 3), None);
    store.set(2, b"keep".to_vec(), None, 0);
    assert_eq!(store.get(&2, u64::MAX), Some(b"keep".to_vec()));
}

#[test]
fn byte_entry_deadline() {
    let e = ByteEntry::new(b"d".to_vec(), Some(u64::MAX), 5);
    // the deadline saturates instead of wrapping
    assert_eq!(e.expires_at, Some(u64::MAX));
    assert!(!e.is_expired(u64::MAX));
}

#[test]
fn user_record_fields() {
    let u = User {
        id: 42,
        username: "ada".to_string(),
        email: "ada@example.com".to_string(),
        active_sessions: vec!["s1".to_string()],
        metadata: vec![1, 2, 3],
    };
    assert_eq!(u.id, 42);
    assert_eq!(u.active_sessions.len(), 1);
    let same = User {
        id: 42,
        username: "ada".to_string(),
        email: "ada@example.com".to_string(),
        active_sessions: vec!["s1".to_string()],
        metadata: vec![1, 2, 3],
    };
    assert_eq!(u, same);
}

#[test]
fn byte_cache_one_value_per_key() {
    // two observations of the same key at the same instant agree
    let mut cache = ByteCache::new();
    cache.set(b"k".to_vec(), b"v".to_vec(), Some(9), 0);
    let first = cache.get(&b"k".to_vec(), 3);
    let second = cache.get(&b"k".to_vec(), 3);
    assert_eq!(first, second);
    assert_eq!(first, Some(b"v".to_vec()));
}

#[test]
fn byte_cache_other_keys_undisturbed() {
    let mut cache = ByteCache::new();
    cache.set(b"a".to_vec(), b"1".to_vec(), None, 0);
    cache.set(b"b".to_vec(), b"2".to_vec(), None, 0);
    cache.remove(&b"b".to_vec());
    assert_eq!(cache.get(&b"a".to_vec(), 100), Some(b"1".to_vec()));
}

#[test]
fn byte_cache_default_is_empty() {
    let cache = ByteCache::default();
    assert_eq!(cache.get(&b"anything".to_vec(), 0), None);
}
