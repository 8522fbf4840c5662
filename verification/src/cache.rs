//! The keyed stores: the concurrent byte store with per-entry TTL that backs
//! the server, and the capability traits a cache asks of keys and values.
pub mod byte_cache;
pub mod laws;
pub mod traits;

pub use byte_cache::ByteCache;
pub use traits::{Cache, CacheKey, CacheValue};
