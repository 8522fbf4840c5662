//! An in-memory key-value cache server core: a concurrent byte store with
//! per-entry TTL and an eviction pass, the length-prefixed binary framing
//! codec used on every connection, and the per-connection dispatch and
//! admission logic that couple the two.
//!
//! Everything here is a function of plain values — bytes, the store's
//! contents, and the current monotonic instant in seconds. Sockets, tasks
//! and clocks belong to the host program, which reads bytes, hands them in,
//! and writes the reply bytes back out.
pub mod bytestore;
pub mod cache;
pub mod protocol;
pub mod server;
pub mod simple_cache;
pub mod ttlcache;

pub use cache::traits::{Cache, CacheKey, CacheValue};
