//! Sharded, HTTP-aware caching layer: cache-key derivation, a tagged
//! key-value store model with TTL records, the read/write paths that
//! decide cacheability and conditional-GET outcomes, shard routing for
//! the tunnel, and the text control protocol used to purge cache.

pub mod cache;
pub mod control;
pub mod header;
pub mod http;
pub mod proxy;
pub mod text;
