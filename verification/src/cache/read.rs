//! The cache read path: fetches the metadata of an entry, and, only
//! when a response must actually be re-sent, its body.

use vstd::prelude::*;

use crate::cache::store::CacheStore;
use crate::http::Method;

verus! {

pub struct CacheRead;

/// Why a read failed: the backing store was unreachable. The in-memory
/// store never fails, so these functions always return `Ok`; a caller
/// is nevertheless written against the fallible interface a networked
/// backend requires, and treats an error as a miss.
#[derive(Clone, Copy, Debug, PartialEq, Eq, Structural)]
pub enum CacheReadError {
    StoreUnavailable,
}

impl CacheRead {
    /// Fetches the content fingerprint stored under a key. Only the
    /// fixed cacheable set of methods (GET, HEAD, OPTIONS) is
    /// eligible: for any other method the call short-circuits to "not
    /// found" without touching the store.
    pub fn acquire_meta(store: &CacheStore, shard: u8, ns: &str, method: &Method) -> (r: Result<
        Option<String>,
        CacheReadError,
    >)
        requires
            store.wf(),
        ensures
            !method.spec_is_cacheable() ==> r == Ok::<Option<String>, CacheReadError>(None),
            method.spec_is_cacheable() ==> match r {
                Ok(Some(fp)) => store.entries_model().contains_key(ns@) && fp@
                    == store.entries_model()[ns@].fingerprint,
                Ok(None) => !store.entries_model().contains_key(ns@),
                Err(_) => false,
            },
    {
        if !method.is_cacheable() {
            return Ok(None);
        }
        match store.get_meta(shard, ns) {
            Some(meta) => Ok(Some(meta.fingerprint)),
            None => Ok(None),
        }
    }

    /// Fetches the serialized body stored under a key.
    pub fn acquire_body(store: &CacheStore, ns: &str) -> (r: Result<Option<String>, CacheReadError>)
        requires
            store.wf(),
        ensures
            match r {
                Ok(Some(b)) => store.entries_model().contains_key(ns@) && b@
                    == store.entries_model()[ns@].body,
                Ok(None) => !store.entries_model().contains_key(ns@),
                Err(_) => false,
            },
    {
        match store.get_body(ns) {
            Some(body) => Ok(Some(body)),
            None => Ok(None),
        }
    }
}

} // verus!
