//! Route keying: derives the storage key and the invalidation mask for
//! a request, namespacing them by shard. Pure: the only outside call is
//! the fingerprint itself.

use vstd::prelude::*;

use crate::http::{HttpVersion, Method};
use crate::text::{dec_of, hex16_of, u64_to_dec, u64_to_hex16};

verus! {

pub struct CacheRoute;

/// Width of a route hash, in hexadecimal characters.
pub const ROUTE_HASH_SIZE: usize = 16;

/// Namespace prefix of every storage key.
pub const ROUTE_PREFIX: &'static str = "bloom";

/// What `farmhash::fingerprint64` returns for a string's bytes. The
/// fingerprint is documented as portable and stable, a function of the
/// input alone, so it can be named; nothing further is assumed of it.
pub uninterp spec fn fingerprint64_of(s: Seq<char>) -> u64;

/// Relies on `farmhash::fingerprint64`: a stable 64-bit fingerprint of
/// the input bytes, depending on the input alone.
#[verifier::external_body]
fn fingerprint64(value: &str) -> (r: u64)
    ensures
        r == fingerprint64_of(value@),
{
    farmhash::fingerprint64(value.as_bytes())
}

/// The 16-character route hash of a canonical string.
pub open spec fn route_hash_of(canonical: Seq<char>) -> Seq<char> {
    hex16_of(fingerprint64_of(canonical))
}

/// `<namespace>:<shard>:` — the shard-scoped prefix of a storage key.
pub open spec fn key_prefix(shard: u8) -> Seq<char> {
    "bloom"@ + ":"@ + dec_of(shard as nat) + ":"@
}

/// The mask of a cache entry: auth hash and route hash, unscoped.
pub open spec fn cache_mask_of(auth_hash: Seq<char>, route_hash: Seq<char>) -> Seq<char> {
    auth_hash + ":"@ + route_hash
}

/// The storage key of a cache entry under its shard.
pub open spec fn cache_key_of(shard: u8, mask: Seq<char>) -> Seq<char> {
    key_prefix(shard) + "c:"@ + mask
}

/// The mask of an auth-scope tag.
pub open spec fn auth_mask_of(auth_hash: Seq<char>) -> Seq<char> {
    "a:"@ + auth_hash
}

/// The mask of a bucket tag.
pub open spec fn bucket_mask_of(bucket_hash: Seq<char>) -> Seq<char> {
    "b:"@ + bucket_hash
}

/// The storage key of a tag under its shard: prefix plus mask.
pub open spec fn tag_key_of(shard: u8, mask: Seq<char>) -> Seq<char> {
    key_prefix(shard) + mask
}

/// The canonical string a route hash is computed from: version, method,
/// path, query and origin, each rendered even when absent, so that
/// presence and absence can never collide.
pub open spec fn canonical_route_of(
    version: HttpVersion,
    method: Method,
    path: Seq<char>,
    query: Option<Seq<char>>,
    origin: Option<Seq<char>>,
) -> Seq<char> {
    "["@ + version.str_of() + "|"@ + method.str_of() + "|"@ + path + "|"@ + (match query {
        Some(q) => q,
        None => Seq::<char>::empty(),
    }) + "|"@ + (match origin {
        Some(o) => o,
        None => "null"@,
    }) + "]"@
}

/// The view of an optional string argument.
pub open spec fn opt_str_view(s: Option<&str>) -> Option<Seq<char>> {
    match s {
        Some(v) => Some(v@),
        None => None,
    }
}

/// The (storage key, mask) pair of a cache entry, as derived from the
/// already-computed hashes.
pub open spec fn cache_key_pair_of(shard: u8, auth_hash: Seq<char>, route_hash: Seq<char>) -> (
    Seq<char>,
    Seq<char>,
) {
    (
        cache_key_of(shard, cache_mask_of(auth_hash, route_hash)),
        cache_mask_of(auth_hash, route_hash),
    )
}

impl CacheRoute {
    /// Composes the storage key and mask of a cache entry from the auth
    /// hash and the route hash.
    pub fn gen_key_cache_from_hash(shard: u8, auth_hash: &str, route_hash: &str) -> (r: (
        String,
        String,
    ))
        ensures
            r.1@ == cache_mask_of(auth_hash@, route_hash@),
            r.0@ == cache_key_of(shard, r.1@),
    {
        let mut mask = String::new();
        mask.append(auth_hash);
        mask.append(":");
        mask.append(route_hash);
        let mut key = Self::gen_key_prefix(shard);
        key.append("c:");
        key.append(mask.as_str());
        proof {
            assert(mask@ =~= cache_mask_of(auth_hash@, route_hash@));
            assert(key@ =~= cache_key_of(shard, mask@));
        }
        (key, mask)
    }

    /// Composes the storage key and mask of an auth-scope tag.
    pub fn gen_key_auth_from_hash(shard: u8, auth_hash: &str) -> (r: (String, String))
        ensures
            r.1@ == auth_mask_of(auth_hash@),
            r.0@ == tag_key_of(shard, r.1@),
    {
        let mut mask = String::new();
        mask.append("a:");
        mask.append(auth_hash);
        let mut key = Self::gen_key_prefix(shard);
        key.append(mask.as_str());
        proof {
            assert(mask@ =~= auth_mask_of(auth_hash@));
            assert(key@ =~= tag_key_of(shard, mask@));
        }
        (key, mask)
    }

    /// Composes the storage key and mask of a bucket tag.
    pub fn gen_key_bucket_from_hash(shard: u8, bucket_hash: &str) -> (r: (String, String))
        ensures
            r.1@ == bucket_mask_of(bucket_hash@),
            r.0@ == tag_key_of(shard, r.1@),
    {
        let mut mask = String::new();
        mask.append("b:");
        mask.append(bucket_hash);
        let mut key = Self::gen_key_prefix(shard);
        key.append(mask.as_str());
        proof {
            assert(mask@ =~= bucket_mask_of(bucket_hash@));
            assert(key@ =~= tag_key_of(shard, mask@));
        }
        (key, mask)
    }

    /// Derives the storage key and mask of a request: canonicalizes the
    /// route, fingerprints it, and scopes the result by shard and auth.
    pub fn gen_key_cache(
        shard: u8,
        auth_hash: &str,
        version: HttpVersion,
        method: &Method,
        path: &str,
        query: Option<&str>,
        origin: Option<&str>,
    ) -> (r: (String, String))
        ensures
            r.1@ == cache_mask_of(
                auth_hash@,
                route_hash_of(
                    canonical_route_of(
                        version,
                        *method,
                        path@,
                        opt_str_view(query),
                        opt_str_view(origin),
                    ),
                ),
            ),
            r.0@ == cache_key_of(shard, r.1@),
    {
        let mut canonical = String::new();
        canonical.append("[");
        canonical.append(version.to_str());
        canonical.append("|");
        canonical.append(method.to_str());
        canonical.append("|");
        canonical.append(path);
        canonical.append("|");
        canonical.append(
            match query {
                Some(q) => q,
                None => "",
            },
        );
        canonical.append("|");
        canonical.append(
            match origin {
                Some(o) => o,
                None => "null",
            },
        );
        canonical.append("]");
        proof {
            reveal_strlit("");
            assert(canonical@ =~= canonical_route_of(
                version,
                *method,
                path@,
                opt_str_view(query),
                opt_str_view(origin),
            ));
        }
        let route_hash = Self::hash(canonical.as_str());
        Self::gen_key_cache_from_hash(shard, auth_hash, route_hash.as_str())
    }

    /// The route hash of a string: its 64-bit fingerprint, rendered as
    /// exactly 16 hexadecimal characters.
    pub fn hash(value: &str) -> (r: String)
        ensures
            r@ == route_hash_of(value@),
            r@.len() == ROUTE_HASH_SIZE,
    {
        u64_to_hex16(fingerprint64(value))
    }

    fn gen_key_prefix(shard: u8) -> (r: String)
        ensures
            r@ == key_prefix(shard),
    {
        let mut key = String::new();
        key.append(ROUTE_PREFIX);
        key.append(":");
        let shard_dec = u64_to_dec(shard as u64);
        key.append(shard_dec.as_str());
        key.append(":");
        proof {
            assert(key@ =~= key_prefix(shard));
        }
        key
    }
}

/// Key derivation is deterministic: two (storage key, mask) pairs
/// derived from identical shard, auth hash and route hash are
/// identical.
pub proof fn lemma_cache_key_deterministic(
    r1: (Seq<char>, Seq<char>),
    r2: (Seq<char>, Seq<char>),
    shard: u8,
    auth_hash: Seq<char>,
    route_hash: Seq<char>,
)
    requires
        r1 == cache_key_pair_of(shard, auth_hash, route_hash),
        r2 == cache_key_pair_of(shard, auth_hash, route_hash),
    ensures
        r1 == r2,
{
}

} // verus!
