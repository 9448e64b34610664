//! The cache write path: decides whether a backend response may be
//! stored, computes its content fingerprint, serializes it, registers
//! it under its invalidation tags, and writes it with its TTL.

use vstd::prelude::*;

use crate::cache::route::{
    auth_mask_of, bucket_mask_of, route_hash_of, tag_key_of, CacheRoute,
};
use crate::cache::store::{register_tags, CacheStore, EntryModel};
use crate::cache::wire::{serialize, serialize_of};
use crate::header::janitor::{cleaned_of, HeaderJanitor};
use crate::header::response_buckets::HeaderResponseBloomResponseBuckets;
use crate::header::response_ignore::HeaderResponseBloomResponseIgnore;
use crate::header::response_ttl::HeaderResponseBloomResponseTTL;
use crate::http::{header_lookup, headers_view, spec_header_lookup, HeaderEntry, HttpVersion, Method};
use crate::text::{all_dec_digits, dec_val};

verus! {

pub struct CacheWrite;

/// How a response left the write path: stored (a miss just filled) or
/// passed through untouched by the cache.
#[derive(Clone, Copy, Debug, PartialEq, Eq, Structural)]
pub enum WriteOutcomeKind {
    Miss,
    Direct,
}

/// What the write path hands back for the client: the response parts
/// (headers already cleaned) and the content fingerprint that serves
/// as its entity tag.
pub struct WriteOutcome {
    pub kind: WriteOutcomeKind,
    pub status: u16,
    pub headers: Vec<HeaderEntry>,
    pub body: String,
    pub fingerprint: String,
}

/// Whether the response carries the ignore-caching directive.
pub open spec fn spec_ignore_of(hs: Seq<HeaderEntry>) -> bool {
    match spec_header_lookup(hs, "Bloom-Response-Ignore"@) {
        Some(v) => v == "1"@,
        None => false,
    }
}

/// The TTL a response asks for: its TTL header when it parses, the
/// configured default otherwise.
pub open spec fn spec_ttl_of(hs: Seq<HeaderEntry>, ttl_default: u64) -> u64 {
    match spec_header_lookup(hs, "Bloom-Response-TTL"@) {
        Some(v) => {
            if v.len() > 0 && all_dec_digits(v) && dec_val(v) <= u64::MAX {
                dec_val(v) as u64
            } else {
                ttl_default
            }
        },
        None => ttl_default,
    }
}

/// The bucket names a response asks to be tagged with.
pub open spec fn spec_buckets_of(hs: Seq<HeaderEntry>) -> Seq<Seq<char>> {
    match spec_header_lookup(hs, "Bloom-Response-Buckets"@) {
        Some(v) => crate::text::split_trimmed_of(v),
        None => Seq::empty(),
    }
}

/// The tag keys an entry is registered under: its auth-scope tag, then
/// one bucket tag per listed bucket.
pub open spec fn spec_save_tags_of(shard: u8, auth_hash: Seq<char>, hs: Seq<HeaderEntry>) -> Seq<
    Seq<char>,
> {
    seq![tag_key_of(shard, auth_mask_of(auth_hash))] + spec_buckets_of(hs).map_values(
        |b: Seq<char>| tag_key_of(shard, bucket_mask_of(b)),
    )
}

/// Round trip through the store: the entry a cacheable response is
/// written as can be read back to exactly the parts that went in —
/// the fingerprint used as its entity tag, and, by parsing the stored
/// blob, the status, the cleaned headers, and a byte-identical body.
/// Holds whenever the cleaned headers can be framed (no line break or
/// colon in a name, no line break in a value).
pub proof fn lemma_write_read_round_trip(
    m: Map<Seq<char>, EntryModel>,
    ns: Seq<char>,
    status: u16,
    hs: Seq<HeaderEntry>,
    body: Seq<char>,
    ttl: u64,
)
    requires
        crate::cache::wire::wf_wire_headers(headers_view(cleaned_of(hs))),
    ensures
        ({
            let e = EntryModel {
                fingerprint: route_hash_of(body),
                body: serialize_of(status, headers_view(cleaned_of(hs)), body),
                ttl,
            };
            &&& m.insert(ns, e).contains_key(ns)
            &&& m.insert(ns, e)[ns].fingerprint == route_hash_of(body)
            &&& crate::cache::wire::parse_wire(m.insert(ns, e)[ns].body) == Some(
                (status, headers_view(cleaned_of(hs)), body),
            )
        }),
{
    crate::cache::wire::lemma_wire_round_trip(status, headers_view(cleaned_of(hs)), body);
}

impl CacheWrite {
    /// Decides cacheability and stores a backend response.
    ///
    /// The sequence follows the design: an ignore directive skips
    /// storage outright; a TTL of zero (explicit or by default) skips
    /// storage; otherwise the response is fingerprinted, its
    /// contextual and internal headers are stripped, the remainder is
    /// serialized and written under `ns` with its tags and TTL.
    /// Method eligibility is enforced on the read path, not here.
    pub fn save(
        store: &mut CacheStore,
        ns: &str,
        ns_mask: &str,
        auth_hash: &str,
        shard: u8,
        method: &Method,
        version: HttpVersion,
        status: u16,
        headers: Vec<HeaderEntry>,
        body: &str,
        ttl_default: u64,
    ) -> (r: WriteOutcome)
        requires
            old(store).wf(),
        ensures
            final(store).wf(),
            r.status == status,
            r.body@ == body@,
            r.headers@ == cleaned_of(headers@),
            r.fingerprint@ == route_hash_of(body@),
            spec_ignore_of(headers@) || spec_ttl_of(headers@, ttl_default) == 0 ==> {
                &&& r.kind == WriteOutcomeKind::Direct
                &&& final(store).entries_model() == old(store).entries_model()
                &&& final(store).tags_model() == old(store).tags_model()
            },
            !(spec_ignore_of(headers@) || spec_ttl_of(headers@, ttl_default) == 0) ==> {
                &&& r.kind == WriteOutcomeKind::Miss
                &&& final(store).entries_model() == old(store).entries_model().insert(
                    ns@,
                    EntryModel {
                        fingerprint: route_hash_of(body@),
                        body: serialize_of(status, headers_view(cleaned_of(headers@)), body@),
                        ttl: spec_ttl_of(headers@, ttl_default),
                    },
                )
                &&& final(store).tags_model() == register_tags(
                    old(store).tags_model(),
                    spec_save_tags_of(shard, auth_hash@, headers@),
                    ns@,
                )
            },
    {
        let mut hs = headers;
        let fingerprint = CacheRoute::hash(body);

        let ignore = match header_lookup(&hs, "Bloom-Response-Ignore") {
            Some(v) => HeaderResponseBloomResponseIgnore::decode(v.as_str()).is_some(),
            None => false,
        };
        if ignore {
            HeaderJanitor::clean(&mut hs);
            return WriteOutcome {
                kind: WriteOutcomeKind::Direct,
                status,
                headers: hs,
                body: String::from_str(body),
                fingerprint,
            };
        }

        let ttl = match header_lookup(&hs, "Bloom-Response-TTL") {
            Some(v) => match HeaderResponseBloomResponseTTL::parse_header(v.as_str()) {
                Some(h) => h.0,
                None => ttl_default,
            },
            None => ttl_default,
        };
        if ttl == 0 {
            HeaderJanitor::clean(&mut hs);
            return WriteOutcome {
                kind: WriteOutcomeKind::Direct,
                status,
                headers: hs,
                body: String::from_str(body),
                fingerprint,
            };
        }

        let buckets = match header_lookup(&hs, "Bloom-Response-Buckets") {
            Some(v) => HeaderResponseBloomResponseBuckets::decode(v.as_str()),
            None => HeaderResponseBloomResponseBuckets(Vec::new()),
        };
        proof {
            assert(buckets.0@.map_values(|b: String| b@) =~= spec_buckets_of(headers@));
        }

        let mut tags: Vec<String> = Vec::new();
        let (auth_key, _auth_mask) = CacheRoute::gen_key_auth_from_hash(shard, auth_hash);
        tags.push(auth_key);
        let ghost bucket_views = buckets.0@.map_values(|b: String| b@);
        let bn = buckets.0.len();
        let mut i: usize = 0;
        while i < bn
            invariant
                bn == buckets.0@.len(),
                i <= bn,
                bucket_views == buckets.0@.map_values(|b: String| b@),
                tags@.len() == i + 1,
                tags@.map_values(|t: String| t@) == seq![
                    tag_key_of(shard, auth_mask_of(auth_hash@)),
                ] + bucket_views.take(i as int).map_values(
                    |b: Seq<char>| tag_key_of(shard, bucket_mask_of(b)),
                ),
            decreases bn - i,
        {
            let (bucket_key, _bucket_mask) = CacheRoute::gen_key_bucket_from_hash(
                shard,
                buckets.0[i].as_str(),
            );
            let ghost pre_tags = tags@.map_values(|t: String| t@);
            let ghost bkey = bucket_key@;
            tags.push(bucket_key);
            proof {
                assert(buckets.0@[i as int]@ == bucket_views[i as int]);
                assert(bkey == tag_key_of(shard, bucket_mask_of(bucket_views[i as int])));
                assert(tags@.map_values(|t: String| t@) =~= pre_tags.push(bkey));
                assert(bucket_views.take(i + 1) =~= bucket_views.take(i as int).push(
                    bucket_views[i as int],
                ));
                assert(bucket_views.take(i + 1).map_values(
                    |b: Seq<char>| tag_key_of(shard, bucket_mask_of(b)),
                ) =~= bucket_views.take(i as int).map_values(
                    |b: Seq<char>| tag_key_of(shard, bucket_mask_of(b)),
                ).push(tag_key_of(shard, bucket_mask_of(bucket_views[i as int]))));
                assert(tags@.map_values(|t: String| t@) =~= seq![
                    tag_key_of(shard, auth_mask_of(auth_hash@)),
                ] + bucket_views.take(i + 1).map_values(
                    |b: Seq<char>| tag_key_of(shard, bucket_mask_of(b)),
                ));
            }
            i += 1;
        }
        proof {
            assert(bucket_views.take(bn as int) =~= bucket_views);
            assert(tags@.map_values(|t: String| t@) =~= spec_save_tags_of(
                shard,
                auth_hash@,
                headers@,
            ));
        }

        HeaderJanitor::clean(&mut hs);
        let blob = serialize(status, &hs, body);
        let set_result = store.set(ns, fingerprint.as_str(), blob.as_str(), ttl, &tags);
        proof {
            assert(set_result is Ok);
        }
        WriteOutcome {
            kind: WriteOutcomeKind::Miss,
            status,
            headers: hs,
            body: String::from_str(body),
            fingerprint,
        }
    }
}

} // verus!
