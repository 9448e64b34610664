//! The per-request serve state machine. A request is either rejected
//! outright, answered from cache (not-modified or full replay), or
//! handed to the tunnel; a tunneled response comes back through the
//! write path and leaves as a miss, a direct passthrough, or an
//! offline failure. Every terminal response carries the outcome
//! header naming the branch that produced it.
//!
//! The tunnel itself is network work and belongs to the host program:
//! `handle` returns either a finished response or the context to
//! resume with once the backend has answered, and `resume` finishes
//! the job.

use vstd::prelude::*;

use crate::cache::read::CacheRead;
use crate::cache::route::{
    cache_key_of, cache_mask_of, canonical_route_of, route_hash_of, CacheRoute,
};
use crate::cache::store::{register_tags, CacheStore, EntryModel};
use crate::cache::wire;
use crate::cache::wire::{parse_wire, serialize_of};
use crate::cache::write::{
    spec_ignore_of, spec_save_tags_of, spec_ttl_of, CacheWrite, WriteOutcomeKind,
};
use crate::header::janitor::cleaned_of;
use crate::header::status::{HeaderBloomStatus, HeaderBloomStatusValue};
use crate::http::{
    header_lookup, headers_view, spec_header_lookup, HeaderEntry, HttpVersion, Method,
    RequestParts, ResponseParts,
};
use crate::proxy::header::{
    spec_all_etags, spec_auth_of, spec_etag_seg, spec_shard_of, spec_with_etag_pairs,
    IfNoneMatchValue, ProxyHeader,
};
use crate::text::{split_trimmed_of, str_eq, trim_of};

verus! {

pub struct ProxyServe;

/// What the serve path needs to finish a request once the tunnel has
/// been asked: the route it resolved and the request identity.
pub struct ServeContext {
    pub shard: u8,
    pub ns: String,
    pub ns_mask: String,
    pub auth_hash: String,
    pub method: Method,
    pub version: HttpVersion,
}

/// One step of the state machine: a terminal response, or the tunnel
/// with the context to resume with.
pub enum ServeStep {
    Respond(ResponseParts),
    Tunnel(ServeContext),
}

/// The Origin header of a request, if any.
pub open spec fn spec_origin_of(hs: Seq<HeaderEntry>) -> Option<Seq<char>> {
    spec_header_lookup(hs, "Origin"@)
}

/// The view of an optional query string.
pub open spec fn spec_query_view(q: Option<String>) -> Option<Seq<char>> {
    match q {
        Some(s) => Some(s@),
        None => None,
    }
}

/// The mask a request's cache entry is stored under.
pub open spec fn spec_mask_of(req: RequestParts) -> Seq<char> {
    cache_mask_of(
        route_hash_of(spec_auth_of(req.headers@)),
        route_hash_of(
            canonical_route_of(
                req.version,
                req.method,
                req.path@,
                spec_query_view(req.query),
                spec_origin_of(req.headers@),
            ),
        ),
    )
}

/// The storage key a request's cache entry is stored under.
pub open spec fn spec_ns_of(req: RequestParts, shard_default: u8) -> Seq<char> {
    cache_key_of(spec_shard_of(req.headers@, shard_default), spec_mask_of(req))
}

/// Whether the request's method may be served from cache and an entry
/// is stored under its key.
pub open spec fn spec_meta_hit(store: CacheStore, req: RequestParts, shard_default: u8) -> bool {
    req.method.spec_is_cacheable() && store.entries_model().contains_key(
        spec_ns_of(req, shard_default),
    )
}

/// Whether a request's If-None-Match header matches a stored
/// fingerprint, by weak comparison: the wildcard matches anything,
/// otherwise the first listed entity tag must carry the fingerprint.
/// An absent or malformed header never matches.
pub open spec fn spec_not_modified(hs: Seq<HeaderEntry>, fp: Seq<char>) -> bool {
    match spec_header_lookup(hs, "If-None-Match"@) {
        None => false,
        Some(v) => {
            if trim_of(v) == "*"@ {
                true
            } else if spec_all_etags(split_trimmed_of(v)) {
                let tags = split_trimmed_of(v).map_values(|t: Seq<char>| spec_etag_seg(t));
                tags.len() > 0 && tags[0].1 == fp
            } else {
                false
            }
        },
    }
}

/// A fingerprint in entity-tag form: quoted.
pub open spec fn spec_etag_quote(fp: Seq<char>) -> Seq<char> {
    "\""@ + fp + "\""@
}

/// The headers of a terminal response built from scratch around an
/// entity tag: Vary on ETag, the tag, and the outcome marker.
pub open spec fn spec_etag_outcome_headers(fp: Seq<char>, outcome: Seq<char>) -> Seq<
    (Seq<char>, Seq<char>),
> {
    seq![("Vary"@, "ETag"@), ("ETag"@, spec_etag_quote(fp)), ("Bloom-Status"@, outcome)]
}

/// The headers of a response once its outcome marker is stamped: any
/// marker already carried — by the backend, or replayed out of a
/// cached blob — gives way, so a terminal response holds exactly one.
pub open spec fn spec_with_outcome(
    hs: Seq<(Seq<char>, Seq<char>)>,
    outcome: Seq<char>,
) -> Seq<(Seq<char>, Seq<char>)> {
    crate::proxy::header::pairs_without_name(hs, "Bloom-Status"@) + seq![
        ("Bloom-Status"@, outcome),
    ]
}

/// A rejected request's response.
pub open spec fn is_reject_response(p: ResponseParts, method: Method) -> bool {
    &&& p.status == 405
    &&& headers_view(p.headers@) == seq![("Bloom-Status"@, "REJECT"@)]
    &&& p.body@ == (if method.spec_response_has_body() {
        "405 Method Not Allowed"@
    } else {
        Seq::<char>::empty()
    })
}

/// The not-modified response for a conditional hit: 304, the stored
/// fingerprint as entity tag, no body.
pub open spec fn is_not_modified_response(p: ResponseParts, fp: Seq<char>) -> bool {
    &&& p.status == 304
    &&& headers_view(p.headers@) == spec_etag_outcome_headers(fp, "HIT"@)
    &&& p.body@ == Seq::<char>::empty()
}

/// The full-replay response for a cache hit: the cached status and
/// headers, the fingerprint as entity tag, the hit marker, and the
/// cached body when the method's responses carry one.
pub open spec fn is_hit_response(
    p: ResponseParts,
    cached: (u16, Seq<(Seq<char>, Seq<char>)>, Seq<char>),
    fp: Seq<char>,
    method: Method,
) -> bool {
    &&& p.status == cached.0
    &&& headers_view(p.headers@) == spec_with_outcome(
        spec_with_etag_pairs(cached.1, spec_etag_quote(fp)),
        "HIT"@,
    )
    &&& p.body@ == (if method.spec_response_has_body() {
        cached.2
    } else {
        Seq::<char>::empty()
    })
}

/// A freshly stamped entity-tag header pair never carries the outcome
/// marker's name, so stamping the marker on top keeps both headers.
proof fn lemma_etag_pairs_keep_marker_name(q: Seq<char>)
    ensures
        crate::proxy::header::pairs_without_name(
            seq![("Vary"@, "ETag"@), ("ETag"@, q)],
            "Bloom-Status"@,
        ) == seq![("Vary"@, "ETag"@), ("ETag"@, q)],
{
    reveal_strlit("Vary");
    reveal_strlit("ETag");
    reveal_strlit("Bloom-Status");
    let s: Seq<(Seq<char>, Seq<char>)> = seq![("Vary"@, "ETag"@), ("ETag"@, q)];
    assert forall|i: int| 0 <= i < s.len() implies crate::http::lower_of(#[trigger] s[i].0)
        != crate::http::lower_of("Bloom-Status"@) by {
        assert(crate::http::lower_of(s[i].0).len() == 4);
        assert(crate::http::lower_of("Bloom-Status"@).len() == 12);
    }
    crate::proxy::header::lemma_pairs_without_name_absent(s, "Bloom-Status"@);
}

/// Whether a tunnel context carries exactly the route the request
/// resolves to.
pub open spec fn is_serve_context(c: ServeContext, req: RequestParts, shard_default: u8) -> bool {
    &&& c.shard == spec_shard_of(req.headers@, shard_default)
    &&& c.ns@ == spec_ns_of(req, shard_default)
    &&& c.ns_mask@ == spec_mask_of(req)
    &&& c.auth_hash@ == route_hash_of(spec_auth_of(req.headers@))
    &&& c.method == req.method
    &&& c.version == req.version
}

impl ProxyServe {
    /// Serves one request as far as the cache can: rejects a method
    /// outside the allowed set; answers a conditional match with 304
    /// without fetching the body; replays a cached response in full;
    /// and otherwise — on a miss, a store error, or a cached blob
    /// that no longer parses — hands back the context for the tunnel.
    pub fn handle(store: &CacheStore, req: RequestParts, shard_default: u8) -> (r: ServeStep)
        requires
            store.wf(),
        ensures
            !req.method.spec_is_allowed() ==> (r matches ServeStep::Respond(p)
                && is_reject_response(p, req.method)),
            (req.method.spec_is_allowed() && !spec_meta_hit(*store, req, shard_default)) ==> (
            r matches ServeStep::Tunnel(c) && is_serve_context(c, req, shard_default)),
            (req.method.spec_is_allowed() && spec_meta_hit(*store, req, shard_default)
                && spec_not_modified(
                req.headers@,
                store.entries_model()[spec_ns_of(req, shard_default)].fingerprint,
            )) ==> (r matches ServeStep::Respond(p) && is_not_modified_response(
                p,
                store.entries_model()[spec_ns_of(req, shard_default)].fingerprint,
            )),
            (req.method.spec_is_allowed() && spec_meta_hit(*store, req, shard_default)
                && !spec_not_modified(
                req.headers@,
                store.entries_model()[spec_ns_of(req, shard_default)].fingerprint,
            ) && parse_wire(store.entries_model()[spec_ns_of(req, shard_default)].body) is Some)
                ==> (r matches ServeStep::Respond(p) && is_hit_response(
                p,
                parse_wire(store.entries_model()[spec_ns_of(req, shard_default)].body)->0,
                store.entries_model()[spec_ns_of(req, shard_default)].fingerprint,
                req.method,
            )),
            (req.method.spec_is_allowed() && spec_meta_hit(*store, req, shard_default)
                && !spec_not_modified(
                req.headers@,
                store.entries_model()[spec_ns_of(req, shard_default)].fingerprint,
            ) && parse_wire(store.entries_model()[spec_ns_of(req, shard_default)].body) is None)
                ==> (r matches ServeStep::Tunnel(c) && is_serve_context(c, req, shard_default)),
    {
        if !req.method.is_allowed() {
            return Self::reject(&req.method);
        }
        let ghost greq = req;
        let RequestParts { method, version, path, query, headers } = req;
        let (headers, auth, shard) = ProxyHeader::parse_from_request(headers, shard_default);
        let auth_hash = CacheRoute::hash(auth.as_str());
        let q: Option<&str> = match &query {
            Some(s) => Some(s.as_str()),
            None => None,
        };
        let origin = header_lookup(&headers, "Origin");
        let o: Option<&str> = match origin {
            Some(s) => Some(s.as_str()),
            None => None,
        };
        let (ns, ns_mask) = CacheRoute::gen_key_cache(
            shard,
            auth_hash.as_str(),
            version,
            &method,
            path.as_str(),
            q,
            o,
        );
        proof {
            assert(crate::cache::route::opt_str_view(q) == spec_query_view(greq.query));
            assert(crate::cache::route::opt_str_view(o) == spec_origin_of(greq.headers@));
            assert(ns@ == spec_ns_of(greq, shard_default));
            assert(ns_mask@ == spec_mask_of(greq));
        }
        match CacheRead::acquire_meta(store, shard, ns.as_str(), &method) {
            Ok(Some(fingerprint)) => {
                if Self::check_not_modified(&headers, fingerprint.as_str()) {
                    let mut rh: Vec<HeaderEntry> = Vec::new();
                    ProxyHeader::set_etag(&mut rh, Self::fingerprint_etag(fingerprint));
                    let ghost tagged = headers_view(rh@);
                    ProxyHeader::set_bloom_status(
                        &mut rh,
                        HeaderBloomStatus(HeaderBloomStatusValue::Hit).encode(),
                    );
                    proof {
                        let fp = store.entries_model()[spec_ns_of(greq, shard_default)].fingerprint;
                        assert(crate::http::headers_view(Seq::<HeaderEntry>::empty())
                            =~= Seq::<(Seq<char>, Seq<char>)>::empty());
                        assert(tagged =~= seq![("Vary"@, "ETag"@), ("ETag"@, spec_etag_quote(fp))]);
                        lemma_etag_pairs_keep_marker_name(spec_etag_quote(fp));
                        assert(headers_view(rh@) =~= spec_etag_outcome_headers(fp, "HIT"@));
                    }
                    return ServeStep::Respond(
                        Self::respond(&method, 304, rh, String::new()),
                    );
                }
                match CacheRead::acquire_body(store, ns.as_str()) {
                    Ok(Some(blob)) => {
                        match wire::parse(blob.as_str()) {
                            Some(parts) => {
                                let ResponseParts { status, headers: mut ch, body } = parts;
                                let ghost ch0 = ch@;
                                let ghost cached_pairs = headers_view(ch@);
                                ProxyHeader::set_etag(
                                    &mut ch,
                                    Self::fingerprint_etag(fingerprint),
                                );
                                proof {
                                    crate::proxy::header::lemma_without_name_view(ch0, "Vary"@);
                                    crate::proxy::header::lemma_without_name_view(
                                        crate::proxy::header::spec_without_name(ch0, "Vary"@),
                                        "ETag"@,
                                    );
                                    assert(headers_view(ch@) =~= spec_with_etag_pairs(
                                        cached_pairs,
                                        spec_etag_quote(
                                            store.entries_model()[spec_ns_of(
                                                greq,
                                                shard_default,
                                            )].fingerprint,
                                        ),
                                    ));
                                }
                                ProxyHeader::set_bloom_status(
                                    &mut ch,
                                    HeaderBloomStatus(HeaderBloomStatusValue::Hit).encode(),
                                );
                                proof {
                                    assert(headers_view(ch@) =~= spec_with_outcome(
                                        spec_with_etag_pairs(
                                            cached_pairs,
                                            spec_etag_quote(
                                                store.entries_model()[spec_ns_of(
                                                    greq,
                                                    shard_default,
                                                )].fingerprint,
                                            ),
                                        ),
                                        "HIT"@,
                                    ));
                                }
                                return ServeStep::Respond(
                                    Self::respond(&method, status, ch, body),
                                );
                            },
                            None => {
                                return ServeStep::Tunnel(
                                    ServeContext {
                                        shard,
                                        ns,
                                        ns_mask,
                                        auth_hash,
                                        method,
                                        version,
                                    },
                                );
                            },
                        }
                    },
                    _ => {
                        return ServeStep::Tunnel(
                            ServeContext { shard, ns, ns_mask, auth_hash, method, version },
                        );
                    },
                }
            },
            _ => {
                return ServeStep::Tunnel(
                    ServeContext { shard, ns, ns_mask, auth_hash, method, version },
                );
            },
        }
    }

    /// Finishes a request after the tunnel: a backend response goes
    /// through the write path and leaves marked as a miss or a direct
    /// passthrough; a failed tunnel leaves as the offline response.
    /// A client that vanished meanwhile costs nothing here: the
    /// response is still written to cache.
    pub fn resume(
        store: &mut CacheStore,
        ctx: ServeContext,
        tunnel_result: Option<ResponseParts>,
        ttl_default: u64,
    ) -> (r: ResponseParts)
        requires
            old(store).wf(),
        ensures
            final(store).wf(),
            tunnel_result is None ==> {
                &&& final(store).entries_model() == old(store).entries_model()
                &&& final(store).tags_model() == old(store).tags_model()
                &&& r.status == 502
                &&& headers_view(r.headers@) == seq![("Bloom-Status"@, "OFFLINE"@)]
                &&& r.body@ == (if ctx.method.spec_response_has_body() {
                    "502 Bad Gateway"@
                } else {
                    Seq::<char>::empty()
                })
            },
            tunnel_result matches Some(parts) ==> {
                let direct = spec_ignore_of(parts.headers@) || spec_ttl_of(
                    parts.headers@,
                    ttl_default,
                ) == 0;
                &&& (direct ==> final(store).entries_model() == old(store).entries_model()
                    && final(store).tags_model() == old(store).tags_model())
                &&& (!direct ==> final(store).entries_model() == old(
                    store,
                ).entries_model().insert(
                    ctx.ns@,
                    EntryModel {
                        fingerprint: route_hash_of(parts.body@),
                        body: serialize_of(
                            parts.status,
                            headers_view(cleaned_of(parts.headers@)),
                            parts.body@,
                        ),
                        ttl: spec_ttl_of(parts.headers@, ttl_default),
                    },
                ) && final(store).tags_model() == register_tags(
                    old(store).tags_model(),
                    spec_save_tags_of(ctx.shard, ctx.auth_hash@, parts.headers@),
                    ctx.ns@,
                ))
                &&& r.status == parts.status
                &&& headers_view(r.headers@) == spec_with_outcome(
                    spec_with_etag_pairs(
                        headers_view(cleaned_of(parts.headers@)),
                        spec_etag_quote(route_hash_of(parts.body@)),
                    ),
                    if direct {
                        "DIRECT"@
                    } else {
                        "MISS"@
                    },
                )
                &&& r.body@ == (if ctx.method.spec_response_has_body() {
                    parts.body@
                } else {
                    Seq::<char>::empty()
                })
            },
    {
        match tunnel_result {
            None => Self::dispatch_failure(&ctx.method),
            Some(parts) => {
                let ResponseParts { status, headers, body } = parts;
                let outcome = CacheWrite::save(
                    store,
                    ctx.ns.as_str(),
                    ctx.ns_mask.as_str(),
                    ctx.auth_hash.as_str(),
                    ctx.shard,
                    &ctx.method,
                    ctx.version,
                    status,
                    headers,
                    body.as_str(),
                    ttl_default,
                );
                let marker = match outcome.kind {
                    WriteOutcomeKind::Miss => HeaderBloomStatusValue::Miss,
                    WriteOutcomeKind::Direct => HeaderBloomStatusValue::Direct,
                };
                Self::dispatch_fetched(
                    &ctx.method,
                    outcome.status,
                    outcome.headers,
                    marker,
                    outcome.body,
                    outcome.fingerprint,
                )
            },
        }
    }

    fn reject(method: &Method) -> (r: ServeStep)
        ensures
            r matches ServeStep::Respond(p) && is_reject_response(p, *method),
    {
        let mut headers: Vec<HeaderEntry> = Vec::new();
        ProxyHeader::set_bloom_status(
            &mut headers,
            HeaderBloomStatus(HeaderBloomStatusValue::Reject).encode(),
        );
        proof {
            assert(headers_view(Seq::<HeaderEntry>::empty()) =~= Seq::<
                (Seq<char>, Seq<char>),
            >::empty());
            assert(headers_view(headers@) =~= seq![("Bloom-Status"@, "REJECT"@)]);
        }
        ServeStep::Respond(
            Self::respond(method, 405, headers, String::from_str("405 Method Not Allowed")),
        )
    }

    fn dispatch_fetched(
        method: &Method,
        status: u16,
        headers: Vec<HeaderEntry>,
        bloom_status: HeaderBloomStatusValue,
        body_string: String,
        fingerprint: String,
    ) -> (r: ResponseParts)
        ensures
            r.status == status,
            headers_view(r.headers@) == spec_with_outcome(
                spec_with_etag_pairs(headers_view(headers@), spec_etag_quote(fingerprint@)),
                bloom_status.str_of(),
            ),
            r.body@ == (if method.spec_response_has_body() {
                body_string@
            } else {
                Seq::<char>::empty()
            }),
    {
        let mut hs = headers;
        ProxyHeader::set_etag(&mut hs, Self::fingerprint_etag(fingerprint));
        proof {
            crate::proxy::header::lemma_without_name_view(headers@, "Vary"@);
            crate::proxy::header::lemma_without_name_view(
                crate::proxy::header::spec_without_name(headers@, "Vary"@),
                "ETag"@,
            );
            assert(headers_view(hs@) =~= spec_with_etag_pairs(
                headers_view(headers@),
                spec_etag_quote(fingerprint@),
            ));
        }
        ProxyHeader::set_bloom_status(&mut hs, HeaderBloomStatus(bloom_status).encode());
        proof {
            assert(headers_view(hs@) =~= spec_with_outcome(
                spec_with_etag_pairs(headers_view(headers@), spec_etag_quote(fingerprint@)),
                bloom_status.str_of(),
            ));
        }
        Self::respond(method, status, hs, body_string)
    }

    fn dispatch_failure(method: &Method) -> (r: ResponseParts)
        ensures
            r.status == 502,
            headers_view(r.headers@) == seq![("Bloom-Status"@, "OFFLINE"@)],
            r.body@ == (if method.spec_response_has_body() {
                "502 Bad Gateway"@
            } else {
                Seq::<char>::empty()
            }),
    {
        let mut headers: Vec<HeaderEntry> = Vec::new();
        ProxyHeader::set_bloom_status(
            &mut headers,
            HeaderBloomStatus(HeaderBloomStatusValue::Offline).encode(),
        );
        proof {
            assert(headers_view(Seq::<HeaderEntry>::empty()) =~= Seq::<
                (Seq<char>, Seq<char>),
            >::empty());
            assert(headers_view(headers@) =~= seq![("Bloom-Status"@, "OFFLINE"@)]);
        }
        Self::respond(method, 502, headers, String::from_str("502 Bad Gateway"))
    }

    fn check_not_modified(headers: &Vec<HeaderEntry>, fingerprint: &str) -> (r: bool)
        ensures
            r == spec_not_modified(headers@, fingerprint@),
    {
        match header_lookup(headers, "If-None-Match") {
            None => false,
            Some(v) => match IfNoneMatchValue::parse(v.as_str()) {
                None => false,
                Some(IfNoneMatchValue::Any) => true,
                Some(IfNoneMatchValue::Items(items)) => {
                    if items.len() > 0 {
                        str_eq(items[0].tag.as_str(), fingerprint)
                    } else {
                        false
                    }
                },
            },
        }
    }

    /// A fingerprint in entity-tag form: quoted.
    pub fn fingerprint_etag(fingerprint: String) -> (r: String)
        ensures
            r@ == spec_etag_quote(fingerprint@),
    {
        let mut s = String::from_str("\"");
        s.append(fingerprint.as_str());
        s.append("\"");
        proof {
            assert(s@ =~= spec_etag_quote(fingerprint@));
        }
        s
    }

    fn respond(
        method: &Method,
        status: u16,
        headers: Vec<HeaderEntry>,
        body_string: String,
    ) -> (r: ResponseParts)
        ensures
            r.status == status,
            r.headers@ == headers@,
            r.body@ == (if method.spec_response_has_body() {
                body_string@
            } else {
                Seq::<char>::empty()
            }),
    {
        if method.response_has_body() {
            ResponseParts { status, headers, body: body_string }
        } else {
            ResponseParts { status, headers, body: String::new() }
        }
    }
}

} // verus!
