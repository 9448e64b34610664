use bloom::cache::store::CacheStore;
use bloom::http::{HeaderEntry, HttpVersion, Method, RequestParts, ResponseParts};
use bloom::proxy::serve::{ProxyServe, ServeStep};

fn h(name: &str, value: &str) -> HeaderEntry {
    HeaderEntry { name: name.to_string(), value: value.to_string() }
}

fn get_request(headers: Vec<HeaderEntry>) -> RequestParts {
    RequestParts {
        method: Method::Get,
        version: HttpVersion::Http11,
        path: "/".to_string(),
        query: None,
        headers,
    }
}

fn header_value(p: &ResponseParts, name: &str) -> Option<String> {
    p.headers
        .iter()
        .find(|e| e.name.eq_ignore_ascii_case(name))
        .map(|e| e.value.clone())
}

fn backend_response(headers: Vec<HeaderEntry>, body: &str) -> ResponseParts {
    ResponseParts { status: 200, headers, body: body.to_string() }
}

/// Runs one full miss: handle must ask for the tunnel, and resume
/// stores the backend response. Returns the miss response.
fn run_miss(store: &mut CacheStore, req: RequestParts, backend: ResponseParts) -> ResponseParts {
    let step = ProxyServe::handle(store, req, 0);
    match step {
        ServeStep::Tunnel(ctx) => ProxyServe::resume(store, ctx, Some(backend), 600),
        ServeStep::Respond(_) => panic!("expected a tunnel step"),
    }
}

#[test]
fn disallowed_methods_are_rejected() {
    let store = CacheStore::new();
    let req = RequestParts {
        method: Method::Trace,
        version: HttpVersion::Http11,
        path: "/".to_string(),
        query: None,
        headers: Vec::new(),
    };
    match ProxyServe::handle(&store, req, 0) {
        ServeStep::Respond(p) => {
            assert_eq!(p.status, 405);
            assert_eq!(header_value(&p, "Bloom-Status").unwrap(), "REJECT");
        },
        ServeStep::Tunnel(_) => panic!("a TRACE must not reach the tunnel"),
    }
}

#[test]
fn a_failed_tunnel_leaves_offline() {
    let mut store = CacheStore::new();
    let step = ProxyServe::handle(&store, get_request(Vec::new()), 0);
    let ctx = match step {
        ServeStep::Tunnel(ctx) => ctx,
        ServeStep::Respond(_) => panic!("an empty cache must tunnel"),
    };
    let p = ProxyServe::resume(&mut store, ctx, None, 600);
    assert_eq!(p.status, 502);
    assert_eq!(header_value(&p, "Bloom-Status").unwrap(), "OFFLINE");
    assert_eq!(p.body, "502 Bad Gateway");
}

#[test]
fn a_miss_is_stored_and_replayed_byte_identical() {
    let mut store = CacheStore::new();
    let backend = backend_response(
        vec![h("Content-Type", "text/plain"), h("Connection", "keep-alive")],
        "hello cache",
    );
    let miss = run_miss(&mut store, get_request(Vec::new()), backend);
    assert_eq!(miss.status, 200);
    assert_eq!(header_value(&miss, "Bloom-Status").unwrap(), "MISS");
    assert_eq!(miss.body, "hello cache");
    let etag = header_value(&miss, "ETag").unwrap();
    // a quoted 16-hex-character fingerprint
    assert_eq!(etag.len(), 18);
    assert!(etag.starts_with('"') && etag.ends_with('"'));
    assert_eq!(header_value(&miss, "Vary").unwrap(), "ETag");

    // second request: replayed from cache, byte-identical, same ETag
    match ProxyServe::handle(&store, get_request(Vec::new()), 0) {
        ServeStep::Respond(p) => {
            assert_eq!(p.status, 200);
            assert_eq!(header_value(&p, "Bloom-Status").unwrap(), "HIT");
            assert_eq!(p.body, "hello cache");
            assert_eq!(header_value(&p, "ETag").unwrap(), etag);
            assert_eq!(header_value(&p, "Content-Type").unwrap(), "text/plain");
            // contextual headers were never stored
            assert!(header_value(&p, "Connection").is_none());
        },
        ServeStep::Tunnel(_) => panic!("the entry must be served from cache"),
    }
}

#[test]
fn conditional_get_with_matching_tag_is_304_without_body() {
    let mut store = CacheStore::new();
    let miss = run_miss(
        &mut store,
        get_request(Vec::new()),
        backend_response(vec![h("Content-Type", "text/plain")], "conditional body"),
    );
    let etag = header_value(&miss, "ETag").unwrap();

    // weak match on the stored fingerprint
    let weak = format!("W/{etag}");
    let req = get_request(vec![h("If-None-Match", &weak)]);
    match ProxyServe::handle(&store, req, 0) {
        ServeStep::Respond(p) => {
            assert_eq!(p.status, 304);
            assert_eq!(header_value(&p, "Bloom-Status").unwrap(), "HIT");
            assert_eq!(p.body, "");
            assert_eq!(header_value(&p, "ETag").unwrap(), etag);
        },
        ServeStep::Tunnel(_) => panic!("a conditional hit must not tunnel"),
    }

    // the wildcard matches as well
    let req = get_request(vec![h("If-None-Match", "*")]);
    match ProxyServe::handle(&store, req, 0) {
        ServeStep::Respond(p) => assert_eq!(p.status, 304),
        ServeStep::Tunnel(_) => panic!("the wildcard must match"),
    }
}

#[test]
fn conditional_get_with_other_tag_replays_in_full() {
    let mut store = CacheStore::new();
    run_miss(
        &mut store,
        get_request(Vec::new()),
        backend_response(Vec::new(), "full body"),
    );
    let req = get_request(vec![h("If-None-Match", "\"0000000000000000\"")]);
    match ProxyServe::handle(&store, req, 0) {
        ServeStep::Respond(p) => {
            assert_eq!(p.status, 200);
            assert_eq!(p.body, "full body");
            assert_eq!(header_value(&p, "Bloom-Status").unwrap(), "HIT");
        },
        ServeStep::Tunnel(_) => panic!("a stored entry must not re-tunnel"),
    }
}

#[test]
fn zero_ttl_is_direct_and_stores_nothing() {
    let mut store = CacheStore::new();
    let backend = backend_response(vec![h("Bloom-Response-TTL", "0")], "volatile");
    let p = run_miss(&mut store, get_request(Vec::new()), backend);
    assert_eq!(p.status, 200);
    assert_eq!(header_value(&p, "Bloom-Status").unwrap(), "DIRECT");
    assert_eq!(p.body, "volatile");
    // nothing was written: the next request tunnels again
    match ProxyServe::handle(&store, get_request(Vec::new()), 0) {
        ServeStep::Tunnel(_) => {},
        ServeStep::Respond(_) => panic!("a zero-TTL response must not be cached"),
    }
}

#[test]
fn ignore_directive_is_direct_and_stores_nothing() {
    let mut store = CacheStore::new();
    let backend = backend_response(vec![h("Bloom-Response-Ignore", "1")], "private");
    let p = run_miss(&mut store, get_request(Vec::new()), backend);
    assert_eq!(header_value(&p, "Bloom-Status").unwrap(), "DIRECT");
    // the directive itself is stripped from what the client sees
    assert!(header_value(&p, "Bloom-Response-Ignore").is_none());
    match ProxyServe::handle(&store, get_request(Vec::new()), 0) {
        ServeStep::Tunnel(_) => {},
        ServeStep::Respond(_) => panic!("an ignored response must not be cached"),
    }
}

fn marker_values(p: &ResponseParts) -> Vec<String> {
    p.headers
        .iter()
        .filter(|e| e.name.eq_ignore_ascii_case("Bloom-Status"))
        .map(|e| e.value.clone())
        .collect()
}

#[test]
fn a_backend_marker_gives_way_to_the_real_outcome() {
    let mut store = CacheStore::new();
    // a backend that (wrongly) speaks the outcome header itself
    let backend = backend_response(
        vec![h("Bloom-Status", "OFFLINE"), h("Content-Type", "text/plain")],
        "impostor",
    );
    let miss = run_miss(&mut store, get_request(Vec::new()), backend);
    assert_eq!(marker_values(&miss), vec!["MISS".to_string()]);

    // the stored copy replays with exactly one marker as well
    match ProxyServe::handle(&store, get_request(Vec::new()), 0) {
        ServeStep::Respond(p) => {
            assert_eq!(p.body, "impostor");
            assert_eq!(marker_values(&p), vec!["HIT".to_string()]);
        },
        ServeStep::Tunnel(_) => panic!("the entry must be served from cache"),
    }
}

#[test]
fn a_backend_marker_gives_way_on_the_direct_path_too() {
    let mut store = CacheStore::new();
    let backend = backend_response(
        vec![h("bloom-status", "HIT"), h("Bloom-Response-TTL", "0")],
        "volatile",
    );
    let p = run_miss(&mut store, get_request(Vec::new()), backend);
    assert_eq!(marker_values(&p), vec!["DIRECT".to_string()]);
}

#[test]
fn post_responses_are_not_served_from_cache() {
    let mut store = CacheStore::new();
    run_miss(
        &mut store,
        get_request(Vec::new()),
        backend_response(Vec::new(), "cached for get"),
    );
    let post = RequestParts {
        method: Method::Post,
        version: HttpVersion::Http11,
        path: "/".to_string(),
        query: None,
        headers: Vec::new(),
    };
    match ProxyServe::handle(&store, post, 0) {
        ServeStep::Tunnel(_) => {},
        ServeStep::Respond(_) => panic!("a POST must always tunnel"),
    }
}

#[test]
fn head_responses_carry_no_body() {
    let mut store = CacheStore::new();
    let head = RequestParts {
        method: Method::Head,
        version: HttpVersion::Http11,
        path: "/".to_string(),
        query: None,
        headers: Vec::new(),
    };
    let step = ProxyServe::handle(&store, head, 0);
    let ctx = match step {
        ServeStep::Tunnel(ctx) => ctx,
        ServeStep::Respond(_) => panic!("an empty cache must tunnel"),
    };
    let p = ProxyServe::resume(
        &mut store,
        ctx,
        Some(backend_response(Vec::new(), "a body the client must not get")),
        600,
    );
    assert_eq!(p.status, 200);
    assert_eq!(p.body, "");
}
