use bloom::cache::route::{CacheRoute, ROUTE_HASH_SIZE};
use bloom::http::{HttpVersion, Method};

#[test]
fn it_generates_valid_ns() {
    assert_eq!(
        CacheRoute::gen_key_cache(
            0,
            "dc56d17a",
            HttpVersion::Http11,
            &Method::Get,
            "/",
            Some(""),
            None,
        ),
        (
            "bloom:0:c:dc56d17a:7cf7a048e7a274fb".to_string(),
            "dc56d17a:7cf7a048e7a274fb".to_string(),
        ),
        "[shard=0][auth=no] HTTP/1.1 GET /"
    );
    assert_eq!(
        CacheRoute::gen_key_cache(
            0,
            "dc56d17a",
            HttpVersion::Http11,
            &Method::Post,
            "/login",
            Some(""),
            None,
        ),
        (
            "bloom:0:c:dc56d17a:b09a457c8d1e7a99".to_string(),
            "dc56d17a:b09a457c8d1e7a99".to_string(),
        ),
        "[shard=0][auth=no] HTTP/1.1 POST /login"
    );
    assert_eq!(
        CacheRoute::gen_key_cache(
            7,
            "6d0f1448",
            HttpVersion::Http11,
            &Method::Options,
            "/feed",
            Some(""),
            None,
        ),
        (
            "bloom:7:c:6d0f1448:f5cb99aa5aceb0e9".to_string(),
            "6d0f1448:f5cb99aa5aceb0e9".to_string(),
        ),
        "[shard=7][auth=yes] HTTP/1.1 OPTIONS /feed"
    );
    assert_eq!(
        CacheRoute::gen_key_cache(
            80,
            "d73f0f31",
            HttpVersion::H2,
            &Method::Head,
            "/user",
            Some("u=1"),
            Some("https://valeriansaliou.name"),
        ),
        (
            "bloom:80:c:d73f0f31:e258b8e6d24173f5".to_string(),
            "d73f0f31:e258b8e6d24173f5".to_string(),
        ),
        "[shard=80][auth=yes] h2 HEAD /feed"
    );
    assert_eq!(
        ROUTE_HASH_SIZE,
        CacheRoute::hash("7gCq81kzO5").len(),
        "Route size should be 16 (dynamic)"
    );
}

#[test]
fn key_for_cache_is_deterministic() {
    let a = CacheRoute::gen_key_cache(
        4,
        "aabbccdd",
        HttpVersion::Http11,
        &Method::Get,
        "/items",
        Some("page=2"),
        None,
    );
    let b = CacheRoute::gen_key_cache(
        4,
        "aabbccdd",
        HttpVersion::Http11,
        &Method::Get,
        "/items",
        Some("page=2"),
        None,
    );
    assert_eq!(a, b);

    let other_query = CacheRoute::gen_key_cache(
        4,
        "aabbccdd",
        HttpVersion::Http11,
        &Method::Get,
        "/items",
        Some("page=3"),
        None,
    );
    assert_ne!(a, other_query);
}

#[test]
fn route_hash_is_always_16_hex_chars() {
    for value in ["", "a", "abc", "a-much-longer-value-with-more-than-sixteen-chars"] {
        let hash = CacheRoute::hash(value);
        assert_eq!(hash.len(), 16);
        assert!(hash.chars().all(|c| c.is_ascii_hexdigit()));
    }
}

#[test]
fn tag_keys_carry_their_scope() {
    let (auth_key, auth_mask) = CacheRoute::gen_key_auth_from_hash(2, "deadbeef");
    assert_eq!(auth_key, "bloom:2:a:deadbeef");
    assert_eq!(auth_mask, "a:deadbeef");

    let (bucket_key, bucket_mask) = CacheRoute::gen_key_bucket_from_hash(2, "feed");
    assert_eq!(bucket_key, "bloom:2:b:feed");
    assert_eq!(bucket_mask, "b:feed");

    let (cache_key, cache_mask) = CacheRoute::gen_key_cache_from_hash(2, "deadbeef", "0123456789abcdef");
    assert_eq!(cache_key, "bloom:2:c:deadbeef:0123456789abcdef");
    assert_eq!(cache_mask, "deadbeef:0123456789abcdef");
}
