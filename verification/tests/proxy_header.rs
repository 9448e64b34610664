use bloom::http::HeaderEntry;
use bloom::proxy::header::{IfNoneMatchValue, ProxyHeader};

fn h(name: &str, value: &str) -> HeaderEntry {
    HeaderEntry { name: name.to_string(), value: value.to_string() }
}

#[test]
fn request_parsing_reads_auth_and_shard_with_defaults() {
    let headers = vec![h("authorization", "Bearer abc"), h("bloom-request-shard", "4")];
    let (kept, auth, shard) = ProxyHeader::parse_from_request(headers, 9);
    assert_eq!(kept.len(), 2);
    assert_eq!(auth, "Bearer abc");
    assert_eq!(shard, 4);

    let (_, auth, shard) = ProxyHeader::parse_from_request(Vec::new(), 9);
    assert_eq!(auth, "");
    assert_eq!(shard, 9);

    // an unparseable shard selector falls back to the default
    let headers = vec![h("Bloom-Request-Shard", "many")];
    let (_, _, shard) = ProxyHeader::parse_from_request(headers, 2);
    assert_eq!(shard, 2);
}

#[test]
fn set_etag_replaces_previous_vary_and_etag() {
    let mut headers = vec![h("ETag", "\"stale\""), h("Vary", "Accept"), h("X-Kept", "1")];
    ProxyHeader::set_etag(&mut headers, "\"fresh\"".to_string());
    let names: Vec<&str> = headers.iter().map(|e| e.name.as_str()).collect();
    assert_eq!(names, vec!["X-Kept", "Vary", "ETag"]);
    assert_eq!(headers[1].value, "ETag");
    assert_eq!(headers[2].value, "\"fresh\"");
}

#[test]
fn if_none_match_parses_wildcard_and_tag_lists() {
    match IfNoneMatchValue::parse(" * ") {
        Some(IfNoneMatchValue::Any) => {},
        _ => panic!("the wildcard must parse"),
    }

    match IfNoneMatchValue::parse("\"abc\", W/\"def\"") {
        Some(IfNoneMatchValue::Items(items)) => {
            assert_eq!(items.len(), 2);
            assert!(!items[0].weak);
            assert_eq!(items[0].tag, "abc");
            assert!(items[1].weak);
            assert_eq!(items[1].tag, "def");
        },
        _ => panic!("a tag list must parse"),
    }

    assert!(IfNoneMatchValue::parse("unquoted").is_none());
    assert!(IfNoneMatchValue::parse("\"ok\", broken").is_none());
}
