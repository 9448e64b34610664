use bloom::header::janitor::HeaderJanitor;
use bloom::header::request_shard::HeaderRequestBloomRequestShard;
use bloom::header::response_buckets::HeaderResponseBloomResponseBuckets;
use bloom::header::response_ignore::HeaderResponseBloomResponseIgnore;
use bloom::header::response_ttl::HeaderResponseBloomResponseTTL;
use bloom::header::status::{HeaderBloomStatus, HeaderBloomStatusValue};
use bloom::http::HeaderEntry;

fn h(name: &str, value: &str) -> HeaderEntry {
    HeaderEntry { name: name.to_string(), value: value.to_string() }
}

#[test]
fn it_matches_status_string() {
    assert_eq!(HeaderBloomStatusValue::Hit.to_str(), "HIT");
    assert_eq!(HeaderBloomStatusValue::Miss.to_str(), "MISS");
    assert_eq!(HeaderBloomStatusValue::Direct.to_str(), "DIRECT");
    assert_eq!(HeaderBloomStatusValue::Reject.to_str(), "REJECT");
    assert_eq!(HeaderBloomStatusValue::Offline.to_str(), "OFFLINE");
}

#[test]
fn status_header_decodes_exactly_the_five_outcomes() {
    assert_eq!(HeaderBloomStatus::decode("HIT"), Some(HeaderBloomStatus(HeaderBloomStatusValue::Hit)));
    assert_eq!(
        HeaderBloomStatus::decode("OFFLINE"),
        Some(HeaderBloomStatus(HeaderBloomStatusValue::Offline))
    );
    assert_eq!(HeaderBloomStatus::decode("hit"), None);
    assert_eq!(HeaderBloomStatus::decode(""), None);
    assert_eq!(HeaderBloomStatus::decode("STALE"), None);
    assert_eq!(HeaderBloomStatus(HeaderBloomStatusValue::Miss).encode(), "MISS");
}

#[test]
fn shard_header_parses_small_numbers_only() {
    assert_eq!(
        HeaderRequestBloomRequestShard::parse_header("12"),
        Some(HeaderRequestBloomRequestShard(12))
    );
    assert_eq!(HeaderRequestBloomRequestShard::parse_header("0"), Some(HeaderRequestBloomRequestShard(0)));
    assert_eq!(HeaderRequestBloomRequestShard::parse_header("256"), None);
    assert_eq!(HeaderRequestBloomRequestShard::parse_header("-1"), None);
    assert_eq!(HeaderRequestBloomRequestShard::parse_header("abc"), None);
    assert_eq!(HeaderRequestBloomRequestShard::parse_header(""), None);
    assert_eq!(HeaderRequestBloomRequestShard(9).fmt_header(), "9");
}

#[test]
fn ttl_header_parses_seconds() {
    assert_eq!(
        HeaderResponseBloomResponseTTL::parse_header("600"),
        Some(HeaderResponseBloomResponseTTL(600))
    );
    assert_eq!(HeaderResponseBloomResponseTTL::parse_header("0"), Some(HeaderResponseBloomResponseTTL(0)));
    assert_eq!(HeaderResponseBloomResponseTTL::parse_header("10s"), None);
    assert_eq!(HeaderResponseBloomResponseTTL::parse_header(""), None);
    assert_eq!(HeaderResponseBloomResponseTTL(42).fmt_header(), "42");
}

#[test]
fn ignore_header_only_accepts_one() {
    assert!(HeaderResponseBloomResponseIgnore::decode("1").is_some());
    assert!(HeaderResponseBloomResponseIgnore::decode("0").is_none());
    assert!(HeaderResponseBloomResponseIgnore::decode("true").is_none());
    assert!(HeaderResponseBloomResponseIgnore::decode("").is_none());
    assert_eq!(HeaderResponseBloomResponseIgnore().encode(), "1");
}

#[test]
fn buckets_header_splits_trims_and_drops_empties() {
    let decoded = HeaderResponseBloomResponseBuckets::decode(" feed, user:1 ,,news,");
    assert_eq!(decoded.0, vec!["feed".to_string(), "user:1".to_string(), "news".to_string()]);

    let empty = HeaderResponseBloomResponseBuckets::decode("   ");
    assert!(empty.0.is_empty());

    let single = HeaderResponseBloomResponseBuckets::decode("feed");
    assert_eq!(single.0, vec!["feed".to_string()]);
}

#[test]
fn janitor_tells_contextual_and_internal_headers() {
    assert!(HeaderJanitor::is_contextual("Connection"));
    assert!(HeaderJanitor::is_contextual("date"));
    assert!(HeaderJanitor::is_contextual("UPGRADE"));
    assert!(!HeaderJanitor::is_contextual("Content-Type"));

    assert!(HeaderJanitor::is_interal("Bloom-Response-Buckets"));
    assert!(HeaderJanitor::is_interal("bloom-response-ignore"));
    assert!(HeaderJanitor::is_interal("Bloom-Response-TTL"));
    assert!(!HeaderJanitor::is_interal("Bloom-Request-Shard"));
}

#[test]
fn janitor_clean_strips_only_what_it_must() {
    let mut headers = vec![
        h("Content-Type", "application/json"),
        h("Connection", "keep-alive"),
        h("Bloom-Response-TTL", "60"),
        h("X-Custom", "kept"),
        h("Date", "today"),
        h("Bloom-Response-Buckets", "feed"),
    ];
    HeaderJanitor::clean(&mut headers);
    let names: Vec<&str> = headers.iter().map(|e| e.name.as_str()).collect();
    assert_eq!(names, vec!["Content-Type", "X-Custom"]);
    assert_eq!(headers[0].value, "application/json");
    assert_eq!(headers[1].value, "kept");
}
