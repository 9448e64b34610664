use bloom::http::{HeaderEntry, Method};
use bloom::proxy::tunnel::{
    map_shards, ConfigError, ProxyTunnel, ShardConfig, TunnelError, MAX_SHARDS,
};

fn h(name: &str, value: &str) -> HeaderEntry {
    HeaderEntry { name: name.to_string(), value: value.to_string() }
}

fn sample_map() -> bloom::proxy::tunnel::ShardMap {
    map_shards(vec![
        ShardConfig { shard: 0, host: "localhost".to_string(), port: 3000 },
        ShardConfig { shard: 3, host: "backend-3".to_string(), port: 8080 },
    ])
    .expect("valid configuration")
}

#[test]
fn shard_over_the_maximum_fails_without_any_network_plan() {
    let map = sample_map();
    let r = ProxyTunnel::run(&map, &Method::Get, "/x", None, Vec::new(), MAX_SHARDS);
    assert_eq!(r.err().unwrap(), TunnelError::ShardOutOfBounds);
    let r = ProxyTunnel::run(&map, &Method::Get, "/x", None, Vec::new(), 200);
    assert_eq!(r.err().unwrap(), TunnelError::ShardOutOfBounds);
}

#[test]
fn unregistered_shard_fails_immediately() {
    let map = sample_map();
    let r = ProxyTunnel::run(&map, &Method::Get, "/x", None, Vec::new(), 5);
    assert_eq!(r.err().unwrap(), TunnelError::ShardNotRegistered);
}

#[test]
fn the_plan_rebuilds_the_target_uri_and_keeps_headers() {
    let map = sample_map();
    let headers = vec![h("Accept", "application/json"), h("Authorization", "token")];
    let plan = ProxyTunnel::run(&map, &Method::Get, "/feed", Some("page=2"), headers, 3)
        .expect("registered shard");
    assert_eq!(plan.uri, "http://backend-3:8080/feed?page=2");
    assert!(!plan.has_body);
    assert_eq!(plan.headers.len(), 2);
    assert_eq!(plan.headers[0].name, "Accept");
    assert_eq!(plan.headers[1].value, "token");

    let plan = ProxyTunnel::run(&map, &Method::Post, "/submit", None, Vec::new(), 0)
        .expect("registered shard");
    assert_eq!(plan.uri, "http://localhost:3000/submit");
    assert!(plan.has_body);
}

#[test]
fn configuration_with_an_overflowing_shard_is_fatal() {
    let r = map_shards(vec![ShardConfig {
        shard: MAX_SHARDS,
        host: "h".to_string(),
        port: 80,
    }]);
    assert_eq!(r.err().unwrap(), ConfigError::ShardOverflow);
}

#[test]
fn later_configuration_entries_win() {
    let map = map_shards(vec![
        ShardConfig { shard: 1, host: "old".to_string(), port: 1 },
        ShardConfig { shard: 1, host: "new".to_string(), port: 2 },
    ])
    .expect("valid configuration");
    let plan = ProxyTunnel::run(&map, &Method::Get, "/", None, Vec::new(), 1).unwrap();
    assert_eq!(plan.uri, "http://new:2/");
}
