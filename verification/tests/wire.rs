use bloom::cache::wire;
use bloom::http::HeaderEntry;

fn h(name: &str, value: &str) -> HeaderEntry {
    HeaderEntry { name: name.to_string(), value: value.to_string() }
}

#[test]
fn serialize_has_the_wire_shape() {
    let headers = vec![h("Content-Type", "text/plain"), h("X-Seq", "7")];
    let blob = wire::serialize(200, &headers, "hello world");
    assert_eq!(
        blob,
        "HTTP/1.1 200\r\nContent-Type: text/plain\r\nX-Seq: 7\r\n\r\nhello world"
    );
}

#[test]
fn parse_inverts_serialize() {
    let headers = vec![h("Content-Type", "application/json"), h("X-Marker", "a, b")];
    let body = "{\"value\": [1, 2, 3]}\r\n\r\ntrailing";
    let blob = wire::serialize(418, &headers, body);
    let parsed = wire::parse(blob.as_str()).expect("round trip must parse");
    assert_eq!(parsed.status, 418);
    assert_eq!(parsed.body, body);
    assert_eq!(parsed.headers.len(), 2);
    assert_eq!(parsed.headers[0].name, "Content-Type");
    assert_eq!(parsed.headers[0].value, "application/json");
    assert_eq!(parsed.headers[1].name, "X-Marker");
    assert_eq!(parsed.headers[1].value, "a, b");
}

#[test]
fn parse_round_trips_an_empty_header_list_and_body() {
    let blob = wire::serialize(204, &Vec::new(), "");
    assert_eq!(blob, "HTTP/1.1 204\r\n\r\n");
    let parsed = wire::parse(blob.as_str()).expect("must parse");
    assert_eq!(parsed.status, 204);
    assert!(parsed.headers.is_empty());
    assert_eq!(parsed.body, "");
}

#[test]
fn corrupt_blobs_do_not_parse() {
    assert!(wire::parse("").is_none());
    assert!(wire::parse("garbage").is_none());
    assert!(wire::parse("HTTP/1.1 2x0\r\n\r\nbody").is_none());
    assert!(wire::parse("HTTP/1.1 200").is_none());
    assert!(wire::parse("HTTP/1.1 200\r\nNoColonHere\r\n\r\nbody").is_none());
    assert!(wire::parse("HTTP/1.1 99999\r\n\r\nbody").is_none());
}
