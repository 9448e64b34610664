use bloom::cache::store::CacheStore;
use bloom::control::command::{ControlCommand, ControlCommandResponse};
use bloom::http::HeaderEntry;

fn h(name: &str, value: &str) -> HeaderEntry {
    HeaderEntry { name: name.to_string(), value: value.to_string() }
}

fn seed_entry(store: &mut CacheStore, shard: u8, ns: &str, buckets: &str, body: &str) {
    let headers = vec![h("Bloom-Response-Buckets", buckets), h("Content-Type", "text/plain")];
    let outcome = bloom::cache::write::CacheWrite::save(
        store,
        ns,
        "mask",
        "aabb",
        shard,
        &bloom::http::Method::Get,
        bloom::http::HttpVersion::Http11,
        200,
        headers,
        body,
        600,
    );
    assert_eq!(outcome.kind, bloom::cache::write::WriteOutcomeKind::Miss);
}

#[test]
fn it_matches_command_response_string() {
    assert_eq!(ControlCommandResponse::Nil.to_str(), "NIL");
    assert_eq!(ControlCommandResponse::Okay.to_str(), "OK");
    assert_eq!(ControlCommandResponse::Pong.to_str(), "PONG");
    assert_eq!(ControlCommandResponse::Ended.to_str(), "ENDED quit");
}

#[test]
fn flush_bucket_deletes_tagged_entries_and_tag() {
    let mut store = CacheStore::new();
    let shard: u8 = 3;
    seed_entry(&mut store, shard, "bloom:3:c:a1:r1", "feed", "one");
    seed_entry(&mut store, shard, "bloom:3:c:a1:r2", "feed", "two");
    assert!(store.get_meta(shard, "bloom:3:c:a1:r1").is_some());
    assert!(store.get_meta(shard, "bloom:3:c:a1:r2").is_some());

    let r = ControlCommand::dispatch_flush_bucket(&mut store, &shard, "feed");
    assert_eq!(r, ControlCommandResponse::Okay);
    assert!(store.get_meta(shard, "bloom:3:c:a1:r1").is_none());
    assert!(store.get_meta(shard, "bloom:3:c:a1:r2").is_none());

    // the tag itself is gone too: a second flush removes nothing and
    // still succeeds
    let again = ControlCommand::dispatch_flush_bucket(&mut store, &shard, "feed");
    assert_eq!(again, ControlCommandResponse::Okay);
}

#[test]
fn flush_of_unknown_pattern_is_a_zero_count_success() {
    let mut store = CacheStore::new();
    let shard: u8 = 0;
    let r = store.purge_tag(
        &bloom::cache::store::CachePurgeVariant::Bucket,
        shard,
        "bloom:0:b:nothing",
    );
    assert_eq!(r, Ok(0));
    let resp = ControlCommand::dispatch_flush_bucket(&mut store, &shard, "nothing");
    assert_eq!(resp, ControlCommandResponse::Okay);
}

#[test]
fn flush_with_empty_pattern_is_nil() {
    let mut store = CacheStore::new();
    let shard: u8 = 1;
    assert_eq!(
        ControlCommand::dispatch_flush_bucket(&mut store, &shard, ""),
        ControlCommandResponse::Nil
    );
    assert_eq!(
        ControlCommand::dispatch_flush_auth(&mut store, &shard, ""),
        ControlCommandResponse::Nil
    );
}

#[test]
fn flush_auth_deletes_entries_under_the_auth_tag() {
    let mut store = CacheStore::new();
    let shard: u8 = 5;
    seed_entry(&mut store, shard, "bloom:5:c:aabb:r9", "", "payload");
    // the auth hash used by seed_entry is "aabb"
    let r = ControlCommand::dispatch_flush_auth(&mut store, &shard, "aabb");
    assert_eq!(r, ControlCommandResponse::Okay);
    assert!(store.get_meta(shard, "bloom:5:c:aabb:r9").is_none());
}

#[test]
fn shard_command_sets_context_or_answers_nil() {
    let mut shard: u8 = 0;
    assert_eq!(ControlCommand::dispatch_shard(&mut shard, "7"), ControlCommandResponse::Okay);
    assert_eq!(shard, 7);
    assert_eq!(ControlCommand::dispatch_shard(&mut shard, "what"), ControlCommandResponse::Nil);
    assert_eq!(shard, 7);
    assert_eq!(ControlCommand::dispatch_shard(&mut shard, "300"), ControlCommandResponse::Nil);
    assert_eq!(shard, 7);
    assert_eq!(ControlCommand::dispatch_shard(&mut shard, ""), ControlCommandResponse::Nil);
    assert_eq!(shard, 7);
}

#[test]
fn lines_dispatch_to_their_commands() {
    let mut store = CacheStore::new();
    let mut shard: u8 = 0;
    assert_eq!(
        ControlCommand::dispatch_line(&mut store, &mut shard, "PING"),
        ControlCommandResponse::Pong
    );
    assert_eq!(
        ControlCommand::dispatch_line(&mut store, &mut shard, "SHARD 3"),
        ControlCommandResponse::Okay
    );
    assert_eq!(shard, 3);
    assert_eq!(
        ControlCommand::dispatch_line(&mut store, &mut shard, "  QUIT  "),
        ControlCommandResponse::Ended
    );
    assert_eq!(
        ControlCommand::dispatch_line(&mut store, &mut shard, "EXPLODE now"),
        ControlCommandResponse::Nil
    );
    assert_eq!(
        ControlCommand::dispatch_line(&mut store, &mut shard, ""),
        ControlCommandResponse::Nil
    );
    assert_eq!(
        ControlCommand::dispatch_line(&mut store, &mut shard, "FLUSHBUCKET"),
        ControlCommandResponse::Nil
    );
}

#[test]
fn a_flush_line_deletes_what_its_bucket_tagged() {
    let mut store = CacheStore::new();
    let mut shard: u8 = 0;
    assert_eq!(
        ControlCommand::dispatch_line(&mut store, &mut shard, "SHARD 3"),
        ControlCommandResponse::Okay
    );
    seed_entry(&mut store, 3, "bloom:3:c:a1:r1", "feed", "one");
    seed_entry(&mut store, 3, "bloom:3:c:a1:r2", "feed", "two");
    assert_eq!(
        ControlCommand::dispatch_line(&mut store, &mut shard, "FLUSHBUCKET feed"),
        ControlCommandResponse::Okay
    );
    assert!(store.get_meta(3, "bloom:3:c:a1:r1").is_none());
    assert!(store.get_meta(3, "bloom:3:c:a1:r2").is_none());
}

#[test]
fn ping_and_quit_answer_their_tokens() {
    assert_eq!(ControlCommand::dispatch_ping(), ControlCommandResponse::Pong);
    assert_eq!(ControlCommand::dispatch_quit(), ControlCommandResponse::Ended);
    assert_eq!(ControlCommandResponse::Void.to_str(), "");
}
