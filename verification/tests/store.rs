use bloom::cache::read::CacheRead;
use bloom::cache::store::{CachePurgeVariant, CacheStore};
use bloom::http::Method;

fn tags(keys: &[&str]) -> Vec<String> {
    keys.iter().map(|k| k.to_string()).collect()
}

#[test]
fn set_then_get_returns_what_was_written() {
    let mut store = CacheStore::new();
    store
        .set("bloom:0:c:a:r", "fp16", "blobdata", 60, &tags(&["bloom:0:a:a"]))
        .unwrap();
    let meta = store.get_meta(0, "bloom:0:c:a:r").expect("meta stored");
    assert_eq!(meta.fingerprint, "fp16");
    assert_eq!(meta.ttl, 60);
    let body = store.get_body("bloom:0:c:a:r").expect("body stored");
    assert_eq!(body, "blobdata");
    assert!(store.get_meta(0, "bloom:0:c:a:other").is_none());
    assert!(store.get_body("bloom:0:c:a:other").is_none());
}

#[test]
fn set_replaces_an_entry_under_the_same_key() {
    let mut store = CacheStore::new();
    store.set("k", "fp1", "one", 10, &tags(&[])).unwrap();
    store.set("k", "fp2", "two", 20, &tags(&[])).unwrap();
    let meta = store.get_meta(0, "k").unwrap();
    assert_eq!(meta.fingerprint, "fp2");
    assert_eq!(meta.ttl, 20);
    assert_eq!(store.get_body("k").unwrap(), "two");
}

#[test]
fn purge_reports_how_many_entries_went() {
    let mut store = CacheStore::new();
    store.set("k1", "f1", "b1", 10, &tags(&["t"])).unwrap();
    store.set("k2", "f2", "b2", 10, &tags(&["t"])).unwrap();
    store.set("k3", "f3", "b3", 10, &tags(&["other"])).unwrap();
    let removed = store.purge_tag(&CachePurgeVariant::Bucket, 0, "t").unwrap();
    assert_eq!(removed, 2);
    assert!(store.get_meta(0, "k1").is_none());
    assert!(store.get_meta(0, "k2").is_none());
    assert!(store.get_meta(0, "k3").is_some());
}

#[test]
fn purge_skips_keys_whose_entries_are_already_gone() {
    let mut store = CacheStore::new();
    store.set("k1", "f1", "b1", 10, &tags(&["t", "u"])).unwrap();
    store.set("k2", "f2", "b2", 10, &tags(&["t"])).unwrap();
    // removing via tag "u" leaves an orphaned reference under "t"
    assert_eq!(store.purge_tag(&CachePurgeVariant::Bucket, 0, "u").unwrap(), 1);
    assert_eq!(store.purge_tag(&CachePurgeVariant::Bucket, 0, "t").unwrap(), 1);
    assert!(store.get_meta(0, "k2").is_none());
}

#[test]
fn purge_of_an_empty_pattern_set_is_zero_and_ok() {
    let mut store = CacheStore::new();
    assert_eq!(store.purge_tag(&CachePurgeVariant::Auth, 3, "bloom:3:a:missing").unwrap(), 0);
}

#[test]
fn read_path_short_circuits_non_cacheable_methods() {
    let mut store = CacheStore::new();
    store.set("k", "fp", "blob", 10, &tags(&[])).unwrap();
    assert_eq!(CacheRead::acquire_meta(&store, 0, "k", &Method::Post), Ok(None));
    assert_eq!(CacheRead::acquire_meta(&store, 0, "k", &Method::Delete), Ok(None));
    assert_eq!(
        CacheRead::acquire_meta(&store, 0, "k", &Method::Get),
        Ok(Some("fp".to_string()))
    );
    assert_eq!(
        CacheRead::acquire_meta(&store, 0, "k", &Method::Head),
        Ok(Some("fp".to_string()))
    );
    assert_eq!(CacheRead::acquire_body(&store, "k"), Ok(Some("blob".to_string())));
    assert_eq!(CacheRead::acquire_body(&store, "gone"), Ok(None));
}
