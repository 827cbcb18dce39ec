use galaxy_proxy::auth::{api_key_verdict, KeyLookup};
use galaxy_proxy::key_cache::{apply_key_write, cached_key_lookup, record_store_lookup, ApiKeyCache, KeyWrite, CACHE_CAPACITY};

#[test]
fn cached_key_reads_back() {
    let mut cache = ApiKeyCache::new();
    assert!(cache.get("gp-a").is_none());
    cache.set("gp-a".to_string(), "1".to_string(), "first".to_string(), true);
    cache.set("gp-b".to_string(), "2".to_string(), "second".to_string(), false);
    assert_eq!(cache.get("gp-a"), Some(("1".to_string(), "first".to_string(), true)));
    assert_eq!(cache.get("gp-b"), Some(("2".to_string(), "second".to_string(), false)));
    cache.set("gp-a".to_string(), "3".to_string(), "renamed".to_string(), false);
    assert_eq!(cache.get("gp-a"), Some(("3".to_string(), "renamed".to_string(), false)));
    assert_eq!(cache.get("gp-b"), Some(("2".to_string(), "second".to_string(), false)));
}

#[test]
fn invalidated_keys_are_forgotten() {
    let mut cache = ApiKeyCache::new();
    cache.set("x".to_string(), "1".to_string(), "n".to_string(), true);
    cache.set("y".to_string(), "2".to_string(), "m".to_string(), true);
    cache.invalidate("x");
    assert!(cache.get("x").is_none());
    assert!(cache.get("y").is_some());
    cache.invalidate_all();
    assert!(cache.get("y").is_none());
}

#[test]
fn full_cache_drops_one_key_to_make_room() {
    let mut cache = ApiKeyCache::new();
    for i in 0..CACHE_CAPACITY {
        cache.set(format!("k{}", i), format!("{}", i), "n".to_string(), true);
    }
    cache.set("new".to_string(), "new-id".to_string(), "n".to_string(), true);
    assert_eq!(cache.get("new"), Some(("new-id".to_string(), "n".to_string(), true)));
    let kept = (0..CACHE_CAPACITY).filter(|i| cache.get(&format!("k{}", i)).is_some()).count();
    assert_eq!(kept, CACHE_CAPACITY - 1);
}

#[test]
fn admin_writes_refresh_the_key_cache() {
    let mut cache = ApiKeyCache::new();
    cache.set("gp-1".to_string(), "1".to_string(), "one".to_string(), true);
    cache.set("gp-2".to_string(), "2".to_string(), "two".to_string(), true);
    apply_key_write(&mut cache, &KeyWrite::Created);
    assert!(cache.get("gp-1").is_some());
    apply_key_write(&mut cache, &KeyWrite::Updated("gp-1".to_string()));
    assert!(cache.get("gp-1").is_none());
    assert_eq!(cache.get("gp-2"), Some(("2".to_string(), "two".to_string(), true)));
    apply_key_write(&mut cache, &KeyWrite::Deleted("gp-2".to_string()));
    assert!(cache.get("gp-2").is_none());
}

#[test]
fn disabled_key_is_refused_on_the_next_request() {
    use_after_write(KeyWrite::Updated("gp-1".to_string()), KeyLookup::Found("1".to_string(), "one".to_string(), false), 403);
    use_after_write(KeyWrite::Deleted("gp-1".to_string()), KeyLookup::Unknown, 401);
}

fn use_after_write(write: KeyWrite, stored: KeyLookup, status: u16) {
    let mut cache = ApiKeyCache::new();
    let first = record_store_lookup(&mut cache, "gp-1".to_string(), KeyLookup::Found("1".to_string(), "one".to_string(), true));
    assert!(api_key_verdict(first).is_ok());
    assert!(cached_key_lookup(&cache, "gp-1").is_some());
    apply_key_write(&mut cache, &write);
    assert!(cached_key_lookup(&cache, "gp-1").is_none());
    let next = record_store_lookup(&mut cache, "gp-1".to_string(), stored);
    assert_eq!(api_key_verdict(next).err().unwrap().status, status);
}
