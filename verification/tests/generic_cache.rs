use repodata_cache::error::FetchError;
use repodata_cache::generic_cache::{GenericCache, GetCachedResult, WriteHandle};
use std::sync::Arc;

const TTL: u128 = 1_000;

fn fetcher(cache: &mut GenericCache<String>, key: &str, now: u128) -> WriteHandle {
    match cache.get_cached(key, now) {
        GetCachedResult::NotFound(handle) => handle,
        other => panic!("expected NotFound, got {:?}", other),
    }
}

fn found(cache: &mut GenericCache<String>, key: &str, now: u128) -> Arc<String> {
    match cache.get_cached(key, now) {
        GetCachedResult::Found(value) => value,
        other => panic!("expected Found, got {:?}", other),
    }
}

#[test]
fn new_cache_is_empty() {
    let mut cache: GenericCache<String> = GenericCache::with_expiration(TTL);
    assert_eq!(cache.ttl(), TTL);
    assert_eq!(cache.len(), 0);
    assert!(!cache.contains("a"));
    assert!(!cache.is_pending("a"));
    assert!(matches!(cache.get_cached("a", 0), GetCachedResult::NotFound(_)));
}

#[test]
fn first_caller_fetches_and_the_others_wait() {
    let mut cache: GenericCache<String> = GenericCache::with_expiration(TTL);
    let handle = fetcher(&mut cache, "k", 10);
    assert_eq!(handle.key(), "k");
    assert!(cache.is_pending("k"));
    let mut fetches = 1;
    for now in 11..40u128 {
        match cache.get_cached("k", now) {
            GetCachedResult::Pending => {}
            GetCachedResult::NotFound(_) => fetches += 1,
            GetCachedResult::Found(_) => panic!("nothing was stored yet"),
        }
    }
    assert_eq!(fetches, 1);
    assert_eq!(cache.set(handle, Arc::new(String::from("v")), 50), Ok(()));
    assert!(!cache.is_pending("k"));
    for now in 50..80u128 {
        assert_eq!(*found(&mut cache, "k", now), "v");
    }
}

#[test]
fn waiters_share_one_value() {
    let mut cache: GenericCache<String> = GenericCache::with_expiration(TTL);
    let handle = fetcher(&mut cache, "k", 0);
    let value = Arc::new(String::from("shared"));
    cache.set(handle, Arc::clone(&value), 5).unwrap();
    let first = found(&mut cache, "k", 6);
    let second = found(&mut cache, "k", 7);
    assert!(Arc::ptr_eq(&first, &value));
    assert!(Arc::ptr_eq(&first, &second));
}

#[test]
fn keys_are_fetched_independently() {
    let mut cache: GenericCache<String> = GenericCache::with_expiration(TTL);
    let a = fetcher(&mut cache, "a", 0);
    let b = fetcher(&mut cache, "b", 0);
    assert!(matches!(cache.get_cached("a", 1), GetCachedResult::Pending));
    assert!(matches!(cache.get_cached("b", 1), GetCachedResult::Pending));
    cache.set(b, Arc::new(String::from("vb")), 2).unwrap();
    assert!(matches!(cache.get_cached("a", 3), GetCachedResult::Pending));
    assert_eq!(*found(&mut cache, "b", 3), "vb");
    cache.set(a, Arc::new(String::from("va")), 4).unwrap();
    assert_eq!(*found(&mut cache, "a", 5), "va");
    assert_eq!(cache.len(), 2);
}

#[test]
fn entry_is_served_until_just_before_it_expires() {
    let mut cache: GenericCache<String> = GenericCache::with_expiration(TTL);
    let handle = fetcher(&mut cache, "k", 100);
    cache.set(handle, Arc::new(String::from("v")), 100).unwrap();
    assert_eq!(*found(&mut cache, "k", 100), "v");
    assert_eq!(*found(&mut cache, "k", 600), "v");
    assert_eq!(*found(&mut cache, "k", 1_099), "v");
    assert_eq!(*found(&mut cache, "k", 0), "v");
}

#[test]
fn entry_is_not_served_from_its_expiry_on() {
    let mut cache: GenericCache<String> = GenericCache::with_expiration(TTL);
    let handle = fetcher(&mut cache, "k", 100);
    cache.set(handle, Arc::new(String::from("v")), 100).unwrap();
    assert!(matches!(cache.get_cached("k", 1_100), GetCachedResult::NotFound(_)));
    assert!(matches!(cache.get_cached("k", 1_101), GetCachedResult::Pending));
}

#[test]
fn expired_entry_is_refetched_and_replaced() {
    let mut cache: GenericCache<String> = GenericCache::with_expiration(TTL);
    let handle = fetcher(&mut cache, "k", 0);
    cache.set(handle, Arc::new(String::from("old")), 0).unwrap();
    let handle = fetcher(&mut cache, "k", 5_000);
    assert!(cache.contains("k"));
    cache.set(handle, Arc::new(String::from("new")), 5_001).unwrap();
    assert_eq!(cache.len(), 1);
    assert_eq!(*found(&mut cache, "k", 5_002), "new");
    assert_eq!(*found(&mut cache, "k", 6_000), "new");
    assert!(matches!(cache.get_cached("k", 6_001), GetCachedResult::NotFound(_)));
}

#[test]
fn zero_ttl_serves_nothing() {
    let mut cache: GenericCache<String> = GenericCache::with_expiration(0);
    let handle = fetcher(&mut cache, "k", 7);
    cache.set(handle, Arc::new(String::from("v")), 7).unwrap();
    assert!(matches!(cache.get_cached("k", 7), GetCachedResult::NotFound(_)));
}

#[test]
fn huge_ttl_does_not_overflow() {
    let mut cache: GenericCache<String> = GenericCache::with_expiration(u128::MAX);
    let handle = fetcher(&mut cache, "k", 10);
    cache.set(handle, Arc::new(String::from("v")), 10).unwrap();
    assert_eq!(*found(&mut cache, "k", u128::MAX), "v");
    cache.gc(u128::MAX);
    assert!(cache.contains("k"));
}

#[test]
fn gc_removes_only_entries_strictly_older_than_the_ttl() {
    let mut cache: GenericCache<String> = GenericCache::with_expiration(TTL);
    let a = fetcher(&mut cache, "a", 0);
    cache.set(a, Arc::new(String::from("va")), 0).unwrap();
    let b = fetcher(&mut cache, "b", 0);
    cache.set(b, Arc::new(String::from("vb")), 1).unwrap();
    let c = fetcher(&mut cache, "c", 0);
    cache.set(c, Arc::new(String::from("vc")), 500).unwrap();
    cache.gc(999);
    assert_eq!(cache.len(), 3);
    cache.gc(1_000);
    assert_eq!(cache.len(), 3);
    cache.gc(1_001);
    assert_eq!(cache.len(), 2);
    assert!(!cache.contains("a"));
    assert!(cache.contains("b"));
    assert!(cache.contains("c"));
    cache.gc(1_500);
    assert_eq!(cache.len(), 1);
    assert!(cache.contains("c"));
    assert_eq!(*found(&mut cache, "c", 1_499), "vc");
    cache.gc(1_501);
    assert_eq!(cache.len(), 0);
}

#[test]
fn gc_leaves_pending_slots_alone() {
    let mut cache: GenericCache<String> = GenericCache::with_expiration(TTL);
    let old = fetcher(&mut cache, "old", 0);
    cache.set(old, Arc::new(String::from("v")), 0).unwrap();
    let handle = fetcher(&mut cache, "k", 0);
    let refetch = fetcher(&mut cache, "old", 10_000);
    cache.gc(1_000_000);
    assert_eq!(cache.len(), 0);
    assert!(cache.is_pending("k"));
    assert!(cache.is_pending("old"));
    assert!(matches!(cache.get_cached("k", 1_000_001), GetCachedResult::Pending));
    assert_eq!(cache.set(handle, Arc::new(String::from("late")), 1_000_002), Ok(()));
    assert_eq!(cache.set(refetch, Arc::new(String::from("again")), 1_000_002), Ok(()));
    assert_eq!(*found(&mut cache, "k", 1_000_003), "late");
    assert_eq!(*found(&mut cache, "old", 1_000_003), "again");
}

#[test]
fn value_handed_out_survives_gc_and_replacement() {
    let mut cache: GenericCache<String> = GenericCache::with_expiration(TTL);
    let handle = fetcher(&mut cache, "k", 0);
    cache.set(handle, Arc::new(String::from("first")), 0).unwrap();
    let held = found(&mut cache, "k", 1);
    let other = fetcher(&mut cache, "other", 2);
    cache.set(other, Arc::new(String::from("unrelated")), 2).unwrap();
    assert_eq!(*held, "first");
    let again = fetcher(&mut cache, "k", 2_000);
    cache.set(again, Arc::new(String::from("second")), 2_000).unwrap();
    assert_eq!(*held, "first");
    assert_eq!(*found(&mut cache, "k", 2_001), "second");
    cache.gc(1_000_000);
    assert_eq!(*held, "first");
}

#[test]
fn abandon_releases_the_slot() {
    let mut cache: GenericCache<String> = GenericCache::with_expiration(TTL);
    let handle = fetcher(&mut cache, "k", 0);
    assert!(matches!(cache.get_cached("k", 1), GetCachedResult::Pending));
    assert_eq!(cache.abandon(handle), Ok(()));
    assert!(!cache.is_pending("k"));
    assert!(!cache.contains("k"));
    let retry = fetcher(&mut cache, "k", 2);
    assert_eq!(retry.key(), "k");
    assert!(matches!(cache.get_cached("k", 3), GetCachedResult::Pending));
    cache.set(retry, Arc::new(String::from("v")), 4).unwrap();
    assert_eq!(*found(&mut cache, "k", 5), "v");
}

#[test]
fn abandon_keeps_an_expired_entry_expired() {
    let mut cache: GenericCache<String> = GenericCache::with_expiration(TTL);
    let handle = fetcher(&mut cache, "k", 0);
    cache.set(handle, Arc::new(String::from("v")), 0).unwrap();
    let refetch = fetcher(&mut cache, "k", 3_000);
    cache.abandon(refetch).unwrap();
    assert!(matches!(cache.get_cached("k", 3_001), GetCachedResult::NotFound(_)));
}

#[test]
fn handle_of_another_cache_is_refused() {
    let mut cache: GenericCache<String> = GenericCache::with_expiration(TTL);
    let mut other: GenericCache<String> = GenericCache::with_expiration(TTL);
    let stray = fetcher(&mut other, "k", 0);
    assert_eq!(cache.set(stray, Arc::new(String::from("v")), 1), Err(FetchError::CacheProtocol));
    assert_eq!(cache.len(), 0);
    assert!(!cache.is_pending("k"));
    let stray = fetcher(&mut other, "j", 0);
    assert_eq!(cache.abandon(stray), Err(FetchError::CacheProtocol));
    assert!(matches!(cache.get_cached("k", 2), GetCachedResult::NotFound(_)));
}

#[test]
fn keys_are_compared_as_text() {
    let mut cache: GenericCache<String> = GenericCache::with_expiration(TTL);
    let handle = fetcher(&mut cache, "https://h/c/linux-64/", 0);
    cache.set(handle, Arc::new(String::from("v")), 0).unwrap();
    assert!(matches!(cache.get_cached("https://h/c/linux-64", 1), GetCachedResult::NotFound(_)));
    assert!(matches!(cache.get_cached("https://h/c/Linux-64/", 1), GetCachedResult::NotFound(_)));
    assert!(matches!(cache.get_cached("", 1), GetCachedResult::NotFound(_)));
    assert_eq!(*found(&mut cache, "https://h/c/linux-64/", 1), "v");
}
