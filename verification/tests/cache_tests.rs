use securenotify_sdk::cache::ResponseCache;

#[test]
fn get_returns_live_value_and_counts_hit() {
    let mut cache: ResponseCache<String> = ResponseCache::new(60000, 100);
    cache.set("k".to_string(), "v".to_string(), Some(10), 0);
    assert_eq!(cache.get("k", 5), Some("v".to_string()));
    let m = cache.get_metrics();
    assert_eq!(m.hits, 1);
    assert_eq!(m.misses, 0);
}

#[test]
fn expired_entry_is_missed_and_removed() {
    let mut cache: ResponseCache<String> = ResponseCache::new(60000, 100);
    cache.set("k".to_string(), "v".to_string(), Some(10), 0);
    assert_eq!(cache.get("k", 5), Some("v".to_string()));
    // deadline is now + ttl = 10; at exactly 10 the entry is expired
    assert_eq!(cache.get("k", 11), None);
    let m = cache.get_metrics();
    assert_eq!(m.hits, 1);
    assert_eq!(m.misses, 1);
    assert_eq!(cache.size(), 0);
}

#[test]
fn missing_key_counts_miss() {
    let mut cache: ResponseCache<u64> = ResponseCache::new(1000, 10);
    assert_eq!(cache.get("nope", 0), None);
    assert_eq!(cache.get_metrics().misses, 1);
}

#[test]
fn default_ttl_applies_when_none_given() {
    let mut cache: ResponseCache<u64> = ResponseCache::new(50, 10);
    cache.set("k".to_string(), 7, None, 100);
    assert_eq!(cache.get("k", 149), Some(7));
    assert_eq!(cache.get("k", 150), None);
}

#[test]
fn overwrite_updates_value_and_keeps_size() {
    let mut cache: ResponseCache<u64> = ResponseCache::new(1000, 10);
    cache.set("k".to_string(), 1, None, 0);
    cache.set("k".to_string(), 2, None, 0);
    assert_eq!(cache.size(), 1);
    assert_eq!(cache.get("k", 1), Some(2));
}

#[test]
fn eviction_keeps_cache_within_capacity() {
    let mut cache: ResponseCache<u64> = ResponseCache::new(60000, 10);
    for i in 0..11u64 {
        cache.set(format!("key-{}", i), i, None, 0);
        assert!(cache.size() <= 10);
    }
    // at capacity, a new key evicted the oldest tenth (one entry) first
    assert_eq!(cache.size(), 10);
    assert_eq!(cache.get("key-0", 1), None);
    assert_eq!(cache.get("key-10", 1), Some(10));
}

#[test]
fn eviction_with_default_capacity() {
    let mut cache: ResponseCache<u64> = ResponseCache::default();
    for i in 0..1001u64 {
        cache.set(format!("key-{}", i), i, None, 0);
    }
    assert!(cache.size() <= 1000);
}

#[test]
fn delete_removes_only_that_key() {
    let mut cache: ResponseCache<u64> = ResponseCache::new(1000, 10);
    cache.set("a".to_string(), 1, None, 0);
    cache.set("b".to_string(), 2, None, 0);
    cache.delete("a");
    assert_eq!(cache.size(), 1);
    assert_eq!(cache.get("a", 1), None);
    assert_eq!(cache.get("b", 1), Some(2));
}

#[test]
fn clear_empties_the_store() {
    let mut cache: ResponseCache<u64> = ResponseCache::new(1000, 10);
    cache.set("a".to_string(), 1, None, 0);
    cache.clear();
    assert_eq!(cache.size(), 0);
    assert_eq!(cache.get_metrics().entries, 0);
}

#[test]
fn cleanup_removes_exactly_the_expired() {
    let mut cache: ResponseCache<u64> = ResponseCache::new(1000, 10);
    cache.set("a".to_string(), 1, Some(10), 0);
    cache.set("b".to_string(), 2, Some(100), 0);
    cache.set("c".to_string(), 3, Some(20), 0);
    let removed = cache.cleanup_expired(50);
    assert_eq!(removed, 2);
    assert_eq!(cache.size(), 1);
    assert_eq!(cache.get("b", 50), Some(2));
    assert_eq!(cache.get_metrics().cleanup_count, 1);
}

#[test]
fn reset_metrics_zeroes_counters_and_keeps_entries() {
    let mut cache: ResponseCache<u64> = ResponseCache::new(1000, 10);
    cache.set("a".to_string(), 1, None, 0);
    cache.get("a", 1);
    cache.reset_metrics();
    let m = cache.get_metrics();
    assert_eq!((m.hits, m.misses, m.entries, m.cleanup_count), (0, 0, 0, 0));
    assert_eq!(cache.size(), 1);
}
