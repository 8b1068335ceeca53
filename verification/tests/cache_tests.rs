use polymath::cache::LRUCache;

#[test]
fn test_eviction() {
    let mut cache = LRUCache::with_capacity(2);

    cache.put(
        "gravitalia.com/robots.txt".to_string(),
        "User-agent: *\nAllow: /",
    );
    assert_eq!(
        cache.get(&"gravitalia.com/robots.txt".to_string()),
        Some(&"User-agent: *\nAllow: /")
    );

    cache.put(
        "finance.gravitalia.com/robots.txt".to_string(),
        "User-agent: *\nAllow: /",
    );
    assert_eq!(cache.len(), 2);
    cache.put(
        "news.gravitalia.com/robots.txt".to_string(),
        "User-agent: *\nDisallow: /",
    );
    assert_eq!(cache.len(), 2);

    assert_eq!(cache.get(&"gravitalia.com/robots.txt".to_string()), None);
}

#[test]
fn eviction_order_is_least_recently_used() {
    let mut cache = LRUCache::with_capacity(3);
    cache.put("a".to_string(), 1usize);
    cache.put("b".to_string(), 2usize);
    cache.put("c".to_string(), 3usize);
    // Touch "a": "b" becomes the least recently used entry.
    assert_eq!(cache.get(&"a".to_string()), Some(&1));
    cache.put("d".to_string(), 4usize);
    assert_eq!(cache.len(), 3);
    assert_eq!(cache.get(&"b".to_string()), None);
    assert_eq!(cache.get(&"a".to_string()), Some(&1));
    assert_eq!(cache.get(&"c".to_string()), Some(&3));
    assert_eq!(cache.get(&"d".to_string()), Some(&4));
}

#[test]
fn filling_capacity_plus_one_evicts_only_the_first() {
    let mut cache = LRUCache::with_capacity(2);
    cache.put("first".to_string(), 0usize);
    cache.put("second".to_string(), 1usize);
    cache.put("third".to_string(), 2usize);
    assert_eq!(cache.len(), 2);
    assert_eq!(cache.get(&"first".to_string()), None);
    assert_eq!(cache.get(&"second".to_string()), Some(&1));
    assert_eq!(cache.get(&"third".to_string()), Some(&2));
}

#[test]
fn update_rebinds_and_touches() {
    let mut cache = LRUCache::with_capacity(2);
    cache.put("a".to_string(), 1usize);
    cache.put("b".to_string(), 2usize);
    cache.update(&"a".to_string(), 10usize);
    // "a" is now most recently used, so "b" is evicted next.
    cache.put("c".to_string(), 3usize);
    assert_eq!(cache.get(&"b".to_string()), None);
    assert_eq!(cache.get(&"a".to_string()), Some(&10));
}

#[test]
fn rebinding_a_present_key_never_evicts() {
    let mut cache = LRUCache::with_capacity(2);
    cache.put("a".to_string(), 1usize);
    cache.put("b".to_string(), 2usize);
    cache.put("a".to_string(), 9usize);
    assert_eq!(cache.len(), 2);
    assert_eq!(cache.get(&"a".to_string()), Some(&9));
    assert_eq!(cache.get(&"b".to_string()), Some(&2));
}
