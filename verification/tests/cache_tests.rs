use cyril_core::cache::HashCache;

#[test]
fn get_returns_none_for_missing_key() {
    let cache: HashCache<String> = HashCache::new(4);
    assert!(cache.get(42).is_none());
}

#[test]
fn insert_and_get_returns_value() {
    let mut cache = HashCache::new(4);
    cache.insert(1, "hello".to_string());
    assert_eq!(cache.get(1), Some(&"hello".to_string()));
}

#[test]
fn evicts_oldest_half_when_full() {
    let mut cache = HashCache::new(4);
    cache.insert(1, "a".to_string());
    cache.insert(2, "b".to_string());
    cache.insert(3, "c".to_string());
    cache.insert(4, "d".to_string());
    // The cache is at capacity; the next insert evicts the oldest two.
    cache.insert(5, "e".to_string());

    assert!(cache.get(1).is_none());
    assert!(cache.get(2).is_none());
    assert_eq!(cache.get(3), Some(&"c".to_string()));
    assert_eq!(cache.get(4), Some(&"d".to_string()));
    assert_eq!(cache.get(5), Some(&"e".to_string()));
}

#[test]
fn duplicate_insert_does_not_duplicate_order() {
    let mut cache = HashCache::new(4);
    cache.insert(1, "a".to_string());
    cache.insert(1, "a-updated".to_string());
    cache.insert(2, "b".to_string());
    cache.insert(3, "c".to_string());
    cache.insert(4, "d".to_string());
    // At capacity with four unique keys; the insert evicts the oldest half.
    cache.insert(5, "e".to_string());

    // Key 1 was inserted first, so it is evicted.
    assert!(cache.get(1).is_none());
}
