use image_provider::cache::CacheKey;
use image_provider::cache::ResultCache;

fn key(path: &str, w: Option<u32>) -> CacheKey {
    CacheKey { path: path.to_string(), output: None, w, h: None, dpr: 1 }
}

#[test]
fn lookup_returns_exactly_the_inserted_bytes() {
    let mut cache = ResultCache::new(4, 100);
    cache.insert(key("/a.jpg", Some(400)), vec![1, 2, 3, 4], 10);
    let hit = cache.lookup(&key("/a.jpg", Some(400)), 20);
    assert_eq!(hit, Some(vec![1, 2, 3, 4]));
    // A second identical lookup inside the window is still byte-identical.
    let hit = cache.lookup(&key("/a.jpg", Some(400)), 30);
    assert_eq!(hit, Some(vec![1, 2, 3, 4]));
}

#[test]
fn different_keys_do_not_share_entries() {
    let mut cache = ResultCache::new(4, 100);
    cache.insert(key("/a.jpg", Some(400)), vec![1], 0);
    assert_eq!(cache.lookup(&key("/a.jpg", Some(401)), 1), None);
    assert_eq!(cache.lookup(&key("/b.jpg", Some(400)), 1), None);
    assert_eq!(cache.lookup(&key("/a.jpg", Some(400)), 1), Some(vec![1]));
}

#[test]
fn entry_count_never_exceeds_capacity() {
    let mut cache = ResultCache::new(2, 1000);
    for i in 0..10u32 {
        cache.insert(key("/a.jpg", Some(i)), vec![i as u8], i as u64);
        assert!(cache.entries.len() <= 2);
    }
}

#[test]
fn eviction_removes_the_oldest_by_last_refresh() {
    let mut cache = ResultCache::new(2, 1000);
    cache.insert(key("/a.jpg", None), vec![1], 0);
    cache.insert(key("/b.jpg", None), vec![2], 1);
    // Refresh the older entry, making /b.jpg the eviction candidate.
    assert_eq!(cache.lookup(&key("/a.jpg", None), 2), Some(vec![1]));
    cache.insert(key("/c.jpg", None), vec![3], 3);
    assert_eq!(cache.lookup(&key("/b.jpg", None), 4), None);
    assert_eq!(cache.lookup(&key("/a.jpg", None), 4), Some(vec![1]));
    assert_eq!(cache.lookup(&key("/c.jpg", None), 4), Some(vec![3]));
}

#[test]
fn expired_entry_is_treated_as_absent() {
    let mut cache = ResultCache::new(4, 10);
    cache.insert(key("/a.jpg", None), vec![9], 0);
    assert_eq!(cache.lookup(&key("/a.jpg", None), 10), Some(vec![9]));
    cache.insert(key("/b.jpg", None), vec![8], 0);
    assert_eq!(cache.lookup(&key("/b.jpg", None), 11), None);
    // The expired entry was removed, so recomputation and re-insertion work.
    cache.insert(key("/b.jpg", None), vec![7], 12);
    assert_eq!(cache.lookup(&key("/b.jpg", None), 13), Some(vec![7]));
}

#[test]
fn a_hit_slides_the_expiry_window() {
    let mut cache = ResultCache::new(4, 10);
    cache.insert(key("/a.jpg", None), vec![5], 0);
    assert_eq!(cache.lookup(&key("/a.jpg", None), 8), Some(vec![5]));
    // 16 is past the original window but within 10 of the refresh at 8.
    assert_eq!(cache.lookup(&key("/a.jpg", None), 16), Some(vec![5]));
    assert_eq!(cache.lookup(&key("/a.jpg", None), 27), None);
}

#[test]
fn replacing_a_key_refreshes_its_bytes() {
    let mut cache = ResultCache::new(2, 100);
    cache.insert(key("/a.jpg", None), vec![1], 0);
    cache.insert(key("/a.jpg", None), vec![2], 5);
    assert_eq!(cache.lookup(&key("/a.jpg", None), 6), Some(vec![2]));
    assert!(cache.entries.len() == 1);
}

#[test]
fn capacity_zero_disables_caching() {
    let mut cache = ResultCache::new(0, 100);
    cache.insert(key("/a.jpg", None), vec![1], 0);
    assert_eq!(cache.lookup(&key("/a.jpg", None), 1), None);
    assert_eq!(cache.entries.len(), 0);
}
