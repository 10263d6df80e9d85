use pg_tviews::metrics::MetricsState;
use pg_tviews::queue::cache::{CachedEntityInfo, EntityGraphCache, TableEntityCache};

#[test]
fn test_graph_cache_invalidation() {
    let mut cache = EntityGraphCache::new();
    cache.invalidate();
    assert!(cache.is_none());
}

#[test]
fn test_table_cache_invalidation() {
    let mut cache = TableEntityCache::new();
    cache.insert(123, Some(CachedEntityInfo { name: "test".to_string(), distinct_on_key: None }));
    assert!(cache.get(123).is_some());
    cache.invalidate();
    assert!(cache.is_empty());
}

#[test]
fn test_negative_cache_entry() {
    let mut cache = TableEntityCache::new();
    cache.invalidate();
    cache.insert(999, None);
    assert!(cache.get(999).is_some());
    assert!(cache.get(999).unwrap().is_none());
}

#[test]
fn table_cache_counts_hits_and_misses_only_when_enabled() {
    let mut cache = TableEntityCache::new();
    let mut m = MetricsState::new();
    assert!(cache.cached(&mut m, true, 7).is_none());
    assert_eq!(m.table_cache_misses, 1);
    cache.insert(7, Some(CachedEntityInfo { name: "post".to_string(), distinct_on_key: Some("k".to_string()) }));
    let hit = cache.cached(&mut m, true, 7).unwrap().clone().unwrap();
    assert_eq!(hit.name, "post");
    assert_eq!(m.table_cache_hits, 1);
    assert!(cache.cached(&mut m, false, 7).is_none());
    assert_eq!(m.table_cache_hits, 1);
    assert_eq!(m.table_cache_misses, 1);
}
