use pg_tviews::config::{
    batch_size, cache_size, log_level, max_dependency_depth, max_propagation_depth, max_queue_size,
    union_duplicate_policy, GucSettings,
};
use pg_tviews::metrics::{
    get_queue_stats, record_bulk_refresh, record_direct_patch_captured, record_graph_cache_hit,
    record_individual_refresh, record_refresh_complete, record_refresh_start, record_refresh_totals,
    reset_metrics, MetricsState,
};
use pg_tviews::queue::{RefreshKey, RefreshQueue};

#[test]
fn settings_defaults_read_back() {
    let s = GucSettings::defaults();
    assert_eq!(max_propagation_depth(&s), 100);
    assert_eq!(max_queue_size(&s), 10_000);
    assert_eq!(max_dependency_depth(&s), 10);
    assert_eq!(batch_size(&s), 1_000);
    assert_eq!(cache_size(&s), 10_000);
    assert_eq!(log_level(&s), "info");
    assert_eq!(union_duplicate_policy(&s), "error");
}

#[test]
fn settings_magnitudes_and_fallbacks() {
    let mut s = GucSettings::defaults();
    s.max_queue_size = -5;
    s.batch_size = 0;
    s.log_level = None;
    s.union_duplicate_policy = Some("first".to_string());
    assert_eq!(max_queue_size(&s), 5);
    assert_eq!(batch_size(&s), 1);
    assert_eq!(log_level(&s), "info");
    assert_eq!(union_duplicate_policy(&s), "first");
    s.max_propagation_depth = i32::MIN;
    assert_eq!(max_propagation_depth(&s), 2_147_483_648usize);
}

#[test]
fn metrics_counters_and_reset() {
    let mut m = MetricsState::new();
    record_graph_cache_hit(&mut m);
    record_bulk_refresh(&mut m, 5);
    record_individual_refresh(&mut m);
    record_direct_patch_captured(&mut m);
    record_refresh_totals(&mut m, 3, 4, 250);
    record_refresh_totals(&mut m, 1, 2, 50);
    assert_eq!(m.graph_cache_hits, 1);
    assert_eq!(m.bulk_refresh_count, 1);
    assert_eq!(m.total_refreshes, 10);
    assert_eq!(m.max_iterations, 4);
    assert_eq!(m.total_iterations, 6);
    assert_eq!(m.total_timing_ns, 300);
    let mut q = RefreshQueue::new();
    q.insert(RefreshKey::pk("user", 1));
    let stats = get_queue_stats(&m, &q);
    assert_eq!(stats.queue_size, 1);
    assert_eq!(stats.total_refreshes, 10);
    reset_metrics(&mut m);
    assert_eq!(m.total_refreshes, 0);
    assert_eq!(m.graph_cache_hits, 0);
    assert_eq!(m.direct_patch_captured, 1);
}

#[test]
fn refresh_timer_adds_counts() {
    let mut m = MetricsState::new();
    let t = record_refresh_start();
    record_refresh_complete(&mut m, 2, 1, &t);
    assert_eq!(m.total_refreshes, 2);
    assert_eq!(m.max_iterations, 1);
}

#[test]
fn counters_wrap_at_the_top() {
    let mut m = MetricsState::new();
    m.graph_cache_hits = u64::MAX;
    record_graph_cache_hit(&mut m);
    assert_eq!(m.graph_cache_hits, 0);
}
