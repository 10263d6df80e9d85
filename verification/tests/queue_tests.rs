use pg_tviews::metrics::MetricsState;
use pg_tviews::queue::graph::{topological_sort, EntityDepGraph};
use pg_tviews::queue::ops::{
    clear_crash_recovery_cache, clear_queue, enqueue_refresh_with_limit, is_crash_recovery_checked,
    mark_crash_recovery_checked, take_queue_snapshot,
};
use pg_tviews::queue::patch::{
    clear_patch_map, merge_chain_into, poison, poison_into, record, replace_patch_map,
    take_patch_snapshot, FieldMap, PatchMap, PatchState,
};
use pg_tviews::queue::state::{get_queue_contents, get_queue_size, replace_queue, CheckedEntities};
use pg_tviews::queue::xact::{handle_subxact_event, handle_xact_event, SubXactEvent, TxState, XactAction, XactEvent};
use pg_tviews::queue::{
    enqueue_refresh, enqueue_refresh_bulk, enqueue_refresh_dedup, enqueue_refresh_patched, is_queue_empty,
    RefreshKey, RefreshQueue,
};
use pg_tviews::TViewError;
use serde_json::Value;

#[test]
fn test_refresh_key_equality() {
    let key1 = RefreshKey::pk("user", 42);
    let key2 = RefreshKey::pk("user", 42);
    let key3 = RefreshKey::pk("user", 43);
    assert_eq!(key1, key2);
    assert_ne!(key1, key3);
}

#[test]
fn test_refresh_key_hashset_dedup() {
    let mut set = std::collections::HashSet::new();
    set.insert(RefreshKey::pk("user", 42));
    set.insert(RefreshKey::pk("user", 42));
    set.insert(RefreshKey::pk("post", 42));
    assert_eq!(set.len(), 2);
}

#[test]
fn test_dedup_key_distinct_from_pk_key() {
    let pk_key = RefreshKey::pk("contract", 42);
    let dedup_key = RefreshKey::dedup("contract", "some-uuid");
    assert_ne!(pk_key, dedup_key);
}

#[test]
fn test_dedup_key_hashset() {
    let mut set = std::collections::HashSet::new();
    set.insert(RefreshKey::dedup("contract", "uuid-1"));
    set.insert(RefreshKey::dedup("contract", "uuid-1"));
    set.insert(RefreshKey::dedup("contract", "uuid-2"));
    assert_eq!(set.len(), 2);
}

#[test]
fn test_is_dedup() {
    assert!(!RefreshKey::pk("user", 1).is_dedup());
    assert!(RefreshKey::dedup("contract", "uuid").is_dedup());
}

#[test]
fn test_queue_thread_local() {
    let mut queue = RefreshQueue::new();
    queue.insert(RefreshKey::pk("user", 1));
    assert_eq!(queue.len(), 1);
    clear_queue(&mut queue);
    assert_eq!(queue.len(), 0);
}

#[test]
fn test_enqueue_and_snapshot() {
    let mut queue = RefreshQueue::new();
    let mut patches = PatchMap::new();
    enqueue_refresh(&mut queue, &mut patches, "user", 1, 10_000).unwrap();
    enqueue_refresh(&mut queue, &mut patches, "post", 2, 10_000).unwrap();
    enqueue_refresh(&mut queue, &mut patches, "user", 1, 10_000).unwrap();
    let snapshot = take_queue_snapshot(&mut queue);
    assert_eq!(snapshot.len(), 2);
    let empty_snapshot = take_queue_snapshot(&mut queue);
    assert_eq!(empty_snapshot.len(), 0);
}

#[test]
fn test_clear_queue() {
    let mut queue = RefreshQueue::new();
    let mut patches = PatchMap::new();
    enqueue_refresh(&mut queue, &mut patches, "user", 1, 10_000).unwrap();
    enqueue_refresh(&mut queue, &mut patches, "post", 2, 10_000).unwrap();
    clear_queue(&mut queue);
    let snapshot = take_queue_snapshot(&mut queue);
    assert_eq!(snapshot.len(), 0);
}

#[test]
fn test_enqueue_respects_max_queue_size() {
    let mut queue = RefreshQueue::new();
    let limit = 2;
    enqueue_refresh_with_limit(&mut queue, "user", 1, limit).expect("first insert should succeed");
    enqueue_refresh_with_limit(&mut queue, "post", 2, limit).expect("second insert should succeed");
    assert!(enqueue_refresh_with_limit(&mut queue, "user", 3, limit).is_err(), "third insert should fail");
    let snapshot = take_queue_snapshot(&mut queue);
    assert_eq!(snapshot.len(), 2);
}

#[test]
fn backpressure_error_message() {
    let mut queue = RefreshQueue::new();
    enqueue_refresh_with_limit(&mut queue, "user", 1, 1).unwrap();
    let err = enqueue_refresh_with_limit(&mut queue, "user", 2, 1).unwrap_err();
    assert_eq!(err, "refresh queue backpressure: queue size (1) would exceed max_queue_size (1)");
    assert_eq!(get_queue_size(&queue), 1);
}

#[test]
fn test_multi_entity_queue() {
    let mut queue = RefreshQueue::new();
    let mut patches = PatchMap::new();
    enqueue_refresh(&mut queue, &mut patches, "user", 1, 10_000).unwrap();
    enqueue_refresh(&mut queue, &mut patches, "post", 10, 10_000).unwrap();
    enqueue_refresh(&mut queue, &mut patches, "user", 1, 10_000).unwrap();
    enqueue_refresh(&mut queue, &mut patches, "post", 20, 10_000).unwrap();
    enqueue_refresh(&mut queue, &mut patches, "user", 2, 10_000).unwrap();
    let snapshot = take_queue_snapshot(&mut queue);
    assert_eq!(snapshot.len(), 4);
    assert!(snapshot.contains(&RefreshKey::pk("user", 1)));
    assert!(snapshot.contains(&RefreshKey::pk("post", 10)));
}

#[test]
fn queue_contents_keep_first_enqueue_order() {
    let mut queue = RefreshQueue::new();
    let mut patches = PatchMap::new();
    enqueue_refresh_dedup(&mut queue, &mut patches, "contract", "g1", 10).unwrap();
    enqueue_refresh_bulk(&mut queue, &mut patches, "user", vec![3, 1, 3], 10).unwrap();
    let contents = get_queue_contents(&queue);
    assert_eq!(
        contents,
        vec![RefreshKey::dedup("contract", "g1"), RefreshKey::pk("user", 3), RefreshKey::pk("user", 1)]
    );
    assert!(!is_queue_empty(&queue));
    assert_eq!(patches.len(), 3);
    assert_eq!(patches.get(&RefreshKey::pk("user", 3)), Some(&PatchState::Poisoned));
}

#[test]
fn bulk_enqueue_refused_when_full() {
    let mut queue = RefreshQueue::new();
    let mut patches = PatchMap::new();
    enqueue_refresh(&mut queue, &mut patches, "user", 1, 1).unwrap();
    assert!(enqueue_refresh_bulk(&mut queue, &mut patches, "user", vec![2, 3], 1).is_err());
    assert_eq!(get_queue_size(&queue), 1);
}

#[test]
fn replace_queue_installs_other_queue() {
    let mut queue = RefreshQueue::new();
    let mut other = RefreshQueue::new();
    other.insert(RefreshKey::pk("post", 9));
    replace_queue(&mut queue, other);
    assert!(queue.contains(&RefreshKey::pk("post", 9)));
}

#[test]
fn crash_recovery_cache() {
    let mut checked = CheckedEntities::new();
    assert!(!is_crash_recovery_checked(&checked, "user"));
    mark_crash_recovery_checked(&mut checked, "user");
    mark_crash_recovery_checked(&mut checked, "user");
    assert!(is_crash_recovery_checked(&checked, "user"));
    assert!(!is_crash_recovery_checked(&checked, "post"));
    clear_crash_recovery_cache(&mut checked);
    assert!(!is_crash_recovery_checked(&checked, "user"));
}

fn field(k: &str, v: &str) -> FieldMap {
    let mut m = FieldMap::new();
    m.insert(k.to_string(), Value::String(v.to_string()));
    m
}

fn direct_chain(map: &PatchMap, key: &RefreshKey) -> Vec<(Vec<String>, FieldMap)> {
    match map.get(key) {
        Some(PatchState::Direct(chain)) => chain.clone(),
        other => panic!("expected Direct, got {other:?}"),
    }
}

#[test]
fn merge_same_prefix_later_value_wins() {
    let mut map = PatchMap::new();
    let key = RefreshKey::pk("user", 1);
    record(&mut map, key.clone(), vec![], field("bio", "old"));
    record(&mut map, key.clone(), vec![], field("bio", "new"));
    let chain = direct_chain(&map, &key);
    assert_eq!(chain.len(), 1, "same prefix must merge, not accumulate");
    assert_eq!(chain[0].1.get("bio").unwrap(), &Value::String("new".into()));
}

#[test]
fn merge_same_prefix_unions_distinct_keys() {
    let mut map = PatchMap::new();
    let key = RefreshKey::pk("user", 1);
    record(&mut map, key.clone(), vec![], field("bio", "b"));
    record(&mut map, key.clone(), vec![], field("name", "n"));
    let chain = direct_chain(&map, &key);
    assert_eq!(chain.len(), 1);
    assert_eq!(chain[0].1.len(), 2);
    assert!(chain[0].1.contains_key("bio"));
    assert!(chain[0].1.contains_key("name"));
}

#[test]
fn distinct_prefixes_accumulate_entries() {
    let mut map = PatchMap::new();
    let key = RefreshKey::pk("post", 1);
    record(&mut map, key.clone(), vec![], field("title", "t"));
    record(&mut map, key.clone(), vec!["author".into()], field("bio", "b"));
    let chain = direct_chain(&map, &key);
    assert_eq!(chain.len(), 2, "distinct prefixes must accumulate");
}

#[test]
fn poison_is_sticky_over_later_record() {
    let mut map = PatchMap::new();
    let key = RefreshKey::pk("user", 1);
    poison(&mut map, key.clone());
    let fresh = record(&mut map, key.clone(), vec![], field("bio", "new"));
    assert!(!fresh);
    assert_eq!(map.get(&key), Some(&PatchState::Poisoned));
}

#[test]
fn record_then_poison_overwrites_to_poison() {
    let mut map = PatchMap::new();
    let key = RefreshKey::pk("user", 1);
    assert!(record(&mut map, key.clone(), vec![], field("bio", "new")));
    poison(&mut map, key.clone());
    assert_eq!(map.get(&key), Some(&PatchState::Poisoned));
}

#[test]
fn snapshot_take_clears_and_restore_round_trips() {
    let mut map = PatchMap::new();
    let key = RefreshKey::pk("user", 1);
    record(&mut map, key.clone(), vec![], field("bio", "b"));
    let snap = take_patch_snapshot(&mut map);
    assert!(map.get(&key).is_none(), "take must clear the live map");
    assert_eq!(snap.len(), 1);
    replace_patch_map(&mut map, snap);
    assert!(matches!(map.get(&key), Some(PatchState::Direct(_))));
}

#[test]
fn clear_empties_the_map() {
    let mut map = PatchMap::new();
    record(&mut map, RefreshKey::pk("user", 1), vec![], field("bio", "b"));
    clear_patch_map(&mut map);
    assert!(take_patch_snapshot(&mut map).is_empty());
}

#[test]
fn merge_chain_into_respects_poison_and_merges_links() {
    let mut map = PatchMap::new();
    let parent = RefreshKey::pk("post", 7);
    merge_chain_into(&mut map, parent.clone(), vec![(vec!["author".to_string()], field("bio", "a"))]);
    merge_chain_into(&mut map, parent.clone(), vec![(vec!["author".to_string()], field("bio", "b"))]);
    let chain = direct_chain(&map, &parent);
    assert_eq!(chain.len(), 1);
    assert_eq!(chain[0].1.get("bio").unwrap(), &Value::String("b".into()));
    poison_into(&mut map, parent.clone());
    merge_chain_into(&mut map, parent.clone(), vec![(vec![], field("x", "y"))]);
    assert_eq!(map.get(&parent), Some(&PatchState::Poisoned));
}

#[test]
fn patched_enqueue_counts_fresh_captures_once() {
    let mut queue = RefreshQueue::new();
    let mut patches = PatchMap::new();
    let mut metrics = MetricsState::new();
    enqueue_refresh_patched(&mut queue, &mut patches, &mut metrics, "user", 1, field("bio", "a"), 10).unwrap();
    enqueue_refresh_patched(&mut queue, &mut patches, &mut metrics, "user", 1, field("bio", "b"), 10).unwrap();
    assert_eq!(metrics.direct_patch_captured, 1);
    assert_eq!(queue.len(), 1);
    let chain = direct_chain(&patches, &RefreshKey::pk("user", 1));
    assert_eq!(chain[0].1.get("bio").unwrap(), &Value::String("b".into()));
}

#[test]
fn savepoint_rollback_restores_queue_and_patches() {
    let mut tx = TxState::new();
    enqueue_refresh(&mut tx.queue, &mut tx.patches, "user", 1, 100).unwrap();
    assert!(!handle_subxact_event(&mut tx, SubXactEvent::StartSub));
    assert_eq!(tx.queue.len(), 0);
    enqueue_refresh(&mut tx.queue, &mut tx.patches, "post", 2, 100).unwrap();
    assert!(!handle_subxact_event(&mut tx, SubXactEvent::AbortSub));
    assert_eq!(get_queue_contents(&tx.queue), vec![RefreshKey::pk("user", 1)]);
    assert_eq!(tx.patches.len(), 1);
    assert_eq!(tx.savepoint_depth, 0);
}

#[test]
fn savepoint_release_keeps_inner_entries() {
    let mut tx = TxState::new();
    handle_subxact_event(&mut tx, SubXactEvent::StartSub);
    enqueue_refresh(&mut tx.queue, &mut tx.patches, "post", 2, 100).unwrap();
    assert!(!handle_subxact_event(&mut tx, SubXactEvent::CommitSub));
    assert_eq!(get_queue_contents(&tx.queue), vec![RefreshKey::pk("post", 2)]);
    assert!(tx.queue_snapshots.is_empty());
    assert!(handle_subxact_event(&mut tx, SubXactEvent::CommitSub), "release with no savepoint");
}

#[test]
fn abort_clears_transaction_state() {
    let mut tx = TxState::new();
    enqueue_refresh(&mut tx.queue, &mut tx.patches, "user", 1, 100).unwrap();
    mark_crash_recovery_checked(&mut tx.crash_checked, "user");
    tx.metrics.graph_cache_hits = 3;
    tx.metrics.direct_patches_applied = 4;
    assert_eq!(handle_xact_event(&mut tx, XactEvent::Abort), XactAction::FinishAbort);
    assert!(is_queue_empty(&tx.queue));
    assert!(tx.patches.is_empty());
    assert!(!is_crash_recovery_checked(&tx.crash_checked, "user"));
    assert_eq!(tx.metrics.graph_cache_hits, 0);
    assert_eq!(tx.metrics.direct_patches_applied, 4);
}

#[test]
fn commit_keeps_queue_and_clears_crash_cache() {
    let mut tx = TxState::new();
    enqueue_refresh(&mut tx.queue, &mut tx.patches, "user", 1, 100).unwrap();
    mark_crash_recovery_checked(&mut tx.crash_checked, "user");
    assert_eq!(handle_xact_event(&mut tx, XactEvent::Commit), XactAction::FinishCommit);
    assert_eq!(tx.queue.len(), 1);
    assert!(!is_crash_recovery_checked(&tx.crash_checked, "user"));
}

#[test]
fn test_topological_sort() {
    let entities: Vec<String> = ["company", "user", "post", "feed"].iter().map(|&s| s.to_string()).collect();
    let children: Vec<(String, Vec<String>)> = vec![
        ("user".to_string(), vec!["company".to_string()]),
        ("post".to_string(), vec!["user".to_string()]),
        ("feed".to_string(), vec!["post".to_string()]),
    ];
    let topo = topological_sort(&entities, &children).unwrap();
    let company_idx = topo.iter().position(|e| e == "company").unwrap();
    let user_idx = topo.iter().position(|e| e == "user").unwrap();
    let post_idx = topo.iter().position(|e| e == "post").unwrap();
    let feed_idx = topo.iter().position(|e| e == "feed").unwrap();
    assert!(company_idx < user_idx);
    assert!(user_idx < post_idx);
    assert!(post_idx < feed_idx);
}

#[test]
fn topological_sort_reports_cycle() {
    let entities: Vec<String> = vec!["a".to_string(), "b".to_string()];
    let children: Vec<(String, Vec<String>)> =
        vec![("a".to_string(), vec!["b".to_string()]), ("b".to_string(), vec!["a".to_string()])];
    match topological_sort(&entities, &children) {
        Err(TViewError::DependencyCycle { entities }) => assert_eq!(entities, vec!["a", "b"]),
        other => panic!("expected a cycle, got {other:?}"),
    }
}

#[test]
fn graph_from_rows_orders_and_sorts_keys() {
    let rows: Vec<(String, Option<Vec<String>>)> = vec![
        ("post".to_string(), Some(vec!["fk_user".to_string(), "title".to_string()])),
        ("user".to_string(), Some(vec!["fk_company".to_string()])),
        ("company".to_string(), None),
    ];
    let graph = EntityDepGraph::from_rows(&rows).unwrap();
    assert_eq!(graph.topo_order, vec!["company", "user", "post"]);
    assert_eq!(graph.parents_of(&"user".to_string()), vec!["post"]);
    let keys = vec![
        RefreshKey::pk("post", 1),
        RefreshKey::pk("company", 5),
        RefreshKey::pk("post", 2),
        RefreshKey::pk("other", 9),
    ];
    let sorted = graph.sort_keys(keys);
    assert_eq!(sorted, vec![RefreshKey::pk("company", 5), RefreshKey::pk("post", 1), RefreshKey::pk("post", 2)]);
}

#[test]
fn graph_with_unknown_dependency_is_refused() {
    let rows: Vec<(String, Option<Vec<String>>)> = vec![("post".to_string(), Some(vec!["fk_ghost".to_string()]))];
    assert!(matches!(EntityDepGraph::from_rows(&rows), Err(TViewError::DependencyCycle { .. })));
}
