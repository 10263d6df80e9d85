use pg_tviews::cascade::{affected_rows_query, dependent_tviews_query, trim_start_all_exec};
use pg_tviews::dependency::graph::DependencyWalk;
use pg_tviews::error::TViewError;
use pg_tviews::propagate::{
    add_batch_results, affected_pks_query, batch_query, build_batch_groups, find_parent_entities,
    find_parents_for, pk_keys,
};
use pg_tviews::queue::graph::EntityDepGraph;
use pg_tviews::queue::RefreshKey;

fn s(x: &str) -> String {
    x.to_string()
}

fn graph() -> EntityDepGraph {
    let rows: Vec<(String, Option<Vec<String>>)> = vec![
        (s("post"), Some(vec![s("fk_user")])),
        (s("comment"), Some(vec![s("fk_user"), s("fk_post")])),
        (s("user"), None),
    ];
    EntityDepGraph::from_rows(&rows).unwrap()
}

#[test]
fn parents_of_pk_keys_only() {
    let g = graph();
    assert_eq!(find_parent_entities(&RefreshKey::pk("user", 1), &g), vec![s("post"), s("comment")]);
    assert!(find_parent_entities(&RefreshKey::dedup("user", "k"), &g).is_empty());
    assert!(find_parent_entities(&RefreshKey::pk("comment", 1), &g).is_empty());
    assert_eq!(affected_pks_query("post", "user"), "SELECT pk_post FROM tv_post WHERE fk_user = $1");
    let keys = find_parents_for(&vec![(s("post"), vec![10, 20]), (s("comment"), vec![5])]);
    assert_eq!(keys, vec![RefreshKey::pk("post", 10), RefreshKey::pk("post", 20), RefreshKey::pk("comment", 5)]);
}

#[test]
fn batched_parent_discovery() {
    let g = graph();
    let keys = pk_keys(&vec![RefreshKey::pk("user", 1), RefreshKey::dedup("user", "x"), RefreshKey::pk("user", 2), RefreshKey::pk("post", 7)]);
    assert_eq!(keys, vec![RefreshKey::pk("user", 1), RefreshKey::pk("user", 2), RefreshKey::pk("post", 7)]);
    let groups = build_batch_groups(&keys, &g);
    assert_eq!(
        groups,
        vec![((s("post"), s("user")), vec![1, 2]), ((s("comment"), s("user")), vec![1, 2]), ((s("comment"), s("post")), vec![7])]
    );
    assert_eq!(batch_query("post", "user"), "SELECT fk_user, pk_post FROM tv_post WHERE fk_user = ANY($1)");
    let mut result: Vec<(RefreshKey, Vec<RefreshKey>)> = Vec::new();
    add_batch_results(&mut result, &keys, "post", "user", &vec![(1, 10), (2, 30), (1, 11)]);
    add_batch_results(&mut result, &keys, "comment", "user", &vec![(2, 5)]);
    assert_eq!(
        result,
        vec![
            (RefreshKey::pk("user", 1), vec![RefreshKey::pk("post", 10), RefreshKey::pk("post", 11)]),
            (RefreshKey::pk("user", 2), vec![RefreshKey::pk("post", 30), RefreshKey::pk("comment", 5)]),
        ]
    );
}

#[test]
fn dependency_walk_breadth_first_once_per_view() {
    let mut w = DependencyWalk::new(100);
    assert_eq!(w.next().unwrap(), Some((100, 0)));
    w.record(100, 0, &vec![(200, Some(s("r"))), (300, Some(s("v"))), (400, None)]);
    assert_eq!(w.next().unwrap(), Some((300, 1)));
    w.record(300, 1, &vec![(200, Some(s("r"))), (500, Some(s("p"))), (100, Some(s("v")))]);
    assert_eq!(w.next().unwrap(), None);
    let g = w.finish();
    assert_eq!(g.base_tables, vec![200, 500]);
    assert_eq!(g.all_dependencies, vec![200, 300, 400, 200, 500, 100]);
    assert_eq!(g.max_depth_reached, 1);
}

#[test]
fn dependency_walk_depth_limit() {
    let mut w = DependencyWalk::new(1);
    let mut oid = 1u32;
    for depth in 0..=10usize {
        assert_eq!(w.next().unwrap(), Some((oid, depth)));
        w.record(oid, depth, &vec![(oid + 1, Some(s("v")))]);
        oid += 1;
    }
    assert_eq!(w.next(), Err(TViewError::DependencyDepthExceeded { depth: 11, max_depth: 10 }));
}

#[test]
fn affected_rows_queries_by_relationship() {
    let fks = vec![s("fk_user")];
    let q = affected_rows_query("post", &fks, "v_post", "tb_post", 5);
    assert_eq!(q.query, "SELECT \"pk_post\" FROM \"v_post\" WHERE \"pk_post\" = 5");
    assert_eq!(q.fallback, None);
    let q = affected_rows_query("post", &fks, "v_post", "tb_user", -3);
    assert_eq!(q.query, "SELECT \"pk_post\" FROM \"v_post\" WHERE \"fk_user\" = -3");
    assert_eq!(q.fallback, None);
    let q = affected_rows_query("user", &vec![], "v_user", "tb_post", 9);
    assert_eq!(q.query, "SELECT DISTINCT \"fk_user\" AS \"pk_user\" FROM \"tb_post\" WHERE \"pk_post\" = 9");
    assert_eq!(q.fallback, Some(s("SELECT \"pk_user\" FROM \"tv_user\"")));
    assert_eq!(trim_start_all_exec("tb_tb_x", "tb_"), "x");
    assert_eq!(trim_start_all_exec("x", ""), "x");
    assert!(dependent_tviews_query(42).contains("WHERE 42 IN (\n"));
}
