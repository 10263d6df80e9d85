use pg_tviews::catalog::{DependencyDetail, DependencyType};
use pg_tviews::error::TViewError;
use pg_tviews::refresh::bulk::{batch_mode, batch_select_sql, batch_update_sql, bulk_statements, chunk_pks, BatchMode};
use pg_tviews::refresh::cache::{execute_sql, prepare_sql, statement_name, PreparedStatementCache};
use pg_tviews::refresh::direct::direct_patch_update_sql;
use pg_tviews::dependency::graph::dependency_query;
use pg_tviews::refresh::row::{
    build_dedup_dml_components, build_smart_patch_expr, check_union_duplicate, choose_patch_strategy,
    dedup_statements, delete_row_sql, full_replacement_sql, recompute_sql, smart_patch_sql, PatchStrategy,
};

fn dep(t: DependencyType, path: Option<&str>) -> DependencyDetail {
    DependencyDetail { dep_type: t, path: path.map(|p| vec![p.to_string()]), match_key: None }
}

fn cols(v: &[&str]) -> Vec<String> {
    v.iter().map(|s| s.to_string()).collect()
}

#[test]
fn test_clear_cache() {
    let mut cache = PreparedStatementCache::new();
    cache.insert("test".to_string(), "stmt".to_string());
    cache.clear();
    let (size, _) = cache.stats();
    assert_eq!(size, 0);
}

#[test]
fn prepared_statement_cache_overwrites_and_removes() {
    let mut cache = PreparedStatementCache::new();
    cache.insert("post".to_string(), statement_name("post"));
    cache.insert("user".to_string(), "a".to_string());
    cache.insert("user".to_string(), "b".to_string());
    assert_eq!(cache.get(&"user".to_string()), Some(&"b".to_string()));
    assert_eq!(cache.get(&"post".to_string()), Some(&"tview_refresh_post".to_string()));
    cache.remove(&"post".to_string());
    assert_eq!(cache.get(&"post".to_string()), None);
    assert_eq!(cache.stats(), (1, vec!["user".to_string()]));
    assert_eq!(
        prepare_sql("post"),
        "PREPARE \"tview_refresh_post\" (BIGINT) AS SELECT * FROM v_\"post\" WHERE pk_\"pk_post\" = $1"
    );
}

#[test]
fn dedup_dml_components_skip_the_key_column() {
    let (cl, upd) = build_dedup_dml_components(&cols(&["id", "name", "data"]), "id");
    assert_eq!(cl, "id, name, data");
    assert_eq!(upd, "name = EXCLUDED.name, data = EXCLUDED.data, updated_at = NOW()");
    let (cl, upd) = build_dedup_dml_components(&cols(&[]), "id");
    assert_eq!(cl, "");
    assert_eq!(upd, "updated_at = NOW()");
}

#[test]
fn smart_patch_expression_nests_in_dependency_order() {
    let deps = vec![dep(DependencyType::Scalar, None), dep(DependencyType::NestedObject, Some("author")), dep(DependencyType::Array, Some("comments"))];
    assert_eq!(
        build_smart_patch_expr(&deps, "tv_post.data"),
        "jsonb_smart_patch_nested(jsonb_smart_patch_scalar(tv_post.data, $1::jsonb), $1::jsonb, ARRAY['author'])"
    );
    assert_eq!(build_smart_patch_expr(&vec![], "data"), "data");
    assert_eq!(build_smart_patch_expr(&vec![dep(DependencyType::NestedObject, None)], "data"), "data");
}

#[test]
fn patch_strategy_is_smart_only_for_scalar_dependencies() {
    let scalar = vec![dep(DependencyType::Scalar, None), dep(DependencyType::Scalar, None)];
    assert_eq!(choose_patch_strategy(true, &scalar), PatchStrategy::SmartPatch);
    assert_eq!(choose_patch_strategy(false, &scalar), PatchStrategy::FullReplacement);
    assert_eq!(choose_patch_strategy(true, &vec![]), PatchStrategy::FullReplacement);
    let mixed = vec![dep(DependencyType::Scalar, None), dep(DependencyType::Array, Some("tags"))];
    assert_eq!(choose_patch_strategy(true, &mixed), PatchStrategy::FullReplacement);
}

#[test]
fn row_statements_are_exact() {
    assert_eq!(recompute_sql("v_post", "post"), "SELECT * FROM v_post WHERE pk_post = $1");
    assert_eq!(delete_row_sql("tv_post", "post"), "DELETE FROM tv_post WHERE pk_post = $1");
    assert_eq!(
        full_replacement_sql("tv_post", "v_post", "post", &cols(&["pk_post", "data"])),
        "INSERT INTO tv_post (pk_post, data) SELECT pk_post, data FROM v_post WHERE pk_post = $1 ON CONFLICT (pk_post) DO UPDATE SET data = EXCLUDED.data, updated_at = NOW()"
    );
    let deps = vec![dep(DependencyType::Scalar, None)];
    assert_eq!(
        smart_patch_sql("tv_post", "v_post", "post", &cols(&["pk_post", "data"]), &deps),
        Some("INSERT INTO tv_post (pk_post, data) SELECT pk_post, data FROM v_post WHERE pk_post = $2 ON CONFLICT (pk_post) DO UPDATE SET data = jsonb_smart_patch_scalar(tv_post.data, $1::jsonb), updated_at = now()".to_string())
    );
    assert_eq!(smart_patch_sql("tv_post", "v_post", "post", &vec![], &deps), None);
}

#[test]
fn dedup_statements_prefer_the_output_key() {
    let s = dedup_statements("tv_c", "v_c", &cols(&["pk_contract"]), &cols(&["id_contract"]), &cols(&["pk_contract", "data"]));
    assert_eq!(s.count_sql, "SELECT COUNT(*) FROM v_c WHERE \"pk_contract\"::text = $1");
    assert_eq!(s.delete_sql, "DELETE FROM tv_c WHERE \"pk_contract\"::text = $1");
    assert_eq!(
        s.upsert_sql,
        "INSERT INTO tv_c (pk_contract, data) SELECT pk_contract, data FROM v_c WHERE \"pk_contract\"::text = $1 LIMIT 1 ON CONFLICT (\"pk_contract\") DO UPDATE SET data = EXCLUDED.data, updated_at = NOW()"
    );
    let s = dedup_statements("tv_c", "v_c", &vec![], &cols(&["id_contract"]), &cols(&["id_contract"]));
    assert_eq!(s.delete_sql, "DELETE FROM tv_c WHERE \"id_contract\"::text = $1");
}

#[test]
fn union_duplicates_follow_the_policy() {
    assert_eq!(check_union_duplicate(false, true, "error", "post", 1, "q"), Ok(false));
    assert_eq!(check_union_duplicate(true, false, "error", "post", 1, "q"), Ok(false));
    assert_eq!(check_union_duplicate(true, true, "first", "post", 1, "q"), Ok(true));
    match check_union_duplicate(true, true, "error", "post", -7, "q") {
        Err(TViewError::SpiError { query, error }) => {
            assert_eq!(query, "q");
            assert_eq!(error, "TVIEW 'post': UNION ALL backing view returned multiple rows for pk=-7. Ensure UNION ALL branches are mutually exclusive, or set pg_tviews.union_duplicate_policy='first' to suppress this error.");
        },
        other => panic!("unexpected {other:?}"),
    }
}

#[test]
fn chunks_cover_all_keys_in_order() {
    let pks = vec![1i64, 2, 3, 4, 5];
    assert_eq!(chunk_pks(&pks, 2), vec![vec![1, 2], vec![3, 4], vec![5]]);
    assert_eq!(chunk_pks(&pks, 5), vec![pks.clone()]);
    assert_eq!(chunk_pks(&pks, 100), vec![pks.clone()]);
    assert!(chunk_pks(&vec![], 3).is_empty());
}

#[test]
fn bulk_statements_are_exact() {
    let (u, d) = bulk_statements("tv_post", "v_post", "post", &cols(&["pk_post", "data"])).unwrap();
    assert_eq!(u, "INSERT INTO tv_post (pk_post, data) SELECT pk_post, data FROM v_post WHERE pk_post = ANY($1) ON CONFLICT (pk_post) DO UPDATE SET data = EXCLUDED.data, updated_at = NOW()");
    assert_eq!(d, "DELETE FROM tv_post t WHERE t.pk_post = ANY($1) AND NOT EXISTS (SELECT 1 FROM v_post v WHERE v.pk_post = t.pk_post)");
    assert!(bulk_statements("tv_post", "v_post", "post", &vec![]).is_none());
}

#[test]
fn batch_mode_threshold() {
    assert_eq!(batch_mode(0), BatchMode::Nothing);
    assert_eq!(batch_mode(3), BatchMode::Individual);
    assert_eq!(batch_mode(9), BatchMode::Individual);
    assert_eq!(batch_mode(10), BatchMode::Batched);
    assert_eq!(batch_select_sql("post", &vec![1, -2]), "SELECT pk_post, data FROM v_post WHERE pk_post IN (1, -2)");
    assert_eq!(
        batch_update_sql("post", &vec![2, 1], &vec![1, 2, 3]),
        "UPDATE tv_post SET data = CASE\nWHEN pk_post = 2 THEN $ 1\nWHEN pk_post = 1 THEN $ 2\nELSE data\nEND, updated_at = now() WHERE pk_post IN (1, 2, 3)"
    );
}

#[test]
fn direct_patch_update_binds_keys_after_the_chain() {
    assert_eq!(
        direct_patch_update_sql("tv_post", "post", "jsonb_smart_patch_scalar(data, $1::jsonb)", 1),
        "UPDATE tv_post SET data = jsonb_smart_patch_scalar(data, $1::jsonb), updated_at = now() \
         WHERE pk_post = ANY($2) RETURNING pk_post"
    );
    assert!(direct_patch_update_sql("tv_a", "a", "e", 12).contains("ANY($13)"));
}

#[test]
fn execute_names_the_prepared_statement() {
    assert_eq!(execute_sql("tview_refresh_post"), "EXECUTE tview_refresh_post");
}

#[test]
fn dependency_query_names_both_oids() {
    let q = dependency_query(16384, 7);
    assert!(q.starts_with("SELECT DISTINCT d.refobjid, c.relkind::text FROM pg_rewrite r JOIN pg_depend d"));
    assert!(q.ends_with("WHERE r.ev_class = 16384 AND d.refclassid = 'pg_class'::regclass::oid AND c.oid != 7"));
}
