use pg_tviews::catalog::{entity_from_table_name, DependencyType, TviewMeta};
use pg_tviews::parser::{parse_create_tview, select_warnings};
use pg_tviews::queue::patch::{FieldMap, PatchEntry};
use pg_tviews::refresh::direct::{build_direct_patch_expr, derive_parent_chain, fallback_pks, group_by_key};
use pg_tviews::TViewError;
use serde_json::Value;

#[test]
fn test_dependency_type_from_str() {
    assert_eq!(DependencyType::from_str("scalar"), DependencyType::Scalar);
    assert_eq!(DependencyType::from_str("nested_object"), DependencyType::NestedObject);
    assert_eq!(DependencyType::from_str("array"), DependencyType::Array);
    assert_eq!(DependencyType::from_str("unknown"), DependencyType::Scalar);
}

#[test]
fn test_dependency_type_to_str() {
    assert_eq!(DependencyType::Scalar.as_str(), "scalar");
    assert_eq!(DependencyType::NestedObject.as_str(), "nested_object");
    assert_eq!(DependencyType::Array.as_str(), "array");
}

#[test]
fn test_tview_meta_has_new_fields() {
    let meta = TviewMeta {
        tview_oid: 1234,
        view_oid: 5678,
        entity_name: "test".to_string(),
        fk_columns: vec![],
        uuid_fk_columns: vec![],
        dependency_types: vec![DependencyType::Scalar],
        dependency_paths: vec![None],
        array_match_keys: vec![None],
        distinct_on_keys: vec![],
        is_union: false,
    };
    assert_eq!(meta.dependency_types.len(), 1);
    assert_eq!(meta.dependency_paths.len(), 1);
    assert_eq!(meta.array_match_keys.len(), 1);
}

#[test]
fn test_entity_for_table_name_parsing() {
    let test_cases = vec![
        ("tb_user", Some("user")),
        ("tb_post", Some("post")),
        ("tb_company", Some("company")),
        ("users", None),
        ("pg_class", None),
    ];
    for (table_name, expected_entity) in test_cases {
        let result = entity_from_table_name(table_name);
        assert_eq!(result.as_deref(), expected_entity);
    }
}

#[test]
fn meta_from_row_values_defaults_and_paths() {
    let meta = TviewMeta::from_row_values(
        Some(1),
        Some(2),
        Some("post".to_string()),
        Some(vec!["fk_user".to_string()]),
        None,
        Some(vec!["nested_object".to_string(), "bogus".to_string()]),
        Some(vec![Some("book.author".to_string()), Some(String::new()), None]),
        None,
        None,
        None,
    )
    .unwrap();
    assert_eq!(meta.entity_name, "post");
    assert!(meta.uuid_fk_columns.is_empty());
    assert_eq!(meta.dependency_types, vec![DependencyType::NestedObject, DependencyType::Scalar]);
    assert_eq!(
        meta.dependency_paths,
        vec![Some(vec!["book".to_string(), "author".to_string()]), None, None]
    );
    assert!(!meta.is_union);
    assert!(!meta.is_distinct_on());
    let deps = meta.parse_dependencies();
    assert_eq!(deps.len(), 2);
    assert_eq!(deps[0].dep_type, DependencyType::NestedObject);
    assert_eq!(deps[0].path, Some(vec!["book".to_string(), "author".to_string()]));
    assert_eq!(deps[1].dep_type, DependencyType::Scalar);
    assert_eq!(deps[1].match_key, None);
}

#[test]
fn meta_from_row_values_requires_oids_and_entity() {
    match TviewMeta::from_row_values(Some(1), None, Some("x".to_string()), None, None, None, None, None, None, None) {
        Err(TViewError::SpiError { query, error }) => {
            assert!(query.is_empty());
            assert_eq!(error, "view_oid column is NULL");
        }
        other => panic!("unexpected {other:?}"),
    }
}

#[test]
fn test_parse_simple() {
    let parsed = parse_create_tview("CREATE TABLE tv_post AS SELECT * FROM tb_post").unwrap();
    assert_eq!(parsed.tview_name, "tv_post");
    assert!(parsed.schema_name.is_none());
    assert!(parsed.select_sql.contains("SELECT"));
}

#[test]
fn test_parse_with_schema() {
    let parsed = parse_create_tview("CREATE TABLE public.tv_post AS SELECT pk_post FROM tb_post").unwrap();
    assert_eq!(parsed.tview_name, "tv_post");
    assert_eq!(parsed.schema_name, Some("public".to_string()));
}

#[test]
fn test_parse_multiline() {
    let sql = r#"
        CREATE TABLE tv_post AS
        SELECT
            pk_post,
            id,
            data
        FROM tb_post
    "#;
    let parsed = parse_create_tview(sql).unwrap();
    assert_eq!(parsed.tview_name, "tv_post");
    assert!(parsed.select_sql.contains("pk_post"));
}

#[test]
fn test_parse_invalid_name() {
    let result = parse_create_tview("CREATE TABLE bad_name AS SELECT * FROM tb");
    assert!(result.is_err());
    match result.unwrap_err() {
        TViewError::InvalidTViewName { name, .. } => assert_eq!(name, "bad_name"),
        _ => panic!("Wrong error type"),
    }
}

#[test]
fn parse_rejects_non_select_and_garbage() {
    match parse_create_tview("create table tv_x as VALUES (1)") {
        Err(TViewError::InvalidSelectStatement { sql, reason }) => {
            assert_eq!(sql, "VALUES (1)");
            assert_eq!(reason, "Expected SELECT statement after AS");
        }
        other => panic!("unexpected {other:?}"),
    }
    match parse_create_tview("DROP TABLE tv_x") {
        Err(TViewError::InvalidSelectStatement { sql, reason }) => {
            assert_eq!(sql, "DROP TABLE tv_x");
            assert!(reason.starts_with("Could not parse CREATE TABLE tv_ AS SELECT statement."));
        }
        other => panic!("unexpected {other:?}"),
    }
}

#[test]
fn select_warnings_flag_ctes_and_comments() {
    assert!(select_warnings("SELECT 1").is_empty());
    let w = select_warnings("SELECT a FROM t -- note");
    assert_eq!(w, vec!["Comments in SELECT may cause parsing issues in v1"]);
    let w = select_warnings("SELECT a FROM t with x");
    assert_eq!(w, vec!["CTEs (WITH clause) may not be fully supported in v1"]);
}

fn entry(prefix: &[&str], k: &str, v: &str) -> PatchEntry {
    let mut m = FieldMap::new();
    m.insert(k.to_string(), Value::String(v.to_string()));
    (prefix.iter().map(|s| (*s).to_string()).collect(), m)
}

#[test]
fn top_level_chain_builds_scalar_merge() {
    let (expr, paths) = build_direct_patch_expr(&vec![entry(&[], "bio", "x")]);
    assert_eq!(expr, "jsonb_smart_patch_scalar(data, $1::jsonb)");
    assert!(paths.is_empty());
}

#[test]
fn nested_prefix_binds_path_param() {
    let (expr, paths) = build_direct_patch_expr(&vec![entry(&["author"], "bio", "x")]);
    assert_eq!(expr, "jsonb_smart_patch_nested(data, $1::jsonb, $3::text[])");
    assert_eq!(paths, vec![vec!["author".to_string()]]);
}

#[test]
fn two_level_path_bound_as_array_param() {
    let (expr, paths) = build_direct_patch_expr(&vec![entry(&["post", "author"], "bio", "x")]);
    assert_eq!(expr, "jsonb_smart_patch_nested(data, $1::jsonb, $3::text[])");
    assert_eq!(paths, vec![vec!["post".to_string(), "author".to_string()]]);
}

#[test]
fn mixed_chain_nests_calls_and_numbers_path_after_pk() {
    let chain = vec![entry(&[], "title", "t"), entry(&["author"], "bio", "b")];
    let (expr, paths) = build_direct_patch_expr(&chain);
    assert_eq!(
        expr,
        "jsonb_smart_patch_nested(jsonb_smart_patch_scalar(data, $1::jsonb), $2::jsonb, $4::text[])"
    );
    assert_eq!(paths, vec![vec!["author".to_string()]]);
}

#[test]
fn exotic_path_segment_is_bound_not_interpolated() {
    let (expr, paths) = build_direct_patch_expr(&vec![entry(&["we'ird"], "k", "v")]);
    assert_eq!(expr, "jsonb_smart_patch_nested(data, $1::jsonb, $3::text[])");
    assert_eq!(paths, vec![vec!["we'ird".to_string()]]);
}

fn parent_meta(fk: &str, dep: DependencyType, path: Option<Vec<String>>) -> TviewMeta {
    TviewMeta {
        fk_columns: vec![fk.to_string()],
        dependency_types: vec![dep],
        dependency_paths: vec![path],
        ..TviewMeta::default()
    }
}

#[test]
fn nested_object_dep_prepends_path() {
    let meta = parent_meta("fk_user", DependencyType::NestedObject, Some(vec!["author".to_string()]));
    let child = vec![entry(&[], "bio", "x")];
    let derived = derive_parent_chain(&meta, "user", &child).unwrap();
    assert_eq!(derived.len(), 1);
    assert_eq!(derived[0].0, vec!["author".to_string()]);
    assert_eq!(derived[0].1.get("bio").unwrap(), &Value::String("x".into()));
}

#[test]
fn array_dep_declines() {
    let meta = parent_meta("fk_comment", DependencyType::Array, Some(vec!["comments".to_string()]));
    assert!(derive_parent_chain(&meta, "comment", &vec![entry(&[], "b", "x")]).is_none());
}

#[test]
fn scalar_dep_declines() {
    let meta = parent_meta("fk_user", DependencyType::Scalar, None);
    assert!(derive_parent_chain(&meta, "user", &vec![entry(&[], "b", "x")]).is_none());
}

#[test]
fn nested_without_path_declines() {
    let meta = parent_meta("fk_user", DependencyType::NestedObject, None);
    assert!(derive_parent_chain(&meta, "user", &vec![entry(&[], "b", "x")]).is_none());
}

#[test]
fn uuid_fk_linkage_declines() {
    let mut meta = parent_meta("fk_user", DependencyType::NestedObject, Some(vec!["author".to_string()]));
    meta.uuid_fk_columns = vec!["fk_user".to_string()];
    assert!(derive_parent_chain(&meta, "user", &vec![entry(&[], "b", "x")]).is_none());
}

#[test]
fn duplicate_embedding_declines() {
    let mut meta = parent_meta("fk_user", DependencyType::NestedObject, Some(vec!["author".to_string()]));
    meta.fk_columns.push("fk_user".to_string());
    meta.dependency_types.push(DependencyType::NestedObject);
    meta.dependency_paths.push(Some(vec!["editor".to_string()]));
    assert!(derive_parent_chain(&meta, "user", &vec![entry(&[], "b", "x")]).is_none());
}

#[test]
fn missing_dependency_declines() {
    let meta = parent_meta("fk_other", DependencyType::NestedObject, Some(vec!["x".to_string()]));
    assert!(derive_parent_chain(&meta, "user", &vec![entry(&[], "b", "x")]).is_none());
}

#[test]
fn distinct_on_or_union_parent_declines() {
    let mut meta = parent_meta("fk_user", DependencyType::NestedObject, Some(vec!["author".to_string()]));
    meta.distinct_on_keys = vec!["id".to_string()];
    assert!(derive_parent_chain(&meta, "user", &vec![entry(&[], "b", "x")]).is_none());
    let mut meta2 = parent_meta("fk_user", DependencyType::NestedObject, Some(vec!["author".to_string()]));
    meta2.is_union = true;
    assert!(derive_parent_chain(&meta2, "user", &vec![entry(&[], "b", "x")]).is_none());
}

#[test]
fn two_level_composition_prepends_both_prefixes() {
    let feed_meta = parent_meta("fk_post", DependencyType::NestedObject, Some(vec!["post".to_string()]));
    let post_chain = vec![entry(&["author"], "bio", "x")];
    let derived = derive_parent_chain(&feed_meta, "post", &post_chain).unwrap();
    assert_eq!(derived[0].0, vec!["post".to_string(), "author".to_string()]);
}

#[test]
fn fallback_lists_keys_not_updated() {
    assert_eq!(fallback_pks(&vec![1, 2, 3, 4], &vec![4, 2]), vec![1, 3]);
    assert!(fallback_pks(&vec![5], &vec![5]).is_empty());
}

#[test]
fn parse_create_tview_takes_unicode_word_characters() {
    let parsed = parse_create_tview("CREATE TABLE tv_café AS SELECT pk_café FROM tb_café").unwrap();
    assert_eq!(parsed.tview_name, "tv_café");
    let parsed = parse_create_tview("CREATE TABLE tv_a-b AS SELECT 1");
    assert!(matches!(parsed, Err(TViewError::InvalidSelectStatement { .. })));
}

#[test]
fn parse_create_tview_checks_select_with_unicode_case() {
    // U+017F (long s) upper-cases to `S`.
    let parsed = parse_create_tview("CREATE TABLE tv_x AS \u{17f}elect id from t").unwrap();
    assert_eq!(parsed.select_sql, "\u{17f}elect id from t");
    assert!(parse_create_tview("CREATE TABLE tv_x AS VALUES (1)").is_err());
}

#[test]
fn group_by_key_groups_equal_chains_in_first_seen_order() {
    let keys: Vec<String> = ["b", "a", "b", "c", "a", "b"].iter().map(|k| k.to_string()).collect();
    assert_eq!(group_by_key(&keys), vec![vec![0, 2, 5], vec![1, 4], vec![3]]);
    assert!(group_by_key(&Vec::new()).is_empty());
    assert_eq!(group_by_key(&vec!["x".to_string()]), vec![vec![0]]);
}
