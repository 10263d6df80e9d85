use pg_tviews::ddl::create::{
    base_table_names, check_distinct_on_cascade, check_refreshable,
    check_not_registered, create_temp_view_sql, drop_temp_view_sql, expand_select_star, temp_view_name, pk_source_column, select_star_source, split_qualified,
    transform_raw_select_to_tview, tview_entity_name, tview_objects, MISSING_PK_CONTEXT,
};
use pg_tviews::ddl::register::register_metadata_sql;
use pg_tviews::ddl::table::{column_defs, column_types, create_table_sql, index_statements, populate_sql};
use pg_tviews::error::TViewError;
use pg_tviews::hooks::{dispatch, fallback_drop_sql, plan_drop, schema_override, validate_tview_select, Dispatch, PendingPopulates, PendingSelects, StmtKind};
use pg_tviews::cascade::{paths_from_source, CascadeHop, CascadePath, CascadePathCache};
use pg_tviews::cascade::{oid_name_map, oid_names_query, resolve_join_path, resolve_join_paths, JoinPath, JoinStep};
use pg_tviews::schema::TViewSchema;

fn s(x: &str) -> String {
    x.to_string()
}

fn trinity_schema() -> TViewSchema {
    let mut sc = TViewSchema::new();
    sc.pk_column = Some(s("pk_post"));
    sc.id_column = Some(s("id"));
    sc.data_column = Some(s("data"));
    sc.fk_columns = vec![s("fk_user")];
    sc.uuid_fk_columns = vec![s("user_id")];
    sc.additional_columns_with_types = vec![(s("title"), s("TEXT")), (s("tags"), s("TEXT"))];
    sc.entity_name = Some(s("post"));
    sc
}

#[test]
fn select_star_source_recognises_only_plain_star() {
    assert_eq!(select_star_source("SELECT * FROM v_foo_base"), Some(s("v_foo_base")));
    assert_eq!(select_star_source("  select *\n from Public.V_Foo;  "), Some(s("public.v_foo")));
    assert_eq!(select_star_source("SELECT * FROM v WHERE x = 1"), Some(s("v")));
    assert_eq!(select_star_source("SELECT DISTINCT * FROM v"), None);
    assert_eq!(select_star_source("SELECT t.* FROM v t"), None);
    assert_eq!(select_star_source("SELECT * FROMv"), None);
    assert_eq!(select_star_source("SELECT * FROM ;"), None);
    assert_eq!(select_star_source("SELECT id FROM v"), None);
}

#[test]
fn qualified_names_split_at_the_first_dot() {
    assert_eq!(split_qualified("\"app\".\"v_x\""), (Some(s("app")), s("v_x")));
    assert_eq!(split_qualified("v_x"), (None, s("v_x")));
    assert_eq!(split_qualified("a.b.c"), (Some(s("a")), s("b.c")));
}

#[test]
fn star_expansion_lists_columns_or_keeps_the_query() {
    let cols = vec![s("pk_foo"), s("id"), s("data")];
    assert_eq!(expand_select_star("SELECT * FROM app.v_foo", &cols), "SELECT pk_foo, id, data FROM app.v_foo");
    assert_eq!(expand_select_star("SELECT * FROM v_missing", &vec![]), "SELECT * FROM v_missing");
}

#[test]
fn column_types_resolve_catalog_rows() {
    let rows = vec![
        (Some(s("tags")), Some(s("ARRAY")), Some(s("_uuid"))),
        (None, Some(s("text")), None),
        (Some(s("path")), Some(s("USER-DEFINED")), Some(s("ltree"))),
        (Some(s("note")), None, None),
    ];
    assert_eq!(column_types(&rows), vec![(s("tags"), s("UUID[]")), (s("path"), s("LTREE")), (s("note"), s("TEXT"))]);
}

#[test]
fn materialized_table_definitions() {
    let sc = trinity_schema();
    let types = vec![(s("user_id"), s("TEXT")), (s("tags"), s("UUID[]"))];
    let defs = column_defs(&sc, &vec![], &types);
    assert_eq!(
        defs,
        vec![
            s("\"pk_post\" BIGINT PRIMARY KEY"),
            s("\"id\" UUID NOT NULL"),
            s("\"data\" JSONB"),
            s("\"fk_user\" BIGINT"),
            s("\"user_id\" TEXT"),
            s("\"title\" TEXT"),
            s("\"tags\" UUID[]"),
            s("created_at TIMESTAMPTZ NOT NULL DEFAULT NOW()"),
            s("updated_at TIMESTAMPTZ NOT NULL DEFAULT NOW()"),
        ]
    );
    let dedup = column_defs(&sc, &vec![s("title")], &vec![]);
    assert_eq!(dedup[0], "\"pk_post\" BIGINT");
    assert_eq!(dedup[4], "\"user_id\" UUID");
    assert_eq!(dedup[5], "\"title\" TEXT PRIMARY KEY");
    let on_id = column_defs(&sc, &vec![s("id")], &vec![]);
    assert_eq!(on_id[1], "\"id\" UUID PRIMARY KEY");
    let mut minimal = TViewSchema::new();
    minimal.pk_column = Some(s("pk_x"));
    assert_eq!(
        create_table_sql("tv_x", &minimal, "public", &vec![], &vec![], true),
        "CREATE UNLOGGED TABLE \"public\".\"tv_x\" (\n    \"pk_x\" BIGINT PRIMARY KEY,\n    created_at TIMESTAMPTZ NOT NULL DEFAULT NOW(),\n    updated_at TIMESTAMPTZ NOT NULL DEFAULT NOW()\n)"
    );
    assert!(create_table_sql("tv_x", &minimal, "public", &vec![], &vec![], false).starts_with("CREATE TABLE \"public\""));
}

#[test]
fn indexes_on_id_uuid_fks_and_data() {
    let sc = trinity_schema();
    assert_eq!(
        index_statements("tv_post", &sc, "app"),
        vec![
            s("CREATE INDEX \"idx_tv_post_id\" ON \"app\".\"tv_post\" (\"id\")"),
            s("CREATE INDEX \"idx_tv_post_user_id\" ON \"app\".\"tv_post\" (\"user_id\")"),
            s("CREATE INDEX \"idx_tv_post_data_gin\" ON \"app\".\"tv_post\" USING GIN (\"data\")"),
        ]
    );
    assert!(index_statements("tv_x", &TViewSchema::new(), "app").is_empty());
}

#[test]
fn populate_statement_or_error() {
    assert_eq!(
        populate_sql("tv_post", "v_post", "public", &vec![s("pk_post"), s("data")]),
        Ok(s("INSERT INTO \"public\".\"tv_post\" (\"pk_post\", \"data\") SELECT \"pk_post\", \"data\" FROM \"public\".\"v_post\""))
    );
    assert_eq!(
        populate_sql("tv_post", "v_post", "public", &vec![]),
        Err(TViewError::CatalogError { operation: s("Get columns for view v_post"), pg_error: s("View has no selectable columns") })
    );
}

#[test]
fn raw_select_primary_key_priority() {
    let c = |v: &[(&str, &str)]| v.iter().map(|(a, b)| (s(a), s(b))).collect::<Vec<_>>();
    assert_eq!(pk_source_column(&c(&[("id", "uuid"), ("n", "integer"), ("pk", "text")])), Some(s("pk")));
    assert_eq!(pk_source_column(&c(&[("id", "uuid"), ("n", "bigint")])), Some(s("n")));
    assert_eq!(pk_source_column(&c(&[("id", "uuid"), ("s", "bigserial")])), Some(s("s")));
    assert_eq!(pk_source_column(&c(&[("name", "text"), ("id", "uuid")])), Some(s("id")));
    assert_eq!(pk_source_column(&c(&[("name", "text")])), None);
}

#[test]
fn raw_select_is_wrapped_in_the_tview_shape() {
    let cols = vec![(s("id"), s("integer")), (s("name"), s("text"))];
    let (sql, schema) = transform_raw_select_to_tview("product", "SELECT id, name FROM tb_product", &cols).unwrap();
    assert_eq!(
        sql,
        "SELECT\n            source.id AS pk_product,\n            gen_random_uuid() AS id,\n            jsonb_build_object('id', source.id, 'name', source.name) AS data\n        FROM (SELECT id, name FROM tb_product) AS source"
    );
    assert_eq!(schema.pk_column, Some(s("pk_product")));
    assert_eq!(schema.entity_name, Some(s("product")));
    assert_eq!(schema.data_column, Some(s("data")));
    match transform_raw_select_to_tview("product", "SELECT name FROM t", &vec![(s("name"), s("text"))]) {
        Err(TViewError::InvalidSelectStatement { sql, reason }) => {
            assert_eq!(sql, "SELECT name FROM t");
            assert_eq!(reason, "No suitable primary key column found (need 'pk', an integer column, or 'id')");
        },
        other => panic!("unexpected {other:?}"),
    }
}

#[test]
fn tview_names_follow_the_entity() {
    assert_eq!(tview_entity_name("tv_post"), "post");
    assert_eq!(tview_entity_name("post"), "post");
    assert_eq!(check_not_registered("tv_post", true), Err(TViewError::TViewAlreadyExists { name: s("tv_post") }));
    assert_eq!(check_not_registered("tv_post", false), Ok(()));
    let o = tview_objects("post", &trinity_schema()).unwrap();
    assert_eq!((o.entity_name.as_str(), o.tv_table_name.as_str(), o.view_name.as_str()), ("post", "tv_post", "v_post"));
    assert_eq!(
        tview_objects("tv_thing", &TViewSchema::new()),
        Err(TViewError::RequiredColumnMissing { column_name: s("pk_thing"), context: s(MISSING_PK_CONTEXT) })
    );
}

#[test]
fn metadata_row_literals() {
    let mut sc = TViewSchema::new();
    sc.fk_columns = vec![s("fk_user")];
    sc.uuid_fk_columns = vec![s("user id")];
    let def = "SELECT pk_post, jsonb_build_object('author', v_user.data) AS data FROM tb_post";
    let sql = register_metadata_sql("post", def, &sc, &vec![s("{\"a\":1}")], &vec![], &vec![], false, 100, 200);
    assert!(sql.starts_with("INSERT INTO pg_tview_meta (\n            entity,"));
    assert!(sql.contains(") VALUES ($1, 100, 200, $2, '{\"{\\\"a\\\":1}\"}', '{fk_user}', '{\"user id\"}', '{nested_object}', '{author}', '{\"\"}', '{}', '{}', '{}', '{}', false)"));
    assert!(sql.ends_with(")\n        ON CONFLICT (entity) DO NOTHING"));
}

#[test]
fn drop_statements_split_tv_tables() {
    let names = vec![Some(s("tv_a")), Some(s("plain")), None, Some(s("tv_b"))];
    let plan = plan_drop(&names);
    assert_eq!(plan.tv_tables, vec![(0, s("tv_a")), (3, s("tv_b"))]);
    assert!(plan.has_non_tv);
    let plan = plan_drop(&vec![Some(s("tv_a"))]);
    assert!(!plan.has_non_tv);
    assert_eq!(fallback_drop_sql("tv_x", ""), "DROP TABLE IF EXISTS \"tv_x\" CASCADE");
    assert_eq!(fallback_drop_sql("tv_x", "app"), "DROP TABLE IF EXISTS \"app\".\"tv_x\" CASCADE");
}

#[test]
fn pending_selects_store_take_and_drain() {
    let mut p = PendingSelects::new();
    p.store("tv_a", "", "SELECT 1");
    p.store("tv_b", "app", "SELECT 2");
    p.store("tv_a", "public", "SELECT 3");
    assert_eq!(p.take("tv_a"), Some((s("public"), s("SELECT 3"))));
    assert_eq!(p.take("tv_a"), None);
    assert_eq!(p.drain(), vec![(s("tv_b"), s("app"), s("SELECT 2"))]);
    assert!(p.drain().is_empty());
    let mut q = PendingPopulates::new();
    q.enqueue("tv_a", "v_a", "public");
    let d = q.drain();
    assert_eq!(d.len(), 1);
    assert_eq!(d[0].view_name, "v_a");
    assert!(q.drain().is_empty());
    assert_eq!(schema_override(""), None);
    assert_eq!(schema_override("app"), Some(s("app")));
}

#[test]
fn join_paths_resolve_to_cascade_paths() {
    let map = oid_name_map(&vec![(Some(1), Some(s("tb_item"))), (Some(2), Some(s("tb_group"))), (Some(3), Some(s("tb_order"))), (None, None)]);
    assert_eq!(map[3], (s(""), 0));
    let jp = JoinPath {
        source_table: s("tb_item"),
        initial_col: s("fk_group"),
        steps: vec![JoinStep { table_name: s("tb_group"), lookup_col: s("pk_group"), carry_col: s("fk_order") }],
        root_join_col: s("pk_order"),
    };
    let p = resolve_join_path(&jp, "order", &map).unwrap();
    assert_eq!(p.source_oid, 1);
    assert_eq!(p.hops.len(), 1);
    assert_eq!(p.hops[0].table_oid, 2);
    let mut reverse = jp.clone();
    reverse.root_join_col = s("fk_customer");
    let p = resolve_join_path(&reverse, "order", &map).unwrap();
    assert_eq!(p.hops.len(), 2);
    assert_eq!((p.hops[1].table_oid, p.hops[1].table_name.as_str(), p.hops[1].lookup_col.as_str(), p.hops[1].carry_col.as_str()), (3, "tb_order", "fk_customer", "pk_order"));
    let mut missing = jp.clone();
    missing.steps[0].table_name = s("tb_nowhere");
    assert_eq!(
        resolve_join_path(&missing, "order", &map),
        Err(TViewError::CatalogError { operation: s("resolve cascade path hop"), pg_error: s("Intermediate table 'tb_nowhere' not found in base table dependencies") })
    );
    assert_eq!(resolve_join_paths(&vec![jp.clone(), missing], "order", &map).len(), 1);
    assert_eq!(oid_names_query(&vec![]), None);
    assert_eq!(oid_names_query(&vec![5, 7]), Some(s("SELECT oid, relname::text FROM pg_class WHERE oid IN (5,7)")));
}

#[test]
fn cascade_paths_from_one_source_and_their_cache() {
    let path = |oid: u32, entity: &str| CascadePath {
        source_oid: oid,
        source_table: s("tb_item"),
        entity_name: s(entity),
        initial_col: s("fk_group"),
        hops: vec![CascadeHop { table_oid: 7, table_name: s("tb_group"), lookup_col: s("pk_group"), carry_col: s("fk_order") }],
        unresolvable: false,
    };
    let all = vec![path(1, "order"), path(2, "other"), path(1, "invoice")];
    let mine = paths_from_source(&all, 1);
    assert_eq!(mine, vec![path(1, "order"), path(1, "invoice")]);
    assert!(paths_from_source(&all, 3).is_empty());
    let mut cache = CascadePathCache::new();
    assert_eq!(cache.cached(1), None);
    cache.insert(1, mine.clone());
    assert_eq!(cache.cached(1), Some(mine));
    cache.clear();
    assert_eq!(cache.cached(1), None);
}

#[test]
fn expand_select_star_keeps_the_clauses_after_the_source() {
    let cols = vec![s("a"), s("b")];
    assert_eq!(expand_select_star("SELECT * FROM v WHERE x = 1", &cols), "SELECT a, b FROM v WHERE x = 1");
    assert_eq!(
        expand_select_star("  select *\n  FROM \"MyView\" ORDER BY a;", &cols),
        "  select a, b\n  FROM \"MyView\" ORDER BY a;"
    );
}

#[test]
fn unrefreshable_and_distinct_on_cascade_tviews_are_refused() {
    assert_eq!(check_distinct_on_cascade("tv_latest", 0, 2), Ok(()));
    assert_eq!(check_distinct_on_cascade("tv_latest", 1, 0), Ok(()));
    match check_distinct_on_cascade("tv_latest", 1, 2) {
        Err(e @ TViewError::InvalidInput { .. }) => {
            assert_eq!(e.sqlstate(), "22023");
            assert_eq!(
                e.message(),
                "Invalid input for 'tview definition': TVIEW 'tv_latest' combines DISTINCT ON with a JOIN that produces \
                 cascade paths (2 dependent table(s)). DISTINCT ON tviews refresh by deduplication key and cannot also \
                 track PK-based cascade dependencies — the two refresh paths are mutually exclusive. Remove the DISTINCT \
                 ON, or express the dependency without a join that pg_tviews would cascade."
            );
        },
        other => panic!("unexpected {:?}", other),
    }
    assert_eq!(check_refreshable("tv_post", "post", 0, true), Ok(()));
    assert_eq!(check_refreshable("tv_order_summary", "order_summary", 1, false), Ok(()));
    match check_refreshable("tv_order_summary", "order_summary", 0, false) {
        Err(TViewError::InvalidInput { parameter, reason }) => {
            assert_eq!(parameter, "tview definition");
            assert!(reason.starts_with(
                "TVIEW 'tv_order_summary' (entity 'order_summary') can never be refreshed: there is no base table \
                 'tb_order_summary', and no cascade path routes any base-table change to it."
            ));
            assert!(reason.ends_with("can silently shadow a correctly-named tview on the same base table."));
        },
        other => panic!("unexpected {:?}", other),
    }
    assert_eq!(base_table_names("post", "app"), (s("\"app\".\"tb_post\""), s("tb_post")));
}

#[test]
fn select_star_source_folds_case_beyond_ascii() {
    assert_eq!(select_star_source("SELECT * FROM TÄBLE"), Some(s("täble")));
    assert_eq!(select_star_source("Select * From Öffentlich.V_ÜBER;"), Some(s("öffentlich.v_über")));
}

#[test]
fn dispatch_passes_extension_ddl_through() {
    assert_eq!(
        dispatch("CREATE EXTENSION JSONB_DELTA", Some(StmtKind::Other)),
        Dispatch::PassThrough { invalidate_jsonb_delta: true }
    );
    assert_eq!(
        dispatch("Drop Extension pg_tviews", Some(StmtKind::Drop)),
        Dispatch::PassThrough { invalidate_jsonb_delta: false }
    );
    assert_eq!(dispatch("DROP TABLE tv_ä", Some(StmtKind::Drop)), Dispatch::HandleDrop);
    assert_eq!(dispatch("CREATE TABLE tv_x AS SELECT 1", Some(StmtKind::CreateTableAs)), Dispatch::HandleCreateTableAs);
    assert_eq!(dispatch("ALTER TABLE tv_x ADD c int", Some(StmtKind::AlterTable)), Dispatch::HandleAlterTable);
    assert_eq!(dispatch("VACUUM", None), Dispatch::PassThrough { invalidate_jsonb_delta: false });
}

#[test]
fn validate_tview_select_checks_id_and_data() {
    assert_eq!(validate_tview_select("SELECT * FROM v_x"), Ok(()));
    assert_eq!(validate_tview_select("SELECT ÄLTER.ID, jsonb_build_object('a', 1) AS DATA FROM t ÄLTER"), Ok(()));
    assert_eq!(
        validate_tview_select("SELECT name FROM t"),
        Err(s("Missing required 'id' column (UUID)"))
    );
    assert_eq!(
        validate_tview_select("SELECT x AS ID FROM t"),
        Err(s("Missing required 'data' column (JSONB)"))
    );
}

#[test]
fn temp_view_statements_quote_the_name() {
    assert_eq!(temp_view_name("post"), "_temp_raw_post");
    assert_eq!(create_temp_view_sql("post", "SELECT 1 AS id"), "CREATE TEMP VIEW \"_temp_raw_post\" AS SELECT 1 AS id");
    assert_eq!(drop_temp_view_sql("post"), "DROP VIEW \"_temp_raw_post\"");
}
