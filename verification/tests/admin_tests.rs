use pg_tviews::ddl::convert::{
    backing_view_sql, converted_oids, converted_schema, distinct_tables, extract_table_references, has_pk_column,
    named_table_exists_query, parse_base_table_hints, register_converted_sql, relation_oid_query, table_columns_query,
    table_comment_query, JsonShape,
};
use pg_tviews::ddl::convert::{backup_query, converted_view_name, drop_table_cascade_sql, sample_data_query, table_as_view_sql};
use pg_tviews::ddl::table::{check_backing_view, create_view_sql};
use pg_tviews::error::TViewError;
use pg_tviews::lifecycle::{crash_probe, row_count_query, CrashProbe};
use pg_tviews::refresh::array_ops::{
    array_element_exists_sql, delete_array_element_sql, element_field_path, element_index_sql, insert_array_element_sql,
    insert_safe_step, jsonb_set_sql, path_update_sql, select_data_sql, InsertSafeStep,
};
use pg_tviews::schema::types::{column_type_query, infer_column_types, table_exists_query};

fn s(x: &str) -> String {
    x.to_string()
}

fn strings(v: &[&str]) -> Vec<String> {
    v.iter().map(|x| x.to_string()).collect()
}

#[test]
fn test_crash_probe_asks_in_order() {
    assert_eq!(crash_probe(None, None, None), CrashProbe::Verdict(false));
    assert_eq!(crash_probe(Some(false), None, None), CrashProbe::Verdict(false));
    assert_eq!(crash_probe(Some(true), None, None), CrashProbe::CountTableRows);
    assert_eq!(crash_probe(Some(true), Some(Some(3)), None), CrashProbe::Verdict(false));
    assert_eq!(crash_probe(Some(true), Some(Some(0)), None), CrashProbe::CountViewRows);
    assert_eq!(crash_probe(Some(true), Some(None), None), CrashProbe::CountViewRows);
    assert_eq!(crash_probe(Some(true), Some(Some(0)), Some(Some(7))), CrashProbe::Verdict(true));
    assert_eq!(crash_probe(Some(true), Some(Some(0)), Some(Some(0))), CrashProbe::Verdict(false));
    assert_eq!(crash_probe(Some(true), Some(Some(0)), Some(None)), CrashProbe::Verdict(false));
}

#[test]
fn test_row_count_query_quotes_relation() {
    assert_eq!(row_count_query("tv_post"), "SELECT COUNT(*) FROM \"tv_post\"");
}

#[test]
fn test_infer_column_types_pairs_each_column() {
    let cols = strings(&["pk", "id", "tags"]);
    let found = vec![Some(s("integer")), Some(s("uuid")), Some(s("text[]"))];
    let types = infer_column_types("test_types", &cols, &found).unwrap();
    assert_eq!(types, vec![(s("pk"), s("integer")), (s("id"), s("uuid")), (s("tags"), s("text[]"))]);
}

#[test]
fn test_infer_column_types_reports_first_missing_column() {
    let cols = strings(&["id", "missing_col", "other"]);
    let found = vec![Some(s("uuid")), None, None];
    match infer_column_types("test_missing_col", &cols, &found) {
        Err(TViewError::CatalogError { operation, pg_error }) => {
            assert_eq!(operation, "find column 'missing_col' in table 'test_missing_col'");
            assert_eq!(pg_error, "Column not found");
        },
        other => panic!("unexpected {:?}", other),
    }
}

#[test]
fn test_type_queries() {
    assert_eq!(
        column_type_query("t", "c"),
        "SELECT format_type(atttypid, atttypmod)\n             FROM pg_attribute\n             WHERE attrelid = 't'::regclass\n               AND attname = 'c'\n               AND attnum > 0\n               AND NOT attisdropped"
    );
    assert_eq!(table_exists_query("t"), "SELECT COUNT(*) = 1 FROM pg_class\n         WHERE relname = 't' AND relkind = 'r'");
}

#[test]
fn test_insert_array_element_sql() {
    let path = strings(&["comments"]);
    assert_eq!(
        insert_array_element_sql("tv_post", "pk_post", &path, Some("created_at")),
        "\n            UPDATE tv_post SET\n                data = jsonb_array_insert_where(data, ARRAY['comments'], $1, 'created_at', 'ASC'),\n                updated_at = now()\n            WHERE pk_post = $2\n            "
    );
    assert_eq!(
        insert_array_element_sql("tv_post", "pk_post", &path, None),
        "\n            UPDATE tv_post SET\n                data = jsonb_array_insert_where(data, ARRAY['comments'], $1, NULL, NULL),\n                updated_at = now()\n            WHERE pk_post = $2\n            "
    );
}

#[test]
fn test_delete_array_element_sql() {
    let path = strings(&["a", "b"]);
    assert_eq!(
        delete_array_element_sql("tv_post", "pk_post", &path, "id"),
        "\n        UPDATE tv_post SET\n            data = jsonb_array_delete_where(data, ARRAY['a,b'], 'id', $1),\n            updated_at = now()\n        WHERE pk_post = $2\n        "
    );
}

#[test]
fn test_array_element_exists_sql() {
    let path = strings(&["post", "comments"]);
    assert_eq!(
        array_element_exists_sql(&path, "id", true),
        "SELECT jsonb_array_contains_id($1::jsonb, ARRAY['post','comments'], 'id', $2::jsonb)"
    );
    assert_eq!(
        array_element_exists_sql(&path, "id", false),
        "SELECT EXISTS(\n                SELECT 1 FROM jsonb_path_query($1::jsonb, '$.post.comments[*] ? (@.id == $2)')\n            )"
    );
}

#[test]
fn test_insert_safe_step() {
    assert_eq!(insert_safe_step("tv_post", "pk_post", 1, Some(true)), Ok(InsertSafeStep::Skip));
    assert_eq!(insert_safe_step("tv_post", "pk_post", 1, Some(false)), Ok(InsertSafeStep::Insert));
    match insert_safe_step("tv_post", "pk_post", -12, None) {
        Err(TViewError::SpiError { query, error }) => {
            assert_eq!(query, select_data_sql("tv_post", "pk_post"));
            assert_eq!(query, "SELECT data FROM tv_post WHERE pk_post = $1");
            assert_eq!(error, "No row found with pk_post = -12");
        },
        other => panic!("unexpected {:?}", other),
    }
}

#[test]
fn test_nested_path_statements() {
    assert_eq!(element_field_path("items", 2, "author.name"), "items,2,author,name");
    assert_eq!(element_field_path("items", 0, ""), "items,0,");
    assert_eq!(
        jsonb_set_sql("tv_post", "pk_post", "comments", 1, "author.name"),
        "UPDATE tv_post SET data = jsonb_set(data, '{comments,1,author,name}'::text[], $1::jsonb) WHERE pk_post = $2"
    );
    assert_eq!(
        path_update_sql("tv_post", "pk_post", "comments", "id", "author.name"),
        "UPDATE tv_post SET data = jsonb_delta_array_update_where_path(\n                data, 'comments', 'id', $1::jsonb, 'author.name', $2::jsonb\n            ) WHERE pk_post = $3"
    );
    assert_eq!(
        element_index_sql("tv_post", "pk_post", "comments", "id"),
        "SELECT idx - 1 FROM tv_post,\n             jsonb_array_elements(data->'comments') WITH ORDINALITY arr(elem, idx)\n             WHERE elem->>'id' = $1::jsonb->>'id' AND pk_post = $2\n             LIMIT 1"
    );
}

#[test]
fn test_base_table_hints_from_comment() {
    assert_eq!(parse_base_table_hints("TVIEW_BASES: tb_user, tb_post"), Some(strings(&["tb_user", "tb_post"])));
    assert_eq!(parse_base_table_hints("Bases. TVIEW_BASES:tb_a,, tb_b ,"), Some(strings(&["tb_a", "tb_b"])));
    assert_eq!(parse_base_table_hints("TVIEW_BASES: tb_a TVIEW_BASES: tb_b"), Some(strings(&["tb_a"])));
    assert_eq!(parse_base_table_hints("TVIEW_BASES:  , "), None);
    assert_eq!(parse_base_table_hints("just a comment"), None);
}

#[test]
fn test_table_references_in_document_order() {
    let doc = JsonShape::Object(vec![
        (s("fk_user"), JsonShape::Scalar),
        (
            s("comments"),
            JsonShape::Array(vec![JsonShape::Object(vec![(s("author_id"), JsonShape::Scalar), (s("fk_"), JsonShape::Scalar)])]),
        ),
        (s("id"), JsonShape::Scalar),
        (s("post_id"), JsonShape::Object(vec![(s("fk_user"), JsonShape::Scalar)])),
    ]);
    let mut found = vec![s("tb_seed")];
    extract_table_references(&doc, &mut found);
    assert_eq!(found, strings(&["tb_seed", "tb_user", "tb_author", "tb_post", "tb_user"]));
    assert_eq!(distinct_tables(&found), strings(&["tb_author", "tb_post", "tb_seed", "tb_user"]));
    assert_eq!(distinct_tables(&strings(&["b", "é", "ab", "a", "b"])), strings(&["a", "ab", "b", "é"]));
}

#[test]
fn test_conversion_queries_escape_names() {
    assert_eq!(
        table_columns_query("tv_o'x"),
        "SELECT column_name, data_type, is_nullable\n             FROM information_schema.columns\n             WHERE table_name = 'tv_o''x'\n             ORDER BY ordinal_position"
    );
    assert_eq!(
        table_comment_query("tv_a"),
        "SELECT obj_description(oid, 'pg_class') as comment\n         FROM pg_class\n         WHERE relname = 'tv_a'"
    );
    assert_eq!(
        named_table_exists_query("tb_'"),
        "SELECT EXISTS(SELECT 1 FROM information_schema.tables WHERE table_name = 'tb_''')"
    );
    assert_eq!(relation_oid_query("v_post"), "SELECT oid FROM pg_class WHERE relname = 'v_post'");
}

#[test]
fn test_converted_schema_uses_pk_column() {
    let cols = vec![(s("id"), s("uuid")), (s("pk_post"), s("integer")), (s("data"), s("jsonb")), (s("pk_other"), s("integer"))];
    assert!(has_pk_column(&cols));
    assert!(!has_pk_column(&vec![(s("id"), s("uuid"))]));
    let schema = converted_schema(&cols);
    assert_eq!(schema.entity_name, Some(s("post")));
    assert_eq!(schema.pk_column, Some(s("pk_post")));
    assert_eq!(schema.identifier_column, Some(s("pk_post")));
    assert_eq!(schema.id_column, Some(s("id")));
    assert_eq!(schema.data_column, Some(s("data")));
    assert!(schema.fk_columns.is_empty());
}

#[test]
fn test_backing_view_sql() {
    assert_eq!(
        backing_view_sql("v_post", &vec![]),
        "CREATE VIEW v_post AS SELECT\n                NULL::uuid as id,\n                NULL::jsonb as data\n             WHERE false"
    );
    let rows = vec![(Some(s("u1")), Some(s("{}"))), (None, Some(s("{}"))), (Some(s("u2")), Some(s("{\"a\":1}")))];
    assert_eq!(
        backing_view_sql("v_post", &rows),
        "CREATE VIEW v_post AS SELECT * FROM (VALUES ('u1'::uuid, '{}'), ('u2'::uuid, '{\"a\":1}')) AS t(id, data)"
    );
}

#[test]
fn test_register_converted_sql() {
    assert_eq!(
        register_converted_sql("o'k", 10, 20, "v_o'k"),
        "INSERT INTO pg_tview_meta (entity, view_oid, table_oid, definition, fk_columns, uuid_fk_columns)\n         VALUES ('o''k', 10, 20, 'SELECT * FROM v_o''k', '{}', '{}')\n         ON CONFLICT (entity) DO UPDATE SET\n            view_oid = EXCLUDED.view_oid,\n            table_oid = EXCLUDED.table_oid,\n            definition = EXCLUDED.definition,\n            fk_columns = EXCLUDED.fk_columns,\n            uuid_fk_columns = EXCLUDED.uuid_fk_columns"
    );
}

#[test]
fn test_converted_oids() {
    assert_eq!(converted_oids("v_a", "tv_a", Some(1), Some(2)), Ok((1, 2)));
    match converted_oids("v_a", "tv_a", None, Some(2)) {
        Err(TViewError::CatalogError { operation, pg_error }) => {
            assert_eq!(operation, "Get OID for view v_a");
            assert_eq!(pg_error, "View not found");
        },
        other => panic!("unexpected {:?}", other),
    }
    match converted_oids("v_a", "tv_a", Some(1), None) {
        Err(TViewError::CatalogError { operation, pg_error }) => {
            assert_eq!(operation, "Get OID for table tv_a");
            assert_eq!(pg_error, "Table not found");
        },
        other => panic!("unexpected {:?}", other),
    }
}

#[test]
fn test_backing_view_statement_and_check() {
    assert_eq!(
        create_view_sql("public", "v_post", "SELECT 1 AS pk_post"),
        "CREATE VIEW \"public\".\"v_post\" AS SELECT 1 AS pk_post"
    );
    assert_eq!(check_backing_view("public", "v_post", true), Ok(()));
    match check_backing_view("public", "v_post", false) {
        Err(TViewError::CatalogError { operation, pg_error }) => {
            assert_eq!(operation, "Create view public.v_post");
            assert_eq!(pg_error, "View was not created (CREATE VIEW succeeded but view missing from pg_class)");
        },
        other => panic!("unexpected {:?}", other),
    }
}

#[test]
fn test_batch_lookup_sql() {
    assert_eq!(pg_tviews::cascade::batch_lookup_sql("\"public\".\"tb_group\"", "pk_group", "fk_order", &vec![]), None);
    assert_eq!(
        pg_tviews::cascade::batch_lookup_sql("\"public\".\"tb_group\"", "pk_group", "fk_order", &vec![1, 2]),
        Some(s("SELECT \"fk_order\" FROM \"public\".\"tb_group\" WHERE \"pk_group\" = ANY($1)"))
    );
}

#[test]
fn conversion_statements() {
    assert_eq!(sample_data_query("tv_post"), "SELECT data::text FROM tv_post LIMIT 5");
    assert_eq!(backup_query("tv_post"), "SELECT id::text, data::text FROM tv_post");
    assert_eq!(drop_table_cascade_sql("tv_post"), "DROP TABLE tv_post CASCADE");
    assert_eq!(converted_view_name("post"), "v_post");
    assert_eq!(table_as_view_sql("tv_post", "v_post"), "CREATE VIEW tv_post AS SELECT * FROM v_post");
}
