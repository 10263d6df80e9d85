use pg_tviews::schema::direct_map::extract_direct_column_map;
use pg_tviews::schema::inference::{infer_column_type, infer_schema, validate_schema};
use pg_tviews::schema::parser::{
    extract_column_name, find_last_as, parse_select_columns, parse_select_columns_with_expressions,
    skip_paren_block,
};
use pg_tviews::schema::TViewSchema;
use pg_tviews::TViewError;

fn extract(sql: &str, base: &str) -> Vec<(String, String)> {
    extract_direct_column_map(sql, base)
}

#[test]
fn extracts_bare_column_and_omits_nested_object() {
    let sql = "SELECT pk_post, fk_user, \
         jsonb_build_object('title', title, 'author', v_user.data) AS data \
         FROM tb_post";
    assert_eq!(extract(sql, "tb_post"), vec![("title".to_string(), "title".to_string())]);
}

#[test]
fn extracts_alias_qualified_base_column() {
    let sql = "SELECT pk_post, \
         jsonb_build_object('title', p.title) AS data \
         FROM tb_post p";
    assert_eq!(extract(sql, "tb_post"), vec![("title".to_string(), "title".to_string())]);
}

#[test]
fn extracts_alias_qualified_with_as_keyword() {
    let sql = "SELECT pk_post, \
         jsonb_build_object('title', p.title) AS data \
         FROM tb_post AS p";
    assert_eq!(extract(sql, "tb_post"), vec![("title".to_string(), "title".to_string())]);
}

#[test]
fn extracts_base_table_qualified_column() {
    let sql = "SELECT pk_post, \
         jsonb_build_object('title', tb_post.title) AS data \
         FROM tb_post";
    assert_eq!(extract(sql, "tb_post"), vec![("title".to_string(), "title".to_string())]);
}

#[test]
fn key_differs_from_column_name() {
    let sql = "SELECT pk_post, \
         jsonb_build_object('headline', title) AS data \
         FROM tb_post";
    assert_eq!(extract(sql, "tb_post"), vec![("title".to_string(), "headline".to_string())]);
}

#[test]
fn extracts_multiple_bare_columns_in_order() {
    let sql = "SELECT pk_user, \
         jsonb_build_object('name', name, 'bio', bio, 'age', age) AS data \
         FROM tb_user";
    assert_eq!(
        extract(sql, "tb_user"),
        vec![
            ("name".to_string(), "name".to_string()),
            ("bio".to_string(), "bio".to_string()),
            ("age".to_string(), "age".to_string()),
        ]
    );
}

#[test]
fn rejects_concatenation_expression() {
    let sql = "SELECT pk_user, \
         jsonb_build_object('full_name', first_name || ' ' || last_name, 'bio', bio) AS data \
         FROM tb_user";
    assert_eq!(extract(sql, "tb_user"), vec![("bio".to_string(), "bio".to_string())]);
}

#[test]
fn rejects_cast_expression() {
    let sql = "SELECT pk_user, \
         jsonb_build_object('n', n::text, 'bio', bio) AS data \
         FROM tb_user";
    assert_eq!(extract(sql, "tb_user"), vec![("bio".to_string(), "bio".to_string())]);
}

#[test]
fn rejects_other_relation_qualifier() {
    let sql = "SELECT pk_post, \
         jsonb_build_object('uname', u.name, 'title', title) AS data \
         FROM tb_post p JOIN tb_user u ON u.pk_user = p.fk_user";
    assert_eq!(extract(sql, "tb_post"), vec![("title".to_string(), "title".to_string())]);
}

#[test]
fn rejects_jsonb_agg_value() {
    let sql = "SELECT pk_user, \
         jsonb_build_object('name', name, 'posts', jsonb_agg(v_post.data)) AS data \
         FROM tb_user LEFT JOIN v_post ON v_post.fk_user = pk_user GROUP BY pk_user, name";
    assert_eq!(extract(sql, "tb_user"), vec![("name".to_string(), "name".to_string())]);
}

#[test]
fn rejects_nested_jsonb_build_object_value() {
    let sql = "SELECT pk_post, \
         jsonb_build_object('title', title, 'meta', jsonb_build_object('x', 1)) AS data \
         FROM tb_post";
    assert_eq!(extract(sql, "tb_post"), vec![("title".to_string(), "title".to_string())]);
}

#[test]
fn duplicate_key_drops_both() {
    let sql = "SELECT pk_post, \
         jsonb_build_object('x', a, 'x', b, 'title', title) AS data \
         FROM tb_post";
    assert_eq!(extract(sql, "tb_post"), vec![("title".to_string(), "title".to_string())]);
}

#[test]
fn duplicate_column_drops_both() {
    let sql = "SELECT pk_post, \
         jsonb_build_object('a', title, 'b', title, 'body', body) AS data \
         FROM tb_post";
    assert_eq!(extract(sql, "tb_post"), vec![("body".to_string(), "body".to_string())]);
}

#[test]
fn no_jsonb_build_object_yields_empty_map() {
    let sql = "SELECT pk_post, sub.data AS data FROM tb_post \
         JOIN (SELECT pk_post, data FROM other) sub USING (pk_post)";
    assert!(extract(sql, "tb_post").is_empty());
}

#[test]
fn coalesce_wrapped_data_yields_empty_map() {
    let sql = "SELECT pk_post, \
         COALESCE(jsonb_build_object('title', title), '{}'::jsonb) AS data \
         FROM tb_post";
    assert!(extract(sql, "tb_post").is_empty());
}

#[test]
fn missing_data_column_yields_empty_map() {
    let sql = "SELECT pk_post, title FROM tb_post";
    assert!(extract(sql, "tb_post").is_empty());
}

#[test]
fn rejects_quoted_weird_key() {
    let sql = "SELECT pk_post, \
         jsonb_build_object('title', title) AS data FROM tb_post";
    assert_eq!(extract(sql, "tb_post"), vec![("title".to_string(), "title".to_string())]);
}

#[test]
fn quoted_key_with_embedded_quote_is_omitted() {
    let sql = "SELECT pk_post, jsonb_build_object('ti''tle', title, 'body', body) AS data FROM tb_post";
    assert_eq!(extract(sql, "tb_post"), vec![("body".to_string(), "body".to_string())]);
}

#[test]
fn test_infer_simple_schema() {
    let schema = infer_schema("SELECT pk_post, id, data FROM tb_post").unwrap();
    assert_eq!(schema.pk_column, Some("pk_post".to_string()));
    assert_eq!(schema.id_column, Some("id".to_string()));
    assert_eq!(schema.data_column, Some("data".to_string()));
    assert_eq!(schema.entity_name, Some("post".to_string()));
    assert!(schema.fk_columns.is_empty());
    assert!(schema.uuid_fk_columns.is_empty());
    assert!(schema.additional_columns.is_empty());
}

#[test]
fn test_infer_complex_schema() {
    let sql = "SELECT pk_allocation, a.id, a.fk_machine, a.fk_location, m.id AS machine_id, l.id AS location_id, a.tenant_id, (a.start_date <= CURRENT_DATE) AS is_current, jsonb_build_object('id', a.id) AS data FROM tb_allocation a";
    let schema = infer_schema(sql).unwrap();
    assert_eq!(schema.pk_column, Some("pk_allocation".to_string()));
    assert_eq!(schema.id_column, Some("id".to_string()));
    assert_eq!(schema.data_column, Some("data".to_string()));
    assert_eq!(schema.entity_name, Some("allocation".to_string()));
    assert_eq!(schema.fk_columns, vec!["fk_machine", "fk_location"]);
    assert_eq!(schema.uuid_fk_columns, vec!["machine_id", "location_id", "tenant_id"]);
    assert_eq!(schema.additional_columns, vec!["is_current"]);
}

#[test]
fn test_infer_missing_pk_column() {
    let schema = infer_schema("SELECT id, name, data FROM tb_user").unwrap();
    assert_eq!(schema.pk_column, None);
    assert_eq!(schema.id_column, Some("id".to_string()));
    assert_eq!(schema.data_column, Some("data".to_string()));
    assert_eq!(schema.entity_name, None);
}

#[test]
fn test_infer_missing_data_column() {
    let schema = infer_schema("SELECT pk_user, id, name FROM tb_user").unwrap();
    assert_eq!(schema.pk_column, Some("pk_user".to_string()));
    assert_eq!(schema.id_column, Some("id".to_string()));
    assert_eq!(schema.data_column, None);
}

#[test]
fn test_infer_missing_id_column_error() {
    let result = infer_schema("SELECT pk_user, name, data FROM tb_user");
    assert!(result.is_err());
    if let TViewError::RequiredColumnMissing { column_name, .. } = result.unwrap_err() {
        assert_eq!(column_name, "id");
    } else {
        panic!("Expected RequiredColumnMissing error");
    }
}

#[test]
fn test_infer_empty_select_error() {
    assert!(infer_schema("SELECT FROM tb_user").is_err());
}

#[test]
fn test_validate_schema_duplicate_columns() {
    let mut schema = TViewSchema::new();
    schema.pk_column = Some("id".to_string());
    schema.id_column = Some("id".to_string());
    let result = validate_schema(&schema);
    assert!(result.is_err());
    match result {
        Err(TViewError::InvalidSelectStatement { sql, reason }) => {
            assert_eq!(sql, "N/A");
            assert_eq!(reason, "Column 'id' appears in multiple categories");
        }
        other => panic!("unexpected {other:?}"),
    }
}

#[test]
fn test_infer_with_identifier_column() {
    let schema = infer_schema("SELECT pk_product, id, identifier, name, data FROM tb_product").unwrap();
    assert_eq!(schema.pk_column, Some("pk_product".to_string()));
    assert_eq!(schema.id_column, Some("id".to_string()));
    assert_eq!(schema.identifier_column, Some("identifier".to_string()));
    assert_eq!(schema.data_column, Some("data".to_string()));
    assert_eq!(schema.additional_columns, vec!["name"]);
}

#[test]
fn test_infer_array_column_uuid() {
    let sql = "SELECT pk_machine, id, ARRAY(SELECT mi.id FROM tb_machine_item mi WHERE mi.fk_machine = m.pk_machine) AS machine_item_ids, data FROM tb_machine m";
    let schema = infer_schema(sql).unwrap();
    assert_eq!(schema.pk_column, Some("pk_machine".to_string()));
    assert_eq!(schema.id_column, Some("id".to_string()));
    assert_eq!(schema.data_column, Some("data".to_string()));
    assert_eq!(schema.additional_columns, vec!["machine_item_ids"]);
    assert_eq!(
        schema.additional_columns_with_types,
        vec![("machine_item_ids".to_string(), "UUID[]".to_string())]
    );
}

#[test]
fn test_infer_array_column_text() {
    let sql = "SELECT pk_post, id, ARRAY(SELECT c.name FROM tb_comment c WHERE c.fk_post = p.pk_post) AS comment_names, data FROM tb_post p";
    let schema = infer_schema(sql).unwrap();
    assert_eq!(
        schema.additional_columns_with_types,
        vec![("comment_names".to_string(), "TEXT[]".to_string())]
    );
}

#[test]
fn test_infer_array_column_integer() {
    let sql = "SELECT pk_order, id, ARRAY(SELECT oi.pk_order_item FROM tb_order_item oi WHERE oi.fk_order = o.pk_order) AS item_ids, data FROM tb_order o";
    let schema = infer_schema(sql).unwrap();
    assert_eq!(
        schema.additional_columns_with_types,
        vec![("item_ids".to_string(), "INTEGER[]".to_string())]
    );
}

#[test]
fn test_infer_column_type_array_uuid() {
    assert_eq!(infer_column_type("ARRAY(SELECT mi.id FROM tb_machine_item mi)"), "UUID[]");
}

#[test]
fn test_infer_column_type_array_text() {
    assert_eq!(infer_column_type("ARRAY(SELECT c.name FROM tb_comment c)"), "TEXT[]");
}

#[test]
fn test_infer_column_type_array_integer() {
    assert_eq!(infer_column_type("ARRAY(SELECT oi.pk_order_item FROM tb_order_item oi)"), "INTEGER[]");
}

#[test]
fn test_infer_column_type_jsonb_agg() {
    assert_eq!(infer_column_type("jsonb_agg(jsonb_build_object('id', c.id))"), "JSONB");
}

#[test]
fn test_infer_column_type_default() {
    assert_eq!(infer_column_type("some_expression"), "TEXT");
}

#[test]
fn infer_column_type_other_name_patterns() {
    assert_eq!(infer_column_type("ARRAY(SELECT t.created_at FROM t)"), "TIMESTAMP[]");
    assert_eq!(infer_column_type("ARRAY(SELECT t.is_active FROM t)"), "BOOLEAN[]");
    assert_eq!(infer_column_type("ARRAY(SELECT t.fk_user FROM t)"), "INTEGER[]");
    assert_eq!(infer_column_type("  array(select x from t)"), "UUID[]");
}

#[test]
fn test_tview_schema_new() {
    let schema = TViewSchema::new();
    assert!(schema.pk_column.is_none());
    assert!(schema.id_column.is_none());
    assert!(schema.data_column.is_none());
    assert!(schema.entity_name.is_none());
    assert!(schema.fk_columns.is_empty());
    assert!(schema.uuid_fk_columns.is_empty());
    assert!(schema.additional_columns.is_empty());
}

#[test]
fn test_extract_columns_simple() {
    let cols = parse_select_columns("SELECT id, name, data FROM users").unwrap();
    assert_eq!(cols, vec!["id", "name", "data"]);
}

#[test]
fn test_extract_columns_with_alias() {
    let cols = parse_select_columns("SELECT u.id AS user_id, u.name, 'literal' AS data FROM users u").unwrap();
    assert_eq!(cols, vec!["user_id", "name", "data"]);
}

#[test]
fn test_extract_columns_table_qualified() {
    let cols = parse_select_columns("SELECT u.id, u.name, p.title FROM users u JOIN posts p ON u.id = p.user_id").unwrap();
    assert_eq!(cols, vec!["id", "name", "title"]);
}

#[test]
fn test_extract_columns_complex_expression() {
    let sql = "SELECT pk_post, id, jsonb_build_object('id', id, 'title', title) AS data FROM posts";
    let cols = parse_select_columns(sql).unwrap();
    assert_eq!(cols, vec!["pk_post", "id", "data"]);
}

#[test]
fn test_extract_columns_empty_select() {
    let result = parse_select_columns("SELECT FROM users");
    assert!(result.is_err());
    assert!(result.unwrap_err().contains("No columns"));
}

#[test]
fn test_extract_columns_no_select() {
    let result = parse_select_columns("FROM users SELECT id");
    assert!(result.is_err());
    assert!(result.unwrap_err().contains("No FROM keyword found"));
}

#[test]
fn test_extract_column_name_simple() {
    assert_eq!(extract_column_name("id").unwrap(), "id");
    assert_eq!(extract_column_name("pk_post").unwrap(), "pk_post");
    assert_eq!(extract_column_name("u.name").unwrap(), "name");
}

#[test]
fn test_extract_column_name_with_alias() {
    assert_eq!(extract_column_name("u.id AS user_id").unwrap(), "user_id");
    assert_eq!(extract_column_name("jsonb_build_object('key', 'value') AS data").unwrap(), "data");
}

#[test]
fn test_find_last_as() {
    assert_eq!(find_last_as("id as user_id"), Some(3));
    assert_eq!(find_last_as("jsonb_build_object('id', id) as data"), Some(29));
    assert_eq!(find_last_as("id"), None);
}

#[test]
fn test_find_last_as_nested() {
    let sql = "jsonb_build_object('id', id) as data, name as full_name";
    assert_eq!(find_last_as(sql), Some(43));
}

#[test]
fn test_parse_cte_columns() {
    let sql = "WITH labels AS (SELECT item_id, label FROM tb_i18n) \
               SELECT i.pk_item, i.id, i.name, l.label AS data \
               FROM tb_item i LEFT JOIN labels l ON l.item_id = i.pk_item";
    let cols = parse_select_columns(sql).unwrap();
    assert!(cols.contains(&"pk_item".to_string()), "expected pk_item, got {cols:?}");
    assert!(cols.contains(&"id".to_string()), "expected id, got {cols:?}");
    assert!(cols.contains(&"name".to_string()), "expected name, got {cols:?}");
    assert!(cols.contains(&"data".to_string()), "expected data, got {cols:?}");
    assert!(!cols.contains(&"item_id".to_string()), "CTE-only column item_id leaked: {cols:?}");
    assert!(!cols.contains(&"label".to_string()), "CTE-only column label leaked: {cols:?}");
}

#[test]
fn test_parse_cte_columns_with_expressions() {
    let sql = "WITH labels AS (SELECT item_id, label FROM tb_i18n) \
               SELECT i.pk_item, i.id, i.name, l.label AS data \
               FROM tb_item i LEFT JOIN labels l ON l.item_id = i.pk_item";
    let cols = parse_select_columns_with_expressions(sql).unwrap();
    let names: Vec<&str> = cols.iter().map(|(n, _)| n.as_str()).collect();
    assert!(names.contains(&"pk_item"), "expected pk_item, got {names:?}");
    assert!(names.contains(&"data"), "expected data, got {names:?}");
    assert!(!names.contains(&"item_id"), "CTE-only column item_id leaked: {names:?}");
}

#[test]
fn test_parse_multiple_ctes() {
    let sql = "WITH a AS (SELECT x FROM t1), b AS (SELECT y FROM a) \
               SELECT pk_item, id, b.y AS data FROM tb_item JOIN b ON b.y = tb_item.pk_item";
    let cols = parse_select_columns(sql).unwrap();
    assert_eq!(cols, vec!["pk_item", "id", "data"]);
}

#[test]
fn test_parse_cte_with_explicit_column_list() {
    let sql = "WITH labeled(item_id, label) AS (SELECT item_id, label FROM tb_i18n) \
               SELECT pk_item, id, label AS data FROM tb_item \
               JOIN labeled ON labeled.item_id = tb_item.pk_item";
    let cols = parse_select_columns(sql).unwrap();
    assert!(cols.contains(&"pk_item".to_string()));
    assert!(cols.contains(&"data".to_string()));
    assert!(!cols.contains(&"item_id".to_string()));
}

#[test]
fn test_parse_cte_with_paren_in_string_literal() {
    let sql = "WITH filtered AS (SELECT id FROM t WHERE name = 'a)b') \
               SELECT pk_item, id, name AS data FROM tb_item";
    let cols = parse_select_columns(sql).unwrap();
    assert_eq!(cols, vec!["pk_item", "id", "data"]);
}

#[test]
fn test_parse_cte_with_nested_subquery() {
    let sql = "WITH top AS (SELECT id FROM t WHERE id IN (SELECT id FROM s)) \
               SELECT pk_item, id, name AS data FROM tb_item";
    let cols = parse_select_columns(sql).unwrap();
    assert_eq!(cols, vec!["pk_item", "id", "data"]);
}

#[test]
fn test_recursive_cte_rejected() {
    let sql = "WITH RECURSIVE tree AS (SELECT 1) SELECT pk_item, id, name AS data FROM tb_item";
    let result = parse_select_columns(sql);
    assert!(result.is_err(), "expected error for WITH RECURSIVE");
    assert!(result.unwrap_err().contains("RECURSIVE"), "error should mention RECURSIVE");
}

#[test]
fn test_recursive_cte_rejected_lowercase() {
    let sql = "with recursive tree as (select 1) select pk_item, id, name as data from tb_item";
    let result = parse_select_columns(sql);
    assert!(result.is_err(), "expected error for with recursive");
    assert!(result.unwrap_err().contains("RECURSIVE"));
}

#[test]
fn test_skip_paren_block_simple() {
    let s = "(hello world) rest";
    assert_eq!(skip_paren_block(s.as_bytes(), 0).unwrap(), 13);
}

#[test]
fn test_skip_paren_block_nested() {
    let s = "((a) (b)) rest";
    assert_eq!(skip_paren_block(s.as_bytes(), 0).unwrap(), 9);
}

#[test]
fn test_skip_paren_block_string_with_paren() {
    let s = "(WHERE name = 'a)b') rest";
    assert_eq!(skip_paren_block(s.as_bytes(), 0).unwrap(), 20);
}

#[test]
fn test_non_cte_sql_unchanged() {
    let sql = "SELECT pk_post, id, jsonb_build_object('id', id) AS data FROM tb_post";
    let cols = parse_select_columns(sql).unwrap();
    assert_eq!(cols, vec!["pk_post", "id", "data"]);
}

#[test]
fn unterminated_paren_block_is_an_error() {
    assert!(skip_paren_block("(abc".as_bytes(), 0).is_err());
}

#[test]
fn only_the_word_as_introduces_an_alias() {
    let cols = parse_select_columns("SELECT last_name, alias, cast_id FROM users").unwrap();
    assert_eq!(cols, vec!["last_name".to_string(), "alias".to_string(), "cast_id".to_string()]);
    let cols = parse_select_columns("SELECT CAST(x AS int) AS has_name, y as\tbasis FROM t").unwrap();
    assert_eq!(cols, vec!["has_name".to_string(), "basis".to_string()]);
    assert_eq!(extract_column_name("u.last_name"), Ok("last_name".to_string()));
    assert_eq!(extract_column_name("count(*)as total"), Ok("total".to_string()));
}
