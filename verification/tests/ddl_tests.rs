use pg_tviews::ddl::create::{resolve_pg_column_type, scalar_pg_type_to_sql};

#[test]
fn test_scalar_pg_type_boolean() {
    assert_eq!(scalar_pg_type_to_sql("boolean"), "BOOLEAN");
}

#[test]
fn test_scalar_pg_type_uuid() {
    assert_eq!(scalar_pg_type_to_sql("uuid"), "UUID");
}

#[test]
fn test_scalar_pg_type_numeric() {
    assert_eq!(scalar_pg_type_to_sql("bigint"), "BIGINT");
    assert_eq!(scalar_pg_type_to_sql("int8"), "BIGINT");
    assert_eq!(scalar_pg_type_to_sql("integer"), "INTEGER");
    assert_eq!(scalar_pg_type_to_sql("int4"), "INTEGER");
    assert_eq!(scalar_pg_type_to_sql("smallint"), "SMALLINT");
    assert_eq!(scalar_pg_type_to_sql("numeric"), "NUMERIC");
    assert_eq!(scalar_pg_type_to_sql("decimal"), "NUMERIC");
}

#[test]
fn test_scalar_pg_type_floating_point() {
    assert_eq!(scalar_pg_type_to_sql("real"), "REAL");
    assert_eq!(scalar_pg_type_to_sql("float4"), "REAL");
    assert_eq!(
        scalar_pg_type_to_sql("double precision"),
        "DOUBLE PRECISION"
    );
    assert_eq!(scalar_pg_type_to_sql("float8"), "DOUBLE PRECISION");
}

#[test]
fn test_scalar_pg_type_temporal() {
    assert_eq!(
        scalar_pg_type_to_sql("timestamp with time zone"),
        "TIMESTAMPTZ"
    );
    assert_eq!(
        scalar_pg_type_to_sql("timestamp without time zone"),
        "TIMESTAMP"
    );
    assert_eq!(scalar_pg_type_to_sql("date"), "DATE");
    assert_eq!(scalar_pg_type_to_sql("time"), "TIME");
}

#[test]
fn test_scalar_pg_type_json() {
    assert_eq!(scalar_pg_type_to_sql("jsonb"), "JSONB");
    assert_eq!(scalar_pg_type_to_sql("json"), "JSON");
}

#[test]
fn test_scalar_pg_type_extensions() {
    assert_eq!(scalar_pg_type_to_sql("ltree"), "LTREE");
    assert_eq!(scalar_pg_type_to_sql("lquery"), "LQUERY");
    assert_eq!(scalar_pg_type_to_sql("geometry"), "GEOMETRY");
    assert_eq!(scalar_pg_type_to_sql("geography"), "GEOGRAPHY");
    assert_eq!(scalar_pg_type_to_sql("hstore"), "HSTORE");
    assert_eq!(scalar_pg_type_to_sql("citext"), "CITEXT");
}

#[test]
fn test_scalar_pg_type_unknown_fallback() {
    assert_eq!(scalar_pg_type_to_sql("unknown_type"), "TEXT");
    assert_eq!(scalar_pg_type_to_sql(""), "TEXT");
}

#[test]
fn test_resolve_pg_column_type_builtin_scalar() {
    assert_eq!(resolve_pg_column_type("boolean", None), "BOOLEAN");
    assert_eq!(resolve_pg_column_type("uuid", None), "UUID");
    assert_eq!(resolve_pg_column_type("bigint", None), "BIGINT");
    assert_eq!(resolve_pg_column_type("text", None), "TEXT");
}

#[test]
fn test_resolve_pg_column_type_user_defined() {
    assert_eq!(
        resolve_pg_column_type("USER-DEFINED", Some("ltree")),
        "LTREE"
    );
    assert_eq!(
        resolve_pg_column_type("USER-DEFINED", Some("geometry")),
        "GEOMETRY"
    );
    assert_eq!(
        resolve_pg_column_type("USER-DEFINED", Some("hstore")),
        "HSTORE"
    );
}

#[test]
fn test_resolve_pg_column_type_user_defined_unknown() {
    // Unknown USER-DEFINED type falls back to TEXT
    assert_eq!(
        resolve_pg_column_type("USER-DEFINED", Some("custom_type")),
        "TEXT"
    );
}

#[test]
fn test_resolve_pg_column_type_user_defined_missing_udt_name() {
    // USER-DEFINED without udt_name falls back to TEXT
    assert_eq!(resolve_pg_column_type("USER-DEFINED", None), "TEXT");
}

#[test]
fn test_resolve_pg_column_type_array_uuid() {
    assert_eq!(
        resolve_pg_column_type("ARRAY", Some("_uuid")),
        "UUID[]"
    );
}

#[test]
fn test_resolve_pg_column_type_array_text() {
    assert_eq!(
        resolve_pg_column_type("ARRAY", Some("_text")),
        "TEXT[]"
    );
}

#[test]
fn test_resolve_pg_column_type_array_integer() {
    assert_eq!(
        resolve_pg_column_type("ARRAY", Some("_int4")),
        "INTEGER[]"
    );
}

#[test]
fn test_resolve_pg_column_type_array_ltree() {
    // Array of extension types: _ltree → LTREE[]
    assert_eq!(
        resolve_pg_column_type("ARRAY", Some("_ltree")),
        "LTREE[]"
    );
}

#[test]
fn test_resolve_pg_column_type_array_missing_udt_name() {
    // ARRAY without udt_name falls back to TEXT[]
    assert_eq!(resolve_pg_column_type("ARRAY", None), "TEXT[]");
}

#[test]
fn test_resolve_pg_column_type_array_unknown_element() {
    // Array of unknown type: _unknown → TEXT[]
    assert_eq!(
        resolve_pg_column_type("ARRAY", Some("_unknown")),
        "TEXT[]"
    );
}
