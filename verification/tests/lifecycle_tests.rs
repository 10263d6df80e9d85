use pg_tviews::audit::{AuditBuffer, AuditDetails, AuditOperation};
use pg_tviews::ddl::convert::{extract_entity_name, validate_tview_structure};
use pg_tviews::ddl::drop::{check_drop, drop_entity_name, drop_object_sql, qualified_name_query};
use pg_tviews::dependency::triggers::trigger_statements;
use pg_tviews::error::TViewError;
use pg_tviews::health::{health_report, JsonbDeltaLatch};

fn s(x: &str) -> String {
    x.to_string()
}

#[test]
fn audit_buffer_flushes_in_order_when_enabled() {
    let mut b = AuditBuffer::new();
    b.log_create("post", "SELECT 1", "0.1.0");
    b.log_refresh("post", 3);
    b.log_drop("post");
    assert_eq!(AuditOperation::Create.as_str(), "CREATE");
    assert_eq!(AuditOperation::Refresh.as_str(), "REFRESH");
    let taken = b.take_for_flush(true);
    assert_eq!(taken.len(), 3);
    assert_eq!(taken[0].details, AuditDetails::Created { definition: s("SELECT 1"), version: s("0.1.0") });
    assert_eq!(taken[1].rows_affected, Some(3));
    assert_eq!(taken[2].operation, AuditOperation::Drop);
    assert!(b.entries.is_empty());
    b.log_drop("x");
    assert!(b.take_for_flush(false).is_empty());
    assert!(b.entries.is_empty());
    b.log_drop("y");
    b.clear();
    assert!(b.entries.is_empty());
}

#[test]
fn health_rows_reflect_the_catalog() {
    let ok = health_report("0.1.0", true, 0, 0, 4);
    assert_eq!(ok[0], (s("OK"), s("extension"), s("pg_tviews version 0.1.0"), s("info")));
    assert_eq!(ok[1].0, "OK");
    assert_eq!(ok[2], (s("OK"), s("metadata"), s("All metadata entries valid"), s("info")));
    assert_eq!(ok[4], (s("OK"), s("tviews"), s("4 TVIEWs registered"), s("info")));
    let bad = health_report("0.1.0", false, 2, 5, 0);
    assert_eq!(bad[1], (s("WARNING"), s("jsonb_delta"), s("jsonb_delta not installed (falling back to standard JSONB)"), s("warning")));
    assert_eq!(bad[2], (s("ERROR"), s("metadata"), s("2 orphaned metadata entries found"), s("error")));
    assert_eq!(bad[3], (s("WARNING"), s("triggers"), s("5 orphaned triggers found"), s("warning")));
}

#[test]
fn jsonb_delta_latch_remembers_until_invalidated() {
    let mut l = JsonbDeltaLatch::new();
    assert_eq!(l.cached(), None);
    l.record(true);
    assert_eq!(l.cached(), Some(true));
    l.invalidate();
    assert_eq!(l.cached(), None);
    l.record(false);
    assert_eq!(l.cached(), Some(false));
}

#[test]
fn drop_decisions_and_statements() {
    assert_eq!(drop_entity_name("tv_post"), "post");
    assert_eq!(drop_entity_name("tv_tv_post"), "post");
    assert_eq!(check_drop("post", true, false), Ok(true));
    assert_eq!(check_drop("post", false, true), Ok(false));
    assert_eq!(check_drop("post", false, false), Err(TViewError::MetadataNotFound { entity: s("post") }));
    assert!(qualified_name_query(16384).ends_with("WHERE c.oid = 16384"));
    assert_eq!(drop_object_sql("VIEW", "\"public\".\"v_post\""), "DROP VIEW IF EXISTS \"public\".\"v_post\"");
}

#[test]
fn conversion_checks_name_and_columns() {
    assert_eq!(extract_entity_name("tv_order"), Ok(s("order")));
    assert_eq!(
        extract_entity_name("orders"),
        Err(TViewError::InvalidSelectStatement { sql: s("orders"), reason: s("Table name must start with tv_") })
    );
    let cols = |v: &[(&str, &str)]| v.iter().map(|(a, b)| (s(a), s(b))).collect::<Vec<_>>();
    assert_eq!(validate_tview_structure("tv_o", &cols(&[("id", "uuid"), ("data", "jsonb")])), Ok(()));
    assert_eq!(
        validate_tview_structure("tv_o", &cols(&[("id", "uuid"), ("name", "text")])),
        Err(TViewError::InvalidSelectStatement { sql: s("tv_o"), reason: s("Table must have TVIEW structure: id (UUID), data (JSONB). Found: id, name") })
    );
    assert_eq!(
        validate_tview_structure("tv_o", &cols(&[("id", "text"), ("data", "jsonb")])),
        Err(TViewError::InvalidSelectStatement { sql: s("tv_o"), reason: s("Column 'id' must be UUID, found text") })
    );
    assert_eq!(
        validate_tview_structure("tv_o", &cols(&[("data", "json"), ("id", "uuid")])),
        Err(TViewError::InvalidSelectStatement { sql: s("tv_o"), reason: s("Column 'data' must be JSONB, found json") })
    );
}

#[test]
fn trigger_names_and_statements() {
    let t = trigger_statements("post", "public", "tb_user");
    assert_eq!(t.row_trigger, "trg_tview_post_on_public_tb_user");
    assert_eq!(t.flush_trigger, "trg_tview_flush_post_on_public_tb_user");
    assert_eq!(
        t.create_row,
        "CREATE TRIGGER \"trg_tview_post_on_public_tb_user\"\n             AFTER INSERT OR UPDATE OR DELETE ON \"public\".\"tb_user\"\n             FOR EACH ROW\n             EXECUTE FUNCTION pg_tview_trigger_handler()"
    );
    assert!(t.create_flush.contains("FOR EACH STATEMENT\n                 EXECUTE FUNCTION pg_tview_flush_trigger()"));
    assert_eq!(t.drop_row, "DROP TRIGGER IF EXISTS \"trg_tview_post_on_public_tb_user\" ON \"public\".\"tb_user\"");
    assert_eq!(t.drop_flush, "DROP TRIGGER IF EXISTS \"trg_tview_flush_post_on_public_tb_user\" ON \"public\".\"tb_user\"");
}
