use pg_tviews::error::testing::{assert_error_contains, assert_error_sqlstate};
use pg_tviews::{TViewError, TViewResult};

#[test]
fn test_metadata_not_found_message() {
    let err = TViewError::MetadataNotFound { entity: "post".to_string() };
    let msg = err.message();
    assert!(msg.contains("post"));
    assert!(msg.contains("not found"));
    assert_eq!(err.sqlstate(), "P0001");
}

#[test]
fn test_circular_dependency_message() {
    let err = TViewError::CircularDependency {
        cycle: vec!["v_a".to_string(), "v_b".to_string(), "v_a".to_string()],
    };
    let msg = err.message();
    assert!(msg.contains("v_a → v_b → v_a"));
    assert_eq!(err.sqlstate(), "55P03");
}

#[test]
fn test_internal_error_macro() {
    let err = TViewError::internal(format!("Test error at {}", "location"), "src/error/mod.rs", 432);
    match err {
        TViewError::InternalError { message, file, line } => {
            assert!(message.contains("Test error"));
            assert!(file.ends_with("mod.rs"));
            assert!(line > 0);
        }
        _ => panic!("Wrong error type"),
    }
}

#[test]
fn test_all_error_sqlstates_unique() {
    let errors = vec![
        TViewError::MetadataNotFound { entity: "test".to_string() },
        TViewError::TViewAlreadyExists { name: "test".to_string() },
        TViewError::InvalidTViewName { name: "test".to_string(), reason: "test".to_string() },
        TViewError::CircularDependency { cycle: vec![] },
        TViewError::DependencyDepthExceeded { depth: 1, max_depth: 1 },
        TViewError::DependencyResolutionFailed { view_name: "test".to_string(), reason: "test".to_string() },
        TViewError::InvalidSelectStatement { sql: "test".to_string(), reason: "test".to_string() },
        TViewError::RequiredColumnMissing { column_name: "test".to_string(), context: "test".to_string() },
        TViewError::TypeInferenceFailed { column_name: "test".to_string(), reason: "test".to_string() },
        TViewError::JsonbIvmNotInstalled,
        TViewError::ExtensionVersionMismatch { extension: "test".to_string(), required: "1".to_string(), found: "2".to_string() },
        TViewError::LockTimeout { resource: "test".to_string(), timeout_ms: 1000 },
        TViewError::DeadlockDetected { context: "test".to_string() },
        TViewError::CascadeDepthExceeded { current_depth: 1, max_depth: 1 },
        TViewError::RefreshFailed { entity: "test".to_string(), pk_value: 1, reason: "test".to_string() },
        TViewError::BatchTooLarge { size: 1, max_size: 1 },
        TViewError::CatalogError { operation: "test".to_string(), pg_error: "test".to_string() },
        TViewError::SpiError { query: "test".to_string(), error: "test".to_string() },
        TViewError::SerializationError { message: "test".to_string() },
        TViewError::ConfigError { setting: "test".to_string(), value: "test".to_string(), reason: "test".to_string() },
        TViewError::CacheError { cache_name: "test".to_string(), reason: "test".to_string() },
        TViewError::CallbackError { callback_name: "test".to_string(), error: "test".to_string() },
        TViewError::MetricsError { operation: "test".to_string(), error: "test".to_string() },
        TViewError::InternalError { message: "test".to_string(), file: "test", line: 1 },
    ];
    let sqlstates: Vec<&str> = errors.iter().map(|e| e.sqlstate()).collect();
    let unique_sqlstates: std::collections::HashSet<&str> = sqlstates.iter().cloned().collect();
    assert!(unique_sqlstates.len() >= 15, "Too many duplicate SQLSTATE codes");
}

#[test]
fn sqlstate_helper_accepts_matching_error() {
    let err = TViewError::BatchTooLarge { size: 5, max_size: 2 };
    assert_eq!(err.sqlstate(), "54000");
    let failed: TViewResult<()> = Err(err);
    assert_error_sqlstate(failed, "54000");
}

#[test]
fn message_helper_finds_substring() {
    let err = TViewError::BatchTooLarge { size: 5, max_size: 2 };
    assert!(err.message().contains("Batch size 5 exceeds maximum 2"));
    let failed: TViewResult<()> = Err(err);
    assert_error_contains(failed, "Batch size 5 exceeds maximum 2");
}

#[test]
fn dependency_cycle_message_joins_entities() {
    let err = TViewError::DependencyCycle { entities: vec!["a".to_string(), "b".to_string()] };
    assert_eq!(err.message(), "Dependency cycle detected in entity graph: a -> b");
    assert_eq!(err.sqlstate(), "55P03");
}

#[test]
fn propagation_depth_message_counts() {
    let err = TViewError::PropagationDepthExceeded { max_depth: 100, processed: 7 };
    assert_eq!(
        err.message(),
        "Propagation exceeded maximum depth of 100 iterations (7 entities processed). Possible infinite loop or extremely deep dependency chain."
    );
    assert_eq!(err.sqlstate(), "54001");
}

#[test]
fn printable_unless_a_character_crosses_byte_hundred() {
    let short = TViewError::SpiError { query: "SELECT 1".to_string(), error: "boom".to_string() };
    assert!(short.is_printable());
    let mut across = "a".repeat(99);
    across.push('é');
    let bad = TViewError::InvalidSelectStatement { sql: across, reason: "r".to_string() };
    assert!(!bad.is_printable());
    let mut aligned = "a".repeat(100);
    aligned.push('é');
    let good = TViewError::InvalidSelectStatement { sql: aligned, reason: "r".to_string() };
    assert!(good.is_printable());
    assert!(TViewError::MetadataNotFound { entity: "é".repeat(80) }.is_printable());
}
