//! Error type of the extension, with its SQLSTATE codes and messages.
use vstd::prelude::*;
use crate::text::{decimal, decimal_int, decimal_string, decimal_string_i64};

use vstd::string::StringSliceAdditionalSpecFns;
use vstd::utf8::{encode_utf8, decode_utf8, is_char_boundary, encode_utf8_decode_utf8};

pub mod testing;

verus! {

/// Main error type for pg_tviews.
#[derive(Debug, Clone, PartialEq)]
pub enum TViewError {
    // Metadata errors (P0xxx)
    MetadataNotFound { entity: String },
    TViewAlreadyExists { name: String },
    InvalidTViewName { name: String, reason: String },
    // Dependency errors (55xxx)
    CircularDependency { cycle: Vec<String> },
    DependencyDepthExceeded { depth: usize, max_depth: usize },
    DependencyResolutionFailed { view_name: String, reason: String },
    // SQL parsing errors (42xxx)
    InvalidSelectStatement { sql: String, reason: String },
    RequiredColumnMissing { column_name: String, context: String },
    TypeInferenceFailed { column_name: String, reason: String },
    // Extension dependency errors (58xxx)
    JsonbIvmNotInstalled,
    ExtensionVersionMismatch { extension: String, required: String, found: String },
    // Concurrency errors (40xxx)
    LockTimeout { resource: String, timeout_ms: u64 },
    DeadlockDetected { context: String },
    // Refresh errors (54xxx)
    CascadeDepthExceeded { current_depth: usize, max_depth: usize },
    RefreshFailed { entity: String, pk_value: i64, reason: String },
    BatchTooLarge { size: usize, max_size: usize },
    // Graph and propagation errors
    DependencyCycle { entities: Vec<String> },
    PropagationDepthExceeded { max_depth: usize, processed: usize },
    // I/O and system errors (XX000; 22xxx for bad data and settings)
    CatalogError { operation: String, pg_error: String },
    SpiError { query: String, error: String },
    SerializationError { message: String },
    ConfigError { setting: String, value: String, reason: String },
    InvalidInput { parameter: String, reason: String },
    CacheError { cache_name: String, reason: String },
    CallbackError { callback_name: String, error: String },
    MetricsError { operation: String, error: String },
    InternalError { message: String, file: &'static str, line: u32 },
}

/// Result type for TVIEW operations.
pub type TViewResult<T> = Result<T, TViewError>;

/// The SQLSTATE code PostgreSQL reports for an error.
pub open spec fn spec_sqlstate(e: TViewError) -> Seq<char> {
    match e {
        TViewError::MetadataNotFound { .. } => "P0001"@,
        TViewError::TViewAlreadyExists { .. } => "42710"@,
        TViewError::InvalidTViewName { .. } => "42602"@,
        TViewError::CircularDependency { .. } => "55P03"@,
        TViewError::DependencyDepthExceeded { .. } => "54001"@,
        TViewError::DependencyResolutionFailed { .. } => "55000"@,
        TViewError::InvalidSelectStatement { .. } => "42601"@,
        TViewError::RequiredColumnMissing { .. } => "42703"@,
        TViewError::TypeInferenceFailed { .. } => "42804"@,
        TViewError::JsonbIvmNotInstalled => "58P01"@,
        TViewError::ExtensionVersionMismatch { .. } => "58P01"@,
        TViewError::LockTimeout { .. } => "40P01"@,
        TViewError::DeadlockDetected { .. } => "40P01"@,
        TViewError::CascadeDepthExceeded { .. } => "54001"@,
        TViewError::RefreshFailed { .. } => "XX000"@,
        TViewError::BatchTooLarge { .. } => "54000"@,
        TViewError::DependencyCycle { .. } => "55P03"@,
        TViewError::PropagationDepthExceeded { .. } => "54001"@,
        TViewError::CatalogError { .. } => "XX000"@,
        TViewError::SpiError { .. } => "XX000"@,
        TViewError::SerializationError { .. } => "22P02"@,
        TViewError::ConfigError { .. } => "22023"@,
        TViewError::InvalidInput { .. } => "22023"@,
        TViewError::CacheError { .. } => "XX000"@,
        TViewError::CallbackError { .. } => "XX000"@,
        TViewError::MetricsError { .. } => "XX000"@,
        TViewError::InternalError { .. } => "XX000"@,
    }
}

/// The elements of `parts` joined by `sep`.
pub open spec fn join_seq(parts: Seq<Seq<char>>, sep: Seq<char>) -> Seq<char>
    decreases parts.len(),
{
    if parts.len() == 0 {
        Seq::empty()
    } else if parts.len() == 1 {
        parts[0]
    } else {
        join_seq(parts.drop_last(), sep) + sep + parts.last()
    }
}

pub open spec fn views_of(v: Seq<String>) -> Seq<Seq<char>> {
    Seq::new(v.len(), |i: int| v[i]@)
}

/// A text shown in a message: longer than 100 bytes ⇒ its first 100 bytes.
pub open spec fn shown_prefix(s: Seq<char>) -> Seq<char> {
    if encode_utf8(s).len() > 100 {
        decode_utf8(encode_utf8(s).subrange(0, 100))
    } else {
        s
    }
}

/// A text can be cut to its first 100 bytes (byte 100 starts a character).
pub open spec fn cuttable(s: Seq<char>) -> bool {
    encode_utf8(s).len() > 100 ==> is_char_boundary(encode_utf8(s), 100)
}

pub open spec fn nat_text(n: int) -> Seq<char> {
    decimal(n as nat)
}

/// The human-readable message of an error.
pub open spec fn spec_message(e: TViewError) -> Seq<char> {
    match e {
        TViewError::MetadataNotFound { entity } =>
            "TVIEW metadata not found for entity '"@ + entity@ + "'"@,
        TViewError::TViewAlreadyExists { name } => "TVIEW '"@ + name@ + "' already exists"@,
        TViewError::InvalidTViewName { name, reason } =>
            "Invalid TVIEW name '"@ + name@ + "': "@ + reason@,
        TViewError::CircularDependency { cycle } =>
            "Circular dependency detected: "@ + join_seq(views_of(cycle@), " → "@),
        TViewError::DependencyDepthExceeded { depth, max_depth } =>
            "Dependency depth "@ + nat_text(depth as int) + " exceeds maximum "@ + nat_text(
                max_depth as int,
            ),
        TViewError::DependencyResolutionFailed { view_name, reason } =>
            "Failed to resolve dependencies for '"@ + view_name@ + "': "@ + reason@,
        TViewError::InvalidSelectStatement { sql, reason } =>
            "Invalid SELECT statement: "@ + reason@ + "\nSQL: "@ + shown_prefix(sql@),
        TViewError::RequiredColumnMissing { column_name, context } =>
            "Required column '"@ + column_name@ + "' missing in "@ + context@,
        TViewError::TypeInferenceFailed { column_name, reason } =>
            "Failed to infer type for column '"@ + column_name@ + "': "@ + reason@,
        TViewError::JsonbIvmNotInstalled =>
            "Required extension 'jsonb_ivm' is not installed. Run: CREATE EXTENSION jsonb_ivm;"@,
        TViewError::ExtensionVersionMismatch { extension, required, found } =>
            "Extension '"@ + extension@ + "' version mismatch: required "@ + required@
                + ", found "@ + found@,
        TViewError::LockTimeout { resource, timeout_ms } =>
            "Lock timeout on resource '"@ + resource@ + "' after "@ + nat_text(timeout_ms as int)
                + "ms"@,
        TViewError::DeadlockDetected { context } => "Deadlock detected in "@ + context@,
        TViewError::CascadeDepthExceeded { current_depth, max_depth } =>
            "Cascade depth "@ + nat_text(current_depth as int) + " exceeds maximum "@ + nat_text(
                max_depth as int,
            ) + ". Possible infinite cascade loop."@,
        TViewError::RefreshFailed { entity, pk_value, reason } =>
            "Failed to refresh TVIEW '"@ + entity@ + "' row "@ + decimal_int(pk_value as int)
                + ": "@ + reason@,
        TViewError::BatchTooLarge { size, max_size } =>
            "Batch size "@ + nat_text(size as int) + " exceeds maximum "@ + nat_text(
                max_size as int,
            ),
        TViewError::DependencyCycle { entities } =>
            "Dependency cycle detected in entity graph: "@ + join_seq(
                views_of(entities@),
                " -> "@,
            ),
        TViewError::PropagationDepthExceeded { max_depth, processed } =>
            "Propagation exceeded maximum depth of "@ + nat_text(max_depth as int)
                + " iterations ("@ + nat_text(processed as int)
                + " entities processed). Possible infinite loop or extremely deep dependency chain."@,
        TViewError::CatalogError { operation, pg_error } =>
            "Catalog operation '"@ + operation@ + "' failed: "@ + pg_error@,
        TViewError::SpiError { query, error } =>
            "SPI query failed: "@ + error@ + "\nQuery: "@ + shown_prefix(query@),
        TViewError::SerializationError { message } => "Serialization error: "@ + message@,
        TViewError::ConfigError { setting, value, reason } =>
            "Configuration error for '"@ + setting@ + "': "@ + reason@ + " (value: "@ + value@
                + ")"@,
        TViewError::InvalidInput { parameter, reason } =>
            "Invalid input for '"@ + parameter@ + "': "@ + reason@,
        TViewError::CacheError { cache_name, reason } =>
            "Cache '"@ + cache_name@ + "' error: "@ + reason@,
        TViewError::CallbackError { callback_name, error } =>
            "FFI callback '"@ + callback_name@ + "' failed: "@ + error@,
        TViewError::MetricsError { operation, error } =>
            "Metrics operation '"@ + operation@ + "' failed: "@ + error@,
        TViewError::InternalError { message, file, line } =>
            "Internal error at "@ + file@ + ":"@ + nat_text(line as int) + ": "@ + message@
                + "\nPlease report this bug."@,
    }
}

/// Every text that the message shows cut to 100 bytes can be cut there.
pub open spec fn message_printable(e: TViewError) -> bool {
    match e {
        TViewError::InvalidSelectStatement { sql, .. } => cuttable(sql@),
        TViewError::SpiError { query, .. } => cuttable(query@),
        _ => true,
    }
}

fn append_join(out: &mut String, parts: &Vec<String>, sep: &str)
    ensures
        final(out)@ == old(out)@ + join_seq(views_of(parts@), sep@),
{
    let ghost start = out@;
    let mut i: usize = 0;
    while i < parts.len()
        invariant
            i <= parts.len(),
            out@ == start + join_seq(views_of(parts@.take(i as int)), sep@),
        decreases parts.len() - i,
    {
        proof {
            assert(views_of(parts@.take(i + 1)).drop_last() =~= views_of(parts@.take(i as int)));
        }
        if i > 0 {
            out.append(sep);
        }
        out.append(parts[i].as_str());
        proof {
            if i == 0 {
                assert(views_of(parts@.take(1)).len() == 1);
            }
        }
        i += 1;
    }
    assert(parts@.take(parts.len() as int) =~= parts@);
}

fn append_shown(out: &mut String, s: &String)
    requires
        cuttable(s@),
    ensures
        final(out)@ == old(out)@ + shown_prefix(s@),
{
    let t: &str = s.as_str();
    let nbytes = t.as_bytes().len();
    if nbytes > 100 {
        proof {
            assert(t.spec_bytes() == encode_utf8(s@));
        }
        let (head, _tail) = t.split_at(100);
        proof {
            encode_utf8_decode_utf8(head@);
            assert(head.spec_bytes() == encode_utf8(head@));
            assert(head.spec_bytes() == encode_utf8(s@).subrange(0, 100));
            assert(shown_prefix(s@) == head@);
        }
        out.append(head);
    } else {
        proof {
            assert(t.spec_bytes() == encode_utf8(s@));
            assert(shown_prefix(s@) == s@);
        }
        out.append(t);
    }
}

/// Whether `s` can be cut to its first 100 bytes.
fn is_cuttable(s: &String) -> (r: bool)
    ensures
        r == cuttable(s@),
{
    let t: &str = s.as_str();
    proof {
        assert(t.spec_bytes() == encode_utf8(s@));
    }
    t.as_bytes().len() <= 100 || t.is_char_boundary(100)
}

fn append_nat(out: &mut String, n: u64)
    ensures
        final(out)@ == old(out)@ + nat_text(n as int),
{
    let d = decimal_string(n);
    out.append(d.as_str());
}

impl TViewError {
    /// The SQLSTATE code reported to PostgreSQL for this error.
    pub fn sqlstate(&self) -> (r: &'static str)
        ensures
            r@ == spec_sqlstate(*self),
    {
        match self {
            TViewError::MetadataNotFound { .. } => "P0001",
            TViewError::TViewAlreadyExists { .. } => "42710",
            TViewError::InvalidTViewName { .. } => "42602",
            TViewError::CircularDependency { .. } => "55P03",
            TViewError::DependencyDepthExceeded { .. } => "54001",
            TViewError::DependencyResolutionFailed { .. } => "55000",
            TViewError::InvalidSelectStatement { .. } => "42601",
            TViewError::RequiredColumnMissing { .. } => "42703",
            TViewError::TypeInferenceFailed { .. } => "42804",
            TViewError::JsonbIvmNotInstalled => "58P01",
            TViewError::ExtensionVersionMismatch { .. } => "58P01",
            TViewError::LockTimeout { .. } => "40P01",
            TViewError::DeadlockDetected { .. } => "40P01",
            TViewError::CascadeDepthExceeded { .. } => "54001",
            TViewError::RefreshFailed { .. } => "XX000",
            TViewError::BatchTooLarge { .. } => "54000",
            TViewError::DependencyCycle { .. } => "55P03",
            TViewError::PropagationDepthExceeded { .. } => "54001",
            TViewError::CatalogError { .. } => "XX000",
            TViewError::SpiError { .. } => "XX000",
            TViewError::SerializationError { .. } => "22P02",
            TViewError::ConfigError { .. } => "22023",
            TViewError::InvalidInput { .. } => "22023",
            TViewError::CacheError { .. } => "XX000",
            TViewError::CallbackError { .. } => "XX000",
            TViewError::MetricsError { .. } => "XX000",
            TViewError::InternalError { .. } => "XX000",
        }
    }

    /// An internal error carrying the place where it was raised.
    pub fn internal(message: String, file: &'static str, line: u32) -> (r: Self)
        ensures
            r == (TViewError::InternalError { message, file, line }),
    {
        TViewError::InternalError { message, file, line }
    }

    /// Whether [`TViewError::message`] can render this error: the texts it
    /// shortens to 100 bytes must not have a character across that byte.
    pub fn is_printable(&self) -> (r: bool)
        ensures
            r == message_printable(*self),
    {
        match self {
            TViewError::InvalidSelectStatement { sql, .. } => is_cuttable(sql),
            TViewError::SpiError { query, .. } => is_cuttable(query),
            _ => true,
        }
    }

    /// The human-readable message of this error (what `Display` shows).
    pub fn message(&self) -> (r: String)
        requires
            message_printable(*self),
        ensures
            r@ == spec_message(*self),
    {
        let mut s = String::new();
        match self {
            TViewError::MetadataNotFound { entity } => {
                s.append("TVIEW metadata not found for entity '");
                s.append(entity.as_str());
                s.append("'");
            },
            TViewError::TViewAlreadyExists { name } => {
                s.append("TVIEW '");
                s.append(name.as_str());
                s.append("' already exists");
            },
            TViewError::InvalidTViewName { name, reason } => {
                s.append("Invalid TVIEW name '");
                s.append(name.as_str());
                s.append("': ");
                s.append(reason.as_str());
            },
            TViewError::CircularDependency { cycle } => {
                s.append("Circular dependency detected: ");
                append_join(&mut s, cycle, " → ");
            },
            TViewError::DependencyDepthExceeded { depth, max_depth } => {
                s.append("Dependency depth ");
                append_nat(&mut s, *depth as u64);
                s.append(" exceeds maximum ");
                append_nat(&mut s, *max_depth as u64);
            },
            TViewError::DependencyResolutionFailed { view_name, reason } => {
                s.append("Failed to resolve dependencies for '");
                s.append(view_name.as_str());
                s.append("': ");
                s.append(reason.as_str());
            },
            TViewError::InvalidSelectStatement { sql, reason } => {
                s.append("Invalid SELECT statement: ");
                s.append(reason.as_str());
                s.append("\nSQL: ");
                append_shown(&mut s, sql);
            },
            TViewError::RequiredColumnMissing { column_name, context } => {
                s.append("Required column '");
                s.append(column_name.as_str());
                s.append("' missing in ");
                s.append(context.as_str());
            },
            TViewError::TypeInferenceFailed { column_name, reason } => {
                s.append("Failed to infer type for column '");
                s.append(column_name.as_str());
                s.append("': ");
                s.append(reason.as_str());
            },
            TViewError::JsonbIvmNotInstalled => {
                s.append(
                    "Required extension 'jsonb_ivm' is not installed. Run: CREATE EXTENSION jsonb_ivm;",
                );
            },
            TViewError::ExtensionVersionMismatch { extension, required, found } => {
                s.append("Extension '");
                s.append(extension.as_str());
                s.append("' version mismatch: required ");
                s.append(required.as_str());
                s.append(", found ");
                s.append(found.as_str());
            },
            TViewError::LockTimeout { resource, timeout_ms } => {
                s.append("Lock timeout on resource '");
                s.append(resource.as_str());
                s.append("' after ");
                append_nat(&mut s, *timeout_ms);
                s.append("ms");
            },
            TViewError::DeadlockDetected { context } => {
                s.append("Deadlock detected in ");
                s.append(context.as_str());
            },
            TViewError::CascadeDepthExceeded { current_depth, max_depth } => {
                s.append("Cascade depth ");
                append_nat(&mut s, *current_depth as u64);
                s.append(" exceeds maximum ");
                append_nat(&mut s, *max_depth as u64);
                s.append(". Possible infinite cascade loop.");
            },
            TViewError::RefreshFailed { entity, pk_value, reason } => {
                s.append("Failed to refresh TVIEW '");
                s.append(entity.as_str());
                s.append("' row ");
                let d = decimal_string_i64(*pk_value);
                s.append(d.as_str());
                s.append(": ");
                s.append(reason.as_str());
            },
            TViewError::BatchTooLarge { size, max_size } => {
                s.append("Batch size ");
                append_nat(&mut s, *size as u64);
                s.append(" exceeds maximum ");
                append_nat(&mut s, *max_size as u64);
            },
            TViewError::DependencyCycle { entities } => {
                s.append("Dependency cycle detected in entity graph: ");
                append_join(&mut s, entities, " -> ");
            },
            TViewError::PropagationDepthExceeded { max_depth, processed } => {
                s.append("Propagation exceeded maximum depth of ");
                append_nat(&mut s, *max_depth as u64);
                s.append(" iterations (");
                append_nat(&mut s, *processed as u64);
                s.append(
                    " entities processed). Possible infinite loop or extremely deep dependency chain.",
                );
            },
            TViewError::CatalogError { operation, pg_error } => {
                s.append("Catalog operation '");
                s.append(operation.as_str());
                s.append("' failed: ");
                s.append(pg_error.as_str());
            },
            TViewError::SpiError { query, error } => {
                s.append("SPI query failed: ");
                s.append(error.as_str());
                s.append("\nQuery: ");
                append_shown(&mut s, query);
            },
            TViewError::SerializationError { message } => {
                s.append("Serialization error: ");
                s.append(message.as_str());
            },
            TViewError::ConfigError { setting, value, reason } => {
                s.append("Configuration error for '");
                s.append(setting.as_str());
                s.append("': ");
                s.append(reason.as_str());
                s.append(" (value: ");
                s.append(value.as_str());
                s.append(")");
            },
            TViewError::InvalidInput { parameter, reason } => {
                s.append("Invalid input for '");
                s.append(parameter.as_str());
                s.append("': ");
                s.append(reason.as_str());
            },
            TViewError::CacheError { cache_name, reason } => {
                s.append("Cache '");
                s.append(cache_name.as_str());
                s.append("' error: ");
                s.append(reason.as_str());
            },
            TViewError::CallbackError { callback_name, error } => {
                s.append("FFI callback '");
                s.append(callback_name.as_str());
                s.append("' failed: ");
                s.append(error.as_str());
            },
            TViewError::MetricsError { operation, error } => {
                s.append("Metrics operation '");
                s.append(operation.as_str());
                s.append("' failed: ");
                s.append(error.as_str());
            },
            TViewError::InternalError { message, file, line } => {
                s.append("Internal error at ");
                s.append(file);
                s.append(":");
                append_nat(&mut s, *line as u64);
                s.append(": ");
                s.append(message.as_str());
                s.append("\nPlease report this bug.");
            },
        }
        s
    }
}

} // verus!
