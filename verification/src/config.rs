//! Runtime settings (`pg_tviews.*` GUCs): their defaults, bounds, and the
//! values the rest of the extension reads from them.
use vstd::prelude::*;

verus! {

/// Maximum depth for `pg_depend` traversal; the default of
/// `pg_tviews.max_dependency_depth`.
pub const MAX_DEPENDENCY_DEPTH: usize = 10;

/// Enable verbose dependency logging (for debugging).
pub const DEBUG_DEPENDENCIES: bool = false;

pub const MAX_PROPAGATION_DEPTH_MIN: i32 = 1;
pub const MAX_PROPAGATION_DEPTH_MAX: i32 = 10_000;
pub const MAX_QUEUE_SIZE_MIN: i32 = 1;
pub const MAX_QUEUE_SIZE_MAX: i32 = 1_000_000;
pub const MAX_DEPENDENCY_DEPTH_MIN: i32 = 1;
pub const MAX_DEPENDENCY_DEPTH_MAX: i32 = 100;
pub const BATCH_SIZE_MIN: i32 = 1;
pub const BATCH_SIZE_MAX: i32 = 1_000_000;
pub const CACHE_SIZE_MIN: i32 = 1;
pub const CACHE_SIZE_MAX: i32 = 10_000_000;

/// The raw values of the `pg_tviews.*` settings, as PostgreSQL holds them.
/// A string setting is `None` when unset or not valid UTF-8.
#[derive(Debug, Clone)]
pub struct GucSettings {
    pub max_propagation_depth: i32,
    pub graph_cache_enabled: bool,
    pub table_cache_enabled: bool,
    pub metrics_enabled: bool,
    pub log_level: Option<String>,
    pub union_duplicate_policy: Option<String>,
    pub max_queue_size: i32,
    pub audit_enabled: bool,
    pub unlogged_by_default: bool,
    pub suspend_triggers: bool,
    pub max_dependency_depth: i32,
    pub batch_size: i32,
    pub cache_size: i32,
}

/// `|x|` as a natural number.
pub open spec fn abs_nat(x: i32) -> nat {
    if x < 0 {
        (-(x as int)) as nat
    } else {
        x as nat
    }
}

/// The string setting's value, or `fallback` when it has none.
pub open spec fn string_or(o: Option<String>, fallback: Seq<char>) -> Seq<char> {
    match o {
        Some(s) => s@,
        None => fallback,
    }
}

fn unsigned_abs_usize(x: i32) -> (r: usize)
    ensures
        r as nat == abs_nat(x),
{
    if x < 0 {
        let m: i64 = -(x as i64);
        m as usize
    } else {
        x as usize
    }
}

fn string_or_exec(o: &Option<String>, fallback: &str) -> (r: String)
    ensures
        r@ == string_or(*o, fallback@),
{
    match o {
        Some(s) => s.clone(),
        None => fallback.to_owned(),
    }
}

impl GucSettings {
    /// The settings as registered, before any `SET`.
    pub fn defaults() -> (s: Self)
        ensures
            s.max_propagation_depth == 100,
            s.graph_cache_enabled,
            s.table_cache_enabled,
            !s.metrics_enabled,
            s.log_level matches Some(l) && l@ == "info"@,
            s.union_duplicate_policy matches Some(p) && p@ == "error"@,
            s.max_queue_size == 10_000,
            !s.audit_enabled,
            s.unlogged_by_default,
            !s.suspend_triggers,
            s.max_dependency_depth == MAX_DEPENDENCY_DEPTH,
            s.batch_size == 1_000,
            s.cache_size == 10_000,
    {
        GucSettings {
            max_propagation_depth: 100,
            graph_cache_enabled: true,
            table_cache_enabled: true,
            metrics_enabled: false,
            log_level: Some("info".to_owned()),
            union_duplicate_policy: Some("error".to_owned()),
            max_queue_size: 10_000,
            audit_enabled: false,
            unlogged_by_default: true,
            suspend_triggers: false,
            max_dependency_depth: 10,
            batch_size: 1_000,
            cache_size: 10_000,
        }
    }
}

/// Maximum propagation iteration depth: the setting's magnitude.
pub fn max_propagation_depth(s: &GucSettings) -> (r: usize)
    ensures
        r as nat == abs_nat(s.max_propagation_depth),
{
    unsigned_abs_usize(s.max_propagation_depth)
}

/// Whether dependency graphs are cached.
pub fn graph_cache_enabled(s: &GucSettings) -> (r: bool)
    ensures
        r == s.graph_cache_enabled,
{
    s.graph_cache_enabled
}

/// Whether table-to-entity mappings are cached.
pub fn table_cache_enabled(s: &GucSettings) -> (r: bool)
    ensures
        r == s.table_cache_enabled,
{
    s.table_cache_enabled
}

/// The log level; `info` when unset.
pub fn log_level(s: &GucSettings) -> (r: String)
    ensures
        r@ == string_or(s.log_level, "info"@),
{
    string_or_exec(&s.log_level, "info")
}

/// Whether refresh metrics are collected.
pub fn metrics_enabled(s: &GucSettings) -> (r: bool)
    ensures
        r == s.metrics_enabled,
{
    s.metrics_enabled
}

/// Policy for UNION ALL backing views returning several rows for one key
/// (`error` or `first`); `error` when unset.
pub fn union_duplicate_policy(s: &GucSettings) -> (r: String)
    ensures
        r@ == string_or(s.union_duplicate_policy, "error"@),
{
    string_or_exec(&s.union_duplicate_policy, "error")
}

/// Queue size at which enqueueing is refused: the setting's magnitude.
pub fn max_queue_size(s: &GucSettings) -> (r: usize)
    ensures
        r as nat == abs_nat(s.max_queue_size),
{
    unsigned_abs_usize(s.max_queue_size)
}

/// Whether operations are logged to the audit table.
pub fn audit_enabled(s: &GucSettings) -> (r: bool)
    ensures
        r == s.audit_enabled,
{
    s.audit_enabled
}

/// Whether new TVIEW tables are UNLOGGED.
pub fn unlogged_by_default(s: &GucSettings) -> (r: bool)
    ensures
        r == s.unlogged_by_default,
{
    s.unlogged_by_default
}

/// Whether trigger-based refresh is suspended.
pub fn suspend_triggers(s: &GucSettings) -> (r: bool)
    ensures
        r == s.suspend_triggers,
{
    s.suspend_triggers
}

/// Maximum `pg_depend` traversal depth: the setting's magnitude.
pub fn max_dependency_depth(s: &GucSettings) -> (r: usize)
    ensures
        r as nat == abs_nat(s.max_dependency_depth),
{
    unsigned_abs_usize(s.max_dependency_depth)
}

/// Primary keys per bulk-refresh statement: the setting's magnitude, at least 1.
pub fn batch_size(s: &GucSettings) -> (r: usize)
    ensures
        r as nat == if abs_nat(s.batch_size) == 0 { 1 } else { abs_nat(s.batch_size) },
{
    let n = unsigned_abs_usize(s.batch_size);
    if n == 0 {
        1
    } else {
        n
    }
}

/// Entries per in-memory cache: the setting's magnitude, at least 1.
pub fn cache_size(s: &GucSettings) -> (r: usize)
    ensures
        r as nat == if abs_nat(s.cache_size) == 0 { 1 } else { abs_nat(s.cache_size) },
{
    let n = unsigned_abs_usize(s.cache_size);
    if n == 0 {
        1
    } else {
        n
    }
}

} // verus!
