//! Refresh metrics: per-transaction counters, session-cumulative
//! direct-patch counters, and the statistics reported from them.
use vstd::prelude::*;
use crate::queue::key::RefreshKey;
use crate::queue::state::{key_views, RefreshQueue};

verus! {

#[verifier::external_type_specification]
#[verifier::external_body]
pub struct ExInstant(std::time::Instant);

/// The metrics of a session. The refresh and cache counters belong to the
/// current transaction and are reset at its end; the direct-patch counters
/// accumulate over the whole session.
#[derive(Debug, Clone, Copy)]
pub struct MetricsState {
    /// Refreshes processed in the current transaction.
    pub total_refreshes: u64,
    /// Propagation iterations in the current transaction.
    pub total_iterations: u64,
    /// Most iterations seen in one propagation chain.
    pub max_iterations: usize,
    /// Time spent refreshing, in nanoseconds.
    pub total_timing_ns: u128,
    pub graph_cache_hits: u64,
    pub graph_cache_misses: u64,
    pub table_cache_hits: u64,
    pub table_cache_misses: u64,
    pub prepared_stmt_cache_hits: u64,
    pub prepared_stmt_cache_misses: u64,
    pub bulk_refresh_count: u64,
    pub individual_refresh_count: u64,
    /// Eligible updates whose patch was captured by the row trigger.
    pub direct_patch_captured: u64,
    /// TVIEW rows updated directly by a patch.
    pub direct_patches_applied: u64,
    /// Patched keys that fell back to recompute.
    pub direct_patch_fallbacks: u64,
    /// TVIEW rows recomputed from the backing view.
    pub view_recomputes: u64,
}

/// The per-transaction counters are zero; the session counters are as in `m`.
pub open spec fn is_reset_of(r: MetricsState, m: MetricsState) -> bool {
    &&& r.total_refreshes == 0
    &&& r.total_iterations == 0
    &&& r.max_iterations == 0
    &&& r.total_timing_ns == 0
    &&& r.graph_cache_hits == 0
    &&& r.graph_cache_misses == 0
    &&& r.table_cache_hits == 0
    &&& r.table_cache_misses == 0
    &&& r.prepared_stmt_cache_hits == 0
    &&& r.prepared_stmt_cache_misses == 0
    &&& r.bulk_refresh_count == 0
    &&& r.individual_refresh_count == 0
    &&& r.direct_patch_captured == m.direct_patch_captured
    &&& r.direct_patches_applied == m.direct_patches_applied
    &&& r.direct_patch_fallbacks == m.direct_patch_fallbacks
    &&& r.view_recomputes == m.view_recomputes
}

impl MetricsState {
    /// Every counter zero.
    pub fn new() -> (m: Self)
        ensures
            is_reset_of(m, m),
            m.direct_patch_captured == 0,
            m.direct_patches_applied == 0,
            m.direct_patch_fallbacks == 0,
            m.view_recomputes == 0,
    {
        MetricsState {
            total_refreshes: 0,
            total_iterations: 0,
            max_iterations: 0,
            total_timing_ns: 0,
            graph_cache_hits: 0,
            graph_cache_misses: 0,
            table_cache_hits: 0,
            table_cache_misses: 0,
            prepared_stmt_cache_hits: 0,
            prepared_stmt_cache_misses: 0,
            bulk_refresh_count: 0,
            individual_refresh_count: 0,
            direct_patch_captured: 0,
            direct_patches_applied: 0,
            direct_patch_fallbacks: 0,
            view_recomputes: 0,
        }
    }
}

/// Timer for measuring a refresh operation.
pub struct RefreshTimer {
    start: std::time::Instant,
}

/// Reads the clock: `std::time::Instant::now`. Nothing is claimed of the
/// instant returned.
#[verifier::external_body]
fn instant_now() -> (t: std::time::Instant) {
    std::time::Instant::now()
}

/// The time since `t`: `std::time::Instant::elapsed`. It depends on the
/// clock, so nothing is claimed of it.
#[verifier::external_body]
fn elapsed_since(t: &std::time::Instant) -> (d: std::time::Duration) {
    t.elapsed()
}

/// A duration in whole nanoseconds: `std::time::Duration::as_nanos`. Nothing
/// is claimed of the number.
#[verifier::external_body]
fn duration_nanos(d: &std::time::Duration) -> (ns: u128) {
    d.as_nanos()
}

impl RefreshTimer {
    fn new() -> (t: Self) {
        RefreshTimer { start: instant_now() }
    }

    fn elapsed_ns(&self) -> (ns: u128) {
        duration_nanos(&elapsed_since(&self.start))
    }
}

/// Start timing a refresh operation.
pub fn record_refresh_start() -> (t: RefreshTimer) {
    RefreshTimer::new()
}

/// `m` after a refresh batch of `refresh_count` refreshes over
/// `iteration_count` iterations that took `elapsed_ns` nanoseconds.
pub open spec fn after_refresh(
    m: MetricsState,
    refresh_count: usize,
    iteration_count: usize,
    elapsed_ns: u128,
) -> MetricsState {
    MetricsState {
        total_refreshes: m.total_refreshes.wrapping_add(refresh_count as u64),
        total_iterations: m.total_iterations.wrapping_add(iteration_count as u64),
        max_iterations: if iteration_count > m.max_iterations {
            iteration_count
        } else {
            m.max_iterations
        },
        total_timing_ns: m.total_timing_ns.wrapping_add(elapsed_ns),
        ..m
    }
}

/// Add a finished refresh batch to the metrics, with its measured duration.
pub fn record_refresh_totals(
    m: &mut MetricsState,
    refresh_count: usize,
    iteration_count: usize,
    elapsed_ns: u128,
)
    ensures
        *final(m) == after_refresh(*old(m), refresh_count, iteration_count, elapsed_ns),
{
    m.total_refreshes = m.total_refreshes.wrapping_add(refresh_count as u64);
    m.total_iterations = m.total_iterations.wrapping_add(iteration_count as u64);
    if iteration_count > m.max_iterations {
        m.max_iterations = iteration_count;
    }
    m.total_timing_ns = m.total_timing_ns.wrapping_add(elapsed_ns);
}

/// Record completion of a refresh batch timed by `timer`. The duration added
/// is whatever the clock measured.
pub fn record_refresh_complete(
    m: &mut MetricsState,
    refresh_count: usize,
    iteration_count: usize,
    timer: &RefreshTimer,
)
    ensures
        exists|ns: u128| *final(m) == after_refresh(*old(m), refresh_count, iteration_count, ns),
{
    let ns = timer.elapsed_ns();
    record_refresh_totals(m, refresh_count, iteration_count, ns);
}

/// Record a graph cache hit.
pub fn record_graph_cache_hit(m: &mut MetricsState)
    ensures
        *final(m) == (MetricsState {
            graph_cache_hits: old(m).graph_cache_hits.wrapping_add(1),
            ..*old(m)
        }),
{
    m.graph_cache_hits = m.graph_cache_hits.wrapping_add(1);
}

/// Record a graph cache miss.
pub fn record_graph_cache_miss(m: &mut MetricsState)
    ensures
        *final(m) == (MetricsState {
            graph_cache_misses: old(m).graph_cache_misses.wrapping_add(1),
            ..*old(m)
        }),
{
    m.graph_cache_misses = m.graph_cache_misses.wrapping_add(1);
}

/// Record a table cache hit.
pub fn record_table_cache_hit(m: &mut MetricsState)
    ensures
        *final(m) == (MetricsState {
            table_cache_hits: old(m).table_cache_hits.wrapping_add(1),
            ..*old(m)
        }),
{
    m.table_cache_hits = m.table_cache_hits.wrapping_add(1);
}

/// Record a table cache miss.
pub fn record_table_cache_miss(m: &mut MetricsState)
    ensures
        *final(m) == (MetricsState {
            table_cache_misses: old(m).table_cache_misses.wrapping_add(1),
            ..*old(m)
        }),
{
    m.table_cache_misses = m.table_cache_misses.wrapping_add(1);
}

/// Record a prepared statement cache hit.
pub fn record_prepared_stmt_cache_hit(m: &mut MetricsState)
    ensures
        *final(m) == (MetricsState {
            prepared_stmt_cache_hits: old(m).prepared_stmt_cache_hits.wrapping_add(1),
            ..*old(m)
        }),
{
    m.prepared_stmt_cache_hits = m.prepared_stmt_cache_hits.wrapping_add(1);
}

/// Record a prepared statement cache miss.
pub fn record_prepared_stmt_cache_miss(m: &mut MetricsState)
    ensures
        *final(m) == (MetricsState {
            prepared_stmt_cache_misses: old(m).prepared_stmt_cache_misses.wrapping_add(1),
            ..*old(m)
        }),
{
    m.prepared_stmt_cache_misses = m.prepared_stmt_cache_misses.wrapping_add(1);
}

/// Record a bulk refresh of `count` rows.
pub fn record_bulk_refresh(m: &mut MetricsState, count: usize)
    ensures
        *final(m) == (MetricsState {
            bulk_refresh_count: old(m).bulk_refresh_count.wrapping_add(1),
            total_refreshes: old(m).total_refreshes.wrapping_add(count as u64),
            ..*old(m)
        }),
{
    m.bulk_refresh_count = m.bulk_refresh_count.wrapping_add(1);
    m.total_refreshes = m.total_refreshes.wrapping_add(count as u64);
}

/// Record a single-row refresh.
pub fn record_individual_refresh(m: &mut MetricsState)
    ensures
        *final(m) == (MetricsState {
            individual_refresh_count: old(m).individual_refresh_count.wrapping_add(1),
            total_refreshes: old(m).total_refreshes.wrapping_add(1),
            ..*old(m)
        }),
{
    m.individual_refresh_count = m.individual_refresh_count.wrapping_add(1);
    m.total_refreshes = m.total_refreshes.wrapping_add(1);
}

/// Record an eligible direct-patch capture.
pub fn record_direct_patch_captured(m: &mut MetricsState)
    ensures
        *final(m) == (MetricsState {
            direct_patch_captured: old(m).direct_patch_captured.wrapping_add(1),
            ..*old(m)
        }),
{
    m.direct_patch_captured = m.direct_patch_captured.wrapping_add(1);
}

/// Record `n` TVIEW rows updated directly by a patch.
pub fn record_direct_patches_applied(m: &mut MetricsState, n: u64)
    ensures
        *final(m) == (MetricsState {
            direct_patches_applied: old(m).direct_patches_applied.wrapping_add(n),
            ..*old(m)
        }),
{
    m.direct_patches_applied = m.direct_patches_applied.wrapping_add(n);
}

/// Record `n` patched keys that fell back to recompute.
pub fn record_direct_patch_fallbacks(m: &mut MetricsState, n: u64)
    ensures
        *final(m) == (MetricsState {
            direct_patch_fallbacks: old(m).direct_patch_fallbacks.wrapping_add(n),
            ..*old(m)
        }),
{
    m.direct_patch_fallbacks = m.direct_patch_fallbacks.wrapping_add(n);
}

/// Record `n` TVIEW rows recomputed from the backing view.
pub fn record_view_recomputes(m: &mut MetricsState, n: u64)
    ensures
        *final(m) == (MetricsState {
            view_recomputes: old(m).view_recomputes.wrapping_add(n),
            ..*old(m)
        }),
{
    m.view_recomputes = m.view_recomputes.wrapping_add(n);
}

/// Statistics reported by `pg_tviews_queue_stats()`.
#[derive(Debug, Clone)]
pub struct QueueStats {
    pub queue_size: usize,
    pub total_refreshes: u64,
    pub total_iterations: u64,
    pub max_iterations: usize,
    pub total_timing_ns: u128,
    pub graph_cache_hits: u64,
    pub graph_cache_misses: u64,
    pub table_cache_hits: u64,
    pub table_cache_misses: u64,
    pub prepared_stmt_cache_hits: u64,
    pub prepared_stmt_cache_misses: u64,
    pub bulk_refresh_count: u64,
    pub individual_refresh_count: u64,
    pub direct_patch_captured: u64,
    pub direct_patches_applied: u64,
    pub direct_patch_fallbacks: u64,
    pub view_recomputes: u64,
}

/// The statistics of metrics `m` and a queue holding `queue_size` keys.
pub open spec fn stats_of(m: MetricsState, queue_size: usize) -> QueueStats {
    QueueStats {
        queue_size,
        total_refreshes: m.total_refreshes,
        total_iterations: m.total_iterations,
        max_iterations: m.max_iterations,
        total_timing_ns: m.total_timing_ns,
        graph_cache_hits: m.graph_cache_hits,
        graph_cache_misses: m.graph_cache_misses,
        table_cache_hits: m.table_cache_hits,
        table_cache_misses: m.table_cache_misses,
        prepared_stmt_cache_hits: m.prepared_stmt_cache_hits,
        prepared_stmt_cache_misses: m.prepared_stmt_cache_misses,
        bulk_refresh_count: m.bulk_refresh_count,
        individual_refresh_count: m.individual_refresh_count,
        direct_patch_captured: m.direct_patch_captured,
        direct_patches_applied: m.direct_patches_applied,
        direct_patch_fallbacks: m.direct_patch_fallbacks,
        view_recomputes: m.view_recomputes,
    }
}

/// The current statistics: the metrics and the queue's size.
pub fn get_queue_stats(m: &MetricsState, queue: &RefreshQueue) -> (s: QueueStats)
    ensures
        s == stats_of(*m, queue@.len() as usize),
{
    QueueStats {
        queue_size: crate::queue::get_queue_size(queue),
        total_refreshes: m.total_refreshes,
        total_iterations: m.total_iterations,
        max_iterations: m.max_iterations,
        total_timing_ns: m.total_timing_ns,
        graph_cache_hits: m.graph_cache_hits,
        graph_cache_misses: m.graph_cache_misses,
        table_cache_hits: m.table_cache_hits,
        table_cache_misses: m.table_cache_misses,
        prepared_stmt_cache_hits: m.prepared_stmt_cache_hits,
        prepared_stmt_cache_misses: m.prepared_stmt_cache_misses,
        bulk_refresh_count: m.bulk_refresh_count,
        individual_refresh_count: m.individual_refresh_count,
        direct_patch_captured: m.direct_patch_captured,
        direct_patches_applied: m.direct_patches_applied,
        direct_patch_fallbacks: m.direct_patch_fallbacks,
        view_recomputes: m.view_recomputes,
    }
}

/// A copy of the queued keys, for debugging.
pub fn get_queue_contents(queue: &RefreshQueue) -> (v: Vec<RefreshKey>)
    ensures
        key_views(v@) == queue@,
{
    crate::queue::get_queue_contents(queue)
}

/// Reset the per-transaction counters; the session's direct-patch counters
/// are kept.
pub fn reset_metrics(m: &mut MetricsState)
    ensures
        is_reset_of(*final(m), *old(m)),
{
    let captured = m.direct_patch_captured;
    let applied = m.direct_patches_applied;
    let fallbacks = m.direct_patch_fallbacks;
    let recomputes = m.view_recomputes;
    *m = MetricsState::new();
    m.direct_patch_captured = captured;
    m.direct_patches_applied = applied;
    m.direct_patch_fallbacks = fallbacks;
    m.view_recomputes = recomputes;
}

} // verus!
