//! The health report: one row per component, with its status and severity.
use vstd::prelude::*;
use crate::text::{decimal_int, decimal_string_i64};

verus! {

/// A report row: `(status, component, message, severity)`.
pub type HealthRow = (String, String, String, String);

pub open spec fn row_view(r: HealthRow) -> (Seq<char>, Seq<char>, Seq<char>, Seq<char>) {
    (r.0@, r.1@, r.2@, r.3@)
}

/// The report, from what the catalog says: the extension's version, whether
/// `jsonb_delta` is installed, how many metadata rows name no table, how many
/// `tview_*` triggers sit on no registered base table, and how many TVIEWs
/// are registered.
pub open spec fn spec_health_report(version: Seq<char>, has_jsonb_delta: bool, orphaned_meta: i64, orphaned_triggers: i64, tview_count: i64) -> Seq<(Seq<char>, Seq<char>, Seq<char>, Seq<char>)> {
    seq![
        ("OK"@, "extension"@, "pg_tviews version "@ + version, "info"@),
        if has_jsonb_delta {
            ("OK"@, "jsonb_delta"@, "jsonb_delta extension available (optimized mode)"@, "info"@)
        } else {
            ("WARNING"@, "jsonb_delta"@, "jsonb_delta not installed (falling back to standard JSONB)"@, "warning"@)
        },
        if orphaned_meta > 0 {
            ("ERROR"@, "metadata"@, decimal_int(orphaned_meta as int) + " orphaned metadata entries found"@, "error"@)
        } else {
            ("OK"@, "metadata"@, "All metadata entries valid"@, "info"@)
        },
        if orphaned_triggers > 0 {
            ("WARNING"@, "triggers"@, decimal_int(orphaned_triggers as int) + " orphaned triggers found"@, "warning"@)
        } else {
            ("OK"@, "triggers"@, "All triggers properly linked"@, "info"@)
        },
        ("OK"@, "tviews"@, decimal_int(tview_count as int) + " TVIEWs registered"@, "info"@),
    ]
}

fn row(status: &str, component: &str, message: String, severity: &str) -> (r: HealthRow)
    ensures
        row_view(r) == (status@, component@, message@, severity@),
{
    (status.to_owned(), component.to_owned(), message, severity.to_owned())
}

fn counted(n: i64, suffix: &str) -> (r: String)
    ensures
        r@ == decimal_int(n as int) + suffix@,
{
    let mut r = decimal_string_i64(n);
    r.append(suffix);
    r
}

/// The health report (see [`spec_health_report`]).
pub fn health_report(version: &str, has_jsonb_delta: bool, orphaned_meta: i64, orphaned_triggers: i64, tview_count: i64) -> (r: Vec<HealthRow>)
    ensures
        r@.map_values(|x: HealthRow| row_view(x)) == spec_health_report(version@, has_jsonb_delta, orphaned_meta, orphaned_triggers, tview_count),
{
    let mut rows: Vec<HealthRow> = Vec::new();
    let mut m = "pg_tviews version ".to_owned();
    m.append(version);
    rows.push(row("OK", "extension", m, "info"));
    if has_jsonb_delta {
        rows.push(row("OK", "jsonb_delta", "jsonb_delta extension available (optimized mode)".to_owned(), "info"));
    } else {
        rows.push(row("WARNING", "jsonb_delta", "jsonb_delta not installed (falling back to standard JSONB)".to_owned(), "warning"));
    }
    if orphaned_meta > 0 {
        rows.push(row("ERROR", "metadata", counted(orphaned_meta, " orphaned metadata entries found"), "error"));
    } else {
        rows.push(row("OK", "metadata", "All metadata entries valid".to_owned(), "info"));
    }
    if orphaned_triggers > 0 {
        rows.push(row("WARNING", "triggers", counted(orphaned_triggers, " orphaned triggers found"), "warning"));
    } else {
        rows.push(row("OK", "triggers", "All triggers properly linked".to_owned(), "info"));
    }
    rows.push(row("OK", "tviews", counted(tview_count, " TVIEWs registered"), "info"));
    assert(rows@.map_values(|x: HealthRow| row_view(x)) =~= spec_health_report(version@, has_jsonb_delta, orphaned_meta, orphaned_triggers, tview_count));
    rows
}

/// The session's knowledge of whether `jsonb_delta` is installed: unknown
/// until checked, and forgotten when the extension is created or dropped.
pub struct JsonbDeltaLatch {
    pub checked: bool,
    pub available: bool,
}

impl JsonbDeltaLatch {
    pub fn new() -> (l: Self)
        ensures
            !l.checked && !l.available,
    {
        JsonbDeltaLatch { checked: false, available: false }
    }

    /// The remembered answer, if the catalog was asked since the last reset.
    pub fn cached(&self) -> (r: Option<bool>)
        ensures
            self.checked ==> r == Some(self.available),
            !self.checked ==> r is None,
    {
        if self.checked {
            Some(self.available)
        } else {
            None
        }
    }

    /// Remember the catalog's answer.
    pub fn record(&mut self, available: bool)
        ensures
            final(self).checked && final(self).available == available,
    {
        self.available = available;
        self.checked = true;
    }

    /// Forget the answer.
    pub fn invalidate(&mut self)
        ensures
            !final(self).checked && !final(self).available,
    {
        self.checked = false;
        self.available = false;
    }
}

} // verus!
