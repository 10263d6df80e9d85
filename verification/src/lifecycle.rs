//! Recovering an UNLOGGED TVIEW after a crash: PostgreSQL empties such a
//! table on crash recovery while its backing view still has rows.
use vstd::prelude::*;
use crate::sql::{quote_identifier, spec_quote_identifier};

verus! {

/// Whether `tv_<entity>` in the current schema is an UNLOGGED table
/// (parameter: the table's name).
pub const PERSISTENCE_QUERY: &'static str = "SELECT c.relpersistence = 'u'
         FROM pg_class c
         JOIN pg_namespace n ON c.relnamespace = n.oid
         WHERE c.relname = $1 AND n.nspname = current_schema() AND c.relkind = 'r'";

/// The full refresh that repopulates a truncated TVIEW (parameter: the entity).
pub const RECOVERY_REFRESH_SQL: &'static str = "SELECT pg_tviews_refresh($1)";

pub open spec fn spec_row_count_query(relation: Seq<char>) -> Seq<char> {
    "SELECT COUNT(*) FROM "@ + spec_quote_identifier(relation)
}

/// The query that counts the rows of `relation`.
pub fn row_count_query(relation: &str) -> (r: String)
    ensures
        r@ == spec_row_count_query(relation@),
{
    let mut r = "SELECT COUNT(*) FROM ".to_owned();
    r.append(quote_identifier(relation).as_str());
    r
}

/// The next step of a post-crash check: a count it still needs, or its
/// verdict (`true`: the table was truncated and must be refreshed).
#[derive(Debug, Clone, Copy, PartialEq, Eq)]
pub enum CrashProbe {
    CountTableRows,
    CountViewRows,
    Verdict(bool),
}

/// A table was truncated by crash recovery when it is UNLOGGED, empty, and
/// its backing view has rows; an unanswered question counts as "no" and an
/// unknown count as zero.
pub open spec fn spec_truncated_after_crash(unlogged: Option<bool>, table_rows: Option<i64>, view_rows: Option<i64>) -> bool {
    unlogged == Some(true) && !(table_rows.unwrap_or(0) > 0) && view_rows.unwrap_or(0) > 0
}

/// The step after the answers so far; a count is asked only when the earlier
/// answers leave the verdict open.
pub open spec fn spec_crash_probe(
    unlogged: Option<bool>,
    table_rows: Option<Option<i64>>,
    view_rows: Option<Option<i64>>,
) -> CrashProbe {
    if unlogged != Some(true) {
        CrashProbe::Verdict(false)
    } else {
        match table_rows {
            None => CrashProbe::CountTableRows,
            Some(t) => if t.unwrap_or(0) > 0 {
                CrashProbe::Verdict(false)
            } else {
                match view_rows {
                    None => CrashProbe::CountViewRows,
                    Some(v) => CrashProbe::Verdict(v.unwrap_or(0) > 0),
                }
            },
        }
    }
}

/// Decide the next step of a post-crash check from the answers gathered so
/// far: whether the table is UNLOGGED, then (if asked) its row count, then
/// (if asked) the backing view's row count. `None` in the outer option means
/// "not asked yet"; in the inner one, "the query gave no value".
pub fn crash_probe(
    unlogged: Option<bool>,
    table_rows: Option<Option<i64>>,
    view_rows: Option<Option<i64>>,
) -> (r: CrashProbe)
    ensures
        r == spec_crash_probe(unlogged, table_rows, view_rows),
{
    let is_unlogged = match unlogged {
        Some(u) => u,
        None => false,
    };
    if !is_unlogged {
        return CrashProbe::Verdict(false);
    }
    match table_rows {
        None => CrashProbe::CountTableRows,
        Some(t) => {
            let tc: i64 = match t {
                Some(n) => n,
                None => 0,
            };
            if tc > 0 {
                CrashProbe::Verdict(false)
            } else {
                match view_rows {
                    None => CrashProbe::CountViewRows,
                    Some(v) => {
                        let vc: i64 = match v {
                            Some(n) => n,
                            None => 0,
                        };
                        CrashProbe::Verdict(vc > 0)
                    },
                }
            }
        },
    }
}

/// Answering each count the probe asks for ends in the verdict of
/// [`spec_truncated_after_crash`]; the view is counted only for an empty
/// UNLOGGED table, and nothing is counted for a table that is not UNLOGGED.
pub proof fn law_crash_probe_verdict(unlogged: Option<bool>, table_rows: Option<i64>, view_rows: Option<i64>)
    ensures
        ({
            let first = spec_crash_probe(unlogged, None, None);
            let second = spec_crash_probe(unlogged, Some(table_rows), None);
            let last = spec_crash_probe(unlogged, Some(table_rows), Some(view_rows));
            &&& first is Verdict || first == CrashProbe::CountTableRows
            &&& second is Verdict || second == CrashProbe::CountViewRows
            &&& last == CrashProbe::Verdict(spec_truncated_after_crash(unlogged, table_rows, view_rows))
            &&& (first is Verdict ==> first == last)
            &&& (second is Verdict ==> second == last)
        }),
{
}

} // verus!
