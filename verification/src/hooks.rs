//! What the `ProcessUtility` hook decides about a utility statement: flush
//! the queue before COMMIT, refuse PREPARE TRANSACTION with refreshes
//! pending, capture the SELECT of `CREATE TABLE tv_* AS`, and take over
//! `DROP TABLE tv_*`.
use vstd::prelude::*;
use crate::error::TViewError;

use crate::text::{chars_of, contains_exec, contains_seq, find_from, first_match_from, lower_seq, lower_vec, starts_with, starts_with_exec, subvec, trim_seq, trimmed, trim_end_char, trim_end_char_exec, trimmed_start_from, to_lowercase, unicode_lowercase};

verus! {

/// Transaction-control statements the hook tells apart.
#[derive(Debug, Clone, Copy, PartialEq, Eq)]
pub enum TxnStmtKind {
    Commit,
    Prepare,
    Other,
}

/// What the hook must do before anything else.
#[derive(Debug, Clone, PartialEq, Eq)]
pub enum PreAction {
    /// The hook is already running (DDL it issued itself): only pass through.
    PassThroughOnly,
    /// COMMIT: flush the refresh queue, then the audit buffer.
    FlushBeforeCommit,
    /// Raise this error.
    Refuse(String),
    /// Nothing special; go on to the statement.
    Continue,
}

pub open spec fn prepare_refusal() -> Seq<char> {
    "pg_tviews: PREPARE TRANSACTION is not supported when TVIEW refreshes are pending; commit or rollback first"@
}

/// The hook's first decision, from whether it is re-entered, the kind of
/// transaction statement (if the statement is one), and whether refreshes
/// are pending.
pub fn pre_action(in_progress: bool, txn: Option<TxnStmtKind>, queue_empty: bool) -> (a: PreAction)
    ensures
        in_progress ==> a == PreAction::PassThroughOnly,
        !in_progress && txn == Some(TxnStmtKind::Commit) ==> a == PreAction::FlushBeforeCommit,
        !in_progress && txn == Some(TxnStmtKind::Prepare) && !queue_empty ==> (a matches PreAction::Refuse(m) && m@ == prepare_refusal()),
        !in_progress && txn == Some(TxnStmtKind::Prepare) && queue_empty ==> a == PreAction::Continue,
        !in_progress && (txn is None || txn == Some(TxnStmtKind::Other)) ==> a == PreAction::Continue,
{
    if in_progress {
        return PreAction::PassThroughOnly;
    }
    match txn {
        Some(TxnStmtKind::Commit) => PreAction::FlushBeforeCommit,
        Some(TxnStmtKind::Prepare) => if !queue_empty {
            PreAction::Refuse("pg_tviews: PREPARE TRANSACTION is not supported when TVIEW refreshes are pending; commit or rollback first".to_owned())
        } else {
            PreAction::Continue
        },
        _ => PreAction::Continue,
    }
}

/// The statement kinds the hook handles.
#[derive(Debug, Clone, Copy, PartialEq, Eq)]
pub enum StmtKind {
    CreateTableAs,
    Drop,
    AlterTable,
    Other,
}

/// Where the hook sends a statement.
#[derive(Debug, Clone, Copy, PartialEq, Eq)]
pub enum Dispatch {
    /// Pass through; for extension DDL mentioning `jsonb_delta`, drop its
    /// cached availability first.
    PassThrough { invalidate_jsonb_delta: bool },
    HandleCreateTableAs,
    HandleDrop,
    HandleAlterTable,
}

/// Dispatch on the statement text (lowercased, Unicode-aware) and kind: extension DDL
/// passes through untouched; a missing statement passes through.
pub fn dispatch(query: &str, kind: Option<StmtKind>) -> (d: Dispatch)
    ensures
        ({
            let low = unicode_lowercase(query@);
            if contains_seq(low, "create extension"@) || contains_seq(low, "drop extension"@) {
                d == Dispatch::PassThrough { invalidate_jsonb_delta: contains_seq(low, "jsonb_delta"@) }
            } else {
                d == match kind {
                    Some(StmtKind::CreateTableAs) => Dispatch::HandleCreateTableAs,
                    Some(StmtKind::Drop) => Dispatch::HandleDrop,
                    Some(StmtKind::AlterTable) => Dispatch::HandleAlterTable,
                    _ => Dispatch::PassThrough { invalidate_jsonb_delta: false },
                }
            }
        }),
{
    let low = chars_of(to_lowercase(query).as_str());
    if contains_exec(&low, &chars_of("create extension")) || contains_exec(&low, &chars_of("drop extension")) {
        return Dispatch::PassThrough { invalidate_jsonb_delta: contains_exec(&low, &chars_of("jsonb_delta")) };
    }
    match kind {
        Some(StmtKind::CreateTableAs) => Dispatch::HandleCreateTableAs,
        Some(StmtKind::Drop) => Dispatch::HandleDrop,
        Some(StmtKind::AlterTable) => Dispatch::HandleAlterTable,
        _ => Dispatch::PassThrough { invalidate_jsonb_delta: false },
    }
}

/// The SELECT of `CREATE TABLE tv_<name> AS <select>`: what follows the
/// first `<name lowercased> as` in the lowercased statement, trimmed, without
/// trailing semicolons.
pub open spec fn spec_ctas_select(sql: Seq<char>, table: Seq<char>) -> Option<Seq<char>> {
    let pattern = lower_seq(table) + " as"@;
    match first_match_from(lower_seq(sql), pattern, 0) {
        None => None,
        Some(p) => Some(trim_seq(trim_end_char(trim_seq(sql.skip(p + pattern.len())), ';'))),
    }
}

/// A `CREATE TABLE tv_* AS` statement captured for the event trigger.
#[derive(Debug, Clone, PartialEq, Eq)]
pub struct CapturedCtas {
    pub table_name: String,
    /// The explicit schema; empty when the statement named none.
    pub schema_name: String,
    pub select_sql: String,
    /// Why the SELECT does not look like a TVIEW definition, if it does not
    /// (it is captured anyway; the conversion reports the real error).
    pub warning: Option<String>,
}

/// Capture `CREATE TABLE [schema.]tv_<entity> AS SELECT ...` (`sql`). Other
/// tables pass through (`Ok(None)`); `tv_` alone is not a TVIEW name.
pub fn capture_create_table_as(table_name: &str, schema_name: Option<&str>, sql: &str) -> (r: Result<Option<CapturedCtas>, TViewError>)
    ensures
        !starts_with(table_name@, "tv_"@) ==> r matches Ok(None),
        starts_with(table_name@, "tv_"@) && table_name@.len() == 3 ==> (r matches Err(TViewError::InvalidTViewName { name, reason })
            && name@ == table_name@ && reason@ == "must be tv_<entity>"@),
        starts_with(table_name@, "tv_"@) && table_name@.len() > 3 ==> match spec_ctas_select(sql@, table_name@) {
            None => (r matches Err(TViewError::InvalidSelectStatement { sql: s, reason }) && s@ == sql@
                && reason@ == "Could not find '"@ + lower_seq(table_name@) + " as"@ + "' in query"@),
            Some(sel) => (r matches Ok(Some(c)) && c.table_name@ == table_name@ && c.select_sql@ == sel
                && c.schema_name@ == match schema_name {
                Some(s) => s@,
                None => Seq::empty(),
            } && match spec_validate_tview_select(sel) {
                None => c.warning is None,
                Some(w) => c.warning matches Some(x) && x@ == w,
            }),
        },
{
    proof {
        reveal_strlit("tv_");
    }
    let name = chars_of(table_name);
    if !starts_with_exec(&name, &chars_of("tv_")) {
        return Ok(None);
    }
    if name.len() == 3 {
        return Err(TViewError::InvalidTViewName { name: table_name.to_owned(), reason: "must be tv_<entity>".to_owned() });
    }
    let mut pattern_v = lower_vec(&name);
    pattern_v.push(' ');
    pattern_v.push('a');
    pattern_v.push('s');
    proof {
        reveal_strlit(" as");
        assert(pattern_v@ =~= lower_seq(table_name@) + " as"@);
    }
    let sql_v = chars_of(sql);
    let low = lower_vec(&sql_v);
    match find_from(&low, &pattern_v, 0) {
        None => {
            let mut reason = "Could not find '".to_owned();
            reason.append(crate::text::string_of(&pattern_v).as_str());
            reason.append("' in query");
            Err(TViewError::InvalidSelectStatement { sql: sql.to_owned(), reason })
        },
        Some(p) => {
            proof {
                crate::text::lemma_first_match_bounds(low@, pattern_v@, 0);
                assert(p + pattern_v.len() <= sql_v.len());
            }
            let start = p + pattern_v.len();
            let rest = subvec(&sql_v, start, sql_v.len());
            assert(rest@ =~= sql@.skip(start as int));
            let t1 = trimmed(&rest);
            let t2 = trim_end_char_exec(&t1, ';');
            let t3 = trimmed(&t2);
            let select_sql = crate::text::string_of(&t3);
            let warning = match validate_tview_select(select_sql.as_str()) {
                Ok(()) => None,
                Err(w) => Some(w),
            };
            let schema = match schema_name {
                Some(s) => s.to_owned(),
                None => String::new(),
            };
            Ok(Some(CapturedCtas { table_name: table_name.to_owned(), schema_name: schema, select_sql, warning }))
        },
    }
}

/// Text after the first `select`, without leading whitespace, starts with `*`.
pub open spec fn is_select_star(low: Seq<char>) -> bool {
    match first_match_from(low, "select"@, 0) {
        None => false,
        Some(p) => {
            let after = crate::text::trim_start_seq(low.skip(p + 6));
            after.len() > 0 && after[0] == '*'
        },
    }
}

/// Why `select_sql` does not look like a TVIEW definition (no `id` or no
/// `data` column), judged on its lowercased text (Unicode-aware); `SELECT *`
/// is not judged.
pub open spec fn spec_validate_tview_select(select_sql: Seq<char>) -> Option<Seq<char>> {
    let l = unicode_lowercase(select_sql);
    let has_id = contains_seq(l, " as id"@) || contains_seq(l, " id,"@) || contains_seq(l, " id "@)
        || contains_seq(l, ".id,"@) || contains_seq(l, ".id "@) || contains_seq(l, ".id\n"@)
        || contains_seq(l, ".id::"@);
    let has_data = contains_seq(l, "jsonb_build_object"@) || contains_seq(l, " as data"@)
        || contains_seq(l, " data,"@) || contains_seq(l, " data "@);
    if is_select_star(l) {
        None
    } else if !has_id {
        Some("Missing required 'id' column (UUID)"@)
    } else if !has_data {
        Some("Missing required 'data' column (JSONB)"@)
    } else {
        None
    }
}

fn has(l: &Vec<char>, lit: &str) -> (r: bool)
    ensures
        r == contains_seq(l@, lit@),
{
    contains_exec(l, &chars_of(lit))
}

/// Basic check that a TVIEW's SELECT has an `id` and a `data` column.
pub fn validate_tview_select(select_sql: &str) -> (r: Result<(), String>)
    ensures
        match spec_validate_tview_select(select_sql@) {
            None => r is Ok,
            Some(m) => r matches Err(e) && e@ == m,
        },
{
    let l = chars_of(to_lowercase(select_sql).as_str());
    let sel = chars_of("select");
    proof {
        reveal_strlit("select");
    }
    match find_from(&l, &sel, 0) {
        Some(p) => {
            proof {
                crate::text::lemma_first_match_bounds(l@, sel@, 0);
                assert(p + 6 <= l.len());
            }
            let after = trimmed_start_from(&l, p + 6);
            if after.len() > 0 && after[0] == '*' {
                return Ok(());
            }
        },
        None => {},
    }
    let has_id = has(&l, " as id") || has(&l, " id,") || has(&l, " id ") || has(&l, ".id,")
        || has(&l, ".id ") || has(&l, ".id\n") || has(&l, ".id::");
    if !has_id {
        return Err("Missing required 'id' column (UUID)".to_owned());
    }
    let has_data = has(&l, "jsonb_build_object") || has(&l, " as data") || has(&l, " data,") || has(&l, " data ");
    if !has_data {
        return Err("Missing required 'data' column (JSONB)".to_owned());
    }
    Ok(())
}

/// The objects of a `DROP TABLE`, sorted: the `tv_*` tables (with their
/// position in the statement) that the extension drops itself, and whether
/// any other object remains for the standard handler.
#[derive(Debug, Clone, PartialEq, Eq)]
pub struct DropPlan {
    pub tv_tables: Vec<(usize, String)>,
    pub has_non_tv: bool,
}

/// Whether an object (its unqualified name, `None` when unreadable) is a TVIEW table.
pub open spec fn is_tv_object(name: Option<Seq<char>>) -> bool {
    name matches Some(n) && starts_with(n, "tv_"@)
}

pub open spec fn opt_view(o: Option<String>) -> Option<Seq<char>> {
    match o {
        Some(s) => Some(s@),
        None => None,
    }
}

/// The `tv_*` objects among the first `n`, in order, with their positions.
pub open spec fn tv_objects(names: Seq<Option<Seq<char>>>, n: int) -> Seq<(int, Seq<char>)>
    decreases n,
{
    if n <= 0 {
        Seq::empty()
    } else {
        tv_objects(names, n - 1) + if is_tv_object(names[n - 1]) {
            seq![(n - 1, names[n - 1]->0)]
        } else {
            Seq::empty()
        }
    }
}

/// Sort the objects of a `DROP TABLE` by their unqualified names.
pub fn plan_drop(names: &Vec<Option<String>>) -> (r: DropPlan)
    ensures
        r.tv_tables@.map_values(|e: (usize, String)| (e.0 as int, e.1@)) == tv_objects(
            names@.map_values(|o: Option<String>| opt_view(o)),
            names@.len() as int,
        ),
        r.has_non_tv <==> exists|i: int| 0 <= i < names@.len() && !is_tv_object(#[trigger] opt_view(names@[i])),
{
    proof {
        reveal_strlit("tv_");
    }
    let ghost nv = names@.map_values(|o: Option<String>| opt_view(o));
    let tv = chars_of("tv_");
    let mut tv_tables: Vec<(usize, String)> = Vec::new();
    let mut has_non_tv = false;
    let mut i: usize = 0;
    while i < names.len()
        invariant
            i <= names@.len(),
            nv == names@.map_values(|o: Option<String>| opt_view(o)),
            tv@ == "tv_"@,
            tv_tables@.map_values(|e: (usize, String)| (e.0 as int, e.1@)) == tv_objects(nv, i as int),
            has_non_tv <==> exists|j: int| 0 <= j < i && !is_tv_object(#[trigger] opt_view(names@[j])),
        decreases names.len() - i,
    {
        let ghost before = tv_tables@.map_values(|e: (usize, String)| (e.0 as int, e.1@));
        assert(nv[i as int] == opt_view(names@[i as int]));
        let is_tv = match &names[i] {
            Some(n) => starts_with_exec(&chars_of(n.as_str()), &tv),
            None => false,
        };
        if is_tv {
            let n = names[i].clone().unwrap();
            tv_tables.push((i, n));
            assert(tv_tables@.map_values(|e: (usize, String)| (e.0 as int, e.1@)) =~= before + seq![(i as int, nv[i as int]->0)]);
        } else {
            has_non_tv = true;
            assert(tv_tables@.map_values(|e: (usize, String)| (e.0 as int, e.1@)) =~= before + Seq::<(int, Seq<char>)>::empty());
        }
        i += 1;
    }
    DropPlan { tv_tables, has_non_tv }
}

/// The statement that drops the plain table PostgreSQL created for a
/// `CREATE TABLE tv_* AS` whose conversion is done afterwards.
pub open spec fn spec_fallback_drop_sql(table_name: Seq<char>, schema_name: Seq<char>) -> Seq<char> {
    "DROP TABLE IF EXISTS "@ + if schema_name.len() == 0 {
        crate::sql::spec_quote_identifier(table_name)
    } else {
        crate::ddl::table::spec_qualified(schema_name, table_name)
    } + " CASCADE"@
}

/// `schema_name` is empty when the statement named none.
pub fn fallback_drop_sql(table_name: &str, schema_name: &str) -> (r: String)
    ensures
        r@ == spec_fallback_drop_sql(table_name@, schema_name@),
{
    let mut r = "DROP TABLE IF EXISTS ".to_owned();
    if schema_name.unicode_len() == 0 {
        r.append(crate::sql::quote_identifier(table_name).as_str());
    } else {
        r.append(crate::ddl::table::qualified(schema_name, table_name).as_str());
    }
    r.append(" CASCADE");
    r
}

/// The `CREATE TABLE tv_* AS` statements seen by the utility hook and not yet
/// converted: table name to `(schema name, SELECT)`; the schema is empty
/// when the statement named none.
pub struct PendingSelects {
    pub entries: Vec<(String, String, String)>,
}

pub type PendingView = Seq<(Seq<char>, (Seq<char>, Seq<char>))>;

pub open spec fn pending_view(e: Seq<(String, String, String)>) -> PendingView {
    e.map_values(|x: (String, String, String)| (x.0@, (x.1@, x.2@)))
}

impl PendingSelects {
    pub fn new() -> (p: Self)
        ensures
            pending_view(p.entries@) == Seq::<(Seq<char>, (Seq<char>, Seq<char>))>::empty(),
    {
        let p = PendingSelects { entries: Vec::new() };
        assert(pending_view(p.entries@) =~= Seq::<(Seq<char>, (Seq<char>, Seq<char>))>::empty());
        p
    }

    /// Remember the SELECT of a captured statement (a later one for the same
    /// table replaces it).
    pub fn store(&mut self, table_name: &str, schema_name: &str, select_sql: &str)
        ensures
            pending_view(final(self).entries@) == crate::queue::patch::assoc_put(
                pending_view(old(self).entries@), table_name@, (schema_name@, select_sql@)),
    {
        let ghost ev = pending_view(self.entries@);
        let ghost k = table_name@;
        let ghost v = (schema_name@, select_sql@);
        let mut i: usize = 0;
        while i < self.entries.len()
            invariant
                i <= self.entries@.len(),
                ev == pending_view(self.entries@),
                self.entries@ == old(self).entries@,
                k == table_name@,
                v == (schema_name@, select_sql@),
                crate::queue::patch::first_pos(ev, k, 0) == crate::queue::patch::first_pos(ev, k, i as int),
            decreases self.entries.len() - i,
        {
            if crate::text::str_eq(self.entries[i].0.as_str(), table_name) {
                proof {
                    crate::queue::patch::lemma_first_pos(ev, k, 0);
                }
                self.entries.set(i, (table_name.to_owned(), schema_name.to_owned(), select_sql.to_owned()));
                assert(pending_view(self.entries@) =~= ev.update(i as int, (k, v)));
                return;
            }
            i += 1;
        }
        self.entries.push((table_name.to_owned(), schema_name.to_owned(), select_sql.to_owned()));
        assert(pending_view(self.entries@) =~= ev.push((k, v)));
    }

    /// Take the pending `(schema name, SELECT)` of `table_name`, if any: the
    /// event trigger converts the table with it. The table is pending no more.
    pub fn take(&mut self, table_name: &str) -> (r: Option<(String, String)>)
        ensures
            match crate::queue::patch::assoc_get(pending_view(old(self).entries@), table_name@) {
                None => r is None,
                Some((sc, sel)) => r matches Some((a, b)) && a@ == sc && b@ == sel,
            },
            pending_view(final(self).entries@) == crate::queue::patch::assoc_remove(pending_view(old(self).entries@), table_name@),
    {
        let ghost ev = pending_view(self.entries@);
        let ghost k = table_name@;
        let mut found: Option<(String, String)> = None;
        let mut kept: Vec<(String, String, String)> = Vec::new();
        let mut i: usize = 0;
        assert(ev.take(0) =~= Seq::<(Seq<char>, (Seq<char>, Seq<char>))>::empty());
        proof {
            crate::queue::patch::lemma_first_pos(ev, k, 0);
        }
        while i < self.entries.len()
            invariant
                i <= self.entries@.len(),
                ev == pending_view(self.entries@),
                k == table_name@,
                pending_view(kept@) == crate::queue::patch::assoc_remove(ev.take(i as int), k),
                match found {
                    None => forall|j: int| 0 <= j < i ==> ev[j].0 != k,
                    Some((a, b)) => crate::queue::patch::first_pos(ev, k, 0) >= 0
                        && crate::queue::patch::first_pos(ev, k, 0) < i
                        && ev[crate::queue::patch::first_pos(ev, k, 0)].1 == (a@, b@),
                },
                crate::queue::patch::first_pos(ev, k, 0) == -1 || (0 <= crate::queue::patch::first_pos(ev, k, 0) < ev.len()
                    && ev[crate::queue::patch::first_pos(ev, k, 0)].0 == k),
                forall|j: int| 0 <= j < crate::queue::patch::first_pos(ev, k, 0) ==> ev[j].0 != k,
                crate::queue::patch::first_pos(ev, k, 0) == -1 ==> forall|j: int| 0 <= j < ev.len() ==> ev[j].0 != k,
            decreases self.entries.len() - i,
        {
            assert(ev.take(i + 1).drop_last() =~= ev.take(i as int));
            let ghost before = pending_view(kept@);
            assert(ev[i as int] == (self.entries@[i as int].0@, (self.entries@[i as int].1@, self.entries@[i as int].2@)));
            if crate::text::str_eq(self.entries[i].0.as_str(), table_name) {
                if found.is_none() {
                    assert(ev[i as int].0 == k);
                    assert(crate::queue::patch::first_pos(ev, k, 0) == i as int);
                    let a = self.entries[i].1.clone();
                    let b = self.entries[i].2.clone();
                    assert(ev[i as int].1 == (a@, b@));
                    found = Some((a, b));
                }
                assert(pending_view(kept@) =~= before + Seq::<(Seq<char>, (Seq<char>, Seq<char>))>::empty());
            } else {
                kept.push((self.entries[i].0.clone(), self.entries[i].1.clone(), self.entries[i].2.clone()));
                assert(pending_view(kept@) =~= before.push(ev[i as int]));
            }
            i += 1;
        }
        assert(ev.take(self.entries@.len() as int) =~= ev);
        self.entries = kept;
        found
    }

    /// Everything still pending, in the order it was first stored; nothing
    /// is pending afterwards.
    pub fn drain(&mut self) -> (r: Vec<(String, String, String)>)
        ensures
            r@ == old(self).entries@,
            final(self).entries@.len() == 0,
    {
        let mut out: Vec<(String, String, String)> = Vec::new();
        std::mem::swap(&mut out, &mut self.entries);
        out
    }
}

/// A deferred initial fill of a TVIEW's table from its backing view.
#[derive(Debug, Clone, PartialEq, Eq)]
pub struct PendingPopulate {
    pub tv_table_name: String,
    pub view_name: String,
    pub schema_name: String,
}

/// The fills deferred by the event trigger, run once the statement is done.
pub struct PendingPopulates {
    pub entries: Vec<PendingPopulate>,
}

impl PendingPopulates {
    pub fn new() -> (p: Self)
        ensures
            p.entries@.len() == 0,
    {
        PendingPopulates { entries: Vec::new() }
    }

    pub fn enqueue(&mut self, tv_table_name: &str, view_name: &str, schema_name: &str)
        ensures
            final(self).entries@.len() == old(self).entries@.len() + 1,
            final(self).entries@.drop_last() == old(self).entries@,
            final(self).entries@.last().tv_table_name@ == tv_table_name@,
            final(self).entries@.last().view_name@ == view_name@,
            final(self).entries@.last().schema_name@ == schema_name@,
    {
        self.entries.push(PendingPopulate {
            tv_table_name: tv_table_name.to_owned(),
            view_name: view_name.to_owned(),
            schema_name: schema_name.to_owned(),
        });
        assert(self.entries@.drop_last() =~= old(self).entries@);
    }

    /// Every deferred fill, in order; none is left.
    pub fn drain(&mut self) -> (r: Vec<PendingPopulate>)
        ensures
            r@ == old(self).entries@,
            final(self).entries@.len() == 0,
    {
        let mut out: Vec<PendingPopulate> = Vec::new();
        std::mem::swap(&mut out, &mut self.entries);
        out
    }
}

/// The schema a pending conversion targets: the one the statement named,
/// else (empty) the session's current schema.
pub fn schema_override(schema_name: &str) -> (r: Option<String>)
    ensures
        schema_name@.len() == 0 ==> r is None,
        schema_name@.len() > 0 ==> (r matches Some(s) && s@ == schema_name@),
{
    if schema_name.unicode_len() == 0 {
        None
    } else {
        Some(schema_name.to_owned())
    }
}

} // verus!
