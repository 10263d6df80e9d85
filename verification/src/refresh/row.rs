//! Refreshing one TVIEW row: the statements that recompute, patch, replace
//! or delete it, and the choice between a smart patch and a full replacement.
use vstd::prelude::*;
use crate::catalog::{DependencyDetail, DependencyType};
use crate::error::TViewError;
use crate::queue::state::string_seq;
use crate::sql::{join, join_with, quote_identifier, spec_quote_identifier};
use crate::text::{decimal_int, decimal_string_i64, str_eq};

verus! {

/// `c = EXCLUDED.c` for each column other than `skip`, then `updated_at = NOW()`.
pub open spec fn update_parts(cols: Seq<Seq<char>>, skip: Seq<char>) -> Seq<Seq<char>>
    decreases cols.len(),
{
    if cols.len() == 0 {
        seq!["updated_at = NOW()"@]
    } else {
        let rest = update_parts(cols.drop_first(), skip);
        if cols[0] == skip {
            rest
        } else {
            seq![cols[0] + " = EXCLUDED."@ + cols[0]] + rest
        }
    }
}

/// The column list and the `DO UPDATE SET` clause of an upsert keyed by `key_col`.
pub open spec fn spec_dml_components(cols: Seq<Seq<char>>, key_col: Seq<char>) -> (Seq<char>, Seq<char>) {
    (join_with(cols, ", "@), join_with(update_parts(cols, key_col), ", "@))
}

fn update_parts_exec(cols: &Vec<String>, skip: &str) -> (r: Vec<String>)
    ensures
        string_seq(r@) == update_parts(string_seq(cols@), skip@),
{
    let ghost cv = string_seq(cols@);
    let mut r: Vec<String> = Vec::new();
    r.push("updated_at = NOW()".to_owned());
    let mut i = cols.len();
    assert(cv.skip(i as int) =~= Seq::<Seq<char>>::empty());
    assert(string_seq(r@) =~= update_parts(cv.skip(i as int), skip@));
    while i > 0
        invariant
            i <= cols@.len(),
            cv == string_seq(cols@),
            string_seq(r@) == update_parts(cv.skip(i as int), skip@),
        decreases i,
    {
        i -= 1;
        assert(cv.skip(i as int).drop_first() =~= cv.skip(i + 1));
        let ghost before = string_seq(r@);
        if !str_eq(cols[i].as_str(), skip) {
            let mut p = cols[i].clone();
            p.append(" = EXCLUDED.");
            p.append(cols[i].as_str());
            r.insert(0, p);
            assert(string_seq(r@) =~= seq![cv[i as int] + " = EXCLUDED."@ + cv[i as int]] + before);
        }
    }
    assert(cv.skip(0) =~= cv);
    r
}

/// The column list and `DO UPDATE SET` clause for a DISTINCT ON upsert.
pub fn build_dedup_dml_components(col_names: &Vec<String>, key_col: &str) -> (r: (String, String))
    ensures
        r.0@ == spec_dml_components(string_seq(col_names@), key_col@).0,
        r.1@ == spec_dml_components(string_seq(col_names@), key_col@).1,
{
    let parts = update_parts_exec(col_names, key_col);
    (join(col_names, ", "), join(&parts, ", "))
}

pub open spec fn detail_view(d: DependencyDetail) -> (DependencyType, Option<Seq<Seq<char>>>) {
    (d.dep_type, match d.path {
        Some(p) => Some(string_seq(p@)),
        None => None,
    })
}

/// Each dependency wraps the expression in one patch call, in order: a
/// scalar one merges `$1` shallowly; a nested one with a path patches that
/// path; an array, or a nested one without a path, leaves it as it is.
pub open spec fn spec_smart_patch_expr(deps: Seq<(DependencyType, Option<Seq<Seq<char>>>)>, base: Seq<char>) -> Seq<char>
    decreases deps.len(),
{
    if deps.len() == 0 {
        base
    } else {
        let e = spec_smart_patch_expr(deps.drop_last(), base);
        let d = deps.last();
        match d.0 {
            DependencyType::NestedObject => match d.1 {
                Some(p) => "jsonb_smart_patch_nested("@ + e + ", $1::jsonb, ARRAY['"@ + join_with(p, ","@) + "'])"@,
                None => e,
            },
            DependencyType::Array => e,
            DependencyType::Scalar => "jsonb_smart_patch_scalar("@ + e + ", $1::jsonb)"@,
        }
    }
}

/// The patch expression for the dependencies, applied to `base_data_expr`.
pub fn build_smart_patch_expr(deps: &Vec<DependencyDetail>, base_data_expr: &str) -> (r: String)
    ensures
        r@ == spec_smart_patch_expr(deps@.map_values(|d: DependencyDetail| detail_view(d)), base_data_expr@),
{
    let ghost dv = deps@.map_values(|d: DependencyDetail| detail_view(d));
    let mut e = base_data_expr.to_owned();
    let mut i: usize = 0;
    assert(dv.take(0) =~= Seq::<(DependencyType, Option<Seq<Seq<char>>>)>::empty());
    while i < deps.len()
        invariant
            i <= deps@.len(),
            dv == deps@.map_values(|d: DependencyDetail| detail_view(d)),
            e@ == spec_smart_patch_expr(dv.take(i as int), base_data_expr@),
        decreases deps.len() - i,
    {
        assert(dv.take(i + 1).drop_last() =~= dv.take(i as int));
        assert(dv.take(i + 1).last() == detail_view(deps@[i as int]));
        match deps[i].dep_type {
            DependencyType::NestedObject => {
                match &deps[i].path {
                    Some(p) => {
                        let mut n = "jsonb_smart_patch_nested(".to_owned();
                        n.append(e.as_str());
                        n.append(", $1::jsonb, ARRAY['");
                        n.append(join(p, ",").as_str());
                        n.append("'])");
                        e = n;
                    },
                    None => {},
                }
            },
            DependencyType::Array => {},
            DependencyType::Scalar => {
                let mut n = "jsonb_smart_patch_scalar(".to_owned();
                n.append(e.as_str());
                n.append(", $1::jsonb)");
                e = n;
            },
        }
        i += 1;
    }
    assert(dv.take(deps@.len() as int) =~= dv);
    e
}

/// How a recomputed row is written back.
#[derive(Debug, Clone, Copy, PartialEq, Eq, Structural)]
pub enum PatchStrategy {
    /// Replace every column of the row.
    FullReplacement,
    /// Merge the recomputed document into the stored one.
    SmartPatch,
}

/// A smart patch only when `jsonb_delta` is installed and every dependency
/// is scalar (and there is at least one): a nested-object or array patch
/// would miss changes to the entity's own columns.
pub open spec fn spec_patch_strategy(delta_available: bool, deps: Seq<DependencyType>) -> PatchStrategy {
    if !delta_available || deps.len() == 0 || exists|i: int| 0 <= i < deps.len() && deps[i] != DependencyType::Scalar {
        PatchStrategy::FullReplacement
    } else {
        PatchStrategy::SmartPatch
    }
}

pub fn choose_patch_strategy(delta_available: bool, deps: &Vec<DependencyDetail>) -> (r: PatchStrategy)
    ensures
        r == spec_patch_strategy(delta_available, deps@.map_values(|d: DependencyDetail| d.dep_type)),
{
    let ghost tv = deps@.map_values(|d: DependencyDetail| d.dep_type);
    if !delta_available || deps.len() == 0 {
        return PatchStrategy::FullReplacement;
    }
    let mut i: usize = 0;
    while i < deps.len()
        invariant
            i <= deps@.len(),
            tv == deps@.map_values(|d: DependencyDetail| d.dep_type),
            forall|j: int| 0 <= j < i ==> tv[j] == DependencyType::Scalar,
        decreases deps.len() - i,
    {
        match deps[i].dep_type {
            DependencyType::Scalar => {},
            _ => {
                assert(tv[i as int] != DependencyType::Scalar);
                return PatchStrategy::FullReplacement;
            },
        }
        i += 1;
    }
    PatchStrategy::SmartPatch
}

/// `SELECT * FROM <view> WHERE pk_<entity> = $1`: the recomputed row.
pub open spec fn spec_recompute_sql(view_name: Seq<char>, entity: Seq<char>) -> Seq<char> {
    "SELECT * FROM "@ + view_name + " WHERE pk_"@ + entity + " = $1"@
}

pub fn recompute_sql(view_name: &str, entity: &str) -> (r: String)
    ensures
        r@ == spec_recompute_sql(view_name@, entity@),
{
    let mut r = "SELECT * FROM ".to_owned();
    r.append(view_name);
    r.append(" WHERE pk_");
    r.append(entity);
    r.append(" = $1");
    r
}

/// `DELETE FROM <tv> WHERE pk_<entity> = $1`: a row whose source is gone.
pub open spec fn spec_delete_row_sql(tv_name: Seq<char>, entity: Seq<char>) -> Seq<char> {
    "DELETE FROM "@ + tv_name + " WHERE pk_"@ + entity + " = $1"@
}

pub fn delete_row_sql(tv_name: &str, entity: &str) -> (r: String)
    ensures
        r@ == spec_delete_row_sql(tv_name@, entity@),
{
    let mut r = "DELETE FROM ".to_owned();
    r.append(tv_name);
    r.append(" WHERE pk_");
    r.append(entity);
    r.append(" = $1");
    r
}

/// The upsert that smart-patches a row (`$1` the recomputed document, `$2`
/// the primary key): the row is inserted from the view when it is new.
pub open spec fn spec_smart_patch_sql(tv_name: Seq<char>, view_name: Seq<char>, entity: Seq<char>, cols: Seq<Seq<char>>, patch: Seq<char>) -> Seq<char> {
    let cl = join_with(cols, ", "@);
    let pk = "pk_"@ + entity;
    "INSERT INTO "@ + tv_name + " ("@ + cl + ") SELECT "@ + cl + " FROM "@ + view_name + " WHERE "@ + pk
        + " = $2 ON CONFLICT ("@ + pk + ") DO UPDATE SET data = "@ + patch + ", updated_at = now()"@
}

/// The smart-patch upsert for `deps`; `None` when the view lists no column
/// (the row is then replaced in full).
pub fn smart_patch_sql(tv_name: &str, view_name: &str, entity: &str, col_names: &Vec<String>, deps: &Vec<DependencyDetail>) -> (r: Option<String>)
    ensures
        col_names@.len() == 0 ==> r is None,
        col_names@.len() > 0 ==> (r matches Some(s) && s@ == spec_smart_patch_sql(tv_name@, view_name@, entity@, string_seq(col_names@),
            spec_smart_patch_expr(deps@.map_values(|d: DependencyDetail| detail_view(d)), tv_name@ + ".data"@))),
{
    if col_names.len() == 0 {
        return None;
    }
    let mut base = tv_name.to_owned();
    base.append(".data");
    let patch = build_smart_patch_expr(deps, base.as_str());
    let cl = join(col_names, ", ");
    let mut r = "INSERT INTO ".to_owned();
    r.append(tv_name);
    r.append(" (");
    r.append(cl.as_str());
    r.append(") SELECT ");
    r.append(cl.as_str());
    r.append(" FROM ");
    r.append(view_name);
    let mut pk = "pk_".to_owned();
    pk.append(entity);
    r.append(" WHERE ");
    r.append(pk.as_str());
    r.append(" = $2 ON CONFLICT (");
    r.append(pk.as_str());
    r.append(") DO UPDATE SET data = ");
    r.append(patch.as_str());
    r.append(", updated_at = now()");
    Some(r)
}

/// The upsert that replaces a row in full (`$1` the primary key).
pub open spec fn spec_full_replacement_sql(tv_name: Seq<char>, view_name: Seq<char>, entity: Seq<char>, cols: Seq<Seq<char>>) -> Seq<char> {
    let pk = "pk_"@ + entity;
    let (cl, upd) = spec_dml_components(cols, pk);
    "INSERT INTO "@ + tv_name + " ("@ + cl + ") SELECT "@ + cl + " FROM "@ + view_name + " WHERE "@ + pk
        + " = $1 ON CONFLICT ("@ + pk + ") DO UPDATE SET "@ + upd
}

pub fn full_replacement_sql(tv_name: &str, view_name: &str, entity: &str, col_names: &Vec<String>) -> (r: String)
    ensures
        r@ == spec_full_replacement_sql(tv_name@, view_name@, entity@, string_seq(col_names@)),
{
    let mut pk = "pk_".to_owned();
    pk.append(entity);
    let (cl, upd) = build_dedup_dml_components(col_names, pk.as_str());
    let mut r = "INSERT INTO ".to_owned();
    r.append(tv_name);
    r.append(" (");
    r.append(cl.as_str());
    r.append(") SELECT ");
    r.append(cl.as_str());
    r.append(" FROM ");
    r.append(view_name);
    r.append(" WHERE ");
    r.append(pk.as_str());
    r.append(" = $1 ON CONFLICT (");
    r.append(pk.as_str());
    r.append(") DO UPDATE SET ");
    r.append(upd.as_str());
    r
}

/// The statements that refresh a DISTINCT ON group (`$1` the key as text):
/// count its rows in the view, delete its row when none is left, or upsert
/// the first one.
#[derive(Debug, Clone, PartialEq, Eq)]
pub struct DedupStatements {
    pub count_sql: String,
    pub delete_sql: String,
    pub upsert_sql: String,
}

/// The key column of a DISTINCT ON TVIEW: its first output key, else its
/// first source key.
pub open spec fn spec_dedup_key_column(output_keys: Seq<Seq<char>>, source_keys: Seq<Seq<char>>) -> Seq<char> {
    if output_keys.len() > 0 {
        output_keys[0]
    } else {
        source_keys[0]
    }
}

pub open spec fn spec_dedup_statements(tv_name: Seq<char>, view_name: Seq<char>, key_col: Seq<char>, cols: Seq<Seq<char>>) -> (Seq<char>, Seq<char>, Seq<char>) {
    let kq = spec_quote_identifier(key_col);
    let (cl, upd) = spec_dml_components(cols, key_col);
    ("SELECT COUNT(*) FROM "@ + view_name + " WHERE "@ + kq + "::text = $1"@,
     "DELETE FROM "@ + tv_name + " WHERE "@ + kq + "::text = $1"@,
     "INSERT INTO "@ + tv_name + " ("@ + cl + ") SELECT "@ + cl + " FROM "@ + view_name + " WHERE "@ + kq
        + "::text = $1 LIMIT 1 ON CONFLICT ("@ + kq + ") DO UPDATE SET "@ + upd)
}

/// The statements for a DISTINCT ON refresh; the TVIEW has at least one
/// source key.
pub fn dedup_statements(tv_name: &str, view_name: &str, output_keys: &Vec<String>, source_keys: &Vec<String>, col_names: &Vec<String>) -> (r: DedupStatements)
    requires
        source_keys@.len() > 0,
    ensures
        ({
            let (c, d, u) = spec_dedup_statements(tv_name@, view_name@,
                spec_dedup_key_column(string_seq(output_keys@), string_seq(source_keys@)), string_seq(col_names@));
            r.count_sql@ == c && r.delete_sql@ == d && r.upsert_sql@ == u
        }),
{
    let key_col: &String = if output_keys.len() > 0 {
        &output_keys[0]
    } else {
        &source_keys[0]
    };
    let kq = quote_identifier(key_col.as_str());
    let mut count_sql = "SELECT COUNT(*) FROM ".to_owned();
    count_sql.append(view_name);
    count_sql.append(" WHERE ");
    count_sql.append(kq.as_str());
    count_sql.append("::text = $1");
    let mut delete_sql = "DELETE FROM ".to_owned();
    delete_sql.append(tv_name);
    delete_sql.append(" WHERE ");
    delete_sql.append(kq.as_str());
    delete_sql.append("::text = $1");
    let (cl, upd) = build_dedup_dml_components(col_names, key_col.as_str());
    let mut upsert_sql = "INSERT INTO ".to_owned();
    upsert_sql.append(tv_name);
    upsert_sql.append(" (");
    upsert_sql.append(cl.as_str());
    upsert_sql.append(") SELECT ");
    upsert_sql.append(cl.as_str());
    upsert_sql.append(" FROM ");
    upsert_sql.append(view_name);
    upsert_sql.append(" WHERE ");
    upsert_sql.append(kq.as_str());
    upsert_sql.append("::text = $1 LIMIT 1 ON CONFLICT (");
    upsert_sql.append(kq.as_str());
    upsert_sql.append(") DO UPDATE SET ");
    upsert_sql.append(upd.as_str());
    DedupStatements { count_sql, delete_sql, upsert_sql }
}

/// The error of a UNION ALL TVIEW whose branches both yield the row.
pub open spec fn union_duplicate_message(entity: Seq<char>, pk: i64) -> Seq<char> {
    "TVIEW '"@ + entity + "': UNION ALL backing view returned multiple rows for pk="@ + decimal_int(pk as int)
        + ". Ensure UNION ALL branches are mutually exclusive, or set pg_tviews.union_duplicate_policy='first' to suppress this error."@
}

/// A recomputed row of a UNION ALL TVIEW that came back more than once:
/// with the policy `first` the first row is taken (`Ok(true)`: worth a
/// warning), with any other policy it is an error. `Ok(false)` otherwise.
pub fn check_union_duplicate(is_union: bool, more_rows: bool, policy: &str, entity: &str, pk: i64, query: &str) -> (r: Result<bool, TViewError>)
    ensures
        !(is_union && more_rows) ==> r == Ok::<bool, TViewError>(false),
        is_union && more_rows && policy@ == "first"@ ==> r == Ok::<bool, TViewError>(true),
        is_union && more_rows && policy@ != "first"@ ==> (r matches Err(TViewError::SpiError { query: q, error })
            && q@ == query@ && error@ == union_duplicate_message(entity@, pk)),
{
    if !(is_union && more_rows) {
        return Ok(false);
    }
    if str_eq(policy, "first") {
        return Ok(true);
    }
    let mut m = "TVIEW '".to_owned();
    m.append(entity);
    m.append("': UNION ALL backing view returned multiple rows for pk=");
    m.append(decimal_string_i64(pk).as_str());
    m.append(". Ensure UNION ALL branches are mutually exclusive, or set pg_tviews.union_duplicate_policy='first' to suppress this error.");
    Err(TViewError::SpiError { query: query.to_owned(), error: m })
}

} // verus!
