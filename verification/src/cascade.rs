//! Base-table changes routed to the TVIEW rows that show them.
use vstd::prelude::*;
use crate::queue::state::string_seq;
use crate::sql::{quote_identifier, spec_quote_identifier};
use crate::text::{chars_of, decimal, decimal_int, decimal_string, decimal_string_i64, starts_with, starts_with_exec, string_of_range};
use crate::error::TViewError;
use crate::sql::{join, join_with};

verus! {

/// One intermediate lookup of a cascade path:
/// `SELECT <carry_col> FROM <table_name> WHERE <lookup_col> = ANY($1)`.
#[derive(Debug, Clone, PartialEq, Eq)]
pub struct CascadeHop {
    pub table_oid: u32,
    pub table_name: String,
    pub lookup_col: String,
    pub carry_col: String,
}

/// How a change to `source_table` reaches the rows of `entity_name`: read
/// `initial_col` from the changed row, then follow the hops. An
/// unresolvable path means a full refresh.
#[derive(Debug, Clone, PartialEq, Eq)]
pub struct CascadePath {
    pub source_oid: u32,
    pub source_table: String,
    pub entity_name: String,
    pub initial_col: String,
    pub hops: Vec<CascadeHop>,
    pub unresolvable: bool,
}

/// `s` without any number of leading `p`s, as `str::trim_start_matches`.
pub open spec fn trim_start_all(s: Seq<char>, p: Seq<char>) -> Seq<char>
    decreases s.len(),
{
    if p.len() > 0 && starts_with(s, p) {
        trim_start_all(s.skip(p.len() as int), p)
    } else {
        s
    }
}

pub fn trim_start_all_exec(s: &str, p: &str) -> (r: String)
    ensures
        r@ == trim_start_all(s@, p@),
{
    let v = chars_of(s);
    let pv = chars_of(p);
    let mut i: usize = 0;
    assert(v@.skip(0) =~= v@);
    while pv.len() > 0 && i <= v.len() && starts_with_exec(&crate::text::subvec(&v, i, v.len()), &pv)
        invariant
            i <= v@.len(),
            pv@ == p@,
            trim_start_all(v@.skip(i as int), p@) == trim_start_all(s@, p@),
            v@ == s@,
        decreases v.len() - i,
    {
        assert(v@.skip(i as int).skip(pv@.len() as int) =~= v@.skip(i + pv@.len()));
        i += pv.len();
    }
    let r = string_of_range(&v, i, v.len());
    assert(r@ =~= v@.skip(i as int));
    r
}

/// Which rows of a TVIEW a base-table row affects, as catalog queries: the
/// first query, and the query to run instead when it finds nothing.
#[derive(Debug, Clone, PartialEq, Eq)]
pub struct AffectedRowsQuery {
    pub query: String,
    pub fallback: Option<String>,
}

/// The queries for the rows of `entity` (backing view `view_name`, foreign
/// keys `fks`) affected by row `base_pk` of `base_table`: the row itself when
/// the table is the entity's own `tb_<entity>`; the rows whose `fk_<base>`
/// is it when the TVIEW has that column; otherwise the entity keys the base
/// row carries, falling back to every row of `tv_<entity>`.
pub open spec fn spec_affected_rows_query(
    entity: Seq<char>,
    fks: Seq<Seq<char>>,
    view_name: Seq<char>,
    base_table: Seq<char>,
    base_pk: i64,
) -> (Seq<char>, Option<Seq<char>>) {
    let base_entity = trim_start_all(base_table, "tb_"@);
    let qpk = spec_quote_identifier("pk_"@ + entity);
    let qv = spec_quote_identifier(view_name);
    let pk = decimal_int(base_pk as int);
    if entity == base_entity {
        ("SELECT "@ + qpk + " FROM "@ + qv + " WHERE "@ + qpk + " = "@ + pk, None)
    } else if fks.contains("fk_"@ + base_entity) {
        ("SELECT "@ + qpk + " FROM "@ + qv + " WHERE "@ + spec_quote_identifier("fk_"@ + base_entity) + " = "@ + pk, None)
    } else {
        ("SELECT DISTINCT "@ + spec_quote_identifier("fk_"@ + entity) + " AS "@ + qpk + " FROM "@
            + spec_quote_identifier(base_table) + " WHERE "@ + spec_quote_identifier("pk_"@ + base_entity) + " = "@ + pk,
            Some("SELECT "@ + qpk + " FROM "@ + spec_quote_identifier("tv_"@ + entity)))
    }
}

fn prefixed(prefix: &str, s: &str) -> (r: String)
    ensures
        r@ == prefix@ + s@,
{
    let mut r = prefix.to_owned();
    r.append(s);
    r
}

fn contains_string(v: &Vec<String>, x: &String) -> (r: bool)
    ensures
        r == string_seq(v@).contains(x@),
{
    let mut i: usize = 0;
    while i < v.len()
        invariant
            i <= v@.len(),
            forall|j: int| 0 <= j < i ==> string_seq(v@)[j] != x@,
        decreases v.len() - i,
    {
        if v[i] == *x {
            assert(string_seq(v@)[i as int] == x@);
            return true;
        }
        i += 1;
    }
    false
}

/// The queries for the affected rows (see [`spec_affected_rows_query`]).
pub fn affected_rows_query(
    entity: &str,
    fk_columns: &Vec<String>,
    view_name: &str,
    base_table: &str,
    base_pk: i64,
) -> (r: AffectedRowsQuery)
    ensures
        ({
            let (q, f) = spec_affected_rows_query(entity@, string_seq(fk_columns@), view_name@, base_table@, base_pk);
            &&& r.query@ == q
            &&& match f {
                None => r.fallback is None,
                Some(fq) => r.fallback matches Some(x) && x@ == fq,
            }
        }),
{
    let base_entity = trim_start_all_exec(base_table, "tb_");
    let qpk = quote_identifier(prefixed("pk_", entity).as_str());
    let qv = quote_identifier(view_name);
    let pk = decimal_string_i64(base_pk);
    let fk = prefixed("fk_", base_entity.as_str());
    if crate::text::str_eq(entity, base_entity.as_str()) {
        let mut q = "SELECT ".to_owned();
        q.append(qpk.as_str());
        q.append(" FROM ");
        q.append(qv.as_str());
        q.append(" WHERE ");
        q.append(qpk.as_str());
        q.append(" = ");
        q.append(pk.as_str());
        AffectedRowsQuery { query: q, fallback: None }
    } else if contains_string(fk_columns, &fk) {
        let mut q = "SELECT ".to_owned();
        q.append(qpk.as_str());
        q.append(" FROM ");
        q.append(qv.as_str());
        q.append(" WHERE ");
        q.append(quote_identifier(fk.as_str()).as_str());
        q.append(" = ");
        q.append(pk.as_str());
        AffectedRowsQuery { query: q, fallback: None }
    } else {
        let mut q = "SELECT DISTINCT ".to_owned();
        q.append(quote_identifier(prefixed("fk_", entity).as_str()).as_str());
        q.append(" AS ");
        q.append(qpk.as_str());
        q.append(" FROM ");
        q.append(quote_identifier(base_table).as_str());
        q.append(" WHERE ");
        q.append(quote_identifier(prefixed("pk_", base_entity.as_str()).as_str()).as_str());
        q.append(" = ");
        q.append(pk.as_str());
        let mut f = "SELECT ".to_owned();
        f.append(qpk.as_str());
        f.append(" FROM ");
        f.append(quote_identifier(prefixed("tv_", entity).as_str()).as_str());
        AffectedRowsQuery { query: q, fallback: Some(f) }
    }
}

/// The catalog query for the TVIEWs with a cascade path from the table `oid`.
pub open spec fn spec_dependent_tviews_query(oid: nat) -> Seq<char> {
    DEPENDENT_HEAD@ + decimal(oid) + DEPENDENT_TAIL@
}

pub const DEPENDENT_HEAD: &'static str = "SELECT m.table_oid AS tview_oid, m.view_oid, m.entity, m.fk_columns, m.uuid_fk_columns, m.dependency_types, m.dependency_paths, m.array_match_keys, m.distinct_on_keys, m.is_union, m.cascade_paths FROM pg_tview_meta m WHERE ";

pub const DEPENDENT_TAIL: &'static str = " IN (\n             SELECT (cp::jsonb->>'source_oid')::oid\n             FROM unnest(m.cascade_paths) AS cp\n         )";

pub fn dependent_tviews_query(oid: u32) -> (r: String)
    ensures
        r@ == spec_dependent_tviews_query(oid as nat),
{
    let mut r = DEPENDENT_HEAD.to_owned();
    r.append(decimal_string(oid as u64).as_str());
    r.append(DEPENDENT_TAIL);
    r
}

/// One step of a join path back to a TVIEW's root table, as the definition's
/// JOIN tree gives it: look `lookup_col` up in `table_name`, carry `carry_col`.
#[derive(Debug, Clone, PartialEq, Eq)]
pub struct JoinStep {
    pub table_name: String,
    pub lookup_col: String,
    pub carry_col: String,
}

/// A join path from a joined table to the root table, by table names.
#[derive(Debug, Clone, PartialEq, Eq)]
pub struct JoinPath {
    pub source_table: String,
    pub initial_col: String,
    pub steps: Vec<JoinStep>,
    /// The root-table column the path arrives at.
    pub root_join_col: String,
}

pub type OidMap = Seq<(Seq<char>, u32)>;

pub open spec fn oid_map_view(m: Seq<(String, u32)>) -> OidMap {
    m.map_values(|p: (String, u32)| (p.0@, p.1))
}

/// The OID recorded for `name` (the last one recorded wins).
pub open spec fn oid_of(m: OidMap, name: Seq<char>) -> Option<u32>
    decreases m.len(),
{
    if m.len() == 0 {
        None
    } else if m.last().0 == name {
        Some(m.last().1)
    } else {
        oid_of(m.drop_last(), name)
    }
}

fn oid_of_exec(m: &Vec<(String, u32)>, name: &String) -> (r: Option<u32>)
    ensures
        r == oid_of(oid_map_view(m@), name@),
{
    let ghost mv = oid_map_view(m@);
    let mut i = m.len();
    assert(mv.take(i as int) =~= mv);
    while i > 0
        invariant
            i <= m@.len(),
            mv == oid_map_view(m@),
            oid_of(mv.take(i as int), name@) == oid_of(mv, name@),
        decreases i,
    {
        assert(mv.take(i as int).drop_last() =~= mv.take(i - 1));
        if m[i - 1].0 == *name {
            return Some(m[i - 1].1);
        }
        i -= 1;
    }
    None
}

pub type HopView = (u32, Seq<char>, Seq<char>, Seq<char>);

pub open spec fn hop_view(h: CascadeHop) -> HopView {
    (h.table_oid, h.table_name@, h.lookup_col@, h.carry_col@)
}

pub type StepView = (Seq<char>, Seq<char>, Seq<char>);

pub open spec fn step_view(s: JoinStep) -> StepView {
    (s.table_name@, s.lookup_col@, s.carry_col@)
}

/// The hops of the first `n` steps, or the first step whose table has no OID.
pub open spec fn resolve_steps(steps: Seq<StepView>, m: OidMap, n: int) -> Result<Seq<HopView>, Seq<char>>
    decreases n,
{
    if n <= 0 {
        Ok(Seq::empty())
    } else {
        match resolve_steps(steps, m, n - 1) {
            Err(t) => Err(t),
            Ok(hops) => match oid_of(m, steps[n - 1].0) {
                None => Err(steps[n - 1].0),
                Some(o) => Ok(hops.push((o, steps[n - 1].0, steps[n - 1].1, steps[n - 1].2))),
            },
        }
    }
}

/// A join path resolved to OIDs: `Err((operation, message))` names the
/// first table missing from the base tables. When the path does not arrive
/// at `pk_<entity>`, a last hop through `tb_<entity>` maps what it carries to
/// the entity's primary key.
pub open spec fn spec_resolve_join_path(
    source_table: Seq<char>,
    initial_col: Seq<char>,
    steps: Seq<StepView>,
    root_join_col: Seq<char>,
    entity: Seq<char>,
    m: OidMap,
) -> Result<(u32, Seq<HopView>), (Seq<char>, Seq<char>)> {
    match oid_of(m, source_table) {
        None => Err(("resolve cascade path"@, "Table '"@ + source_table + "' not found in base table dependencies"@)),
        Some(src) => match resolve_steps(steps, m, steps.len() as int) {
            Err(t) => Err(("resolve cascade path hop"@, "Intermediate table '"@ + t + "' not found in base table dependencies"@)),
            Ok(hops) => if root_join_col == "pk_"@ + entity {
                Ok((src, hops))
            } else {
                match oid_of(m, "tb_"@ + entity) {
                    None => Err(("resolve cascade path reverse-lookup hop"@, "Root table '"@ + "tb_"@ + entity
                        + "' not found in base table dependencies"@)),
                    Some(root) => Ok((src, hops.push((root, "tb_"@ + entity, root_join_col, "pk_"@ + entity)))),
                }
            },
        },
    }
}

fn quoted_error(op: &str, head: &str, name: &str) -> (r: TViewError)
    ensures
        r matches TViewError::CatalogError { operation, pg_error } && operation@ == op@
            && pg_error@ == head@ + name@ + "' not found in base table dependencies"@,
{
    let mut m = head.to_owned();
    m.append(name);
    m.append("' not found in base table dependencies");
    TViewError::CatalogError { operation: op.to_owned(), pg_error: m }
}

/// Resolve a join path of the TVIEW of `entity` to a cascade path, with the
/// base tables' OIDs by name (see [`spec_resolve_join_path`]).
pub fn resolve_join_path(jp: &JoinPath, entity: &str, oid_map: &Vec<(String, u32)>) -> (r: Result<CascadePath, TViewError>)
    ensures
        match spec_resolve_join_path(jp.source_table@, jp.initial_col@, jp.steps@.map_values(|s: JoinStep| step_view(s)),
            jp.root_join_col@, entity@, oid_map_view(oid_map@)) {
            Err((op, msg)) => r matches Err(TViewError::CatalogError { operation, pg_error }) && operation@ == op && pg_error@ == msg,
            Ok((src, hops)) => r matches Ok(p) && p.source_oid == src && p.source_table@ == jp.source_table@
                && p.entity_name@ == entity@ && p.initial_col@ == jp.initial_col@ && !p.unresolvable
                && p.hops@.map_values(|h: CascadeHop| hop_view(h)) == hops,
        },
{
    let ghost m = oid_map_view(oid_map@);
    let ghost sv = jp.steps@.map_values(|s: JoinStep| step_view(s));
    let source_oid = match oid_of_exec(oid_map, &jp.source_table) {
        Some(o) => o,
        None => {
            return Err(quoted_error("resolve cascade path", "Table '", jp.source_table.as_str()));
        },
    };
    let mut hops: Vec<CascadeHop> = Vec::new();
    let mut i: usize = 0;
    assert(hops@.map_values(|h: CascadeHop| hop_view(h)) =~= Seq::<HopView>::empty());
    while i < jp.steps.len()
        invariant
            i <= jp.steps@.len(),
            m == oid_map_view(oid_map@),
            sv == jp.steps@.map_values(|s: JoinStep| step_view(s)),
            oid_of(m, jp.source_table@) == Some(source_oid),
            resolve_steps(sv, m, i as int) == Ok::<Seq<HopView>, Seq<char>>(hops@.map_values(|h: CascadeHop| hop_view(h))),
        decreases jp.steps.len() - i,
    {
        let step = &jp.steps[i];
        assert(step_view(*step) == sv[i as int]);
        match oid_of_exec(oid_map, &step.table_name) {
            None => {
                proof {
                    assert(sv.len() == jp.steps@.len());
                    lemma_resolve_steps_stops(sv, m, i as int, jp.steps@.len() as int);
                    assert(oid_of(m, jp.source_table@) == Some(source_oid));
                }
                return Err(quoted_error("resolve cascade path hop", "Intermediate table '", step.table_name.as_str()));
            },
            Some(o) => {
                let ghost before = hops@.map_values(|h: CascadeHop| hop_view(h));
                hops.push(CascadeHop {
                    table_oid: o,
                    table_name: step.table_name.clone(),
                    lookup_col: step.lookup_col.clone(),
                    carry_col: step.carry_col.clone(),
                });
                assert(hops@.map_values(|h: CascadeHop| hop_view(h)) =~= before.push((o, sv[i as int].0, sv[i as int].1, sv[i as int].2)));
            },
        }
        i += 1;
    }
    let mut pk_col = "pk_".to_owned();
    pk_col.append(entity);
    if jp.root_join_col != pk_col {
        let mut root_table = "tb_".to_owned();
        root_table.append(entity);
        let root_oid = match oid_of_exec(oid_map, &root_table) {
            Some(o) => o,
            None => {
                let mut msg = "Root table '".to_owned();
                msg.append(root_table.as_str());
                msg.append("' not found in base table dependencies");
                return Err(TViewError::CatalogError { operation: "resolve cascade path reverse-lookup hop".to_owned(), pg_error: msg });
            },
        };
        let ghost before = hops@.map_values(|h: CascadeHop| hop_view(h));
        let ghost rt = root_table@;
        let ghost pc = pk_col@;
        hops.push(CascadeHop { table_oid: root_oid, table_name: root_table, lookup_col: jp.root_join_col.clone(), carry_col: pk_col });
        assert(hops@.map_values(|h: CascadeHop| hop_view(h)) =~= before.push((root_oid, rt, jp.root_join_col@, pc)));
    }
    Ok(CascadePath {
        source_oid,
        source_table: jp.source_table.clone(),
        entity_name: entity.to_owned(),
        initial_col: jp.initial_col.clone(),
        hops,
        unresolvable: false,
    })
}

/// Once a step's table is missing, every longer prefix fails on it.
proof fn lemma_resolve_steps_stops(steps: Seq<StepView>, m: OidMap, i: int, n: int)
    requires
        0 <= i < n <= steps.len(),
        resolve_steps(steps, m, i) is Ok,
        oid_of(m, steps[i].0) is None,
    ensures
        resolve_steps(steps, m, n) == Err::<Seq<HopView>, Seq<char>>(steps[i].0),
    decreases n - i,
{
    if n > i + 1 {
        lemma_resolve_steps_stops(steps, m, i, n - 1);
    }
}

/// A cascade path's content: source OID and table, entity, first column,
/// hops, and whether it is unresolvable.
pub open spec fn path_view(p: CascadePath) -> (u32, Seq<char>, Seq<char>, Seq<char>, Seq<HopView>, bool) {
    (p.source_oid, p.source_table@, p.entity_name@, p.initial_col@, p.hops@.map_values(|h: CascadeHop| hop_view(h)), p.unresolvable)
}

/// The cascade paths of the join paths that resolve (see
/// [`spec_resolve_join_path`]), in the order of the join paths.
pub open spec fn spec_resolved_paths(paths: Seq<JoinPath>, entity: Seq<char>, m: OidMap) -> Seq<
    (u32, Seq<char>, Seq<char>, Seq<char>, Seq<HopView>, bool),
>
    decreases paths.len(),
{
    if paths.len() == 0 {
        Seq::empty()
    } else {
        let r = spec_resolved_paths(paths.drop_last(), entity, m);
        let jp = paths.last();
        match spec_resolve_join_path(
            jp.source_table@,
            jp.initial_col@,
            jp.steps@.map_values(|s: JoinStep| step_view(s)),
            jp.root_join_col@,
            entity,
            m,
        ) {
            Ok((src, hops)) => r.push((src, jp.source_table@, entity, jp.initial_col@, hops, false)),
            Err(_) => r,
        }
    }
}

/// The cascade paths of the join paths that resolve, in order; the others
/// are left out (their changes do not refresh the TVIEW incrementally).
pub fn resolve_join_paths(paths: &Vec<JoinPath>, entity: &str, oid_map: &Vec<(String, u32)>) -> (r: Vec<CascadePath>)
    ensures
        r@.map_values(|p: CascadePath| path_view(p)) == spec_resolved_paths(paths@, entity@, oid_map_view(oid_map@)),
{
    let ghost m = oid_map_view(oid_map@);
    let mut out: Vec<CascadePath> = Vec::new();
    let mut i: usize = 0;
    while i < paths.len()
        invariant
            i <= paths@.len(),
            m == oid_map_view(oid_map@),
            out@.map_values(|p: CascadePath| path_view(p)) == spec_resolved_paths(paths@.take(i as int), entity@, m),
        decreases paths.len() - i,
    {
        assert(paths@.take(i + 1).drop_last() =~= paths@.take(i as int));
        assert(paths@.take(i + 1).last() == paths@[i as int]);
        let ghost before = out@.map_values(|p: CascadePath| path_view(p));
        match resolve_join_path(&paths[i], entity, oid_map) {
            Ok(p) => {
                out.push(p);
                assert(out@.map_values(|p: CascadePath| path_view(p)) =~= before.push(path_view(p)));
            },
            Err(_) => {},
        }
        i += 1;
    }
    assert(paths@.take(paths@.len() as int) =~= paths@);
    out
}

/// `SELECT oid, relname::text FROM pg_class WHERE oid IN (<oids>)`; `None`
/// when there is no OID to look up.
pub open spec fn spec_oid_names_query(oids: Seq<u32>) -> Option<Seq<char>> {
    if oids.len() == 0 {
        None
    } else {
        Some("SELECT oid, relname::text FROM pg_class WHERE oid IN ("@ + join_with(oids.map_values(|o: u32| decimal(o as nat)), ","@) + ")"@)
    }
}

pub fn oid_names_query(oids: &Vec<u32>) -> (r: Option<String>)
    ensures
        match spec_oid_names_query(oids@) {
            None => r is None,
            Some(q) => r matches Some(x) && x@ == q,
        },
{
    if oids.len() == 0 {
        return None;
    }
    let mut parts: Vec<String> = Vec::new();
    let mut i: usize = 0;
    while i < oids.len()
        invariant
            i <= oids@.len(),
            crate::queue::state::string_seq(parts@) == oids@.take(i as int).map_values(|o: u32| decimal(o as nat)),
        decreases oids.len() - i,
    {
        let ghost before = crate::queue::state::string_seq(parts@);
        parts.push(decimal_string(oids[i] as u64));
        assert(oids@.take(i + 1) =~= oids@.take(i as int).push(oids@[i as int]));
        assert(crate::queue::state::string_seq(parts@) =~= before.push(decimal(oids@[i as int] as nat)));
        i += 1;
    }
    assert(oids@.take(oids@.len() as int) =~= oids@);
    let mut q = "SELECT oid, relname::text FROM pg_class WHERE oid IN (".to_owned();
    q.append(join(&parts, ",").as_str());
    q.append(")");
    Some(q)
}

/// The name-to-OID map from the rows of that query (a NULL OID is 0, a NULL
/// name is empty), in row order.
pub fn oid_name_map(rows: &Vec<(Option<u32>, Option<String>)>) -> (r: Vec<(String, u32)>)
    ensures
        oid_map_view(r@) == rows@.map_values(|x: (Option<u32>, Option<String>)| (match x.1 {
            Some(n) => n@,
            None => Seq::<char>::empty(),
        }, match x.0 {
            Some(o) => o,
            None => 0u32,
        })),
{
    let mut out: Vec<(String, u32)> = Vec::new();
    let mut i: usize = 0;
    while i < rows.len()
        invariant
            i <= rows@.len(),
            oid_map_view(out@) == rows@.take(i as int).map_values(|x: (Option<u32>, Option<String>)| (match x.1 {
                Some(n) => n@,
                None => Seq::<char>::empty(),
            }, match x.0 {
                Some(o) => o,
                None => 0u32,
            })),
        decreases rows.len() - i,
    {
        let ghost before = oid_map_view(out@);
        let name = match &rows[i].1 {
            Some(n) => n.clone(),
            None => String::new(),
        };
        let oid = match rows[i].0 {
            Some(o) => o,
            None => 0,
        };
        out.push((name, oid));
        assert(rows@.take(i + 1) =~= rows@.take(i as int).push(rows@[i as int]));
        assert(oid_map_view(out@) =~= before.push((name@, oid)));
        i += 1;
    }
    assert(rows@.take(rows@.len() as int) =~= rows@);
    out
}

pub open spec fn spec_batch_lookup_sql(qualified_table: Seq<char>, lookup_col: Seq<char>, carry_col: Seq<char>) -> Seq<char> {
    "SELECT "@ + spec_quote_identifier(carry_col) + " FROM "@ + qualified_table + " WHERE "@ + spec_quote_identifier(lookup_col)
        + " = ANY($1)"@
}

/// One hop of a cascade path for many rows at once: the `carry_col` values
/// of the rows of `qualified_table` whose `lookup_col` is in `$1`; `None`
/// when there is no id to look up.
pub fn batch_lookup_sql(qualified_table: &str, lookup_col: &str, carry_col: &str, ids: &Vec<i64>) -> (r: Option<String>)
    ensures
        ids@.len() == 0 ==> r is None,
        ids@.len() > 0 ==> (r matches Some(q) && q@ == spec_batch_lookup_sql(qualified_table@, lookup_col@, carry_col@)),
{
    if ids.len() == 0 {
        return None;
    }
    let mut r = "SELECT ".to_owned();
    r.append(quote_identifier(carry_col).as_str());
    r.append(" FROM ");
    r.append(qualified_table);
    r.append(" WHERE ");
    r.append(quote_identifier(lookup_col).as_str());
    r.append(" = ANY($1)");
    Some(r)
}

fn clone_text(s: &String) -> (r: String)
    ensures
        r@ == s@,
{
    s.clone()
}

impl CascadeHop {
    /// A copy of the hop.
    pub fn duplicate(&self) -> (r: Self)
        ensures
            hop_view(r) == hop_view(*self),
    {
        CascadeHop {
            table_oid: self.table_oid,
            table_name: clone_text(&self.table_name),
            lookup_col: clone_text(&self.lookup_col),
            carry_col: clone_text(&self.carry_col),
        }
    }
}

impl CascadePath {
    /// A copy of the path.
    pub fn duplicate(&self) -> (r: Self)
        ensures
            path_view(r) == path_view(*self),
    {
        let mut hops: Vec<CascadeHop> = Vec::new();
        let mut i: usize = 0;
        while i < self.hops.len()
            invariant
                i <= self.hops@.len(),
                hops@.map_values(|h: CascadeHop| hop_view(h)) == self.hops@.take(i as int).map_values(|h: CascadeHop| hop_view(h)),
            decreases self.hops.len() - i,
        {
            let ghost before = hops@.map_values(|h: CascadeHop| hop_view(h));
            hops.push(self.hops[i].duplicate());
            assert(hops@.map_values(|h: CascadeHop| hop_view(h)) =~= before.push(hop_view(self.hops@[i as int])));
            assert(self.hops@.take(i + 1).map_values(|h: CascadeHop| hop_view(h)) =~= self.hops@.take(i as int).map_values(
                |h: CascadeHop| hop_view(h),
            ).push(hop_view(self.hops@[i as int])));
            i += 1;
        }
        assert(self.hops@.take(self.hops@.len() as int) =~= self.hops@);
        CascadePath {
            source_oid: self.source_oid,
            source_table: clone_text(&self.source_table),
            entity_name: clone_text(&self.entity_name),
            initial_col: clone_text(&self.initial_col),
            hops,
            unresolvable: self.unresolvable,
        }
    }
}

pub type PathView = (u32, Seq<char>, Seq<char>, Seq<char>, Seq<HopView>, bool);

pub open spec fn paths_view(paths: Seq<CascadePath>) -> Seq<PathView> {
    paths.map_values(|p: CascadePath| path_view(p))
}

/// The paths, of all TVIEWs, whose changes start at the table `table_oid`.
pub fn paths_from_source(paths: &Vec<CascadePath>, table_oid: u32) -> (r: Vec<CascadePath>)
    ensures
        paths_view(r@) == paths_view(paths@).filter(|p: PathView| p.0 == table_oid),
{
    let ghost pred = |p: PathView| p.0 == table_oid;
    let mut out: Vec<CascadePath> = Vec::new();
    let mut i: usize = 0;
    while i < paths.len()
        invariant
            i <= paths@.len(),
            pred == (|p: PathView| p.0 == table_oid),
            paths_view(out@) == paths_view(paths@.take(i as int)).filter(pred),
        decreases paths.len() - i,
    {
        let ghost before = paths_view(out@);
        assert(paths_view(paths@.take(i + 1)) =~= paths_view(paths@.take(i as int)).push(path_view(paths@[i as int])));
        proof {
            paths_view(paths@.take(i as int)).lemma_filter_push(path_view(paths@[i as int]), pred);
        }
        if paths[i].source_oid == table_oid {
            out.push(paths[i].duplicate());
            assert(paths_view(out@) =~= before.push(path_view(paths@[i as int])));
        }
        i += 1;
    }
    assert(paths@.take(paths@.len() as int) =~= paths@);
    out
}

/// Table OID to the cascade paths that start there, for one transaction.
pub struct CascadePathCache {
    pub entries: std::collections::HashMap<u32, Vec<CascadePath>>,
}

impl CascadePathCache {
    pub fn new() -> (c: Self)
        ensures
            c.entries@ == Map::<u32, Vec<CascadePath>>::empty(),
    {
        CascadePathCache { entries: std::collections::HashMap::new() }
    }

    /// A copy of the paths cached for `table_oid`, if they were loaded.
    pub fn cached(&self, table_oid: u32) -> (r: Option<Vec<CascadePath>>)
        ensures
            match r {
                Some(v) => self.entries@.contains_key(table_oid) && paths_view(v@) == paths_view(self.entries@[table_oid]@),
                None => !self.entries@.contains_key(table_oid),
            },
    {
        match self.entries.get(&table_oid) {
            Some(paths) => {
                let mut out: Vec<CascadePath> = Vec::new();
                let mut i: usize = 0;
                while i < paths.len()
                    invariant
                        i <= paths@.len(),
                        paths_view(out@) == paths_view(paths@.take(i as int)),
                    decreases paths.len() - i,
                {
                    let ghost before = paths_view(out@);
                    out.push(paths[i].duplicate());
                    assert(paths_view(out@) =~= before.push(path_view(paths@[i as int])));
                    assert(paths_view(paths@.take(i + 1)) =~= paths_view(paths@.take(i as int)).push(path_view(paths@[i as int])));
                    i += 1;
                }
                assert(paths@.take(paths@.len() as int) =~= paths@);
                Some(out)
            },
            None => None,
        }
    }

    /// Remember the paths loaded for `table_oid`.
    pub fn insert(&mut self, table_oid: u32, paths: Vec<CascadePath>)
        ensures
            final(self).entries@ == old(self).entries@.insert(table_oid, paths),
    {
        self.entries.insert(table_oid, paths);
    }

    /// Forget every table's paths.
    pub fn clear(&mut self)
        ensures
            final(self).entries@ == Map::<u32, Vec<CascadePath>>::empty(),
    {
        self.entries.clear();
    }
}

} // verus!
