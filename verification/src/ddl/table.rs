//! The statements that build a TVIEW's materialized table: its column
//! definitions, its indexes and the statement that fills it.
use vstd::prelude::*;
use crate::error::TViewError;
use crate::queue::state::string_seq;
use crate::schema::{SchemaModel, TViewSchema, opt_string_view};
use crate::sql::{join, join_with, quote_identifier, spec_quote_identifier};
use crate::ddl::create::{resolve_pg_column_type, spec_resolve_pg_column_type};

verus! {

/// One row of `information_schema.columns` for the backing view:
/// `(column_name, data_type, udt_name)`, each possibly NULL.
pub type ColumnRow = (Option<String>, Option<String>, Option<String>);

pub open spec fn row_view(r: ColumnRow) -> (Option<Seq<char>>, Option<Seq<char>>, Option<Seq<char>>) {
    (opt_string_view(r.0), opt_string_view(r.1), opt_string_view(r.2))
}

/// The named rows, each with its resolved column type (a NULL `data_type`
/// counts as `text`), in catalog order.
pub open spec fn resolved_types(rows: Seq<(Option<Seq<char>>, Option<Seq<char>>, Option<Seq<char>>)>) -> Seq<(Seq<char>, Seq<char>)>
    decreases rows.len(),
{
    if rows.len() == 0 {
        Seq::empty()
    } else {
        let r = rows.last();
        resolved_types(rows.drop_last()) + match r.0 {
            Some(n) => seq![(n, spec_resolve_pg_column_type(match r.1 {
                Some(d) => d,
                None => "text"@,
            }, r.2))],
            None => Seq::empty(),
        }
    }
}

/// The type last recorded for `name` (a later row overrides an earlier one).
pub open spec fn type_of(types: Seq<(Seq<char>, Seq<char>)>, name: Seq<char>) -> Option<Seq<char>>
    decreases types.len(),
{
    if types.len() == 0 {
        None
    } else if types.last().0 == name {
        Some(types.last().1)
    } else {
        type_of(types.drop_last(), name)
    }
}

pub open spec fn pair_seq(v: Seq<(String, String)>) -> Seq<(Seq<char>, Seq<char>)> {
    v.map_values(|p: (String, String)| (p.0@, p.1@))
}

/// The actual column types of the backing view, as the catalog reports them.
pub fn column_types(rows: &Vec<ColumnRow>) -> (r: Vec<(String, String)>)
    ensures
        pair_seq(r@) == resolved_types(rows@.map_values(|x: ColumnRow| row_view(x))),
{
    let ghost rv = rows@.map_values(|x: ColumnRow| row_view(x));
    let mut r: Vec<(String, String)> = Vec::new();
    let mut i: usize = 0;
    assert(rv.take(0) =~= Seq::empty());
    while i < rows.len()
        invariant
            i <= rows@.len(),
            rv == rows@.map_values(|x: ColumnRow| row_view(x)),
            pair_seq(r@) == resolved_types(rv.take(i as int)),
        decreases rows.len() - i,
    {
        assert(rv.take(i + 1).drop_last() =~= rv.take(i as int));
        let ghost before = pair_seq(r@);
        match &rows[i].0 {
            Some(n) => {
                let dt: &str = match &rows[i].1 {
                    Some(d) => d.as_str(),
                    None => "text",
                };
                let udt: Option<&str> = match &rows[i].2 {
                    Some(u) => Some(u.as_str()),
                    None => None,
                };
                let t = resolve_pg_column_type(dt, udt);
                r.push((n.clone(), t));
                assert(pair_seq(r@) =~= before + seq![(rv[i as int].0.unwrap(), t@)]);
            },
            None => {
                assert(pair_seq(r@) =~= before + Seq::<(Seq<char>, Seq<char>)>::empty());
            },
        }
        i += 1;
    }
    assert(rv.take(rows@.len() as int) =~= rv);
    r
}

fn lookup_type(types: &Vec<(String, String)>, name: &String) -> (r: Option<String>)
    ensures
        opt_string_view(r) == type_of(pair_seq(types@), name@),
{
    let ghost ts = pair_seq(types@);
    let mut i = types.len();
    assert(ts.take(i as int) =~= ts);
    while i > 0
        invariant
            i <= types@.len(),
            ts == pair_seq(types@),
            type_of(ts.take(i as int), name@) == type_of(ts, name@),
        decreases i,
    {
        assert(ts.take(i as int).drop_last() =~= ts.take(i - 1));
        if crate::text::seq_eq(&crate::text::chars_of(types[i - 1].0.as_str()), &crate::text::chars_of(name.as_str())) {
            return Some(types[i - 1].1.clone());
        }
        i -= 1;
    }
    None
}

pub open spec fn quoted_with(name: Seq<char>, suffix: Seq<char>) -> Seq<char> {
    spec_quote_identifier(name) + suffix
}

/// The column definitions of the materialized table, in order: the
/// `pk_<entity>` column, `id`, the identifier, `data`, the foreign keys, the
/// UUID foreign keys and the other columns (each with the type the backing
/// view actually has, where it reports one), then the two timestamps. When
/// the TVIEW deduplicates by `DISTINCT ON`, its first key is the primary key.
pub open spec fn spec_column_defs(m: SchemaModel, first_dedup: Option<Seq<char>>, types: Seq<(Seq<char>, Seq<char>)>) -> Seq<Seq<char>> {
    let pk = match m.pk_column {
        Some(pk) => if first_dedup is Some && first_dedup != Some(pk) {
            seq![quoted_with(pk, " BIGINT"@)]
        } else {
            seq![quoted_with(pk, " BIGINT PRIMARY KEY"@)]
        },
        None => Seq::empty(),
    };
    let id = match m.id_column {
        Some(id) => if first_dedup == Some(id) {
            seq![quoted_with(id, " UUID PRIMARY KEY"@)]
        } else {
            seq![quoted_with(id, " UUID NOT NULL"@)]
        },
        None => Seq::empty(),
    };
    let ident = match m.identifier_column {
        Some(c) => seq![quoted_with(c, " TEXT"@)],
        None => Seq::empty(),
    };
    let data = match m.data_column {
        Some(c) => seq![quoted_with(c, " JSONB"@)],
        None => Seq::empty(),
    };
    let fks = m.fk_columns.map_values(|c: Seq<char>| quoted_with(c, " BIGINT"@));
    let uuid_fks = m.uuid_fk_columns.map_values(|c: Seq<char>| quoted_with(c, " "@ + match type_of(types, c) {
        Some(t) => t,
        None => "UUID"@,
    }));
    let extra = m.additional_columns_with_types.map_values(|p: (Seq<char>, Seq<char>)| {
        let eff = match type_of(types, p.0) {
            Some(t) => t,
            None => p.1,
        };
        quoted_with(p.0, " "@ + eff + if first_dedup == Some(p.0) {
            " PRIMARY KEY"@
        } else {
            Seq::empty()
        })
    });
    pk + id + ident + data + fks + uuid_fks + extra + seq![
        "created_at TIMESTAMPTZ NOT NULL DEFAULT NOW()"@,
        "updated_at TIMESTAMPTZ NOT NULL DEFAULT NOW()"@,
    ]
}

fn quoted_with_exec(name: &str, suffix: &str) -> (r: String)
    ensures
        r@ == quoted_with(name@, suffix@),
{
    let mut r = quote_identifier(name);
    r.append(suffix);
    r
}

fn opt_eq(a: &Option<String>, b: &String) -> (r: bool)
    ensures
        r == (opt_string_view(*a) == Some(b@)),
{
    match a {
        Some(x) => crate::text::seq_eq(&crate::text::chars_of(x.as_str()), &crate::text::chars_of(b.as_str())),
        None => false,
    }
}

/// The column definitions of the materialized table (see [`spec_column_defs`]).
pub fn column_defs(schema: &TViewSchema, distinct_on_output_keys: &Vec<String>, types: &Vec<(String, String)>) -> (r: Vec<String>)
    ensures
        string_seq(r@) == spec_column_defs(schema@, if distinct_on_output_keys.len() > 0 {
            Some(distinct_on_output_keys@[0]@)
        } else {
            None
        }, pair_seq(types@)),
{
    let first_dedup: Option<String> = if distinct_on_output_keys.len() > 0 {
        Some(distinct_on_output_keys[0].clone())
    } else {
        None
    };
    let ghost fd = opt_string_view(first_dedup);
    let ghost m = schema@;
    let ghost ts = pair_seq(types@);
    let mut cols: Vec<String> = Vec::new();
    match &schema.pk_column {
        Some(pk) => {
            if first_dedup.is_some() && !opt_eq(&first_dedup, pk) {
                cols.push(quoted_with_exec(pk.as_str(), " BIGINT"));
            } else {
                cols.push(quoted_with_exec(pk.as_str(), " BIGINT PRIMARY KEY"));
            }
        },
        None => {},
    }
    match &schema.id_column {
        Some(id) => {
            if opt_eq(&first_dedup, id) {
                cols.push(quoted_with_exec(id.as_str(), " UUID PRIMARY KEY"));
            } else {
                cols.push(quoted_with_exec(id.as_str(), " UUID NOT NULL"));
            }
        },
        None => {},
    }
    match &schema.identifier_column {
        Some(c) => cols.push(quoted_with_exec(c.as_str(), " TEXT")),
        None => {},
    }
    match &schema.data_column {
        Some(c) => cols.push(quoted_with_exec(c.as_str(), " JSONB")),
        None => {},
    }
    let ghost head = string_seq(cols@);
    let mut i: usize = 0;
    while i < schema.fk_columns.len()
        invariant
            i <= schema.fk_columns@.len(),
            m == schema@,
            string_seq(cols@) == head + m.fk_columns.take(i as int).map_values(|c: Seq<char>| quoted_with(c, " BIGINT"@)),
        decreases schema.fk_columns.len() - i,
    {
        let ghost before = string_seq(cols@);
        cols.push(quoted_with_exec(schema.fk_columns[i].as_str(), " BIGINT"));
        assert(m.fk_columns.take(i + 1) =~= m.fk_columns.take(i as int).push(m.fk_columns[i as int]));
        assert(string_seq(cols@) =~= before.push(quoted_with(m.fk_columns[i as int], " BIGINT"@)));
        i += 1;
    }
    assert(m.fk_columns.take(m.fk_columns.len() as int) =~= m.fk_columns);
    let ghost head2 = string_seq(cols@);
    let mut i: usize = 0;
    while i < schema.uuid_fk_columns.len()
        invariant
            i <= schema.uuid_fk_columns@.len(),
            m == schema@,
            ts == pair_seq(types@),
            string_seq(cols@) == head2 + m.uuid_fk_columns.take(i as int).map_values(|c: Seq<char>| quoted_with(c, " "@ + match type_of(ts, c) {
                Some(t) => t,
                None => "UUID"@,
            })),
        decreases schema.uuid_fk_columns.len() - i,
    {
        let ghost before = string_seq(cols@);
        let t = lookup_type(types, &schema.uuid_fk_columns[i]);
        let mut suffix = " ".to_owned();
        match &t {
            Some(t) => suffix.append(t.as_str()),
            None => suffix.append("UUID"),
        }
        cols.push(quoted_with_exec(schema.uuid_fk_columns[i].as_str(), suffix.as_str()));
        assert(m.uuid_fk_columns.take(i + 1) =~= m.uuid_fk_columns.take(i as int).push(m.uuid_fk_columns[i as int]));
        let ghost c = m.uuid_fk_columns[i as int];
        assert(string_seq(cols@) =~= before.push(quoted_with(c, " "@ + match type_of(ts, c) {
            Some(t) => t,
            None => "UUID"@,
        })));
        i += 1;
    }
    assert(m.uuid_fk_columns.take(m.uuid_fk_columns.len() as int) =~= m.uuid_fk_columns);
    let ghost head3 = string_seq(cols@);
    let mut i: usize = 0;
    while i < schema.additional_columns_with_types.len()
        invariant
            i <= schema.additional_columns_with_types@.len(),
            m == schema@,
            ts == pair_seq(types@),
            fd == opt_string_view(first_dedup),
            string_seq(cols@) == head3 + m.additional_columns_with_types.take(i as int).map_values(|p: (Seq<char>, Seq<char>)| {
                let eff = match type_of(ts, p.0) {
                    Some(t) => t,
                    None => p.1,
                };
                quoted_with(p.0, " "@ + eff + if fd == Some(p.0) {
                    " PRIMARY KEY"@
                } else {
                    Seq::empty()
                })
            }),
        decreases schema.additional_columns_with_types.len() - i,
    {
        let ghost before = string_seq(cols@);
        let name = &schema.additional_columns_with_types[i].0;
        let t = lookup_type(types, name);
        let mut suffix = " ".to_owned();
        match &t {
            Some(t) => suffix.append(t.as_str()),
            None => suffix.append(schema.additional_columns_with_types[i].1.as_str()),
        }
        if opt_eq(&first_dedup, name) {
            suffix.append(" PRIMARY KEY");
        }
        cols.push(quoted_with_exec(name.as_str(), suffix.as_str()));
        let ghost p = m.additional_columns_with_types[i as int];
        assert(m.additional_columns_with_types.take(i + 1) =~= m.additional_columns_with_types.take(i as int).push(p));
        assert(string_seq(cols@) =~= before.push({
            let eff = match type_of(ts, p.0) {
                Some(t) => t,
                None => p.1,
            };
            quoted_with(p.0, " "@ + eff + if fd == Some(p.0) {
                " PRIMARY KEY"@
            } else {
                Seq::empty()
            })
        }));
        i += 1;
    }
    assert(m.additional_columns_with_types.take(m.additional_columns_with_types.len() as int) =~= m.additional_columns_with_types);
    let ghost before = string_seq(cols@);
    cols.push("created_at TIMESTAMPTZ NOT NULL DEFAULT NOW()".to_owned());
    cols.push("updated_at TIMESTAMPTZ NOT NULL DEFAULT NOW()".to_owned());
    assert(string_seq(cols@) =~= before + seq![
        "created_at TIMESTAMPTZ NOT NULL DEFAULT NOW()"@,
        "updated_at TIMESTAMPTZ NOT NULL DEFAULT NOW()"@,
    ]);
    assert(string_seq(cols@) =~= spec_column_defs(m, fd, ts));
    cols
}


/// `<schema>.<name>`, both quoted.
pub open spec fn spec_qualified(schema_name: Seq<char>, name: Seq<char>) -> Seq<char> {
    spec_quote_identifier(schema_name) + "."@ + spec_quote_identifier(name)
}

pub fn qualified(schema_name: &str, name: &str) -> (r: String)
    ensures
        r@ == spec_qualified(schema_name@, name@),
{
    let mut r = quote_identifier(schema_name);
    r.append(".");
    r.append(quote_identifier(name).as_str());
    r
}

/// `CREATE VIEW <schema>.<view> AS <select>`.
pub open spec fn spec_create_view_sql(schema_name: Seq<char>, view_name: Seq<char>, select_sql: Seq<char>) -> Seq<char> {
    "CREATE VIEW "@ + spec_qualified(schema_name, view_name) + " AS "@ + select_sql
}

/// The statement that creates a TVIEW's backing view.
pub fn create_view_sql(schema_name: &str, view_name: &str, select_sql: &str) -> (r: String)
    ensures
        r@ == spec_create_view_sql(schema_name@, view_name@, select_sql@),
{
    let mut r = "CREATE VIEW ".to_owned();
    r.append(qualified(schema_name, view_name).as_str());
    r.append(" AS ");
    r.append(select_sql);
    r
}

/// Whether a view named `$1` exists in the schema `$2`.
pub const VIEW_EXISTS_QUERY: &'static str = "SELECT 1 FROM pg_class c JOIN pg_namespace n ON c.relnamespace = n.oid WHERE c.relname = $1 AND n.nspname = $2 AND c.relkind = 'v'";

/// After `CREATE VIEW` succeeded, the catalog must list the view.
pub fn check_backing_view(schema_name: &str, view_name: &str, listed: bool) -> (r: Result<(), TViewError>)
    ensures
        listed ==> r is Ok,
        !listed ==> (r matches Err(TViewError::CatalogError { operation, pg_error })
            && operation@ == "Create view "@ + schema_name@ + "."@ + view_name@
            && pg_error@ == "View was not created (CREATE VIEW succeeded but view missing from pg_class)"@),
{
    if listed {
        Ok(())
    } else {
        let mut op = "Create view ".to_owned();
        op.append(schema_name);
        op.append(".");
        op.append(view_name);
        Err(TViewError::CatalogError {
            operation: op,
            pg_error: "View was not created (CREATE VIEW succeeded but view missing from pg_class)".to_owned(),
        })
    }
}

/// `CREATE [UNLOGGED ]TABLE <schema>.<tview> (<definitions>)`, one definition a line.
pub open spec fn spec_create_table_sql(tview_name: Seq<char>, schema_name: Seq<char>, defs: Seq<Seq<char>>, unlogged: bool) -> Seq<char> {
    "CREATE "@ + (if unlogged {
        "UNLOGGED "@
    } else {
        Seq::empty()
    }) + "TABLE "@ + spec_qualified(schema_name, tview_name) + " (\n    "@ + join_with(defs, ",\n    "@) + "\n)"@
}

/// The statement that creates the materialized table of `tview_name` in
/// `schema_name`; `unlogged` is the `pg_tviews.unlogged_by_default` setting.
pub fn create_table_sql(
    tview_name: &str,
    schema: &TViewSchema,
    schema_name: &str,
    distinct_on_output_keys: &Vec<String>,
    types: &Vec<(String, String)>,
    unlogged: bool,
) -> (r: String)
    ensures
        r@ == spec_create_table_sql(tview_name@, schema_name@, spec_column_defs(schema@, if distinct_on_output_keys.len() > 0 {
            Some(distinct_on_output_keys@[0]@)
        } else {
            None
        }, pair_seq(types@)), unlogged),
{
    let defs = column_defs(schema, distinct_on_output_keys, types);
    let mut r = "CREATE ".to_owned();
    if unlogged {
        r.append("UNLOGGED ");
    }
    r.append("TABLE ");
    r.append(qualified(schema_name, tview_name).as_str());
    r.append(" (\n    ");
    r.append(join(&defs, ",\n    ").as_str());
    r.append("\n)");
    r
}

/// `CREATE INDEX "<idx_name>" ON <schema>.<tview> [USING GIN ](<column>)`.
pub open spec fn spec_index_sql(tview_name: Seq<char>, schema_name: Seq<char>, idx_name: Seq<char>, column: Seq<char>, gin: bool) -> Seq<char> {
    "CREATE INDEX "@ + spec_quote_identifier(idx_name) + " ON "@ + spec_qualified(schema_name, tview_name)
        + (if gin {
        " USING GIN ("@
    } else {
        " ("@
    }) + spec_quote_identifier(column) + ")"@
}

pub open spec fn idx_name(tview_name: Seq<char>, column: Seq<char>) -> Seq<char> {
    "idx_"@ + tview_name + "_"@ + column
}

/// The indexes of a materialized table, in order: on `id`, on each UUID
/// foreign key, and a GIN index on `data`.
pub open spec fn spec_index_statements(tview_name: Seq<char>, m: SchemaModel, schema_name: Seq<char>) -> Seq<Seq<char>> {
    (match m.id_column {
        Some(id) => seq![spec_index_sql(tview_name, schema_name, idx_name(tview_name, id), id, false)],
        None => Seq::empty(),
    }) + m.uuid_fk_columns.map_values(|c: Seq<char>| spec_index_sql(tview_name, schema_name, idx_name(tview_name, c), c, false))
        + match m.data_column {
        Some(d) => seq![spec_index_sql(tview_name, schema_name, idx_name(tview_name, d) + "_gin"@, d, true)],
        None => Seq::empty(),
    }
}

fn index_sql(tview_name: &str, schema_name: &str, idx: &str, column: &str, gin: bool) -> (r: String)
    ensures
        r@ == spec_index_sql(tview_name@, schema_name@, idx@, column@, gin),
{
    let mut r = "CREATE INDEX ".to_owned();
    r.append(quote_identifier(idx).as_str());
    r.append(" ON ");
    r.append(qualified(schema_name, tview_name).as_str());
    if gin {
        r.append(" USING GIN (");
    } else {
        r.append(" (");
    }
    r.append(quote_identifier(column).as_str());
    r.append(")");
    r
}

fn idx_name_exec(tview_name: &str, column: &str) -> (r: String)
    ensures
        r@ == idx_name(tview_name@, column@),
{
    let mut r = "idx_".to_owned();
    r.append(tview_name);
    r.append("_");
    r.append(column);
    r
}

/// The statements that index the materialized table (see [`spec_index_statements`]).
pub fn index_statements(tview_name: &str, schema: &TViewSchema, schema_name: &str) -> (r: Vec<String>)
    ensures
        string_seq(r@) == spec_index_statements(tview_name@, schema@, schema_name@),
{
    let ghost m = schema@;
    let mut r: Vec<String> = Vec::new();
    match &schema.id_column {
        Some(id) => {
            let n = idx_name_exec(tview_name, id.as_str());
            r.push(index_sql(tview_name, schema_name, n.as_str(), id.as_str(), false));
        },
        None => {},
    }
    let ghost head = string_seq(r@);
    let mut i: usize = 0;
    while i < schema.uuid_fk_columns.len()
        invariant
            i <= schema.uuid_fk_columns@.len(),
            m == schema@,
            string_seq(r@) == head + m.uuid_fk_columns.take(i as int).map_values(
                |c: Seq<char>| spec_index_sql(tview_name@, schema_name@, idx_name(tview_name@, c), c, false),
            ),
        decreases schema.uuid_fk_columns.len() - i,
    {
        let ghost before = string_seq(r@);
        let c = schema.uuid_fk_columns[i].as_str();
        let n = idx_name_exec(tview_name, c);
        r.push(index_sql(tview_name, schema_name, n.as_str(), c, false));
        assert(m.uuid_fk_columns.take(i + 1) =~= m.uuid_fk_columns.take(i as int).push(m.uuid_fk_columns[i as int]));
        assert(string_seq(r@) =~= before.push(spec_index_sql(tview_name@, schema_name@, idx_name(tview_name@, c@), c@, false)));
        i += 1;
    }
    assert(m.uuid_fk_columns.take(m.uuid_fk_columns.len() as int) =~= m.uuid_fk_columns);
    let ghost before = string_seq(r@);
    match &schema.data_column {
        Some(d) => {
            let mut n = idx_name_exec(tview_name, d.as_str());
            n.append("_gin");
            r.push(index_sql(tview_name, schema_name, n.as_str(), d.as_str(), true));
            assert(string_seq(r@) =~= before.push(spec_index_sql(tview_name@, schema_name@, idx_name(tview_name@, d@) + "_gin"@, d@, true)));
        },
        None => {
            assert(string_seq(r@) =~= before + Seq::<Seq<char>>::empty());
        },
    }
    r
}

/// `INSERT INTO <schema>.<tview> (<cols>) SELECT <cols> FROM <schema>.<view>`,
/// with the view's columns quoted.
pub open spec fn spec_populate_sql(tview_name: Seq<char>, view_name: Seq<char>, schema_name: Seq<char>, columns: Seq<Seq<char>>) -> Seq<char> {
    let cols = join_with(columns.map_values(|c: Seq<char>| spec_quote_identifier(c)), ", "@);
    "INSERT INTO "@ + spec_qualified(schema_name, tview_name) + " ("@ + cols + ") SELECT "@ + cols + " FROM "@
        + spec_qualified(schema_name, view_name)
}

/// The statement that fills the materialized table from its backing view;
/// a view without selectable columns is an error.
pub fn populate_sql(tview_name: &str, view_name: &str, schema_name: &str, view_columns: &Vec<String>) -> (r: Result<String, TViewError>)
    ensures
        view_columns.len() == 0 ==> (r matches Err(TViewError::CatalogError { operation, pg_error })
            && operation@ == "Get columns for view "@ + view_name@ && pg_error@ == "View has no selectable columns"@),
        view_columns.len() > 0 ==> (r matches Ok(s) && s@ == spec_populate_sql(tview_name@, view_name@, schema_name@, string_seq(view_columns@))),
{
    if view_columns.len() == 0 {
        let mut op = "Get columns for view ".to_owned();
        op.append(view_name);
        return Err(TViewError::CatalogError { operation: op, pg_error: "View has no selectable columns".to_owned() });
    }
    let mut quoted: Vec<String> = Vec::new();
    let mut i: usize = 0;
    while i < view_columns.len()
        invariant
            i <= view_columns@.len(),
            string_seq(quoted@) == string_seq(view_columns@).take(i as int).map_values(|c: Seq<char>| spec_quote_identifier(c)),
        decreases view_columns.len() - i,
    {
        let ghost before = string_seq(quoted@);
        quoted.push(quote_identifier(view_columns[i].as_str()));
        assert(string_seq(view_columns@).take(i + 1) =~= string_seq(view_columns@).take(i as int).push(view_columns@[i as int]@));
        assert(string_seq(quoted@) =~= before.push(spec_quote_identifier(view_columns@[i as int]@)));
        i += 1;
    }
    assert(string_seq(view_columns@).take(view_columns@.len() as int) =~= string_seq(view_columns@));
    let cols = join(&quoted, ", ");
    let mut r = "INSERT INTO ".to_owned();
    r.append(qualified(schema_name, tview_name).as_str());
    r.append(" (");
    r.append(cols.as_str());
    r.append(") SELECT ");
    r.append(cols.as_str());
    r.append(" FROM ");
    r.append(qualified(schema_name, view_name).as_str());
    Ok(r)
}

} // verus!
