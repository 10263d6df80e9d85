//! The catalog row that registers a TVIEW in `pg_tview_meta`.
use vstd::prelude::*;
use crate::queue::state::string_seq;
use crate::schema::{SchemaModel, TViewSchema};
use crate::schema::analyzer::{analyze_dependencies, spec_detect_dependency_type};
use crate::schema::direct_map::{extract_direct_column_map, spec_extract_direct_column_map};
use crate::catalog::spec_dependency_type_name;
use crate::sql::{array_literal_body, join, join_with, spec_pg_array_elem};
use crate::text::{decimal, decimal_string};

verus! {

/// `'{a,b,...}'`: the strings as a quoted PostgreSQL array literal.
pub open spec fn array_literal(items: Seq<Seq<char>>) -> Seq<char> {
    "'{"@ + join_with(items.map_values(|s: Seq<char>| spec_pg_array_elem(s)), ","@) + "}'"@
}

fn array_literal_exec(items: &Vec<String>) -> (r: String)
    ensures
        r@ == array_literal(string_seq(items@)),
{
    let mut r = "'{".to_owned();
    r.append(array_literal_body(items).as_str());
    r.append("}'");
    r
}

/// The dependency of each foreign key, as the analyzer reports it.
pub open spec fn spec_dependencies(definition: Seq<char>, fks: Seq<Seq<char>>) -> Seq<(crate::catalog::DependencyType, Option<Seq<Seq<char>>>, Option<Seq<char>>)> {
    fks.map_values(|f: Seq<char>| spec_detect_dependency_type(definition, f))
}

/// The metadata row's array columns, in the order of the insert: dependency
/// types, dependency paths (dot-joined, empty for none), array match keys
/// (empty for none).
pub open spec fn dep_type_names(deps: Seq<(crate::catalog::DependencyType, Option<Seq<Seq<char>>>, Option<Seq<char>>)>) -> Seq<Seq<char>> {
    deps.map_values(|d: (crate::catalog::DependencyType, Option<Seq<Seq<char>>>, Option<Seq<char>>)| spec_dependency_type_name(d.0))
}

pub open spec fn dep_paths(deps: Seq<(crate::catalog::DependencyType, Option<Seq<Seq<char>>>, Option<Seq<char>>)>) -> Seq<Seq<char>> {
    deps.map_values(|d: (crate::catalog::DependencyType, Option<Seq<Seq<char>>>, Option<Seq<char>>)| match d.1 {
        Some(p) => join_with(p, "."@),
        None => Seq::empty(),
    })
}

pub open spec fn dep_keys(deps: Seq<(crate::catalog::DependencyType, Option<Seq<Seq<char>>>, Option<Seq<char>>)>) -> Seq<Seq<char>> {
    deps.map_values(|d: (crate::catalog::DependencyType, Option<Seq<Seq<char>>>, Option<Seq<char>>)| match d.2 {
        Some(k) => k,
        None => Seq::empty(),
    })
}

/// The statement that registers a TVIEW: the entity (`$1`) and its
/// definition (`$2`) are bound as parameters; the object ids, the cascade
/// paths (as JSON texts), the schema's foreign keys, the analysed
/// dependencies, the `DISTINCT ON` keys, the direct-patch column map and the
/// union flag are written as literals. An entity already registered is kept.
pub open spec fn spec_register_metadata_sql(
    entity_name: Seq<char>,
    definition: Seq<char>,
    m: SchemaModel,
    cascade_paths_json: Seq<Seq<char>>,
    distinct_on_keys: Seq<Seq<char>>,
    distinct_on_output_keys: Seq<Seq<char>>,
    is_union: bool,
    view_oid: nat,
    table_oid: nat,
) -> Seq<char> {
    let deps = spec_dependencies(definition, m.fk_columns);
    let direct = spec_extract_direct_column_map(definition, "tb_"@ + entity_name);
    PREFIX@ + decimal(view_oid) + ", "@ + decimal(table_oid) + ", $2, "@ + array_literal(cascade_paths_json)
        + ", "@ + array_literal(m.fk_columns) + ", "@ + array_literal(m.uuid_fk_columns)
        + ", "@ + array_literal(dep_type_names(deps)) + ", "@ + array_literal(dep_paths(deps))
        + ", "@ + array_literal(dep_keys(deps)) + ", "@ + array_literal(distinct_on_keys)
        + ", "@ + array_literal(distinct_on_output_keys)
        + ", "@ + array_literal(direct.map_values(|p: (Seq<char>, Seq<char>)| p.0))
        + ", "@ + array_literal(direct.map_values(|p: (Seq<char>, Seq<char>)| p.1))
        + ", "@ + (if is_union { "true"@ } else { "false"@ }) + SUFFIX@
}

pub const PREFIX: &'static str = "INSERT INTO pg_tview_meta (\n            entity,\n            view_oid,\n            table_oid,\n            definition,\n            cascade_paths,\n            fk_columns,\n            uuid_fk_columns,\n            dependency_types,\n            dependency_paths,\n            array_match_keys,\n            distinct_on_keys,\n            distinct_on_output_keys,\n            direct_map_columns,\n            direct_map_keys,\n            is_union\n        ) VALUES ($1, ";

pub const SUFFIX: &'static str = ")\n        ON CONFLICT (entity) DO NOTHING";

/// The registration statement (see [`spec_register_metadata_sql`]).
pub fn register_metadata_sql(
    entity_name: &str,
    definition_sql: &str,
    schema: &TViewSchema,
    cascade_paths_json: &Vec<String>,
    distinct_on_keys: &Vec<String>,
    distinct_on_output_keys: &Vec<String>,
    is_union: bool,
    view_oid: u32,
    table_oid: u32,
) -> (r: String)
    ensures
        r@ == spec_register_metadata_sql(entity_name@, definition_sql@, schema@, string_seq(cascade_paths_json@),
            string_seq(distinct_on_keys@), string_seq(distinct_on_output_keys@), is_union, view_oid as nat, table_oid as nat),
{
    let ghost m = schema@;
    let deps = analyze_dependencies(definition_sql, &schema.fk_columns);
    let ghost ds = spec_dependencies(definition_sql@, m.fk_columns);
    assert(deps@.len() == ds.len());
    let mut names: Vec<String> = Vec::new();
    let mut paths: Vec<String> = Vec::new();
    let mut keys: Vec<String> = Vec::new();
    let mut i: usize = 0;
    while i < deps.len()
        invariant
            i <= deps@.len(),
            deps@.len() == ds.len(),
            forall|j: int| 0 <= j < deps@.len() ==> #[trigger] deps@[j]@ == ds[j],
            string_seq(names@) == dep_type_names(ds.take(i as int)),
            string_seq(paths@) == dep_paths(ds.take(i as int)),
            string_seq(keys@) == dep_keys(ds.take(i as int)),
        decreases deps.len() - i,
    {
        let ghost (n0, p0, k0) = (string_seq(names@), string_seq(paths@), string_seq(keys@));
        let d = &deps[i];
        assert(d@ == ds[i as int]);
        names.push(d.dep_type.as_str().to_owned());
        match &d.jsonb_path {
            Some(p) => paths.push(join(p, ".")),
            None => paths.push(String::new()),
        }
        match &d.array_match_key {
            Some(k) => keys.push(k.clone()),
            None => keys.push(String::new()),
        }
        assert(ds.take(i + 1) =~= ds.take(i as int).push(ds[i as int]));
        assert(string_seq(names@) =~= n0.push(spec_dependency_type_name(ds[i as int].0)));
        assert(string_seq(paths@) =~= p0.push(match ds[i as int].1 {
            Some(p) => join_with(p, "."@),
            None => Seq::empty(),
        }));
        assert(string_seq(keys@) =~= k0.push(match ds[i as int].2 {
            Some(k) => k,
            None => Seq::empty(),
        }));
        i += 1;
    }
    assert(ds.take(ds.len() as int) =~= ds);
    let mut base = "tb_".to_owned();
    base.append(entity_name);
    let direct = extract_direct_column_map(definition_sql, base.as_str());
    let ghost dm = spec_extract_direct_column_map(definition_sql@, base@);
    let mut dcols: Vec<String> = Vec::new();
    let mut dkeys: Vec<String> = Vec::new();
    let mut i: usize = 0;
    while i < direct.len()
        invariant
            i <= direct@.len(),
            dm == Seq::new(direct@.len(), |j: int| (direct@[j].0@, direct@[j].1@)),
            string_seq(dcols@) == dm.take(i as int).map_values(|p: (Seq<char>, Seq<char>)| p.0),
            string_seq(dkeys@) == dm.take(i as int).map_values(|p: (Seq<char>, Seq<char>)| p.1),
        decreases direct.len() - i,
    {
        let ghost (c0, k0) = (string_seq(dcols@), string_seq(dkeys@));
        dcols.push(direct[i].0.clone());
        dkeys.push(direct[i].1.clone());
        assert(dm.take(i + 1) =~= dm.take(i as int).push(dm[i as int]));
        assert(string_seq(dcols@) =~= c0.push(dm[i as int].0));
        assert(string_seq(dkeys@) =~= k0.push(dm[i as int].1));
        i += 1;
    }
    assert(dm.take(dm.len() as int) =~= dm);
    let mut r = PREFIX.to_owned();
    r.append(decimal_string(view_oid as u64).as_str());
    r.append(", ");
    r.append(decimal_string(table_oid as u64).as_str());
    r.append(", $2, ");
    r.append(array_literal_exec(cascade_paths_json).as_str());
    r.append(", ");
    r.append(array_literal_exec(&schema.fk_columns).as_str());
    r.append(", ");
    r.append(array_literal_exec(&schema.uuid_fk_columns).as_str());
    r.append(", ");
    r.append(array_literal_exec(&names).as_str());
    r.append(", ");
    r.append(array_literal_exec(&paths).as_str());
    r.append(", ");
    r.append(array_literal_exec(&keys).as_str());
    r.append(", ");
    r.append(array_literal_exec(distinct_on_keys).as_str());
    r.append(", ");
    r.append(array_literal_exec(distinct_on_output_keys).as_str());
    r.append(", ");
    r.append(array_literal_exec(&dcols).as_str());
    r.append(", ");
    r.append(array_literal_exec(&dkeys).as_str());
    r.append(", ");
    r.append(if is_union { "true" } else { "false" });
    r.append(SUFFIX);
    r
}

} // verus!
