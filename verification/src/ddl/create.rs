//! Pure parts of creating a TVIEW: type mapping, the statements that build
//! the backing objects, and the decisions taken between catalog reads.
use vstd::prelude::*;
use crate::text::{is_ws, spec_lower, trim_end_seq, string_of_range, str_eq, chars_of, starts_with, starts_with_exec, lower_seq, trim_seq, trimmed, trim_start_seq, trimmed_start_from, trim_end_char, trim_end_char_exec, is_ascii_ws, is_ascii_ws_exec, string_of, subvec, first_match_from, find_from, to_lowercase, unicode_lowercase};
use crate::sql::{join, join_with, quote_identifier, spec_quote_identifier};
use crate::error::TViewError;
use crate::schema::TViewSchema;
use crate::schema::inference::{infer_schema, spec_validate_schema, schema_of, is_fault_error};
use crate::schema::parser::spec_columns_with_expressions;
use crate::ddl::table::pair_seq;
use crate::text::{contains_seq, contains_exec};

verus! {

/// The SQL type written in `CREATE TABLE` for a scalar PostgreSQL type name
/// (a `data_type` or a `udt_name`); anything unknown is `TEXT`.
pub open spec fn spec_scalar_pg_type_to_sql(t: Seq<char>) -> Seq<char> {
    if t == "boolean"@ {
        "BOOLEAN"@
    } else if t == "uuid"@ {
        "UUID"@
    } else if t == "jsonb"@ {
        "JSONB"@
    } else if t == "json"@ {
        "JSON"@
    } else if t == "bigint"@ || t == "int8"@ {
        "BIGINT"@
    } else if t == "integer"@ || t == "int4"@ || t == "int"@ {
        "INTEGER"@
    } else if t == "smallint"@ || t == "int2"@ {
        "SMALLINT"@
    } else if t == "numeric"@ || t == "decimal"@ {
        "NUMERIC"@
    } else if t == "real"@ || t == "float4"@ {
        "REAL"@
    } else if t == "double precision"@ || t == "float8"@ {
        "DOUBLE PRECISION"@
    } else if t == "timestamp with time zone"@ || t == "timestamptz"@ {
        "TIMESTAMPTZ"@
    } else if t == "timestamp without time zone"@ || t == "timestamp"@ {
        "TIMESTAMP"@
    } else if t == "date"@ {
        "DATE"@
    } else if t == "time with time zone"@ || t == "timetz"@ {
        "TIMETZ"@
    } else if t == "time without time zone"@ || t == "time"@ {
        "TIME"@
    } else if t == "interval"@ {
        "INTERVAL"@
    } else if t == "inet"@ {
        "INET"@
    } else if t == "cidr"@ {
        "CIDR"@
    } else if t == "macaddr"@ {
        "MACADDR"@
    } else if t == "macaddr8"@ {
        "MACADDR8"@
    } else if t == "bytea"@ {
        "BYTEA"@
    } else if t == "tsvector"@ {
        "TSVECTOR"@
    } else if t == "tsquery"@ {
        "TSQUERY"@
    } else if t == "int4range"@ {
        "INT4RANGE"@
    } else if t == "int8range"@ {
        "INT8RANGE"@
    } else if t == "numrange"@ {
        "NUMRANGE"@
    } else if t == "tsrange"@ {
        "TSRANGE"@
    } else if t == "tstzrange"@ {
        "TSTZRANGE"@
    } else if t == "daterange"@ {
        "DATERANGE"@
    } else if t == "point"@ {
        "POINT"@
    } else if t == "line"@ {
        "LINE"@
    } else if t == "lseg"@ {
        "LSEG"@
    } else if t == "box"@ {
        "BOX"@
    } else if t == "path"@ {
        "PATH"@
    } else if t == "polygon"@ {
        "POLYGON"@
    } else if t == "circle"@ {
        "CIRCLE"@
    } else if t == "ltree"@ {
        "LTREE"@
    } else if t == "lquery"@ {
        "LQUERY"@
    } else if t == "ltxtquery"@ {
        "LTXTQUERY"@
    } else if t == "geometry"@ {
        "GEOMETRY"@
    } else if t == "geography"@ {
        "GEOGRAPHY"@
    } else if t == "hstore"@ {
        "HSTORE"@
    } else if t == "citext"@ {
        "CITEXT"@
    } else if t == "money"@ {
        "MONEY"@
    } else if t == "bit"@ {
        "BIT"@
    } else if t == "bit varying"@ {
        "BIT VARYING"@
    } else if t == "xml"@ {
        "XML"@
    } else {
        "TEXT"@
    }
}

/// Map a scalar PostgreSQL type name to the SQL type for a column definition.
pub fn scalar_pg_type_to_sql(pg_type: &str) -> (r: &'static str)
    ensures
        r@ == spec_scalar_pg_type_to_sql(pg_type@),
{
    if str_eq(pg_type, "boolean") {
        "BOOLEAN"
    } else if str_eq(pg_type, "uuid") {
        "UUID"
    } else if str_eq(pg_type, "jsonb") {
        "JSONB"
    } else if str_eq(pg_type, "json") {
        "JSON"
    } else if str_eq(pg_type, "bigint") || str_eq(pg_type, "int8") {
        "BIGINT"
    } else if str_eq(pg_type, "integer") || str_eq(pg_type, "int4") || str_eq(pg_type, "int") {
        "INTEGER"
    } else if str_eq(pg_type, "smallint") || str_eq(pg_type, "int2") {
        "SMALLINT"
    } else if str_eq(pg_type, "numeric") || str_eq(pg_type, "decimal") {
        "NUMERIC"
    } else if str_eq(pg_type, "real") || str_eq(pg_type, "float4") {
        "REAL"
    } else if str_eq(pg_type, "double precision") || str_eq(pg_type, "float8") {
        "DOUBLE PRECISION"
    } else if str_eq(pg_type, "timestamp with time zone") || str_eq(pg_type, "timestamptz") {
        "TIMESTAMPTZ"
    } else if str_eq(pg_type, "timestamp without time zone") || str_eq(pg_type, "timestamp") {
        "TIMESTAMP"
    } else if str_eq(pg_type, "date") {
        "DATE"
    } else if str_eq(pg_type, "time with time zone") || str_eq(pg_type, "timetz") {
        "TIMETZ"
    } else if str_eq(pg_type, "time without time zone") || str_eq(pg_type, "time") {
        "TIME"
    } else if str_eq(pg_type, "interval") {
        "INTERVAL"
    } else if str_eq(pg_type, "inet") {
        "INET"
    } else if str_eq(pg_type, "cidr") {
        "CIDR"
    } else if str_eq(pg_type, "macaddr") {
        "MACADDR"
    } else if str_eq(pg_type, "macaddr8") {
        "MACADDR8"
    } else if str_eq(pg_type, "bytea") {
        "BYTEA"
    } else if str_eq(pg_type, "tsvector") {
        "TSVECTOR"
    } else if str_eq(pg_type, "tsquery") {
        "TSQUERY"
    } else if str_eq(pg_type, "int4range") {
        "INT4RANGE"
    } else if str_eq(pg_type, "int8range") {
        "INT8RANGE"
    } else if str_eq(pg_type, "numrange") {
        "NUMRANGE"
    } else if str_eq(pg_type, "tsrange") {
        "TSRANGE"
    } else if str_eq(pg_type, "tstzrange") {
        "TSTZRANGE"
    } else if str_eq(pg_type, "daterange") {
        "DATERANGE"
    } else if str_eq(pg_type, "point") {
        "POINT"
    } else if str_eq(pg_type, "line") {
        "LINE"
    } else if str_eq(pg_type, "lseg") {
        "LSEG"
    } else if str_eq(pg_type, "box") {
        "BOX"
    } else if str_eq(pg_type, "path") {
        "PATH"
    } else if str_eq(pg_type, "polygon") {
        "POLYGON"
    } else if str_eq(pg_type, "circle") {
        "CIRCLE"
    } else if str_eq(pg_type, "ltree") {
        "LTREE"
    } else if str_eq(pg_type, "lquery") {
        "LQUERY"
    } else if str_eq(pg_type, "ltxtquery") {
        "LTXTQUERY"
    } else if str_eq(pg_type, "geometry") {
        "GEOMETRY"
    } else if str_eq(pg_type, "geography") {
        "GEOGRAPHY"
    } else if str_eq(pg_type, "hstore") {
        "HSTORE"
    } else if str_eq(pg_type, "citext") {
        "CITEXT"
    } else if str_eq(pg_type, "money") {
        "MONEY"
    } else if str_eq(pg_type, "bit") {
        "BIT"
    } else if str_eq(pg_type, "bit varying") {
        "BIT VARYING"
    } else if str_eq(pg_type, "xml") {
        "XML"
    } else {
        "TEXT"
    }
}

/// The column type for an `information_schema.columns` row: user-defined
/// types go by `udt_name`, arrays by their element (`_uuid` is `UUID[]`).
pub open spec fn spec_resolve_pg_column_type(data_type: Seq<char>, udt_name: Option<Seq<char>>) -> Seq<char> {
    if data_type == "USER-DEFINED"@ {
        match udt_name {
            Some(u) => spec_scalar_pg_type_to_sql(u),
            None => "TEXT"@,
        }
    } else if data_type == "ARRAY"@ {
        let element = match udt_name {
            Some(u) => if u.len() > 0 && u[0] == '_' {
                spec_scalar_pg_type_to_sql(u.skip(1))
            } else {
                "TEXT"@
            },
            None => "TEXT"@,
        };
        element + "[]"@
    } else {
        spec_scalar_pg_type_to_sql(data_type)
    }
}

/// Resolve a column's `data_type` and `udt_name` to the SQL type of its definition.
pub fn resolve_pg_column_type(data_type: &str, udt_name: Option<&str>) -> (r: String)
    ensures
        r@ == spec_resolve_pg_column_type(data_type@, match udt_name {
            Some(u) => Some(u@),
            None => None,
        }),
{
    if str_eq(data_type, "USER-DEFINED") {
        match udt_name {
            Some(u) => scalar_pg_type_to_sql(u).to_owned(),
            None => "TEXT".to_owned(),
        }
    } else if str_eq(data_type, "ARRAY") {
        let element: &str = match udt_name {
            Some(u) => {
                let uv = chars_of(u);
                if uv.len() > 0 && uv[0] == '_' {
                    let rest = crate::text::string_of_range(&uv, 1, uv.len());
                    proof {
                        assert(rest@ =~= u@.skip(1));
                    }
                    scalar_pg_type_to_sql(rest.as_str())
                } else {
                    "TEXT"
                }
            },
            None => "TEXT",
        };
        let mut r = element.to_owned();
        r.append("[]");
        r
    } else {
        scalar_pg_type_to_sql(data_type).to_owned()
    }
}

/// `s` without leading ASCII whitespace.
pub open spec fn trim_start_ascii(s: Seq<char>) -> Seq<char>
    decreases s.len(),
{
    if s.len() > 0 && is_ascii_ws(s[0]) {
        trim_start_ascii(s.drop_first())
    } else {
        s
    }
}

/// The characters of `s` up to its first ASCII whitespace.
pub open spec fn token_prefix(s: Seq<char>) -> Seq<char>
    decreases s.len(),
{
    if s.len() == 0 || is_ascii_ws(s[0]) {
        Seq::empty()
    } else {
        seq![s[0]] + token_prefix(s.drop_first())
    }
}

/// The first word of `s` as `split_ascii_whitespace` yields it (empty if none).
pub open spec fn first_ascii_token(s: Seq<char>) -> Seq<char> {
    token_prefix(trim_start_ascii(s))
}

/// The source named by a definition of the exact form `SELECT * FROM <source> ...`
/// (compared in lowercase, Unicode-aware; `SELECT DISTINCT *`, `SELECT t.*` and
/// a clause between `*` and `FROM` do not qualify). The source comes back
/// lowercased.
pub open spec fn spec_select_star_source(sql: Seq<char>) -> Option<Seq<char>> {
    let l = unicode_lowercase(trim_seq(sql));
    if !starts_with(l, "select"@) {
        None
    } else {
        let a = trim_start_seq(l.skip(6));
        if !(a.len() > 0 && a[0] == '*') {
            None
        } else {
            let b = trim_start_seq(a.skip(1));
            if !starts_with(b, "from"@) || (b.len() > 4 && !is_ascii_ws(b[4])) {
                None
            } else {
                let tok = first_ascii_token(trim_seq(trim_end_char(trim_start_seq(b.skip(4)), ';')));
                if tok.len() == 0 {
                    None
                } else {
                    Some(tok)
                }
            }
        }
    }
}

fn first_ascii_token_exec(v: &Vec<char>) -> (r: Vec<char>)
    ensures
        r@ == first_ascii_token(v@),
{
    let mut i: usize = 0;
    assert(v@.skip(0) =~= v@);
    while i < v.len() && is_ascii_ws_exec(v[i])
        invariant
            i <= v@.len(),
            trim_start_ascii(v@.skip(i as int)) == trim_start_ascii(v@),
        decreases v.len() - i,
    {
        assert(v@.skip(i as int).drop_first() =~= v@.skip(i + 1));
        i += 1;
    }
    let start = i;
    assert(v@.skip(start as int) =~= v@.skip(start as int));
    while i < v.len() && !is_ascii_ws_exec(v[i])
        invariant
            start <= i <= v@.len(),
            trim_start_ascii(v@) == v@.skip(start as int),
            token_prefix(v@.skip(start as int)) == v@.subrange(start as int, i as int) + token_prefix(v@.skip(i as int)),
        decreases v.len() - i,
    {
        assert(v@.skip(i as int).drop_first() =~= v@.skip(i + 1));
        assert(v@.subrange(start as int, i as int) + seq![v@[i as int]] =~= v@.subrange(start as int, i + 1));
        i += 1;
    }
    assert(token_prefix(v@.skip(i as int)) =~= Seq::<char>::empty());
    assert(v@.subrange(start as int, i as int) + Seq::<char>::empty() =~= v@.subrange(start as int, i as int));
    subvec(v, start, i)
}

/// The source of a `SELECT * FROM <source>` definition, as
/// [`spec_select_star_source`] describes it.
pub fn select_star_source(select_sql: &str) -> (r: Option<String>)
    ensures
        match spec_select_star_source(select_sql@) {
            None => r is None,
            Some(src) => r matches Some(x) && x@ == src,
        },
{
    proof {
        reveal_strlit("select");
        reveal_strlit("from");
    }
    let t = string_of(&trimmed(&chars_of(select_sql)));
    let l = chars_of(to_lowercase(t.as_str()).as_str());
    if !starts_with_exec(&l, &chars_of("select")) {
        return None;
    }
    let a = trimmed_start_from(&l, 6);
    if !(a.len() > 0 && a[0] == '*') {
        return None;
    }
    let b = trimmed_start_from(&a, 1);
    if !starts_with_exec(&b, &chars_of("from")) {
        return None;
    }
    if b.len() > 4 && !is_ascii_ws_exec(b[4]) {
        return None;
    }
    let c = trimmed_start_from(&b, 4);
    let d = trimmed(&trim_end_char_exec(&c, ';'));
    let tok = first_ascii_token_exec(&d);
    if tok.len() == 0 {
        None
    } else {
        Some(string_of(&tok))
    }
}

/// `s` without leading `c`s.
pub open spec fn trim_start_char(s: Seq<char>, c: char) -> Seq<char>
    decreases s.len(),
{
    if s.len() > 0 && s[0] == c {
        trim_start_char(s.drop_first(), c)
    } else {
        s
    }
}

/// `s` without `c`s at either end, as `str::trim_matches` with one char.
pub open spec fn trim_char(s: Seq<char>, c: char) -> Seq<char> {
    trim_end_char(trim_start_char(s, c), c)
}

fn trim_char_exec(v: &Vec<char>, c: char) -> (r: Vec<char>)
    ensures
        r@ == trim_char(v@, c),
{
    let mut i: usize = 0;
    assert(v@.skip(0) =~= v@);
    while i < v.len() && v[i] == c
        invariant
            i <= v@.len(),
            trim_start_char(v@.skip(i as int), c) == trim_start_char(v@, c),
        decreases v.len() - i,
    {
        assert(v@.skip(i as int).drop_first() =~= v@.skip(i + 1));
        i += 1;
    }
    let rest = subvec(v, i, v.len());
    assert(rest@ =~= v@.skip(i as int));
    trim_end_char_exec(&rest, c)
}

/// A possibly schema-qualified name split at its first `.`, each part without
/// surrounding double quotes: `(schema, table)`.
pub open spec fn spec_split_qualified(q: Seq<char>) -> (Option<Seq<char>>, Seq<char>) {
    match first_match_from(q, seq!['.'], 0) {
        Some(i) => (Some(trim_char(q.take(i), '"')), trim_char(q.skip(i + 1), '"')),
        None => (None, trim_char(q, '"')),
    }
}

/// Split `schema.table` (or `table`) for the catalog lookup of its columns.
pub fn split_qualified(qualified: &str) -> (r: (Option<String>, String))
    ensures
        match spec_split_qualified(qualified@).0 {
            None => r.0 is None,
            Some(sc) => r.0 matches Some(x) && x@ == sc,
        },
        r.1@ == spec_split_qualified(qualified@).1,
{
    let q = chars_of(qualified);
    let dot = vec!['.'];
    assert(dot@ =~= seq!['.']);
    match find_from(&q, &dot, 0) {
        Some(i) => {
            proof {
                crate::text::lemma_first_match_bounds(q@, dot@, 0);
            }
            let sch = subvec(&q, 0, i);
            let tab = subvec(&q, i + 1, q.len());
            assert(sch@ =~= q@.take(i as int));
            assert(tab@ =~= q@.skip(i + 1));
            (Some(string_of(&trim_char_exec(&sch, '"'))), string_of(&trim_char_exec(&tab, '"')))
        },
        None => (None, string_of(&trim_char_exec(&q, '"'))),
    }
}

/// The definition with its first `*` replaced by the columns, comma-separated;
/// everything before and after it (the source and any later clause) is kept.
pub open spec fn spec_expanded_select(sql: Seq<char>, columns: Seq<Seq<char>>) -> Seq<char> {
    match first_match_from(sql, seq!['*'], 0) {
        Some(p) => sql.take(p) + join_with(columns, ", "@) + sql.skip(p + 1),
        None => sql,
    }
}

/// The definition with `*` replaced by the source's columns, in their order
/// (see [`spec_expanded_select`]); unchanged when the catalog listed no
/// column (the source was not found).
pub fn expand_select_star(select_sql: &str, columns: &Vec<String>) -> (r: String)
    ensures
        columns.len() == 0 ==> r@ == select_sql@,
        columns.len() > 0 ==> r@ == spec_expanded_select(select_sql@, crate::queue::state::string_seq(columns@)),
{
    if columns.len() == 0 {
        return select_sql.to_owned();
    }
    let v = chars_of(select_sql);
    let star = vec!['*'];
    assert(star@ =~= seq!['*']);
    match find_from(&v, &star, 0) {
        Some(p) => {
            proof {
                crate::text::lemma_first_match_bounds(v@, star@, 0);
            }
            assert(p < v.len());
            let mut r = string_of_range(&v, 0, p);
            r.append(join(columns, ", ").as_str());
            r.append(string_of_range(&v, p + 1, v.len()).as_str());
            r
        },
        None => select_sql.to_owned(),
    }
}

/// Leading whitespace: `trim_start_seq(s)` is `s` without its first `m`
/// characters, all of them whitespace.
proof fn lemma_trim_start_offset(s: Seq<char>) -> (m: int)
    ensures
        0 <= m <= s.len(),
        trim_start_seq(s) == s.skip(m),
        forall|j: int| 0 <= j < m ==> is_ws(#[trigger] s[j]),
    decreases s.len(),
{
    if s.len() > 0 && is_ws(s[0]) {
        let m1 = lemma_trim_start_offset(s.drop_first());
        assert(s.drop_first().skip(m1) =~= s.skip(m1 + 1));
        assert forall|j: int| 0 <= j < m1 + 1 implies is_ws(#[trigger] s[j]) by {
            if j > 0 {
                assert(s[j] == s.drop_first()[j - 1]);
            }
        }
        m1 + 1
    } else {
        assert(s.skip(0) =~= s);
        0
    }
}

/// Trailing whitespace is cut from the end only: `trim_end_seq(s)` is a prefix of `s`.
proof fn lemma_trim_end_prefix(s: Seq<char>) -> (n: int)
    ensures
        0 <= n <= s.len(),
        trim_end_seq(s) == s.take(n),
    decreases s.len(),
{
    if s.len() > 0 && is_ws(s.last()) {
        let n1 = lemma_trim_end_prefix(s.drop_last());
        assert(s.drop_last().take(n1) =~= s.take(n1));
        n1
    } else {
        assert(s.take(s.len() as int) =~= s);
        s.len() as int
    }
}

/// `trim_seq(sql)` starts at some `k` after whitespace only.
proof fn lemma_trim_offset(sql: Seq<char>) -> (k: int)
    ensures
        0 <= k <= sql.len(),
        forall|j: int| 0 <= j < k ==> is_ws(#[trigger] sql[j]),
        forall|j: int| 0 <= j < trim_seq(sql).len() ==> k + j < sql.len() && #[trigger] trim_seq(sql)[j] == sql[k + j],
{
    let k = lemma_trim_start_offset(sql);
    let n = lemma_trim_end_prefix(sql.skip(k));
    k
}

/// The first `*` of `s` at or after `from` is at `p` when `s[p]` is one and
/// none comes between.
proof fn lemma_first_star(s: Seq<char>, from: int, p: int)
    requires
        0 <= from <= p < s.len(),
        s[p] == '*',
        forall|j: int| from <= j < p ==> s[j] != '*',
    ensures
        first_match_from(s, seq!['*'], from) == Some(p),
    decreases p - from,
{
    if from == p {
        assert(s.subrange(p, p + 1) =~= seq!['*']);
    } else {
        assert(s.subrange(from, from + 1) != seq!['*']) by {
            assert(s.subrange(from, from + 1)[0] == s[from]);
        }
        lemma_first_star(s, from + 1, p);
    }
}

/// For a `SELECT * FROM <source> <rest>` definition (see
/// [`spec_select_star_source`]), the expansion is `SELECT`, the columns in
/// place of `*`, and the same `FROM <source> <rest>`: the first `*` of the
/// text is the one after `SELECT`. Stated for definitions whose lowercase
/// keeps each character in place (its Unicode lowercase is its ASCII
/// lowercase, as for any ASCII text).
pub proof fn law_expansion_replaces_the_star(sql: Seq<char>, columns: Seq<Seq<char>>)
    requires
        spec_select_star_source(sql) is Some,
        unicode_lowercase(trim_seq(sql)) == lower_seq(trim_seq(sql)),
    ensures
        ({
            let p = first_match_from(sql, seq!['*'], 0);
            &&& p is Some
            &&& spec_expanded_select(sql, columns) == sql.take(p->0) + join_with(columns, ", "@) + sql.skip(p->0 + 1)
            &&& forall|j: int| 0 <= j < p->0 ==> sql[j] != '*'
        }),
{
    let t = trim_seq(sql);
    let k = lemma_trim_offset(sql);
    let l = lower_seq(t);
    reveal_strlit("select");
    let a = trim_start_seq(l.skip(6));
    let m = lemma_trim_start_offset(l.skip(6));
    // `a[0] == '*'` sits at `k + 6 + m` in `sql`; nothing before it is a `*`.
    let p = k + 6 + m;
    assert(sql[p] == '*') by {
        assert(a[0] == l.skip(6)[m]);
        assert(l[6 + m] == spec_lower(t[6 + m]));
        assert(t[6 + m] == sql[k + 6 + m]);
    }
    assert forall|j: int| 0 <= j < p implies sql[j] != '*' by {
        if j < k {
            assert(is_ws(sql[j]));
        } else if j < k + 6 {
            assert(l[j - k] == spec_lower(t[j - k]));
            assert(l.subrange(0, 6) == "select"@);
            assert(l[j - k] == "select"@[j - k]);
        } else {
            assert(is_ws(l.skip(6)[j - k - 6]));
            assert(l[j - k] == spec_lower(t[j - k]));
        }
    }
    lemma_first_star(sql, 0, p);
}

/// `name`, if some column has it.
pub open spec fn column_named(cols: Seq<(Seq<char>, Seq<char>)>, name: Seq<char>) -> Option<Seq<char>>
    decreases cols.len(),
{
    if cols.len() == 0 {
        None
    } else if cols[0].0 == name {
        Some(name)
    } else {
        column_named(cols.drop_first(), name)
    }
}

/// The first column whose type names an integer or a serial.
pub open spec fn first_integer_column(cols: Seq<(Seq<char>, Seq<char>)>) -> Option<Seq<char>>
    decreases cols.len(),
{
    if cols.len() == 0 {
        None
    } else if contains_seq(cols[0].1, "int"@) || contains_seq(cols[0].1, "serial"@) {
        Some(cols[0].0)
    } else {
        first_integer_column(cols.drop_first())
    }
}

/// The source column that becomes `pk_<entity>` of a raw SELECT: `pk`, else
/// the first integer column, else `id`.
pub open spec fn spec_pk_source_column(cols: Seq<(Seq<char>, Seq<char>)>) -> Option<Seq<char>> {
    match column_named(cols, "pk"@) {
        Some(c) => Some(c),
        None => match first_integer_column(cols) {
            Some(c) => Some(c),
            None => column_named(cols, "id"@),
        },
    }
}

fn column_named_exec(cols: &Vec<(String, String)>, name: &str) -> (r: Option<String>)
    ensures
        crate::schema::opt_string_view(r) == column_named(pair_seq(cols@), name@),
{
    let ghost cs = pair_seq(cols@);
    let mut i: usize = 0;
    assert(cs.skip(0) =~= cs);
    while i < cols.len()
        invariant
            i <= cols@.len(),
            cs == pair_seq(cols@),
            column_named(cs.skip(i as int), name@) == column_named(cs, name@),
        decreases cols.len() - i,
    {
        assert(cs.skip(i as int).drop_first() =~= cs.skip(i + 1));
        if str_eq(cols[i].0.as_str(), name) {
            return Some(name.to_owned());
        }
        i += 1;
    }
    None
}

fn first_integer_column_exec(cols: &Vec<(String, String)>) -> (r: Option<String>)
    ensures
        crate::schema::opt_string_view(r) == first_integer_column(pair_seq(cols@)),
{
    proof {
        reveal_strlit("int");
        reveal_strlit("serial");
    }
    let ghost cs = pair_seq(cols@);
    let mut i: usize = 0;
    assert(cs.skip(0) =~= cs);
    while i < cols.len()
        invariant
            i <= cols@.len(),
            cs == pair_seq(cols@),
            first_integer_column(cs.skip(i as int)) == first_integer_column(cs),
        decreases cols.len() - i,
    {
        assert(cs.skip(i as int).drop_first() =~= cs.skip(i + 1));
        let t = chars_of(cols[i].1.as_str());
        if contains_exec(&t, &chars_of("int")) || contains_exec(&t, &chars_of("serial")) {
            return Some(cols[i].0.clone());
        }
        i += 1;
    }
    None
}

/// The source column for `pk_<entity>` (see [`spec_pk_source_column`]).
pub fn pk_source_column(columns: &Vec<(String, String)>) -> (r: Option<String>)
    ensures
        crate::schema::opt_string_view(r) == spec_pk_source_column(pair_seq(columns@)),
{
    match column_named_exec(columns, "pk") {
        Some(c) => Some(c),
        None => match first_integer_column_exec(columns) {
            Some(c) => Some(c),
            None => column_named_exec(columns, "id"),
        },
    }
}

/// `'name', source.name` for each column, comma-separated: the arguments of
/// the `jsonb_build_object` that makes `data`.
pub open spec fn data_pairs(cols: Seq<(Seq<char>, Seq<char>)>) -> Seq<char> {
    join_with(cols.map_values(|c: (Seq<char>, Seq<char>)| "'"@ + c.0 + "', source."@ + c.0), ", "@)
}

/// The raw SELECT wrapped into the TVIEW shape: `pk_<entity>` from the chosen
/// column, a fresh `id` and a `data` object with every column.
pub open spec fn spec_transformed_select(entity_name: Seq<char>, select_sql: Seq<char>, pk: Seq<char>, cols: Seq<(Seq<char>, Seq<char>)>) -> Seq<char> {
    "SELECT\n            source."@ + pk + " AS pk_"@ + entity_name + ",\n            gen_random_uuid() AS id,\n            jsonb_build_object("@
        + data_pairs(cols) + ") AS data\n        FROM ("@ + select_sql + ") AS source"@
}

/// Turn a raw SELECT (whose columns and types the catalog listed, in order)
/// into a TVIEW definition, and infer that definition's schema.
#[verifier::rlimit(40)]
pub fn transform_raw_select_to_tview(entity_name: &str, select_sql: &str, columns: &Vec<(String, String)>) -> (r: Result<(String, TViewSchema), TViewError>)
    ensures
        match spec_pk_source_column(pair_seq(columns@)) {
            None => r matches Err(TViewError::InvalidSelectStatement { sql, reason }) && sql@ == select_sql@
                && reason@ == "No suitable primary key column found (need 'pk', an integer column, or 'id')"@,
            Some(pk) => {
                let t = spec_transformed_select(entity_name@, select_sql@, pk, pair_seq(columns@));
                match spec_columns_with_expressions(t) {
                    Err(e) => r matches Err(TViewError::InvalidSelectStatement { sql: s, reason })
                        && s@ == t && reason@ == e,
                    Ok(cols) => match spec_validate_schema(schema_of(cols)) {
                        None => r matches Ok((sql, m)) && sql@ == t && m@ == schema_of(cols),
                        Some(f) => r matches Err(e) && is_fault_error(e, f),
                    },
                }
            },
        },
{
    let pk = match pk_source_column(columns) {
        Some(pk) => pk,
        None => {
            return Err(TViewError::InvalidSelectStatement {
                sql: select_sql.to_owned(),
                reason: "No suitable primary key column found (need 'pk', an integer column, or 'id')".to_owned(),
            });
        },
    };
    let ghost cs = pair_seq(columns@);
    let mut pairs: Vec<String> = Vec::new();
    let mut i: usize = 0;
    while i < columns.len()
        invariant
            i <= columns@.len(),
            cs == pair_seq(columns@),
            crate::queue::state::string_seq(pairs@) == cs.take(i as int).map_values(
                |c: (Seq<char>, Seq<char>)| "'"@ + c.0 + "', source."@ + c.0,
            ),
        decreases columns.len() - i,
    {
        let ghost before = crate::queue::state::string_seq(pairs@);
        let mut p = "'".to_owned();
        p.append(columns[i].0.as_str());
        p.append("', source.");
        p.append(columns[i].0.as_str());
        pairs.push(p);
        assert(cs.take(i + 1) =~= cs.take(i as int).push(cs[i as int]));
        assert(crate::queue::state::string_seq(pairs@) =~= before.push("'"@ + cs[i as int].0 + "', source."@ + cs[i as int].0));
        i += 1;
    }
    assert(cs.take(columns@.len() as int) =~= cs);
    let mut t = "SELECT\n            source.".to_owned();
    t.append(pk.as_str());
    t.append(" AS pk_");
    t.append(entity_name);
    t.append(",\n            gen_random_uuid() AS id,\n            jsonb_build_object(");
    t.append(join(&pairs, ", ").as_str());
    t.append(") AS data\n        FROM (");
    t.append(select_sql);
    t.append(") AS source");
    let schema = infer_schema(t.as_str())?;
    Ok((t, schema))
}

/// The entity a TVIEW name designates: `tv_<entity>`, or the bare entity.
pub open spec fn spec_tview_entity_name(tview_name: Seq<char>) -> Seq<char> {
    if starts_with(tview_name, "tv_"@) {
        tview_name.skip(3)
    } else {
        tview_name
    }
}

pub fn tview_entity_name(tview_name: &str) -> (r: String)
    ensures
        r@ == spec_tview_entity_name(tview_name@),
{
    proof {
        reveal_strlit("tv_");
    }
    let v = chars_of(tview_name);
    if starts_with_exec(&v, &chars_of("tv_")) {
        crate::text::string_of_range(&v, 3, v.len())
    } else {
        tview_name.to_owned()
    }
}

/// A TVIEW cannot be created twice.
pub fn check_not_registered(tview_name: &str, already_registered: bool) -> (r: Result<(), TViewError>)
    ensures
        already_registered <==> (r matches Err(TViewError::TViewAlreadyExists { name }) && name@ == tview_name@),
        !already_registered <==> r is Ok,
{
    if already_registered {
        Err(TViewError::TViewAlreadyExists { name: tview_name.to_owned() })
    } else {
        Ok(())
    }
}

/// The objects a TVIEW is made of: its entity, the materialized table
/// `tv_<entity>` and the backing view `v_<entity>`.
#[derive(Debug, Clone, PartialEq, Eq)]
pub struct TViewObjects {
    pub entity_name: String,
    pub tv_table_name: String,
    pub view_name: String,
}

pub const MISSING_PK_CONTEXT: &'static str = "pg_tviews requires a Trinity Pattern primary key column named \"pk_<entity>\" (e.g., pk_user, pk_post)";

/// The objects to create for `tview_name`, whose definition's schema is
/// `final_schema`: named after the entity that the definition's
/// `pk_<entity>` column names, whatever the TVIEW was called. A definition
/// without such a column is refused.
pub fn tview_objects(tview_name: &str, final_schema: &TViewSchema) -> (r: Result<TViewObjects, TViewError>)
    ensures
        match final_schema@.entity_name {
            None => r matches Err(TViewError::RequiredColumnMissing { column_name, context })
                && column_name@ == "pk_"@ + spec_tview_entity_name(tview_name@) && context@ == MISSING_PK_CONTEXT@,
            Some(e) => r matches Ok(o) && o.entity_name@ == e && o.tv_table_name@ == "tv_"@ + e
                && o.view_name@ == "v_"@ + e,
        },
{
    match &final_schema.entity_name {
        None => {
            let mut col = "pk_".to_owned();
            col.append(tview_entity_name(tview_name).as_str());
            Err(TViewError::RequiredColumnMissing { column_name: col, context: MISSING_PK_CONTEXT.to_owned() })
        },
        Some(e) => {
            let mut t = "tv_".to_owned();
            t.append(e.as_str());
            let mut v = "v_".to_owned();
            v.append(e.as_str());
            Ok(TViewObjects { entity_name: e.clone(), tv_table_name: t, view_name: v })
        },
    }
}

/// Why a TVIEW may not combine DISTINCT ON with cascade paths: it refreshes
/// by deduplication key, and a cascade path enqueues primary keys instead.
pub open spec fn spec_distinct_on_cascade_reason(tv_table_name: Seq<char>, cascade_paths: nat) -> Seq<char> {
    "TVIEW '"@ + tv_table_name + "' combines DISTINCT ON with a JOIN that produces cascade paths ("@ + crate::text::decimal(cascade_paths) + " dependent table(s)). DISTINCT ON tviews refresh by deduplication key and cannot also track PK-based cascade dependencies — the two refresh paths are mutually exclusive. Remove the DISTINCT ON, or express the dependency without a join that pg_tviews would cascade."@
}

/// Refuse a DISTINCT ON TVIEW whose joins give it cascade paths.
pub fn check_distinct_on_cascade(tv_table_name: &str, distinct_on_keys: usize, cascade_paths: usize) -> (r: Result<(), TViewError>)
    ensures
        !(distinct_on_keys > 0 && cascade_paths > 0) ==> r is Ok,
        distinct_on_keys > 0 && cascade_paths > 0 ==> (r matches Err(TViewError::InvalidInput { parameter, reason })
            && parameter@ == "tview definition"@
            && reason@ == spec_distinct_on_cascade_reason(tv_table_name@, cascade_paths as nat)),
{
    if distinct_on_keys > 0 && cascade_paths > 0 {
        let mut reason = "TVIEW '".to_owned();
        reason.append(tv_table_name);
        reason.append("' combines DISTINCT ON with a JOIN that produces cascade paths (");
        reason.append(crate::text::decimal_string(cascade_paths as u64).as_str());
        reason.append(" dependent table(s)). DISTINCT ON tviews refresh by deduplication key and cannot also track PK-based cascade dependencies — the two refresh paths are mutually exclusive. Remove the DISTINCT ON, or express the dependency without a join that pg_tviews would cascade.");
        return Err(TViewError::InvalidInput { parameter: "tview definition".to_owned(), reason });
    }
    Ok(())
}

/// Why a TVIEW that nothing would ever refresh is refused.
pub open spec fn spec_never_refreshed_reason(tv_table_name: Seq<char>, entity_name: Seq<char>) -> Seq<char> {
    "TVIEW '"@ + tv_table_name + "' (entity '"@ + entity_name + "') can never be refreshed: there is no base table 'tb_"@ + entity_name + "', and no cascade path routes any base-table change to it. pg_tviews maintains a tview either directly (a pk_<entity> primary key over a tb_<entity> base table) or via cascade paths from its joined base tables. Rename the primary-key column to match an existing base table, or ensure the definition joins the base tables it derives from. Creating it as-is would leave a permanently stale tview and can silently shadow a correctly-named tview on the same base table."@
}

/// Refuse a TVIEW that can never be refreshed incrementally: no cascade path
/// reaches it and there is no `tb_<entity>` base table whose trigger would.
/// (`base_table_exists` is only asked when there is no cascade path.)
pub fn check_refreshable(tv_table_name: &str, entity_name: &str, cascade_paths: usize, base_table_exists: bool) -> (r: Result<
    (),
    TViewError,
>)
    ensures
        (cascade_paths > 0 || base_table_exists) ==> r is Ok,
        (cascade_paths == 0 && !base_table_exists) ==> (r matches Err(TViewError::InvalidInput { parameter, reason })
            && parameter@ == "tview definition"@
            && reason@ == spec_never_refreshed_reason(tv_table_name@, entity_name@)),
{
    if cascade_paths == 0 && !base_table_exists {
        let mut reason = "TVIEW '".to_owned();
        reason.append(tv_table_name);
        reason.append("' (entity '");
        reason.append(entity_name);
        reason.append("') can never be refreshed: there is no base table 'tb_");
        reason.append(entity_name);
        reason.append("', and no cascade path routes any base-table change to it. pg_tviews maintains a tview either directly (a pk_<entity> primary key over a tb_<entity> base table) or via cascade paths from its joined base tables. Rename the primary-key column to match an existing base table, or ensure the definition joins the base tables it derives from. Creating it as-is would leave a permanently stale tview and can silently shadow a correctly-named tview on the same base table.");
        return Err(TViewError::InvalidInput { parameter: "tview definition".to_owned(), reason });
    }
    Ok(())
}

/// Whether the relation named `$1` (schema-qualified) or else `$2` (through
/// the search path) exists.
pub const BASE_TABLE_EXISTS_QUERY: &'static str = "SELECT COALESCE(to_regclass($1), to_regclass($2)) IS NOT NULL";

/// The two names under which the base table `tb_<entity>` is looked for:
/// quoted in the TVIEW's schema, and bare.
pub fn base_table_names(entity_name: &str, schema_name: &str) -> (r: (String, String))
    ensures
        r.1@ == "tb_"@ + entity_name@,
        r.0@ == crate::ddl::table::spec_qualified(schema_name@, "tb_"@ + entity_name@),
{
    let mut tb = "tb_".to_owned();
    tb.append(entity_name);
    let q = crate::ddl::table::qualified(schema_name, tb.as_str());
    (q, tb)
}


/// The temporary view through which a raw SELECT's columns are read: `_temp_raw_<entity>`.
pub open spec fn spec_temp_view_name(entity_name: Seq<char>) -> Seq<char> {
    "_temp_raw_"@ + entity_name
}

pub fn temp_view_name(entity_name: &str) -> (r: String)
    ensures
        r@ == spec_temp_view_name(entity_name@),
{
    let mut r = "_temp_raw_".to_owned();
    r.append(entity_name);
    r
}

/// `CREATE TEMP VIEW "<_temp_raw_entity>" AS <select>`.
pub open spec fn spec_create_temp_view_sql(entity_name: Seq<char>, select_sql: Seq<char>) -> Seq<char> {
    "CREATE TEMP VIEW "@ + spec_quote_identifier(spec_temp_view_name(entity_name)) + " AS "@ + select_sql
}

pub fn create_temp_view_sql(entity_name: &str, select_sql: &str) -> (r: String)
    ensures
        r@ == spec_create_temp_view_sql(entity_name@, select_sql@),
{
    let mut r = "CREATE TEMP VIEW ".to_owned();
    r.append(quote_identifier(temp_view_name(entity_name).as_str()).as_str());
    r.append(" AS ");
    r.append(select_sql);
    r
}

/// `DROP VIEW "<_temp_raw_entity>"`.
pub open spec fn spec_drop_temp_view_sql(entity_name: Seq<char>) -> Seq<char> {
    "DROP VIEW "@ + spec_quote_identifier(spec_temp_view_name(entity_name))
}

pub fn drop_temp_view_sql(entity_name: &str) -> (r: String)
    ensures
        r@ == spec_drop_temp_view_sql(entity_name@),
{
    let mut r = "DROP VIEW ".to_owned();
    r.append(quote_identifier(temp_view_name(entity_name).as_str()).as_str());
    r
}

} // verus!
