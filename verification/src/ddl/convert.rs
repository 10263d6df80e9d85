//! Converting an existing `tv_*` table into a TVIEW: the checks on its name
//! and its columns, the base tables it names, and the statements that
//! rebuild it.
use vstd::prelude::*;
use crate::error::TViewError;
use crate::ddl::table::pair_seq;
use crate::queue::state::string_seq;
use crate::sql::{double_char, escape_literal, join, join_with};
use crate::catalog::{split_chars, split_seq};
use crate::text::{
    chars_of, decimal, decimal_string, ends_with, ends_with_exec, find_from, first_match_from, lemma_first_match_bounds,
    starts_with, starts_with_exec, str_eq, string_of, string_of_range, subvec, trim_seq, trimmed,
};

verus! {

/// The entity of a table to convert: its name after `tv_`.
pub fn extract_entity_name(table_name: &str) -> (r: Result<String, TViewError>)
    ensures
        starts_with(table_name@, "tv_"@) ==> (r matches Ok(e) && e@ == table_name@.skip(3)),
        !starts_with(table_name@, "tv_"@) ==> (r matches Err(TViewError::InvalidSelectStatement { sql, reason })
            && sql@ == table_name@ && reason@ == "Table name must start with tv_"@),
{
    proof {
        reveal_strlit("tv_");
    }
    let v = chars_of(table_name);
    if starts_with_exec(&v, &chars_of("tv_")) {
        Ok(string_of_range(&v, 3, v.len()))
    } else {
        Err(TViewError::InvalidSelectStatement { sql: table_name.to_owned(), reason: "Table name must start with tv_".to_owned() })
    }
}

/// The type of the first column named `name`.
pub open spec fn type_of_first(cols: Seq<(Seq<char>, Seq<char>)>, name: Seq<char>) -> Option<Seq<char>>
    decreases cols.len(),
{
    if cols.len() == 0 {
        None
    } else if cols[0].0 == name {
        Some(cols[0].1)
    } else {
        type_of_first(cols.drop_first(), name)
    }
}

/// What is wrong with a table's columns `(name, data_type)`, if anything: it
/// needs an `id` of type `uuid` and a `data` of type `jsonb`.
pub open spec fn spec_structure_fault(cols: Seq<(Seq<char>, Seq<char>)>) -> Option<Seq<char>> {
    match (type_of_first(cols, "id"@), type_of_first(cols, "data"@)) {
        (Some(it), Some(dt)) => if it != "uuid"@ {
            Some("Column 'id' must be UUID, found "@ + it)
        } else if dt != "jsonb"@ {
            Some("Column 'data' must be JSONB, found "@ + dt)
        } else {
            None
        },
        _ => Some("Table must have TVIEW structure: id (UUID), data (JSONB). Found: "@ + join_with(
            cols.map_values(|c: (Seq<char>, Seq<char>)| c.0),
            ", "@,
        )),
    }
}

fn type_of_first_exec(cols: &Vec<(String, String)>, name: &str) -> (r: Option<String>)
    ensures
        crate::schema::opt_string_view(r) == type_of_first(pair_seq(cols@), name@),
{
    let ghost cs = pair_seq(cols@);
    let mut i: usize = 0;
    assert(cs.skip(0) =~= cs);
    while i < cols.len()
        invariant
            i <= cols@.len(),
            cs == pair_seq(cols@),
            type_of_first(cs.skip(i as int), name@) == type_of_first(cs, name@),
        decreases cols.len() - i,
    {
        assert(cs.skip(i as int).drop_first() =~= cs.skip(i + 1));
        if str_eq(cols[i].0.as_str(), name) {
            return Some(cols[i].1.clone());
        }
        i += 1;
    }
    None
}

/// Check that a table has the TVIEW structure (see [`spec_structure_fault`]).
pub fn validate_tview_structure(table_name: &str, columns: &Vec<(String, String)>) -> (r: Result<(), TViewError>)
    ensures
        match spec_structure_fault(pair_seq(columns@)) {
            None => r is Ok,
            Some(m) => r matches Err(TViewError::InvalidSelectStatement { sql, reason }) && sql@ == table_name@ && reason@ == m,
        },
{
    let it = type_of_first_exec(columns, "id");
    let dt = type_of_first_exec(columns, "data");
    match (it, dt) {
        (Some(it), Some(dt)) => {
            if !str_eq(it.as_str(), "uuid") {
                let mut m = "Column 'id' must be UUID, found ".to_owned();
                m.append(it.as_str());
                return Err(TViewError::InvalidSelectStatement { sql: table_name.to_owned(), reason: m });
            }
            if !str_eq(dt.as_str(), "jsonb") {
                let mut m = "Column 'data' must be JSONB, found ".to_owned();
                m.append(dt.as_str());
                return Err(TViewError::InvalidSelectStatement { sql: table_name.to_owned(), reason: m });
            }
            Ok(())
        },
        _ => {
            let ghost cs = pair_seq(columns@);
            let mut names: Vec<String> = Vec::new();
            let mut i: usize = 0;
            while i < columns.len()
                invariant
                    i <= columns@.len(),
                    cs == pair_seq(columns@),
                    string_seq(names@) == cs.take(i as int).map_values(|c: (Seq<char>, Seq<char>)| c.0),
                decreases columns.len() - i,
            {
                let ghost before = string_seq(names@);
                names.push(columns[i].0.clone());
                assert(cs.take(i + 1) =~= cs.take(i as int).push(cs[i as int]));
                assert(string_seq(names@) =~= before.push(cs[i as int].0));
                i += 1;
            }
            assert(cs.take(columns@.len() as int) =~= cs);
            let mut m = "Table must have TVIEW structure: id (UUID), data (JSONB). Found: ".to_owned();
            m.append(join(&names, ", ").as_str());
            Err(TViewError::InvalidSelectStatement { sql: table_name.to_owned(), reason: m })
        },
    }
}

/// A JSON document as far as the search for base-table references reads
/// it: objects with their keys in order, arrays, and everything else.
pub enum JsonShape {
    Object(Vec<(String, JsonShape)>),
    Array(Vec<JsonShape>),
    Scalar,
}

/// The base table a key points at: `fk_<t>` and `<t>_id` name `tb_<t>`.
pub open spec fn spec_key_table(key: Seq<char>) -> Option<Seq<char>> {
    if starts_with(key, "fk_"@) && key.len() > 3 {
        Some("tb_"@ + key.skip(3))
    } else if ends_with(key, "_id"@) && key.len() > 3 {
        Some("tb_"@ + key.take(key.len() - 3))
    } else {
        None
    }
}

pub open spec fn key_refs(key: Seq<char>) -> Seq<Seq<char>> {
    match spec_key_table(key) {
        Some(t) => seq![t],
        None => Seq::empty(),
    }
}

/// Every table reference in a document, in document order: each object key
/// that names a table, followed by the references inside its value.
pub open spec fn table_refs(j: JsonShape) -> Seq<Seq<char>>
    decreases j,
{
    match j {
        JsonShape::Object(fields) => fields_refs(fields@),
        JsonShape::Array(items) => items_refs(items@),
        JsonShape::Scalar => Seq::empty(),
    }
}

pub open spec fn fields_refs(fields: Seq<(String, JsonShape)>) -> Seq<Seq<char>>
    decreases fields,
{
    if fields.len() == 0 {
        Seq::empty()
    } else {
        fields_refs(fields.drop_last()) + key_refs(fields.last().0@) + table_refs(fields.last().1)
    }
}

pub open spec fn items_refs(items: Seq<JsonShape>) -> Seq<Seq<char>>
    decreases items,
{
    if items.len() == 0 {
        Seq::empty()
    } else {
        items_refs(items.drop_last()) + table_refs(items.last())
    }
}

fn key_table(key: &str) -> (r: Option<String>)
    ensures
        crate::schema::opt_string_view(r) == spec_key_table(key@),
{
    proof {
        reveal_strlit("fk_");
        reveal_strlit("_id");
    }
    let v = chars_of(key);
    if starts_with_exec(&v, &chars_of("fk_")) && v.len() > 3 {
        let mut t = "tb_".to_owned();
        t.append(string_of_range(&v, 3, v.len()).as_str());
        Some(t)
    } else if ends_with_exec(&v, &chars_of("_id")) && v.len() > 3 {
        let mut t = "tb_".to_owned();
        t.append(string_of_range(&v, 0, v.len() - 3).as_str());
        Some(t)
    } else {
        None
    }
}

/// Append to `tables` every base table that `json` refers to through an
/// `fk_<t>` or `<t>_id` key, at any depth, in document order.
pub fn extract_table_references(json: &JsonShape, tables: &mut Vec<String>)
    ensures
        string_seq(final(tables)@) == string_seq(old(tables)@) + table_refs(*json),
    decreases json,
{
    match json {
        JsonShape::Object(fields) => {
            let mut i: usize = 0;
            while i < fields.len()
                invariant
                    i <= fields@.len(),
                    *json == JsonShape::Object(*fields),
                    string_seq(tables@) == string_seq(old(tables)@) + fields_refs(fields@.take(i as int)),
                decreases fields.len() - i,
            {
                assert(fields@.take(i + 1).drop_last() =~= fields@.take(i as int));
                let ghost before = string_seq(tables@);
                match key_table(fields[i].0.as_str()) {
                    Some(t) => {
                        tables.push(t);
                        assert(string_seq(tables@) =~= before + key_refs(fields@[i as int].0@));
                    },
                    None => {
                        assert(string_seq(tables@) =~= before + key_refs(fields@[i as int].0@));
                    },
                }
                proof {
                    vstd::std_specs::vec::axiom_vec_decreases_to_view(*fields);
                    vstd::seq::axiom_seq_index_decreases(fields@, i as int);
                    assert(decreases_to!(*json => (*json)->Object_0));
                    assert(decreases_to!(fields@[i as int] => fields@[i as int].1));
                }
                extract_table_references(&fields[i].1, tables);
                assert(string_seq(tables@) =~= string_seq(old(tables)@) + fields_refs(fields@.take(i + 1)));
                i += 1;
            }
            assert(fields@.take(fields@.len() as int) =~= fields@);
        },
        JsonShape::Array(items) => {
            let mut i: usize = 0;
            while i < items.len()
                invariant
                    i <= items@.len(),
                    *json == JsonShape::Array(*items),
                    string_seq(tables@) == string_seq(old(tables)@) + items_refs(items@.take(i as int)),
                decreases items.len() - i,
            {
                assert(items@.take(i + 1).drop_last() =~= items@.take(i as int));
                proof {
                    vstd::std_specs::vec::axiom_vec_decreases_to_view(*items);
                    vstd::seq::axiom_seq_index_decreases(items@, i as int);
                    assert(decreases_to!(*json => (*json)->Array_0));
                }
                extract_table_references(&items[i], tables);
                assert(string_seq(tables@) =~= string_seq(old(tables)@) + items_refs(items@.take(i + 1)));
                i += 1;
            }
            assert(items@.take(items@.len() as int) =~= items@);
        },
        JsonShape::Scalar => {
            assert(string_seq(tables@) =~= string_seq(old(tables)@) + table_refs(*json));
        },
    }
}

/// The pieces, each trimmed, with the empty ones left out.
pub open spec fn nonempty_trimmed(pieces: Seq<Seq<char>>) -> Seq<Seq<char>>
    decreases pieces.len(),
{
    if pieces.len() == 0 {
        Seq::empty()
    } else {
        let r = nonempty_trimmed(pieces.drop_last());
        if trim_seq(pieces.last()).len() > 0 {
            r.push(trim_seq(pieces.last()))
        } else {
            r
        }
    }
}

/// The text after the first `TVIEW_BASES:` of a comment, up to the next one.
pub open spec fn hint_segment(comment: Seq<char>) -> Option<Seq<char>> {
    match first_match_from(comment, "TVIEW_BASES:"@, 0) {
        None => None,
        Some(i) => {
            let rest = comment.skip(i + "TVIEW_BASES:"@.len());
            Some(
                match first_match_from(rest, "TVIEW_BASES:"@, 0) {
                    Some(j) => rest.take(j),
                    None => rest,
                },
            )
        },
    }
}

/// The base tables a table comment names: `TVIEW_BASES: tb_a, tb_b`.
pub open spec fn spec_base_table_hints(comment: Seq<char>) -> Option<Seq<Seq<char>>> {
    match hint_segment(comment) {
        None => None,
        Some(seg) => {
            let tables = nonempty_trimmed(split_seq(trim_seq(seg), ','));
            if tables.len() > 0 {
                Some(tables)
            } else {
                None
            }
        },
    }
}

/// The base tables a user named in a table's comment, after `TVIEW_BASES:`
/// and separated by commas; `None` when the comment names none.
pub fn parse_base_table_hints(comment: &str) -> (r: Option<Vec<String>>)
    ensures
        match spec_base_table_hints(comment@) {
            None => r is None,
            Some(t) => r matches Some(v) && string_seq(v@) == t,
        },
{
    proof {
        reveal_strlit("TVIEW_BASES:");
    }
    let v = chars_of(comment);
    let marker = chars_of("TVIEW_BASES:");
    let found = find_from(&v, &marker, 0);
    proof {
        lemma_first_match_bounds(v@, marker@, 0);
    }
    let i = match found {
        None => {
            return None;
        },
        Some(i) => i,
    };
    let rest = subvec(&v, i + marker.len(), v.len());
    assert(rest@ =~= v@.skip(i + marker@.len()));
    let next = find_from(&rest, &marker, 0);
    proof {
        lemma_first_match_bounds(rest@, marker@, 0);
    }
    let seg = match next {
        Some(j) => subvec(&rest, 0, j),
        None => rest,
    };
    let pieces = split_chars(&trimmed(&seg), ',');
    let ghost ps = string_seq(pieces@);
    let mut tables: Vec<String> = Vec::new();
    let mut k: usize = 0;
    while k < pieces.len()
        invariant
            k <= pieces@.len(),
            ps == string_seq(pieces@),
            string_seq(tables@) == nonempty_trimmed(ps.take(k as int)),
        decreases pieces.len() - k,
    {
        assert(ps.take(k + 1).drop_last() =~= ps.take(k as int));
        let t = trimmed(&chars_of(pieces[k].as_str()));
        if t.len() > 0 {
            let ghost before = string_seq(tables@);
            tables.push(string_of(&t));
            assert(string_seq(tables@) =~= before.push(t@));
        }
        k += 1;
    }
    assert(ps.take(pieces@.len() as int) =~= ps);
    if tables.len() > 0 {
        Some(tables)
    } else {
        None
    }
}

/// `a` comes before `b` in code-point order (the byte order of their UTF-8,
/// which is how strings compare).
pub open spec fn lex_lt(a: Seq<char>, b: Seq<char>) -> bool
    decreases a.len(),
{
    if a.len() == 0 {
        b.len() > 0
    } else if b.len() == 0 {
        false
    } else if a[0] < b[0] {
        true
    } else if a[0] == b[0] {
        lex_lt(a.drop_first(), b.drop_first())
    } else {
        false
    }
}

proof fn lemma_lex_irreflexive(a: Seq<char>)
    ensures
        !lex_lt(a, a),
    decreases a.len(),
{
    if a.len() > 0 {
        lemma_lex_irreflexive(a.drop_first());
    }
}

proof fn lemma_lex_transitive(a: Seq<char>, b: Seq<char>, c: Seq<char>)
    requires
        lex_lt(a, b),
        lex_lt(b, c),
    ensures
        lex_lt(a, c),
    decreases a.len(),
{
    if a.len() > 0 && b.len() > 0 && c.len() > 0 && a[0] == b[0] && b[0] == c[0] {
        lemma_lex_transitive(a.drop_first(), b.drop_first(), c.drop_first());
    }
}

proof fn lemma_lex_total(a: Seq<char>, b: Seq<char>)
    requires
        a != b,
    ensures
        lex_lt(a, b) || lex_lt(b, a),
    decreases a.len(),
{
    if a.len() > 0 && b.len() > 0 && a[0] == b[0] {
        if a.drop_first() == b.drop_first() {
            assert(a =~= seq![a[0]] + a.drop_first());
            assert(b =~= seq![b[0]] + b.drop_first());
        }
        lemma_lex_total(a.drop_first(), b.drop_first());
    } else if a.len() == 0 && b.len() == 0 {
        assert(a =~= b);
    } else if a.len() > 0 && b.len() > 0 {
    }
}

/// Whether `a` comes before `b` in code-point order.
fn lex_less(a: &str, b: &str) -> (r: bool)
    ensures
        r == lex_lt(a@, b@),
{
    let x = chars_of(a);
    let y = chars_of(b);
    let mut i: usize = 0;
    assert(x@.skip(0) =~= x@);
    assert(y@.skip(0) =~= y@);
    while i < x.len() && i < y.len()
        invariant
            i <= x@.len(),
            i <= y@.len(),
            x@ == a@,
            y@ == b@,
            lex_lt(x@, y@) == lex_lt(x@.skip(i as int), y@.skip(i as int)),
        decreases x.len() - i,
    {
        assert(x@.skip(i as int)[0] == x@[i as int]);
        assert(y@.skip(i as int)[0] == y@[i as int]);
        if x[i] < y[i] {
            return true;
        }
        if x[i] != y[i] {
            return false;
        }
        assert(x@.skip(i as int).drop_first() =~= x@.skip(i + 1));
        assert(y@.skip(i as int).drop_first() =~= y@.skip(i + 1));
        i += 1;
    }
    i == x.len() && i < y.len()
}

/// Strictly increasing in code-point order (so without repeats).
pub open spec fn strictly_sorted(s: Seq<Seq<char>>) -> bool {
    forall|i: int, j: int| 0 <= i < j < s.len() ==> lex_lt(#[trigger] s[i], #[trigger] s[j])
}

/// The tables named, sorted, each once.
pub fn distinct_tables(tables: &Vec<String>) -> (r: Vec<String>)
    ensures
        strictly_sorted(string_seq(r@)),
        string_seq(r@).to_set() == string_seq(tables@).to_set(),
{
    let ghost ts = string_seq(tables@);
    let mut out: Vec<String> = Vec::new();
    let mut i: usize = 0;
    while i < tables.len()
        invariant
            i <= tables@.len(),
            ts == string_seq(tables@),
            strictly_sorted(string_seq(out@)),
            string_seq(out@).to_set() == ts.take(i as int).to_set(),
        decreases tables.len() - i,
    {
        assert(ts.take(i + 1) =~= ts.take(i as int).push(ts[i as int]));
        let ghost before = string_seq(out@);
        let ghost x = ts[i as int];
        let mut k: usize = 0;
        while k < out.len() && lex_less(out[k].as_str(), tables[i].as_str())
            invariant
                k <= out@.len(),
                i < tables@.len(),
                ts == string_seq(tables@),
                x == ts[i as int],
                before == string_seq(out@),
                forall|j: int| 0 <= j < k ==> lex_lt(#[trigger] before[j], x),
            decreases out.len() - k,
        {
            k += 1;
        }
        proof {
            ts.take(i as int).lemma_push_to_set_commute(x);
        }
        if k < out.len() && str_eq(out[k].as_str(), tables[i].as_str()) {
            assert(before[k as int] == x);
            assert(before.to_set().contains(x));
            assert(before.to_set().insert(x) =~= before.to_set());
        } else {
            proof {
                if k < before.len() {
                    assert(before[k as int] != x);
                    assert(!lex_lt(before[k as int], x));
                    lemma_lex_total(before[k as int], x);
                }
            }
            out.insert(k, tables[i].clone());
            let ghost after = string_seq(out@);
            assert(after =~= before.insert(k as int, x));
            proof {
                assert forall|a: int, b: int| 0 <= a < b < after.len() implies lex_lt(#[trigger] after[a], #[trigger] after[b]) by {
                    if b < k {
                        assert(after[a] == before[a] && after[b] == before[b]);
                    } else if b == k {
                        assert(after[a] == before[a]);
                    } else if a == k {
                        assert(after[b] == before[b - 1]);
                        if b - 1 > k {
                            assert(lex_lt(before[k as int], before[b - 1]));
                            lemma_lex_transitive(x, before[k as int], before[b - 1]);
                        }
                    } else if a < k {
                        assert(after[a] == before[a] && after[b] == before[b - 1]);
                        if b - 1 >= k {
                            assert(lex_lt(before[a], x));
                            if b - 1 == k {
                                lemma_lex_transitive(before[a], x, before[k as int]);
                            } else {
                                assert(lex_lt(before[a], before[b - 1]));
                            }
                        }
                    } else {
                        assert(after[a] == before[a - 1] && after[b] == before[b - 1]);
                    }
                }
                assert forall|y: Seq<char>| after.to_set().contains(y) <==> before.to_set().insert(x).contains(y) by {
                    if after.to_set().contains(y) {
                        let m = choose|m: int| 0 <= m < after.len() && after[m] == y;
                        if m < k {
                            assert(before[m] == y);
                        } else if m > k {
                            assert(before[m - 1] == y);
                        }
                    }
                    if before.to_set().contains(y) && y != x {
                        let m = choose|m: int| 0 <= m < before.len() && before[m] == y;
                        if m < k {
                            assert(after[m] == y);
                        } else {
                            assert(after[m + 1] == y);
                        }
                    }
                    if y == x {
                        assert(after[k as int] == x);
                    }
                }
                assert(after.to_set() =~= before.to_set().insert(x));
            }
        }
        i += 1;
    }
    assert(ts.take(tables@.len() as int) =~= ts);
    out
}

pub open spec fn spec_table_columns_query(table: Seq<char>) -> Seq<char> {
    "SELECT column_name, data_type, is_nullable\n             FROM information_schema.columns\n             WHERE table_name = '"@
        + double_char(table, '\'') + "'\n             ORDER BY ordinal_position"@
}

/// The query for a table's columns `(name, data type, nullable)`, in order.
pub fn table_columns_query(table_name: &str) -> (r: String)
    ensures
        r@ == spec_table_columns_query(table_name@),
{
    let mut r = "SELECT column_name, data_type, is_nullable\n             FROM information_schema.columns\n             WHERE table_name = '".to_owned();
    r.append(escape_literal(table_name).as_str());
    r.append("'\n             ORDER BY ordinal_position");
    r
}

pub open spec fn spec_table_comment_query(table: Seq<char>) -> Seq<char> {
    "SELECT obj_description(oid, 'pg_class') as comment\n         FROM pg_class\n         WHERE relname = '"@ + double_char(table, '\'')
        + "'"@
}

/// The query for a table's comment.
pub fn table_comment_query(table_name: &str) -> (r: String)
    ensures
        r@ == spec_table_comment_query(table_name@),
{
    let mut r = "SELECT obj_description(oid, 'pg_class') as comment\n         FROM pg_class\n         WHERE relname = '".to_owned();
    r.append(escape_literal(table_name).as_str());
    r.append("'");
    r
}

pub open spec fn spec_named_table_exists_query(table: Seq<char>) -> Seq<char> {
    "SELECT EXISTS(SELECT 1 FROM information_schema.tables WHERE table_name = '"@ + double_char(table, '\'') + "')"@
}

/// The query for whether any table of that name exists.
pub fn named_table_exists_query(table_name: &str) -> (r: String)
    ensures
        r@ == spec_named_table_exists_query(table_name@),
{
    let mut r = "SELECT EXISTS(SELECT 1 FROM information_schema.tables WHERE table_name = '".to_owned();
    r.append(escape_literal(table_name).as_str());
    r.append("')");
    r
}

/// The first column whose name starts with `pk_`.
pub open spec fn first_pk_column(cols: Seq<(Seq<char>, Seq<char>)>) -> Option<Seq<char>>
    decreases cols.len(),
{
    if cols.len() == 0 {
        None
    } else if starts_with(cols[0].0, "pk_"@) {
        Some(cols[0].0)
    } else {
        first_pk_column(cols.drop_first())
    }
}

/// Whether some column's name starts with `pk_`.
pub fn has_pk_column(columns: &Vec<(String, String)>) -> (r: bool)
    ensures
        r == first_pk_column(pair_seq(columns@)) is Some,
{
    proof {
        reveal_strlit("pk_");
    }
    let ghost cs = pair_seq(columns@);
    let prefix = chars_of("pk_");
    let mut i: usize = 0;
    assert(cs.skip(0) =~= cs);
    while i < columns.len()
        invariant
            i <= columns@.len(),
            cs == pair_seq(columns@),
            prefix@ == "pk_"@,
            first_pk_column(cs.skip(i as int)) == first_pk_column(cs),
        decreases columns.len() - i,
    {
        assert(cs.skip(i as int).drop_first() =~= cs.skip(i + 1));
        assert(cs.skip(i as int)[0] == cs[i as int]);
        if starts_with_exec(&chars_of(columns[i].0.as_str()), &prefix) {
            return true;
        }
        i += 1;
    }
    false
}

/// The schema of a table being converted: named by its first `pk_*`
/// column, with `id` and `data` and nothing else known.
pub fn converted_schema(columns: &Vec<(String, String)>) -> (r: crate::schema::TViewSchema)
    requires
        first_pk_column(pair_seq(columns@)) is Some,
    ensures
        ({
            let pk = first_pk_column(pair_seq(columns@))->0;
            &&& r@.entity_name == Some(pk.skip(3))
            &&& r@.pk_column == Some(pk)
            &&& r@.identifier_column == Some(pk)
            &&& r@.id_column == Some("id"@)
            &&& r@.data_column == Some("data"@)
            &&& r@.fk_columns.len() == 0
            &&& r@.uuid_fk_columns.len() == 0
            &&& r@.additional_columns.len() == 0
            &&& r@.additional_columns_with_types.len() == 0
        }),
{
    proof {
        reveal_strlit("pk_");
    }
    let ghost cs = pair_seq(columns@);
    let prefix = chars_of("pk_");
    let mut i: usize = 0;
    assert(cs.skip(0) =~= cs);
    while i < columns.len()
        invariant
            i <= columns@.len(),
            cs == pair_seq(columns@),
            prefix@ == "pk_"@,
            first_pk_column(cs.skip(i as int)) == first_pk_column(cs),
            first_pk_column(cs) is Some,
        decreases columns.len() - i,
    {
        assert(cs.skip(i as int).drop_first() =~= cs.skip(i + 1));
        let name = chars_of(columns[i].0.as_str());
        if starts_with_exec(&name, &prefix) {
            assert(cs.skip(i as int)[0] == cs[i as int]);
            let pk = columns[i].0.clone();
            proof {
                reveal_strlit("pk_");
            }
            assert(name@ == cs[i as int].0);
            assert(name@.len() >= 3);
            let entity = string_of_range(&name, 3, name.len());
            let schema = crate::schema::TViewSchema {
                pk_column: Some(pk.clone()),
                id_column: Some("id".to_owned()),
                identifier_column: Some(pk),
                data_column: Some("data".to_owned()),
                fk_columns: Vec::new(),
                uuid_fk_columns: Vec::new(),
                additional_columns: Vec::new(),
                additional_columns_with_types: Vec::new(),
                entity_name: Some(entity),
            };
            assert(schema@.fk_columns =~= Seq::<Seq<char>>::empty());
            assert(schema@.uuid_fk_columns =~= Seq::<Seq<char>>::empty());
            assert(schema@.additional_columns =~= Seq::<Seq<char>>::empty());
            return schema;
        }
        i += 1;
    }
    assert(cs.skip(i as int).len() == 0);
    proof {
        assert(false);
    }
    crate::schema::TViewSchema {
        pk_column: None,
        id_column: None,
        identifier_column: None,
        data_column: None,
        fk_columns: Vec::new(),
        uuid_fk_columns: Vec::new(),
        additional_columns: Vec::new(),
        additional_columns_with_types: Vec::new(),
        entity_name: None,
    }
}

/// One row of a table's data as a `VALUES` entry, when both parts are there.
pub open spec fn value_rows(rows: Seq<(Option<String>, Option<String>)>) -> Seq<Seq<char>>
    decreases rows.len(),
{
    if rows.len() == 0 {
        Seq::empty()
    } else {
        let r = value_rows(rows.drop_last());
        match rows.last() {
            (Some(id), Some(data)) => r.push("('"@ + id@ + "'::uuid, '"@ + data@ + "')"@),
            _ => r,
        }
    }
}

pub open spec fn spec_backing_view_sql(view: Seq<char>, rows: Seq<(Option<String>, Option<String>)>) -> Seq<char> {
    if rows.len() == 0 {
        "CREATE VIEW "@ + view + " AS SELECT\n                NULL::uuid as id,\n                NULL::jsonb as data\n             WHERE false"@
    } else {
        "CREATE VIEW "@ + view + " AS SELECT * FROM (VALUES "@ + join_with(value_rows(rows), ", "@) + ") AS t(id, data)"@
    }
}

/// The view that keeps a converted table's saved rows `(id, data)`: an
/// empty view of that shape when the table had no rows.
pub fn backing_view_sql(view_name: &str, rows: &Vec<(Option<String>, Option<String>)>) -> (r: String)
    ensures
        r@ == spec_backing_view_sql(view_name@, rows@),
{
    if rows.len() == 0 {
        let mut r = "CREATE VIEW ".to_owned();
        r.append(view_name);
        r.append(" AS SELECT\n                NULL::uuid as id,\n                NULL::jsonb as data\n             WHERE false");
        return r;
    }
    let mut values: Vec<String> = Vec::new();
    let mut i: usize = 0;
    while i < rows.len()
        invariant
            i <= rows@.len(),
            string_seq(values@) == value_rows(rows@.take(i as int)),
        decreases rows.len() - i,
    {
        assert(rows@.take(i + 1).drop_last() =~= rows@.take(i as int));
        let ghost before = string_seq(values@);
        match (&rows[i].0, &rows[i].1) {
            (Some(id), Some(data)) => {
                let mut e = "('".to_owned();
                e.append(id.as_str());
                e.append("'::uuid, '");
                e.append(data.as_str());
                e.append("')");
                values.push(e);
                assert(string_seq(values@) =~= before.push("('"@ + id@ + "'::uuid, '"@ + data@ + "')"@));
            },
            _ => {},
        }
        i += 1;
    }
    assert(rows@.take(rows@.len() as int) =~= rows@);
    let mut r = "CREATE VIEW ".to_owned();
    r.append(view_name);
    r.append(" AS SELECT * FROM (VALUES ");
    r.append(join(&values, ", ").as_str());
    r.append(") AS t(id, data)");
    r
}

pub open spec fn spec_register_converted_sql(entity: Seq<char>, view_oid: nat, table_oid: nat, view: Seq<char>) -> Seq<char> {
    "INSERT INTO pg_tview_meta (entity, view_oid, table_oid, definition, fk_columns, uuid_fk_columns)\n         VALUES ('"@
        + double_char(entity, '\'') + "', "@ + decimal(view_oid) + ", "@ + decimal(table_oid) + ", '"@ + double_char(
        "SELECT * FROM "@ + view,
        '\'',
    )
        + "', '{}', '{}')\n         ON CONFLICT (entity) DO UPDATE SET\n            view_oid = EXCLUDED.view_oid,\n            table_oid = EXCLUDED.table_oid,\n            definition = EXCLUDED.definition,\n            fk_columns = EXCLUDED.fk_columns,\n            uuid_fk_columns = EXCLUDED.uuid_fk_columns"@
}

/// The statement that records a converted table in `pg_tview_meta`, with
/// `SELECT * FROM <view>` as its definition and no foreign keys.
pub fn register_converted_sql(entity_name: &str, view_oid: u32, table_oid: u32, view_name: &str) -> (r: String)
    ensures
        r@ == spec_register_converted_sql(entity_name@, view_oid as nat, table_oid as nat, view_name@),
{
    let mut definition = "SELECT * FROM ".to_owned();
    definition.append(view_name);
    let mut r = "INSERT INTO pg_tview_meta (entity, view_oid, table_oid, definition, fk_columns, uuid_fk_columns)\n         VALUES ('".to_owned();
    r.append(escape_literal(entity_name).as_str());
    r.append("', ");
    r.append(decimal_string(view_oid as u64).as_str());
    r.append(", ");
    r.append(decimal_string(table_oid as u64).as_str());
    r.append(", '");
    r.append(escape_literal(definition.as_str()).as_str());
    r.append("', '{}', '{}')\n         ON CONFLICT (entity) DO UPDATE SET\n            view_oid = EXCLUDED.view_oid,\n            table_oid = EXCLUDED.table_oid,\n            definition = EXCLUDED.definition,\n            fk_columns = EXCLUDED.fk_columns,\n            uuid_fk_columns = EXCLUDED.uuid_fk_columns");
    r
}

/// The query for the OID of the relation named `name`.
pub fn relation_oid_query(name: &str) -> (r: String)
    ensures
        r@ == "SELECT oid FROM pg_class WHERE relname = '"@ + name@ + "'"@,
{
    let mut r = "SELECT oid FROM pg_class WHERE relname = '".to_owned();
    r.append(name);
    r.append("'");
    r
}

/// The OIDs of a converted table's backing view and wrapper, or the error
/// for the first one the catalog does not have.
pub fn converted_oids(view_name: &str, tview_name: &str, view_oid: Option<u32>, table_oid: Option<u32>) -> (r: Result<
    (u32, u32),
    TViewError,
>)
    ensures
        match (view_oid, table_oid) {
            (Some(v), Some(t)) => r == Ok::<(u32, u32), TViewError>((v, t)),
            (None, _) => r matches Err(TViewError::CatalogError { operation, pg_error })
                && operation@ == "Get OID for view "@ + view_name@ && pg_error@ == "View not found"@,
            (Some(_), None) => r matches Err(TViewError::CatalogError { operation, pg_error })
                && operation@ == "Get OID for table "@ + tview_name@ && pg_error@ == "Table not found"@,
        },
{
    match (view_oid, table_oid) {
        (Some(v), Some(t)) => Ok((v, t)),
        (None, _) => {
            let mut op = "Get OID for view ".to_owned();
            op.append(view_name);
            Err(TViewError::CatalogError { operation: op, pg_error: "View not found".to_owned() })
        },
        (Some(_), None) => {
            let mut op = "Get OID for table ".to_owned();
            op.append(tview_name);
            Err(TViewError::CatalogError { operation: op, pg_error: "Table not found".to_owned() })
        },
    }
}


/// `SELECT data::text FROM <table> LIMIT 5`: a few documents whose keys may
/// name base tables.
pub open spec fn spec_sample_data_query(table_name: Seq<char>) -> Seq<char> {
    "SELECT data::text FROM "@ + table_name + " LIMIT 5"@
}

pub fn sample_data_query(table_name: &str) -> (r: String)
    ensures
        r@ == spec_sample_data_query(table_name@),
{
    let mut r = "SELECT data::text FROM ".to_owned();
    r.append(table_name);
    r.append(" LIMIT 5");
    r
}

/// `SELECT id::text, data::text FROM <table>`: every row, kept to rebuild the table.
pub open spec fn spec_backup_query(table_name: Seq<char>) -> Seq<char> {
    "SELECT id::text, data::text FROM "@ + table_name
}

pub fn backup_query(table_name: &str) -> (r: String)
    ensures
        r@ == spec_backup_query(table_name@),
{
    let mut r = "SELECT id::text, data::text FROM ".to_owned();
    r.append(table_name);
    r
}

/// `DROP TABLE <table> CASCADE`.
pub open spec fn spec_drop_table_cascade_sql(table_name: Seq<char>) -> Seq<char> {
    "DROP TABLE "@ + table_name + " CASCADE"@
}

pub fn drop_table_cascade_sql(table_name: &str) -> (r: String)
    ensures
        r@ == spec_drop_table_cascade_sql(table_name@),
{
    let mut r = "DROP TABLE ".to_owned();
    r.append(table_name);
    r.append(" CASCADE");
    r
}

/// The backing view of a converted table: `v_<entity>`.
pub open spec fn spec_converted_view_name(entity_name: Seq<char>) -> Seq<char> {
    "v_"@ + entity_name
}

pub fn converted_view_name(entity_name: &str) -> (r: String)
    ensures
        r@ == spec_converted_view_name(entity_name@),
{
    let mut r = "v_".to_owned();
    r.append(entity_name);
    r
}

/// `CREATE VIEW <table> AS SELECT * FROM <view>`: the converted table's name,
/// now a view over its backing view.
pub open spec fn spec_table_as_view_sql(table_name: Seq<char>, view_name: Seq<char>) -> Seq<char> {
    "CREATE VIEW "@ + table_name + " AS SELECT * FROM "@ + view_name
}

pub fn table_as_view_sql(table_name: &str, view_name: &str) -> (r: String)
    ensures
        r@ == spec_table_as_view_sql(table_name@, view_name@),
{
    let mut r = "CREATE VIEW ".to_owned();
    r.append(table_name);
    r.append(" AS SELECT * FROM ");
    r.append(view_name);
    r
}

} // verus!
