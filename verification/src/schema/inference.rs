//! Column-type and schema inference for TVIEW SELECT statements.
use vstd::prelude::*;
use crate::error::{TViewError, TViewResult};
use crate::schema::parser::{after_last_dot, parse_select_columns_with_expressions, spec_columns_with_expressions};
use crate::schema::{SchemaModel, TViewSchema, opt_string_view, pair_string_views, string_views};
use crate::text::{chars_of, contains_exec, contains_seq, ends_with, ends_with_exec, find_from, first_match_from, seq_eq, starts_with, starts_with_exec, string_of, subvec, trim_seq, trim_start_seq, trim_end_seq, is_ws, matches_at, trimmed, upper_seq, upper_vec, lemma_first_match_complete, to_lowercase, to_uppercase, unicode_lowercase, unicode_uppercase};

verus! {

// ───────────────────────── column types ─────────────────────────

/// Type guessed from a column name's conventional patterns.
pub open spec fn spec_type_from_column_name(col_name: Seq<char>) -> Seq<char> {
    let name = unicode_lowercase(col_name);
    if name == "id"@ || ends_with(name, "_id"@) || contains_seq(name, "uuid"@) {
        "UUID"@
    } else if contains_seq(name, "name"@) || contains_seq(name, "title"@) || contains_seq(
        name,
        "text"@,
    ) || contains_seq(name, "description"@) || contains_seq(name, "email"@) {
        "TEXT"@
    } else if starts_with(name, "pk_"@) || starts_with(name, "fk_"@) || contains_seq(
        name,
        "count"@,
    ) || contains_seq(name, "number"@) || contains_seq(name, "size"@) {
        "INTEGER"@
    } else if contains_seq(name, "date"@) || contains_seq(name, "time"@) || contains_seq(
        name,
        "created"@,
    ) || contains_seq(name, "updated"@) || contains_seq(name, "timestamp"@) {
        "TIMESTAMP"@
    } else if starts_with(name, "is_"@) || starts_with(name, "has_"@) || contains_seq(
        name,
        "active"@,
    ) || contains_seq(name, "enabled"@) || contains_seq(name, "deleted"@) {
        "BOOLEAN"@
    } else {
        "UUID"@
    }
}

/// Whether a lowercased column name follows a UUID naming convention:
/// `id`, `*_id`, or containing `uuid`.
pub open spec fn uuid_named(name: Seq<char>) -> bool {
    name == "id"@ || ends_with(name, "_id"@) || contains_seq(name, "uuid"@)
}

/// The naming conventions, in priority order: UUID names win; then a name
/// containing `name`, `title`, `text`, `description` or `email` is TEXT;
/// then `pk_*`, `fk_*` or one containing `count`, `number` or `size` is
/// INTEGER; then one containing `date`, `time`, `created`, `updated` or
/// `timestamp` is TIMESTAMP; then `is_*`, `has_*` or one containing
/// `active`, `enabled` or `deleted` is BOOLEAN; anything else is UUID. The
/// name is compared in lowercase.
pub proof fn law_column_name_conventions(col_name: Seq<char>)
    ensures
        ({
            let n = unicode_lowercase(col_name);
            let t = spec_type_from_column_name(col_name);
            let text = contains_seq(n, "name"@) || contains_seq(n, "title"@) || contains_seq(n, "text"@)
                || contains_seq(n, "description"@) || contains_seq(n, "email"@);
            let integer = starts_with(n, "pk_"@) || starts_with(n, "fk_"@) || contains_seq(n, "count"@)
                || contains_seq(n, "number"@) || contains_seq(n, "size"@);
            let ts = contains_seq(n, "date"@) || contains_seq(n, "time"@) || contains_seq(n, "created"@)
                || contains_seq(n, "updated"@) || contains_seq(n, "timestamp"@);
            let b = starts_with(n, "is_"@) || starts_with(n, "has_"@) || contains_seq(n, "active"@)
                || contains_seq(n, "enabled"@) || contains_seq(n, "deleted"@);
            &&& uuid_named(n) ==> t == "UUID"@
            &&& !uuid_named(n) && text ==> t == "TEXT"@
            &&& !uuid_named(n) && !text && integer ==> t == "INTEGER"@
            &&& !uuid_named(n) && !text && !integer && ts ==> t == "TIMESTAMP"@
            &&& !uuid_named(n) && !text && !integer && !ts && b ==> t == "BOOLEAN"@
            &&& !uuid_named(n) && !text && !integer && !ts && !b ==> t == "UUID"@
        }),
{
}

fn has(name: &Vec<char>, lit: &str) -> (r: bool)
    ensures
        r == contains_seq(name@, lit@),
{
    let p = chars_of(lit);
    contains_exec(name, &p)
}

fn begins(name: &Vec<char>, lit: &str) -> (r: bool)
    ensures
        r == starts_with(name@, lit@),
{
    let p = chars_of(lit);
    starts_with_exec(name, &p)
}

/// Infer a PostgreSQL type from conventional column-name patterns.
pub fn infer_type_from_column_name(col_name: &Vec<char>) -> (r: String)
    ensures
        r@ == spec_type_from_column_name(col_name@),
{
    let name = chars_of(to_lowercase(string_of(col_name).as_str()).as_str());
    let id = chars_of("id");
    let suffix_id = chars_of("_id");
    if seq_eq(&name, &id) || ends_with_exec(&name, &suffix_id) || has(&name, "uuid") {
        return "UUID".to_owned();
    }
    if has(&name, "name") || has(&name, "title") || has(&name, "text") || has(&name, "description")
        || has(&name, "email") {
        return "TEXT".to_owned();
    }
    if begins(&name, "pk_") || begins(&name, "fk_") || has(&name, "count") || has(&name, "number")
        || has(&name, "size") {
        return "INTEGER".to_owned();
    }
    if has(&name, "date") || has(&name, "time") || has(&name, "created") || has(&name, "updated")
        || has(&name, "timestamp") {
        return "TIMESTAMP".to_owned();
    }
    if begins(&name, "is_") || begins(&name, "has_") || has(&name, "active") || has(
        &name,
        "enabled",
    ) || has(&name, "deleted") {
        return "BOOLEAN".to_owned();
    }
    "UUID".to_owned()
}

/// Scan for the `)` that brings the parenthesis depth (counted from 0 at the
/// start) back to 0.
pub open spec fn matching_paren_scan(s: Seq<char>, i: int, depth: int) -> Option<int>
    decreases s.len() - i,
{
    if i < 0 || i >= s.len() {
        None
    } else if s[i] == '(' {
        matching_paren_scan(s, i + 1, depth + 1)
    } else if s[i] == ')' {
        if depth - 1 == 0 {
            Some(i)
        } else {
            matching_paren_scan(s, i + 1, depth - 1)
        }
    } else {
        matching_paren_scan(s, i + 1, depth)
    }
}

pub open spec fn spec_find_matching_paren(s: Seq<char>) -> Option<int> {
    matching_paren_scan(s, 0, 0)
}

proof fn lemma_matching_paren_bound(s: Seq<char>, i: int, depth: int)
    ensures
        matching_paren_scan(s, i, depth) matches Some(p) ==> i <= p < s.len(),
    decreases s.len() - i,
{
    if i < 0 || i >= s.len() {
    } else if s[i] == '(' {
        lemma_matching_paren_bound(s, i + 1, depth + 1);
    } else if s[i] == ')' {
        if depth - 1 != 0 {
            lemma_matching_paren_bound(s, i + 1, depth - 1);
        }
    } else {
        lemma_matching_paren_bound(s, i + 1, depth);
    }
}

/// Position of the `)` that closes the parenthesis depth opened in `s`.
pub fn find_matching_paren(s: &Vec<char>) -> (r: Option<usize>)
    ensures
        r matches Some(p) ==> spec_find_matching_paren(s@) == Some(p as int) && p < s.len(),
        r is None ==> spec_find_matching_paren(s@) is None,
{
    proof {
        lemma_matching_paren_bound(s@, 0, 0);
    }
    let mut opens: usize = 0;
    let mut closes: usize = 0;
    let mut i: usize = 0;
    while i < s.len()
        invariant
            i <= s.len(),
            opens <= i,
            closes <= i,
            matching_paren_scan(s@, i as int, opens - closes) == spec_find_matching_paren(s@),
        decreases s.len() - i,
    {
        let c = s[i];
        if c == '(' {
            opens += 1;
        } else if c == ')' {
            if closes + 1 == opens {
                return Some(i);
            }
            closes += 1;
        }
        i += 1;
    }
    None
}

/// The type of the selected expression of `SELECT expr FROM …`.
pub open spec fn spec_element_type_from_subquery(subquery: Seq<char>) -> Option<Seq<char>> {
    let query = trim_seq(subquery);
    let upper = upper_seq(query);
    if !starts_with(upper, "SELECT "@) {
        None
    } else {
        let select_part = match first_match_from(upper, " FROM "@, 0) {
            Some(f) => if f >= 7 {
                query.subrange(7, f)
            } else {
                Seq::empty()
            },
            None => query.subrange(7, query.len() as int),
        };
        Some(spec_type_from_column_name(after_last_dot(trim_seq(select_part))))
    }
}

proof fn lemma_after_last_dot_whole(s: Seq<char>)
    requires
        forall|j: int| 0 <= j < s.len() ==> #[trigger] s[j] != '.',
    ensures
        after_last_dot(s) == s,
    decreases s.len(),
{
    if s.len() > 0 {
        lemma_after_last_dot_whole(s.drop_last());
        assert(s.drop_last().push(s.last()) =~= s);
    }
}

fn last_dot_segment(v: &Vec<char>) -> (r: Vec<char>)
    ensures
        r@ == after_last_dot(v@),
{
    let mut d = v.len();
    while d > 0 && v[d - 1] != '.'
        invariant
            d <= v.len(),
            forall|j: int| d <= j < v.len() ==> #[trigger] v@[j] != '.',
        decreases d,
    {
        d -= 1;
    }
    proof {
        lemma_suffix_after_dot(v@, d as int);
    }
    subvec(v, d, v.len())
}

proof fn lemma_suffix_after_dot(s: Seq<char>, k: int)
    requires
        0 <= k <= s.len(),
        k == 0 || s[k - 1] == '.',
        forall|j: int| k <= j < s.len() ==> #[trigger] s[j] != '.',
    ensures
        after_last_dot(s) == s.subrange(k, s.len() as int),
    decreases s.len(),
{
    if s.len() > k {
        lemma_suffix_after_dot(s.drop_last(), k);
        assert(s.drop_last().subrange(k, s.len() - 1).push(s.last()) =~= s.subrange(
            k,
            s.len() as int,
        ));
    } else {
        assert(s.subrange(k, s.len() as int) =~= Seq::<char>::empty());
    }
}

/// Infer the element type from a subquery like `SELECT column FROM table`.
pub fn infer_element_type_from_subquery(subquery: &Vec<char>) -> (r: Option<String>)
    ensures
        r matches Some(t) ==> spec_element_type_from_subquery(subquery@) == Some(t@),
        r is None ==> spec_element_type_from_subquery(subquery@) is None,
{
    let query = trimmed(subquery);
    let upper = upper_vec(&query);
    let select_kw = chars_of("SELECT ");
    let from_kw = chars_of(" FROM ");
    proof {
        reveal_strlit("SELECT ");
        reveal_strlit(" FROM ");
    }
    if !starts_with_exec(&upper, &select_kw) {
        return None;
    }
    let select_part = match find_from(&upper, &from_kw, 0) {
        Some(f) => {
            proof {
                lemma_first_match_complete(upper@, from_kw@, 0);
            }
            if f >= 7 {
                subvec(&query, 7, f)
            } else {
                Vec::new()
            }
        },
        None => subvec(&query, 7, query.len()),
    };
    let selected = trimmed(&select_part);
    let col = last_dot_segment(&selected);
    Some(infer_type_from_column_name(&col))
}

/// Upper-casing (ASCII) keeps a space a space and makes nothing else one.
proof fn lemma_upper_space(c: char)
    ensures
        (crate::text::spec_upper(c) == ' ') <==> (c == ' '),
        c == '.' ==> crate::text::spec_upper(c) == '.',
{
    if 'a' <= c && c <= 'z' {
        assert((c as u32) - 32 >= 65);
    }
}

/// The element type of `SELECT <alias>.<col> FROM <rest>` is the type the
/// column's name suggests (its last dotted part, `<col>`).
pub proof fn law_subquery_element_is_column_type(alias: Seq<char>, col: Seq<char>, rest: Seq<char>)
    requires
        forall|m: int| 0 <= m < alias.len() ==> !is_ws(#[trigger] alias[m]),
        forall|m: int| 0 <= m < col.len() ==> !is_ws(#[trigger] col[m]) && col[m] != '.',
        rest.len() > 0,
        !is_ws(rest.last()),
    ensures
        spec_element_type_from_subquery("SELECT "@ + alias + "."@ + col + " FROM "@ + rest)
            == Some(spec_type_from_column_name(col)),
{
    reveal_strlit("SELECT ");
    reveal_strlit(" FROM ");
    reveal_strlit(".");
    let e = alias + "."@ + col;
    let q = "SELECT "@ + alias + "."@ + col + " FROM "@ + rest;
    let f: int = 7 + e.len() as int;
    let d = alias.len() as int;
    assert(q =~= "SELECT "@ + e + " FROM "@ + rest);
    assert(e[d] == '.');
    assert forall|m: int| 0 <= m < e.len() implies !is_ws(#[trigger] e[m]) by {
        if m < d {
            assert(e[m] == alias[m]);
        } else if m > d {
            assert(e[m] == col[m - d - 1]);
        }
    }
    assert forall|m: int| 0 <= m < e.len() implies #[trigger] q[7 + m] == e[m] by {}
    assert forall|m: int| 0 <= m < 6 implies #[trigger] q[f + m] == " FROM "@[m] by {}
    // no trimming
    assert(!is_ws(q[0]));
    assert(q.last() == rest.last());
    assert(trim_start_seq(q) == q);
    assert(trim_end_seq(q) == q);
    assert(trim_seq(q) == q);
    let upper = upper_seq(q);
    assert(upper.subrange(0, 7) =~= "SELECT "@);
    assert(starts_with(upper, "SELECT "@));
    // ` FROM ` first occurs right after the selected expression
    assert(upper.subrange(f, f + 6) =~= " FROM "@) by {
        assert forall|m: int| 0 <= m < 6 implies upper.subrange(f, f + 6)[m] == " FROM "@[m] by {
            lemma_upper_space(q[f + m]);
        }
    }
    assert forall|j: int| 0 <= j < f implies !matches_at(upper, j, " FROM "@) by {
        if matches_at(upper, j, " FROM "@) {
            assert(upper.subrange(j, j + 6)[0] == upper[j]);
            assert(upper.subrange(j, j + 6)[5] == upper[j + 5]);
            lemma_upper_space(q[j]);
            lemma_upper_space(q[j + 5]);
            assert(q[j] == ' ');
            assert(q[j + 5] == ' ');
            if 7 <= j {
                assert(q[7 + (j - 7)] == e[j - 7]);
            }
            assert(j == 6);
            if 11 < f {
                assert(q[11int] == e[4int]);
            }
            assert(f == 11);
            assert(q[7 + d] == '.');
            lemma_upper_space(q[7 + d]);
            assert(upper.subrange(j, j + 6)[1 + d] == upper[7 + d]);
        }
    }
    assert(upper.len() == q.len());
    assert(matches_at(upper, f, " FROM "@));
    lemma_first_match_complete(upper, " FROM "@, 0);
    assert(first_match_from(upper, " FROM "@, 0) == Some(f)) by {
        match first_match_from(upper, " FROM "@, 0) {
            Some(i) => {
                if i < f {
                    assert(!matches_at(upper, i, " FROM "@));
                }
                if i > f {
                    assert(!matches_at(upper, f, " FROM "@));
                }
            },
            None => {
                assert(!matches_at(upper, f, " FROM "@));
            },
        }
    }
    assert(q.subrange(7, f) =~= e);
    assert(trim_start_seq(e) == e);
    assert(trim_end_seq(e) == e);
    assert forall|j: int| d + 1 <= j < e.len() implies #[trigger] e[j] != '.' by {
        assert(e[j] == col[j - d - 1]);
    }
    lemma_suffix_after_dot(e, d + 1);
    assert(e.subrange(d + 1, e.len() as int) =~= col);
}

/// Element type of an `ARRAY(subquery)` expression, as `<type>[]`.
pub open spec fn spec_infer_array_element_type(array_expr: Seq<char>) -> Seq<char> {
    match first_match_from(upper_seq(array_expr), "ARRAY("@, 0) {
        None => "UUID[]"@,
        Some(start) => match spec_find_matching_paren(array_expr.skip(start + 5)) {
            None => "UUID[]"@,
            Some(end) => match spec_element_type_from_subquery(
                array_expr.subrange(start + 6, start + 5 + end),
            ) {
                Some(t) => t + "[]"@,
                None => "UUID[]"@,
            },
        },
    }
}

/// Within depth 1 and no parenthesis before `n`, the `)` at `n` closes.
proof fn lemma_scan_to_close(t: Seq<char>, i: int, n: int)
    requires
        0 <= i <= n < t.len(),
        t[n] == ')',
        forall|m: int| i <= m < n ==> #[trigger] t[m] != '(' && t[m] != ')',
    ensures
        matching_paren_scan(t, i, 1) == Some(n),
    decreases n - i,
{
    if i < n {
        lemma_scan_to_close(t, i + 1, n);
    }
}

/// An `ARRAY(SELECT <alias>.<col> FROM <rest>)` column is an array of the
/// type the column's name suggests: `ARRAY(SELECT p.title FROM tb_post p)`
/// is `TEXT[]`.
pub proof fn law_array_of_column_type(alias: Seq<char>, col: Seq<char>, rest: Seq<char>)
    requires
        forall|m: int| 0 <= m < alias.len() ==> !is_ws(#[trigger] alias[m]) && alias[m] != '(' && alias[m] != ')',
        forall|m: int| 0 <= m < col.len() ==> !is_ws(#[trigger] col[m]) && col[m] != '.' && col[m] != '(' && col[m] != ')',
        forall|m: int| 0 <= m < rest.len() ==> #[trigger] rest[m] != '(' && rest[m] != ')',
        rest.len() > 0,
        !is_ws(rest.last()),
    ensures
        spec_infer_array_element_type("ARRAY("@ + ("SELECT "@ + alias + "."@ + col + " FROM "@ + rest) + ")"@)
            == spec_type_from_column_name(col) + "[]"@,
{
    reveal_strlit("ARRAY(");
    reveal_strlit("SELECT ");
    reveal_strlit(" FROM ");
    reveal_strlit(".");
    reveal_strlit(")");
    let sub = "SELECT "@ + alias + "."@ + col + " FROM "@ + rest;
    let expr = "ARRAY("@ + sub + ")"@;
    law_subquery_element_is_column_type(alias, col, rest);
    let upper = upper_seq(expr);
    assert(upper.subrange(0, 6) =~= "ARRAY("@);
    assert(first_match_from(upper, "ARRAY("@, 0) == Some(0int));
    let t = expr.skip(5);
    let n: int = sub.len() as int + 1;
    assert forall|m: int| 0 <= m < sub.len() implies #[trigger] sub[m] != '(' && sub[m] != ')' by {
        let a = alias.len() as int;
        let c = col.len() as int;
        if m < 7 {
        } else if m < 7 + a {
            assert(sub[m] == alias[m - 7]);
        } else if m == 7 + a {
        } else if m < 8 + a + c {
            assert(sub[m] == col[m - 8 - a]);
        } else if m < 14 + a + c {
        } else {
            assert(sub[m] == rest[m - 14 - a - c]);
        }
    }
    assert forall|m: int| 1 <= m < n implies #[trigger] t[m] != '(' && t[m] != ')' by {
        assert(t[m] == sub[m - 1]);
    }
    assert(t[0] == '(');
    assert(t[n] == ')');
    lemma_scan_to_close(t, 1, n);
    assert(spec_find_matching_paren(t) == Some(n));
    assert(expr.subrange(6, 5 + n) =~= sub);
}

/// Infer the element type of an `ARRAY(...)` subquery expression.
pub fn infer_array_element_type(array_expr: &Vec<char>) -> (r: String)
    ensures
        r@ == spec_infer_array_element_type(array_expr@),
{
    let upper = upper_vec(array_expr);
    let kw = chars_of("ARRAY(");
    proof {
        reveal_strlit("ARRAY(");
    }
    if let Some(start) = find_from(&upper, &kw, 0) {
        proof {
            lemma_first_match_complete(upper@, kw@, 0);
            assert(upper@.subrange(start as int, start + 6)[5] == upper@[start + 5]);
        }
        let rest = subvec(array_expr, start + 5, array_expr.len());
        assert(rest@ =~= array_expr@.skip(start + 5));
        if let Some(end) = find_matching_paren(&rest) {
            proof {
                // the first character of `rest` is the opening '(' so the
                // closing one comes strictly after it
                assert(upper@[start + 5] == '(');
                assert(rest@[0] == array_expr@[start + 5]);
                assert(crate::text::spec_upper(array_expr@[start + 5]) == '(');
                assert(array_expr@[start + 5] == '(');
                assert(matching_paren_scan(rest@, 0, 0) == matching_paren_scan(rest@, 1, 1));
                lemma_matching_paren_bound(rest@, 1, 1);
            }
            let sub = subvec(array_expr, start + 6, start + 5 + end);
            if let Some(element_type) = infer_element_type_from_subquery(&sub) {
                let mut t = element_type;
                t.append("[]");
                return t;
            }
        }
    }
    "UUID[]".to_owned()
}

/// PostgreSQL type of a column, inferred from its SQL expression.
pub open spec fn spec_infer_column_type(sql_expression: Seq<char>) -> Seq<char> {
    let expr = trim_seq(sql_expression);
    if starts_with(unicode_uppercase(expr), "ARRAY("@) {
        spec_infer_array_element_type(expr)
    } else if contains_seq(unicode_lowercase(expr), "jsonb_agg("@) {
        "JSONB"@
    } else {
        "TEXT"@
    }
}

/// Infer the PostgreSQL type of a column from its SQL expression: `ARRAY(...)`
/// subqueries give an array of the element type, `jsonb_agg(` gives JSONB,
/// anything else TEXT.
pub fn infer_column_type(sql_expression: &str) -> (r: String)
    ensures
        r@ == spec_infer_column_type(sql_expression@),
{
    let chars = chars_of(sql_expression);
    infer_column_type_chars(&chars)
}

fn infer_column_type_chars(sql_expression: &Vec<char>) -> (r: String)
    ensures
        r@ == spec_infer_column_type(sql_expression@),
{
    let expr = trimmed(sql_expression);
    let expr_text = string_of(&expr);
    let upper = chars_of(to_uppercase(expr_text.as_str()).as_str());
    let arr = chars_of("ARRAY(");
    if starts_with_exec(&upper, &arr) {
        return infer_array_element_type(&expr);
    }
    let lower = chars_of(to_lowercase(expr_text.as_str()).as_str());
    let agg = chars_of("jsonb_agg(");
    if contains_exec(&lower, &agg) {
        return "JSONB".to_owned();
    }
    "TEXT".to_owned()
}

// ───────────────────────── schema ─────────────────────────

pub open spec fn names_of(cols: Seq<(Seq<char>, Seq<char>)>) -> Seq<Seq<char>> {
    Seq::new(cols.len(), |i: int| cols[i].0)
}

/// First name among the first `n` with prefix `pk_`.
pub open spec fn first_pk(names: Seq<Seq<char>>, n: int) -> Option<Seq<char>>
    decreases names.len() - n,
{
    if n < 0 || n >= names.len() {
        None
    } else if starts_with(names[n], "pk_"@) {
        Some(names[n])
    } else {
        first_pk(names, n + 1)
    }
}

/// Names among the first `n` satisfying the fk rule (`starts_with fk_`).
pub open spec fn fk_names(names: Seq<Seq<char>>, n: int) -> Seq<Seq<char>>
    decreases n,
{
    if n <= 0 || n > names.len() {
        Seq::empty()
    } else if starts_with(names[n - 1], "fk_"@) {
        fk_names(names, n - 1).push(names[n - 1])
    } else {
        fk_names(names, n - 1)
    }
}

/// Names among the first `n` ending in `_id`, other than `id` itself.
pub open spec fn uuid_fk_names(names: Seq<Seq<char>>, n: int) -> Seq<Seq<char>>
    decreases n,
{
    if n <= 0 || n > names.len() {
        Seq::empty()
    } else if ends_with(names[n - 1], "_id"@) && names[n - 1] != "id"@ {
        uuid_fk_names(names, n - 1).push(names[n - 1])
    } else {
        uuid_fk_names(names, n - 1)
    }
}

pub open spec fn opt_is(o: Option<Seq<char>>, name: Seq<char>) -> bool {
    o matches Some(x) && x == name && x.len() > 0
}

/// A column is one of the schema's categorised columns.
pub open spec fn categorised(
    pk: Option<Seq<char>>,
    id: Option<Seq<char>>,
    identifier: Option<Seq<char>>,
    data: Option<Seq<char>>,
    fks: Seq<Seq<char>>,
    uuid_fks: Seq<Seq<char>>,
    name: Seq<char>,
) -> bool {
    opt_is(pk, name) || opt_is(id, name) || opt_is(identifier, name) || opt_is(data, name)
        || fks.contains(name) || uuid_fks.contains(name)
}

/// Non-categorised columns among the first `n`, with their inferred types.
pub open spec fn additional_columns(
    cols: Seq<(Seq<char>, Seq<char>)>,
    m: SchemaModel,
    n: int,
) -> Seq<(Seq<char>, Seq<char>)>
    decreases n,
{
    if n <= 0 || n > cols.len() {
        Seq::empty()
    } else if categorised(
        m.pk_column,
        m.id_column,
        m.identifier_column,
        m.data_column,
        m.fk_columns,
        m.uuid_fk_columns,
        cols[n - 1].0,
    ) {
        additional_columns(cols, m, n - 1)
    } else {
        additional_columns(cols, m, n - 1).push((cols[n - 1].0, spec_infer_column_type(cols[n - 1].1)))
    }
}

pub open spec fn opt_if(b: bool, s: Seq<char>) -> Option<Seq<char>> {
    if b { Some(s) } else { None }
}

/// The categorised columns, before the additional ones are filled in.
pub open spec fn base_schema(cols: Seq<(Seq<char>, Seq<char>)>) -> SchemaModel {
    let names = names_of(cols);
    let pk = first_pk(names, 0);
    SchemaModel {
        pk_column: pk,
        id_column: opt_if(names.contains("id"@), "id"@),
        identifier_column: opt_if(names.contains("identifier"@), "identifier"@),
        data_column: opt_if(names.contains("data"@), "data"@),
        fk_columns: fk_names(names, names.len() as int),
        uuid_fk_columns: uuid_fk_names(names, names.len() as int),
        additional_columns: Seq::empty(),
        additional_columns_with_types: Seq::empty(),
        entity_name: match pk {
            Some(p) => Some(p.skip(3)),
            None => None,
        },
    }
}

/// The schema inferred from the select-list entries `cols`.
pub open spec fn schema_of(cols: Seq<(Seq<char>, Seq<char>)>) -> SchemaModel {
    let b = base_schema(cols);
    let add = additional_columns(cols, b, cols.len() as int);
    SchemaModel {
        additional_columns: Seq::new(add.len(), |i: int| add[i].0),
        additional_columns_with_types: add,
        ..b
    }
}

pub open spec fn opt_seq(o: Option<Seq<char>>) -> Seq<Seq<char>> {
    match o {
        Some(x) => seq![x],
        None => Seq::empty(),
    }
}

/// The categorised columns in checking order.
pub open spec fn categorised_list(m: SchemaModel) -> Seq<Seq<char>> {
    opt_seq(m.pk_column) + opt_seq(m.id_column) + opt_seq(m.identifier_column) + opt_seq(
        m.data_column,
    ) + m.fk_columns + m.uuid_fk_columns
}

/// First entry at or after `k` that already occurred before it.
pub open spec fn first_repeat(l: Seq<Seq<char>>, k: int) -> Option<Seq<char>>
    decreases l.len() - k,
{
    if k < 0 || k >= l.len() {
        None
    } else if l.take(k).contains(l[k]) {
        Some(l[k])
    } else {
        first_repeat(l, k + 1)
    }
}

/// Why a schema is refused: no `id` column, or a column in two categories.
pub enum SchemaFault {
    MissingId,
    Repeated(Seq<char>),
}

pub open spec fn spec_validate_schema(m: SchemaModel) -> Option<SchemaFault> {
    if m.id_column is None {
        Some(SchemaFault::MissingId)
    } else {
        match first_repeat(categorised_list(m), 0) {
            Some(x) => Some(SchemaFault::Repeated(x)),
            None => None,
        }
    }
}

/// `e` is the error reported for the schema fault `f`.
pub open spec fn is_fault_error(e: TViewError, f: SchemaFault) -> bool {
    match f {
        SchemaFault::MissingId => e matches TViewError::RequiredColumnMissing { column_name, context }
            && column_name@ == "id"@ && context@
            == "Trinity identifier pattern requires 'id' column for external API"@,
        SchemaFault::Repeated(x) => e matches TViewError::InvalidSelectStatement { sql, reason }
            && sql@ == "N/A"@ && reason@ == "Column '"@ + x + "' appears in multiple categories"@,
    }
}

fn opt_push(l: &mut Vec<String>, o: &Option<String>)
    ensures
        string_views(final(l)@) == string_views(old(l)@) + opt_seq(opt_string_view(*o)),
{
    match o {
        Some(x) => {
            l.push(x.clone());
            assert(string_views(l@) =~= string_views(old(l)@) + opt_seq(opt_string_view(*o)));
        },
        None => {
            assert(string_views(l@) =~= string_views(old(l)@) + opt_seq(opt_string_view(*o)));
        },
    }
}

fn append_all(l: &mut Vec<String>, xs: &Vec<String>)
    ensures
        string_views(final(l)@) == string_views(old(l)@) + string_views(xs@),
{
    let mut i: usize = 0;
    while i < xs.len()
        invariant
            i <= xs.len(),
            string_views(l@) == string_views(old(l)@) + string_views(xs@).take(i as int),
        decreases xs.len() - i,
    {
        let ghost before = l@;
        let x = xs[i].clone();
        assert(x@ == xs@[i as int]@);
        l.push(x);
        proof {
            assert(string_views(l@) =~= string_views(before).push(xs@[i as int]@));
            assert(string_views(xs@).take(i + 1) =~= string_views(xs@).take(i as int).push(
                xs@[i as int]@,
            ));
        }
        i += 1;
    }
    assert(string_views(xs@).take(xs@.len() as int) =~= string_views(xs@));
}

fn contains_string(l: &Vec<String>, k: usize, x: &String) -> (r: bool)
    requires
        k <= l.len(),
    ensures
        r == string_views(l@).take(k as int).contains(x@),
{
    let mut i: usize = 0;
    while i < k
        invariant
            i <= k <= l.len(),
            forall|j: int| 0 <= j < i ==> #[trigger] l@[j]@ != x@,
        decreases k - i,
    {
        if l[i] == *x {
            assert(string_views(l@).take(k as int)[i as int] == x@);
            return true;
        }
        i += 1;
    }
    proof {
        if string_views(l@).take(k as int).contains(x@) {
            let j = choose|j: int|
                0 <= j < k && #[trigger] string_views(l@).take(k as int)[j] == x@;
            assert(l@[j]@ == x@);
        }
    }
    false
}

/// Validate an inferred schema: an `id` column is required, and no column
/// may appear in two categories.
pub fn validate_schema(schema: &TViewSchema) -> (r: TViewResult<()>)
    ensures
        match spec_validate_schema(schema@) {
            None => r is Ok,
            Some(f) => r matches Err(e) && is_fault_error(e, f),
        },
{
    if schema.id_column.is_none() {
        return Err(
            TViewError::RequiredColumnMissing {
                column_name: "id".to_owned(),
                context: "Trinity identifier pattern requires 'id' column for external API".to_owned(),
            },
        );
    }
    let mut all: Vec<String> = Vec::new();
    opt_push(&mut all, &schema.pk_column);
    opt_push(&mut all, &schema.id_column);
    opt_push(&mut all, &schema.identifier_column);
    opt_push(&mut all, &schema.data_column);
    append_all(&mut all, &schema.fk_columns);
    append_all(&mut all, &schema.uuid_fk_columns);
    let ghost l = categorised_list(schema@);
    assert(string_views(all@) =~= l);
    let mut k: usize = 0;
    while k < all.len()
        invariant
            k <= all.len(),
            string_views(all@) == l,
            l == categorised_list(schema@),
            schema@.id_column is Some,
            first_repeat(l, k as int) == first_repeat(l, 0),
        decreases all.len() - k,
    {
        assert(l[k as int] == all@[k as int]@);
        if contains_string(&all, k, &all[k]) {
            let mut reason = "Column '".to_owned();
            reason.append(all[k].as_str());
            reason.append("' appears in multiple categories");
            assert(first_repeat(l, k as int) == Some(l[k as int]));
            assert(reason@ == "Column '"@ + l[k as int] + "' appears in multiple categories"@);
            return Err(TViewError::InvalidSelectStatement { sql: "N/A".to_owned(), reason });
        }
        k += 1;
    }
    Ok(())
}

fn string_from_chars(v: &Vec<char>) -> (r: String)
    ensures
        r@ == v@,
{
    string_of(v)
}

fn names_contain(cols: &Vec<(String, String)>, lit: &str) -> (r: bool)
    ensures
        r == names_of(pair_string_views(cols@)).contains(lit@),
{
    let x = lit.to_owned();
    let mut i: usize = 0;
    while i < cols.len()
        invariant
            i <= cols.len(),
            x@ == lit@,
            forall|j: int| 0 <= j < i ==> #[trigger] cols@[j].0@ != lit@,
        decreases cols.len() - i,
    {
        if cols[i].0 == x {
            assert(names_of(pair_string_views(cols@))[i as int] == lit@);
            return true;
        }
        i += 1;
    }
    proof {
        if names_of(pair_string_views(cols@)).contains(lit@) {
            let j = choose|j: int|
                0 <= j < cols@.len() && #[trigger] names_of(pair_string_views(cols@))[j] == lit@;
            assert(cols@[j].0@ == lit@);
        }
    }
    false
}

fn opt_str_is(o: &Option<String>, name: &String) -> (r: bool)
    ensures
        r == opt_is(opt_string_view(*o), name@),
{
    match o {
        Some(x) => *x == *name && !x.as_str().is_empty(),
        None => false,
    }
}

/// Infer the TVIEW schema from a SELECT statement: `pk_<entity>`, `id`,
/// `identifier`, `data`, `fk_*` and `*_id` columns are categorised; the others
/// are additional columns with inferred types. The result is validated.
pub fn infer_schema(sql: &str) -> (r: TViewResult<TViewSchema>)
    ensures
        match spec_columns_with_expressions(sql@) {
            Err(e) => r matches Err(TViewError::InvalidSelectStatement { sql: s, reason })
                && s@ == sql@ && reason@ == e,
            Ok(cols) => match spec_validate_schema(schema_of(cols)) {
                None => r matches Ok(m) && m@ == schema_of(cols),
                Some(f) => r matches Err(e) && is_fault_error(e, f),
            },
        },
{
    let cols = match parse_select_columns_with_expressions(sql) {
        Err(e) => {
            return Err(TViewError::InvalidSelectStatement { sql: sql.to_owned(), reason: e });
        },
        Ok(c) => c,
    };
    let ghost cv = pair_string_views(cols@);
    assert(cv =~= Seq::new(cols@.len(), |i: int| (cols@[i].0@, cols@[i].1@)));
    let ghost names = names_of(cv);
    // 1. pk_ column
    let mut pk_column: Option<String> = None;
    let mut entity_name: Option<String> = None;
    let pk_kw = chars_of("pk_");
    proof {
        reveal_strlit("pk_");
    }
    let mut i: usize = 0;
    while i < cols.len()
        invariant_except_break
            pk_column is None,
            entity_name is None,
        invariant
            i <= cols.len(),
            cv == pair_string_views(cols@),
            names == names_of(cv),
            pk_kw@ == "pk_"@,
            first_pk(names, i as int) == first_pk(names, 0),
        ensures
            opt_string_view(pk_column) == first_pk(names, 0),
            opt_string_view(entity_name) == (match first_pk(names, 0) {
                Some(p) => Some(p.skip(3)),
                None => None,
            }),
        decreases cols.len() - i,
    {
        proof {
            reveal_strlit("pk_");
        }
        let name = chars_of(cols[i].0.as_str());
        assert(names[i as int] == name@);
        if starts_with_exec(&name, &pk_kw) {
            let ent = subvec(&name, 3, name.len());
            pk_column = Some(cols[i].0.clone());
            entity_name = Some(string_from_chars(&ent));
            assert(ent@ =~= name@.skip(3));
            break;
        }
        i += 1;
    }
    let id_column = if names_contain(&cols, "id") {
        Some("id".to_owned())
    } else {
        None
    };
    let identifier_column = if names_contain(&cols, "identifier") {
        Some("identifier".to_owned())
    } else {
        None
    };
    let data_column = if names_contain(&cols, "data") {
        Some("data".to_owned())
    } else {
        None
    };
    // fk_ and _id columns
    let fk_kw = chars_of("fk_");
    let id_suffix = chars_of("_id");
    let id_name = "id".to_owned();
    let mut fk_columns: Vec<String> = Vec::new();
    let mut uuid_fk_columns: Vec<String> = Vec::new();
    let mut j: usize = 0;
    while j < cols.len()
        invariant
            j <= cols.len(),
            cv == pair_string_views(cols@),
            names == names_of(cv),
            fk_kw@ == "fk_"@,
            id_suffix@ == "_id"@,
            id_name@ == "id"@,
            string_views(fk_columns@) == fk_names(names, j as int),
            string_views(uuid_fk_columns@) == uuid_fk_names(names, j as int),
        decreases cols.len() - j,
    {
        let name = chars_of(cols[j].0.as_str());
        assert(names[j as int] == name@);
        if starts_with_exec(&name, &fk_kw) {
            fk_columns.push(cols[j].0.clone());
        }
        if ends_with_exec(&name, &id_suffix) && cols[j].0 != id_name {
            uuid_fk_columns.push(cols[j].0.clone());
        }
        proof {
            assert(string_views(fk_columns@) =~= fk_names(names, j + 1));
            assert(string_views(uuid_fk_columns@) =~= uuid_fk_names(names, j + 1));
        }
        j += 1;
    }
    let mut schema = TViewSchema {
        pk_column,
        id_column,
        identifier_column,
        data_column,
        fk_columns,
        uuid_fk_columns,
        additional_columns: Vec::new(),
        additional_columns_with_types: Vec::new(),
        entity_name,
    };
    let ghost b = base_schema(cv);
    assert(string_views(schema.additional_columns@) =~= Seq::<Seq<char>>::empty());
    assert(pair_string_views(schema.additional_columns_with_types@) =~= Seq::<
        (Seq<char>, Seq<char>),
    >::empty());
    assert(schema@ == b);
    // additional columns
    let mut k: usize = 0;
    while k < cols.len()
        invariant
            k <= cols.len(),
            cv == pair_string_views(cols@),
            b == base_schema(cv),
            schema@.pk_column == b.pk_column,
            schema@.id_column == b.id_column,
            schema@.identifier_column == b.identifier_column,
            schema@.data_column == b.data_column,
            schema@.fk_columns == b.fk_columns,
            schema@.uuid_fk_columns == b.uuid_fk_columns,
            schema@.entity_name == b.entity_name,
            schema@.additional_columns_with_types == additional_columns(cv, b, k as int),
            schema@.additional_columns == Seq::new(
                additional_columns(cv, b, k as int).len(),
                |x: int| additional_columns(cv, b, k as int)[x].0,
            ),
        decreases cols.len() - k,
    {
        let name = &cols[k].0;
        let fk_has = contains_string(&schema.fk_columns, schema.fk_columns.len(), name);
        let uuid_has = contains_string(
            &schema.uuid_fk_columns,
            schema.uuid_fk_columns.len(),
            name,
        );
        proof {
            assert(string_views(schema.fk_columns@).take(schema.fk_columns@.len() as int)
                =~= string_views(schema.fk_columns@));
            assert(string_views(schema.uuid_fk_columns@).take(
                schema.uuid_fk_columns@.len() as int,
            ) =~= string_views(schema.uuid_fk_columns@));
        }
        let reserved = opt_str_is(&schema.pk_column, name) || opt_str_is(&schema.id_column, name)
            || opt_str_is(&schema.identifier_column, name) || opt_str_is(
            &schema.data_column,
            name,
        );
        let ghost prev_add = additional_columns(cv, b, k as int);
        let ghost prev_names = schema@.additional_columns;
        if !reserved && !fk_has && !uuid_has {
            let inferred = infer_column_type(cols[k].1.as_str());
            let n1 = name.clone();
            let n2 = name.clone();
            schema.additional_columns.push(n1);
            schema.additional_columns_with_types.push((n2, inferred));
            proof {
                assert(schema@.additional_columns =~= prev_names.push(cv[k as int].0));
                assert(additional_columns(cv, b, k + 1) == prev_add.push(
                    (cv[k as int].0, spec_infer_column_type(cv[k as int].1)),
                ));
            }
        } else {
            assert(additional_columns(cv, b, k + 1) == prev_add);
        }
        proof {
            assert(schema@.additional_columns_with_types =~= additional_columns(
                cv,
                b,
                k + 1,
            ));
            assert(schema@.additional_columns =~= Seq::new(
                additional_columns(cv, b, k + 1).len(),
                |x: int| additional_columns(cv, b, k + 1)[x].0,
            ));
        }
        k += 1;
    }
    assert(schema@ == schema_of(cv));
    match validate_schema(&schema) {
        Err(e) => Err(e),
        Ok(()) => Ok(schema),
    }
}

} // verus!
