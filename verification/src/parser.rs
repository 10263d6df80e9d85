//! Parsing of `CREATE TABLE tv_<name> AS SELECT ...` statements.
//!
//! The grammar, matched case-insensitively at the first position where it
//! applies: `CREATE` ws `TABLE` ws [word `.`] word ws `AS` ws rest, where ws is
//! a run of whitespace, a word is a run of alphanumeric characters or `_`, and
//! the rest (line breaks included) is the SELECT statement.
use vstd::prelude::*;
use crate::error::{TViewError, TViewResult};
use crate::text::{chars_of, contains_exec, contains_seq, is_alphanumeric, is_ws, is_ws_exec, lower_seq, lower_vec, matches_at, matches_at_exec, starts_with, starts_with_exec, string_of_range, subvec, trim_seq, trimmed, unicode_alphanumeric, to_uppercase, unicode_uppercase, string_of};

verus! {

/// A parsed `CREATE TABLE tv_<name> AS SELECT ...` statement.
#[derive(Debug, Clone)]
pub struct CreateTViewStmt {
    pub tview_name: String,
    pub schema_name: Option<String>,
    pub select_sql: String,
}

/// A character of a word: alphanumeric or `_`.
pub open spec fn is_word_char(c: char) -> bool {
    unicode_alphanumeric(c) || c == '_'
}

/// End of the run of whitespace starting at `i`.
pub open spec fn ws_end(s: Seq<char>, i: int) -> int
    decreases s.len() - i,
{
    if i < 0 || i >= s.len() || !is_ws(s[i]) {
        i
    } else {
        ws_end(s, i + 1)
    }
}

/// End of the word starting at `i`.
pub open spec fn word_end(s: Seq<char>, i: int) -> int
    decreases s.len() - i,
{
    if i < 0 || i >= s.len() || !is_word_char(s[i]) {
        i
    } else {
        word_end(s, i + 1)
    }
}

/// Where the parts of a statement matched at some position lie.
pub struct CreateMatch {
    pub schema: Option<(int, int)>,
    pub name: (int, int),
    pub select_start: int,
}

/// The grammar matched at position `i` of `t`.
pub open spec fn create_match_at(t: Seq<char>, i: int) -> Option<CreateMatch> {
    let low = lower_seq(t);
    let a = i + 6;
    let b = ws_end(t, a);
    let c = b + 5;
    let d = ws_end(t, c);
    let e = word_end(t, d);
    let with_schema = e < t.len() && t[e] == '.' && word_end(t, e + 1) > e + 1;
    let name_start = if with_schema { e + 1 } else { d };
    let name_end = if with_schema { word_end(t, e + 1) } else { e };
    let f = ws_end(t, name_end);
    let g = f + 2;
    let h = ws_end(t, g);
    if matches_at(low, i, "create"@) && b > a && matches_at(low, b, "table"@) && d > c && e > d
        && f > name_end && matches_at(low, f, "as"@) && h > g && h < t.len() {
        Some(
            CreateMatch {
                schema: if with_schema { Some((d, e)) } else { None },
                name: (name_start, name_end),
                select_start: h,
            },
        )
    } else {
        None
    }
}

/// The match at the first position at or after `i` where the grammar applies.
pub open spec fn first_create_match(t: Seq<char>, i: int) -> Option<CreateMatch>
    decreases t.len() - i,
{
    if i < 0 || i >= t.len() {
        None
    } else {
        match create_match_at(t, i) {
            Some(m) => Some(m),
            None => first_create_match(t, i + 1),
        }
    }
}

pub open spec fn no_match_reason() -> Seq<char> {
    "Could not parse CREATE TABLE tv_ AS SELECT statement. Syntax: CREATE TABLE tv_name AS SELECT ...\nSee docs for limitations."@
}

/// `r` is what parsing `sql` gives.
pub open spec fn parse_outcome(sql: Seq<char>, r: TViewResult<CreateTViewStmt>) -> bool {
    let t = trim_seq(sql);
    match first_create_match(t, 0) {
        None => r matches Err(TViewError::InvalidSelectStatement { sql: s, reason })
            && s@ == sql && reason@ == no_match_reason(),
        Some(m) => {
            let name = t.subrange(m.name.0, m.name.1);
            let select = t.subrange(m.select_start, t.len() as int);
            if !starts_with(name, "tv_"@) {
                r matches Err(TViewError::InvalidTViewName { name: n, reason })
                    && n@ == name && reason@ == "TVIEW name must start with 'tv_'"@
            } else if !starts_with(unicode_uppercase(select), "SELECT"@) {
                r matches Err(TViewError::InvalidSelectStatement { sql: s, reason })
                    && s@ == select && reason@ == "Expected SELECT statement after AS"@
            } else {
                r matches Ok(stmt) && stmt.tview_name@ == name && stmt.select_sql@ == select
                    && match m.schema {
                    Some(sc) => stmt.schema_name matches Some(sn) && sn@ == t.subrange(sc.0, sc.1),
                    None => stmt.schema_name is None,
                }
            }
        },
    }
}

fn ws_end_exec(s: &Vec<char>, i: usize) -> (r: usize)
    requires
        i <= s.len(),
    ensures
        r == ws_end(s@, i as int),
        i <= r <= s.len(),
    decreases s.len() - i,
{
    if i < s.len() && is_ws_exec(s[i]) {
        ws_end_exec(s, i + 1)
    } else {
        i
    }
}

fn is_word_char_exec(c: char) -> (r: bool)
    ensures
        r == is_word_char(c),
{
    c == '_' || is_alphanumeric(c)
}

fn word_end_exec(s: &Vec<char>, i: usize) -> (r: usize)
    requires
        i <= s.len(),
    ensures
        r == word_end(s@, i as int),
        i <= r <= s.len(),
    decreases s.len() - i,
{
    if i < s.len() && is_word_char_exec(s[i]) {
        word_end_exec(s, i + 1)
    } else {
        i
    }
}

fn match_at_exec(t: &Vec<char>, low: &Vec<char>, create: &Vec<char>, table: &Vec<char>, as_kw: &Vec<char>, i: usize) -> (r: Option<(Option<(usize, usize)>, (usize, usize), usize)>)
    requires
        i < t.len(),
        low@ == lower_seq(t@),
        create@ == "create"@,
        table@ == "table"@,
        as_kw@ == "as"@,
    ensures
        match create_match_at(t@, i as int) {
            None => r is None,
            Some(m) => r matches Some(x) && x.2 == m.select_start && x.1.0 == m.name.0 && x.1.1
                == m.name.1 && match m.schema {
                Some(sc) => x.0 matches Some(y) && y.0 == sc.0 && y.1 == sc.1,
                None => x.0 is None,
            } && m.name.0 <= m.name.1 <= t@.len() && m.select_start <= t@.len() && match m.schema {
                Some(sc) => 0 <= sc.0 <= sc.1 <= t@.len(),
                None => true,
            } && 0 <= m.name.0,
        },
{
    proof {
        reveal_strlit("create");
        reveal_strlit("table");
        reveal_strlit("as");
    }
    let n = t.len();
    if !matches_at_exec(low, i, create) {
        return None;
    }
    let a = i + 6;
    let b = ws_end_exec(t, a);
    if b == a || !matches_at_exec(low, b, table) {
        return None;
    }
    let c = b + 5;
    let d = ws_end_exec(t, c);
    if d == c {
        return None;
    }
    let e = word_end_exec(t, d);
    if e == d {
        return None;
    }
    let mut schema: Option<(usize, usize)> = None;
    let mut name_start = d;
    let mut name_end = e;
    if e < n && t[e] == '.' {
        let w = word_end_exec(t, e + 1);
        if w > e + 1 {
            schema = Some((d, e));
            name_start = e + 1;
            name_end = w;
        }
    }
    let f = ws_end_exec(t, name_end);
    if f == name_end || !matches_at_exec(low, f, as_kw) {
        return None;
    }
    let g = f + 2;
    let h = ws_end_exec(t, g);
    if h == g || h >= n {
        return None;
    }
    Some((schema, (name_start, name_end), h))
}

/// Parse `CREATE TABLE [schema.]tv_name AS SELECT ...`. The statement is
/// trimmed first; the SELECT statement is everything after `AS`, line breaks
/// included. The name must start with `tv_` and the statement with `SELECT`.
pub fn parse_create_tview(sql: &str) -> (r: TViewResult<CreateTViewStmt>)
    ensures
        parse_outcome(sql@, r),
{
    let all = chars_of(sql);
    let t = trimmed(&all);
    let low = lower_vec(&t);
    let create = chars_of("create");
    let table = chars_of("table");
    let as_kw = chars_of("as");
    let ghost tv = t@;
    let mut i: usize = 0;
    while i < t.len()
        invariant
            i <= t@.len(),
            tv == t@,
            tv == trim_seq(sql@),
            low@ == lower_seq(t@),
            create@ == "create"@,
            table@ == "table"@,
            as_kw@ == "as"@,
            first_create_match(tv, i as int) == first_create_match(tv, 0),
        decreases t.len() - i,
    {
        match match_at_exec(&t, &low, &create, &table, &as_kw, i) {
            None => {},
            Some((schema, (ns, ne), h)) => {
                let name = string_of_range(&t, ns, ne);
                let select = string_of_range(&t, h, t.len());
                let tv_prefix = chars_of("tv_");
                let name_chars = subvec(&t, ns, ne);
                proof {
                    reveal_strlit("tv_");
                }
                if !starts_with_exec(&name_chars, &tv_prefix) {
                    return Err(
                        TViewError::InvalidTViewName {
                            name,
                            reason: "TVIEW name must start with 'tv_'".to_owned(),
                        },
                    );
                }
                let select_chars = subvec(&t, h, t.len());
                let upper = chars_of(to_uppercase(string_of(&select_chars).as_str()).as_str());
                let kw = chars_of("SELECT");
                if !starts_with_exec(&upper, &kw) {
                    return Err(
                        TViewError::InvalidSelectStatement {
                            sql: select,
                            reason: "Expected SELECT statement after AS".to_owned(),
                        },
                    );
                }
                let schema_name = match schema {
                    Some((s0, s1)) => Some(string_of_range(&t, s0, s1)),
                    None => None,
                };
                return Ok(CreateTViewStmt { tview_name: name, schema_name, select_sql: select });
            },
        }
        i += 1;
    }
    Err(
        TViewError::InvalidSelectStatement {
            sql: sql.to_owned(),
            reason: "Could not parse CREATE TABLE tv_ AS SELECT statement. Syntax: CREATE TABLE tv_name AS SELECT ...\nSee docs for limitations.".to_owned(),
        },
    )
}

/// Warnings worth giving about a TVIEW's SELECT statement: a CTE, or comments.
pub fn select_warnings(select_sql: &str) -> (w: Vec<String>)
    ensures
        w@.len() == (if contains_seq(unicode_uppercase(select_sql@), " WITH "@) { 1int } else { 0int }) + (
        if contains_seq(select_sql@, "/*"@) || contains_seq(select_sql@, "--"@) {
            1int
        } else {
            0int
        }),
        contains_seq(unicode_uppercase(select_sql@), " WITH "@) ==> w@[0]@
            == "CTEs (WITH clause) may not be fully supported in v1"@,
        (contains_seq(select_sql@, "/*"@) || contains_seq(select_sql@, "--"@)) ==> w@.last()@
            == "Comments in SELECT may cause parsing issues in v1"@,
{
    let s = chars_of(select_sql);
    let upper = chars_of(to_uppercase(select_sql).as_str());
    let mut w: Vec<String> = Vec::new();
    if contains_exec(&upper, &chars_of(" WITH ")) {
        w.push("CTEs (WITH clause) may not be fully supported in v1".to_owned());
    }
    if contains_exec(&s, &chars_of("/*")) || contains_exec(&s, &chars_of("--")) {
        w.push("Comments in SELECT may cause parsing issues in v1".to_owned());
    }
    w
}

} // verus!
