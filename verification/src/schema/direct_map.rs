//! Direct-patch column→key extraction.
//!
//! From a TVIEW's SELECT statement, extract the base-table columns that map
//! identity-style to top-level keys of the entity's own `data` object
//! (`jsonb_build_object('bio', bio)` ⇒ `bio → bio`). The extraction is
//! conservative: whatever is unclear is omitted, which only means fewer
//! fast-path hits.
use vstd::prelude::*;
use crate::text::{chars_of, eq_ignore_ascii_case, is_ascii_alpha, is_ident_char, is_ident_char_exec, is_ws, is_ws_exec, lower_seq, lower_vec, matches_at, matches_at_exec, seq_eq, string_of, subvec, trim_seq, trim_start_seq, trimmed, trimmed_range, lemma_trim_start_skip};
use crate::schema::parser::{columns_with_expressions, pair_views, spec_columns_with_expressions, spec_split_top_level, split_by_top_level_comma, vec_views};

verus! {

pub open spec fn opt_chars(o: Option<Vec<char>>) -> Option<Seq<char>> {
    match o {
        Some(a) => Some(a@),
        None => None,
    }
}

/// `s` is a simple SQL identifier: leading ASCII letter or underscore, then
/// ASCII letters, digits or underscores.
pub open spec fn spec_is_simple_ident(s: Seq<char>) -> bool {
    s.len() > 0 && (is_ascii_alpha(s[0]) || s[0] == '_') && spec_is_simple_ident_chars(s)
}

/// `s` is non-empty and made of ASCII letters, digits and underscores.
pub open spec fn spec_is_simple_ident_chars(s: Seq<char>) -> bool {
    s.len() > 0 && forall|i: int| 0 <= i < s.len() ==> is_ident_char(#[trigger] s[i])
}

pub fn is_ident_byte(b: char) -> (r: bool)
    ensures
        r == is_ident_char(b),
{
    is_ident_char_exec(b)
}

pub fn is_simple_ident_chars(s: &Vec<char>) -> (r: bool)
    ensures
        r == spec_is_simple_ident_chars(s@),
{
    if s.len() == 0 {
        return false;
    }
    let mut i: usize = 0;
    while i < s.len()
        invariant
            i <= s.len(),
            forall|j: int| 0 <= j < i ==> is_ident_char(#[trigger] s@[j]),
        decreases s.len() - i,
    {
        if !is_ident_char_exec(s[i]) {
            return false;
        }
        i += 1;
    }
    true
}

pub fn is_simple_ident(s: &Vec<char>) -> (r: bool)
    ensures
        r == spec_is_simple_ident(s@),
{
    if s.len() == 0 {
        return false;
    }
    let first = s[0];
    if !(('a' <= first && first <= 'z') || ('A' <= first && first <= 'Z') || first == '_') {
        return false;
    }
    is_simple_ident_chars(s)
}

// ───────────────────────── whole-word search ─────────────────────────

pub open spec fn word_at(hay: Seq<char>, needle: Seq<char>, i: int) -> bool {
    &&& matches_at(hay, i, needle)
    &&& (i == 0 || !is_ident_char(hay[i - 1]))
    &&& (i + needle.len() >= hay.len() || !is_ident_char(hay[i + needle.len()]))
}

pub open spec fn word_scan(hay: Seq<char>, needle: Seq<char>, i: int) -> Option<int>
    decreases hay.len() + 1 - i,
{
    if i < 0 || i + needle.len() > hay.len() {
        None
    } else if word_at(hay, needle, i) {
        Some(i)
    } else {
        word_scan(hay, needle, i + 1)
    }
}

/// First whole-word occurrence of `needle` at or after `start`.
pub open spec fn spec_find_word(hay: Seq<char>, needle: Seq<char>, start: int) -> Option<int> {
    if needle.len() == 0 {
        None
    } else {
        word_scan(hay, needle, start)
    }
}

proof fn lemma_word_scan_sound(hay: Seq<char>, needle: Seq<char>, i: int)
    ensures
        word_scan(hay, needle, i) matches Some(p) ==> i <= p && word_at(hay, needle, p),
    decreases hay.len() + 1 - i,
{
    if i < 0 || i + needle.len() > hay.len() {
    } else if word_at(hay, needle, i) {
    } else {
        lemma_word_scan_sound(hay, needle, i + 1);
    }
}

/// A whole-word search returning the position of the match; both texts are
/// expected lowercased.
pub fn find_word(hay: &Vec<char>, needle: &Vec<char>, start: usize) -> (r: Option<usize>)
    ensures
        r matches Some(p) ==> spec_find_word(hay@, needle@, start as int) == Some(p as int),
        r is None ==> spec_find_word(hay@, needle@, start as int) is None,
{
    if needle.len() == 0 {
        return None;
    }
    if needle.len() > hay.len() || start > hay.len() - needle.len() {
        return None;
    }
    let n = needle.len();
    let mut i = start;
    while i <= hay.len() - n
        invariant
            n == needle.len(),
            1 <= n <= hay.len(),
            start <= i <= hay.len() - n + 1,
            word_scan(hay@, needle@, i as int) == word_scan(hay@, needle@, start as int),
        decreases hay.len() - n + 1 - i,
    {
        if matches_at_exec(hay, i, needle) {
            let before = i == 0 || !is_ident_char_exec(hay[i - 1]);
            let after = i + n >= hay.len() || !is_ident_char_exec(hay[i + n]);
            if before && after {
                return Some(i);
            }
        }
        i += 1;
    }
    None
}

// ───────────────────────── jsonb_build_object(...) ─────────────────────────

/// Scan for the `)` closing the builder call opened at `open`; yields the
/// trimmed text between the parentheses.
pub open spec fn args_scan(
    t: Seq<char>,
    i: int,
    depth: int,
    in_s: bool,
    in_d: bool,
    prev: char,
    open: int,
) -> Option<Seq<char>>
    decreases t.len() - i,
{
    if i < 0 || i >= t.len() {
        None
    } else {
        let c = t[i];
        if c == '\'' && !in_d && prev != '\\' {
            args_scan(t, i + 1, depth, !in_s, in_d, c, open)
        } else if c == '"' && !in_s && prev != '\\' {
            args_scan(t, i + 1, depth, in_s, !in_d, c, open)
        } else if c == '(' && !in_s && !in_d {
            args_scan(t, i + 1, depth + 1, in_s, in_d, c, open)
        } else if c == ')' && !in_s && !in_d {
            if depth - 1 == 0 {
                if open + 1 <= i {
                    Some(trim_seq(t.subrange(open + 1, i)))
                } else {
                    None
                }
            } else {
                args_scan(t, i + 1, depth - 1, in_s, in_d, c, open)
            }
        } else {
            args_scan(t, i + 1, depth, in_s, in_d, c, open)
        }
    }
}

/// When `expr` (leading whitespace ignored) starts with a
/// `jsonb_build_object(` call, the text between its outermost parentheses.
pub open spec fn spec_jsonb_build_object_args(expr: Seq<char>) -> Option<Seq<char>> {
    let t = trim_start_seq(expr);
    if t.len() < 18 || lower_seq(t.take(18)) != "jsonb_build_object"@ {
        None
    } else {
        let after = trim_start_seq(t.skip(18));
        if after.len() == 0 || after[0] != '(' {
            None
        } else {
            args_scan(t, t.len() - after.len(), 0, false, false, '\0', t.len() - after.len())
        }
    }
}

fn trim_start_pos(v: &Vec<char>, from: usize) -> (r: usize)
    requires
        from <= v.len(),
    ensures
        from <= r <= v.len(),
        trim_start_seq(v@.skip(from as int)) == v@.skip(r as int),
{
    let mut a = from;
    while a < v.len() && is_ws_exec(v[a])
        invariant
            from <= a <= v.len(),
            forall|j: int| from <= j < a ==> is_ws(#[trigger] v@[j]),
        decreases v.len() - a,
    {
        a += 1;
    }
    proof {
        let s = v@.skip(from as int);
        assert forall|j: int| 0 <= j < a - from implies is_ws(#[trigger] s[j]) by {
            assert(s[j] == v@[from + j]);
        }
        lemma_trim_start_skip(s, a - from);
        assert(s.subrange(a - from, s.len() as int) =~= v@.skip(a as int));
        let t = v@.skip(a as int);
        if a < v.len() {
            assert(t[0] == v@[a as int]);
        }
        assert(trim_start_seq(t) == t);
    }
    a
}

/// If `expr` begins with a `jsonb_build_object(` call, the raw text between
/// its outermost matching parentheses (trimmed); `None` otherwise.
pub fn jsonb_build_object_args(expr: &Vec<char>) -> (r: Option<Vec<char>>)
    ensures
        r matches Some(a) ==> spec_jsonb_build_object_args(expr@) == Some(a@),
        r is None ==> spec_jsonb_build_object_args(expr@) is None,
{
    let start = trim_start_pos(expr, 0);
    assert(expr@.skip(0) =~= expr@);
    let t = subvec(expr, start, expr.len());
    assert(t@ =~= trim_start_seq(expr@));
    let name = chars_of("jsonb_build_object");
    proof {
        reveal_strlit("jsonb_build_object");
    }
    if t.len() < 18 {
        return None;
    }
    let head = subvec(&t, 0, 18);
    let head_lower = lower_vec(&head);
    assert(head@ =~= t@.take(18));
    if !seq_eq(&head_lower, &name) {
        return None;
    }
    let after = trim_start_pos(&t, 18);
    if after >= t.len() || t[after] != '(' {
        proof {
            if after < t.len() {
                assert(t@.skip(after as int)[0] == t@[after as int]);
            }
        }
        return None;
    }
    proof {
        assert(t@.skip(after as int)[0] == t@[after as int]);
        assert(t@.len() - t@.skip(after as int).len() == after);
    }
    let open = after;
    let mut depth: usize = 0;
    let mut in_s = false;
    let mut in_d = false;
    let mut prev: char = '\0';
    let mut i = open;
    while i < t.len()
        invariant
            open <= i <= t.len(),
            depth <= i,
            open < t.len(),
            t@[open as int] == '(',
            i == open ==> depth == 0 && !in_s && !in_d && prev == '\0',
            i > open ==> depth >= 1,
            args_scan(t@, i as int, depth as int, in_s, in_d, prev, open as int)
                == spec_jsonb_build_object_args(expr@),
        decreases t.len() - i,
    {
        let c = t[i];
        if c == '\'' && !in_d && prev != '\\' {
            in_s = !in_s;
        } else if c == '"' && !in_s && prev != '\\' {
            in_d = !in_d;
        } else if c == '(' && !in_s && !in_d {
            depth += 1;
        } else if c == ')' && !in_s && !in_d {
            if depth == 1 {
                if open + 1 <= i {
                    return Some(trimmed_range(&t, open + 1, i));
                } else {
                    return None;
                }
            }
            depth -= 1;
        }
        prev = c;
        i += 1;
    }
    None
}

// ───────────────────────── key / value classification ─────────────────────────

/// A plain single-quoted literal whose contents are a simple identifier-like
/// token.
pub open spec fn spec_parse_key_literal(s: Seq<char>) -> Option<Seq<char>> {
    let t = trim_seq(s);
    if t.len() >= 2 && t[0] == '\'' && t.last() == '\'' && spec_is_simple_ident_chars(
        t.subrange(1, t.len() - 1),
    ) {
        Some(t.subrange(1, t.len() - 1))
    } else {
        None
    }
}

/// Parse a single-quoted SQL string literal `'key'` into its text, when that
/// text is a simple identifier-like token.
pub fn parse_key_literal(s: &Vec<char>) -> (r: Option<Vec<char>>)
    ensures
        r matches Some(k) ==> spec_parse_key_literal(s@) == Some(k@),
        r is None ==> spec_parse_key_literal(s@) is None,
{
    let t = trimmed(s);
    if t.len() < 2 || t[0] != '\'' || t[t.len() - 1] != '\'' {
        return None;
    }
    let inner = subvec(&t, 1, t.len() - 1);
    if !is_simple_ident_chars(&inner) {
        return None;
    }
    Some(inner)
}

pub open spec fn dot_free(s: Seq<char>) -> bool {
    forall|i: int| 0 <= i < s.len() ==> #[trigger] s[i] != '.'
}

/// Position of the first `.` in `s`.
pub open spec fn first_dot(s: Seq<char>) -> int
    decreases s.len(),
{
    if s.len() == 0 {
        0
    } else if s[0] == '.' {
        0
    } else {
        1 + first_dot(s.drop_first())
    }
}

pub open spec fn names_base(q: Seq<char>, base_table: Seq<char>, alias: Option<Seq<char>>) -> bool {
    lower_seq(q) == lower_seq(base_table) || (alias matches Some(a) && lower_seq(q) == lower_seq(
        a,
    ))
}

/// When `value` is a bare base-table column (`col`, `base.col` or
/// `alias.col`), that column.
pub open spec fn spec_classify_direct_value(
    value: Seq<char>,
    base_table: Seq<char>,
    alias: Option<Seq<char>>,
) -> Option<Seq<char>> {
    let v = trim_seq(value);
    if v.len() == 0 {
        None
    } else if dot_free(v) {
        if spec_is_simple_ident(v) {
            Some(v)
        } else {
            None
        }
    } else {
        let k = first_dot(v);
        let q = v.take(k);
        let col = v.skip(k + 1);
        if dot_free(col) && spec_is_simple_ident(col) && spec_is_simple_ident(q) && names_base(
            q,
            base_table,
            alias,
        ) {
            Some(col)
        } else {
            None
        }
    }
}

proof fn lemma_first_dot(s: Seq<char>, k: int)
    requires
        0 <= k < s.len(),
        s[k] == '.',
        forall|j: int| 0 <= j < k ==> #[trigger] s[j] != '.',
    ensures
        first_dot(s) == k,
    decreases k,
{
    if k > 0 {
        assert forall|j: int| 0 <= j < k - 1 implies #[trigger] s.drop_first()[j] != '.' by {
            assert(s.drop_first()[j] == s[j + 1]);
        }
        lemma_first_dot(s.drop_first(), k - 1);
    }
}

/// Classify a `jsonb_build_object` value expression: the base column when it
/// is a bare reference to one; `None` otherwise.
pub fn classify_direct_value(value: &Vec<char>, base_table: &Vec<char>, alias: &Option<Vec<char>>) -> (r:
    Option<Vec<char>>)
    ensures
        r matches Some(c) ==> spec_classify_direct_value(
            value@,
            base_table@,
            opt_chars(*alias),
        ) == Some(c@),
        r is None ==> spec_classify_direct_value(
            value@,
            base_table@,
            opt_chars(*alias),
        ) is None,
{
    let v = trimmed(value);
    if v.len() == 0 {
        return None;
    }
    let mut k: usize = 0;
    while k < v.len() && v[k] != '.'
        invariant
            k <= v.len(),
            forall|j: int| 0 <= j < k ==> #[trigger] v@[j] != '.',
        decreases v.len() - k,
    {
        k += 1;
    }
    if k == v.len() {
        if is_simple_ident(&v) {
            return Some(v);
        }
        return None;
    }
    proof {
        lemma_first_dot(v@, k as int);
    }
    let q = subvec(&v, 0, k);
    let col = subvec(&v, k + 1, v.len());
    assert(q@ =~= v@.take(k as int));
    assert(col@ =~= v@.skip(k + 1));
    let mut m: usize = 0;
    while m < col.len() && col[m] != '.'
        invariant
            m <= col.len(),
            forall|j: int| 0 <= j < m ==> #[trigger] col@[j] != '.',
        decreases col.len() - m,
    {
        m += 1;
    }
    if m < col.len() {
        return None;
    }
    if !is_simple_ident(&col) || !is_simple_ident(&q) {
        return None;
    }
    let matches_base = eq_ignore_ascii_case(&q, base_table) || match alias {
        Some(a) => eq_ignore_ascii_case(&q, a),
        None => false,
    };
    if !matches_base {
        return None;
    }
    Some(col)
}

// ───────────────────────── FROM alias ─────────────────────────

/// Keywords that may directly follow the base table in a FROM clause,
/// meaning the table has no alias.
pub open spec fn from_keywords() -> Seq<Seq<char>> {
    seq![
        "where"@, "join"@, "left"@, "right"@, "inner"@, "outer"@, "full"@, "cross"@, "group"@,
        "order"@, "on"@, "union"@, "limit"@, "offset"@, "having"@, "using"@, "natural"@, "as"@,
        "and"@, "or"@,
    ]
}

/// Longest prefix of identifier characters.
pub open spec fn leading_ident(s: Seq<char>) -> Seq<char>
    decreases s.len(),
{
    if s.len() > 0 && is_ident_char(s[0]) {
        seq![s[0]] + leading_ident(s.drop_first())
    } else {
        Seq::empty()
    }
}

/// The tail after the base table, with an optional `AS` skipped.
pub open spec fn after_optional_as(tail: Seq<char>) -> Seq<char> {
    if tail.len() > 2 && lower_seq(tail.take(2)) == "as"@ && is_ws(tail[2]) {
        trim_start_seq(tail.skip(2))
    } else {
        tail
    }
}

/// The FROM-clause alias of `base_table`, if the view gives it one.
pub open spec fn spec_resolve_base_alias(select_sql: Seq<char>, base_table: Seq<char>) -> Option<
    Seq<char>,
> {
    let lower = lower_seq(select_sql);
    let base_lower = lower_seq(base_table);
    match spec_find_word(lower, "from"@, 0) {
        None => None,
        Some(from_pos) => match spec_find_word(lower, base_lower, from_pos + 4) {
            None => None,
            Some(rel_pos) => {
                let tail = trim_start_seq(select_sql.skip(rel_pos + base_lower.len()));
                let alias = leading_ident(after_optional_as(tail));
                if alias.len() == 0 || from_keywords().contains(lower_seq(alias)) {
                    None
                } else {
                    Some(alias)
                }
            },
        },
    }
}

proof fn lemma_leading_ident(s: Seq<char>, k: int)
    requires
        0 <= k <= s.len(),
        k == s.len() || !is_ident_char(s[k]),
        forall|j: int| 0 <= j < k ==> is_ident_char(#[trigger] s[j]),
    ensures
        leading_ident(s) == s.take(k),
    decreases k,
{
    if k > 0 {
        assert forall|j: int| 0 <= j < k - 1 implies is_ident_char(
            #[trigger] s.drop_first()[j],
        ) by {
            assert(s.drop_first()[j] == s[j + 1]);
        }
        if k < s.len() {
            assert(s.drop_first()[k - 1] == s[k]);
        }
        lemma_leading_ident(s.drop_first(), k - 1);
        assert(seq![s[0]] + s.drop_first().take(k - 1) =~= s.take(k));
    } else {
        if s.len() > 0 {
            assert(!is_ident_char(s[0]));
        }
        assert(s.take(0) =~= Seq::<char>::empty());
    }
}

fn is_from_keyword(w: &Vec<char>) -> (r: bool)
    ensures
        r == from_keywords().contains(w@),
{
    let kws: Vec<&str> = vec![
        "where", "join", "left", "right", "inner", "outer", "full", "cross", "group", "order",
        "on", "union", "limit", "offset", "having", "using", "natural", "as", "and", "or",
    ];
    let ghost expected = from_keywords();
    assert(kws@.len() == 20);
    assert(expected.len() == 20);
    let mut i: usize = 0;
    while i < kws.len()
        invariant
            expected == from_keywords(),
            expected.len() == 20,
            kws@.len() == 20,
            forall|j: int| 0 <= j < 20 ==> (#[trigger] kws@[j])@ == expected[j],
            i <= kws.len(),
            forall|j: int| 0 <= j < i ==> expected[j] != w@,
        decreases kws.len() - i,
    {
        let k = chars_of(kws[i]);
        if seq_eq(&k, w) {
            assert(expected[i as int] == w@);
            return true;
        }
        i += 1;
    }
    assert(!expected.contains(w@)) by {
        if expected.contains(w@) {
            let j = choose|j: int| 0 <= j < expected.len() && expected[j] == w@;
            assert(expected[j] != w@);
        }
    }
    false
}

/// Resolve the FROM-clause alias of `base_table`: `FROM tb_post p` and
/// `FROM tb_post AS p` ⇒ `p`; `FROM tb_post` (or a keyword next) ⇒ none.
/// Only the first FROM's base table is considered.
pub fn resolve_base_alias(select_sql: &Vec<char>, base_table: &Vec<char>) -> (r: Option<Vec<char>>)
    ensures
        r matches Some(a) ==> spec_resolve_base_alias(select_sql@, base_table@) == Some(a@),
        r is None ==> spec_resolve_base_alias(select_sql@, base_table@) is None,
{
    let lower = lower_vec(select_sql);
    let base_lower = lower_vec(base_table);
    let from_kw = chars_of("from");
    proof {
        reveal_strlit("from");
    }
    let from_pos = match find_word(&lower, &from_kw, 0) {
        None => {
            return None;
        },
        Some(p) => p,
    };
    proof {
        lemma_word_scan_sound(lower@, from_kw@, 0);
        assert(from_kw@.len() == 4);
        assert(word_scan(lower@, from_kw@, 0) == Some(from_pos as int));
        assert(matches_at(lower@, from_pos as int, from_kw@));
    }
    let rel_pos = match find_word(&lower, &base_lower, from_pos + 4) {
        None => {
            return None;
        },
        Some(p) => p,
    };
    proof {
        lemma_word_scan_sound(lower@, base_lower@, from_pos + 4);
        assert(base_lower@.len() > 0);
        assert(matches_at(lower@, rel_pos as int, base_lower@));
    }
    let after_rel = rel_pos + base_lower.len();
    let t0 = trim_start_pos(select_sql, after_rel);
    let tail = subvec(select_sql, t0, select_sql.len());
    assert(tail@ =~= trim_start_seq(select_sql@.skip(after_rel as int)));
    let as_kw = chars_of("as");
    proof {
        reveal_strlit("as");
    }
    let mut start: usize = 0;
    if tail.len() > 2 {
        let two = subvec(&tail, 0, 2);
        let two_lower = lower_vec(&two);
        assert(two@ =~= tail@.take(2));
        if seq_eq(&two_lower, &as_kw) && is_ws_exec(tail[2]) {
            start = trim_start_pos(&tail, 2);
        }
    }
    let rest = subvec(&tail, start, tail.len());
    assert(rest@ =~= after_optional_as(tail@));
    let mut k: usize = 0;
    while k < rest.len() && is_ident_char_exec(rest[k])
        invariant
            k <= rest.len(),
            forall|j: int| 0 <= j < k ==> is_ident_char(#[trigger] rest@[j]),
        decreases rest.len() - k,
    {
        k += 1;
    }
    proof {
        lemma_leading_ident(rest@, k as int);
    }
    let alias = subvec(&rest, 0, k);
    if alias.len() == 0 {
        return None;
    }
    let alias_lower = lower_vec(&alias);
    if is_from_keyword(&alias_lower) {
        return None;
    }
    Some(alias)
}

// ───────────────────────── ambiguity ─────────────────────────

pub open spec fn count_col(pairs: Seq<(Seq<char>, Seq<char>)>, c: Seq<char>) -> nat
    decreases pairs.len(),
{
    if pairs.len() == 0 {
        0
    } else {
        count_col(pairs.drop_last(), c) + if pairs.last().0 == c { 1nat } else { 0nat }
    }
}

pub open spec fn count_key(pairs: Seq<(Seq<char>, Seq<char>)>, k: Seq<char>) -> nat
    decreases pairs.len(),
{
    if pairs.len() == 0 {
        0
    } else {
        count_key(pairs.drop_last(), k) + if pairs.last().1 == k { 1nat } else { 0nat }
    }
}

pub open spec fn unambiguous_in(
    all: Seq<(Seq<char>, Seq<char>)>,
    p: (Seq<char>, Seq<char>),
) -> bool {
    count_col(all, p.0) == 1 && count_key(all, p.1) == 1
}

/// The entries among the first `n` of `all` whose column and key each occur
/// exactly once in `all`, in order.
pub open spec fn keep_unambiguous(all: Seq<(Seq<char>, Seq<char>)>, n: int) -> Seq<
    (Seq<char>, Seq<char>),
>
    decreases n,
{
    if n <= 0 {
        Seq::empty()
    } else {
        let prev = keep_unambiguous(all, n - 1);
        if unambiguous_in(all, all[n - 1]) {
            prev.push(all[n - 1])
        } else {
            prev
        }
    }
}

pub open spec fn spec_drop_ambiguous(pairs: Seq<(Seq<char>, Seq<char>)>) -> Seq<
    (Seq<char>, Seq<char>),
> {
    keep_unambiguous(pairs, pairs.len() as int)
}

fn count_matches(pairs: &Vec<(Vec<char>, Vec<char>)>, x: &Vec<char>, by_col: bool) -> (r: usize)
    ensures
        by_col ==> r == count_col(pair_views(pairs@), x@),
        !by_col ==> r == count_key(pair_views(pairs@), x@),
{
    let mut n: usize = 0;
    let mut i: usize = 0;
    while i < pairs.len()
        invariant
            i <= pairs.len(),
            n <= i,
            by_col ==> n == count_col(pair_views(pairs@).take(i as int), x@),
            !by_col ==> n == count_key(pair_views(pairs@).take(i as int), x@),
        decreases pairs.len() - i,
    {
        proof {
            assert(pair_views(pairs@).take(i + 1).drop_last() =~= pair_views(pairs@).take(
                i as int,
            ));
        }
        let same = if by_col {
            seq_eq(&pairs[i].0, x)
        } else {
            seq_eq(&pairs[i].1, x)
        };
        if same {
            n += 1;
        }
        i += 1;
    }
    proof {
        assert(pair_views(pairs@).take(pairs@.len() as int) =~= pair_views(pairs@));
    }
    n
}

fn clone_chars(v: &Vec<char>) -> (r: Vec<char>)
    ensures
        r@ == v@,
{
    subvec(v, 0, v.len())
}

/// Keep only `(col, key)` pairs whose column and key both appear exactly
/// once across the whole list, preserving order.
pub fn drop_ambiguous(pairs: &Vec<(Vec<char>, Vec<char>)>) -> (r: Vec<(Vec<char>, Vec<char>)>)
    ensures
        pair_views(r@) == spec_drop_ambiguous(pair_views(pairs@)),
{
    let ghost all = pair_views(pairs@);
    let mut out: Vec<(Vec<char>, Vec<char>)> = Vec::new();
    let mut i: usize = 0;
    proof {
        assert(pair_views(out@) =~= Seq::<(Seq<char>, Seq<char>)>::empty());
    }
    while i < pairs.len()
        invariant
            i <= pairs.len(),
            all == pair_views(pairs@),
            pair_views(out@) == keep_unambiguous(all, i as int),
        decreases pairs.len() - i,
    {
        let kc = count_matches(pairs, &pairs[i].0, true);
        let kk = count_matches(pairs, &pairs[i].1, false);
        if kc == 1 && kk == 1 {
            out.push((clone_chars(&pairs[i].0), clone_chars(&pairs[i].1)));
            proof {
                assert(pair_views(out@) =~= keep_unambiguous(all, i + 1));
            }
        }
        i += 1;
    }
    out
}

// ───────────────────────── the whole map ─────────────────────────

/// The `(column, key)` pairs read from the first `n` key/value chunks.
pub open spec fn collect_pairs(
    parts: Seq<Seq<char>>,
    base_table: Seq<char>,
    alias: Option<Seq<char>>,
    n: int,
) -> Seq<(Seq<char>, Seq<char>)>
    decreases n,
{
    if n <= 0 {
        Seq::empty()
    } else {
        let prev = collect_pairs(parts, base_table, alias, n - 1);
        match (
            spec_parse_key_literal(parts[2 * (n - 1)]),
            spec_classify_direct_value(parts[2 * (n - 1) + 1], base_table, alias),
        ) {
            (Some(key), Some(col)) => prev.push((col, key)),
            _ => prev,
        }
    }
}

/// First select-list entry named `data` (ASCII case-insensitive).
pub open spec fn find_data_expr(cols: Seq<(Seq<char>, Seq<char>)>, n: int) -> Option<Seq<char>>
    decreases cols.len() - n,
{
    if n < 0 || n >= cols.len() {
        None
    } else if lower_seq(cols[n].0) == "data"@ {
        Some(cols[n].1)
    } else {
        find_data_expr(cols, n + 1)
    }
}

/// The identity-style `(base_column, jsonb_key)` pairs of the `data`
/// column's top-level `jsonb_build_object(...)`.
pub open spec fn spec_extract_direct_column_map(select_sql: Seq<char>, base_table: Seq<char>) -> Seq<
    (Seq<char>, Seq<char>),
> {
    match spec_columns_with_expressions(select_sql) {
        Err(_) => Seq::empty(),
        Ok(cols) => match find_data_expr(cols, 0) {
            None => Seq::empty(),
            Some(expr) => match spec_jsonb_build_object_args(expr) {
                None => Seq::empty(),
                Some(args) => {
                    let parts = spec_split_top_level(args);
                    if parts.len() == 0 || parts.len() % 2 != 0 {
                        Seq::empty()
                    } else {
                        spec_drop_ambiguous(
                            collect_pairs(
                                parts,
                                base_table,
                                spec_resolve_base_alias(select_sql, base_table),
                                (parts.len() / 2) as int,
                            ),
                        )
                    }
                },
            },
        },
    }
}

fn find_data_exec(cols: &Vec<(Vec<char>, Vec<char>)>) -> (r: Option<usize>)
    ensures
        r matches Some(i) ==> i < cols.len() && find_data_expr(pair_views(cols@), 0) == Some(
            cols@[i as int].1@,
        ),
        r is None ==> find_data_expr(pair_views(cols@), 0) is None,
{
    let data = chars_of("data");
    let mut i: usize = 0;
    while i < cols.len()
        invariant
            i <= cols.len(),
            data@ == "data"@,
            find_data_expr(pair_views(cols@), i as int) == find_data_expr(pair_views(cols@), 0),
        decreases cols.len() - i,
    {
        let name_lower = lower_vec(&cols[i].0);
        if seq_eq(&name_lower, &data) {
            return Some(i);
        }
        i += 1;
    }
    None
}

/// Extract identity-style `(base_column, jsonb_key)` pairs from the top-level
/// `jsonb_build_object(...)` that produces the `data` output column.
/// `base_table` is the entity's base table; its FROM alias is resolved.
pub fn extract_direct_column_map(select_sql: &str, base_table: &str) -> (r: Vec<(String, String)>)
    ensures
        Seq::new(r@.len(), |i: int| (r@[i].0@, r@[i].1@)) == spec_extract_direct_column_map(
            select_sql@,
            base_table@,
        ),
{
    let sql = chars_of(select_sql);
    let base = chars_of(base_table);
    let pairs = direct_pairs(&sql, &base);
    let mut out: Vec<(String, String)> = Vec::new();
    let mut i: usize = 0;
    while i < pairs.len()
        invariant
            i <= pairs.len(),
            out@.len() == i,
            forall|j: int|
                0 <= j < i ==> (#[trigger] out@[j]).0@ == pairs@[j].0@ && out@[j].1@
                    == pairs@[j].1@,
        decreases pairs.len() - i,
    {
        out.push((string_of(&pairs[i].0), string_of(&pairs[i].1)));
        i += 1;
    }
    assert(Seq::new(out@.len(), |k: int| (out@[k].0@, out@[k].1@)) =~= pair_views(pairs@));
    out
}

fn direct_pairs(sql: &Vec<char>, base: &Vec<char>) -> (r: Vec<(Vec<char>, Vec<char>)>)
    ensures
        pair_views(r@) == spec_extract_direct_column_map(sql@, base@),
{
    let empty: Vec<(Vec<char>, Vec<char>)> = Vec::new();
    proof {
        assert(pair_views(empty@) =~= Seq::<(Seq<char>, Seq<char>)>::empty());
    }
    let cols = match columns_with_expressions(sql) {
        Err(_) => {
            return empty;
        },
        Ok(c) => c,
    };
    let idx = match find_data_exec(&cols) {
        None => {
            return empty;
        },
        Some(i) => i,
    };
    let args = match jsonb_build_object_args(&cols[idx].1) {
        None => {
            return empty;
        },
        Some(a) => a,
    };
    let parts = split_by_top_level_comma(&args);
    if parts.len() == 0 || parts.len() % 2 != 0 {
        return empty;
    }
    let alias = resolve_base_alias(sql, base);
    let ghost av = opt_chars(alias);
    let ghost pv = vec_views(parts@);
    let mut pairs: Vec<(Vec<char>, Vec<char>)> = Vec::new();
    let mut k: usize = 0;
    let half = parts.len() / 2;
    proof {
        assert(pair_views(pairs@) =~= Seq::<(Seq<char>, Seq<char>)>::empty());
    }
    while k < half
        invariant
            half == parts.len() / 2,
            parts.len() % 2 == 0,
            k <= half,
            pv == vec_views(parts@),
            av == opt_chars(alias),
            pair_views(pairs@) == collect_pairs(pv, base@, av, k as int),
        decreases half - k,
    {
        let key = parse_key_literal(&parts[2 * k]);
        let col = classify_direct_value(&parts[2 * k + 1], base, &alias);
        match (key, col) {
            (Some(kk), Some(cc)) => {
                pairs.push((cc, kk));
                proof {
                    assert(pair_views(pairs@) =~= collect_pairs(pv, base@, av, k + 1));
                }
            },
            _ => {},
        }
        k += 1;
    }
    drop_ambiguous(&pairs)
}

/// No two entries of the extracted map share a column, and no two share a
/// key: each kept column and key occurs exactly once among the candidates.
pub proof fn law_direct_map_unambiguous(pairs: Seq<(Seq<char>, Seq<char>)>, i: int, j: int)
    requires
        0 <= i < j < spec_drop_ambiguous(pairs).len(),
    ensures
        spec_drop_ambiguous(pairs)[i].0 != spec_drop_ambiguous(pairs)[j].0,
        spec_drop_ambiguous(pairs)[i].1 != spec_drop_ambiguous(pairs)[j].1,
{
    let n = pairs.len() as int;
    let kept = spec_drop_ambiguous(pairs);
    lemma_kept_unambiguous(pairs, n);
    assert(unambiguous_in(pairs, kept[i]));
    assert(pairs.take(n) =~= pairs);
    if kept[i].0 == kept[j].0 {
        lemma_count_col_two(kept, i, j, kept.len() as int);
        lemma_keep_count_le(pairs, n, kept[i].0, kept[i].1);
    }
    if kept[i].1 == kept[j].1 {
        lemma_count_key_two(kept, i, j, kept.len() as int);
        lemma_keep_count_le(pairs, n, kept[i].0, kept[i].1);
    }
}

proof fn lemma_kept_unambiguous(all: Seq<(Seq<char>, Seq<char>)>, n: int)
    ensures
        forall|i: int|
            0 <= i < keep_unambiguous(all, n).len() ==> unambiguous_in(
                all,
                #[trigger] keep_unambiguous(all, n)[i],
            ),
    decreases n,
{
    if n > 0 {
        lemma_kept_unambiguous(all, n - 1);
        let prev = keep_unambiguous(all, n - 1);
        let cur = keep_unambiguous(all, n);
        assert forall|i: int| 0 <= i < cur.len() implies unambiguous_in(all, #[trigger] cur[i]) by {
            if i < prev.len() {
                assert(cur[i] == prev[i]);
            }
        }
    }
}

proof fn lemma_keep_count_le(all: Seq<(Seq<char>, Seq<char>)>, n: int, c: Seq<char>, k: Seq<char>)
    requires
        0 <= n <= all.len(),
    ensures
        count_col(keep_unambiguous(all, n), c) <= count_col(all.take(n), c),
        count_key(keep_unambiguous(all, n), k) <= count_key(all.take(n), k),
    decreases n,
{
    if n > 0 {
        lemma_keep_count_le(all, n - 1, c, k);
        assert(all.take(n).drop_last() =~= all.take(n - 1));
        let prev = keep_unambiguous(all, n - 1);
        if unambiguous_in(all, all[n - 1]) {
            assert(prev.push(all[n - 1]).drop_last() =~= prev);
        }
    }
}

proof fn lemma_count_col_two(all: Seq<(Seq<char>, Seq<char>)>, a: int, b: int, n: int)
    requires
        0 <= a < b < n <= all.len(),
        all[a].0 == all[b].0,
    ensures
        count_col(all.take(n), all[a].0) >= 2,
        n == all.len() ==> count_col(all, all[a].0) >= 2,
    decreases n,
{
    let t = all.take(n);
    assert(t.drop_last() =~= all.take(n - 1));
    if b < n - 1 {
        lemma_count_col_two(all, a, b, n - 1);
    } else {
        lemma_count_col_one(all, a, n - 1);
    }
    if n == all.len() {
        assert(all.take(n) =~= all);
    }
}

proof fn lemma_count_col_one(all: Seq<(Seq<char>, Seq<char>)>, a: int, n: int)
    requires
        0 <= a < n <= all.len(),
    ensures
        count_col(all.take(n), all[a].0) >= 1,
    decreases n,
{
    assert(all.take(n).drop_last() =~= all.take(n - 1));
    if a < n - 1 {
        lemma_count_col_one(all, a, n - 1);
    }
}

proof fn lemma_count_key_two(all: Seq<(Seq<char>, Seq<char>)>, a: int, b: int, n: int)
    requires
        0 <= a < b < n <= all.len(),
        all[a].1 == all[b].1,
    ensures
        count_key(all.take(n), all[a].1) >= 2,
        n == all.len() ==> count_key(all, all[a].1) >= 2,
    decreases n,
{
    let t = all.take(n);
    assert(t.drop_last() =~= all.take(n - 1));
    if b < n - 1 {
        lemma_count_key_two(all, a, b, n - 1);
    } else {
        lemma_count_key_one(all, a, n - 1);
    }
    if n == all.len() {
        assert(all.take(n) =~= all);
    }
}

proof fn lemma_count_key_one(all: Seq<(Seq<char>, Seq<char>)>, a: int, n: int)
    requires
        0 <= a < n <= all.len(),
    ensures
        count_key(all.take(n), all[a].1) >= 1,
    decreases n,
{
    assert(all.take(n).drop_last() =~= all.take(n - 1));
    if a < n - 1 {
        lemma_count_key_one(all, a, n - 1);
    }
}

} // verus!
