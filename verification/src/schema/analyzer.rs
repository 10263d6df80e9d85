//! How a TVIEW embeds each of its foreign-key dependencies in `data`:
//! as a nested object (`'key', v_x.data`), as an aggregated array
//! (`'key', jsonb_agg(v_x.data ...)`, possibly inside `coalesce(`), or not at all.
use vstd::prelude::*;
use crate::catalog::DependencyType;
use crate::schema::parser::{is_name_char, is_name_char_exec};
use crate::queue::state::string_seq;
use crate::text::{
    chars_of, is_ws, is_ws_exec, to_lowercase, unicode_lowercase,
    matches_at, matches_at_exec, starts_with, starts_with_exec, subvec, string_of,
};

verus! {

/// A detected dependency: its kind, the JSONB path under which it is
/// embedded, and (for arrays) the key that identifies an element.
#[derive(Debug, Clone, PartialEq, Eq)]
pub struct DependencyInfo {
    pub dep_type: DependencyType,
    pub jsonb_path: Option<Vec<String>>,
    pub array_match_key: Option<String>,
}

impl View for DependencyInfo {
    type V = (DependencyType, Option<Seq<Seq<char>>>, Option<Seq<char>>);

    open spec fn view(&self) -> (DependencyType, Option<Seq<Seq<char>>>, Option<Seq<char>>) {
        (self.dep_type, match self.jsonb_path {
            Some(p) => Some(string_seq(p@)),
            None => None,
        }, match self.array_match_key {
            Some(k) => Some(k@),
            None => None,
        })
    }
}

/// The SQL as the patterns see it: newlines and tabs as spaces, then in
/// Unicode lowercase.
pub open spec fn normalize(sql: Seq<char>) -> Seq<char> {
    unicode_lowercase(sql.map_values(|c: char| if c == '\n' || c == '\t' { ' ' } else { c }))
}

/// The first position from `i` on that is not whitespace.
pub open spec fn skip_ws(s: Seq<char>, i: int) -> int
    decreases s.len() - i,
{
    if 0 <= i < s.len() && is_ws(s[i]) {
        skip_ws(s, i + 1)
    } else {
        i
    }
}

/// The end of the run of word characters (letters, digits, `_`) that starts at `i`.
pub open spec fn word_end(s: Seq<char>, i: int) -> int
    decreases s.len() - i,
{
    if 0 <= i < s.len() && is_name_char(s[i]) {
        word_end(s, i + 1)
    } else {
        i
    }
}

/// `'<word>',` at `i`: the word and the position after the comma and any whitespace.
pub open spec fn key_at(s: Seq<char>, i: int) -> Option<(Seq<char>, int)> {
    if 0 <= i < s.len() && s[i] == '\'' {
        let j = word_end(s, i + 1);
        if j > i + 1 && j + 1 < s.len() && s[j] == '\'' && s[j + 1] == ',' {
            Some((s.subrange(i + 1, j), skip_ws(s, j + 2)))
        } else {
            None
        }
    } else {
        None
    }
}

/// `<view>` followed by any one character other than a newline, then `data`, at `k`.
pub open spec fn view_data_at(s: Seq<char>, k: int, view: Seq<char>) -> bool {
    &&& matches_at(s, k, view)
    &&& k + view.len() < s.len()
    &&& s[k + view.len()] != '\n'
    &&& matches_at(s, k + view.len() + 1, "data"@)
}

/// `'<key>', <view>.data` at `i`: the key.
pub open spec fn nested_at(s: Seq<char>, i: int, view: Seq<char>) -> Option<Seq<char>> {
    match key_at(s, i) {
        Some((key, p)) => if view_data_at(s, p, view) {
            Some(key)
        } else {
            None
        },
        None => None,
    }
}

/// Where `jsonb_agg` must start: after an optional `coalesce (` at `p`.
pub open spec fn agg_start(s: Seq<char>, p: int) -> int {
    if matches_at(s, p, "coalesce"@) {
        let q = skip_ws(s, p + 8);
        if 0 <= q < s.len() && s[q] == '(' {
            skip_ws(s, q + 1)
        } else {
            p
        }
    } else {
        p
    }
}

/// `'<key>', [coalesce(] jsonb_agg(<view>.data` at `i`: the key.
pub open spec fn array_at(s: Seq<char>, i: int, view: Seq<char>) -> Option<Seq<char>> {
    match key_at(s, i) {
        Some((key, p)) => {
            let a = agg_start(s, p);
            if matches_at(s, a, "jsonb_agg"@) {
                let b = skip_ws(s, a + 9);
                if 0 <= b < s.len() && s[b] == '(' && view_data_at(s, skip_ws(s, b + 1), view) {
                    Some(key)
                } else {
                    None
                }
            } else {
                None
            }
        },
        None => None,
    }
}

/// The key of the leftmost match from `from` on (`array` picks the pattern).
pub open spec fn scan(s: Seq<char>, view: Seq<char>, from: int, array: bool) -> Option<Seq<char>>
    decreases s.len() - from,
{
    if from < 0 || from >= s.len() {
        None
    } else {
        match if array { array_at(s, from, view) } else { nested_at(s, from, view) } {
            Some(k) => Some(k),
            None => scan(s, view, from + 1, array),
        }
    }
}

/// The dependency of the TVIEW defined by `sql` on `fk_col`: `fk_<x>` is
/// embedded from the view `v_<x>`; a column not named `fk_*` is scalar.
pub open spec fn spec_detect_dependency_type(sql: Seq<char>, fk_col: Seq<char>) -> (DependencyType, Option<Seq<Seq<char>>>, Option<Seq<char>>) {
    let scalar = (DependencyType::Scalar, None, None);
    if !starts_with(fk_col, "fk_"@) {
        scalar
    } else {
        let view = "v_"@ + fk_col.skip(3);
        let s = normalize(sql);
        match scan(s, view, 0, false) {
            Some(k) => (DependencyType::NestedObject, Some(seq![k]), None),
            None => match scan(s, view, 0, true) {
                Some(k) => (DependencyType::Array, Some(seq![k]), Some("id"@)),
                None => scalar,
            },
        }
    }
}

/// The aggregate `jsonb_agg(v_<x>.data` at `a`: the array pattern's
/// `jsonb_agg`, its `(`, and the view's `data` that follows.
proof fn lemma_agg_at(s: Seq<char>, a: int, x: Seq<char>)
    requires
        matches_at(s, a, "jsonb_agg("@ + ("v_"@ + x) + ".data"@),
    ensures
        matches_at(s, a, "jsonb_agg"@),
        skip_ws(s, a + 9) == a + 9,
        0 <= a + 9 < s.len() && s[a + 9] == '(',
        view_data_at(s, skip_ws(s, a + 10), "v_"@ + x),
{
    reveal_strlit("jsonb_agg(");
    reveal_strlit("jsonb_agg");
    reveal_strlit("v_");
    reveal_strlit(".data");
    reveal_strlit("data");
    let view = "v_"@ + x;
    let pat = "jsonb_agg("@ + view + ".data"@;
    let vl = view.len() as int;
    assert(s.subrange(a, a + pat.len()) == pat);
    assert forall|m: int| 0 <= m < pat.len() implies s[a + m] == #[trigger] pat[m] by {
        assert(s.subrange(a, a + pat.len())[m] == s[a + m]);
    }
    assert(s.subrange(a, a + 9) =~= "jsonb_agg"@) by {
        assert forall|m: int| 0 <= m < 9 implies s.subrange(a, a + 9)[m] == "jsonb_agg"@[m] by {
            assert(pat[m] == "jsonb_agg"@[m]);
        }
    }
    assert(pat[9] == '(');
    assert(s[a + 9] == '(');
    assert(pat[10] == 'v');
    assert(s[a + 10] == 'v');
    assert(skip_ws(s, a + 10) == a + 10);
    assert(s.subrange(a + 10, a + 10 + vl) =~= view) by {
        assert forall|m: int| 0 <= m < vl implies s.subrange(a + 10, a + 10 + vl)[m] == view[m] by {
            assert(pat[10 + m] == view[m]);
        }
    }
    assert(pat[10 + vl] == '.');
    assert(s[a + 10 + vl] == '.');
    assert(s.subrange(a + 11 + vl, a + 15 + vl) =~= "data"@) by {
        assert forall|m: int| 0 <= m < 4 implies s.subrange(a + 11 + vl, a + 15 + vl)[m] == "data"@[m] by {
            assert(pat[11 + vl + m] == "data"@[m]);
        }
    }
}

/// The array pattern takes the aggregate with or without a `coalesce(`
/// around it: after a key `'<key>', `, the text `jsonb_agg(v_<x>.data`, and
/// equally `coalesce(jsonb_agg(v_<x>.data`, makes `<key>` the array key of
/// `v_<x>`.
pub proof fn law_array_key_with_or_without_coalesce(s: Seq<char>, i: int, x: Seq<char>)
    requires
        key_at(s, i) is Some,
    ensures
        ({
            let (key, p) = key_at(s, i)->0;
            let agg = "jsonb_agg("@ + ("v_"@ + x) + ".data"@;
            &&& matches_at(s, p, agg) ==> array_at(s, i, "v_"@ + x) == Some(key)
            &&& matches_at(s, p, "coalesce("@ + agg) ==> array_at(s, i, "v_"@ + x) == Some(key)
        }),
{
    reveal_strlit("jsonb_agg(");
    reveal_strlit("coalesce(");
    reveal_strlit("coalesce");
    let (key, p) = key_at(s, i)->0;
    let agg = "jsonb_agg("@ + ("v_"@ + x) + ".data"@;
    if matches_at(s, p, agg) {
        assert(s.subrange(p, p + agg.len())[0] == s[p]);
        assert(s[p] == 'j');
        if matches_at(s, p, "coalesce"@) {
            assert(s.subrange(p, p + 8)[0] == s[p]);
        }
        lemma_agg_at(s, p, x);
    }
    let wrapped = "coalesce("@ + agg;
    if matches_at(s, p, wrapped) {
        assert forall|m: int| 0 <= m < wrapped.len() implies s[p + m] == #[trigger] wrapped[m] by {
            assert(s.subrange(p, p + wrapped.len())[m] == s[p + m]);
        }
        assert(s.subrange(p, p + 8) =~= "coalesce"@) by {
            assert forall|m: int| 0 <= m < 8 implies s.subrange(p, p + 8)[m] == "coalesce"@[m] by {
                assert(wrapped[m] == "coalesce"@[m]);
            }
        }
        assert(wrapped[8] == '(');
        assert(s[p + 8] == '(');
        assert(skip_ws(s, p + 8) == p + 8);
        assert(wrapped[9] == 'j');
        assert(s[p + 9] == 'j');
        assert(skip_ws(s, p + 9) == p + 9);
        assert(agg_start(s, p) == p + 9);
        assert(s.subrange(p + 9, p + 9 + agg.len()) =~= agg) by {
            assert forall|m: int| 0 <= m < agg.len() implies s.subrange(p + 9, p + 9 + agg.len())[m] == agg[m] by {
                assert(wrapped[9 + m] == agg[m]);
            }
        }
        lemma_agg_at(s, p + 9, x);
    }
}

/// The scan gives the key of the leftmost match: when the pattern matches at
/// `i` and nowhere from `from` up to `i`, the scan from `from` gives the key
/// found at `i`.
pub proof fn law_scan_takes_leftmost(s: Seq<char>, view: Seq<char>, from: int, i: int, array: bool)
    requires
        0 <= from <= i < s.len(),
        (if array { array_at(s, i, view) } else { nested_at(s, i, view) }) is Some,
        forall|j: int| from <= j < i ==> (if array { array_at(s, j, view) } else { nested_at(s, j, view) }) is None,
    ensures
        scan(s, view, from, array) == (if array { array_at(s, i, view) } else { nested_at(s, i, view) }),
    decreases i - from,
{
    if from < i {
        law_scan_takes_leftmost(s, view, from + 1, i, array);
    }
}

fn skip_ws_exec(s: &Vec<char>, i: usize) -> (r: usize)
    requires
        i <= s.len(),
    ensures
        r as int == skip_ws(s@, i as int),
        i <= r <= s.len(),
{
    let mut j = i;
    while j < s.len() && is_ws_exec(s[j])
        invariant
            i <= j <= s@.len(),
            skip_ws(s@, j as int) == skip_ws(s@, i as int),
        decreases s.len() - j,
    {
        j += 1;
    }
    j
}

fn word_end_exec(s: &Vec<char>, i: usize) -> (r: usize)
    requires
        i <= s.len(),
    ensures
        r as int == word_end(s@, i as int),
        i <= r <= s.len(),
{
    let mut j = i;
    while j < s.len() && is_name_char_exec(s[j])
        invariant
            i <= j <= s@.len(),
            word_end(s@, j as int) == word_end(s@, i as int),
        decreases s.len() - j,
    {
        j += 1;
    }
    j
}

fn key_at_exec(s: &Vec<char>, i: usize) -> (r: Option<(Vec<char>, usize)>)
    requires
        i < s.len(),
    ensures
        match key_at(s@, i as int) {
            Some((k, p)) => r matches Some((kv, pv)) && kv@ == k && pv as int == p && pv <= s.len(),
            None => r is None,
        },
{
    if s[i] != '\'' {
        return None;
    }
    let j = word_end_exec(s, i + 1);
    if j > i + 1 && j < s.len() - 1 && s[j] == '\'' && s[j + 1] == ',' {
        let k = subvec(s, i + 1, j);
        let p = skip_ws_exec(s, j + 2);
        Some((k, p))
    } else {
        None
    }
}

fn view_data_at_exec(s: &Vec<char>, k: usize, view: &Vec<char>) -> (r: bool)
    requires
        k <= s.len(),
    ensures
        r == view_data_at(s@, k as int, view@),
{
    proof {
        reveal_strlit("data");
    }
    if !matches_at_exec(s, k, view) {
        return false;
    }
    if k + view.len() >= s.len() || s[k + view.len()] == '\n' {
        return false;
    }
    matches_at_exec(s, k + view.len() + 1, &chars_of("data"))
}

fn nested_at_exec(s: &Vec<char>, i: usize, view: &Vec<char>) -> (r: Option<Vec<char>>)
    requires
        i < s.len(),
    ensures
        match nested_at(s@, i as int, view@) {
            Some(k) => r matches Some(kv) && kv@ == k,
            None => r is None,
        },
{
    match key_at_exec(s, i) {
        Some((key, p)) => if view_data_at_exec(s, p, view) {
            Some(key)
        } else {
            None
        },
        None => None,
    }
}

fn agg_start_exec(s: &Vec<char>, p: usize) -> (r: usize)
    requires
        p <= s.len(),
    ensures
        r as int == agg_start(s@, p as int),
        r <= s.len(),
{
    proof {
        reveal_strlit("coalesce");
    }
    if matches_at_exec(s, p, &chars_of("coalesce")) {
        let q = skip_ws_exec(s, p + 8);
        if q < s.len() && s[q] == '(' {
            skip_ws_exec(s, q + 1)
        } else {
            p
        }
    } else {
        p
    }
}

fn array_at_exec(s: &Vec<char>, i: usize, view: &Vec<char>) -> (r: Option<Vec<char>>)
    requires
        i < s.len(),
    ensures
        match array_at(s@, i as int, view@) {
            Some(k) => r matches Some(kv) && kv@ == k,
            None => r is None,
        },
{
    proof {
        reveal_strlit("jsonb_agg");
    }
    match key_at_exec(s, i) {
        Some((key, p)) => {
            let a = agg_start_exec(s, p);
            if matches_at_exec(s, a, &chars_of("jsonb_agg")) {
                let b = skip_ws_exec(s, a + 9);
                if b < s.len() && s[b] == '(' {
                    let c = skip_ws_exec(s, b + 1);
                    if view_data_at_exec(s, c, view) {
                        return Some(key);
                    }
                }
                None
            } else {
                None
            }
        },
        None => None,
    }
}

fn scan_exec(s: &Vec<char>, view: &Vec<char>, array: bool) -> (r: Option<Vec<char>>)
    ensures
        match scan(s@, view@, 0, array) {
            Some(k) => r matches Some(kv) && kv@ == k,
            None => r is None,
        },
{
    let mut i: usize = 0;
    while i < s.len()
        invariant
            i <= s@.len(),
            scan(s@, view@, i as int, array) == scan(s@, view@, 0, array),
        decreases s.len() - i,
    {
        let m = if array {
            array_at_exec(s, i, view)
        } else {
            nested_at_exec(s, i, view)
        };
        if m.is_some() {
            return m;
        }
        i += 1;
    }
    None
}

fn normalize_exec(sql: &str) -> (r: Vec<char>)
    ensures
        r@ == normalize(sql@),
{
    let v = chars_of(sql);
    let mut w: Vec<char> = Vec::new();
    let mut i: usize = 0;
    while i < v.len()
        invariant
            i <= v@.len(),
            w@ == v@.take(i as int).map_values(|c: char| if c == '\n' || c == '\t' { ' ' } else { c }),
        decreases v.len() - i,
    {
        let c = v[i];
        w.push(if c == '\n' || c == '\t' { ' ' } else { c });
        assert(v@.take(i + 1) =~= v@.take(i as int).push(c));
        assert(w@ =~= v@.take(i + 1).map_values(|c: char| if c == '\n' || c == '\t' { ' ' } else { c }));
        i += 1;
    }
    assert(v@.take(v@.len() as int) =~= v@);
    chars_of(to_lowercase(string_of(&w).as_str()).as_str())
}

/// Detect how the TVIEW defined by `select_sql` embeds `fk_col`
/// (see [`spec_detect_dependency_type`]).
pub fn detect_dependency_type(select_sql: &str, fk_col: &str) -> (r: DependencyInfo)
    ensures
        r@ == spec_detect_dependency_type(select_sql@, fk_col@),
{
    proof {
        reveal_strlit("fk_");
        reveal_strlit("v_");
        reveal_strlit("id");
    }
    let scalar = DependencyInfo { dep_type: DependencyType::Scalar, jsonb_path: None, array_match_key: None };
    let fk = chars_of(fk_col);
    if !starts_with_exec(&fk, &chars_of("fk_")) {
        return scalar;
    }
    let mut view = chars_of("v_");
    let mut i: usize = 3;
    let ghost v0 = view@;
    while i < fk.len()
        invariant
            3 <= i <= fk@.len(),
            view@ == v0 + fk@.subrange(3, i as int),
        decreases fk.len() - i,
    {
        view.push(fk[i]);
        assert(v0 + fk@.subrange(3, i + 1) =~= (v0 + fk@.subrange(3, i as int)).push(fk@[i as int]));
        i += 1;
    }
    assert(fk@.subrange(3, fk@.len() as int) =~= fk@.skip(3));
    let s = normalize_exec(select_sql);
    match scan_exec(&s, &view, false) {
        Some(k) => {
            let path = vec![string_of(&k)];
            assert(string_seq(path@) =~= seq![k@]);
            DependencyInfo { dep_type: DependencyType::NestedObject, jsonb_path: Some(path), array_match_key: None }
        },
        None => match scan_exec(&s, &view, true) {
            Some(k) => {
                let path = vec![string_of(&k)];
                assert(string_seq(path@) =~= seq![k@]);
                DependencyInfo {
                    dep_type: DependencyType::Array,
                    jsonb_path: Some(path),
                    array_match_key: Some("id".to_owned()),
                }
            },
            None => scalar,
        },
    }
}

/// One dependency per foreign-key column, in the columns' order.
pub fn analyze_dependencies(select_sql: &str, fk_columns: &Vec<String>) -> (r: Vec<DependencyInfo>)
    ensures
        r@.len() == fk_columns@.len(),
        forall|i: int| 0 <= i < r@.len() ==> #[trigger] r@[i]@ == spec_detect_dependency_type(select_sql@, fk_columns@[i]@),
{
    let mut deps: Vec<DependencyInfo> = Vec::new();
    let mut i: usize = 0;
    while i < fk_columns.len()
        invariant
            i <= fk_columns@.len(),
            deps@.len() == i,
            forall|j: int| 0 <= j < i ==> #[trigger] deps@[j]@ == spec_detect_dependency_type(select_sql@, fk_columns@[j]@),
        decreases fk_columns.len() - i,
    {
        deps.push(detect_dependency_type(select_sql, fk_columns[i].as_str()));
        i += 1;
    }
    deps
}

} // verus!
