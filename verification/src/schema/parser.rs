//! Column extraction from a TVIEW's SELECT statement.
//!
//! The scanner locates the main `SELECT` (after an optional non-recursive CTE
//! preamble), its outermost `FROM`, and splits the select list at top-level
//! commas. Keyword search is ASCII case-insensitive; positions are character
//! positions.
use vstd::prelude::*;
use crate::text::{
    chars_of, find_from, first_match_from, is_ascii_alpha, is_ascii_alpha_exec, is_ascii_ws,
    is_ascii_ws_exec, is_ident_char, is_ident_char_exec, is_ws, is_ws_exec, lower_seq,
    lower_vec, matches_at, matches_at_exec, string_of, subvec, trim_bounds, trim_end_seq,
    trim_seq, trimmed, trimmed_range, decimal, decimal_string, lemma_trim_end_skip, unicode_alphanumeric, is_alphanumeric,
};

verus! {

// ───────────────────────── outermost FROM ─────────────────────────

/// `from` as a whole word at `i`.
pub open spec fn from_word_at(s: Seq<char>, i: int) -> bool {
    &&& matches_at(s, i, "from"@)
    &&& (i == 0 || !is_ident_char(s[i - 1]))
    &&& (i + 4 >= s.len() || !is_ident_char(s[i + 4]))
}

/// Scan for a word-bounded `from` at parenthesis depth 0, outside single-quoted
/// literals, starting at `i` with the given depth and quote state.
pub open spec fn outer_from_scan(s: Seq<char>, i: int, depth: int, in_quote: bool) -> Option<int>
    decreases s.len() - i,
{
    if i < 0 || i >= s.len() {
        None
    } else if in_quote {
        outer_from_scan(s, i + 1, depth, s[i] != '\'')
    } else if s[i] == '(' {
        outer_from_scan(s, i + 1, depth + 1, false)
    } else if s[i] == ')' {
        outer_from_scan(s, i + 1, if depth > 0 { depth - 1 } else { 0 }, false)
    } else if s[i] == '\'' {
        outer_from_scan(s, i + 1, depth, true)
    } else if depth == 0 && from_word_at(s, i) {
        Some(i)
    } else {
        outer_from_scan(s, i + 1, depth, false)
    }
}

pub open spec fn spec_find_outer_from(s: Seq<char>, after: int) -> Option<int> {
    outer_from_scan(s, after, 0, false)
}

fn from_word_at_exec(s: &Vec<char>, kw: &Vec<char>, i: usize) -> (r: bool)
    requires
        kw@ == "from"@,
    ensures
        r == from_word_at(s@, i as int),
{
    proof {
        reveal_strlit("from");
    }
    if !matches_at_exec(s, i, kw) {
        return false;
    }
    assert(kw@.len() == 4);
    assert(i + 4 <= s.len());
    let before_ok = i == 0 || !is_ident_char_exec(s[i - 1]);
    let after_ok = i + 4 >= s.len() || !is_ident_char_exec(s[i + 4]);
    before_ok && after_ok
}

/// Position of the first word-bounded `from` at parenthesis depth 0 at or
/// after `after_pos` (single-quoted literals are skipped).
pub fn find_outer_from(s: &Vec<char>, after_pos: usize) -> (r: Option<usize>)
    ensures
        r matches Some(i) ==> spec_find_outer_from(s@, after_pos as int) == Some(
            i as int,
        ),
        r is None ==> spec_find_outer_from(s@, after_pos as int) is None,
{
    let kw = chars_of("from");
    let mut depth: usize = 0;
    let mut in_quote = false;
    let mut i = after_pos;
    while i < s.len()
        invariant
            kw@ == "from"@,
            after_pos <= i,
            depth <= i,
            outer_from_scan(s@, i as int, depth as int, in_quote) == spec_find_outer_from(
                s@,
                after_pos as int,
            ),
        decreases s.len() - i,
    {
        let c = s[i];
        if in_quote {
            in_quote = c != '\'';
        } else if c == '(' {
            depth += 1;
        } else if c == ')' {
            if depth > 0 {
                depth -= 1;
            }
        } else if c == '\'' {
            in_quote = true;
        } else if depth == 0 && from_word_at_exec(s, &kw, i) {
            assert(outer_from_scan(s@, i as int, depth as int, in_quote) == Some(i as int));
            return Some(i);
        }
        i += 1;
    }
    None
}

// ───────────────────────── parenthesised blocks ─────────────────────────

/// Scan to the `)` matching the depth bookkeeping that starts at the block's
/// first character. `mode`: 0 plain, 1 inside `'…'`, 2 just after a `'` inside
/// `'…'` (either the literal's end or the first half of a `''` escape), 3 inside
/// `"…"`. Yields the position just after the closing `)`.
pub open spec fn paren_scan(s: Seq<char>, i: int, depth: int, mode: int) -> Option<int>
    decreases s.len() - i,
{
    if i < 0 || i >= s.len() {
        None
    } else if mode == 1 {
        paren_scan(s, i + 1, depth, if s[i] == '\'' { 2 } else { 1 })
    } else if mode == 2 && s[i] == '\'' {
        paren_scan(s, i + 1, depth, 1)
    } else if mode == 3 {
        paren_scan(s, i + 1, depth, if s[i] == '"' { 0 } else { 3 })
    } else if s[i] == '(' {
        paren_scan(s, i + 1, depth + 1, 0)
    } else if s[i] == ')' {
        if depth - 1 == 0 {
            Some(i + 1)
        } else {
            paren_scan(s, i + 1, depth - 1, 0)
        }
    } else if s[i] == '\'' {
        paren_scan(s, i + 1, depth, 1)
    } else if s[i] == '"' {
        paren_scan(s, i + 1, depth, 3)
    } else {
        paren_scan(s, i + 1, depth, 0)
    }
}

pub open spec fn unbalanced_msg() -> Seq<char> {
    "Unbalanced parentheses in SQL"@
}

/// The position just after the `)` matching the `(` at `start`.
pub open spec fn spec_skip_paren_block(s: Seq<char>, start: int) -> Result<int, Seq<char>> {
    match paren_scan(s, start, 0, 0) {
        Some(p) => Ok(p),
        None => Err(unbalanced_msg()),
    }
}

pub proof fn lemma_paren_scan_after(s: Seq<char>, i: int, depth: int, mode: int)
    ensures
        paren_scan(s, i, depth, mode) matches Some(p) ==> i < p <= s.len(),
    decreases s.len() - i,
{
    if i < 0 || i >= s.len() {
    } else if mode == 1 {
        lemma_paren_scan_after(s, i + 1, depth, if s[i] == '\'' { 2 } else { 1 });
    } else if mode == 2 && s[i] == '\'' {
        lemma_paren_scan_after(s, i + 1, depth, 1);
    } else if mode == 3 {
        lemma_paren_scan_after(s, i + 1, depth, if s[i] == '"' { 0 } else { 3 });
    } else if s[i] == '(' {
        lemma_paren_scan_after(s, i + 1, depth + 1, 0);
    } else if s[i] == ')' {
        lemma_paren_scan_after(s, i + 1, depth - 1, 0);
    } else if s[i] == '\'' {
        lemma_paren_scan_after(s, i + 1, depth, 1);
    } else if s[i] == '"' {
        lemma_paren_scan_after(s, i + 1, depth, 3);
    } else {
        lemma_paren_scan_after(s, i + 1, depth, 0);
    }
}

fn skip_paren_chars(s: &Vec<char>, start: usize) -> (r: Result<usize, String>)
    ensures
        r matches Ok(p) ==> spec_skip_paren_block(s@, start as int) == Ok::<int, Seq<char>>(
            p as int,
        ),
        r matches Err(e) ==> spec_skip_paren_block(s@, start as int) == Err::<int, Seq<char>>(
            e@,
        ),
{
    let mut i = start;
    // depth = opens - closes
    let mut opens: usize = 0;
    let mut closes: usize = 0;
    let mut mode: u8 = 0;
    while i < s.len()
        invariant
            start <= i,
            opens <= i,
            closes <= i,
            mode <= 3,
            paren_scan(s@, i as int, opens - closes, mode as int) == paren_scan(
                s@,
                start as int,
                0,
                0,
            ),
        decreases s.len() - i,
    {
        let c = s[i];
        if mode == 1 {
            mode = if c == '\'' { 2 } else { 1 };
        } else if mode == 2 && c == '\'' {
            mode = 1;
        } else if mode == 3 {
            mode = if c == '"' { 0 } else { 3 };
        } else if c == '(' {
            opens += 1;
            mode = 0;
        } else if c == ')' {
            if closes + 1 == opens {
                return Ok(i + 1);
            }
            closes += 1;
            mode = 0;
        } else if c == '\'' {
            mode = 1;
        } else if c == '"' {
            mode = 3;
        } else {
            mode = 0;
        }
        i += 1;
    }
    Err("Unbalanced parentheses in SQL".to_owned())
}

/// Walk `bytes` from `start` (expected to hold `(`) to the matching `)`,
/// skipping single-quoted strings (with `''` escapes) and double-quoted
/// identifiers. Returns the position just after the closing `)`.
pub fn skip_paren_block(bytes: &[u8], start: usize) -> (r: Result<usize, String>)
    ensures
        r matches Ok(p) ==> spec_skip_paren_block(
            Seq::new(bytes@.len(), |k: int| bytes@[k] as char),
            start as int,
        ) == Ok::<int, Seq<char>>(p as int),
        r matches Err(e) ==> spec_skip_paren_block(
            Seq::new(bytes@.len(), |k: int| bytes@[k] as char),
            start as int,
        ) == Err::<int, Seq<char>>(e@),
{
    let mut v: Vec<char> = Vec::new();
    let mut k: usize = 0;
    while k < bytes.len()
        invariant
            k <= bytes@.len(),
            v@ =~= Seq::new(bytes@.len(), |j: int| bytes@[j] as char).take(k as int),
        decreases bytes.len() - k,
    {
        v.push(bytes[k] as char);
        k += 1;
    }
    assert(v@ =~= Seq::new(bytes@.len(), |j: int| bytes@[j] as char));
    skip_paren_chars(&v, start)
}

// ───────────────────────── CTE preamble ─────────────────────────

/// First position at or after `i` that is not ASCII whitespace.
pub open spec fn skip_ascii_ws(s: Seq<char>, i: int) -> int
    decreases s.len() - i,
{
    if 0 <= i < s.len() && is_ascii_ws(s[i]) {
        skip_ascii_ws(s, i + 1)
    } else {
        i
    }
}

/// First position at or after `i` that is not an identifier character.
pub open spec fn skip_ident(s: Seq<char>, i: int) -> int
    decreases s.len() - i,
{
    if 0 <= i < s.len() && is_ident_char(s[i]) {
        skip_ident(s, i + 1)
    } else {
        i
    }
}

/// First position at or after `i` holding `"`, if any.
pub open spec fn find_dquote(s: Seq<char>, i: int) -> Option<int>
    decreases s.len() - i,
{
    if i < 0 || i >= s.len() {
        None
    } else if s[i] == '"' {
        Some(i)
    } else {
        find_dquote(s, i + 1)
    }
}

pub open spec fn word_end_ok(s: Seq<char>, i: int) -> bool {
    i >= s.len() || !is_ident_char(s[i])
}

pub open spec fn recursive_msg() -> Seq<char> {
    "WITH RECURSIVE is not supported in TVIEWs. Consider using a non-recursive CTE or a subquery."@
}

/// After the CTE name (ending at `i2`): the optional column list, `AS`, the
/// body, and what follows it.
pub open spec fn cte_after_name(s: Seq<char>, i2: int) -> Result<int, Seq<char>> {
    let i3 = skip_ascii_ws(s, i2);
    let col_list = if i3 < s.len() && s[i3] == '(' {
        match spec_skip_paren_block(s, i3) {
            Ok(p) => Ok(skip_ascii_ws(s, p)),
            Err(e) => Err(e),
        }
    } else {
        Ok(i3)
    };
    match col_list {
        Err(e) => Err(e),
        Ok(i4) => if !matches_at(s, i4, "as"@) || !word_end_ok(s, i4 + 2) {
            Err("Expected AS keyword in CTE definition at byte offset "@ + decimal(i4 as nat))
        } else {
            let i5 = skip_ascii_ws(s, i4 + 2);
            if i5 >= s.len() || s[i5] != '(' {
                Err("Expected '(' for CTE body at byte offset "@ + decimal(i5 as nat))
            } else {
                match spec_skip_paren_block(s, i5) {
                    Err(e) => Err(e),
                    Ok(p) => Ok(p),
                }
            }
        },
    }
}

/// Walk the CTE list starting at `i`; yields where the main statement starts.
pub open spec fn cte_list(s: Seq<char>, i: int) -> Result<int, Seq<char>>
    decreases s.len() - i,
{
    if i < 0 {
        Err(Seq::empty())
    } else {
        let i1 = skip_ascii_ws(s, i);
        if i1 >= s.len() {
            Err("Unexpected end of SQL while parsing CTE preamble"@)
        } else {
            let name_end: Result<int, Seq<char>> = if s[i1] == '"' {
                match find_dquote(s, i1 + 1) {
                    None => Err("Unterminated quoted identifier in CTE name"@),
                    Some(q) => Ok(q + 1),
                }
            } else if is_ascii_alpha(s[i1]) || s[i1] == '_' {
                Ok(skip_ident(s, i1))
            } else {
                Err(Seq::empty())
            };
            if !(s[i1] == '"' || is_ascii_alpha(s[i1]) || s[i1] == '_') {
                Ok(i1)
            } else {
                match name_end {
                    Err(e) => Err(e),
                    Ok(i2) => match cte_after_name(s, i2) {
                        Err(e) => Err(e),
                        Ok(p) => {
                            let i6 = skip_ascii_ws(s, p);
                            if i6 >= s.len() {
                                Err("SQL ends after CTE body with no main SELECT"@)
                            } else if s[i6] == ',' {
                                if i6 + 1 > i {
                                    cte_list(s, i6 + 1)
                                } else {
                                    Err(Seq::empty())
                                }
                            } else {
                                Ok(i6)
                            }
                        },
                    },
                }
            }
        }
    }
}

pub open spec fn cte_list_body(s: Seq<char>, i: int) -> Result<int, Seq<char>> {
    cte_list(s, i)
}

/// Where the main statement starts once a leading `WITH …` preamble is
/// skipped (0 when there is none). `WITH RECURSIVE` is refused.
pub open spec fn spec_skip_cte_preamble(s: Seq<char>) -> Result<int, Seq<char>> {
    let i = skip_ascii_ws(s, 0);
    if !matches_at(s, i, "with"@) || !word_end_ok(s, i + 4) {
        Ok(0)
    } else {
        let j = skip_ascii_ws(s, i + 4);
        if matches_at(s, j, "recursive"@) && word_end_ok(s, j + 9) {
            Err(recursive_msg())
        } else {
            cte_list(s, j)
        }
    }
}

proof fn lemma_skip_ascii_ws_ge(s: Seq<char>, i: int)
    ensures
        skip_ascii_ws(s, i) >= i,
        0 <= i <= s.len() ==> skip_ascii_ws(s, i) <= s.len(),
    decreases s.len() - i,
{
    if 0 <= i < s.len() && is_ascii_ws(s[i]) {
        lemma_skip_ascii_ws_ge(s, i + 1);
    }
}

fn skip_ascii_ws_exec(s: &Vec<char>, i: usize) -> (r: usize)
    requires
        i <= s.len(),
    ensures
        r as int == skip_ascii_ws(s@, i as int),
        i <= r <= s.len(),
{
    let mut j = i;
    while j < s.len() && is_ascii_ws_exec(s[j])
        invariant
            i <= j <= s.len(),
            skip_ascii_ws(s@, j as int) == skip_ascii_ws(s@, i as int),
        decreases s.len() - j,
    {
        j += 1;
    }
    j
}

fn skip_ident_exec(s: &Vec<char>, i: usize) -> (r: usize)
    requires
        i <= s.len(),
    ensures
        r as int == skip_ident(s@, i as int),
        i <= r <= s.len(),
{
    let mut j = i;
    while j < s.len() && is_ident_char_exec(s[j])
        invariant
            i <= j <= s.len(),
            skip_ident(s@, j as int) == skip_ident(s@, i as int),
        decreases s.len() - j,
    {
        j += 1;
    }
    j
}

fn word_end_ok_exec(s: &Vec<char>, i: usize) -> (r: bool)
    ensures
        r == word_end_ok(s@, i as int),
{
    i >= s.len() || !is_ident_char_exec(s[i])
}

fn find_dquote_exec(s: &Vec<char>, i: usize) -> (r: Option<usize>)
    requires
        i <= s.len(),
    ensures
        r matches Some(q) ==> find_dquote(s@, i as int) == Some(q as int) && i <= q < s.len(),
        r is None ==> find_dquote(s@, i as int) is None,
{
    let mut j = i;
    while j < s.len()
        invariant
            i <= j <= s.len(),
            find_dquote(s@, j as int) == find_dquote(s@, i as int),
        decreases s.len() - j,
    {
        if s[j] == '"' {
            return Some(j);
        }
        j += 1;
    }
    None
}

fn offset_message(prefix: &str, n: usize) -> (r: String)
    ensures
        r@ == prefix@ + decimal(n as nat),
{
    let mut m = prefix.to_owned();
    let d = decimal_string(n as u64);
    m.append(d.as_str());
    m
}

fn cte_after_name_exec(s: &Vec<char>, i2: usize) -> (r: Result<usize, String>)
    requires
        i2 <= s.len(),
    ensures
        r matches Ok(p) ==> cte_after_name(s@, i2 as int) == Ok::<int, Seq<char>>(p as int) && i2
            < p <= s.len(),
        r matches Err(e) ==> cte_after_name(s@, i2 as int) == Err::<int, Seq<char>>(e@),
{
    let as_kw = chars_of("as");
    proof {
        reveal_strlit("as");
    }
    let i3 = skip_ascii_ws_exec(s, i2);
    let mut i4 = i3;
    if i3 < s.len() && s[i3] == '(' {
        match skip_paren_chars(s, i3) {
            Ok(p) => {
                proof {
                    lemma_paren_scan_after(s@, i3 as int, 0, 0);
                }
                i4 = skip_ascii_ws_exec(s, p);
            },
            Err(e) => {
                return Err(e);
            },
        }
    }
    if !matches_at_exec(s, i4, &as_kw) || !word_end_ok_exec(s, i4 + 2) {
        return Err(offset_message("Expected AS keyword in CTE definition at byte offset ", i4));
    }
    let i5 = skip_ascii_ws_exec(s, i4 + 2);
    if i5 >= s.len() || s[i5] != '(' {
        return Err(offset_message("Expected '(' for CTE body at byte offset ", i5));
    }
    match skip_paren_chars(s, i5) {
        Err(e) => Err(e),
        Ok(p) => {
            proof {
                lemma_paren_scan_after(s@, i5 as int, 0, 0);
            }
            Ok(p)
        },
    }
}

/// Skip a leading `WITH` clause (CTE preamble) and return the position where
/// the main statement starts; 0 when the text does not begin with `WITH`.
/// `WITH RECURSIVE` and malformed preambles are refused.
pub fn skip_cte_preamble(s: &Vec<char>) -> (r: Result<usize, String>)
    ensures
        r matches Ok(p) ==> spec_skip_cte_preamble(s@) == Ok::<int, Seq<char>>(p as int)
            && p <= s@.len(),
        r matches Err(e) ==> spec_skip_cte_preamble(s@) == Err::<int, Seq<char>>(e@),
{
    let with_kw = chars_of("with");
    let rec_kw = chars_of("recursive");
    proof {
        reveal_strlit("with");
        reveal_strlit("recursive");
    }
    let i = skip_ascii_ws_exec(s, 0);
    if !matches_at_exec(s, i, &with_kw) || !word_end_ok_exec(s, i + 4) {
        return Ok(0);
    }
    let j = skip_ascii_ws_exec(s, i + 4);
    if matches_at_exec(s, j, &rec_kw) && word_end_ok_exec(s, j + 9) {
        return Err(
            "WITH RECURSIVE is not supported in TVIEWs. Consider using a non-recursive CTE or a subquery.".to_owned(),
        );
    }
    let mut k = j;
    loop
        invariant
            k <= s.len(),
            cte_list(s@, k as int) == spec_skip_cte_preamble(s@),
        decreases s.len() - k,
    {
        let i1 = skip_ascii_ws_exec(s, k);
        if i1 >= s.len() {
            assert(cte_list(s@, k as int) == Err::<int, Seq<char>>(
                "Unexpected end of SQL while parsing CTE preamble"@,
            ));
            return Err("Unexpected end of SQL while parsing CTE preamble".to_owned());
        }
        let c = s[i1];
        let i2;
        if c == '"' {
            match find_dquote_exec(s, i1 + 1) {
                None => {
                    return Err("Unterminated quoted identifier in CTE name".to_owned());
                },
                Some(q) => {
                    i2 = q + 1;
                },
            }
        } else if is_ascii_alpha_exec(c) || c == '_' {
            i2 = skip_ident_exec(s, i1);
        } else {
            return Ok(i1);
        }
        let p = match cte_after_name_exec(s, i2) {
            Err(e) => {
                return Err(e);
            },
            Ok(p) => p,
        };
        let i6 = skip_ascii_ws_exec(s, p);
        if i6 >= s.len() {
            return Err("SQL ends after CTE body with no main SELECT".to_owned());
        }
        if s[i6] == ',' {
            k = i6 + 1;
        } else {
            return Ok(i6);
        }
    }
}

// ───────────────────────── top-level comma split ─────────────────────────

/// State of the top-level comma splitter.
pub struct SplitState {
    pub parts: Seq<Seq<char>>,
    pub current: Seq<char>,
    pub depth: int,
    pub in_single: bool,
    pub in_double: bool,
    pub prev: char,
}

pub open spec fn split_step(st: SplitState, c: char) -> SplitState {
    let free = !st.in_single && !st.in_double;
    if c == '(' && free {
        SplitState { current: st.current.push(c), depth: st.depth + 1, prev: c, ..st }
    } else if c == ')' && free {
        SplitState {
            current: st.current.push(c),
            depth: if st.depth > 0 { st.depth - 1 } else { 0 },
            prev: c,
            ..st
        }
    } else if c == '\'' && !st.in_double {
        SplitState {
            current: st.current.push(c),
            in_single: if st.prev != '\\' { !st.in_single } else { st.in_single },
            prev: c,
            ..st
        }
    } else if c == '"' && !st.in_single {
        SplitState {
            current: st.current.push(c),
            in_double: if st.prev != '\\' { !st.in_double } else { st.in_double },
            prev: c,
            ..st
        }
    } else if c == ',' && st.depth == 0 && free {
        SplitState {
            parts: st.parts.push(trim_seq(st.current)),
            current: Seq::empty(),
            prev: c,
            ..st
        }
    } else {
        SplitState { current: st.current.push(c), prev: c, ..st }
    }
}

pub open spec fn split_run(s: Seq<char>) -> SplitState
    decreases s.len(),
{
    if s.len() == 0 {
        SplitState {
            parts: Seq::empty(),
            current: Seq::empty(),
            depth: 0,
            in_single: false,
            in_double: false,
            prev: '\0',
        }
    } else {
        split_step(split_run(s.drop_last()), s.last())
    }
}

/// The pieces of `s` between top-level commas (outside parentheses and
/// quotes), each trimmed; a trailing piece is kept only when non-blank.
pub open spec fn spec_split_top_level(s: Seq<char>) -> Seq<Seq<char>> {
    let st = split_run(s);
    if trim_seq(st.current).len() > 0 {
        st.parts.push(trim_seq(st.current))
    } else {
        st.parts
    }
}

pub open spec fn vec_views(v: Seq<Vec<char>>) -> Seq<Seq<char>> {
    Seq::new(v.len(), |i: int| v[i]@)
}

/// Split `s` at top-level commas (outside parentheses and quotes).
pub fn split_by_top_level_comma(s: &Vec<char>) -> (r: Vec<Vec<char>>)
    ensures
        vec_views(r@) == spec_split_top_level(s@),
{
    let mut parts: Vec<Vec<char>> = Vec::new();
    let mut current: Vec<char> = Vec::new();
    let mut depth: usize = 0;
    let mut in_single = false;
    let mut in_double = false;
    let mut prev: char = '\0';
    let mut i: usize = 0;
    while i < s.len()
        invariant
            i <= s.len(),
            depth <= i,
            ({
                let st = split_run(s@.take(i as int));
                &&& vec_views(parts@) == st.parts
                &&& current@ == st.current
                &&& depth as int == st.depth
                &&& in_single == st.in_single
                &&& in_double == st.in_double
                &&& prev == st.prev
            }),
        decreases s.len() - i,
    {
        let c = s[i];
        proof {
            assert(s@.take(i + 1).drop_last() =~= s@.take(i as int));
        }
        let free = !in_single && !in_double;
        if c == '(' && free {
            depth += 1;
            current.push(c);
        } else if c == ')' && free {
            if depth > 0 {
                depth -= 1;
            }
            current.push(c);
        } else if c == '\'' && !in_double {
            if prev != '\\' {
                in_single = !in_single;
            }
            current.push(c);
        } else if c == '"' && !in_single {
            if prev != '\\' {
                in_double = !in_double;
            }
            current.push(c);
        } else if c == ',' && depth == 0 && free {
            let t = trimmed(&current);
            parts.push(t);
            current = Vec::new();
            proof {
                assert(vec_views(parts@) =~= split_run(s@.take(i + 1)).parts);
            }
        } else {
            current.push(c);
        }
        prev = c;
        i += 1;
    }
    proof {
        assert(s@.take(s@.len() as int) =~= s@);
    }
    let t = trimmed(&current);
    if t.len() > 0 {
        parts.push(t);
        proof {
            assert(vec_views(parts@) =~= spec_split_top_level(s@));
        }
    }
    parts
}

// ───────────────────────── column names ─────────────────────────

pub open spec fn paren_depth_step(d: int, c: char) -> int {
    if c == '(' {
        d + 1
    } else if c == ')' {
        if d > 0 { d - 1 } else { 0 }
    } else {
        d
    }
}

/// Parenthesis depth at the end of `s` (a `)` at depth 0 is ignored).
pub open spec fn paren_depth(s: Seq<char>) -> int
    decreases s.len(),
{
    if s.len() == 0 {
        0
    } else {
        paren_depth_step(paren_depth(s.drop_last()), s.last())
    }
}

/// A character that can be part of a name: a letter, a digit or `_`.
pub open spec fn is_name_char(c: char) -> bool {
    unicode_alphanumeric(c) || c == '_'
}

/// The word `as` at `i`, outside any parentheses: not part of a longer name
/// (`last_name`, `alias`, `cast`).
pub open spec fn top_level_as_at(s: Seq<char>, i: int) -> bool {
    &&& matches_at(s, i, "as"@)
    &&& paren_depth(s.take(i)) == 0
    &&& (i == 0 || !is_name_char(s[i - 1]))
    &&& (i + 2 == s.len() || !is_name_char(s[i + 2]))
}

pub(crate) fn is_name_char_exec(c: char) -> (r: bool)
    ensures
        r == is_name_char(c),
{
    c == '_' || is_alphanumeric(c)
}

/// The last top-level word `as` that starts before position `n`.
pub open spec fn last_as_before(s: Seq<char>, n: int) -> Option<int>
    decreases n,
{
    if n <= 0 {
        None
    } else if top_level_as_at(s, n - 1) {
        Some(n - 1)
    } else {
        last_as_before(s, n - 1)
    }
}

pub open spec fn spec_find_last_as(s: Seq<char>) -> Option<int> {
    last_as_before(s, s.len() as int)
}

proof fn lemma_last_as_sound(s: Seq<char>, n: int)
    ensures
        last_as_before(s, n) matches Some(i) ==> top_level_as_at(s, i) && i < n,
    decreases n,
{
    if n > 0 && !top_level_as_at(s, n - 1) {
        lemma_last_as_sound(s, n - 1);
    }
}

/// The alias position is the last top-level word `as` before `n`, and
/// there is none when no word `as` occurs there.
pub proof fn law_last_as_is_the_last_word_as(s: Seq<char>, n: int)
    ensures
        last_as_before(s, n) matches Some(i) ==> i < n && top_level_as_at(s, i) && forall|j: int|
            i < j < n ==> !#[trigger] top_level_as_at(s, j),
        last_as_before(s, n) is None ==> forall|j: int| 0 <= j < n ==> !#[trigger] top_level_as_at(s, j),
    decreases n,
{
    if n > 0 && !top_level_as_at(s, n - 1) {
        law_last_as_is_the_last_word_as(s, n - 1);
    }
}

proof fn lemma_depth_nonneg(s: Seq<char>)
    ensures
        paren_depth(s) >= 0,
    decreases s.len(),
{
    if s.len() > 0 {
        lemma_depth_nonneg(s.drop_last());
    }
}

/// Position of the last word `as` at parenthesis depth 0 (see
/// [`top_level_as_at`]). Expects lowercased text.
pub fn find_last_as_chars(s: &Vec<char>) -> (r: Option<usize>)
    ensures
        r matches Some(i) ==> spec_find_last_as(s@) == Some(i as int),
        r is None ==> spec_find_last_as(s@) is None,
{
    let kw = chars_of("as");
    let mut best: Option<usize> = None;
    let mut depth: usize = 0;
    let mut i: usize = 0;
    while i < s.len()
        invariant
            kw@ == "as"@,
            i <= s.len(),
            depth as int == paren_depth(s@.take(i as int)),
            depth <= i,
            match best {
                Some(b) => last_as_before(s@, i as int) == Some(b as int),
                None => last_as_before(s@, i as int) is None,
            },
        decreases s.len() - i,
    {
        if depth == 0 && matches_at_exec(s, i, &kw) {
            proof {
                reveal_strlit("as");
            }
            assert(i + 2 <= s.len());
            let before_ok = i == 0 || !is_name_char_exec(s[i - 1]);
            let after_ok = i + 2 == s.len() || !is_name_char_exec(s[i + 2]);
            if before_ok && after_ok {
                best = Some(i);
            }
        }
        let c = s[i];
        proof {
            assert(s@.take(i + 1).drop_last() =~= s@.take(i as int));
            assert(s@.take(i + 1).last() == c);
        }
        if c == '(' {
            depth += 1;
        } else if c == ')' {
            if depth > 0 {
                depth -= 1;
            }
        }
        i += 1;
    }
    proof {
        assert(s@.take(s@.len() as int) =~= s@);
    }
    best
}

/// Characters stripped from the end of a bare column reference.
pub open spec fn is_trailing_punct(c: char) -> bool {
    !unicode_alphanumeric(c) && c != '_'
}

pub open spec fn trim_end_punct(s: Seq<char>) -> Seq<char>
    decreases s.len(),
{
    if s.len() > 0 && is_trailing_punct(s.last()) {
        trim_end_punct(s.drop_last())
    } else {
        s
    }
}

/// Longest suffix of `s` without whitespace.
pub open spec fn trailing_word(s: Seq<char>) -> Seq<char>
    decreases s.len(),
{
    if s.len() > 0 && !is_ws(s.last()) {
        trailing_word(s.drop_last()).push(s.last())
    } else {
        Seq::empty()
    }
}

/// Longest suffix of `s` without `.`.
pub open spec fn after_last_dot(s: Seq<char>) -> Seq<char>
    decreases s.len(),
{
    if s.len() > 0 && s.last() != '.' {
        after_last_dot(s.drop_last()).push(s.last())
    } else {
        Seq::empty()
    }
}

/// Output column name of one select-list entry: the text after the last
/// top-level `AS`, or else the last dotted segment of the last word.
pub open spec fn spec_extract_column_name(part: Seq<char>) -> Result<Seq<char>, Seq<char>> {
    match spec_find_last_as(lower_seq(part)) {
        Some(p) => {
            let alias = trim_seq(part.subrange(p + 2, part.len() as int));
            if alias.len() == 0 {
                Err("Empty alias after AS"@)
            } else {
                Ok(alias)
            }
        },
        None => if trim_seq(part).len() == 0 {
            Err("Empty column expression"@)
        } else {
            let clean = trim_end_punct(trailing_word(trim_end_seq(part)));
            if clean.len() == 0 {
                Err("Could not extract column name"@)
            } else {
                Ok(after_last_dot(clean))
            }
        },
    }
}

proof fn lemma_trailing_word_suffix(s: Seq<char>, k: int)
    requires
        0 <= k <= s.len(),
        k == 0 || is_ws(s[k - 1]),
        forall|j: int| k <= j < s.len() ==> !is_ws(#[trigger] s[j]),
    ensures
        trailing_word(s) == s.subrange(k, s.len() as int),
    decreases s.len(),
{
    if s.len() > k {
        lemma_trailing_word_suffix(s.drop_last(), k);
        assert(s.drop_last().subrange(k, s.len() - 1).push(s.last()) =~= s.subrange(
            k,
            s.len() as int,
        ));
    } else {
        assert(s.subrange(k, s.len() as int) =~= Seq::<char>::empty());
    }
}

proof fn lemma_after_last_dot_suffix(s: Seq<char>, k: int)
    requires
        0 <= k <= s.len(),
        k == 0 || s[k - 1] == '.',
        forall|j: int| k <= j < s.len() ==> #[trigger] s[j] != '.',
    ensures
        after_last_dot(s) == s.subrange(k, s.len() as int),
    decreases s.len(),
{
    if s.len() > k {
        lemma_after_last_dot_suffix(s.drop_last(), k);
        assert(s.drop_last().subrange(k, s.len() - 1).push(s.last()) =~= s.subrange(
            k,
            s.len() as int,
        ));
    } else {
        assert(s.subrange(k, s.len() as int) =~= Seq::<char>::empty());
    }
}

proof fn lemma_trim_end_punct_prefix(s: Seq<char>, k: int)
    requires
        0 <= k <= s.len(),
        k == 0 || !is_trailing_punct(s[k - 1]),
        forall|j: int| k <= j < s.len() ==> is_trailing_punct(#[trigger] s[j]),
    ensures
        trim_end_punct(s) == s.subrange(0, k),
    decreases s.len(),
{
    if s.len() > k {
        lemma_trim_end_punct_prefix(s.drop_last(), k);
        assert(s.drop_last().subrange(0, k) =~= s.subrange(0, k));
    } else {
        assert(s.subrange(0, k) =~= s);
    }
}

fn trim_end_pos(part: &Vec<char>) -> (e: usize)
    ensures
        e <= part.len(),
        trim_end_seq(part@) == part@.subrange(0, e as int),
{
    let mut e = part.len();
    while e > 0 && is_ws_exec(part[e - 1])
        invariant
            e <= part.len(),
            forall|j: int| e <= j < part.len() ==> is_ws(#[trigger] part@[j]),
        decreases e,
    {
        e -= 1;
    }
    proof {
        lemma_trim_end_skip(part@, e as int);
        if e > 0 {
            assert(part@.subrange(0, e as int).last() == part@[e - 1]);
        }
        assert(trim_end_seq(part@.subrange(0, e as int)) == part@.subrange(0, e as int));
    }
    e
}

fn word_start(part: &Vec<char>, e: usize) -> (w: usize)
    requires
        e <= part.len(),
    ensures
        w <= e,
        trailing_word(part@.subrange(0, e as int)) == part@.subrange(w as int, e as int),
{
    let mut w = e;
    while w > 0 && !is_ws_exec(part[w - 1])
        invariant
            w <= e <= part.len(),
            forall|j: int| w <= j < e ==> !is_ws(#[trigger] part@[j]),
        decreases w,
    {
        w -= 1;
    }
    proof {
        let t = part@.subrange(0, e as int);
        assert forall|j: int| w <= j < t.len() implies !is_ws(#[trigger] t[j]) by {
            assert(t[j] == part@[j]);
        }
        if w > 0 {
            assert(t[w - 1] == part@[w - 1]);
        }
        lemma_trailing_word_suffix(t, w as int);
        assert(t.subrange(w as int, e as int) =~= part@.subrange(w as int, e as int));
    }
    w
}

fn punct_end(part: &Vec<char>, w: usize, e: usize) -> (c: usize)
    requires
        w <= e <= part.len(),
    ensures
        w <= c <= e,
        trim_end_punct(part@.subrange(w as int, e as int)) == part@.subrange(w as int, c as int),
{
    let mut c = e;
    while c > w && !is_alphanumeric(part[c - 1]) && part[c - 1] != '_'
        invariant
            w <= c <= e <= part.len(),
            forall|j: int| c <= j < e ==> is_trailing_punct(#[trigger] part@[j]),
        decreases c,
    {
        c -= 1;
    }
    proof {
        let word = part@.subrange(w as int, e as int);
        assert forall|j: int| c - w <= j < word.len() implies is_trailing_punct(
            #[trigger] word[j],
        ) by {
            assert(word[j] == part@[w + j]);
        }
        if c > w {
            assert(word[c - w - 1] == part@[c - 1]);
        }
        lemma_trim_end_punct_prefix(word, c - w);
        assert(word.subrange(0, c - w) =~= part@.subrange(w as int, c as int));
    }
    c
}

fn dot_start(part: &Vec<char>, w: usize, c: usize) -> (d: usize)
    requires
        w <= c <= part.len(),
    ensures
        w <= d <= c,
        after_last_dot(part@.subrange(w as int, c as int)) == part@.subrange(d as int, c as int),
{
    let mut d = c;
    while d > w && part[d - 1] != '.'
        invariant
            w <= d <= c <= part.len(),
            forall|j: int| d <= j < c ==> #[trigger] part@[j] != '.',
        decreases d,
    {
        d -= 1;
    }
    proof {
        let clean = part@.subrange(w as int, c as int);
        assert forall|j: int| d - w <= j < clean.len() implies #[trigger] clean[j] != '.' by {
            assert(clean[j] == part@[w + j]);
        }
        if d > w {
            assert(clean[d - w - 1] == part@[d - 1]);
        }
        lemma_after_last_dot_suffix(clean, d - w);
        assert(clean.subrange(d - w, clean.len() as int) =~= part@.subrange(d as int, c as int));
    }
    d
}

/// Extract the output column name of one select-list entry. Handles
/// `column_name`, `table.column_name` and `expression AS alias`.
pub fn extract_column_name_chars(part: &Vec<char>) -> (r: Result<Vec<char>, String>)
    ensures
        r matches Ok(c) ==> spec_extract_column_name(part@) == Ok::<Seq<char>, Seq<char>>(c@),
        r matches Err(e) ==> spec_extract_column_name(part@) == Err::<Seq<char>, Seq<char>>(
            e@,
        ),
{
    let lower = lower_vec(part);
    match find_last_as_chars(&lower) {
        Some(as_pos) => {
            proof {
                let s = lower@;
                lemma_last_as_sound(s, s.len() as int);
                assert(matches_at(s, as_pos as int, "as"@));
                reveal_strlit("as");
            }
            let alias = trimmed_range(part, as_pos + 2, part.len());
            if alias.len() == 0 {
                return Err("Empty alias after AS".to_owned());
            }
            Ok(alias)
        },
        None => {
            let (a, b) = trim_bounds(part, 0, part.len());
            proof {
                assert(part@.subrange(0, part@.len() as int) =~= part@);
            }
            if a == b {
                proof {
                    assert(trim_seq(part@).len() == 0);
                }
                return Err("Empty column expression".to_owned());
            }
            let e = trim_end_pos(part);
            let w = word_start(part, e);
            let c = punct_end(part, w, e);
            if c == w {
                return Err("Could not extract column name".to_owned());
            }
            let d = dot_start(part, w, c);
            Ok(subvec(part, d, c))
        },
    }
}

// ───────────────────────── select list ─────────────────────────

/// Column entries from the select-list pieces: blank pieces are skipped; the
/// first piece whose name cannot be extracted yields its error.
pub open spec fn columns_from_parts(parts: Seq<Seq<char>>) -> Result<
    Seq<(Seq<char>, Seq<char>)>,
    Seq<char>,
>
    decreases parts.len(),
{
    if parts.len() == 0 {
        Ok(Seq::empty())
    } else {
        match columns_from_parts(parts.drop_last()) {
            Err(e) => Err(e),
            Ok(cols) => {
                let t = trim_seq(parts.last());
                if t.len() == 0 {
                    Ok(cols)
                } else {
                    match spec_extract_column_name(t) {
                        Err(e) => Err(e),
                        Ok(name) => Ok(cols.push((name, t))),
                    }
                }
            },
        }
    }
}

pub open spec fn no_columns_msg() -> Seq<char> {
    "No columns found in SELECT statement"@
}

/// `(column name, expression)` for each entry of the main select list.
pub open spec fn spec_columns_with_expressions(sql: Seq<char>) -> Result<
    Seq<(Seq<char>, Seq<char>)>,
    Seq<char>,
> {
    let lower = lower_seq(sql);
    match spec_skip_cte_preamble(lower) {
        Err(e) => Err(e),
        Ok(cte) => match first_match_from(lower, "select"@, cte) {
            None => Err("No SELECT keyword found"@),
            Some(sel) => match spec_find_outer_from(lower, sel) {
                None => Err("No FROM keyword found"@),
                Some(from) => if from <= sel {
                    Err("FROM appears before SELECT"@)
                } else {
                    let clause = trim_seq(sql.subrange(sel + 6, from));
                    if clause.len() == 0 {
                        Err(no_columns_msg())
                    } else {
                        match columns_from_parts(spec_split_top_level(clause)) {
                            Err(e) => Err(e),
                            Ok(cols) => if cols.len() == 0 {
                                Err(no_columns_msg())
                            } else {
                                Ok(cols)
                            },
                        }
                    }
                },
            },
        },
    }
}

/// Column names of the main select list.
pub open spec fn spec_select_columns(sql: Seq<char>) -> Result<Seq<Seq<char>>, Seq<char>> {
    match spec_columns_with_expressions(sql) {
        Err(e) => Err(e),
        Ok(cols) => Ok(Seq::new(cols.len(), |i: int| cols[i].0)),
    }
}

proof fn lemma_outer_from_bound(s: Seq<char>, i: int, depth: int, in_quote: bool)
    ensures
        outer_from_scan(s, i, depth, in_quote) matches Some(f) ==> i <= f && from_word_at(s, f),
    decreases s.len() - i,
{
    if i < 0 || i >= s.len() {
    } else if in_quote {
        lemma_outer_from_bound(s, i + 1, depth, s[i] != '\'');
    } else if s[i] == '(' {
        lemma_outer_from_bound(s, i + 1, depth + 1, false);
    } else if s[i] == ')' {
        lemma_outer_from_bound(s, i + 1, if depth > 0 { depth - 1 } else { 0 }, false);
    } else if s[i] == '\'' {
        lemma_outer_from_bound(s, i + 1, depth, true);
    } else if depth == 0 && from_word_at(s, i) {
    } else {
        lemma_outer_from_bound(s, i + 1, depth, false);
    }
}

pub open spec fn pair_views(v: Seq<(Vec<char>, Vec<char>)>) -> Seq<(Seq<char>, Seq<char>)> {
    Seq::new(v.len(), |i: int| (v[i].0@, v[i].1@))
}

fn columns_from_parts_exec(parts: &Vec<Vec<char>>) -> (r: Result<Vec<(Vec<char>, Vec<char>)>, String>)
    ensures
        r matches Ok(v) ==> columns_from_parts(vec_views(parts@)) == Ok::<
            Seq<(Seq<char>, Seq<char>)>,
            Seq<char>,
        >(pair_views(v@)),
        r matches Err(e) ==> columns_from_parts(vec_views(parts@)) == Err::<
            Seq<(Seq<char>, Seq<char>)>,
            Seq<char>,
        >(e@),
{
    let mut cols: Vec<(Vec<char>, Vec<char>)> = Vec::new();
    let mut i: usize = 0;
    proof {
        assert(vec_views(parts@).take(0) =~= Seq::<Seq<char>>::empty());
        assert(pair_views(cols@) =~= Seq::<(Seq<char>, Seq<char>)>::empty());
    }
    while i < parts.len()
        invariant
            i <= parts.len(),
            columns_from_parts(vec_views(parts@).take(i as int)) == Ok::<
                Seq<(Seq<char>, Seq<char>)>,
                Seq<char>,
            >(pair_views(cols@)),
        decreases parts.len() - i,
    {
        proof {
            assert(vec_views(parts@).take(i + 1).drop_last() =~= vec_views(parts@).take(
                i as int,
            ));
            assert(vec_views(parts@).take(i + 1).last() == parts@[i as int]@);
        }
        let t = trimmed(&parts[i]);
        if t.len() > 0 {
            match extract_column_name_chars(&t) {
                Err(e) => {
                    proof {
                        lemma_columns_err_prefix(vec_views(parts@), i + 1);
                    }
                    return Err(e);
                },
                Ok(name) => {
                    cols.push((name, t));
                    proof {
                        assert(pair_views(cols@) =~= columns_from_parts(
                            vec_views(parts@).take(i + 1),
                        )->Ok_0);
                    }
                },
            }
        }
        i += 1;
    }
    proof {
        assert(vec_views(parts@).take(parts@.len() as int) =~= vec_views(parts@));
    }
    Ok(cols)
}

/// `(column name, expression)` for each entry of the main select list, as
/// character vectors.
pub fn columns_with_expressions(sql: &Vec<char>) -> (r: Result<Vec<(Vec<char>, Vec<char>)>, String>)
    ensures
        r matches Ok(v) ==> spec_columns_with_expressions(sql@) == Ok::<
            Seq<(Seq<char>, Seq<char>)>,
            Seq<char>,
        >(pair_views(v@)),
        r matches Err(e) ==> spec_columns_with_expressions(sql@) == Err::<
            Seq<(Seq<char>, Seq<char>)>,
            Seq<char>,
        >(e@),
{
    let lower = lower_vec(sql);
    let cte = match skip_cte_preamble(&lower) {
        Err(e) => {
            return Err(e);
        },
        Ok(c) => c,
    };
    let select_kw = chars_of("select");
    let sel = match find_from(&lower, &select_kw, cte) {
        None => {
            return Err("No SELECT keyword found".to_owned());
        },
        Some(p) => p,
    };
    proof {
        crate::text::lemma_first_match_complete(lower@, select_kw@, cte as int);
        reveal_strlit("select");
        reveal_strlit("from");
    }
    let from = match find_outer_from(&lower, sel) {
        None => {
            return Err("No FROM keyword found".to_owned());
        },
        Some(f) => f,
    };
    proof {
        lemma_outer_from_bound(lower@, sel as int, 0, false);
    }
    if from <= sel {
        return Err("FROM appears before SELECT".to_owned());
    }
    if from - sel < 6 {
        proof {
            // "select" holds no 'f', so "from" cannot start inside it
            let s = lower@;
            assert(s.subrange(sel as int, sel + 6)[from - sel] == s[from as int]);
            assert(s.subrange(from as int, from + 4)[0] == s[from as int]);
        }
        return Err("FROM appears before SELECT".to_owned());
    }
    let clause = trimmed_range(sql, sel + 6, from);
    if clause.len() == 0 {
        return Err("No columns found in SELECT statement".to_owned());
    }
    let parts = split_by_top_level_comma(&clause);
    let cols = match columns_from_parts_exec(&parts) {
        Err(e) => {
            return Err(e);
        },
        Ok(c) => c,
    };
    if cols.len() == 0 {
        return Err("No columns found in SELECT statement".to_owned());
    }
    Ok(cols)
}

proof fn lemma_columns_err_prefix(parts: Seq<Seq<char>>, n: int)
    requires
        0 <= n <= parts.len(),
        columns_from_parts(parts.take(n)) is Err,
    ensures
        columns_from_parts(parts) == columns_from_parts(parts.take(n)),
    decreases parts.len() - n,
{
    if n < parts.len() {
        assert(parts.take(n + 1).drop_last() =~= parts.take(n));
        lemma_columns_err_prefix(parts, n + 1);
    } else {
        assert(parts.take(n) =~= parts);
    }
}

/// Character position of the last word `as` at parenthesis depth 0 in
/// `expr` (expected lowercased).
pub fn find_last_as(expr: &str) -> (r: Option<usize>)
    ensures
        r matches Some(i) ==> spec_find_last_as(expr@) == Some(i as int),
        r is None ==> spec_find_last_as(expr@) is None,
{
    let v = chars_of(expr);
    find_last_as_chars(&v)
}

/// The output column name of one select-list entry: `column_name`,
/// `table.column_name` or `expression AS alias`.
pub fn extract_column_name(expr: &str) -> (r: Result<String, String>)
    ensures
        r matches Ok(c) ==> spec_extract_column_name(expr@) == Ok::<Seq<char>, Seq<char>>(c@),
        r matches Err(e) ==> spec_extract_column_name(expr@) == Err::<Seq<char>, Seq<char>>(e@),
{
    let v = chars_of(expr);
    match extract_column_name_chars(&v) {
        Ok(c) => Ok(string_of(&c)),
        Err(e) => Err(e),
    }
}

/// Parse a SELECT statement and return its output column names.
pub fn parse_select_columns(sql: &str) -> (r: Result<Vec<String>, String>)
    ensures
        r matches Ok(v) ==> spec_select_columns(sql@) == Ok::<Seq<Seq<char>>, Seq<char>>(
            crate::error::views_of(v@),
        ),
        r matches Err(e) ==> spec_select_columns(sql@) == Err::<Seq<Seq<char>>, Seq<char>>(e@),
{
    extract_columns_regex(sql)
}

/// Parse a SELECT statement and return `(column_name, expression)` pairs.
pub fn parse_select_columns_with_expressions(sql: &str) -> (r: Result<Vec<(String, String)>, String>)
    ensures
        r matches Ok(v) ==> spec_columns_with_expressions(sql@) == Ok::<
            Seq<(Seq<char>, Seq<char>)>,
            Seq<char>,
        >(Seq::new(v@.len(), |i: int| (v@[i].0@, v@[i].1@))),
        r matches Err(e) ==> spec_columns_with_expressions(sql@) == Err::<
            Seq<(Seq<char>, Seq<char>)>,
            Seq<char>,
        >(e@),
{
    extract_columns_with_expressions_regex(sql)
}

/// Output column names of the main select list.
fn extract_columns_regex(sql: &str) -> (r: Result<Vec<String>, String>)
    ensures
        r matches Ok(v) ==> spec_select_columns(sql@) == Ok::<Seq<Seq<char>>, Seq<char>>(
            crate::error::views_of(v@),
        ),
        r matches Err(e) ==> spec_select_columns(sql@) == Err::<Seq<Seq<char>>, Seq<char>>(e@),
{
    let chars = chars_of(sql);
    match columns_with_expressions(&chars) {
        Err(e) => Err(e),
        Ok(cols) => {
            let mut out: Vec<String> = Vec::new();
            let mut i: usize = 0;
            while i < cols.len()
                invariant
                    i <= cols.len(),
                    out@.len() == i,
                    forall|j: int| 0 <= j < i ==> #[trigger] out@[j]@ == cols@[j].0@,
                decreases cols.len() - i,
            {
                out.push(string_of(&cols[i].0));
                i += 1;
            }
            proof {
                let pv = pair_views(cols@);
                assert(crate::error::views_of(out@) =~= Seq::new(pv.len(), |k: int| pv[k].0));
            }
            Ok(out)
        },
    }
}

/// `(column name, expression)` pairs of the main select list.
fn extract_columns_with_expressions_regex(sql: &str) -> (r: Result<Vec<(String, String)>, String>)
    ensures
        r matches Ok(v) ==> spec_columns_with_expressions(sql@) == Ok::<
            Seq<(Seq<char>, Seq<char>)>,
            Seq<char>,
        >(Seq::new(v@.len(), |i: int| (v@[i].0@, v@[i].1@))),
        r matches Err(e) ==> spec_columns_with_expressions(sql@) == Err::<
            Seq<(Seq<char>, Seq<char>)>,
            Seq<char>,
        >(e@),
{
    let chars = chars_of(sql);
    match columns_with_expressions(&chars) {
        Err(e) => Err(e),
        Ok(cols) => {
            let mut out: Vec<(String, String)> = Vec::new();
            let mut i: usize = 0;
            while i < cols.len()
                invariant
                    i <= cols.len(),
                    out@.len() == i,
                    forall|j: int|
                        0 <= j < i ==> (#[trigger] out@[j]).0@ == cols@[j].0@ && out@[j].1@
                            == cols@[j].1@,
                decreases cols.len() - i,
            {
                out.push((string_of(&cols[i].0), string_of(&cols[i].1)));
                i += 1;
            }
            proof {
                assert(Seq::new(out@.len(), |k: int| (out@[k].0@, out@[k].1@)) =~= pair_views(
                    cols@,
                ));
            }
            Ok(out)
        },
    }
}

/// The names `parse_select_columns` reports are exactly the first
/// components of what `parse_select_columns_with_expressions` reports, and
/// both fail together with the same message.
pub proof fn law_column_names_match_expressions(sql: Seq<char>)
    ensures
        spec_columns_with_expressions(sql) matches Ok(cols) ==> spec_select_columns(sql) == Ok::<
            Seq<Seq<char>>,
            Seq<char>,
        >(Seq::new(cols.len(), |i: int| cols[i].0)),
        spec_columns_with_expressions(sql) matches Err(e) ==> spec_select_columns(sql) == Err::<
            Seq<Seq<char>>,
            Seq<char>,
        >(e),
{
}

} // verus!
