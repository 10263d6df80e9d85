//! Building SQL text: quoted identifiers, array literals, lists.
use vstd::prelude::*;
use crate::queue::state::string_seq;
use crate::text::{chars_of, push_char};

verus! {

/// `s` with every `c` doubled.
pub open spec fn double_char(s: Seq<char>, c: char) -> Seq<char>
    decreases s.len(),
{
    if s.len() == 0 {
        Seq::empty()
    } else {
        double_char(s.drop_last(), c) + if s.last() == c {
            seq![c, c]
        } else {
            seq![s.last()]
        }
    }
}

/// `s` as a double-quoted SQL identifier.
pub open spec fn spec_quote_identifier(s: Seq<char>) -> Seq<char> {
    seq!['"'] + double_char(s, '"') + seq!['"']
}

/// Quote `s` as a SQL identifier: in double quotes, with each double quote
/// doubled. The result always names exactly `s`.
pub fn quote_identifier(s: &str) -> (r: String)
    ensures
        r@ == spec_quote_identifier(s@),
{
    let v = chars_of(s);
    let mut r = String::new();
    push_char(&mut r, '"');
    let mut i: usize = 0;
    assert(v@.take(0) =~= Seq::<char>::empty());
    while i < v.len()
        invariant
            i <= v@.len(),
            r@ == seq!['"'] + double_char(v@.take(i as int), '"'),
        decreases v.len() - i,
    {
        proof {
            assert(v@.take(i + 1).drop_last() =~= v@.take(i as int));
            assert(v@.take(i + 1).last() == v@[i as int]);
        }
        let ghost before = r@;
        if v[i] == '"' {
            push_char(&mut r, '"');
            push_char(&mut r, '"');
            assert(r@ =~= before + seq!['"', '"']);
        } else {
            push_char(&mut r, v[i]);
            assert(r@ =~= before + seq![v@[i as int]]);
        }
        i += 1;
    }
    assert(v@.take(v@.len() as int) =~= v@);
    push_char(&mut r, '"');
    r
}

/// `s` with each single quote doubled, as it is written inside a SQL string
/// literal.
pub fn escape_literal(s: &str) -> (r: String)
    ensures
        r@ == double_char(s@, '\''),
{
    let v = chars_of(s);
    let mut r = String::new();
    let mut i: usize = 0;
    assert(v@.take(0) =~= Seq::<char>::empty());
    while i < v.len()
        invariant
            i <= v@.len(),
            r@ == double_char(v@.take(i as int), '\''),
        decreases v.len() - i,
    {
        proof {
            assert(v@.take(i + 1).drop_last() =~= v@.take(i as int));
            assert(v@.take(i + 1).last() == v@[i as int]);
        }
        let ghost before = r@;
        if v[i] == '\'' {
            push_char(&mut r, '\'');
            push_char(&mut r, '\'');
            assert(r@ =~= before + seq!['\'', '\'']);
        } else {
            push_char(&mut r, v[i]);
            assert(r@ =~= before + seq![v@[i as int]]);
        }
        i += 1;
    }
    assert(v@.take(v@.len() as int) =~= v@);
    r
}

/// `s` with each `\` and `"` preceded by a backslash.
pub open spec fn backslash_escape(s: Seq<char>) -> Seq<char>
    decreases s.len(),
{
    if s.len() == 0 {
        Seq::empty()
    } else {
        backslash_escape(s.drop_last()) + if s.last() == '\\' || s.last() == '"' {
            seq!['\\', s.last()]
        } else {
            seq![s.last()]
        }
    }
}

/// A character that forces quoting inside a PostgreSQL array literal.
pub open spec fn is_array_special(c: char) -> bool {
    c == ',' || c == '"' || c == '\\' || c == '{' || c == '}' || c == ' '
}

/// `s` as an element of a PostgreSQL array literal: double-quoted (with `\`
/// and `"` escaped) when empty or holding a special character, else as is.
pub open spec fn spec_pg_array_elem(s: Seq<char>) -> Seq<char> {
    if s.len() == 0 || exists|i: int| 0 <= i < s.len() && is_array_special(#[trigger] s[i]) {
        seq!['"'] + backslash_escape(s) + seq!['"']
    } else {
        s
    }
}

/// Quote `s` for use as an element of a PostgreSQL array literal.
pub fn pg_array_elem(s: &str) -> (r: String)
    ensures
        r@ == spec_pg_array_elem(s@),
{
    let v = chars_of(s);
    let mut special = false;
    let mut i: usize = 0;
    while i < v.len()
        invariant
            i <= v@.len(),
            special <==> exists|j: int| 0 <= j < i && is_array_special(#[trigger] v@[j]),
        decreases v.len() - i,
    {
        let c = v[i];
        if c == ',' || c == '"' || c == '\\' || c == '{' || c == '}' || c == ' ' {
            special = true;
        }
        i += 1;
    }
    if v.len() != 0 && !special {
        return s.to_owned();
    }
    let mut r = String::new();
    push_char(&mut r, '"');
    let mut k: usize = 0;
    assert(v@.take(0) =~= Seq::<char>::empty());
    while k < v.len()
        invariant
            k <= v@.len(),
            r@ == seq!['"'] + backslash_escape(v@.take(k as int)),
        decreases v.len() - k,
    {
        proof {
            assert(v@.take(k + 1).drop_last() =~= v@.take(k as int));
            assert(v@.take(k + 1).last() == v@[k as int]);
        }
        let ghost before = r@;
        let c = v[k];
        if c == '\\' || c == '"' {
            push_char(&mut r, '\\');
            push_char(&mut r, c);
            assert(r@ =~= before + seq!['\\', c]);
        } else {
            push_char(&mut r, c);
            assert(r@ =~= before + seq![c]);
        }
        k += 1;
    }
    assert(v@.take(v@.len() as int) =~= v@);
    push_char(&mut r, '"');
    r
}

/// The pieces joined with `sep` between them.
pub open spec fn join_with(parts: Seq<Seq<char>>, sep: Seq<char>) -> Seq<char>
    decreases parts.len(),
{
    if parts.len() == 0 {
        Seq::empty()
    } else if parts.len() == 1 {
        parts[0]
    } else {
        join_with(parts.drop_last(), sep) + sep + parts.last()
    }
}

/// Join the strings with `sep` between them.
pub fn join(parts: &Vec<String>, sep: &str) -> (r: String)
    ensures
        r@ == join_with(string_seq(parts@), sep@),
{
    let ghost pv = string_seq(parts@);
    let mut r = String::new();
    let mut i: usize = 0;
    assert(join_with(pv.take(0), sep@) =~= Seq::<char>::empty());
    while i < parts.len()
        invariant
            i <= parts@.len(),
            pv == string_seq(parts@),
            r@ == join_with(pv.take(i as int), sep@),
        decreases parts.len() - i,
    {
        proof {
            assert(pv.take(i + 1).drop_last() =~= pv.take(i as int));
            assert(pv.take(i + 1).last() == pv[i as int]);
        }
        if i > 0 {
            r.append(sep);
        }
        r.append(parts[i].as_str());
        proof {
            if i == 0 {
                assert(pv.take(1) =~= seq![pv[0]]);
                assert(r@ =~= pv[0]);
            }
        }
        i += 1;
    }
    assert(pv.take(parts@.len() as int) =~= pv);
    r
}

/// Each string as an array element, joined by commas: the inside of a
/// PostgreSQL array literal.
pub fn array_literal_body(items: &Vec<String>) -> (r: String)
    ensures
        r@ == join_with(string_seq(items@).map_values(|s: Seq<char>| spec_pg_array_elem(s)), ","@),
{
    let mut elems: Vec<String> = Vec::new();
    let mut i: usize = 0;
    while i < items.len()
        invariant
            i <= items@.len(),
            string_seq(elems@) == string_seq(items@).take(i as int).map_values(
                |s: Seq<char>| spec_pg_array_elem(s),
            ),
        decreases items.len() - i,
    {
        let ghost before = string_seq(elems@);
        elems.push(pg_array_elem(items[i].as_str()));
        assert(string_seq(elems@) =~= before.push(spec_pg_array_elem(items@[i as int]@)));
        assert(string_seq(items@).take(i + 1).map_values(|s: Seq<char>| spec_pg_array_elem(s))
            =~= string_seq(items@).take(i as int).map_values(|s: Seq<char>| spec_pg_array_elem(s)).push(
            spec_pg_array_elem(items@[i as int]@),
        ));
        i += 1;
    }
    assert(string_seq(items@).take(items@.len() as int) =~= string_seq(items@));
    join(&elems, ",")
}

} // verus!
