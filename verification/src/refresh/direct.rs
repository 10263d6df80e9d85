//! Direct patches at flush time: deriving a parent's patch chain from a
//! patched child's, and the SQL expression that applies a chain.
use vstd::prelude::*;
use crate::catalog::{clone_strings, opt_path_view, DependencyType, TviewMeta};
use crate::queue::patch::{chain_view, EntryView, PatchEntry};
use crate::queue::state::string_seq;
use crate::text::{decimal, decimal_string, str_eq};

verus! {

/// Number of occurrences of `x` among the first `n` elements of `s`.
pub open spec fn count_upto(s: Seq<Seq<char>>, x: Seq<char>, n: int) -> nat
    decreases n,
{
    if n <= 0 || n > s.len() {
        0
    } else {
        count_upto(s, x, n - 1) + if s[n - 1] == x { 1nat } else { 0nat }
    }
}

/// Position of the first occurrence of `x` in `s` at or after `i`, or -1.
pub open spec fn index_from(s: Seq<Seq<char>>, x: Seq<char>, i: int) -> int
    decreases s.len() - i,
{
    if i < 0 || i >= s.len() {
        -1
    } else if s[i] == x {
        i
    } else {
        index_from(s, x, i + 1)
    }
}

/// `chain` with `path` prepended to every link's prefix.
pub open spec fn prepend_path(path: Seq<Seq<char>>, chain: Seq<EntryView>) -> Seq<EntryView> {
    chain.map_values(|e: EntryView| (path + e.0, e.1))
}

/// The parent's chain derived from the child's, when the parent embeds the
/// child through exactly one `fk_<child>` nested-object dependency with a
/// non-empty path; `None` (the parent recomputes) otherwise, and always for a
/// DISTINCT ON or UNION parent or a UUID-fk linkage.
pub open spec fn spec_derive_parent_chain(meta: TviewMeta, child_entity: Seq<char>, chain: Seq<EntryView>) -> Option<Seq<EntryView>> {
    let fk = "fk_"@ + child_entity;
    let fks = string_seq(meta.fk_columns@);
    let idx = index_from(fks, fk, 0);
    if meta.distinct_on_keys@.len() > 0 || meta.is_union {
        None
    } else if string_seq(meta.uuid_fk_columns@).contains(fk) {
        None
    } else if count_upto(fks, fk, fks.len() as int) != 1 {
        None
    } else if idx >= meta.dependency_types@.len() || meta.dependency_types@[idx]
        != DependencyType::NestedObject {
        None
    } else if idx >= meta.dependency_paths@.len() {
        None
    } else {
        match opt_path_view(meta.dependency_paths@[idx]) {
            None => None,
            Some(p) => if p.len() == 0 {
                None
            } else {
                Some(prepend_path(p, chain))
            },
        }
    }
}

proof fn lemma_index_from(s: Seq<Seq<char>>, x: Seq<char>, i: int)
    requires
        0 <= i <= s.len(),
        forall|j: int| 0 <= j < i ==> s[j] != x,
    ensures
        index_from(s, x, i) == index_from(s, x, 0),
    decreases i,
{
    if i > 0 {
        lemma_index_from(s, x, i - 1);
    }
}

fn contains_str(v: &Vec<String>, x: &String) -> (r: bool)
    ensures
        r == string_seq(v@).contains(x@),
{
    let mut i: usize = 0;
    while i < v.len()
        invariant
            i <= v@.len(),
            forall|j: int| 0 <= j < i ==> #[trigger] v@[j]@ != x@,
        decreases v.len() - i,
    {
        if v[i] == *x {
            assert(string_seq(v@)[i as int] == x@);
            return true;
        }
        i += 1;
    }
    proof {
        if string_seq(v@).contains(x@) {
            let j = choose|j: int| 0 <= j < v@.len() && #[trigger] string_seq(v@)[j] == x@;
            assert(v@[j]@ == x@);
        }
    }
    false
}

/// Derive a parent's patch chain from a patched child's chain: the child's
/// links reproduced at the parent with the dependency's path prepended to
/// every prefix (`([], {bio})` of a user becomes `(["author"], {bio})` of a
/// post). `None` means the parent must recompute.
pub fn derive_parent_chain(parent_meta: &TviewMeta, child_entity: &str, child_chain: &Vec<PatchEntry>) -> (r: Option<Vec<PatchEntry>>)
    ensures
        match spec_derive_parent_chain(*parent_meta, child_entity@, chain_view(child_chain@)) {
            None => r is None,
            Some(c) => r matches Some(v) && chain_view(v@) == c,
        },
{
    if parent_meta.distinct_on_keys.len() > 0 || parent_meta.is_union {
        return None;
    }
    let mut fk_name = "fk_".to_owned();
    fk_name.append(child_entity);
    let ghost fk = fk_name@;
    if contains_str(&parent_meta.uuid_fk_columns, &fk_name) {
        return None;
    }
    let ghost fks = string_seq(parent_meta.fk_columns@);
    let mut idx: Option<usize> = None;
    let mut i: usize = 0;
    while i < parent_meta.fk_columns.len()
        invariant
            i <= parent_meta.fk_columns@.len(),
            fks == string_seq(parent_meta.fk_columns@),
            fk == fk_name@,
            fk == "fk_"@ + child_entity@,
            !(parent_meta.distinct_on_keys@.len() > 0 || parent_meta.is_union),
            !string_seq(parent_meta.uuid_fk_columns@).contains(fk),
            match idx {
                None => count_upto(fks, fk, i as int) == 0 && forall|j: int| 0 <= j < i ==> fks[j] != fk,
                Some(k) => count_upto(fks, fk, i as int) == 1 && k < i && fks[k as int] == fk
                    && forall|j: int| 0 <= j < k ==> fks[j] != fk,
            },
        decreases parent_meta.fk_columns.len() - i,
    {
        if parent_meta.fk_columns[i] == fk_name {
            if idx.is_some() {
                assert(count_upto(fks, fk, i + 1) == 2);
                proof {
                    lemma_count_monotone(fks, fk, i + 1, fks.len() as int);
                }
                return None;
            }
            idx = Some(i);
        }
        i += 1;
    }
    let k = match idx {
        None => {
            return None;
        },
        Some(k) => k,
    };
    proof {
        lemma_index_from(fks, fk, k as int);
    }
    if k >= parent_meta.dependency_types.len() {
        return None;
    }
    match parent_meta.dependency_types[k] {
        DependencyType::NestedObject => {},
        _ => {
            return None;
        },
    }
    if k >= parent_meta.dependency_paths.len() {
        return None;
    }
    let path = match &parent_meta.dependency_paths[k] {
        None => {
            return None;
        },
        Some(p) => p,
    };
    if path.len() == 0 {
        return None;
    }
    let ghost pv = string_seq(path@);
    let mut derived: Vec<PatchEntry> = Vec::new();
    let mut j: usize = 0;
    while j < child_chain.len()
        invariant
            j <= child_chain@.len(),
            pv == string_seq(path@),
            chain_view(derived@) == prepend_path(pv, chain_view(child_chain@)).take(j as int),
        decreases child_chain.len() - j,
    {
        let mut new_prefix = clone_strings(path);
        let rest = clone_strings(&child_chain[j].0);
        let ghost np0 = string_seq(new_prefix@);
        let mut t: usize = 0;
        while t < rest.len()
            invariant
                t <= rest@.len(),
                string_seq(new_prefix@) == np0 + string_seq(rest@).take(t as int),
            decreases rest.len() - t,
        {
            let ghost b = string_seq(new_prefix@);
            new_prefix.push(rest[t].clone());
            assert(string_seq(new_prefix@) =~= b.push(rest@[t as int]@));
            assert(np0 + string_seq(rest@).take(t + 1) =~= (np0 + string_seq(rest@).take(t as int)).push(
                rest@[t as int]@,
            ));
            t += 1;
        }
        assert(string_seq(rest@).take(rest@.len() as int) =~= string_seq(rest@));
        let fields = child_chain[j].1.duplicate();
        let ghost before = chain_view(derived@);
        derived.push((new_prefix, fields));
        assert(chain_view(derived@) =~= before.push(prepend_path(pv, chain_view(child_chain@))[j as int]));
        assert(prepend_path(pv, chain_view(child_chain@)).take(j + 1) =~= prepend_path(
            pv,
            chain_view(child_chain@),
        ).take(j as int).push(prepend_path(pv, chain_view(child_chain@))[j as int]));
        j += 1;
    }
    assert(prepend_path(pv, chain_view(child_chain@)).take(child_chain@.len() as int) =~= prepend_path(
        pv,
        chain_view(child_chain@),
    ));
    Some(derived)
}

proof fn lemma_count_monotone(s: Seq<Seq<char>>, x: Seq<char>, a: int, b: int)
    requires
        0 <= a <= b <= s.len(),
    ensures
        count_upto(s, x, a) <= count_upto(s, x, b),
    decreases b - a,
{
    if a < b {
        lemma_count_monotone(s, x, a, b - 1);
    }
}

/// The SQL expression applying `chain` to `data` (innermost first) and the
/// path arrays to bind, given the prefix of each link. Parameters: `$1..$n`
/// the links' fields, `$(n+1)` the primary keys, then one `text[]` per link
/// with a non-empty prefix.
pub open spec fn spec_patch_expr(prefixes: Seq<Seq<Seq<char>>>, n: nat) -> (Seq<char>, Seq<Seq<Seq<char>>>)
    decreases prefixes.len(),
{
    if prefixes.len() == 0 {
        ("data"@, Seq::empty())
    } else {
        let (expr, paths) = spec_patch_expr(prefixes.drop_last(), n);
        let i = (prefixes.len() - 1) as nat;
        let p = prefixes.last();
        if p.len() == 0 {
            ("jsonb_smart_patch_scalar("@ + expr + ", $"@ + decimal(i + 1) + "::jsonb)"@, paths)
        } else {
            (
                "jsonb_smart_patch_nested("@ + expr + ", $"@ + decimal(i + 1) + "::jsonb, $"@
                    + decimal(n + 2 + paths.len()) + "::text[])"@,
                paths.push(p),
            )
        }
    }
}

fn append_num(s: &mut String, k: usize)
    ensures
        final(s)@ == old(s)@ + decimal(k as nat),
{
    let d = decimal_string(k as u64);
    s.append(d.as_str());
}

/// Build the nested `jsonb_smart_patch_*` expression for a chain and collect
/// the path arrays to bind. Every value and path is a bound parameter; only
/// parameter numbers are written into the SQL.
pub fn build_direct_patch_expr(chain: &Vec<PatchEntry>) -> (r: (String, Vec<Vec<String>>))
    requires
        chain@.len() + 2 + chain@.len() < usize::MAX,
    ensures
        ({
            let prefixes = chain_view(chain@).map_values(|e: EntryView| e.0);
            let (expr, paths) = spec_patch_expr(prefixes, chain@.len());
            r.0@ == expr && r.1@.map_values(|p: Vec<String>| string_seq(p@)) == paths
        }),
{
    let n = chain.len();
    let ghost prefixes = chain_view(chain@).map_values(|e: EntryView| e.0);
    let mut expr = "data".to_owned();
    let mut path_args: Vec<Vec<String>> = Vec::new();
    assert(prefixes.take(0) =~= Seq::<Seq<Seq<char>>>::empty());
    let mut i: usize = 0;
    while i < n
        invariant
            i <= n == chain@.len(),
            n + 2 + n < usize::MAX,
            prefixes == chain_view(chain@).map_values(|e: EntryView| e.0),
            ({
                let (e, p) = spec_patch_expr(prefixes.take(i as int), n as nat);
                expr@ == e && path_args@.map_values(|q: Vec<String>| string_seq(q@)) == p
            }),
            path_args@.len() <= i,
        decreases n - i,
    {
        proof {
            assert(prefixes.take(i + 1).drop_last() =~= prefixes.take(i as int));
            assert(prefixes.take(i + 1).last() == string_seq(chain@[i as int].0@));
        }
        let ghost pv = path_args@.map_values(|q: Vec<String>| string_seq(q@));
        if chain[i].0.len() == 0 {
            let mut e = "jsonb_smart_patch_scalar(".to_owned();
            e.append(expr.as_str());
            e.append(", $");
            append_num(&mut e, i + 1);
            e.append("::jsonb)");
            expr = e;
        } else {
            let path_param = n + 2 + path_args.len();
            let ghost plen = path_args@.len();
            path_args.push(clone_strings(&chain[i].0));
            let mut e = "jsonb_smart_patch_nested(".to_owned();
            e.append(expr.as_str());
            e.append(", $");
            append_num(&mut e, i + 1);
            e.append("::jsonb, $");
            append_num(&mut e, path_param);
            e.append("::text[])");
            expr = e;
            assert(path_args@.map_values(|q: Vec<String>| string_seq(q@)) =~= pv.push(
                string_seq(chain@[i as int].0@),
            ));
        }
        i += 1;
    }
    assert(prefixes.take(n as int) =~= prefixes);
    (expr, path_args)
}

/// The primary keys of `chunk` that `updated` does not contain, in order.
pub open spec fn spec_fallback(chunk: Seq<i64>, updated: Seq<i64>) -> Seq<i64> {
    chunk.filter(|pk: i64| !updated.contains(pk))
}

/// The keys of a batch whose rows a direct patch did not update (they are
/// not materialised yet and must be recomputed).
pub fn fallback_pks(chunk: &Vec<i64>, updated: &Vec<i64>) -> (r: Vec<i64>)
    ensures
        r@ == spec_fallback(chunk@, updated@),
{
    let mut r: Vec<i64> = Vec::new();
    let ghost pred = |pk: i64| !updated@.contains(pk);
    assert(chunk@.take(0).filter(pred) =~= Seq::<i64>::empty()) by {
        reveal(Seq::filter);
    }
    let mut i: usize = 0;
    while i < chunk.len()
        invariant
            i <= chunk@.len(),
            pred == (|pk: i64| !updated@.contains(pk)),
            r@ == chunk@.take(i as int).filter(pred),
        decreases chunk.len() - i,
    {
        let pk = chunk[i];
        let mut found = false;
        let mut j: usize = 0;
        while j < updated.len()
            invariant
                j <= updated@.len(),
                found <==> (exists|q: int| 0 <= q < j && #[trigger] updated@[q] == pk),
            decreases updated.len() - j,
        {
            if updated[j] == pk {
                found = true;
            }
            j += 1;
        }
        proof {
            reveal(Seq::filter);
            assert(chunk@.take(i + 1).drop_last() =~= chunk@.take(i as int));
            assert(chunk@.take(i + 1).last() == pk);
        }
        if !found {
            r.push(pk);
        }
        i += 1;
    }
    assert(chunk@.take(chunk@.len() as int) =~= chunk@);
    r
}

/// `groups` splits the positions of `keys` by equal key: each group lists,
/// in increasing order, every position holding its key; the groups come in
/// the order their keys first occur, and no two share a key.
pub open spec fn is_key_grouping(keys: Seq<Seq<char>>, groups: Seq<Seq<usize>>) -> bool {
    &&& forall|g: int| 0 <= g < groups.len() ==> #[trigger] groups[g].len() > 0
    &&& forall|g: int, j: int| 0 <= g < groups.len() && 0 <= j < groups[g].len()
        ==> #[trigger] groups[g][j] < keys.len() && keys[groups[g][j] as int] == keys[groups[g][0] as int]
    &&& forall|g: int, j1: int, j2: int| 0 <= g < groups.len() && 0 <= j1 < j2 < groups[g].len()
        ==> #[trigger] groups[g][j1] < #[trigger] groups[g][j2]
    &&& forall|g1: int, g2: int| 0 <= g1 < g2 < groups.len()
        ==> #[trigger] groups[g1][0] < #[trigger] groups[g2][0]
            && keys[groups[g1][0] as int] != keys[groups[g2][0] as int]
    &&& forall|i: int| 0 <= i < keys.len() ==> #[trigger] in_some_group(groups, i)
}

/// Position `i` is listed in some group.
pub open spec fn in_some_group(groups: Seq<Seq<usize>>, i: int) -> bool {
    exists|g: int, j: int| 0 <= g < groups.len() && 0 <= j < groups[g].len() && #[trigger] groups[g][j] == i
}

/// The keys at positions `i` and `j` are equal.
pub open spec fn same_key(keys: Seq<String>, i: int, j: int) -> bool {
    keys[i]@ == keys[j]@
}

/// Some position listed in `firsts` holds the key at `i`.
pub open spec fn key_listed(keys: Seq<String>, firsts: Seq<usize>, i: int) -> bool {
    exists|a: int| 0 <= a < firsts.len() && same_key(keys, #[trigger] firsts[a] as int, i)
}

/// The positions of the first occurrence of each distinct key, in order.
fn first_occurrences(keys: &Vec<String>) -> (firsts: Vec<usize>)
    ensures
        forall|a: int, b: int| 0 <= a < b < firsts.len() ==> #[trigger] firsts@[a] < #[trigger] firsts@[b],
        forall|a: int| 0 <= a < firsts.len() ==> #[trigger] firsts@[a] < keys.len(),
        forall|a: int, b: int| 0 <= a < b < firsts.len()
            ==> !same_key(keys@, #[trigger] firsts@[a] as int, #[trigger] firsts@[b] as int),
        forall|a: int, j: int| 0 <= a < firsts.len() && 0 <= j < firsts@[a]
            ==> !(#[trigger] same_key(keys@, j, firsts@[a] as int)),
        forall|i: int| 0 <= i < keys.len() ==> #[trigger] key_listed(keys@, firsts@, i),
{
    let mut firsts: Vec<usize> = Vec::new();
    let mut i: usize = 0;
    while i < keys.len()
        invariant
            i <= keys.len(),
            forall|a: int, b: int| 0 <= a < b < firsts.len() ==> #[trigger] firsts@[a] < #[trigger] firsts@[b],
            forall|a: int| 0 <= a < firsts.len() ==> #[trigger] firsts@[a] < i,
            forall|a: int, b: int| 0 <= a < b < firsts.len()
                ==> !same_key(keys@, #[trigger] firsts@[a] as int, #[trigger] firsts@[b] as int),
            forall|a: int, j: int| 0 <= a < firsts.len() && 0 <= j < firsts@[a]
                ==> !(#[trigger] same_key(keys@, j, firsts@[a] as int)),
            forall|m: int| 0 <= m < i ==> #[trigger] key_listed(keys@, firsts@, m),
        decreases keys.len() - i,
    {
        let mut seen = false;
        let mut a: usize = 0;
        while a < firsts.len()
            invariant
                a <= firsts.len(),
                i < keys.len(),
                forall|b: int| 0 <= b < firsts.len() ==> #[trigger] firsts@[b] < i,
                seen <==> exists|b: int| 0 <= b < a && same_key(keys@, #[trigger] firsts@[b] as int, i as int),
            decreases firsts.len() - a,
        {
            if str_eq(keys[firsts[a]].as_str(), keys[i].as_str()) {
                seen = true;
            }
            a += 1;
        }
        if !seen {
            proof {
                assert forall|j: int| 0 <= j < i implies !same_key(keys@, j, i as int) by {
                    if same_key(keys@, j, i as int) {
                        assert(key_listed(keys@, firsts@, j));
                        let b = choose|b: int| 0 <= b < firsts.len() && same_key(keys@, #[trigger] firsts@[b] as int, j);
                        assert(same_key(keys@, firsts@[b] as int, i as int));
                    }
                }
            }
        }
        let ghost old_f = firsts@;
        if !seen {
            firsts.push(i);
        }
        proof {
            assert forall|m: int| 0 <= m < i + 1 implies #[trigger] key_listed(keys@, firsts@, m) by {
                if m == i && !seen {
                    assert(same_key(keys@, firsts@[firsts.len() - 1] as int, m));
                } else if m == i {
                    let b = choose|b: int| 0 <= b < a && same_key(keys@, #[trigger] firsts@[b] as int, i as int);
                    assert(same_key(keys@, firsts@[b] as int, m));
                } else {
                    assert(key_listed(keys@, old_f, m));
                    let b = choose|b: int| 0 <= b < old_f.len() && same_key(keys@, #[trigger] old_f[b] as int, m);
                    assert(firsts@[b] == old_f[b]);
                    assert(same_key(keys@, firsts@[b] as int, m));
                }
            }
        }
        i += 1;
    }
    firsts
}

/// The positions of `keys` holding the key at `first`, in increasing order.
fn positions_of(keys: &Vec<String>, first: usize) -> (grp: Vec<usize>)
    requires
        first < keys.len(),
        forall|j: int| 0 <= j < first ==> !same_key(keys@, j, first as int),
    ensures
        grp.len() > 0,
        grp@[0] == first,
        forall|j: int| 0 <= j < grp.len() ==> #[trigger] grp@[j] < keys.len() && same_key(keys@, grp@[j] as int, first as int),
        forall|j1: int, j2: int| 0 <= j1 < j2 < grp.len() ==> #[trigger] grp@[j1] < #[trigger] grp@[j2],
        forall|m: int| 0 <= m < keys.len() && same_key(keys@, m, first as int)
            ==> exists|j: int| 0 <= j < grp.len() && #[trigger] grp@[j] == m,
{
    let mut grp: Vec<usize> = Vec::new();
    let mut i: usize = first;
    while i < keys.len()
        invariant
            first <= i <= keys.len(),
            i > first ==> grp.len() > 0 && grp@[0] == first,
            forall|j: int| 0 <= j < grp.len() ==> first <= #[trigger] grp@[j] < i && same_key(keys@, grp@[j] as int, first as int),
            forall|j1: int, j2: int| 0 <= j1 < j2 < grp.len() ==> #[trigger] grp@[j1] < #[trigger] grp@[j2],
            forall|m: int| first <= m < i && same_key(keys@, m, first as int)
                ==> exists|j: int| 0 <= j < grp.len() && #[trigger] grp@[j] == m,
        decreases keys.len() - i,
    {
        let ghost old_g = grp@;
        if str_eq(keys[i].as_str(), keys[first].as_str()) {
            grp.push(i);
            proof {
                assert(grp@[grp.len() - 1] == i);
            }
        }
        proof {
            assert forall|m: int| first <= m < i + 1 && same_key(keys@, m, first as int)
                implies exists|j: int| 0 <= j < grp.len() && #[trigger] grp@[j] == m by {
                if m < i {
                    let j = choose|j: int| 0 <= j < old_g.len() && #[trigger] old_g[j] == m;
                    assert(grp@[j] == old_g[j]);
                } else {
                    assert(grp@[grp.len() - 1] == m);
                }
            }
        }
        i += 1;
    }
    grp
}

/// Group the positions of `keys` by equal key (see [`is_key_grouping`]).
pub fn group_by_key(keys: &Vec<String>) -> (groups: Vec<Vec<usize>>)
    ensures
        is_key_grouping(keys@.map_values(|k: String| k@), groups@.map_values(|g: Vec<usize>| g@)),
{
    let firsts = first_occurrences(keys);
    let ghost kv = keys@.map_values(|k: String| k@);
    let mut groups: Vec<Vec<usize>> = Vec::new();
    let mut a: usize = 0;
    while a < firsts.len()
        invariant
            a <= firsts.len(),
            groups.len() == a,
            kv == keys@.map_values(|k: String| k@),
            forall|x: int, y: int| 0 <= x < y < firsts.len() ==> #[trigger] firsts@[x] < #[trigger] firsts@[y],
            forall|x: int| 0 <= x < firsts.len() ==> #[trigger] firsts@[x] < keys.len(),
            forall|x: int, y: int| 0 <= x < y < firsts.len()
                ==> !same_key(keys@, #[trigger] firsts@[x] as int, #[trigger] firsts@[y] as int),
            forall|x: int, j: int| 0 <= x < firsts.len() && 0 <= j < firsts@[x]
                ==> !(#[trigger] same_key(keys@, j, firsts@[x] as int)),
            forall|g: int| 0 <= g < a ==> (#[trigger] groups@[g])@.len() > 0 && groups@[g]@[0] == firsts@[g],
            forall|g: int, j: int| 0 <= g < a && 0 <= j < groups@[g]@.len()
                ==> #[trigger] groups@[g]@[j] < keys.len() && same_key(keys@, groups@[g]@[j] as int, firsts@[g] as int),
            forall|g: int, j1: int, j2: int| 0 <= g < a && 0 <= j1 < j2 < groups@[g]@.len()
                ==> #[trigger] groups@[g]@[j1] < #[trigger] groups@[g]@[j2],
            forall|g: int, m: int| 0 <= g < a && 0 <= m < keys.len() && #[trigger] same_key(keys@, m, firsts@[g] as int)
                ==> exists|j: int| 0 <= j < groups@[g]@.len() && #[trigger] groups@[g]@[j] == m,
        decreases firsts.len() - a,
    {
        let grp = positions_of(keys, firsts[a]);
        let ghost old_groups = groups@;
        let ghost gq = grp@;
        groups.push(grp);
        proof {
            assert(groups@[a as int]@ == gq);
            assert forall|g: int, m: int| 0 <= g < a + 1 && 0 <= m < keys.len() && #[trigger] same_key(keys@, m, firsts@[g] as int)
                implies exists|j: int| 0 <= j < groups@[g]@.len() && #[trigger] groups@[g]@[j] == m by {
                if g < a {
                    assert(groups@[g] == old_groups[g]);
                    let j = choose|j: int| 0 <= j < old_groups[g]@.len() && #[trigger] old_groups[g]@[j] == m;
                    assert(groups@[g]@[j] == m);
                } else {
                    let j = choose|j: int| 0 <= j < gq.len() && #[trigger] gq[j] == m;
                    assert(groups@[g]@[j] == m);
                }
            }
        }
        a += 1;
    }
    let ghost gv = groups@.map_values(|g: Vec<usize>| g@);
    assert forall|i: int| 0 <= i < kv.len() implies #[trigger] in_some_group(gv, i) by {
        assert(key_listed(keys@, firsts@, i));
        let x = choose|x: int| 0 <= x < firsts.len() && same_key(keys@, #[trigger] firsts@[x] as int, i);
        assert(same_key(keys@, i, firsts@[x] as int));
        let j = choose|j: int| 0 <= j < groups@[x]@.len() && #[trigger] groups@[x]@[j] == i;
        assert(gv[x] == groups@[x]@);
        assert(gv[x][j] == i);
    }
    assert forall|g: int| 0 <= g < gv.len() implies #[trigger] gv[g].len() > 0 by {
        assert(gv[g] == groups@[g]@);
    }
    assert forall|g: int, j: int| 0 <= g < gv.len() && 0 <= j < gv[g].len()
        implies #[trigger] gv[g][j] < kv.len() && kv[gv[g][j] as int] == kv[gv[g][0] as int] by {
        assert(gv[g] == groups@[g]@);
    }
    assert forall|g: int, j1: int, j2: int| 0 <= g < gv.len() && 0 <= j1 < j2 < gv[g].len()
        implies #[trigger] gv[g][j1] < #[trigger] gv[g][j2] by {
        assert(gv[g] == groups@[g]@);
    }
    assert forall|g1: int, g2: int| 0 <= g1 < g2 < gv.len()
        implies #[trigger] gv[g1][0] < #[trigger] gv[g2][0] && kv[gv[g1][0] as int] != kv[gv[g2][0] as int] by {
        assert(gv[g1] == groups@[g1]@);
        assert(gv[g2] == groups@[g2]@);
    }
    groups
}


/// `UPDATE <tv> SET data = <expr>, updated_at = now() WHERE pk_<entity> = ANY($<n + 1>)
/// RETURNING pk_<entity>`: the patch of a chain of `n` entries, whose key
/// array is bound after the `n` field documents.
pub open spec fn spec_direct_patch_update_sql(tv_name: Seq<char>, entity: Seq<char>, expr: Seq<char>, n: nat) -> Seq<char> {
    "UPDATE "@ + tv_name + " SET data = "@ + expr + ", updated_at = now() WHERE pk_"@ + entity + " = ANY($"@
        + decimal(n + 1) + ") RETURNING pk_"@ + entity
}

/// The statement that applies a chain of `chain_len` entries (its patch
/// expression `expr`) to the rows of `tv_name`, returning the keys it updated.
pub fn direct_patch_update_sql(tv_name: &str, entity_name: &str, expr: &str, chain_len: usize) -> (r: String)
    requires
        chain_len < u64::MAX,
    ensures
        r@ == spec_direct_patch_update_sql(tv_name@, entity_name@, expr@, chain_len as nat),
{
    let mut r = "UPDATE ".to_owned();
    r.append(tv_name);
    r.append(" SET data = ");
    r.append(expr);
    r.append(", updated_at = now() WHERE pk_");
    r.append(entity_name);
    r.append(" = ANY($");
    r.append(decimal_string(chain_len as u64 + 1).as_str());
    r.append(") RETURNING pk_");
    r.append(entity_name);
    r
}

} // verus!
