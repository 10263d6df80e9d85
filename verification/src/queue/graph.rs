//! The entity dependency graph that orders refreshes: an entity is refreshed
//! after every entity it depends on.
use vstd::prelude::*;
use crate::error::{TViewError, TViewResult};
use crate::queue::key::{KeyView, RefreshKey};
use crate::queue::patch::{assoc_get, first_pos, lemma_first_pos};
use crate::queue::state::{key_views, string_seq};
use crate::text::{chars_of, starts_with, starts_with_exec, string_of_range};

verus! {

/// Dependency lists keyed by entity, as (entity, dependencies) pairs.
pub type AdjView = Seq<(Seq<char>, Seq<Seq<char>>)>;

pub open spec fn adj_view(v: Seq<(String, Vec<String>)>) -> AdjView {
    v.map_values(|p: (String, Vec<String>)| (p.0@, string_seq(p.1@)))
}

/// The entities `e` depends on according to `children`.
pub open spec fn deps_of(children: AdjView, e: Seq<char>) -> Seq<Seq<char>> {
    match assoc_get(children, e) {
        Some(d) => d,
        None => Seq::empty(),
    }
}

/// `order` lists each of `entities` once, and every entity after all the
/// entities it depends on (which must themselves be listed).
pub open spec fn valid_topo(order: Seq<Seq<char>>, entities: Seq<Seq<char>>, children: AdjView) -> bool {
    &&& order.no_duplicates()
    &&& forall|i: int| 0 <= i < order.len() ==> entities.contains(#[trigger] order[i])
    &&& forall|j: int| 0 <= j < entities.len() ==> order.contains(#[trigger] entities[j])
    &&& forall|i: int, k: int|
        0 <= i < order.len() && 0 <= k < deps_of(children, order[i]).len()
            ==> #[trigger] listed_before(order, children, i, k)
}

/// The `k`-th dependency of `order[i]` occurs in `order` before position `i`.
pub open spec fn listed_before(order: Seq<Seq<char>>, children: AdjView, i: int, k: int) -> bool {
    exists|q: int| 0 <= q < i && #[trigger] order[q] == deps_of(children, order[i])[k]
}

/// Some entity placed so far has name `x`.
pub open spec fn placed_name(ents: Seq<Seq<char>>, placed: Seq<bool>, x: Seq<char>) -> bool {
    exists|j: int| 0 <= j < ents.len() && ents[j] == x && #[trigger] placed[j]
}

/// Every dependency of entity `i` is placed.
pub open spec fn ready(ents: Seq<Seq<char>>, children: AdjView, placed: Seq<bool>, i: int) -> bool {
    forall|k: int|
        0 <= k < deps_of(children, ents[i]).len() ==> placed_name(
            ents,
            placed,
            #[trigger] deps_of(children, ents[i])[k],
        )
}

/// The `k`-th dependency of the entity at position `p` of `ord` is listed
/// before it.
pub open spec fn dep_placed_before(ev: Seq<Seq<char>>, a: AdjView, ord: Seq<int>, p: int, k: int) -> bool {
    exists|q: int| 0 <= q < p && #[trigger] ev[ord[q]] == deps_of(a, ev[ord[p]])[k]
}

/// Every entity listed in `ord` (by index) comes after its dependencies.
pub open spec fn deps_before(ev: Seq<Seq<char>>, a: AdjView, ord: Seq<int>) -> bool {
    forall|p: int, k: int|
        0 <= p < ord.len() && 0 <= k < deps_of(a, ev[ord[p]]).len() ==> #[trigger] dep_placed_before(
            ev,
            a,
            ord,
            p,
            k,
        )
}

/// `placed` marks exactly the entity indices listed in `ord`.
pub open spec fn placed_matches(placed: Seq<bool>, ord: Seq<int>, n: int) -> bool {
    &&& placed.len() == n
    &&& forall|j: int| 0 <= j < n ==> (#[trigger] placed[j] <==> ord.contains(j))
}

proof fn lemma_ord_len(ord: Seq<int>, n: int)
    requires
        0 <= n,
        ord.no_duplicates(),
        forall|p: int| 0 <= p < ord.len() ==> 0 <= #[trigger] ord[p] < n,
    ensures
        ord.len() <= n,
{
    ord.unique_seq_to_set();
    vstd::set_lib::lemma_int_range(0, n);
    assert(ord.to_set().subset_of(vstd::set_lib::set_int_range(0, n)));
    vstd::set_lib::lemma_len_subset(ord.to_set(), vstd::set_lib::set_int_range(0, n));
}

proof fn lemma_place(ev: Seq<Seq<char>>, a: AdjView, ord: Seq<int>, placed: Seq<bool>, i: int)
    requires
        deps_before(ev, a, ord),
        placed_matches(placed, ord, ev.len() as int),
        0 <= i < ev.len(),
        !placed[i],
        ready(ev, a, placed, i),
    ensures
        deps_before(ev, a, ord.push(i)),
        placed_matches(placed.update(i, true), ord.push(i), ev.len() as int),
{
    let o2 = ord.push(i);
    assert forall|p: int, k: int|
        0 <= p < o2.len() && 0 <= k < deps_of(a, ev[o2[p]]).len() implies #[trigger] dep_placed_before(ev, a, o2, p, k) by {
        if p < ord.len() {
            assert(o2[p] == ord[p]);
            assert(deps_of(a, ev[o2[p]])[k] == deps_of(a, ev[ord[p]])[k]);
            assert(dep_placed_before(ev, a, ord, p, k));
            let q = choose|q: int| 0 <= q < p && #[trigger] ev[ord[q]] == deps_of(a, ev[ord[p]])[k];
            assert(o2[q] == ord[q]);
            assert(ev[o2[q]] == deps_of(a, ev[o2[p]])[k]);
            assert(dep_placed_before(ev, a, o2, p, k));
        } else {
            assert(o2[p] == i);
            let d = deps_of(a, ev[i])[k];
            assert(placed_name(ev, placed, d));
            let j = choose|j: int| 0 <= j < ev.len() && ev[j] == d && #[trigger] placed[j];
            assert(ord.contains(j));
            let q = choose|q: int| 0 <= q < ord.len() && ord[q] == j;
            assert(o2[q] == j);
            assert(ev[o2[q]] == deps_of(a, ev[o2[p]])[k]);
            assert(dep_placed_before(ev, a, o2, p, k));
        }
    }
    assert(deps_before(ev, a, o2));
    let pl2 = placed.update(i, true);
    assert forall|j: int| 0 <= j < ev.len() implies (#[trigger] pl2[j] <==> o2.contains(j)) by {
        if j == i {
            assert(o2[o2.len() - 1] == j);
        } else {
            if ord.contains(j) {
                let q = choose|q: int| 0 <= q < ord.len() && ord[q] == j;
                assert(o2[q] == j);
            }
            if o2.contains(j) {
                let q = choose|q: int| 0 <= q < o2.len() && o2[q] == j;
                assert(q < ord.len());
                assert(ord[q] == j);
            }
        }
    }
}

fn index_of(ents: &Vec<String>, name: &String) -> (r: Option<usize>)
    requires
        string_seq(ents@).no_duplicates(),
    ensures
        match r {
            Some(j) => j < ents@.len() && ents@[j as int]@ == name@,
            None => forall|j: int| 0 <= j < ents@.len() ==> #[trigger] ents@[j]@ != name@,
        },
{
    let mut j: usize = 0;
    while j < ents.len()
        invariant
            j <= ents@.len(),
            forall|q: int| 0 <= q < j ==> #[trigger] ents@[q]@ != name@,
        decreases ents.len() - j,
    {
        if ents[j] == *name {
            return Some(j);
        }
        j += 1;
    }
    None
}

fn deps_lookup(children: &Vec<(String, Vec<String>)>, e: &String) -> (r: Option<usize>)
    ensures
        match r {
            Some(p) => p < children@.len() && first_pos(adj_view(children@), e@, 0) == p,
            None => first_pos(adj_view(children@), e@, 0) == -1,
        },
{
    let ghost a = adj_view(children@);
    let mut p: usize = 0;
    while p < children.len()
        invariant
            p <= children@.len(),
            a == adj_view(children@),
            first_pos(a, e@, 0) == first_pos(a, e@, p as int),
        decreases children.len() - p,
    {
        if children[p].0 == *e {
            return Some(p);
        }
        p += 1;
    }
    None
}

fn is_ready(ents: &Vec<String>, children: &Vec<(String, Vec<String>)>, placed: &Vec<bool>, i: usize) -> (r: bool)
    requires
        i < ents@.len(),
        placed@.len() == ents@.len(),
        string_seq(ents@).no_duplicates(),
    ensures
        r == ready(string_seq(ents@), adj_view(children@), placed@, i as int),
{
    let ghost ev = string_seq(ents@);
    let ghost a = adj_view(children@);
    let ghost d = deps_of(a, ev[i as int]);
    match deps_lookup(children, &ents[i]) {
        None => {
            assert(d =~= Seq::<Seq<char>>::empty());
            true
        },
        Some(p) => {
            let deps = &children[p].1;
            assert(string_seq(deps@) == d);
            let mut k: usize = 0;
            while k < deps.len()
                invariant
                    k <= deps@.len(),
                    i < ents@.len(),
                    a == adj_view(children@),
                    string_seq(deps@) == d,
                    ev == string_seq(ents@),
                    placed@.len() == ents@.len(),
                    string_seq(ents@).no_duplicates(),
                    d == deps_of(a, ev[i as int]),
                    forall|q: int| 0 <= q < k ==> placed_name(ev, placed@, #[trigger] d[q]),
                decreases deps.len() - k,
            {
                match index_of(ents, &deps[k]) {
                    None => {
                        assert(!placed_name(ev, placed@, d[k as int])) by {
                            if placed_name(ev, placed@, d[k as int]) {
                                let j = choose|j: int|
                                    0 <= j < ev.len() && ev[j] == d[k as int] && #[trigger] placed@[j];
                                assert(ents@[j]@ == deps@[k as int]@);
                            }
                        }
                        return false;
                    },
                    Some(j) => {
                        if !placed[j] {
                            assert(!placed_name(ev, placed@, d[k as int])) by {
                                if placed_name(ev, placed@, d[k as int]) {
                                    let j2 = choose|j2: int|
                                        0 <= j2 < ev.len() && ev[j2] == d[k as int]
                                            && #[trigger] placed@[j2];
                                    assert(ev[j2] == ev[j as int]);
                                }
                            }
                            return false;
                        }
                        assert(ev[j as int] == d[k as int]);
                        assert(placed_name(ev, placed@, d[k as int]));
                    },
                }
                k += 1;
            }
            true
        },
    }
}

/// The first position of `o` holding an entity not yet placed.
proof fn lemma_first_unplaced(o: Seq<Seq<char>>, ents: Seq<Seq<char>>, placed: Seq<bool>, from: int, x: int) -> (p: int)
    requires
        0 <= from <= x < o.len(),
        ents.contains(o[x]) && !placed_name(ents, placed, o[x]),
        forall|q: int| 0 <= q < from ==> !(ents.contains(#[trigger] o[q]) && !placed_name(ents, placed, o[q])),
    ensures
        0 <= p <= x,
        ents.contains(o[p]) && !placed_name(ents, placed, o[p]),
        forall|q: int| 0 <= q < p ==> !(ents.contains(#[trigger] o[q]) && !placed_name(ents, placed, o[q])),
    decreases x - from,
{
    if ents.contains(o[from]) && !placed_name(ents, placed, o[from]) {
        from
    } else {
        lemma_first_unplaced(o, ents, placed, from + 1, x)
    }
}

/// When entity `i` is unplaced and no unplaced entity is ready, no valid
/// topological order exists.
proof fn lemma_stall_means_no_order(ents: Seq<Seq<char>>, children: AdjView, placed: Seq<bool>, i: int)
    requires
        ents.no_duplicates(),
        placed.len() == ents.len(),
        0 <= i < ents.len(),
        !placed[i],
        forall|j: int| 0 <= j < ents.len() && !placed[j] ==> !#[trigger] ready(ents, children, placed, j),
    ensures
        forall|o: Seq<Seq<char>>| !valid_topo(o, ents, children),
{
    assert forall|o: Seq<Seq<char>>| !valid_topo(o, ents, children) by {
        if valid_topo(o, ents, children) {
            assert(o.contains(ents[i]));
            let x = choose|x: int| 0 <= x < o.len() && o[x] == ents[i];
            assert(!placed_name(ents, placed, o[x])) by {
                if placed_name(ents, placed, o[x]) {
                    let j = choose|j: int| 0 <= j < ents.len() && ents[j] == o[x] && #[trigger] placed[j];
                    assert(j == i);
                }
            }
            let p = lemma_first_unplaced(o, ents, placed, 0, x);
            assert(ents.contains(o[p]));
            let jp = choose|jp: int| 0 <= jp < ents.len() && ents[jp] == o[p];
            assert(!placed[jp]);
            assert(!ready(ents, children, placed, jp));
            let k = choose|k: int|
                0 <= k < deps_of(children, ents[jp]).len() && !placed_name(
                    ents,
                    placed,
                    #[trigger] deps_of(children, ents[jp])[k],
                );
            let dep = deps_of(children, o[p])[k];
            assert(listed_before(o, children, p, k));
            let q = choose|q: int| 0 <= q < p && #[trigger] o[q] == deps_of(children, o[p])[k];
            assert(ents.contains(o[q]));
            assert(!(ents.contains(o[q]) && !placed_name(ents, placed, o[q])));
        }
    }
}

/// Order `entities` so that each comes after every entity it depends on
/// (`children` maps an entity to its dependencies). Fails with
/// `DependencyCycle`, listing the entities, exactly when no such order exists:
/// a cycle, or a dependency on an entity not in the list.
pub fn topological_sort(entities: &Vec<String>, children: &Vec<(String, Vec<String>)>) -> (r: TViewResult<Vec<String>>)
    requires
        string_seq(entities@).no_duplicates(),
    ensures
        match r {
            Ok(o) => valid_topo(string_seq(o@), string_seq(entities@), adj_view(children@)),
            Err(e) => (e matches TViewError::DependencyCycle { entities: listed } && string_seq(
                listed@,
            ) == string_seq(entities@)) && forall|o: Seq<Seq<char>>|
                !valid_topo(o, string_seq(entities@), adj_view(children@)),
        },
{
    let ghost ev = string_seq(entities@);
    let ghost a = adj_view(children@);
    let n = entities.len();
    let mut placed: Vec<bool> = Vec::new();
    let mut t: usize = 0;
    while t < n
        invariant
            t <= n == entities@.len(),
            placed@.len() == t,
            forall|j: int| 0 <= j < t ==> !#[trigger] placed@[j],
        decreases n - t,
    {
        placed.push(false);
        t += 1;
    }
    let mut result: Vec<String> = Vec::new();
    let ghost mut ord: Seq<int> = Seq::empty();
    assert(placed_matches(placed@, ord, n as int));
    loop
        invariant
            n == entities@.len(),
            ev == string_seq(entities@),
            a == adj_view(children@),
            ev.no_duplicates(),
            ord.len() == result@.len(),
            ord.no_duplicates(),
            forall|p: int| 0 <= p < ord.len() ==> 0 <= #[trigger] ord[p] < n,
            forall|p: int| 0 <= p < ord.len() ==> #[trigger] result@[p]@ == ev[ord[p]],
            placed_matches(placed@, ord, n as int),
            deps_before(ev, a, ord),
        decreases n - ord.len(),
    {
        let mut placed_any = false;
        let ghost start_placed = placed@;
        let ghost start_len = ord.len();
        let mut i: usize = 0;
        while i < n
            invariant
                n == entities@.len(),
                ev == string_seq(entities@),
                a == adj_view(children@),
                ev.no_duplicates(),
                i <= n,
                ord.len() == result@.len(),
                ord.no_duplicates(),
                forall|p: int| 0 <= p < ord.len() ==> 0 <= #[trigger] ord[p] < n,
                forall|p: int| 0 <= p < ord.len() ==> #[trigger] result@[p]@ == ev[ord[p]],
                placed_matches(placed@, ord, n as int),
                deps_before(ev, a, ord),
                placed_any <==> ord.len() > start_len,
                ord.len() >= start_len,
                !placed_any ==> placed@ == start_placed,
                !placed_any ==> forall|j: int|
                    0 <= j < i && !placed@[j] ==> !#[trigger] ready(ev, a, placed@, j),
            decreases n - i,
        {
            if !placed[i] && is_ready(entities, children, &placed, i) {
                proof {
                    lemma_place(ev, a, ord, placed@, i as int);
                    assert(!ord.contains(i as int));
                    ord = ord.push(i as int);
                }
                placed.set(i, true);
                result.push(entities[i].clone());
                placed_any = true;
            }
            i += 1;
        }
        proof {
            lemma_ord_len(ord, n as int);
        }
        if !placed_any {
            let mut u: usize = 0;
            while u < n
                invariant
                    n == entities@.len(),
                    ev == string_seq(entities@),
                    a == adj_view(children@),
                    ev.no_duplicates(),
                    placed@.len() == n,
                    u <= n,
                    forall|j: int| 0 <= j < u ==> #[trigger] placed@[j],
                    forall|j: int|
                        0 <= j < n && !placed@[j] ==> !#[trigger] ready(ev, a, placed@, j),
                decreases n - u,
            {
                if !placed[u] {
                    proof {
                        lemma_stall_means_no_order(ev, a, placed@, u as int);
                    }
                    let mut listed: Vec<String> = Vec::new();
                    let mut w: usize = 0;
                    while w < n
                        invariant
                            w <= n == entities@.len(),
                            string_seq(listed@) == string_seq(entities@).take(w as int),
                        decreases n - w,
                    {
                        let ghost before = string_seq(listed@);
                        listed.push(entities[w].clone());
                        proof {
                            assert(string_seq(listed@) =~= before.push(entities@[w as int]@));
                            assert(string_seq(entities@).take(w + 1) =~= string_seq(entities@).take(
                                w as int,
                            ).push(entities@[w as int]@));
                        }
                        w += 1;
                    }
                    assert(string_seq(entities@).take(n as int) =~= string_seq(entities@));
                    return Err(TViewError::DependencyCycle { entities: listed });
                }
                u += 1;
            }
            proof {
                let o = string_seq(result@);
                assert forall|p: int| 0 <= p < o.len() implies ev.contains(#[trigger] o[p]) by {
                    assert(ev[ord[p]] == o[p]);
                }
                assert forall|j: int| 0 <= j < ev.len() implies o.contains(#[trigger] ev[j]) by {
                    assert(placed@[j]);
                    let q = choose|q: int| 0 <= q < ord.len() && ord[q] == j;
                    assert(o[q] == ev[j]);
                }
                assert forall|p1: int, p2: int|
                    0 <= p1 < o.len() && 0 <= p2 < o.len() && p1 != p2 implies o[p1] != o[p2] by {
                    assert(ord[p1] != ord[p2]);
                    assert(ev[ord[p1]] != ev[ord[p2]]);
                }
                assert forall|p: int, k: int|
                    0 <= p < o.len() && 0 <= k < deps_of(a, o[p]).len() implies #[trigger] listed_before(o, a, p, k) by {
                    assert(o[p] == ev[ord[p]]);
                    assert(deps_of(a, ev[ord[p]])[k] == deps_of(a, o[p])[k]);
                    assert(dep_placed_before(ev, a, ord, p, k));
                    let q = choose|q: int| 0 <= q < p && #[trigger] ev[ord[q]] == deps_of(a, ev[ord[p]])[k];
                    assert(o[q] == ev[ord[q]]);
                    assert(o[q] == deps_of(a, o[p])[k]);
                }
                assert(o.no_duplicates());
                assert(valid_topo(o, ev, a));
            }
            return Ok(result);
        }
    }
}


/// A row of `pg_tview_meta` as the graph reads it: entity and FK columns.
pub type RowView = (Seq<char>, Option<Seq<Seq<char>>>);

pub open spec fn rows_view(rows: Seq<(String, Option<Vec<String>>)>) -> Seq<RowView> {
    rows.map_values(
        |r: (String, Option<Vec<String>>)|
            (
                r.0@,
                match r.1 {
                    Some(v) => Some(string_seq(v@)),
                    None => None,
                },
            ),
    )
}

/// The (entity, parent) edges of an entity's FK columns: `fk_<parent>`.
pub open spec fn fk_edges(e: Seq<char>, fks: Seq<Seq<char>>) -> Seq<(Seq<char>, Seq<char>)>
    decreases fks.len(),
{
    if fks.len() == 0 {
        Seq::empty()
    } else if starts_with(fks.last(), "fk_"@) {
        fk_edges(e, fks.drop_last()).push((e, fks.last().skip(3)))
    } else {
        fk_edges(e, fks.drop_last())
    }
}

/// All (entity, parent) edges of the rows, in row order.
pub open spec fn all_edges(rows: Seq<RowView>) -> Seq<(Seq<char>, Seq<char>)>
    decreases rows.len(),
{
    if rows.len() == 0 {
        Seq::empty()
    } else {
        all_edges(rows.drop_last()) + match rows.last().1 {
            Some(fks) => fk_edges(rows.last().0, fks),
            None => Seq::empty(),
        }
    }
}

/// `a` with `v` appended to the list of `k` (a new list when `k` is absent).
pub open spec fn adj_add(a: AdjView, k: Seq<char>, v: Seq<char>) -> AdjView {
    let p = first_pos(a, k, 0);
    if p < 0 {
        a.push((k, seq![v]))
    } else {
        a.update(p, (k, a[p].1.push(v)))
    }
}

/// Each edge (k, v) of `edges`, in order, added to `a`.
pub open spec fn adj_fold(a: AdjView, edges: Seq<(Seq<char>, Seq<char>)>) -> AdjView
    decreases edges.len(),
{
    if edges.len() == 0 {
        a
    } else {
        adj_add(adj_fold(a, edges.drop_last()), edges.last().0, edges.last().1)
    }
}

/// The edges reversed.
pub open spec fn flip(edges: Seq<(Seq<char>, Seq<char>)>) -> Seq<(Seq<char>, Seq<char>)> {
    edges.map_values(|e: (Seq<char>, Seq<char>)| (e.1, e.0))
}

/// The entities of the rows, each once, in order of first appearance.
pub open spec fn row_entities(rows: Seq<RowView>) -> Seq<Seq<char>>
    decreases rows.len(),
{
    if rows.len() == 0 {
        Seq::empty()
    } else {
        let d = row_entities(rows.drop_last());
        if d.contains(rows.last().0) {
            d
        } else {
            d.push(rows.last().0)
        }
    }
}

/// Entity dependency graph for refresh ordering.
///
/// With `tv_user` depending on `tv_company` (via `fk_company`) and `tv_post`
/// on `tv_user`, the refresh order is company, user, post.
#[derive(Debug, Clone)]
pub struct EntityDepGraph {
    /// Entity to the entities that depend on it ("user" to ["post"]).
    pub parents: Vec<(String, Vec<String>)>,
    /// Entity to the entities it depends on ("post" to ["user"]).
    pub children: Vec<(String, Vec<String>)>,
    /// Refresh order: every entity after those it depends on.
    pub topo_order: Vec<String>,
}

fn adj_add_exec(a: &mut Vec<(String, Vec<String>)>, k: &String, v: &String)
    ensures
        adj_view(final(a)@) == adj_add(adj_view(old(a)@), k@, v@),
{
    let ghost a0 = adj_view(a@);
    match deps_lookup(a, k) {
        None => {
            let mut l: Vec<String> = Vec::new();
            l.push(v.clone());
            assert(string_seq(l@) =~= seq![v@]);
            a.push((k.clone(), l));
            assert(adj_view(a@) =~= a0.push((k@, seq![v@])));
        },
        Some(p) => {
            proof {
                lemma_first_pos(a0, k@, 0);
            }
            let (kk, mut l) = a.remove(p);
            let ghost l0 = string_seq(l@);
            l.push(v.clone());
            assert(string_seq(l@) =~= l0.push(v@));
            a.insert(p, (kk, l));
            assert(adj_view(a@) =~= a0.update(p as int, (k@, a0[p as int].1.push(v@))));
        },
    }
}

fn contains_string(v: &Vec<String>, x: &String) -> (r: bool)
    ensures
        r == string_seq(v@).contains(x@),
{
    let mut i: usize = 0;
    while i < v.len()
        invariant
            i <= v@.len(),
            forall|j: int| 0 <= j < i ==> #[trigger] v@[j]@ != x@,
        decreases v.len() - i,
    {
        if v[i] == *x {
            assert(string_seq(v@)[i as int] == x@);
            return true;
        }
        i += 1;
    }
    proof {
        if string_seq(v@).contains(x@) {
            let j = choose|j: int| 0 <= j < v@.len() && #[trigger] string_seq(v@)[j] == x@;
            assert(v@[j]@ == x@);
        }
    }
    false
}

proof fn lemma_row_entities_distinct(rows: Seq<RowView>)
    ensures
        row_entities(rows).no_duplicates(),
    decreases rows.len(),
{
    if rows.len() > 0 {
        lemma_row_entities_distinct(rows.drop_last());
    }
}

impl EntityDepGraph {
    /// Build the graph from the rows of `pg_tview_meta` (entity, FK columns):
    /// an FK column `fk_<parent>` makes the entity depend on `<parent>`.
    /// Fails with `DependencyCycle` when the entities cannot be ordered.
    pub fn from_rows(rows: &Vec<(String, Option<Vec<String>>)>) -> (r: TViewResult<Self>)
        ensures
            ({
                let rv = rows_view(rows@);
                let children = adj_fold(Seq::empty(), all_edges(rv));
                match r {
                    Ok(g) => {
                        &&& adj_view(g.children@) == children
                        &&& adj_view(g.parents@) == adj_fold(Seq::empty(), flip(all_edges(rv)))
                        &&& valid_topo(string_seq(g.topo_order@), row_entities(rv), children)
                    },
                    Err(e) => (e matches TViewError::DependencyCycle { entities: listed }
                        && string_seq(listed@) == row_entities(rv)) && forall|o: Seq<Seq<char>>|
                        !valid_topo(o, row_entities(rv), children),
                }
            }),
    {
        let ghost rv = rows_view(rows@);
        let fk = chars_of("fk_");
        proof {
            reveal_strlit("fk_");
        }
        let mut parents: Vec<(String, Vec<String>)> = Vec::new();
        let mut children: Vec<(String, Vec<String>)> = Vec::new();
        let mut entities: Vec<String> = Vec::new();
        assert(adj_view(parents@) =~= AdjView::empty());
        assert(adj_view(children@) =~= AdjView::empty());
        assert(string_seq(entities@) =~= Seq::<Seq<char>>::empty());
        let mut r: usize = 0;
        while r < rows.len()
            invariant
                r <= rows@.len(),
                rv == rows_view(rows@),
                fk@ == "fk_"@,
                adj_view(children@) == adj_fold(AdjView::empty(), all_edges(rv.take(r as int))),
                adj_view(parents@) == adj_fold(AdjView::empty(), flip(all_edges(rv.take(r as int)))),
                string_seq(entities@) == row_entities(rv.take(r as int)),
            decreases rows.len() - r,
        {
            let entity = &rows[r].0;
            let ghost before_edges = all_edges(rv.take(r as int));
            proof {
                assert(rv.take(r + 1).drop_last() =~= rv.take(r as int));
                assert(rv.take(r + 1).last() == rv[r as int]);
            }
            if !contains_string(&entities, entity) {
                entities.push(entity.clone());
                assert(string_seq(entities@) =~= row_entities(rv.take(r as int)).push(entity@));
            }
            match &rows[r].1 {
                None => {
                    assert(all_edges(rv.take(r + 1)) =~= before_edges);
                },
                Some(fks) => {
                    let ghost fv = string_seq(fks@);
                    assert(rv[r as int].1 == Some(fv));
                    assert(fk_edges(entity@, fv.take(0)) =~= Seq::<(Seq<char>, Seq<char>)>::empty());
                    assert(before_edges + fk_edges(entity@, fv.take(0)) =~= before_edges);
                    let mut j: usize = 0;
                    while j < fks.len()
                        invariant
                            j <= fks@.len(),
                            fv == string_seq(fks@),
                            fk@ == "fk_"@,
                            adj_view(children@) == adj_fold(
                                AdjView::empty(),
                                before_edges + fk_edges(entity@, fv.take(j as int)),
                            ),
                            adj_view(parents@) == adj_fold(
                                AdjView::empty(),
                                flip(before_edges + fk_edges(entity@, fv.take(j as int))),
                            ),
                        decreases fks.len() - j,
                    {
                        proof {
                            reveal_strlit("fk_");
                        }
                        let col = chars_of(fks[j].as_str());
                        let ghost cur = before_edges + fk_edges(entity@, fv.take(j as int));
                        proof {
                            assert(fv.take(j + 1).drop_last() =~= fv.take(j as int));
                            assert(fv.take(j + 1).last() == fv[j as int]);
                            assert(fv[j as int] == col@);
                        }
                        if starts_with_exec(&col, &fk) {
                            let parent = string_of_range(&col, 3, col.len());
                            assert(parent@ =~= col@.skip(3));
                            adj_add_exec(&mut children, entity, &parent);
                            adj_add_exec(&mut parents, &parent, entity);
                            proof {
                                let next = before_edges + fk_edges(entity@, fv.take(j + 1));
                                assert(next =~= cur.push((entity@, parent@)));
                                assert(next.drop_last() =~= cur);
                                assert(flip(next) =~= flip(cur).push((parent@, entity@)));
                                assert(flip(next).drop_last() =~= flip(cur));
                            }
                        } else {
                            proof {
                                let next = before_edges + fk_edges(entity@, fv.take(j + 1));
                                assert(next =~= cur);
                            }
                        }
                        j += 1;
                    }
                    assert(fv.take(fks@.len() as int) =~= fv);
                },
            }
            assert(rv.take(r as int + 1).len() == r + 1);
            r += 1;
        }
        assert(rv.take(rows@.len() as int) =~= rv);
        proof {
            lemma_row_entities_distinct(rv);
        }
        let topo_order = topological_sort(&entities, &children)?;
        Ok(EntityDepGraph { parents, children, topo_order })
    }

    /// The entities that depend on `entity`, each once per FK referencing it.
    pub fn parents_of(&self, entity: &String) -> (r: Vec<String>)
        ensures
            string_seq(r@) == deps_of(adj_view(self.parents@), entity@),
    {
        match deps_lookup(&self.parents, entity) {
            Some(p) => self.parents[p].1.clone(),
            None => {
                let r: Vec<String> = Vec::new();
                assert(string_seq(r@) =~= Seq::<Seq<char>>::empty());
                r
            },
        }
    }
}

/// `keys` regrouped by entity, entities in `order`, each group in its
/// input order; keys of entities not in `order` are left out.
pub open spec fn sorted_by_order(keys: Seq<KeyView>, order: Seq<Seq<char>>) -> Seq<KeyView>
    decreases order.len(),
{
    if order.len() == 0 {
        Seq::empty()
    } else {
        sorted_by_order(keys, order.drop_last()) + keys.filter(|k: KeyView| k.0 == order.last())
    }
}

impl EntityDepGraph {
    /// Sort refresh keys by dependency order: grouped by entity, the entities
    /// in refresh order, and each group in the order given.
    pub fn sort_keys(&self, keys: Vec<RefreshKey>) -> (r: Vec<RefreshKey>)
        ensures
            key_views(r@) == sorted_by_order(key_views(keys@), string_seq(self.topo_order@)),
    {
        let ghost kv = key_views(keys@);
        let ghost ov = string_seq(self.topo_order@);
        let mut out: Vec<RefreshKey> = Vec::new();
        assert(key_views(out@) =~= sorted_by_order(kv, ov.take(0)));
        let mut e: usize = 0;
        while e < self.topo_order.len()
            invariant
                e <= self.topo_order@.len(),
                kv == key_views(keys@),
                ov == string_seq(self.topo_order@),
                key_views(out@) == sorted_by_order(kv, ov.take(e as int)),
            decreases self.topo_order.len() - e,
        {
            let entity = &self.topo_order[e];
            let ghost base = key_views(out@);
            let ghost pred = |k: KeyView| k.0 == entity@;
            assert(kv.take(0).filter(pred) =~= Seq::<KeyView>::empty()) by {
                reveal(Seq::filter);
            }
            assert(base + kv.take(0).filter(pred) =~= base);
            let mut i: usize = 0;
            while i < keys.len()
                invariant
                    i <= keys@.len(),
                    kv == key_views(keys@),
                    key_views(out@) == base + kv.take(i as int).filter(pred),
                    pred == (|k: KeyView| k.0 == entity@),
                decreases keys.len() - i,
            {
                let ghost cur = key_views(out@);
                proof {
                    assert(kv.take(i + 1).drop_last() =~= kv.take(i as int));
                    assert(kv.take(i + 1).last() == kv[i as int]);
                    assert(pred(kv[i as int]) == (kv[i as int].0 == entity@));
                    reveal(Seq::filter);
                    assert(kv.take(i + 1).filter(pred) == if pred(kv[i as int]) {
                        kv.take(i as int).filter(pred).push(kv[i as int])
                    } else {
                        kv.take(i as int).filter(pred)
                    });
                }
                if keys[i].entity == *entity {
                    let k = keys[i].duplicate();
                    out.push(k);
                    assert(key_views(out@) =~= cur.push(kv[i as int]));
                } else {
                    assert(key_views(out@) == cur);
                }
                i += 1;
            }
            proof {
                assert(kv.take(keys@.len() as int) =~= kv);
                assert(ov.take(e + 1).drop_last() =~= ov.take(e as int));
                assert(ov.take(e + 1).last() == entity@);
            }
            e += 1;
        }
        assert(ov.take(self.topo_order@.len() as int) =~= ov);
        out
    }
}

} // verus!
