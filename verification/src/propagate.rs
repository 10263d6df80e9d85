//! Parent discovery: which rows of which TVIEWs depend on a changed row.
//! The graph says which entities embed an entity; the catalog reads (made by
//! the caller with the queries built here) say which of their rows do.
use vstd::prelude::*;
use crate::queue::key::{KeyView, RefreshKey};
use crate::queue::graph::{EntityDepGraph, adj_view, deps_of};
use crate::queue::flush::group_add;
use crate::queue::patch::{assoc_get, first_pos, lemma_first_pos};
use crate::queue::state::{key_views, string_seq};

verus! {

/// The entities whose rows may embed `key`'s row: none for a DISTINCT ON
/// key (it carries no primary key a parent could reference).
pub open spec fn spec_propagation_parents(key: KeyView, parents: crate::queue::graph::AdjView) -> Seq<Seq<char>> {
    if key.2 is Some {
        Seq::empty()
    } else {
        deps_of(parents, key.0)
    }
}

/// The parent entities to search for rows referencing `key`.
pub fn find_parent_entities(key: &RefreshKey, graph: &EntityDepGraph) -> (r: Vec<String>)
    ensures
        string_seq(r@) == spec_propagation_parents(key@, adj_view(graph.parents@)),
{
    if key.is_dedup() {
        let r: Vec<String> = Vec::new();
        assert(string_seq(r@) =~= Seq::<Seq<char>>::empty());
        return r;
    }
    graph.parents_of(&key.entity)
}

/// `SELECT pk_<parent> FROM tv_<parent> WHERE fk_<child> = $1`.
pub open spec fn spec_affected_pks_query(parent: Seq<char>, child: Seq<char>) -> Seq<char> {
    "SELECT pk_"@ + parent + " FROM tv_"@ + parent + " WHERE fk_"@ + child + " = $1"@
}

/// The query for the rows of `parent` that reference one row of `child`.
pub fn affected_pks_query(parent: &str, child: &str) -> (r: String)
    ensures
        r@ == spec_affected_pks_query(parent@, child@),
{
    let mut q = "SELECT pk_".to_owned();
    q.append(parent);
    q.append(" FROM tv_");
    q.append(parent);
    q.append(" WHERE fk_");
    q.append(child);
    q.append(" = $1");
    q
}

/// The refresh keys of the rows found, parent by parent, in order.
pub open spec fn spec_parent_keys(found: Seq<(Seq<char>, Seq<i64>)>) -> Seq<KeyView>
    decreases found.len(),
{
    if found.len() == 0 {
        Seq::empty()
    } else {
        spec_parent_keys(found.drop_last()) + found.last().1.map_values(|pk: i64| (found.last().0, pk, None::<Seq<char>>))
    }
}

pub open spec fn found_view(found: Seq<(String, Vec<i64>)>) -> Seq<(Seq<char>, Seq<i64>)> {
    found.map_values(|f: (String, Vec<i64>)| (f.0@, f.1@))
}

/// The parent keys of a changed row, from the primary keys that each parent
/// entity's query returned.
pub fn find_parents_for(found: &Vec<(String, Vec<i64>)>) -> (r: Vec<RefreshKey>)
    ensures
        key_views(r@) == spec_parent_keys(found_view(found@)),
{
    let ghost fv = found_view(found@);
    let mut r: Vec<RefreshKey> = Vec::new();
    let mut i: usize = 0;
    assert(fv.take(0) =~= Seq::<(Seq<char>, Seq<i64>)>::empty());
    while i < found.len()
        invariant
            i <= found@.len(),
            fv == found_view(found@),
            key_views(r@) == spec_parent_keys(fv.take(i as int)),
        decreases found.len() - i,
    {
        let ghost before = key_views(r@);
        let parent = found[i].0.as_str();
        let pks = &found[i].1;
        let mut j: usize = 0;
        while j < pks.len()
            invariant
                i < found@.len(),
                fv == found_view(found@),
                j <= pks@.len(),
                pks@ == fv[i as int].1,
                parent@ == fv[i as int].0,
                key_views(r@) == before + pks@.take(j as int).map_values(|pk: i64| (parent@, pk, None::<Seq<char>>)),
            decreases pks.len() - j,
        {
            let ghost b2 = key_views(r@);
            r.push(RefreshKey::pk(parent, pks[j]));
            assert(pks@.take(j + 1) =~= pks@.take(j as int).push(pks@[j as int]));
            assert(key_views(r@) =~= b2.push((parent@, pks@[j as int], None::<Seq<char>>)));
            j += 1;
        }
        assert(pks@.take(pks@.len() as int) =~= pks@);
        assert(fv.take(i + 1).drop_last() =~= fv.take(i as int));
        i += 1;
    }
    assert(fv.take(found@.len() as int) =~= fv);
    r
}

/// The keys that can propagate: those with a primary key, in order.
pub fn pk_keys(keys: &Vec<RefreshKey>) -> (r: Vec<RefreshKey>)
    ensures
        key_views(r@) == key_views(keys@).filter(|k: KeyView| k.2 is None),
{
    let ghost kv = key_views(keys@);
    let mut r: Vec<RefreshKey> = Vec::new();
    let mut i: usize = 0;
    assert(kv.take(0).filter(|k: KeyView| k.2 is None) =~= Seq::<KeyView>::empty());
    while i < keys.len()
        invariant
            i <= keys@.len(),
            kv == key_views(keys@),
            key_views(r@) == kv.take(i as int).filter(|k: KeyView| k.2 is None),
        decreases keys.len() - i,
    {
        let ghost before = key_views(r@);
        assert(kv.take(i + 1).drop_last() =~= kv.take(i as int));
        reveal(Seq::filter);
        if !keys[i].is_dedup() {
            r.push(keys[i].duplicate());
            assert(key_views(r@) =~= before.push(kv[i as int]));
        } else {
            assert(key_views(r@) =~= before);
        }
        i += 1;
    }
    assert(kv.take(keys@.len() as int) =~= kv);
    r
}

/// A batch group: `(parent entity, child entity)`.
pub type GroupKey = (Seq<char>, Seq<char>);

/// `g` with `pk` added to the group `(p, child)` of each parent `p`.
pub open spec fn add_to_parents(g: Seq<(GroupKey, Seq<i64>)>, parents: Seq<Seq<char>>, child: Seq<char>, pk: i64) -> Seq<(GroupKey, Seq<i64>)>
    decreases parents.len(),
{
    if parents.len() == 0 {
        g
    } else {
        group_add(add_to_parents(g, parents.drop_last(), child, pk), (parents.last(), child), pk)
    }
}

/// The child primary keys grouped by `(parent, child)` entity pair, groups
/// in order of first appearance: one catalog query per group.
pub open spec fn spec_batch_groups(parents: crate::queue::graph::AdjView, keys: Seq<KeyView>) -> Seq<(GroupKey, Seq<i64>)>
    decreases keys.len(),
{
    if keys.len() == 0 {
        Seq::empty()
    } else {
        add_to_parents(spec_batch_groups(parents, keys.drop_last()), deps_of(parents, keys.last().0), keys.last().0, keys.last().1)
    }
}

pub open spec fn groups_of(g: Seq<((String, String), Vec<i64>)>) -> Seq<(GroupKey, Seq<i64>)> {
    g.map_values(|e: ((String, String), Vec<i64>)| ((e.0.0@, e.0.1@), e.1@))
}

fn group_add_pk(g: &mut Vec<((String, String), Vec<i64>)>, parent: &String, child: &String, pk: i64)
    ensures
        groups_of(final(g)@) == group_add(groups_of(old(g)@), (parent@, child@), pk),
{
    let ghost g0 = groups_of(g@);
    let ghost k = (parent@, child@);
    let mut p: usize = 0;
    while p < g.len()
        invariant
            p <= g@.len(),
            g0 == groups_of(g@),
            g@ == old(g)@,
            k == (parent@, child@),
            first_pos(g0, k, 0) == first_pos(g0, k, p as int),
        decreases g.len() - p,
    {
        if g[p].0.0 == *parent && g[p].0.1 == *child {
            proof {
                lemma_first_pos(g0, k, 0);
            }
            let (name, mut pks) = g.remove(p);
            let ghost l0 = pks@;
            pks.push(pk);
            g.insert(p, (name, pks));
            assert(groups_of(g@) =~= g0.update(p as int, (k, l0.push(pk))));
            return;
        }
        p += 1;
    }
    proof {
        lemma_first_pos(g0, k, 0);
    }
    assert(assoc_get(g0, k) is None);
    let mut pks: Vec<i64> = Vec::new();
    pks.push(pk);
    let pc = parent.clone();
    let cc = child.clone();
    assert(pc@ == parent@ && cc@ == child@);
    g.push(((pc, cc), pks));
    assert(groups_of(g@) =~= g0.push((k, seq![pk])));
}

/// Group the keys' primary keys by `(parent, child)` (see [`spec_batch_groups`]).
pub fn build_batch_groups(keys: &Vec<RefreshKey>, graph: &EntityDepGraph) -> (r: Vec<((String, String), Vec<i64>)>)
    ensures
        groups_of(r@) == spec_batch_groups(adj_view(graph.parents@), key_views(keys@)),
{
    let ghost kv = key_views(keys@);
    let ghost a = adj_view(graph.parents@);
    let mut g: Vec<((String, String), Vec<i64>)> = Vec::new();
    let mut i: usize = 0;
    assert(kv.take(0) =~= Seq::<KeyView>::empty());
    while i < keys.len()
        invariant
            i <= keys@.len(),
            kv == key_views(keys@),
            a == adj_view(graph.parents@),
            groups_of(g@) == spec_batch_groups(a, kv.take(i as int)),
        decreases keys.len() - i,
    {
        let ghost g1 = groups_of(g@);
        let parents = graph.parents_of(&keys[i].entity);
        let ghost ps = string_seq(parents@);
        let mut j: usize = 0;
        assert(ps.take(0) =~= Seq::<Seq<char>>::empty());
        while j < parents.len()
            invariant
                i < keys@.len(),
                j <= parents@.len(),
                ps == string_seq(parents@),
                kv == key_views(keys@),
                groups_of(g@) == add_to_parents(g1, ps.take(j as int), kv[i as int].0, kv[i as int].1),
            decreases parents.len() - j,
        {
            assert(ps.take(j + 1).drop_last() =~= ps.take(j as int));
            group_add_pk(&mut g, &parents[j], &keys[i].entity, keys[i].pk);
            j += 1;
        }
        assert(ps.take(parents@.len() as int) =~= ps);
        assert(kv.take(i + 1).drop_last() =~= kv.take(i as int));
        i += 1;
    }
    assert(kv.take(keys@.len() as int) =~= kv);
    g
}

/// `SELECT fk_<child>, pk_<parent> FROM tv_<parent> WHERE fk_<child> = ANY($1)`.
pub open spec fn spec_batch_query(parent: Seq<char>, child: Seq<char>) -> Seq<char> {
    "SELECT fk_"@ + child + ", pk_"@ + parent + " FROM tv_"@ + parent + " WHERE fk_"@ + child + " = ANY($1)"@
}

/// The query for one batch group; it returns `(child pk, parent pk)` rows.
pub fn batch_query(parent: &str, child: &str) -> (r: String)
    ensures
        r@ == spec_batch_query(parent@, child@),
{
    let mut q = "SELECT fk_".to_owned();
    q.append(child);
    q.append(", pk_");
    q.append(parent);
    q.append(" FROM tv_");
    q.append(parent);
    q.append(" WHERE fk_");
    q.append(child);
    q.append(" = ANY($1)");
    q
}

/// The parent primary keys of the rows that reference `child_pk`, in row order.
pub open spec fn parents_of_pk(rows: Seq<(i64, i64)>, child_pk: i64) -> Seq<i64> {
    rows.filter(|r: (i64, i64)| r.0 == child_pk).map_values(|r: (i64, i64)| r.1)
}

/// `m` with each of `vs` appended, in order, to the list of `k`.
pub open spec fn extend_entry(m: Seq<(KeyView, Seq<KeyView>)>, k: KeyView, vs: Seq<KeyView>) -> Seq<(KeyView, Seq<KeyView>)>
    decreases vs.len(),
{
    if vs.len() == 0 {
        m
    } else {
        group_add(extend_entry(m, k, vs.drop_last()), k, vs.last())
    }
}

/// The result after one batch group's rows: each key of `child` (in order)
/// whose primary key some row references gains those rows' parent keys.
pub open spec fn spec_add_batch_results(
    m: Seq<(KeyView, Seq<KeyView>)>,
    keys: Seq<KeyView>,
    parent: Seq<char>,
    child: Seq<char>,
    rows: Seq<(i64, i64)>,
) -> Seq<(KeyView, Seq<KeyView>)>
    decreases keys.len(),
{
    if keys.len() == 0 {
        m
    } else {
        let prev = spec_add_batch_results(m, keys.drop_last(), parent, child, rows);
        let k = keys.last();
        let ps = parents_of_pk(rows, k.1);
        if k.0 == child && ps.len() > 0 {
            extend_entry(prev, k, ps.map_values(|p: i64| (parent, p, None::<Seq<char>>)))
        } else {
            prev
        }
    }
}

pub open spec fn results_view(m: Seq<(RefreshKey, Vec<RefreshKey>)>) -> Seq<(KeyView, Seq<KeyView>)> {
    m.map_values(|e: (RefreshKey, Vec<RefreshKey>)| (e.0@, key_views(e.1@)))
}

fn result_add(m: &mut Vec<(RefreshKey, Vec<RefreshKey>)>, key: &RefreshKey, v: RefreshKey)
    ensures
        results_view(final(m)@) == group_add(results_view(old(m)@), key@, v@),
{
    let ghost m0 = results_view(m@);
    let mut p: usize = 0;
    while p < m.len()
        invariant
            p <= m@.len(),
            m0 == results_view(m@),
            m@ == old(m)@,
            first_pos(m0, key@, 0) == first_pos(m0, key@, p as int),
        decreases m.len() - p,
    {
        if m[p].0.same_key(key) {
            proof {
                lemma_first_pos(m0, key@, 0);
            }
            let (k, mut l) = m.remove(p);
            let ghost l0 = key_views(l@);
            let ghost vv = v@;
            l.push(v);
            assert(key_views(l@) =~= l0.push(vv));
            m.insert(p, (k, l));
            assert(results_view(m@) =~= m0.update(p as int, (key@, l0.push(vv))));
            return;
        }
        p += 1;
    }
    proof {
        lemma_first_pos(m0, key@, 0);
    }
    let ghost vv = v@;
    let mut l: Vec<RefreshKey> = Vec::new();
    l.push(v);
    assert(key_views(l@) =~= seq![vv]);
    m.push((key.duplicate(), l));
    assert(results_view(m@) =~= m0.push((key@, seq![vv])));
}

fn parents_of_pk_exec(rows: &Vec<(i64, i64)>, child_pk: i64) -> (r: Vec<i64>)
    ensures
        r@ == parents_of_pk(rows@, child_pk),
{
    let mut r: Vec<i64> = Vec::new();
    let mut i: usize = 0;
    assert(rows@.take(0).filter(|x: (i64, i64)| x.0 == child_pk) =~= Seq::<(i64, i64)>::empty());
    while i < rows.len()
        invariant
            i <= rows@.len(),
            r@ == parents_of_pk(rows@.take(i as int), child_pk),
        decreases rows.len() - i,
    {
        reveal(Seq::filter);
        assert(rows@.take(i + 1).drop_last() =~= rows@.take(i as int));
        let ghost f0 = rows@.take(i as int).filter(|x: (i64, i64)| x.0 == child_pk);
        if rows[i].0 == child_pk {
            r.push(rows[i].1);
            assert(rows@.take(i + 1).filter(|x: (i64, i64)| x.0 == child_pk) =~= f0.push(rows@[i as int]));
        } else {
            assert(rows@.take(i + 1).filter(|x: (i64, i64)| x.0 == child_pk) =~= f0);
        }
        assert(r@ =~= parents_of_pk(rows@.take(i + 1), child_pk));
        i += 1;
    }
    assert(rows@.take(rows@.len() as int) =~= rows@);
    r
}

/// Add one batch group's rows to the result (see [`spec_add_batch_results`]).
pub fn add_batch_results(
    result: &mut Vec<(RefreshKey, Vec<RefreshKey>)>,
    keys: &Vec<RefreshKey>,
    parent: &str,
    child: &str,
    rows: &Vec<(i64, i64)>,
)
    ensures
        results_view(final(result)@) == spec_add_batch_results(results_view(old(result)@), key_views(keys@), parent@, child@, rows@),
{
    let ghost kv = key_views(keys@);
    let ghost m0 = results_view(result@);
    let child_s = child.to_owned();
    let mut i: usize = 0;
    assert(kv.take(0) =~= Seq::<KeyView>::empty());
    while i < keys.len()
        invariant
            i <= keys@.len(),
            kv == key_views(keys@),
            child_s@ == child@,
            results_view(result@) == spec_add_batch_results(m0, kv.take(i as int), parent@, child@, rows@),
        decreases keys.len() - i,
    {
        assert(kv.take(i + 1).drop_last() =~= kv.take(i as int));
        let ghost prev = results_view(result@);
        if keys[i].entity == child_s {
            let ps = parents_of_pk_exec(rows, keys[i].pk);
            if ps.len() > 0 {
                let ghost pv = ps@.map_values(|p: i64| (parent@, p, None::<Seq<char>>));
                let mut j: usize = 0;
                assert(pv.take(0) =~= Seq::<KeyView>::empty());
                while j < ps.len()
                    invariant
                        i < keys@.len(),
                        j <= ps@.len(),
                        pv == ps@.map_values(|p: i64| (parent@, p, None::<Seq<char>>)),
                        kv == key_views(keys@),
                        results_view(result@) == extend_entry(prev, kv[i as int], pv.take(j as int)),
                    decreases ps.len() - j,
                {
                    assert(pv.take(j + 1).drop_last() =~= pv.take(j as int));
                    result_add(result, &keys[i], RefreshKey::pk(parent, ps[j]));
                    j += 1;
                }
                assert(pv.take(ps@.len() as int) =~= pv);
            }
        }
        i += 1;
    }
    assert(kv.take(keys@.len() as int) =~= kv);
}

} // verus!
