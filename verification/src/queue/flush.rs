//! The decisions of a commit-time flush of the refresh queue.
//!
//! A flush takes the transaction's queue and patch map, then repeatedly takes
//! the pending keys in dependency order, skips those already processed, and
//! groups the rest by entity. The caller refreshes each group (patching rows
//! directly where a usable patch chain exists, recomputing the others) and
//! reports the parent keys it discovered; those become pending in turn. Each
//! key is processed at most once, and the number of rounds is bounded.
use vstd::prelude::*;
use crate::error::{TViewError, TViewResult};
use crate::metrics::{record_refresh_complete, MetricsState, RefreshTimer, after_refresh};
use crate::queue::graph::{sorted_by_order, EntityDepGraph};
use crate::queue::key::{KeyView, RefreshKey};
use crate::queue::patch::{
    assoc_get, assoc_put, chain_view, duplicate_chain, merge_chain_into, poison_into,
    take_patch_snapshot, spec_merge_chain, EntryView, MapView, PatchEntry, PatchMap, PatchState,
    PatchView,
};
use crate::queue::state::{key_views, queue_insert, string_seq, RefreshQueue};
use crate::queue::ops::take_queue_snapshot;
use crate::queue::xact::TxState;

verus! {

/// The state of a flush in progress.
pub struct FlushState {
    /// Keys waiting for refresh in the next round.
    pub pending: RefreshQueue,
    /// Keys refreshed so far.
    pub processed: RefreshQueue,
    /// The patch states of the keys, taken from the transaction.
    pub patches: PatchMap,
    /// The current round, from 1.
    pub iteration: usize,
}

/// Keys of `s`, in order, that are not yet in `proc` (nor earlier in `s`),
/// and `proc` with them added.
pub open spec fn batch_fold(proc: Seq<KeyView>, s: Seq<KeyView>) -> (Seq<KeyView>, Seq<KeyView>)
    decreases s.len(),
{
    if s.len() == 0 {
        (Seq::empty(), proc)
    } else {
        let (fresh, p) = batch_fold(proc, s.drop_last());
        if p.contains(s.last()) {
            (fresh, p)
        } else {
            (fresh.push(s.last()), p.push(s.last()))
        }
    }
}

/// `g` with `v` appended to the group of `k` (a new group when `k` is absent).
pub open spec fn group_add<K, V>(g: Seq<(K, Seq<V>)>, k: K, v: V) -> Seq<(K, Seq<V>)> {
    match assoc_get(g, k) {
        None => g.push((k, seq![v])),
        Some(l) => assoc_put(g, k, l.push(v)),
    }
}

/// The keys grouped by entity, groups in order of first appearance.
pub open spec fn group_by_entity(keys: Seq<KeyView>) -> Seq<(Seq<char>, Seq<KeyView>)>
    decreases keys.len(),
{
    if keys.len() == 0 {
        Seq::empty()
    } else {
        group_add(group_by_entity(keys.drop_last()), keys.last().0, keys.last())
    }
}

pub open spec fn groups_view(g: Seq<(String, Vec<RefreshKey>)>) -> Seq<(Seq<char>, Seq<KeyView>)> {
    g.map_values(|e: (String, Vec<RefreshKey>)| (e.0@, key_views(e.1@)))
}

/// The keys handed out by a round are new to `proc` and each occurs once,
/// and they are exactly what the round adds to the processed keys.
pub proof fn law_batch_keys_fresh(proc: Seq<KeyView>, s: Seq<KeyView>)
    requires
        proc.no_duplicates(),
    ensures
        ({
            let (fresh, p) = batch_fold(proc, s);
            &&& p == proc + fresh
            &&& p.no_duplicates()
            &&& forall|i: int| 0 <= i < fresh.len() ==> !proc.contains(#[trigger] fresh[i])
        }),
    decreases s.len(),
{
    if s.len() > 0 {
        law_batch_keys_fresh(proc, s.drop_last());
        let (fresh0, p0) = batch_fold(proc, s.drop_last());
        let k = s.last();
        if !p0.contains(k) {
            assert(p0.push(k) =~= proc + fresh0.push(k));
            assert forall|i: int| 0 <= i < fresh0.push(k).len() implies !proc.contains(
                #[trigger] fresh0.push(k)[i],
            ) by {
                if i == fresh0.len() {
                    if proc.contains(k) {
                        let j = choose|j: int| 0 <= j < proc.len() && proc[j] == k;
                        assert(p0[j] == k);
                    }
                }
            }
        }
    }
}

/// `k` is in `s.filter(pred)` exactly when it is in `s` and satisfies `pred`.
proof fn lemma_filter_contains_iff(s: Seq<KeyView>, pred: spec_fn(KeyView) -> bool, k: KeyView)
    ensures
        s.filter(pred).contains(k) <==> (s.contains(k) && pred(k)),
    decreases s.len(),
{
    reveal(Seq::filter);
    if s.len() > 0 {
        lemma_filter_contains_iff(s.drop_last(), pred, k);
        let f0 = s.drop_last().filter(pred);
        if s.filter(pred).contains(k) {
            let j = choose|j: int| 0 <= j < s.filter(pred).len() && s.filter(pred)[j] == k;
            if pred(s.last()) && j == f0.len() {
                assert(s[s.len() - 1] == k);
            } else {
                assert(f0[j] == k);
                let m = choose|m: int| 0 <= m < s.drop_last().len() && s.drop_last()[m] == k;
                assert(s[m] == k);
            }
        }
        if s.contains(k) && pred(k) {
            let m = choose|m: int| 0 <= m < s.len() && s[m] == k;
            if m == s.len() - 1 {
                assert(s.filter(pred)[f0.len() as int] == k);
            } else {
                assert(s.drop_last()[m] == k);
                let j = choose|j: int| 0 <= j < f0.len() && f0[j] == k;
                assert(s.filter(pred)[j] == k);
            }
        }
    }
}

/// A round hands out exactly the keys of `s` not yet in `proc`, each once,
/// and adds them to `proc`.
pub proof fn law_batch_takes_every_new_key(proc: Seq<KeyView>, s: Seq<KeyView>)
    ensures
        ({
            let (fresh, p) = batch_fold(proc, s);
            &&& p == proc + fresh
            &&& fresh.no_duplicates()
            &&& forall|k: KeyView| fresh.contains(k) <==> (s.contains(k) && !proc.contains(k))
        }),
    decreases s.len(),
{
    if s.len() > 0 {
        law_batch_takes_every_new_key(proc, s.drop_last());
        let (fresh0, p0) = batch_fold(proc, s.drop_last());
        let x = s.last();
        let (fresh, p) = batch_fold(proc, s);
        assert forall|k: KeyView| p0.contains(k) <==> (proc.contains(k) || fresh0.contains(k)) by {
            if p0.contains(k) {
                let j = choose|j: int| 0 <= j < p0.len() && p0[j] == k;
                if j < proc.len() {
                    assert(proc[j] == k);
                } else {
                    assert(fresh0[j - proc.len()] == k);
                }
            }
            if proc.contains(k) {
                let j = choose|j: int| 0 <= j < proc.len() && proc[j] == k;
                assert(p0[j] == k);
            }
            if fresh0.contains(k) {
                let j = choose|j: int| 0 <= j < fresh0.len() && fresh0[j] == k;
                assert(p0[proc.len() + j] == k);
            }
        }
        assert forall|k: KeyView| s.contains(k) <==> (s.drop_last().contains(k) || k == x) by {
            if s.contains(k) {
                let j = choose|j: int| 0 <= j < s.len() && s[j] == k;
                if j < s.len() - 1 {
                    assert(s.drop_last()[j] == k);
                }
            }
            if s.drop_last().contains(k) {
                let j = choose|j: int| 0 <= j < s.drop_last().len() && s.drop_last()[j] == k;
                assert(s[j] == k);
            }
            if k == x {
                assert(s[s.len() - 1] == k);
            }
        }
        if !p0.contains(x) {
            assert(p0.push(x) =~= proc + fresh0.push(x));
            assert forall|k: KeyView| fresh.contains(k) <==> (fresh0.contains(k) || k == x) by {
                if fresh.contains(k) {
                    let j = choose|j: int| 0 <= j < fresh.len() && fresh[j] == k;
                    if j < fresh0.len() {
                        assert(fresh0[j] == k);
                    }
                }
                if fresh0.contains(k) {
                    let j = choose|j: int| 0 <= j < fresh0.len() && fresh0[j] == k;
                    assert(fresh[j] == k);
                }
                if k == x {
                    assert(fresh[fresh0.len() as int] == k);
                }
            }
            assert forall|a: int, b: int| 0 <= a < b < fresh.len() implies fresh[a] != fresh[b] by {
                if b == fresh0.len() {
                    assert(fresh0[a] == fresh[a]);
                    assert(fresh0.contains(fresh[a]));
                } else {
                    assert(fresh0[a] == fresh[a]);
                    assert(fresh0[b] == fresh[b]);
                }
            }
        }
    }
}

/// A key is in the dependency-ordered keys exactly when it is one of `keys`
/// and its entity is in `order`.
pub proof fn law_sorted_keeps_ordered_entities(keys: Seq<KeyView>, order: Seq<Seq<char>>, k: KeyView)
    ensures
        sorted_by_order(keys, order).contains(k) <==> (keys.contains(k) && order.contains(k.0)),
    decreases order.len(),
{
    if order.len() > 0 {
        law_sorted_keeps_ordered_entities(keys, order.drop_last(), k);
        let a = sorted_by_order(keys, order.drop_last());
        let pred = |q: KeyView| q.0 == order.last();
        let b = keys.filter(pred);
        lemma_filter_contains_iff(keys, pred, k);
        let s = sorted_by_order(keys, order);
        assert(s == a + b);
        if s.contains(k) {
            let j = choose|j: int| 0 <= j < s.len() && s[j] == k;
            if j < a.len() {
                assert(a[j] == k);
            } else {
                assert(b[j - a.len()] == k);
                assert(order[order.len() - 1] == k.0);
            }
        }
        if keys.contains(k) && order.contains(k.0) {
            let m = choose|m: int| 0 <= m < order.len() && order[m] == k.0;
            if m < order.len() - 1 {
                assert(order.drop_last()[m] == k.0);
                let j = choose|j: int| 0 <= j < a.len() && a[j] == k;
                assert(s[j] == k);
            } else {
                let j = choose|j: int| 0 <= j < b.len() && b[j] == k;
                assert(s[a.len() + j] == k);
            }
        }
        if order.drop_last().contains(k.0) {
            let m = choose|m: int| 0 <= m < order.drop_last().len() && order.drop_last()[m] == k.0;
            assert(order[m] == k.0);
        }
    }
}

/// Entity `e1` comes no later than `e2` in `order`.
pub open spec fn not_after(order: Seq<Seq<char>>, e1: Seq<char>, e2: Seq<char>) -> bool {
    exists|oa: int, ob: int| 0 <= oa <= ob < order.len() && #[trigger] order[oa] == e1 && #[trigger] order[ob] == e2
}

/// Every two keys of `f` occur in `s` in the same order.
pub open spec fn in_order_of(f: Seq<KeyView>, s: Seq<KeyView>) -> bool {
    forall|a: int, b: int| 0 <= a < b < f.len()
        ==> exists|ia: int, ib: int| 0 <= ia < ib < s.len() && s[ia] == #[trigger] f[a] && s[ib] == #[trigger] f[b]
}

/// The keys a round hands out keep the order in which they were given.
proof fn lemma_batch_in_order(proc: Seq<KeyView>, s: Seq<KeyView>)
    ensures
        in_order_of(batch_fold(proc, s).0, s),
        forall|a: int| 0 <= a < batch_fold(proc, s).0.len()
            ==> exists|ia: int| 0 <= ia < s.len() && s[ia] == #[trigger] batch_fold(proc, s).0[a],
    decreases s.len(),
{
    if s.len() > 0 {
        lemma_batch_in_order(proc, s.drop_last());
        let s0 = s.drop_last();
        let (f0, p0) = batch_fold(proc, s0);
        let f = batch_fold(proc, s).0;
        assert forall|a: int| 0 <= a < f0.len() implies exists|ia: int| 0 <= ia < s.len() && s[ia] == #[trigger] f0[a] by {
            let ia = choose|ia: int| 0 <= ia < s0.len() && s0[ia] == f0[a];
            assert(s[ia] == f0[a]);
        }
        assert forall|a: int, b: int| 0 <= a < b < f0.len()
            implies exists|ia: int, ib: int| 0 <= ia < ib < s.len() && s[ia] == #[trigger] f0[a] && s[ib] == #[trigger] f0[b] by {
            let (ia, ib) = choose|ia: int, ib: int| 0 <= ia < ib < s0.len() && s0[ia] == f0[a] && s0[ib] == f0[b];
            assert(s[ia] == f0[a] && s[ib] == f0[b]);
        }
        if !p0.contains(s.last()) {
            assert forall|a: int| 0 <= a < f.len() implies exists|ia: int| 0 <= ia < s.len() && s[ia] == #[trigger] f[a] by {
                if a < f0.len() {
                    assert(f[a] == f0[a]);
                } else {
                    assert(s[s.len() - 1] == f[a]);
                }
            }
            assert forall|a: int, b: int| 0 <= a < b < f.len()
                implies exists|ia: int, ib: int| 0 <= ia < ib < s.len() && s[ia] == #[trigger] f[a] && s[ib] == #[trigger] f[b] by {
                assert(f[a] == f0[a]);
                if b < f0.len() {
                    assert(f[b] == f0[b]);
                } else {
                    let ia = choose|ia: int| 0 <= ia < s0.len() && s0[ia] == f0[a];
                    assert(s[ia] == f[a] && s[s.len() - 1] == f[b]);
                }
            }
        }
    }
}

/// The dependency-ordered keys come entity by entity, in the order's order.
pub proof fn law_sorted_follows_order(keys: Seq<KeyView>, order: Seq<Seq<char>>)
    ensures
        forall|i: int, j: int| 0 <= i < j < sorted_by_order(keys, order).len()
            ==> not_after(order, #[trigger] sorted_by_order(keys, order)[i].0, #[trigger] sorted_by_order(keys, order)[j].0),
    decreases order.len(),
{
    if order.len() > 0 {
        law_sorted_follows_order(keys, order.drop_last());
        let o0 = order.drop_last();
        let a = sorted_by_order(keys, o0);
        let pred = |q: KeyView| q.0 == order.last();
        let b = keys.filter(pred);
        let s = sorted_by_order(keys, order);
        assert(s == a + b);
        keys.filter_lemma(pred);
        let last = order.len() - 1;
        assert forall|i: int, j: int| 0 <= i < j < s.len() implies not_after(order, #[trigger] s[i].0, #[trigger] s[j].0) by {
            if j < a.len() {
                assert(s[i] == a[i] && s[j] == a[j]);
                assert(not_after(o0, a[i].0, a[j].0));
                let (oa, ob) = choose|oa: int, ob: int| 0 <= oa <= ob < o0.len() && #[trigger] o0[oa] == a[i].0 && #[trigger] o0[ob] == a[j].0;
                assert(order[oa] == s[i].0 && order[ob] == s[j].0);
            } else if i < a.len() {
                assert(s[i] == a[i]);
                assert(b[j - a.len()] == s[j]);
                assert(pred(b[j - a.len()]));
                assert(a.contains(a[i]));
                law_sorted_keeps_ordered_entities(keys, o0, a[i]);
                let oa = choose|oa: int| 0 <= oa < o0.len() && o0[oa] == a[i].0;
                assert(order[oa] == s[i].0 && order[last] == s[j].0);
            } else {
                assert(b[i - a.len()] == s[i]);
                assert(b[j - a.len()] == s[j]);
                assert(pred(b[i - a.len()]));
                assert(pred(b[j - a.len()]));
                assert(order[last] == s[i].0 && order[last] == s[j].0);
            }
        }
    }
}

/// The keys of entity `e`, in order.
pub open spec fn keys_of(keys: Seq<KeyView>, e: Seq<char>) -> Seq<KeyView> {
    keys.filter(|k: KeyView| k.0 == e)
}

/// Grouping by entity gives each entity that has keys the group of all its
/// keys, in order, and no group to any other entity.
pub proof fn law_groups_hold_each_entitys_keys(keys: Seq<KeyView>, e: Seq<char>)
    ensures
        assoc_get(group_by_entity(keys), e) == if keys_of(keys, e).len() > 0 {
            Some(keys_of(keys, e))
        } else {
            None::<Seq<KeyView>>
        },
    decreases keys.len(),
{
    reveal(Seq::filter);
    if keys.len() > 0 {
        law_groups_hold_each_entitys_keys(keys.drop_last(), e);
        let g0 = group_by_entity(keys.drop_last());
        let x = keys.last();
        let nv = match assoc_get(g0, x.0) {
            None => seq![x],
            Some(l) => l.push(x),
        };
        crate::queue::patch::lemma_first_pos(g0, x.0, 0);
        assert(group_add(g0, x.0, x) == assoc_put(g0, x.0, nv));
        crate::queue::patch::law_assoc_put_get(g0, x.0, nv, e);
        assert(keys.drop_last() =~= keys.subrange(0, keys.len() - 1));
        if x.0 == e {
            law_groups_hold_each_entitys_keys(keys.drop_last(), x.0);
            assert(keys_of(keys, e) == keys_of(keys.drop_last(), e).push(x));
            if keys_of(keys.drop_last(), e).len() == 0 {
                assert(keys_of(keys.drop_last(), e).push(x) =~= seq![x]);
            }
        } else {
            assert(keys_of(keys, e) == keys_of(keys.drop_last(), e));
        }
    }
}

/// Adding to a group keeps the groups' entities in place and appends a new
/// group for a new entity.
proof fn lemma_group_add_entities<V>(g: Seq<(Seq<char>, Seq<V>)>, k: Seq<char>, v: V)
    ensures
        ({
            let n = group_add(g, k, v);
            &&& n.len() == g.len() || (n.len() == g.len() + 1 && n[g.len() as int].0 == k)
            &&& forall|i: int| 0 <= i < g.len() ==> (#[trigger] n[i]).0 == g[i].0
        }),
{
    crate::queue::patch::lemma_first_pos(g, k, 0);
}

/// The groups come in the order in which their entities first appear.
proof fn lemma_groups_in_key_order(keys: Seq<KeyView>)
    ensures
        forall|g: int| 0 <= g < group_by_entity(keys).len()
            ==> exists|a: int| 0 <= a < keys.len() && keys[a].0 == (#[trigger] group_by_entity(keys)[g]).0,
        forall|g1: int, g2: int| 0 <= g1 < g2 < group_by_entity(keys).len()
            ==> exists|a: int, b: int| 0 <= a < b < keys.len()
                && keys[a].0 == (#[trigger] group_by_entity(keys)[g1]).0
                && keys[b].0 == (#[trigger] group_by_entity(keys)[g2]).0,
    decreases keys.len(),
{
    if keys.len() > 0 {
        let k0 = keys.drop_last();
        lemma_groups_in_key_order(k0);
        let g0 = group_by_entity(k0);
        let x = keys.last();
        let g = group_by_entity(keys);
        lemma_group_add_entities(g0, x.0, x);
        assert forall|i: int| 0 <= i < g.len()
            implies exists|a: int| 0 <= a < keys.len() && keys[a].0 == (#[trigger] g[i]).0 by {
            if i < g0.len() {
                assert(g[i].0 == g0[i].0);
                let a = choose|a: int| 0 <= a < k0.len() && k0[a].0 == g0[i].0;
                assert(keys[a] == k0[a]);
            } else {
                assert(keys[keys.len() - 1] == x);
            }
        }
        assert forall|g1: int, g2: int| 0 <= g1 < g2 < g.len()
            implies exists|a: int, b: int| 0 <= a < b < keys.len()
                && keys[a].0 == (#[trigger] g[g1]).0 && keys[b].0 == (#[trigger] g[g2]).0 by {
            assert(g[g1].0 == g0[g1].0);
            if g2 < g0.len() {
                assert(g[g2].0 == g0[g2].0);
                let (a, b) = choose|a: int, b: int| 0 <= a < b < k0.len() && k0[a].0 == g0[g1].0 && k0[b].0 == g0[g2].0;
                assert(keys[a] == k0[a] && keys[b] == k0[b]);
            } else {
                let a = choose|a: int| 0 <= a < k0.len() && k0[a].0 == g0[g1].0;
                assert(keys[a] == k0[a]);
                assert(keys[keys.len() - 1] == x);
            }
        }
    }
}

/// A round of a flush hands out every pending key whose entity is in the
/// dependency order and that was not processed yet, exactly once, in
/// dependency order (no key of an entity before a key of an entity listed
/// earlier), each in the group of its entity (all of an entity's keys in one
/// group, the groups in dependency order), and counts exactly those as processed; no other key is handed out.
pub proof fn law_round_refreshes_every_pending_key(
    pending: Seq<KeyView>,
    processed: Seq<KeyView>,
    order: Seq<Seq<char>>,
)
    ensures
        ({
            let (fresh, p) = batch_fold(processed, sorted_by_order(pending, order));
            let groups = group_by_entity(fresh);
            &&& forall|k: KeyView| fresh.contains(k) <==> (pending.contains(k) && order.contains(k.0) && !processed.contains(k))
            &&& fresh.no_duplicates()
            &&& p == processed + fresh
            &&& forall|a: int, b: int| 0 <= a < b < fresh.len() ==> not_after(order, #[trigger] fresh[a].0, #[trigger] fresh[b].0)
            &&& forall|g1: int, g2: int| 0 <= g1 < g2 < groups.len() ==> not_after(order, (#[trigger] groups[g1]).0, (#[trigger] groups[g2]).0)
            &&& forall|e: Seq<char>| #[trigger] assoc_get(groups, e) == if keys_of(fresh, e).len() > 0 {
                Some(keys_of(fresh, e))
            } else {
                None::<Seq<KeyView>>
            }
        }),
{
    let s = sorted_by_order(pending, order);
    law_batch_takes_every_new_key(processed, s);
    let fresh = batch_fold(processed, s).0;
    assert forall|k: KeyView| fresh.contains(k) <==> (pending.contains(k) && order.contains(k.0) && !processed.contains(k)) by {
        law_sorted_keeps_ordered_entities(pending, order, k);
    }
    lemma_batch_in_order(processed, s);
    law_sorted_follows_order(pending, order);
    assert forall|a: int, b: int| 0 <= a < b < fresh.len() implies not_after(order, #[trigger] fresh[a].0, #[trigger] fresh[b].0) by {
        let (ia, ib) = choose|ia: int, ib: int| 0 <= ia < ib < s.len() && s[ia] == fresh[a] && s[ib] == fresh[b];
        assert(not_after(order, s[ia].0, s[ib].0));
    }
    lemma_groups_in_key_order(fresh);
    let groups = group_by_entity(fresh);
    assert forall|g1: int, g2: int| 0 <= g1 < g2 < groups.len() implies not_after(order, (#[trigger] groups[g1]).0, (#[trigger] groups[g2]).0) by {
        let (a, b) = choose|a: int, b: int| 0 <= a < b < fresh.len() && fresh[a].0 == groups[g1].0 && fresh[b].0 == groups[g2].0;
        assert(not_after(order, fresh[a].0, fresh[b].0));
    }
    assert forall|e: Seq<char>| #[trigger] assoc_get(group_by_entity(fresh), e) == if keys_of(fresh, e).len() > 0 {
        Some(keys_of(fresh, e))
    } else {
        None::<Seq<KeyView>>
    } by {
        law_groups_hold_each_entitys_keys(fresh, e);
    }
}

fn group_add_exec(g: &mut Vec<(String, Vec<RefreshKey>)>, key: RefreshKey)
    ensures
        groups_view(final(g)@) == group_add(groups_view(old(g)@), key@.0, key@),
{
    let ghost g0 = groups_view(g@);
    let mut p: usize = 0;
    while p < g.len()
        invariant
            p <= g@.len(),
            g0 == groups_view(g@),
            g@ == old(g)@,
            crate::queue::patch::first_pos(g0, key@.0, 0) == crate::queue::patch::first_pos(
                g0,
                key@.0,
                p as int,
            ),
        decreases g.len() - p,
    {
        if g[p].0 == key.entity {
            proof {
                crate::queue::patch::lemma_first_pos(g0, key@.0, 0);
            }
            let (name, mut keys) = g.remove(p);
            let ghost kv0 = key_views(keys@);
            keys.push(key);
            assert(key_views(keys@) =~= kv0.push(key@));
            g.insert(p, (name, keys));
            assert(groups_view(g@) =~= g0.update(p as int, (key@.0, kv0.push(key@))));
            return;
        }
        p += 1;
    }
    let ghost kv = key@;
    let name = key.entity.clone();
    let mut keys: Vec<RefreshKey> = Vec::new();
    keys.push(key);
    assert(key_views(keys@) =~= seq![kv]);
    g.push((name, keys));
    assert(groups_view(g@) =~= g0.push((kv.0, seq![kv])));
}

impl FlushState {
    /// Start a flush: take the transaction's queue and, unless it was empty,
    /// its patch map. `None` when there is nothing to refresh.
    pub fn begin(tx: &mut TxState) -> (r: Option<FlushState>)
        ensures
            old(tx)@.queue.len() == 0 <==> r is None,
            r is None ==> final(tx)@ == old(tx)@,
            r matches Some(f) ==> {
                &&& f.pending@ == old(tx)@.queue
                &&& f.patches@ == old(tx)@.patches
                &&& f.processed@ == Seq::<KeyView>::empty()
                &&& f.iteration == 1
                &&& final(tx)@ == (crate::queue::xact::TxView {
                    queue: Seq::empty(),
                    patches: Seq::empty(),
                    ..old(tx)@
                })
            },
    {
        if tx.queue.is_empty() {
            return None;
        }
        let pending = take_queue_snapshot(&mut tx.queue);
        let patches = take_patch_snapshot(&mut tx.patches);
        Some(FlushState { pending, processed: RefreshQueue::new(), patches, iteration: 1 })
    }

    /// Whether a round has keys to refresh.
    pub fn has_pending(&self) -> (r: bool)
        ensures
            r == (self.pending@.len() > 0),
    {
        !self.pending.is_empty()
    }

    /// Take the pending keys for a round: in dependency order (keys of
    /// entities outside the graph are dropped), without those already
    /// processed, grouped by entity. They count as processed from now on.
    pub fn next_batch(&mut self, graph: &EntityDepGraph) -> (groups: Vec<(String, Vec<RefreshKey>)>)
        ensures
            ({
                let s = sorted_by_order(old(self).pending@, string_seq(graph.topo_order@));
                let (fresh, p) = batch_fold(old(self).processed@, s);
                &&& groups_view(groups@) == group_by_entity(fresh)
                &&& final(self).processed@ == p
                &&& final(self).pending@ == Seq::<KeyView>::empty()
                &&& final(self).patches@ == old(self).patches@
                &&& final(self).iteration == old(self).iteration
            }),
    {
        let batch = self.pending.take();
        let keys = batch.to_vec();
        let sorted = graph.sort_keys(keys);
        let ghost s = key_views(sorted@);
        let ghost p0 = self.processed@;
        let mut groups: Vec<(String, Vec<RefreshKey>)> = Vec::new();
        assert(s.take(0) =~= Seq::<KeyView>::empty());
        assert(groups_view(groups@) =~= group_by_entity(batch_fold(p0, s.take(0)).0));
        let mut i: usize = 0;
        while i < sorted.len()
            invariant
                i <= sorted@.len(),
                s == key_views(sorted@),
                self.pending@ == Seq::<KeyView>::empty(),
                self.patches@ == old(self).patches@,
                self.iteration == old(self).iteration,
                self.processed@ == batch_fold(p0, s.take(i as int)).1,
                groups_view(groups@) == group_by_entity(batch_fold(p0, s.take(i as int)).0),
            decreases sorted.len() - i,
        {
            proof {
                assert(s.take(i + 1).drop_last() =~= s.take(i as int));
                assert(s.take(i + 1).last() == s[i as int]);
            }
            let key = sorted[i].duplicate();
            let k2 = sorted[i].duplicate();
            let ghost prev = batch_fold(p0, s.take(i as int));
            assert(batch_fold(p0, s.take(i + 1)) == if prev.1.contains(s[i as int]) {
                prev
            } else {
                (prev.0.push(s[i as int]), prev.1.push(s[i as int]))
            });
            if self.processed.insert(key) {
                group_add_exec(&mut groups, k2);
                assert(prev.0.push(s[i as int]).drop_last() =~= prev.0);
            }
            i += 1;
        }
        assert(s.take(sorted@.len() as int) =~= s);
        groups
    }

    /// Split an entity's keys into those with a usable direct patch chain
    /// (when the fast path is enabled; never a DISTINCT ON key), returned
    /// with their chains and primary keys, and those to recompute.
    pub fn split_patched(&self, entity_keys: Vec<RefreshKey>, apply_enabled: bool) -> (r: (
        Vec<(i64, Vec<PatchEntry>)>,
        Vec<i64>,
        Vec<RefreshKey>,
    ))
        ensures
            r.0@.len() == r.1@.len(),
            forall|j: int| 0 <= j < r.0@.len() ==> #[trigger] r.0@[j].0 == r.1@[j],
            split_ok(self.patches@, key_views(entity_keys@), apply_enabled, r.0@.map_values(
                |e: (i64, Vec<PatchEntry>)| (e.0, chain_view(e.1@)),
            ), key_views(r.2@)),
    {
        let ghost kv = key_views(entity_keys@);
        let mut patched: Vec<(i64, Vec<PatchEntry>)> = Vec::new();
        let mut applied: Vec<i64> = Vec::new();
        let mut recompute: Vec<RefreshKey> = Vec::new();
        let mut i: usize = 0;
        assert(kv.take(0) =~= Seq::<KeyView>::empty());
        while i < entity_keys.len()
            invariant
                i <= entity_keys@.len(),
                kv == key_views(entity_keys@),
                patched@.len() == applied@.len(),
                forall|j: int| 0 <= j < patched@.len() ==> #[trigger] patched@[j].0 == applied@[j],
                split_ok(self.patches@, kv.take(i as int), apply_enabled, patched@.map_values(
                    |e: (i64, Vec<PatchEntry>)| (e.0, chain_view(e.1@)),
                ), key_views(recompute@)),
            decreases entity_keys.len() - i,
        {
            let key = &entity_keys[i];
            proof {
                assert(kv.take(i + 1).drop_last() =~= kv.take(i as int));
                assert(kv.take(i + 1).last() == key@);
            }
            let ghost pv = patched@.map_values(|e: (i64, Vec<PatchEntry>)| (e.0, chain_view(e.1@)));
            let ghost rv = key_views(recompute@);
            let mut chain: Option<Vec<PatchEntry>> = None;
            if apply_enabled && !key.is_dedup() {
                match self.patches.get(key) {
                    Some(PatchState::Direct(c)) => {
                        chain = Some(duplicate_chain(c));
                    },
                    _ => {},
                }
            }
            match chain {
                Some(c) => {
                    let ghost cv = chain_view(c@);
                    patched.push((key.pk, c));
                    applied.push(key.pk);
                    assert(patched@.map_values(|e: (i64, Vec<PatchEntry>)| (e.0, chain_view(e.1@)))
                        =~= pv.push((key@.1, cv)));
                    assert(pv.push((key@.1, cv)).drop_last() =~= pv);
                },
                None => {
                    recompute.push(key.duplicate());
                    assert(key_views(recompute@) =~= rv.push(key@));
                    assert(rv.push(key@).drop_last() =~= rv);
                },
            }
            i += 1;
        }
        assert(kv.take(entity_keys@.len() as int) =~= kv);
        (patched, applied, recompute)
    }

    /// Parents discovered from a recomputed child: each loses any patch (its
    /// whole document changes) and is pending unless already processed.
    pub fn note_recomputed_parents(&mut self, parents: Vec<RefreshKey>)
        ensures
            final(self).processed@ == old(self).processed@,
            final(self).iteration == old(self).iteration,
            final(self).pending@ == pend_all(old(self).pending@, old(self).processed@, key_views(parents@)),
            final(self).patches@ == poison_all(old(self).patches@, key_views(parents@)),
    {
        let ghost kv = key_views(parents@);
        let ghost q0 = self.pending@;
        let ghost m0 = self.patches@;
        let ghost proc = self.processed@;
        let mut i: usize = 0;
        assert(kv.take(0) =~= Seq::<KeyView>::empty());
        while i < parents.len()
            invariant
                i <= parents@.len(),
                kv == key_views(parents@),
                self.processed@ == proc,
                self.iteration == old(self).iteration,
                self.pending@ == pend_all(q0, proc, kv.take(i as int)),
                self.patches@ == poison_all(m0, kv.take(i as int)),
            decreases parents.len() - i,
        {
            proof {
                assert(kv.take(i + 1).drop_last() =~= kv.take(i as int));
                assert(kv.take(i + 1).last() == kv[i as int]);
            }
            poison_into(&mut self.patches, parents[i].duplicate());
            if !self.processed.contains(&parents[i]) {
                self.pending.insert(parents[i].duplicate());
            }
            i += 1;
        }
        assert(kv.take(parents@.len() as int) =~= kv);
    }

    /// The patch chain recorded for `child`, if it is a usable direct chain.
    pub fn child_chain(&self, child: &RefreshKey) -> (r: Option<Vec<PatchEntry>>)
        ensures
            match assoc_get(self.patches@, child@) {
                Some(PatchView::Direct(c)) => r matches Some(v) && chain_view(v@) == c,
                _ => r is None,
            },
    {
        match self.patches.get(child) {
            Some(PatchState::Direct(c)) => Some(duplicate_chain(c)),
            _ => None,
        }
    }

    /// A parent of a directly patched child: it takes the chain derived for
    /// it, or is poisoned when none could be derived; it is pending unless
    /// already processed.
    pub fn note_patched_parent(&mut self, parent: RefreshKey, derived: Option<Vec<PatchEntry>>)
        ensures
            final(self).processed@ == old(self).processed@,
            final(self).iteration == old(self).iteration,
            final(self).pending@ == if old(self).processed@.contains(parent@) {
                old(self).pending@
            } else {
                queue_insert(old(self).pending@, parent@)
            },
            final(self).patches@ == match derived {
                Some(c) => spec_merge_chain(old(self).patches@, parent@, chain_view(c@)),
                None => assoc_put(old(self).patches@, parent@, PatchView::Poisoned),
            },
    {
        let is_processed = self.processed.contains(&parent);
        let copy = parent.duplicate();
        match derived {
            Some(c) => merge_chain_into(&mut self.patches, parent, c),
            None => poison_into(&mut self.patches, parent),
        }
        if !is_processed {
            self.pending.insert(copy);
        }
    }

    /// Close a round; more rounds than `max_depth` is an error.
    pub fn end_iteration(&mut self, max_depth: usize) -> (r: TViewResult<()>)
        ensures
            final(self).iteration == old(self).iteration.saturating_add(1),
            final(self).pending@ == old(self).pending@,
            final(self).processed@ == old(self).processed@,
            final(self).patches@ == old(self).patches@,
            final(self).iteration > max_depth ==> (r matches Err(
                TViewError::PropagationDepthExceeded { max_depth: m, processed: n },
            ) && m == max_depth && n == old(self).processed@.len()),
            final(self).iteration <= max_depth ==> r is Ok,
    {
        self.iteration = self.iteration.saturating_add(1);
        if self.iteration > max_depth {
            return Err(
                TViewError::PropagationDepthExceeded {
                    max_depth,
                    processed: self.processed.len(),
                },
            );
        }
        Ok(())
    }

    /// After a round's pending keys are done: keys enqueued meanwhile by
    /// triggers (and their patches) join the flush. `false` when there were
    /// none and the flush is complete.
    pub fn absorb_late(&mut self, tx: &mut TxState) -> (more: bool)
        ensures
            more == (old(tx)@.queue.len() > 0),
            !more ==> final(tx)@ == old(tx)@ && final(self).pending@ == old(self).pending@
                && final(self).patches@ == old(self).patches@,
            more ==> {
                &&& final(self).pending@ == old(tx)@.queue
                &&& final(self).patches@ == put_all(old(self).patches@, old(tx)@.patches)
                &&& final(tx)@ == (crate::queue::xact::TxView {
                    queue: Seq::empty(),
                    patches: Seq::empty(),
                    ..old(tx)@
                })
            },
            final(self).processed@ == old(self).processed@,
            final(self).iteration == old(self).iteration,
    {
        if tx.queue.is_empty() {
            return false;
        }
        let late = take_queue_snapshot(&mut tx.queue);
        let snap = take_patch_snapshot(&mut tx.patches);
        let ghost sv = snap@;
        let ghost m0 = self.patches@;
        let mut entries = snap.into_entries();
        let ghost ev = entries@.map_values(|e: (RefreshKey, PatchState)| (e.0@, crate::queue::patch::state_view(e.1)));
        assert(ev == sv);
        while entries.len() > 0
            invariant
                self.processed@ == old(self).processed@,
                self.iteration == old(self).iteration,
                put_all(self.patches@, entries@.map_values(
                    |e: (RefreshKey, PatchState)| (e.0@, crate::queue::patch::state_view(e.1)),
                )) == put_all(m0, sv),
            decreases entries.len(),
        {
            let ghost rv = entries@.map_values(
                |e: (RefreshKey, PatchState)| (e.0@, crate::queue::patch::state_view(e.1)),
            );
            let (k, v) = entries.remove(0);
            assert(entries@.map_values(
                |e: (RefreshKey, PatchState)| (e.0@, crate::queue::patch::state_view(e.1)),
            ) =~= rv.drop_first());
            self.patches.put(k, v);
        }
        assert(entries@.map_values(
            |e: (RefreshKey, PatchState)| (e.0@, crate::queue::patch::state_view(e.1)),
        ) =~= Seq::<(KeyView, PatchView)>::empty());
        self.pending = late;
        true
    }

    /// End the flush: the number of processed keys per entity (groups in
    /// order of first appearance), with the metrics updated by the processed
    /// count and the rounds taken.
    pub fn finish(self, metrics: &mut MetricsState, timer: &RefreshTimer) -> (counts: Vec<(String, i64)>)
        requires
            self.iteration >= 1,
        ensures
            exists|ns: u128| *final(metrics) == #[trigger] flush_metrics(
                *old(metrics),
                self.processed@.len(),
                self.iteration,
                ns,
            ),
            counts@.map_values(|c: (String, i64)| c.0@) == group_by_entity(self.processed@).map_values(
                |g: (Seq<char>, Seq<KeyView>)| g.0,
            ),
            forall|j: int|
                0 <= j < counts@.len() ==> #[trigger] counts@[j].1 == clamp_count(
                    group_by_entity(self.processed@)[j].1.len(),
                ),
    {
        let keys = self.processed.to_vec();
        let mut groups: Vec<(String, Vec<RefreshKey>)> = Vec::new();
        let ghost kv = key_views(keys@);
        assert(kv.take(0) =~= Seq::<KeyView>::empty());
        let mut i: usize = 0;
        while i < keys.len()
            invariant
                i <= keys@.len(),
                kv == key_views(keys@),
                groups_view(groups@) == group_by_entity(kv.take(i as int)),
                keys@.len() == self.processed@.len(),
            decreases keys.len() - i,
        {
            proof {
                assert(kv.take(i + 1).drop_last() =~= kv.take(i as int));
                assert(kv.take(i + 1).last() == kv[i as int]);
            }
            group_add_exec(&mut groups, keys[i].duplicate());
            i += 1;
        }
        assert(kv.take(keys@.len() as int) =~= kv);
        let mut counts: Vec<(String, i64)> = Vec::new();
        let mut j: usize = 0;
        while j < groups.len()
            invariant
                j <= groups@.len(),
                counts@.len() == j,
                groups_view(groups@) == group_by_entity(self.processed@),
                forall|q: int|
                    0 <= q < j ==> #[trigger] counts@[q].0@ == groups@[q].0@ && counts@[q].1
                        == clamp_count(groups@[q].1@.len()),
            decreases groups.len() - j,
        {
            let n = groups[j].1.len();
            let cnt: i64 = if (n as u64) > 9_223_372_036_854_775_807u64 {
                9_223_372_036_854_775_807i64
            } else {
                n as i64
            };
            counts.push((groups[j].0.clone(), cnt));
            j += 1;
        }
        proof {
            assert(counts@.len() == groups@.len());
            assert(j == groups@.len());
            assert forall|q: int| 0 <= q < counts@.len() implies #[trigger] counts@[q].1 == clamp_count(
                group_by_entity(self.processed@)[q].1.len(),
            ) by {
                assert(q < j);
                assert(counts@[q].0@ == groups@[q].0@);
                assert(counts@[q].1 == clamp_count(groups@[q].1@.len()));
                assert(groups_view(groups@)[q].1 == key_views(groups@[q].1@));
                assert(key_views(groups@[q].1@).len() == groups@[q].1@.len());
            }
            assert(counts@.map_values(|c: (String, i64)| c.0@) =~= group_by_entity(self.processed@).map_values(
                |g: (Seq<char>, Seq<KeyView>)| g.0,
            ));
        }
        let n = self.processed.len();
        let rounds = self.iteration - 1;
        record_refresh_complete(metrics, n, rounds, timer);
        proof {
            let m0 = *old(metrics);
            let ns = choose|ns: u128| *metrics == #[trigger] after_refresh(m0, n, rounds, ns);
            assert(*metrics == flush_metrics(*old(metrics), self.processed@.len(), self.iteration, ns));
        }
        counts
    }
}

/// The metrics after a flush that processed `processed` keys and ended in
/// round `iteration`, having taken `ns` nanoseconds.
pub open spec fn flush_metrics(m: MetricsState, processed: nat, iteration: usize, ns: u128) -> MetricsState {
    after_refresh(m, processed as usize, (iteration - 1) as usize, ns)
}

/// A count as an `i64`, at most `i64::MAX`.
pub open spec fn clamp_count(n: nat) -> i64 {
    if n > 9_223_372_036_854_775_807 {
        9_223_372_036_854_775_807i64
    } else {
        n as i64
    }
}

/// The split of `keys` into direct patches and recomputes.
pub open spec fn split_ok(
    m: MapView,
    keys: Seq<KeyView>,
    apply_enabled: bool,
    patched: Seq<(i64, Seq<EntryView>)>,
    recompute: Seq<KeyView>,
) -> bool
    decreases keys.len(),
{
    if keys.len() == 0 {
        patched.len() == 0 && recompute.len() == 0
    } else {
        let k = keys.last();
        match (if apply_enabled && k.2 is None { assoc_get(m, k) } else { None }) {
            Some(PatchView::Direct(c)) => patched.len() > 0 && patched.last() == (k.1, c)
                && split_ok(m, keys.drop_last(), apply_enabled, patched.drop_last(), recompute),
            _ => recompute.len() > 0 && recompute.last() == k && split_ok(
                m,
                keys.drop_last(),
                apply_enabled,
                patched,
                recompute.drop_last(),
            ),
        }
    }
}

/// `q` after each of `keys` not in `proc` is enqueued.
pub open spec fn pend_all(q: Seq<KeyView>, proc: Seq<KeyView>, keys: Seq<KeyView>) -> Seq<KeyView>
    decreases keys.len(),
{
    if keys.len() == 0 {
        q
    } else {
        let r = pend_all(q, proc, keys.drop_last());
        if proc.contains(keys.last()) {
            r
        } else {
            queue_insert(r, keys.last())
        }
    }
}

/// `m` with each of `keys` poisoned.
pub open spec fn poison_all(m: MapView, keys: Seq<KeyView>) -> MapView
    decreases keys.len(),
{
    if keys.len() == 0 {
        m
    } else {
        assoc_put(poison_all(m, keys.drop_last()), keys.last(), PatchView::Poisoned)
    }
}

/// `m` with each entry of `e`, in order, put into it.
pub open spec fn put_all(m: MapView, e: MapView) -> MapView
    decreases e.len(),
{
    if e.len() == 0 {
        m
    } else {
        put_all(assoc_put(m, e[0].0, e[0].1), e.drop_first())
    }
}

/// Move the fallback keys of an entity from the patched set to the
/// recompute list: their rows do not exist yet, so a patch cannot apply.
pub fn apply_fallbacks(entity: &str, fallback: &Vec<i64>, applied: &mut Vec<i64>, recompute: &mut Vec<RefreshKey>)
    ensures
        final(applied)@ == old(applied)@.filter(|pk: i64| !fallback@.contains(pk)),
        key_views(final(recompute)@) == key_views(old(recompute)@) + fallback@.map_values(
            |pk: i64| (entity@, pk, None::<Seq<char>>),
        ),
{
    let kept = crate::refresh::direct::fallback_pks(applied, fallback);
    *applied = kept;
    let mut i: usize = 0;
    let ghost r0 = key_views(recompute@);
    while i < fallback.len()
        invariant
            i <= fallback@.len(),
            key_views(recompute@) == r0 + fallback@.take(i as int).map_values(
                |pk: i64| (entity@, pk, None::<Seq<char>>),
            ),
        decreases fallback.len() - i,
    {
        let ghost before = key_views(recompute@);
        recompute.push(RefreshKey::pk(entity, fallback[i]));
        assert(key_views(recompute@) =~= before.push((entity@, fallback@[i as int], None::<Seq<char>>)));
        assert(fallback@.take(i + 1).map_values(|pk: i64| (entity@, pk, None::<Seq<char>>)) =~= fallback@.take(
            i as int,
        ).map_values(|pk: i64| (entity@, pk, None::<Seq<char>>)).push(
            (entity@, fallback@[i as int], None::<Seq<char>>),
        ));
        i += 1;
    }
    assert(fallback@.take(fallback@.len() as int) =~= fallback@);
}

/// The primary keys of the keys to recompute in bulk (DISTINCT ON keys have none).
pub fn bulk_pks(keys: &Vec<RefreshKey>) -> (pks: Vec<i64>)
    ensures
        pks@ == key_views(keys@).filter(|k: KeyView| k.2 is None).map_values(|k: KeyView| k.1),
{
    let ghost kv = key_views(keys@);
    let ghost pred = |k: KeyView| k.2 is None;
    let mut pks: Vec<i64> = Vec::new();
    assert(kv.take(0).filter(pred) =~= Seq::<KeyView>::empty()) by {
        reveal(Seq::filter);
    }
    let mut i: usize = 0;
    while i < keys.len()
        invariant
            i <= keys@.len(),
            kv == key_views(keys@),
            pred == (|k: KeyView| k.2 is None),
            pks@ == kv.take(i as int).filter(pred).map_values(|k: KeyView| k.1),
        decreases keys.len() - i,
    {
        proof {
            reveal(Seq::filter);
            assert(kv.take(i + 1).drop_last() =~= kv.take(i as int));
            assert(kv.take(i + 1).last() == kv[i as int]);
        }
        let ghost before = kv.take(i as int).filter(pred);
        if !keys[i].is_dedup() {
            pks.push(keys[i].pk);
            assert(kv.take(i + 1).filter(pred) == before.push(kv[i as int]));
            assert(pks@ =~= before.push(kv[i as int]).map_values(|k: KeyView| k.1));
        } else {
            assert(kv.take(i + 1).filter(pred) == before);
        }
        i += 1;
    }
    assert(kv.take(keys@.len() as int) =~= kv);
    pks
}

} // verus!
