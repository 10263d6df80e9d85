//! The walk from a view to the tables it reads. Each step asks the catalog
//! for the objects a view depends on; the walk itself (breadth first, with a
//! depth limit, each view asked once) is decided here.
use vstd::prelude::*;
use crate::config::MAX_DEPENDENCY_DEPTH;
use crate::error::TViewError;
use crate::text::{decimal, decimal_string, str_eq};

verus! {

/// An object a view depends on: its OID, the depth at which it was found,
/// and its `relkind` (`None` when it is not a relation).
#[derive(Debug, Clone)]
pub struct DependencyNode {
    pub oid: u32,
    pub depth: usize,
    pub relkind: Option<String>,
}

pub type NodeView = (u32, usize, Option<Seq<char>>);

pub open spec fn node_view(n: DependencyNode) -> NodeView {
    (n.oid, n.depth, match n.relkind {
        Some(k) => Some(k@),
        None => None,
    })
}

pub open spec fn nodes_view(s: Seq<DependencyNode>) -> Seq<NodeView> {
    s.map_values(|n: DependencyNode| node_view(n))
}

pub open spec fn deps_view(s: Seq<(u32, Option<String>)>) -> Seq<(u32, Option<Seq<char>>)> {
    s.map_values(|d: (u32, Option<String>)| (d.0, match d.1 {
        Some(k) => Some(k@),
        None => None,
    }))
}

/// The state of a walk: the views still to ask about (with their depth),
/// those already asked about, and every dependency found so far.
#[derive(Debug, Clone)]
pub struct DependencyWalk {
    pub queue: Vec<(u32, usize)>,
    pub visited: Vec<u32>,
    pub nodes: Vec<DependencyNode>,
}

/// What the front of the queue yields: how many entries are consumed, and
/// either nothing (the walk is over), a view to ask about, or the depth that
/// broke the limit.
pub open spec fn scan_queue(q: Seq<(u32, usize)>, visited: Seq<u32>) -> (int, Option<Result<(u32, usize), usize>>)
    decreases q.len(),
{
    if q.len() == 0 {
        (0, None)
    } else if q[0].1 > MAX_DEPENDENCY_DEPTH {
        (1, Some(Err(q[0].1)))
    } else if visited.contains(q[0].0) {
        let (n, o) = scan_queue(q.drop_first(), visited);
        (n + 1, o)
    } else {
        (1, Some(Ok(q[0])))
    }
}

/// The views among `deps`, to be asked about at depth `d`.
pub open spec fn view_children(deps: Seq<(u32, Option<Seq<char>>)>, d: int) -> Seq<(u32, usize)>
    decreases deps.len(),
{
    if deps.len() == 0 {
        Seq::empty()
    } else {
        view_children(deps.drop_last(), d) + if deps.last().1 == Some("v"@) {
            seq![(deps.last().0, d as usize)]
        } else {
            Seq::empty()
        }
    }
}

impl DependencyWalk {
    /// A walk that starts at the view `view_oid`.
    pub fn new(view_oid: u32) -> (w: Self)
        ensures
            w.queue@ == seq![(view_oid, 0usize)],
            w.visited@ == Seq::<u32>::empty(),
            w.nodes@ == Seq::<DependencyNode>::empty(),
    {
        let mut queue: Vec<(u32, usize)> = Vec::new();
        queue.push((view_oid, 0));
        DependencyWalk { queue, visited: Vec::new(), nodes: Vec::new() }
    }

    /// The next view to ask the catalog about: `Ok(None)` when the walk is
    /// over; an error when a view lies deeper than the limit. Views already
    /// asked about are skipped.
    pub fn next(&mut self) -> (r: Result<Option<(u32, usize)>, TViewError>)
        ensures
            ({
                let (n, o) = scan_queue(old(self).queue@, old(self).visited@);
                &&& final(self).queue@ == old(self).queue@.skip(n)
                &&& final(self).visited@ == old(self).visited@
                &&& final(self).nodes@ == old(self).nodes@
                &&& match o {
                    None => r matches Ok(None),
                    Some(Ok(e)) => r == Ok::<Option<(u32, usize)>, TViewError>(Some(e)),
                    Some(Err(d)) => r matches Err(TViewError::DependencyDepthExceeded { depth, max_depth })
                        && depth == d && max_depth == MAX_DEPENDENCY_DEPTH,
                }
            }),
    {
        let ghost q0 = self.queue@;
        let qlen = self.queue.len();
        assert(q0.len() == qlen);
        assert(q0.skip(0) =~= q0);
        let mut k: usize = 0;
        while self.queue.len() > 0
            invariant
                self.queue@ == q0.skip(k as int),
                k <= q0.len(),
                q0.len() <= usize::MAX,
                self.visited@ == old(self).visited@,
                self.nodes@ == old(self).nodes@,
                q0 == old(self).queue@,
                ({
                    let (n, o) = scan_queue(q0, self.visited@);
                    let (n2, o2) = scan_queue(q0.skip(k as int), self.visited@);
                    n == n2 + k && o == o2
                }),
            decreases self.queue.len(),
        {
            assert(self.queue@.len() == q0.len() - k);
            let (oid, depth) = self.queue.remove(0);
            assert(q0.skip(k as int).drop_first() =~= q0.skip(k + 1));
            k += 1;
            if depth > MAX_DEPENDENCY_DEPTH {
                return Err(TViewError::DependencyDepthExceeded { depth, max_depth: MAX_DEPENDENCY_DEPTH });
            }
            if contains_oid(&self.visited, oid) {
                continue;
            }
            return Ok(Some((oid, depth)));
        }
        Ok(None)
    }

    /// What the catalog answered for the view `oid` (found at `depth`): each
    /// dependency is recorded, the views among them queued one level deeper,
    /// and `oid` counts as asked about.
    pub fn record(&mut self, oid: u32, depth: usize, deps: &Vec<(u32, Option<String>)>)
        requires
            depth <= MAX_DEPENDENCY_DEPTH,
        ensures
            nodes_view(final(self).nodes@) == nodes_view(old(self).nodes@) + deps_view(deps@).map_values(
                |d: (u32, Option<Seq<char>>)| (d.0, depth, d.1),
            ),
            final(self).queue@ == old(self).queue@ + view_children(deps_view(deps@), depth + 1),
            final(self).visited@ == old(self).visited@.push(oid),
    {
        let ghost dv = deps_view(deps@);
        let ghost n0 = nodes_view(self.nodes@);
        let ghost q0 = self.queue@;
        let mut i: usize = 0;
        assert(dv.take(0) =~= Seq::<(u32, Option<Seq<char>>)>::empty());
        while i < deps.len()
            invariant
                i <= deps@.len(),
                dv == deps_view(deps@),
                depth <= MAX_DEPENDENCY_DEPTH,
                nodes_view(self.nodes@) == n0 + dv.take(i as int).map_values(|d: (u32, Option<Seq<char>>)| (d.0, depth, d.1)),
                self.queue@ == q0 + view_children(dv.take(i as int), depth + 1),
                self.visited@ == old(self).visited@,
            decreases deps.len() - i,
        {
            let ghost nb = nodes_view(self.nodes@);
            let ghost qb = self.queue@;
            let relkind: Option<String> = match &deps[i].1 {
                Some(k) => Some(k.clone()),
                None => None,
            };
            let is_view = match &deps[i].1 {
                Some(k) => str_eq(k.as_str(), "v"),
                None => false,
            };
            self.nodes.push(DependencyNode { oid: deps[i].0, depth, relkind });
            assert(dv.take(i + 1).drop_last() =~= dv.take(i as int));
            assert(nodes_view(self.nodes@) =~= nb.push((dv[i as int].0, depth, dv[i as int].1)));
            assert(dv.take(i + 1).map_values(|d: (u32, Option<Seq<char>>)| (d.0, depth, d.1)) =~= dv.take(i as int).map_values(
                |d: (u32, Option<Seq<char>>)| (d.0, depth, d.1),
            ).push((dv[i as int].0, depth, dv[i as int].1)));
            if is_view {
                self.queue.push((deps[i].0, depth + 1));
                assert(self.queue@ =~= qb + seq![(dv[i as int].0, (depth + 1) as usize)]);
            } else {
                assert(self.queue@ =~= qb + Seq::<(u32, usize)>::empty());
            }
            i += 1;
        }
        assert(dv.take(deps@.len() as int) =~= dv);
        self.visited.push(oid);
    }

    /// The result of a finished walk.
    pub fn finish(&self) -> (g: DependencyGraph)
        ensures
            g.base_tables@ == base_oids(nodes_view(self.nodes@)),
            g.helper_views@.len() == 0,
            g.all_dependencies@ == nodes_view(self.nodes@).map_values(|n: NodeView| n.0),
            g.max_depth_reached as int == max_depth(nodes_view(self.nodes@)),
    {
        let ghost nv = nodes_view(self.nodes@);
        let mut base: Vec<u32> = Vec::new();
        let mut all: Vec<u32> = Vec::new();
        let mut maxd: usize = 0;
        let mut i: usize = 0;
        assert(nv.take(0) =~= Seq::<NodeView>::empty());
        while i < self.nodes.len()
            invariant
                i <= self.nodes@.len(),
                nv == nodes_view(self.nodes@),
                base@ == base_oids(nv.take(i as int)),
                all@ == nv.take(i as int).map_values(|n: NodeView| n.0),
                maxd as int == max_depth(nv.take(i as int)),
            decreases self.nodes.len() - i,
        {
            let n = &self.nodes[i];
            assert(nv.take(i + 1).drop_last() =~= nv.take(i as int));
            assert(node_view(*n) == nv[i as int]);
            let base_kind = match &n.relkind {
                Some(k) => str_eq(k.as_str(), "r") || str_eq(k.as_str(), "m") || str_eq(k.as_str(), "p"),
                None => false,
            };
            if base_kind && !contains_oid(&base, n.oid) {
                base.push(n.oid);
            }
            all.push(n.oid);
            assert(all@ =~= nv.take(i + 1).map_values(|n: NodeView| n.0));
            if n.depth > maxd {
                maxd = n.depth;
            }
            i += 1;
        }
        assert(nv.take(self.nodes@.len() as int) =~= nv);
        DependencyGraph { base_tables: base, helper_views: Vec::new(), all_dependencies: all, max_depth_reached: maxd }
    }
}

fn contains_oid(v: &Vec<u32>, x: u32) -> (r: bool)
    ensures
        r == v@.contains(x),
{
    let mut i: usize = 0;
    while i < v.len()
        invariant
            i <= v@.len(),
            forall|j: int| 0 <= j < i ==> v@[j] != x,
        decreases v.len() - i,
    {
        if v[i] == x {
            assert(v@[i as int] == x);
            return true;
        }
        i += 1;
    }
    false
}

/// Whether a relation kind is a table the TVIEW reads rows from: a plain,
/// partitioned or materialized table.
pub open spec fn is_base_kind(k: Option<Seq<char>>) -> bool {
    k == Some("r"@) || k == Some("m"@) || k == Some("p"@)
}

/// The OIDs of the base tables among `nodes`, each once, in order of discovery.
pub open spec fn base_oids(nodes: Seq<NodeView>) -> Seq<u32>
    decreases nodes.len(),
{
    if nodes.len() == 0 {
        Seq::empty()
    } else {
        let prev = base_oids(nodes.drop_last());
        if is_base_kind(nodes.last().2) && !prev.contains(nodes.last().0) {
            prev.push(nodes.last().0)
        } else {
            prev
        }
    }
}

/// The greatest depth among `nodes` (0 when there are none).
pub open spec fn max_depth(nodes: Seq<NodeView>) -> int
    decreases nodes.len(),
{
    if nodes.len() == 0 {
        0
    } else {
        let prev = max_depth(nodes.drop_last());
        if nodes.last().1 > prev {
            nodes.last().1 as int
        } else {
            prev
        }
    }
}

/// What a view depends on: its base tables, helper views (filled in later),
/// every dependency found, and how deep the walk went.
#[derive(Debug, Clone)]
pub struct DependencyGraph {
    pub base_tables: Vec<u32>,
    pub helper_views: Vec<String>,
    pub all_dependencies: Vec<u32>,
    pub max_depth_reached: usize,
}


/// A walk never asks twice about a view, nor about one beyond the depth
/// limit, and each step consumes at least one queued entry.
pub proof fn law_walk_asks_once_within_limit(q: Seq<(u32, usize)>, visited: Seq<u32>)
    ensures
        ({
            let (n, o) = scan_queue(q, visited);
            &&& 0 <= n <= q.len()
            &&& (q.len() > 0 ==> n > 0)
            &&& (o matches Some(Ok(e)) ==> !visited.contains(e.0) && e.1 <= MAX_DEPENDENCY_DEPTH)
        }),
    decreases q.len(),
{
    if q.len() > 0 && q[0].1 <= MAX_DEPENDENCY_DEPTH && visited.contains(q[0].0) {
        law_walk_asks_once_within_limit(q.drop_first(), visited);
    }
}


/// The catalog query for the relations the rewrite rules of `view_oid`
/// reference (other than `current_oid`), with their `relkind` as text.
pub open spec fn spec_dependency_query(view_oid: nat, current_oid: nat) -> Seq<char> {
    "SELECT DISTINCT d.refobjid, c.relkind::text FROM pg_rewrite r JOIN pg_depend d ON d.objid = r.oid AND d.classid = 'pg_rewrite'::regclass::oid LEFT JOIN pg_class c ON d.refobjid = c.oid AND d.refclassid = 'pg_class'::regclass::oid WHERE r.ev_class = "@
        + decimal(view_oid) + " AND d.refclassid = 'pg_class'::regclass::oid AND c.oid != "@ + decimal(current_oid)
}

pub fn dependency_query(view_oid: u32, current_oid: u32) -> (r: String)
    ensures
        r@ == spec_dependency_query(view_oid as nat, current_oid as nat),
{
    let mut r = "SELECT DISTINCT d.refobjid, c.relkind::text FROM pg_rewrite r JOIN pg_depend d ON d.objid = r.oid AND d.classid = 'pg_rewrite'::regclass::oid LEFT JOIN pg_class c ON d.refobjid = c.oid AND d.refclassid = 'pg_class'::regclass::oid WHERE r.ev_class = ".to_owned();
    r.append(decimal_string(view_oid as u64).as_str());
    r.append(" AND d.refclassid = 'pg_class'::regclass::oid AND c.oid != ");
    r.append(decimal_string(current_oid as u64).as_str());
    r
}

} // verus!
