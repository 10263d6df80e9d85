//! Session caches: the entity dependency graph, and which entity (if any)
//! each table OID belongs to. A lookup records a hit or a miss when the
//! cache is enabled; creating or dropping a TVIEW invalidates both.
use vstd::prelude::*;
use std::collections::HashMap;
use crate::metrics::{
    MetricsState, record_graph_cache_hit, record_graph_cache_miss, record_table_cache_hit,
    record_table_cache_miss,
};
use crate::queue::graph::EntityDepGraph;

verus! {

broadcast use vstd::std_specs::hash::group_hash_axioms;

/// The entity a table belongs to, and the first `DISTINCT ON` key of its
/// TVIEW when it has one.
#[derive(Clone, Debug)]
pub struct CachedEntityInfo {
    pub name: String,
    pub distinct_on_key: Option<String>,
}

/// The cached dependency graph, if loaded.
pub struct EntityGraphCache {
    pub graph: Option<EntityDepGraph>,
}

impl EntityGraphCache {
    pub fn new() -> (c: Self)
        ensures
            c.graph is None,
    {
        EntityGraphCache { graph: None }
    }

    /// The cached graph; a hit or a miss is recorded when `enabled`.
    pub fn cached(&self, metrics: &mut MetricsState, enabled: bool) -> (r: Option<&EntityDepGraph>)
        ensures
            !enabled ==> r is None && *final(metrics) == *old(metrics),
            enabled ==> match self.graph {
                Some(g) => r == Some(&g) && *final(metrics) == (MetricsState {
                    graph_cache_hits: old(metrics).graph_cache_hits.wrapping_add(1),
                    ..*old(metrics)
                }),
                None => r is None && *final(metrics) == (MetricsState {
                    graph_cache_misses: old(metrics).graph_cache_misses.wrapping_add(1),
                    ..*old(metrics)
                }),
            },
    {
        if !enabled {
            return None;
        }
        match &self.graph {
            Some(g) => {
                record_graph_cache_hit(metrics);
                Some(g)
            },
            None => {
                record_graph_cache_miss(metrics);
                None
            },
        }
    }

    /// Keep a freshly loaded graph (only when caching is enabled).
    pub fn store(&mut self, enabled: bool, graph: EntityDepGraph)
        ensures
            enabled ==> final(self).graph == Some(graph),
            !enabled ==> final(self).graph == old(self).graph,
    {
        if enabled {
            self.graph = Some(graph);
        }
    }

    pub fn invalidate(&mut self)
        ensures
            final(self).graph is None,
    {
        self.graph = None;
    }

    pub fn is_none(&self) -> (r: bool)
        ensures
            r == self.graph is None,
    {
        self.graph.is_none()
    }
}

/// Table OID to entity info; `None` values remember tables that belong to
/// no TVIEW.
pub struct TableEntityCache {
    pub entries: HashMap<u32, Option<CachedEntityInfo>>,
}

impl TableEntityCache {
    pub fn new() -> (c: Self)
        ensures
            c.entries@ == Map::<u32, Option<CachedEntityInfo>>::empty(),
    {
        TableEntityCache { entries: HashMap::new() }
    }

    /// What is cached for `oid`, if anything (a cached `None` is a hit).
    pub fn get(&self, oid: u32) -> (r: Option<&Option<CachedEntityInfo>>)
        ensures
            match r {
                Some(v) => self.entries@.contains_key(oid) && *v == self.entries@[oid],
                None => !self.entries@.contains_key(oid),
            },
    {
        self.entries.get(&oid)
    }

    /// The cached info for `oid`; a hit or a miss is recorded when `enabled`.
    pub fn cached(&self, metrics: &mut MetricsState, enabled: bool, oid: u32) -> (r: Option<&Option<CachedEntityInfo>>)
        ensures
            !enabled ==> r is None && *final(metrics) == *old(metrics),
            enabled && self.entries@.contains_key(oid) ==> (r matches Some(v) && *v == self.entries@[oid]
                && *final(metrics) == (MetricsState {
                table_cache_hits: old(metrics).table_cache_hits.wrapping_add(1),
                ..*old(metrics)
            })),
            enabled && !self.entries@.contains_key(oid) ==> r is None && *final(metrics) == (MetricsState {
                table_cache_misses: old(metrics).table_cache_misses.wrapping_add(1),
                ..*old(metrics)
            }),
    {
        if !enabled {
            return None;
        }
        let r = self.get(oid);
        match r {
            Some(_) => record_table_cache_hit(metrics),
            None => record_table_cache_miss(metrics),
        }
        r
    }

    /// Remember what was loaded for `oid`, a `None` included.
    pub fn insert(&mut self, oid: u32, info: Option<CachedEntityInfo>)
        ensures
            final(self).entries@ == old(self).entries@.insert(oid, info),
    {
        self.entries.insert(oid, info);
    }

    pub fn invalidate(&mut self)
        ensures
            final(self).entries@ == Map::<u32, Option<CachedEntityInfo>>::empty(),
    {
        self.entries.clear();
    }

    pub fn is_empty(&self) -> (r: bool)
        ensures
            r == (self.entries@ == Map::<u32, Option<CachedEntityInfo>>::empty()),
    {
        let r = self.entries.is_empty();
        proof {
            if r {
                assert(self.entries@ =~= Map::<u32, Option<CachedEntityInfo>>::empty());
            }
        }
        r
    }
}


/// What the table cache stores for a table is what a lookup then finds, and
/// storing it leaves every other table's entry as it was.
pub proof fn law_table_cache_reads_back(m: Map<u32, Option<CachedEntityInfo>>, oid: u32, info: Option<CachedEntityInfo>, other: u32)
    ensures
        m.insert(oid, info).contains_key(oid),
        m.insert(oid, info)[oid] == info,
        other != oid ==> (m.insert(oid, info).contains_key(other) <==> m.contains_key(other)),
        other != oid && m.contains_key(other) ==> m.insert(oid, info)[other] == m[other],
{
}

} // verus!
