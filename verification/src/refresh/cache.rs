//! Prepared refresh statements, one per entity, kept for the session.
use vstd::prelude::*;
use crate::queue::patch::{assoc_get, assoc_put, assoc_remove, first_pos, lemma_first_pos};
use crate::queue::state::string_seq;
use crate::sql::{quote_identifier, spec_quote_identifier};

verus! {

/// The name of an entity's prepared refresh statement.
pub open spec fn spec_statement_name(entity: Seq<char>) -> Seq<char> {
    "tview_refresh_"@ + entity
}

pub fn statement_name(entity: &str) -> (r: String)
    ensures
        r@ == spec_statement_name(entity@),
{
    let mut r = "tview_refresh_".to_owned();
    r.append(entity);
    r
}

/// `PREPARE "<name>" (BIGINT) AS SELECT * FROM v_"<entity>" WHERE pk_"pk_<entity>" = $1`:
/// both names are quoted after their prefix.
pub open spec fn spec_prepare_sql(entity: Seq<char>) -> Seq<char> {
    "PREPARE "@ + spec_quote_identifier(spec_statement_name(entity)) + " (BIGINT) AS SELECT * FROM v_"@
        + spec_quote_identifier(entity) + " WHERE pk_"@ + spec_quote_identifier("pk_"@ + entity) + " = $1"@
}

pub fn prepare_sql(entity: &str) -> (r: String)
    ensures
        r@ == spec_prepare_sql(entity@),
{
    let mut r = "PREPARE ".to_owned();
    r.append(quote_identifier(statement_name(entity).as_str()).as_str());
    r.append(" (BIGINT) AS SELECT * FROM v_");
    r.append(quote_identifier(entity).as_str());
    r.append(" WHERE pk_");
    let mut pk = "pk_".to_owned();
    pk.append(entity);
    r.append(quote_identifier(pk.as_str()).as_str());
    r.append(" = $1");
    r
}

/// Entity to prepared statement name.
pub struct PreparedStatementCache {
    pub entries: Vec<(String, String)>,
}

pub open spec fn entries_view(e: Seq<(String, String)>) -> Seq<(Seq<char>, Seq<char>)> {
    e.map_values(|p: (String, String)| (p.0@, p.1@))
}

impl PreparedStatementCache {
    pub fn new() -> (c: Self)
        ensures
            entries_view(c.entries@) == Seq::<(Seq<char>, Seq<char>)>::empty(),
    {
        let c = PreparedStatementCache { entries: Vec::new() };
        assert(entries_view(c.entries@) =~= Seq::<(Seq<char>, Seq<char>)>::empty());
        c
    }

    /// The statement cached for `entity`, if any.
    pub fn get(&self, entity: &String) -> (r: Option<&String>)
        ensures
            match assoc_get(entries_view(self.entries@), entity@) {
                Some(n) => r matches Some(x) && x@ == n,
                None => r is None,
            },
    {
        let ghost ev = entries_view(self.entries@);
        let mut i: usize = 0;
        proof {
            lemma_first_pos(ev, entity@, 0);
        }
        while i < self.entries.len()
            invariant
                i <= self.entries@.len(),
                ev == entries_view(self.entries@),
                first_pos(ev, entity@, 0) == first_pos(ev, entity@, i as int),
            decreases self.entries.len() - i,
        {
            if self.entries[i].0 == *entity {
                return Some(&self.entries[i].1);
            }
            i += 1;
        }
        None
    }

    /// Remember the statement prepared for `entity`.
    pub fn insert(&mut self, entity: String, name: String)
        ensures
            entries_view(final(self).entries@) == assoc_put(entries_view(old(self).entries@), entity@, name@),
    {
        let ghost ev = entries_view(self.entries@);
        let ghost k = entity@;
        let ghost v = name@;
        let mut i: usize = 0;
        while i < self.entries.len()
            invariant
                i <= self.entries@.len(),
                ev == entries_view(self.entries@),
                self.entries@ == old(self).entries@,
                k == entity@,
                v == name@,
                first_pos(ev, k, 0) == first_pos(ev, k, i as int),
            decreases self.entries.len() - i,
        {
            if self.entries[i].0 == entity {
                proof {
                    lemma_first_pos(ev, k, 0);
                }
                self.entries.set(i, (entity, name));
                assert(entries_view(self.entries@) =~= ev.update(i as int, (k, v)));
                return;
            }
            i += 1;
        }
        self.entries.push((entity, name));
        assert(entries_view(self.entries@) =~= ev.push((k, v)));
    }

    /// Forget the statement of `entity` (it no longer exists in the session).
    pub fn remove(&mut self, entity: &String)
        ensures
            entries_view(final(self).entries@) == assoc_remove(entries_view(old(self).entries@), entity@),
    {
        let ghost ev = entries_view(self.entries@);
        let mut kept: Vec<(String, String)> = Vec::new();
        let mut i: usize = 0;
        assert(ev.take(0) =~= Seq::<(Seq<char>, Seq<char>)>::empty());
        while i < self.entries.len()
            invariant
                i <= self.entries@.len(),
                ev == entries_view(self.entries@),
                entries_view(kept@) == assoc_remove(ev.take(i as int), entity@),
            decreases self.entries.len() - i,
        {
            assert(ev.take(i + 1).drop_last() =~= ev.take(i as int));
            let ghost before = entries_view(kept@);
            if self.entries[i].0 != *entity {
                kept.push((self.entries[i].0.clone(), self.entries[i].1.clone()));
                assert(entries_view(kept@) =~= before.push(ev[i as int]));
            } else {
                assert(entries_view(kept@) =~= before + Seq::<(Seq<char>, Seq<char>)>::empty());
            }
            i += 1;
        }
        assert(ev.take(self.entries@.len() as int) =~= ev);
        self.entries = kept;
    }

    /// Forget every statement.
    pub fn clear(&mut self)
        ensures
            final(self).entries@.len() == 0,
    {
        self.entries = Vec::new();
    }

    /// How many statements are cached, and for which entities.
    pub fn stats(&self) -> (r: (usize, Vec<String>))
        ensures
            r.0 == self.entries@.len(),
            string_seq(r.1@) == entries_view(self.entries@).map_values(|p: (Seq<char>, Seq<char>)| p.0),
    {
        let ghost ev = entries_view(self.entries@);
        let mut names: Vec<String> = Vec::new();
        let mut i: usize = 0;
        while i < self.entries.len()
            invariant
                i <= self.entries@.len(),
                ev == entries_view(self.entries@),
                string_seq(names@) == ev.take(i as int).map_values(|p: (Seq<char>, Seq<char>)| p.0),
            decreases self.entries.len() - i,
        {
            let ghost before = string_seq(names@);
            names.push(self.entries[i].0.clone());
            assert(ev.take(i + 1) =~= ev.take(i as int).push(ev[i as int]));
            assert(string_seq(names@) =~= before.push(ev[i as int].0));
            i += 1;
        }
        assert(ev.take(self.entries@.len() as int) =~= ev);
        (self.entries.len(), names)
    }
}


/// `EXECUTE <name>`: run a prepared statement (its key bound as the parameter).
pub open spec fn spec_execute_sql(name: Seq<char>) -> Seq<char> {
    "EXECUTE "@ + name
}

pub fn execute_sql(name: &str) -> (r: String)
    ensures
        r@ == spec_execute_sql(name@),
{
    let mut r = "EXECUTE ".to_owned();
    r.append(name);
    r
}

} // verus!
