//! The identity of a TVIEW row waiting for refresh.
use vstd::prelude::*;
use vstd::std_specs::cmp::PartialEqSpecImpl;

verus! {

/// Identifies a unique TVIEW row to refresh.
///
/// For standard TVIEWs the key is an `(entity, pk)` pair; for DISTINCT ON
/// TVIEWs it is an `(entity, dedup_key)` pair, where `dedup_key` is the value of
/// the DISTINCT ON column as text and `pk` is 0.
#[derive(Debug, Clone, Hash)]
pub struct RefreshKey {
    /// Entity name (e.g. "user", "post").
    pub entity: String,
    /// Primary key value (`pk_<entity>`); 0 for a DISTINCT ON key.
    pub pk: i64,
    /// The DISTINCT ON group to re-evaluate, when present.
    pub dedup_key: Option<String>,
}

/// A key as a mathematical value: entity, primary key, DISTINCT ON group.
pub type KeyView = (Seq<char>, i64, Option<Seq<char>>);

pub open spec fn opt_chars(o: Option<String>) -> Option<Seq<char>> {
    match o {
        Some(s) => Some(s@),
        None => None,
    }
}

impl View for RefreshKey {
    type V = KeyView;

    open spec fn view(&self) -> KeyView {
        (self.entity@, self.pk, opt_chars(self.dedup_key))
    }
}

fn clone_string(s: &String) -> (r: String)
    ensures
        r@ == s@,
{
    s.clone()
}

impl RefreshKey {
    /// A standard primary-key refresh key.
    pub fn pk(entity: &str, pk: i64) -> (k: Self)
        ensures
            k@ == (entity@, pk, None::<Seq<char>>),
    {
        RefreshKey { entity: entity.to_owned(), pk, dedup_key: None }
    }

    /// A DISTINCT ON refresh key for the group `key`.
    pub fn dedup(entity: &str, key: &str) -> (k: Self)
        ensures
            k@ == (entity@, 0i64, Some(key@)),
    {
        RefreshKey { entity: entity.to_owned(), pk: 0, dedup_key: Some(key.to_owned()) }
    }

    /// Whether this is a DISTINCT ON key.
    pub fn is_dedup(&self) -> (r: bool)
        ensures
            r == (self@.2 is Some),
    {
        self.dedup_key.is_some()
    }

    /// A copy of the key with the same view.
    pub fn duplicate(&self) -> (r: Self)
        ensures
            r@ == self@,
    {
        RefreshKey {
            entity: clone_string(&self.entity),
            pk: self.pk,
            dedup_key: match &self.dedup_key {
                Some(d) => Some(clone_string(d)),
                None => None,
            },
        }
    }

    /// Key equality, field by field.
    pub fn same_key(&self, other: &Self) -> (r: bool)
        ensures
            r == (self@ == other@),
    {
        let dedup_equal = match (&self.dedup_key, &other.dedup_key) {
            (Some(a), Some(b)) => *a == *b,
            (None, None) => true,
            _ => false,
        };
        self.entity == other.entity && self.pk == other.pk && dedup_equal
    }
}

impl PartialEq for RefreshKey {
    fn eq(&self, other: &Self) -> (r: bool) {
        self.same_key(other)
    }
}

impl PartialEqSpecImpl for RefreshKey {
    open spec fn obeys_eq_spec() -> bool {
        true
    }

    open spec fn eq_spec(&self, other: &Self) -> bool {
        self@ == other@
    }
}

impl Eq for RefreshKey {
}

} // verus!
