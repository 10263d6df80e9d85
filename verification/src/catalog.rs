//! The extension's catalog (`pg_tview_meta`) as the refresh engine reads it.
use vstd::prelude::*;
use crate::error::{TViewError, TViewResult};
use crate::queue::state::string_seq;
use crate::text::{chars_of, seq_eq, starts_with, starts_with_exec, string_of_range, push_char};

verus! {

/// How a TVIEW embeds one of its dependencies.
#[derive(Debug, Clone, Copy, PartialEq, Eq, Structural)]
pub enum DependencyType {
    /// A direct column of the base table (no nested JSONB).
    Scalar,
    /// An object embedded via `jsonb_build_object` under a key.
    NestedObject,
    /// An array built with `jsonb_agg`.
    Array,
}

/// The dependency type stored as `s`; anything unknown is `Scalar`.
pub open spec fn spec_dependency_type(s: Seq<char>) -> DependencyType {
    if s == "nested_object"@ {
        DependencyType::NestedObject
    } else if s == "array"@ {
        DependencyType::Array
    } else {
        DependencyType::Scalar
    }
}

/// The stored name of a dependency type.
pub open spec fn spec_dependency_type_name(t: DependencyType) -> Seq<char> {
    match t {
        DependencyType::Scalar => "scalar"@,
        DependencyType::NestedObject => "nested_object"@,
        DependencyType::Array => "array"@,
    }
}

impl DependencyType {
    /// Parse the stored representation; unknown names are `Scalar`.
    pub fn from_str(s: &str) -> (t: Self)
        ensures
            t == spec_dependency_type(s@),
    {
        let v = chars_of(s);
        if seq_eq(&v, &chars_of("nested_object")) {
            DependencyType::NestedObject
        } else if seq_eq(&v, &chars_of("array")) {
            DependencyType::Array
        } else {
            DependencyType::Scalar
        }
    }

    /// The stored representation.
    pub fn as_str(&self) -> (s: &'static str)
        ensures
            s@ == spec_dependency_type_name(*self),
    {
        match self {
            DependencyType::Scalar => "scalar",
            DependencyType::NestedObject => "nested_object",
            DependencyType::Array => "array",
        }
    }
}

/// Stored names read back as the type they name.
pub proof fn law_dependency_type_round_trip(t: DependencyType)
    ensures
        spec_dependency_type(spec_dependency_type_name(t)) == t,
{
    reveal_strlit("scalar");
    reveal_strlit("nested_object");
    reveal_strlit("array");
    assert("scalar"@.len() == 6 && "nested_object"@.len() == 13 && "array"@.len() == 5);
    assert("scalar"@ != "nested_object"@ && "scalar"@ != "array"@ && "array"@ != "nested_object"@);
}

/// A row of `pg_tview_meta`. Object identifiers are PostgreSQL `oid`s.
#[derive(Debug, Clone)]
pub struct TviewMeta {
    pub tview_oid: u32,
    pub view_oid: u32,
    pub entity_name: String,
    pub fk_columns: Vec<String>,
    pub uuid_fk_columns: Vec<String>,
    /// Type of each dependency; parallel to `fk_columns`.
    pub dependency_types: Vec<DependencyType>,
    /// JSONB path of each dependency, if nested.
    pub dependency_paths: Vec<Option<Vec<String>>>,
    /// For array dependencies, the key that matches elements (e.g. `id`).
    pub array_match_keys: Vec<Option<String>>,
    /// DISTINCT ON key columns; empty for primary-key TVIEWs.
    pub distinct_on_keys: Vec<String>,
    /// Whether the backing view is a UNION (ALL) query.
    pub is_union: bool,
}

impl Default for TviewMeta {
    fn default() -> (m: Self)
        ensures
            m.tview_oid == 0,
            m.view_oid == 0,
            m.entity_name@ == Seq::<char>::empty(),
            m.fk_columns@.len() == 0,
            m.uuid_fk_columns@.len() == 0,
            m.dependency_types@.len() == 0,
            m.dependency_paths@.len() == 0,
            m.array_match_keys@.len() == 0,
            m.distinct_on_keys@.len() == 0,
            !m.is_union,
    {
        TviewMeta {
            tview_oid: 0,
            view_oid: 0,
            entity_name: String::new(),
            fk_columns: Vec::new(),
            uuid_fk_columns: Vec::new(),
            dependency_types: Vec::new(),
            dependency_paths: Vec::new(),
            array_match_keys: Vec::new(),
            distinct_on_keys: Vec::new(),
            is_union: false,
        }
    }
}

/// One dependency of a TVIEW: type, JSONB path, array match key.
#[derive(Debug, Clone, PartialEq, Eq)]
pub struct DependencyDetail {
    pub dep_type: DependencyType,
    pub path: Option<Vec<String>>,
    pub match_key: Option<String>,
}

/// `s` split at every `sep`, as `str::split` does (empty pieces kept).
pub open spec fn split_seq(s: Seq<char>, sep: char) -> Seq<Seq<char>>
    decreases s.len(),
{
    if s.len() == 0 {
        seq![Seq::empty()]
    } else {
        let rest = split_seq(s.drop_last(), sep);
        if s.last() == sep {
            rest.push(Seq::empty())
        } else {
            rest.update(rest.len() - 1, rest.last().push(s.last()))
        }
    }
}

proof fn lemma_split_nonempty(s: Seq<char>, sep: char)
    ensures
        split_seq(s, sep).len() >= 1,
    decreases s.len(),
{
    if s.len() > 0 {
        lemma_split_nonempty(s.drop_last(), sep);
    }
}

pub(crate) fn split_chars(s: &Vec<char>, sep: char) -> (r: Vec<String>)
    ensures
        string_seq(r@) == split_seq(s@, sep),
{
    let mut out: Vec<String> = Vec::new();
    let mut cur = String::new();
    assert(s@.take(0) =~= Seq::<char>::empty());
    let mut i: usize = 0;
    while i < s.len()
        invariant
            i <= s@.len(),
            string_seq(out@).push(cur@) == split_seq(s@.take(i as int), sep),
        decreases s.len() - i,
    {
        proof {
            lemma_split_nonempty(s@.take(i as int), sep);
            assert(s@.take(i + 1).drop_last() =~= s@.take(i as int));
            assert(s@.take(i + 1).last() == s@[i as int]);
        }
        let ghost before = string_seq(out@);
        let ghost cur0 = cur@;
        if s[i] == sep {
            let done = cur;
            out.push(done);
            cur = String::new();
            assert(string_seq(out@) =~= before.push(cur0));
            assert(string_seq(out@).push(cur@) =~= before.push(cur0).push(Seq::<char>::empty()));
        } else {
            push_char(&mut cur, s[i]);
            assert(string_seq(out@).push(cur@) =~= before.push(cur0).update(
                before.len() as int,
                cur0.push(s@[i as int]),
            ));
        }
        i += 1;
    }
    assert(s@.take(s@.len() as int) =~= s@);
    out.push(cur);
    out
}

/// A stored dependency path: `None` when absent or empty, else its dot-separated keys.
pub open spec fn spec_dep_path(raw: Option<Seq<char>>) -> Option<Seq<Seq<char>>> {
    match raw {
        Some(s) => if s.len() == 0 {
            None
        } else {
            Some(split_seq(s, '.'))
        },
        None => None,
    }
}

pub open spec fn opt_string(o: Option<String>) -> Option<Seq<char>> {
    match o {
        Some(s) => Some(s@),
        None => None,
    }
}

pub open spec fn opt_path_view(o: Option<Vec<String>>) -> Option<Seq<Seq<char>>> {
    match o {
        Some(v) => Some(string_seq(v@)),
        None => None,
    }
}

/// `r` is the error for a required column that was NULL.
pub open spec fn null_column_error(r: TViewResult<TviewMeta>, msg: Seq<char>) -> bool {
    r matches Err(TViewError::SpiError { query, error }) && query@.len() == 0 && error@ == msg
}

impl TviewMeta {
    /// The stored dependency types, each parsed; none when NULL.
    pub fn parse_dependency_types(row_value: Option<Vec<String>>) -> (r: Vec<DependencyType>)
        ensures
            r@ == match row_value {
                Some(v) => string_seq(v@).map_values(|s: Seq<char>| spec_dependency_type(s)),
                None => Seq::<DependencyType>::empty(),
            },
    {
        let mut r: Vec<DependencyType> = Vec::new();
        match row_value {
            None => {
                assert(r@ =~= Seq::<DependencyType>::empty());
            },
            Some(v) => {
                let mut i: usize = 0;
                while i < v.len()
                    invariant
                        i <= v@.len(),
                        r@ == string_seq(v@).take(i as int).map_values(
                            |s: Seq<char>| spec_dependency_type(s),
                        ),
                    decreases v.len() - i,
                {
                    let t = DependencyType::from_str(v[i].as_str());
                    r.push(t);
                    assert(r@ =~= string_seq(v@).take(i + 1).map_values(
                        |s: Seq<char>| spec_dependency_type(s),
                    ));
                    i += 1;
                }
                assert(string_seq(v@).take(v@.len() as int) =~= string_seq(v@));
            },
        }
        r
    }

    /// The stored dependency paths: each a dot-joined key sequence
    /// (`book.author`); a NULL or empty element means no path.
    pub fn parse_dep_paths(raw: Option<Vec<Option<String>>>) -> (r: Vec<Option<Vec<String>>>)
        ensures
            r@.map_values(|p: Option<Vec<String>>| opt_path_view(p)) == match raw {
                Some(v) => v@.map_values(|o: Option<String>| spec_dep_path(opt_string(o))),
                None => Seq::<Option<Seq<Seq<char>>>>::empty(),
            },
    {
        let mut r: Vec<Option<Vec<String>>> = Vec::new();
        match raw {
            None => {
                assert(r@.map_values(|p: Option<Vec<String>>| opt_path_view(p)) =~= Seq::<
                    Option<Seq<Seq<char>>>,
                >::empty());
            },
            Some(v) => {
                let mut i: usize = 0;
                while i < v.len()
                    invariant
                        i <= v@.len(),
                        r@.map_values(|p: Option<Vec<String>>| opt_path_view(p)) == v@.take(
                            i as int,
                        ).map_values(|o: Option<String>| spec_dep_path(opt_string(o))),
                    decreases v.len() - i,
                {
                    let item: Option<Vec<String>> = match &v[i] {
                        None => None,
                        Some(s) => {
                            let cs = chars_of(s.as_str());
                            if cs.len() == 0 {
                                None
                            } else {
                                Some(split_chars(&cs, '.'))
                            }
                        },
                    };
                    assert(opt_path_view(item) == spec_dep_path(opt_string(v@[i as int])));
                    let ghost before = r@.map_values(|p: Option<Vec<String>>| opt_path_view(p));
                    r.push(item);
                    assert(r@.map_values(|p: Option<Vec<String>>| opt_path_view(p)) =~= before.push(
                        opt_path_view(item),
                    ));
                    assert(v@.take(i + 1).map_values(
                        |o: Option<String>| spec_dep_path(opt_string(o)),
                    ) =~= v@.take(i as int).map_values(
                        |o: Option<String>| spec_dep_path(opt_string(o)),
                    ).push(spec_dep_path(opt_string(v@[i as int]))));
                    i += 1;
                }
                assert(v@.take(v@.len() as int) =~= v@);
            },
        }
        r
    }

    /// Build a row from the values read from `pg_tview_meta`; the oids and
    /// the entity are required, the arrays default to empty and `is_union`
    /// to false.
    pub fn from_row_values(
        tview_oid: Option<u32>,
        view_oid: Option<u32>,
        entity: Option<String>,
        fk_columns: Option<Vec<String>>,
        uuid_fk_columns: Option<Vec<String>>,
        dependency_types: Option<Vec<String>>,
        dependency_paths: Option<Vec<Option<String>>>,
        array_match_keys: Option<Vec<Option<String>>>,
        distinct_on_keys: Option<Vec<String>>,
        is_union: Option<bool>,
    ) -> (r: TViewResult<TviewMeta>)
        ensures
            tview_oid is None ==> null_column_error(r, "tview_oid column is NULL"@),
            tview_oid is Some && view_oid is None ==> null_column_error(r, "view_oid column is NULL"@),
            tview_oid is Some && view_oid is Some && entity is None ==> null_column_error(
                r,
                "entity column is NULL"@,
            ),
            r matches Ok(m) ==> {
                &&& tview_oid == Some(m.tview_oid)
                &&& view_oid == Some(m.view_oid)
                &&& entity matches Some(e) && m.entity_name@ == e@
                &&& string_seq(m.fk_columns@) == match fk_columns {
                    Some(v) => string_seq(v@),
                    None => Seq::empty(),
                }
                &&& string_seq(m.uuid_fk_columns@) == match uuid_fk_columns {
                    Some(v) => string_seq(v@),
                    None => Seq::empty(),
                }
                &&& m.dependency_types@ == match dependency_types {
                    Some(v) => string_seq(v@).map_values(|s: Seq<char>| spec_dependency_type(s)),
                    None => Seq::<DependencyType>::empty(),
                }
                &&& m.dependency_paths@.map_values(|p: Option<Vec<String>>| opt_path_view(p))
                    == match dependency_paths {
                    Some(v) => v@.map_values(|o: Option<String>| spec_dep_path(opt_string(o))),
                    None => Seq::<Option<Seq<Seq<char>>>>::empty(),
                }
                &&& m.array_match_keys@ == match array_match_keys {
                    Some(v) => v@,
                    None => Seq::empty(),
                }
                &&& string_seq(m.distinct_on_keys@) == match distinct_on_keys {
                    Some(v) => string_seq(v@),
                    None => Seq::empty(),
                }
                &&& m.is_union == (is_union == Some(true))
            },
            (tview_oid is Some && view_oid is Some && entity is Some) ==> r is Ok,
    {
        let dep_types = TviewMeta::parse_dependency_types(dependency_types);
        let dep_paths = TviewMeta::parse_dep_paths(dependency_paths);
        let tview_oid = match tview_oid {
            Some(o) => o,
            None => {
                return Err(TViewError::SpiError { query: String::new(), error: "tview_oid column is NULL".to_owned() });
            },
        };
        let view_oid = match view_oid {
            Some(o) => o,
            None => {
                return Err(TViewError::SpiError { query: String::new(), error: "view_oid column is NULL".to_owned() });
            },
        };
        let entity_name = match entity {
            Some(e) => e,
            None => {
                return Err(TViewError::SpiError { query: String::new(), error: "entity column is NULL".to_owned() });
            },
        };
        let empty_fk: Vec<String> = Vec::new();
        assert(string_seq(empty_fk@) =~= Seq::<Seq<char>>::empty());
        Ok(TviewMeta {
            tview_oid,
            view_oid,
            entity_name,
            fk_columns: match fk_columns {
                Some(v) => v,
                None => Vec::new(),
            },
            uuid_fk_columns: match uuid_fk_columns {
                Some(v) => v,
                None => Vec::new(),
            },
            dependency_types: dep_types,
            dependency_paths: dep_paths,
            array_match_keys: match array_match_keys {
                Some(v) => v,
                None => Vec::new(),
            },
            distinct_on_keys: match distinct_on_keys {
                Some(v) => v,
                None => Vec::new(),
            },
            is_union: match is_union {
                Some(b) => b,
                None => false,
            },
        })
    }

    /// Whether this TVIEW refreshes by DISTINCT ON group.
    pub fn is_distinct_on(&self) -> (r: bool)
        ensures
            r == (self.distinct_on_keys@.len() > 0),
    {
        self.distinct_on_keys.len() > 0
    }

    /// One detail per dependency: as many as the longer of the type and FK
    /// lists; a missing type is `Scalar`, a missing path or key is `None`.
    pub fn parse_dependencies(&self) -> (r: Vec<DependencyDetail>)
        ensures
            r@.len() == if self.dependency_types@.len() > self.fk_columns@.len() {
                self.dependency_types@.len()
            } else {
                self.fk_columns@.len()
            },
            forall|i: int|
                0 <= i < r@.len() ==> {
                    &&& #[trigger] r@[i].dep_type == if i < self.dependency_types@.len() {
                        self.dependency_types@[i]
                    } else {
                        DependencyType::Scalar
                    }
                    &&& opt_path_view(r@[i].path) == if i < self.dependency_paths@.len() {
                        opt_path_view(self.dependency_paths@[i])
                    } else {
                        None
                    }
                    &&& opt_string(r@[i].match_key) == if i < self.array_match_keys@.len() {
                        opt_string(self.array_match_keys@[i])
                    } else {
                        None
                    }
                },
    {
        let len = if self.dependency_types.len() > self.fk_columns.len() {
            self.dependency_types.len()
        } else {
            self.fk_columns.len()
        };
        let mut details: Vec<DependencyDetail> = Vec::new();
        let mut i: usize = 0;
        while i < len
            invariant
                i <= len,
                len == if self.dependency_types@.len() > self.fk_columns@.len() {
                    self.dependency_types@.len()
                } else {
                    self.fk_columns@.len()
                },
                details@.len() == i,
                forall|j: int|
                    0 <= j < i ==> {
                        &&& #[trigger] details@[j].dep_type == if j < self.dependency_types@.len() {
                            self.dependency_types@[j]
                        } else {
                            DependencyType::Scalar
                        }
                        &&& opt_path_view(details@[j].path) == if j < self.dependency_paths@.len() {
                            opt_path_view(self.dependency_paths@[j])
                        } else {
                            None
                        }
                        &&& opt_string(details@[j].match_key) == if j < self.array_match_keys@.len() {
                            opt_string(self.array_match_keys@[j])
                        } else {
                            None
                        }
                    },
            decreases len - i,
        {
            let dep_type = if i < self.dependency_types.len() {
                self.dependency_types[i]
            } else {
                DependencyType::Scalar
            };
            let path = if i < self.dependency_paths.len() {
                clone_path(&self.dependency_paths[i])
            } else {
                None
            };
            let match_key = if i < self.array_match_keys.len() {
                clone_opt_string(&self.array_match_keys[i])
            } else {
                None
            };
            details.push(DependencyDetail { dep_type, path, match_key });
            i += 1;
        }
        details
    }
}

fn clone_opt_string(o: &Option<String>) -> (r: Option<String>)
    ensures
        opt_string(r) == opt_string(*o),
{
    match o {
        Some(s) => Some(s.clone()),
        None => None,
    }
}

pub fn clone_strings(v: &Vec<String>) -> (r: Vec<String>)
    ensures
        string_seq(r@) == string_seq(v@),
{
    let mut r: Vec<String> = Vec::new();
    let mut i: usize = 0;
    while i < v.len()
        invariant
            i <= v@.len(),
            string_seq(r@) == string_seq(v@).take(i as int),
        decreases v.len() - i,
    {
        let ghost before = string_seq(r@);
        r.push(v[i].clone());
        assert(string_seq(r@) =~= before.push(v@[i as int]@));
        assert(string_seq(v@).take(i + 1) =~= string_seq(v@).take(i as int).push(v@[i as int]@));
        i += 1;
    }
    assert(string_seq(v@).take(v@.len() as int) =~= string_seq(v@));
    r
}

fn clone_path(o: &Option<Vec<String>>) -> (r: Option<Vec<String>>)
    ensures
        opt_path_view(r) == opt_path_view(*o),
{
    match o {
        Some(v) => Some(clone_strings(v)),
        None => None,
    }
}

/// The entity of a base table named `tb_<entity>`.
pub open spec fn spec_entity_of_table(name: Seq<char>) -> Option<Seq<char>> {
    if starts_with(name, "tb_"@) {
        Some(name.skip(3))
    } else {
        None
    }
}

/// The entity of a base table named `tb_<entity>`, if the name has that form.
pub fn entity_from_table_name(table_name: &str) -> (r: Option<String>)
    ensures
        opt_string(r) == spec_entity_of_table(table_name@),
{
    let v = chars_of(table_name);
    proof {
        reveal_strlit("tb_");
    }
    if starts_with_exec(&v, &chars_of("tb_")) {
        let e = string_of_range(&v, 3, v.len());
        assert(e@ =~= table_name@.skip(3));
        Some(e)
    } else {
        None
    }
}

} // verus!
