//! Schema analysis of a TVIEW's SELECT statement.
pub mod parser;
pub mod direct_map;
pub mod inference;
pub mod analyzer;
pub mod types;

use vstd::prelude::*;

verus! {

/// Schema information inferred from a TVIEW SELECT statement.
#[derive(Debug, Clone)]
pub struct TViewSchema {
    pub pk_column: Option<String>,
    pub id_column: Option<String>,
    pub identifier_column: Option<String>,
    pub data_column: Option<String>,
    pub fk_columns: Vec<String>,
    pub uuid_fk_columns: Vec<String>,
    pub additional_columns: Vec<String>,
    pub additional_columns_with_types: Vec<(String, String)>,
    pub entity_name: Option<String>,
}

/// The mathematical content of a `TViewSchema`: every string taken as its characters.
pub struct SchemaModel {
    pub pk_column: Option<Seq<char>>,
    pub id_column: Option<Seq<char>>,
    pub identifier_column: Option<Seq<char>>,
    pub data_column: Option<Seq<char>>,
    pub fk_columns: Seq<Seq<char>>,
    pub uuid_fk_columns: Seq<Seq<char>>,
    pub additional_columns: Seq<Seq<char>>,
    pub additional_columns_with_types: Seq<(Seq<char>, Seq<char>)>,
    pub entity_name: Option<Seq<char>>,
}

pub open spec fn opt_string_view(o: Option<String>) -> Option<Seq<char>> {
    match o {
        Some(s) => Some(s@),
        None => None,
    }
}

pub open spec fn string_views(v: Seq<String>) -> Seq<Seq<char>> {
    v.map_values(|s: String| s@)
}

pub open spec fn pair_string_views(v: Seq<(String, String)>) -> Seq<(Seq<char>, Seq<char>)> {
    v.map_values(|p: (String, String)| (p.0@, p.1@))
}

impl View for TViewSchema {
    type V = SchemaModel;

    open spec fn view(&self) -> SchemaModel {
        SchemaModel {
            pk_column: opt_string_view(self.pk_column),
            id_column: opt_string_view(self.id_column),
            identifier_column: opt_string_view(self.identifier_column),
            data_column: opt_string_view(self.data_column),
            fk_columns: string_views(self.fk_columns@),
            uuid_fk_columns: string_views(self.uuid_fk_columns@),
            additional_columns: string_views(self.additional_columns@),
            additional_columns_with_types: pair_string_views(self.additional_columns_with_types@),
            entity_name: opt_string_view(self.entity_name),
        }
    }
}

/// The schema with nothing known: no columns, no entity.
pub open spec fn empty_schema() -> SchemaModel {
    SchemaModel {
        pk_column: None,
        id_column: None,
        identifier_column: None,
        data_column: None,
        fk_columns: Seq::empty(),
        uuid_fk_columns: Seq::empty(),
        additional_columns: Seq::empty(),
        additional_columns_with_types: Seq::empty(),
        entity_name: None,
    }
}

impl TViewSchema {
    /// An empty schema.
    pub fn new() -> (s: Self)
        ensures
            s@ == empty_schema(),
    {
        let s = TViewSchema {
            pk_column: None,
            id_column: None,
            identifier_column: None,
            data_column: None,
            fk_columns: Vec::new(),
            uuid_fk_columns: Vec::new(),
            additional_columns: Vec::new(),
            additional_columns_with_types: Vec::new(),
            entity_name: None,
        };
        assert(string_views(s.fk_columns@) =~= Seq::<Seq<char>>::empty());
        assert(string_views(s.uuid_fk_columns@) =~= Seq::<Seq<char>>::empty());
        assert(string_views(s.additional_columns@) =~= Seq::<Seq<char>>::empty());
        assert(pair_string_views(s.additional_columns_with_types@) =~= Seq::<
            (Seq<char>, Seq<char>),
        >::empty());
        s
    }
}

impl Default for TViewSchema {
    fn default() -> (s: Self)
        ensures
            s@ == empty_schema(),
    {
        TViewSchema::new()
    }
}

} // verus!
