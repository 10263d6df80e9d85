//! Dropping a TVIEW: its table, its backing view and its metadata row.
use vstd::prelude::*;
use crate::error::TViewError;
use crate::cascade::{trim_start_all, trim_start_all_exec};
use crate::text::{decimal, decimal_string};

verus! {

/// The entity of a TVIEW being dropped: the name without any leading `tv_`s.
pub fn drop_entity_name(tview_name: &str) -> (r: String)
    ensures
        r@ == trim_start_all(tview_name@, "tv_"@),
{
    trim_start_all_exec(tview_name, "tv_")
}

/// Whether to go on with a drop: an unregistered entity is an error unless
/// `IF EXISTS` was given, in which case there is nothing to do (`Ok(false)`).
pub fn check_drop(entity: &str, registered: bool, if_exists: bool) -> (r: Result<bool, TViewError>)
    ensures
        registered ==> r == Ok::<bool, TViewError>(true),
        !registered && if_exists ==> r == Ok::<bool, TViewError>(false),
        !registered && !if_exists ==> (r matches Err(TViewError::MetadataNotFound { entity: e }) && e@ == entity@),
{
    if !registered && !if_exists {
        return Err(TViewError::MetadataNotFound { entity: entity.to_owned() });
    }
    Ok(registered)
}

/// The query for the quoted, schema-qualified name of the relation `oid`.
pub open spec fn spec_qualified_name_query(oid: nat) -> Seq<char> {
    "SELECT quote_ident(n.nspname::text) || '.' || quote_ident(c.relname::text) FROM pg_class c JOIN pg_namespace n ON c.relnamespace = n.oid WHERE c.oid = "@
        + decimal(oid)
}

pub fn qualified_name_query(oid: u32) -> (r: String)
    ensures
        r@ == spec_qualified_name_query(oid as nat),
{
    let mut r = "SELECT quote_ident(n.nspname::text) || '.' || quote_ident(c.relname::text) FROM pg_class c JOIN pg_namespace n ON c.relnamespace = n.oid WHERE c.oid = ".to_owned();
    r.append(decimal_string(oid as u64).as_str());
    r
}

/// `DROP <kind> IF EXISTS <qualified name>`.
pub fn drop_object_sql(kind: &str, qualified_name: &str) -> (r: String)
    ensures
        r@ == "DROP "@ + kind@ + " IF EXISTS "@ + qualified_name@,
{
    let mut r = "DROP ".to_owned();
    r.append(kind);
    r.append(" IF EXISTS ");
    r.append(qualified_name);
    r
}

} // verus!
