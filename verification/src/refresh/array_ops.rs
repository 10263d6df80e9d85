//! Statements that insert, delete, find and update one element of a JSONB
//! array inside a TVIEW row, with the `jsonb_delta` functions where they are
//! installed and PostgreSQL's own functions where they are not.
use vstd::prelude::*;
use crate::error::TViewError;
use crate::queue::state::string_seq;
use crate::sql::{join, join_with};
use crate::text::{chars_of, decimal_int, decimal_string_i64, push_char};

verus! {

/// Whether the `jsonb_delta` array insert and delete functions are installed.
pub const ARRAY_FUNCTIONS_QUERY: &'static str = "\n        SELECT EXISTS(\n            SELECT 1 FROM pg_proc\n            WHERE proname = 'jsonb_array_insert_where'\n               OR proname = 'jsonb_array_delete_where'\n        )\n    ";

/// Whether the `jsonb_delta` path update function is installed.
pub const PATH_FUNCTION_QUERY: &'static str = "SELECT EXISTS(SELECT 1 FROM pg_proc WHERE proname = 'jsonb_delta_array_update_where_path')";

/// `ARRAY['<path joined by commas>']`: the array path as the insert and
/// delete statements write it (one text element holding the whole path).
pub open spec fn spec_path_array(path: Seq<Seq<char>>) -> Seq<char> {
    "ARRAY['"@ + join_with(path, ","@) + "']"@
}

fn path_array(path: &Vec<String>) -> (r: String)
    ensures
        r@ == spec_path_array(string_seq(path@)),
{
    let mut r = "ARRAY['".to_owned();
    r.append(join(path, ",").as_str());
    r.append("']");
    r
}

pub open spec fn spec_insert_element_sql(
    table: Seq<char>,
    pk_column: Seq<char>,
    path: Seq<Seq<char>>,
    sort_key: Option<Seq<char>>,
) -> Seq<char> {
    "\n            UPDATE "@ + table + " SET\n                data = jsonb_array_insert_where(data, "@ + spec_path_array(path) + match sort_key {
        Some(k) => ", $1, '"@ + k + "', 'ASC'),"@,
        None => ", $1, NULL, NULL),"@,
    } + "\n                updated_at = now()\n            WHERE "@ + pk_column + " = $2\n            "@
}

/// The statement that inserts `$1` into the array at `array_path` of the row
/// whose `pk_column` is `$2`: in ascending order of `sort_key` when one is
/// given, at the end otherwise.
pub fn insert_array_element_sql(table_name: &str, pk_column: &str, array_path: &Vec<String>, sort_key: Option<&str>) -> (r:
    String)
    ensures
        r@ == spec_insert_element_sql(
            table_name@,
            pk_column@,
            string_seq(array_path@),
            match sort_key {
                Some(k) => Some(k@),
                None => None,
            },
        ),
{
    let mut r = "\n            UPDATE ".to_owned();
    r.append(table_name);
    r.append(" SET\n                data = jsonb_array_insert_where(data, ");
    r.append(path_array(array_path).as_str());
    match sort_key {
        Some(k) => {
            r.append(", $1, '");
            r.append(k);
            r.append("', 'ASC'),");
        },
        None => {
            r.append(", $1, NULL, NULL),");
        },
    }
    r.append("\n                updated_at = now()\n            WHERE ");
    r.append(pk_column);
    r.append(" = $2\n            ");
    r
}

pub open spec fn spec_delete_element_sql(table: Seq<char>, pk_column: Seq<char>, path: Seq<Seq<char>>, match_key: Seq<char>) -> Seq<
    char,
> {
    "\n        UPDATE "@ + table + " SET\n            data = jsonb_array_delete_where(data, "@ + spec_path_array(path) + ", '"@ + match_key
        + "', $1),\n            updated_at = now()\n        WHERE "@ + pk_column + " = $2\n        "@
}

/// The statement that removes from the array at `array_path` of the row
/// whose `pk_column` is `$2` the elements whose `match_key` is `$1`.
pub fn delete_array_element_sql(table_name: &str, pk_column: &str, array_path: &Vec<String>, match_key: &str) -> (r: String)
    ensures
        r@ == spec_delete_element_sql(table_name@, pk_column@, string_seq(array_path@), match_key@),
{
    let mut r = "\n        UPDATE ".to_owned();
    r.append(table_name);
    r.append(" SET\n            data = jsonb_array_delete_where(data, ");
    r.append(path_array(array_path).as_str());
    r.append(", '");
    r.append(match_key);
    r.append("', $1),\n            updated_at = now()\n        WHERE ");
    r.append(pk_column);
    r.append(" = $2\n        ");
    r
}

pub open spec fn spec_element_exists_sql(path: Seq<Seq<char>>, id_key: Seq<char>, with_delta: bool) -> Seq<char> {
    if with_delta {
        "SELECT jsonb_array_contains_id($1::jsonb, ARRAY['"@ + join_with(path, "','"@) + "'], '"@ + id_key + "', $2::jsonb)"@
    } else {
        "SELECT EXISTS(\n                SELECT 1 FROM jsonb_path_query($1::jsonb, '$."@ + join_with(path, "."@) + "[*] ? (@."@
            + id_key + " == $2)')\n            )"@
    }
}

/// The query for whether the array at `array_path` of the document `$1`
/// holds an element whose `id_key` is `$2`: `jsonb_array_contains_id` when
/// `jsonb_delta` is installed, a JSON path query otherwise.
pub fn array_element_exists_sql(array_path: &Vec<String>, id_key: &str, with_delta: bool) -> (r: String)
    ensures
        r@ == spec_element_exists_sql(string_seq(array_path@), id_key@, with_delta),
{
    if with_delta {
        let mut r = "SELECT jsonb_array_contains_id($1::jsonb, ARRAY['".to_owned();
        r.append(join(array_path, "','").as_str());
        r.append("'], '");
        r.append(id_key);
        r.append("', $2::jsonb)");
        r
    } else {
        let mut r = "SELECT EXISTS(\n                SELECT 1 FROM jsonb_path_query($1::jsonb, '$.".to_owned();
        r.append(join(array_path, ".").as_str());
        r.append("[*] ? (@.");
        r.append(id_key);
        r.append(" == $2)')\n            )");
        r
    }
}

pub open spec fn spec_select_data_sql(table: Seq<char>, pk_column: Seq<char>) -> Seq<char> {
    "SELECT data FROM "@ + table + " WHERE "@ + pk_column + " = $1"@
}

/// The query for the `data` of the row whose `pk_column` is `$1`.
pub fn select_data_sql(table_name: &str, pk_column: &str) -> (r: String)
    ensures
        r@ == spec_select_data_sql(table_name@, pk_column@),
{
    let mut r = "SELECT data FROM ".to_owned();
    r.append(table_name);
    r.append(" WHERE ");
    r.append(pk_column);
    r.append(" = $1");
    r
}

/// What an insert that must not duplicate an element does next.
#[derive(Debug, Clone, Copy, PartialEq, Eq)]
pub enum InsertSafeStep {
    /// The element is already in the array: nothing is inserted.
    Skip,
    /// The element is not there yet: insert it.
    Insert,
}

/// Decide a duplicate-free insert from the existence check on the row's
/// current data (`None`: the table has no row with that key).
pub fn insert_safe_step(table_name: &str, pk_column: &str, pk_value: i64, element_exists: Option<bool>) -> (r: Result<
    InsertSafeStep,
    TViewError,
>)
    ensures
        element_exists == Some(true) ==> r == Ok::<InsertSafeStep, TViewError>(InsertSafeStep::Skip),
        element_exists == Some(false) ==> r == Ok::<InsertSafeStep, TViewError>(InsertSafeStep::Insert),
        element_exists is None ==> (r matches Err(TViewError::SpiError { query, error })
            && query@ == spec_select_data_sql(table_name@, pk_column@)
            && error@ == "No row found with "@ + pk_column@ + " = "@ + decimal_int(pk_value as int)),
{
    match element_exists {
        Some(true) => Ok(InsertSafeStep::Skip),
        Some(false) => Ok(InsertSafeStep::Insert),
        None => {
            let mut e = "No row found with ".to_owned();
            e.append(pk_column);
            e.append(" = ");
            e.append(decimal_string_i64(pk_value).as_str());
            Err(TViewError::SpiError { query: select_data_sql(table_name, pk_column), error: e })
        },
    }
}

pub open spec fn spec_path_update_sql(
    table: Seq<char>,
    pk_column: Seq<char>,
    array_path: Seq<char>,
    match_key: Seq<char>,
    nested_path: Seq<char>,
) -> Seq<char> {
    "UPDATE "@ + table + " SET data = jsonb_delta_array_update_where_path(\n                data, '"@ + array_path + "', '"@
        + match_key + "', $1::jsonb, '"@ + nested_path + "', $2::jsonb\n            ) WHERE "@ + pk_column + " = $3"@
}

/// The `jsonb_delta` statement that sets `nested_path` to `$2` inside the
/// element of the array `array_path` whose `match_key` is `$1`, in the row
/// whose `pk_column` is `$3`.
pub fn path_update_sql(table_name: &str, pk_column: &str, array_path: &str, match_key: &str, nested_path: &str) -> (r: String)
    ensures
        r@ == spec_path_update_sql(table_name@, pk_column@, array_path@, match_key@, nested_path@),
{
    let mut r = "UPDATE ".to_owned();
    r.append(table_name);
    r.append(" SET data = jsonb_delta_array_update_where_path(\n                data, '");
    r.append(array_path);
    r.append("', '");
    r.append(match_key);
    r.append("', $1::jsonb, '");
    r.append(nested_path);
    r.append("', $2::jsonb\n            ) WHERE ");
    r.append(pk_column);
    r.append(" = $3");
    r
}

pub open spec fn spec_element_index_sql(table: Seq<char>, pk_column: Seq<char>, array_path: Seq<char>, match_key: Seq<char>) -> Seq<
    char,
> {
    "SELECT idx - 1 FROM "@ + table + ",\n             jsonb_array_elements(data->'"@ + array_path
        + "') WITH ORDINALITY arr(elem, idx)\n             WHERE elem->>'"@ + match_key + "' = $1::jsonb->>'"@ + match_key
        + "' AND "@ + pk_column + " = $2\n             LIMIT 1"@
}

/// The query for the zero-based position, in the array `array_path` of the
/// row whose `pk_column` is `$2`, of the first element whose `match_key`
/// equals that of `$1`.
pub fn element_index_sql(table_name: &str, pk_column: &str, array_path: &str, match_key: &str) -> (r: String)
    ensures
        r@ == spec_element_index_sql(table_name@, pk_column@, array_path@, match_key@),
{
    let mut r = "SELECT idx - 1 FROM ".to_owned();
    r.append(table_name);
    r.append(",\n             jsonb_array_elements(data->'");
    r.append(array_path);
    r.append("') WITH ORDINALITY arr(elem, idx)\n             WHERE elem->>'");
    r.append(match_key);
    r.append("' = $1::jsonb->>'");
    r.append(match_key);
    r.append("' AND ");
    r.append(pk_column);
    r.append(" = $2\n             LIMIT 1");
    r
}

/// `s` with every `from` replaced by `to`.
pub open spec fn replace_char(s: Seq<char>, from: char, to: char) -> Seq<char> {
    s.map_values(|c: char| if c == from { to } else { c })
}

/// The `jsonb_set` path of a nested field inside an array element, in text
/// form: the array's key, the element's position, then each dot-separated
/// part of `nested_path`, all joined by commas.
pub open spec fn spec_element_field_path(array_path: Seq<char>, index: int, nested_path: Seq<char>) -> Seq<char> {
    array_path + ","@ + decimal_int(index) + ","@ + replace_char(nested_path, '.', ',')
}

pub fn element_field_path(array_path: &str, index: i32, nested_path: &str) -> (r: String)
    ensures
        r@ == spec_element_field_path(array_path@, index as int, nested_path@),
{
    let mut r = array_path.to_owned();
    r.append(",");
    r.append(decimal_string_i64(index as i64).as_str());
    r.append(",");
    let v = chars_of(nested_path);
    let ghost base = r@;
    let mut i: usize = 0;
    while i < v.len()
        invariant
            i <= v@.len(),
            v@ == nested_path@,
            r@ == base + replace_char(v@.take(i as int), '.', ','),
        decreases v.len() - i,
    {
        let c = v[i];
        if c == '.' {
            push_char(&mut r, ',');
        } else {
            push_char(&mut r, c);
        }
        assert(replace_char(v@.take(i + 1), '.', ',') =~= replace_char(v@.take(i as int), '.', ',').push(
            if c == '.' { ',' } else { c },
        ));
        i += 1;
    }
    assert(v@.take(v@.len() as int) =~= v@);
    r
}

pub open spec fn spec_jsonb_set_sql(table: Seq<char>, pk_column: Seq<char>, path: Seq<char>) -> Seq<char> {
    "UPDATE "@ + table + " SET data = jsonb_set(data, '{"@ + path + "}'::text[], $1::jsonb) WHERE "@ + pk_column + " = $2"@
}

/// The fallback statement that sets the nested field `nested_path` of the
/// array element at `index` to `$1`, in the row whose `pk_column` is `$2`.
pub fn jsonb_set_sql(table_name: &str, pk_column: &str, array_path: &str, index: i32, nested_path: &str) -> (r: String)
    ensures
        r@ == spec_jsonb_set_sql(table_name@, pk_column@, spec_element_field_path(array_path@, index as int, nested_path@)),
{
    let mut r = "UPDATE ".to_owned();
    r.append(table_name);
    r.append(" SET data = jsonb_set(data, '{");
    r.append(element_field_path(array_path, index, nested_path).as_str());
    r.append("}'::text[], $1::jsonb) WHERE ");
    r.append(pk_column);
    r.append(" = $2");
    r
}

} // verus!
