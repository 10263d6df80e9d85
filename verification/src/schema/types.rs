//! Column types read from the PostgreSQL catalog.
use vstd::prelude::*;
use crate::error::TViewError;
use crate::ddl::table::pair_seq;

verus! {

pub open spec fn spec_column_type_query(table: Seq<char>, column: Seq<char>) -> Seq<char> {
    "SELECT format_type(atttypid, atttypmod)\n             FROM pg_attribute\n             WHERE attrelid = '"@ + table
        + "'::regclass\n               AND attname = '"@ + column
        + "'\n               AND attnum > 0\n               AND NOT attisdropped"@
}

/// The catalog query for the formatted type of `table.column`.
pub fn column_type_query(table: &str, column: &str) -> (r: String)
    ensures
        r@ == spec_column_type_query(table@, column@),
{
    let mut r = "SELECT format_type(atttypid, atttypmod)\n             FROM pg_attribute\n             WHERE attrelid = '".to_owned();
    r.append(table);
    r.append("'::regclass\n               AND attname = '");
    r.append(column);
    r.append("'\n               AND attnum > 0\n               AND NOT attisdropped");
    r
}

pub open spec fn spec_table_exists_query(table: Seq<char>) -> Seq<char> {
    "SELECT COUNT(*) = 1 FROM pg_class\n         WHERE relname = '"@ + table + "' AND relkind = 'r'"@
}

/// The catalog query for whether an ordinary table named `table` exists.
pub fn table_exists_query(table: &str) -> (r: String)
    ensures
        r@ == spec_table_exists_query(table@),
{
    let mut r = "SELECT COUNT(*) = 1 FROM pg_class\n         WHERE relname = '".to_owned();
    r.append(table);
    r.append("' AND relkind = 'r'");
    r
}

/// The index of the first column whose type was not found, if any.
pub open spec fn first_missing(found: Seq<Option<String>>) -> Option<int>
    decreases found.len(),
{
    if found.len() == 0 {
        None
    } else {
        match first_missing(found.drop_last()) {
            Some(i) => Some(i),
            None => if found.last() is None {
                Some(found.len() - 1)
            } else {
                None
            },
        }
    }
}

pub open spec fn spec_missing_column_operation(table: Seq<char>, column: Seq<char>) -> Seq<char> {
    "find column '"@ + column + "' in table '"@ + table + "'"@
}

/// Pair each column with the type the catalog gave for it (`found[i]` for
/// `columns[i]`, `None` where the column does not exist). The first column
/// without a type makes the whole inference fail.
pub fn infer_column_types(table_name: &str, columns: &Vec<String>, found: &Vec<Option<String>>) -> (r: Result<
    Vec<(String, String)>,
    TViewError,
>)
    requires
        found@.len() == columns@.len(),
    ensures
        match first_missing(found@) {
            None => r matches Ok(pairs) && pair_seq(pairs@) == Seq::new(
                columns@.len(),
                |i: int| (columns@[i]@, found@[i]->0@),
            ),
            Some(i) => r matches Err(TViewError::CatalogError { operation, pg_error })
                && operation@ == spec_missing_column_operation(table_name@, columns@[i]@)
                && pg_error@ == "Column not found"@,
        },
{
    let mut pairs: Vec<(String, String)> = Vec::new();
    let mut i: usize = 0;
    while i < columns.len()
        invariant
            i <= columns@.len(),
            found@.len() == columns@.len(),
            first_missing(found@.take(i as int)) is None,
            pair_seq(pairs@) == Seq::new(i as nat, |k: int| (columns@[k]@, found@[k]->0@)),
        decreases columns.len() - i,
    {
        assert(found@.take(i + 1).drop_last() =~= found@.take(i as int));
        match &found[i] {
            Some(t) => {
                let ghost before = pair_seq(pairs@);
                pairs.push((columns[i].clone(), t.clone()));
                assert(pair_seq(pairs@) =~= Seq::new((i + 1) as nat, |k: int| (columns@[k]@, found@[k]->0@)))
                    by {
                    assert(pair_seq(pairs@) =~= before.push((columns@[i as int]@, found@[i as int]->0@)));
                }
            },
            None => {
                proof {
                    lemma_first_missing_extends(found@, i as int);
                }
                let mut op = "find column '".to_owned();
                op.append(columns[i].as_str());
                op.append("' in table '");
                op.append(table_name);
                op.append("'");
                return Err(TViewError::CatalogError { operation: op, pg_error: "Column not found".to_owned() });
            },
        }
        i += 1;
    }
    assert(found@.take(columns@.len() as int) =~= found@);
    Ok(pairs)
}

/// The first missing answer of a sequence is found in any prefix that
/// contains it, and a prefix with none leaves it to the rest.
proof fn lemma_first_missing_extends(found: Seq<Option<String>>, i: int)
    requires
        0 <= i < found.len(),
        first_missing(found.take(i)) is None,
        found[i] is None,
    ensures
        first_missing(found) == Some(i),
    decreases found.len() - i,
{
    assert(found.take(i + 1).drop_last() =~= found.take(i));
    if i + 1 < found.len() {
        lemma_first_missing_prefix(found, i + 1);
    } else {
        assert(found.take(i + 1) =~= found);
    }
}

/// Once a prefix has a missing answer, every longer prefix has the same first one.
proof fn lemma_first_missing_prefix(found: Seq<Option<String>>, n: int)
    requires
        0 < n <= found.len(),
        first_missing(found.take(n)) is Some,
    ensures
        first_missing(found) == first_missing(found.take(n)),
    decreases found.len() - n,
{
    if n == found.len() {
        assert(found.take(n) =~= found);
    } else {
        assert(found.take(n + 1).drop_last() =~= found.take(n));
        lemma_first_missing_prefix(found, n + 1);
    }
}

} // verus!
