//! Refreshing many rows of one entity at once: an upsert from the backing
//! view and a delete of the rows whose source is gone, in chunks of at most
//! `pg_tviews.batch_size` keys; and the CASE-based batch update.
use vstd::prelude::*;
use crate::queue::state::string_seq;
use crate::refresh::row::{build_dedup_dml_components, spec_dml_components};
use crate::sql::{join, join_with};
use crate::text::{decimal_int, decimal_string, decimal_string_i64, ends_with, lemma_concat_ends, starts_with};
use crate::error::TViewError;
use crate::sql::{quote_identifier, spec_quote_identifier};

verus! {

/// `pks` cut into consecutive chunks of `size` keys, the last one shorter
/// when `size` does not divide the count.
pub open spec fn spec_chunks(pks: Seq<i64>, size: int) -> Seq<Seq<i64>>
    decreases pks.len(),
{
    if pks.len() == 0 || size <= 0 {
        Seq::empty()
    } else if pks.len() <= size {
        seq![pks]
    } else {
        seq![pks.take(size)] + spec_chunks(pks.skip(size), size)
    }
}

/// The chunks laid end to end.
pub open spec fn concat(chunks: Seq<Seq<i64>>) -> Seq<i64>
    decreases chunks.len(),
{
    if chunks.len() == 0 {
        Seq::empty()
    } else {
        chunks[0] + concat(chunks.drop_first())
    }
}

/// Cut `pks` into chunks of at most `size` keys (see [`spec_chunks`]).
pub fn chunk_pks(pks: &Vec<i64>, size: usize) -> (r: Vec<Vec<i64>>)
    requires
        size > 0,
    ensures
        r@.map_values(|c: Vec<i64>| c@) == spec_chunks(pks@, size as int),
{
    let ghost cv = pks@;
    let mut chunks: Vec<Vec<i64>> = Vec::new();
    let mut start: usize = 0;
    assert(cv.skip(0) =~= cv);
    while start < pks.len()
        invariant
            size > 0,
            start <= pks@.len(),
            cv == pks@,
            chunks@.map_values(|c: Vec<i64>| c@) + spec_chunks(cv.skip(start as int), size as int) == spec_chunks(cv, size as int),
        decreases pks.len() - start,
    {
        let rest = pks.len() - start;
        let n = if rest <= size { rest } else { size };
        let mut c: Vec<i64> = Vec::new();
        let mut j: usize = 0;
        while j < n
            invariant
                j <= n,
                start + n <= pks.len(),
                c@ == cv.subrange(start as int, start + j),
                cv == pks@,
            decreases n - j,
        {
            c.push(pks[start + j]);
            assert(c@ =~= cv.subrange(start as int, start + j + 1));
            j += 1;
        }
        let ghost before = chunks@.map_values(|c: Vec<i64>| c@);
        let ghost s = cv.skip(start as int);
        assert(c@ =~= s.take(n as int));
        chunks.push(c);
        assert(chunks@.map_values(|c: Vec<i64>| c@) =~= before.push(s.take(n as int)));
        if rest <= size {
            assert(s.take(n as int) =~= s);
            assert(cv.skip(start + n) =~= Seq::<i64>::empty());
            assert(spec_chunks(s, size as int) == seq![s]);
        } else {
            assert(s.skip(size as int) =~= cv.skip(start + n));
        }
        assert(before.push(s.take(n as int)) + spec_chunks(cv.skip(start + n), size as int) =~= before + spec_chunks(s, size as int));
        start = start + n;
    }
    assert(spec_chunks(cv.skip(start as int), size as int) =~= Seq::<Seq<i64>>::empty());
    assert(chunks@.map_values(|c: Vec<i64>| c@) =~= chunks@.map_values(|c: Vec<i64>| c@) + Seq::<Seq<i64>>::empty());
    chunks
}

/// Chunking keeps every key, in order, and no chunk is empty or larger than `size`.
pub proof fn law_chunks_cover(pks: Seq<i64>, size: int)
    requires
        size > 0,
    ensures
        concat(spec_chunks(pks, size)) == pks,
        forall|i: int| 0 <= i < spec_chunks(pks, size).len() ==> 0 < #[trigger] spec_chunks(pks, size)[i].len() <= size,
    decreases pks.len(),
{
    if pks.len() == 0 {
    } else if pks.len() <= size {
        assert(seq![pks].drop_first() =~= Seq::<Seq<i64>>::empty());
        assert(concat(seq![pks]) =~= pks + concat(Seq::<Seq<i64>>::empty()));
    } else {
        law_chunks_cover(pks.skip(size), size);
        let c = spec_chunks(pks, size);
        assert(c.drop_first() =~= spec_chunks(pks.skip(size), size));
        assert(pks.take(size) + pks.skip(size) =~= pks);
        assert forall|i: int| 0 <= i < c.len() implies 0 < #[trigger] c[i].len() <= size by {
            if i > 0 {
                assert(c[i] == spec_chunks(pks.skip(size), size)[i - 1]);
            }
        }
    }
}

/// The bulk upsert (`$1` a chunk of keys): every key that still resolves in
/// the view is inserted, or its row updated.
pub open spec fn spec_bulk_upsert_sql(tv_name: Seq<char>, view_name: Seq<char>, entity: Seq<char>, cols: Seq<Seq<char>>) -> Seq<char> {
    let pk = "pk_"@ + entity;
    let (cl, upd) = spec_dml_components(cols, pk);
    "INSERT INTO "@ + tv_name + " ("@ + cl + ") SELECT "@ + cl + " FROM "@ + view_name + " WHERE "@ + pk
        + " = ANY($1) ON CONFLICT ("@ + pk + ") DO UPDATE SET "@ + upd
}

/// The bulk delete (`$1` a chunk of keys): rows of those keys that the view
/// no longer has.
pub open spec fn spec_bulk_delete_sql(tv_name: Seq<char>, view_name: Seq<char>, entity: Seq<char>) -> Seq<char> {
    let pk = "pk_"@ + entity;
    "DELETE FROM "@ + tv_name + " t WHERE t."@ + pk + " = ANY($1) AND NOT EXISTS (SELECT 1 FROM "@ + view_name
        + " v WHERE v."@ + pk + " = t."@ + pk + ")"@
}

/// The two statements of a bulk refresh; `None` when the view lists no
/// column (nothing is refreshed).
pub fn bulk_statements(tv_name: &str, view_name: &str, entity: &str, col_names: &Vec<String>) -> (r: Option<(String, String)>)
    ensures
        col_names@.len() == 0 ==> r is None,
        col_names@.len() > 0 ==> (r matches Some((u, d)) && u@ == spec_bulk_upsert_sql(tv_name@, view_name@, entity@, string_seq(col_names@))
            && d@ == spec_bulk_delete_sql(tv_name@, view_name@, entity@)),
{
    if col_names.len() == 0 {
        return None;
    }
    let mut pk = "pk_".to_owned();
    pk.append(entity);
    let (cl, upd) = build_dedup_dml_components(col_names, pk.as_str());
    let mut u = "INSERT INTO ".to_owned();
    u.append(tv_name);
    u.append(" (");
    u.append(cl.as_str());
    u.append(") SELECT ");
    u.append(cl.as_str());
    u.append(" FROM ");
    u.append(view_name);
    u.append(" WHERE ");
    u.append(pk.as_str());
    u.append(" = ANY($1) ON CONFLICT (");
    u.append(pk.as_str());
    u.append(") DO UPDATE SET ");
    u.append(upd.as_str());
    let mut d = "DELETE FROM ".to_owned();
    d.append(tv_name);
    d.append(" t WHERE t.");
    d.append(pk.as_str());
    d.append(" = ANY($1) AND NOT EXISTS (SELECT 1 FROM ");
    d.append(view_name);
    d.append(" v WHERE v.");
    d.append(pk.as_str());
    d.append(" = t.");
    d.append(pk.as_str());
    d.append(")");
    Some((u, d))
}

/// Below this many keys, rows are refreshed one by one.
pub const BATCH_THRESHOLD: usize = 10;

/// How a batch of keys is refreshed.
#[derive(Debug, Clone, Copy, PartialEq, Eq, Structural)]
pub enum BatchMode {
    Nothing,
    Individual,
    Batched,
}

pub fn batch_mode(n: usize) -> (r: BatchMode)
    ensures
        n == 0 ==> r == BatchMode::Nothing,
        0 < n < BATCH_THRESHOLD ==> r == BatchMode::Individual,
        n >= BATCH_THRESHOLD ==> r == BatchMode::Batched,
{
    if n == 0 {
        BatchMode::Nothing
    } else if n < BATCH_THRESHOLD {
        BatchMode::Individual
    } else {
        BatchMode::Batched
    }
}

pub open spec fn pk_list(pks: Seq<i64>) -> Seq<char> {
    join_with(pks.map_values(|p: i64| decimal_int(p as int)), ", "@)
}

fn pk_list_exec(pks: &Vec<i64>) -> (r: String)
    ensures
        r@ == pk_list(pks@),
{
    let mut parts: Vec<String> = Vec::new();
    let mut i: usize = 0;
    while i < pks.len()
        invariant
            i <= pks@.len(),
            string_seq(parts@) == pks@.take(i as int).map_values(|p: i64| decimal_int(p as int)),
        decreases pks.len() - i,
    {
        let ghost before = string_seq(parts@);
        parts.push(decimal_string_i64(pks[i]));
        assert(pks@.take(i + 1) =~= pks@.take(i as int).push(pks@[i as int]));
        assert(string_seq(parts@) =~= before.push(decimal_int(pks@[i as int] as int)));
        i += 1;
    }
    assert(pks@.take(pks@.len() as int) =~= pks@);
    join(&parts, ", ")
}

/// `SELECT pk_<e>, data FROM v_<e> WHERE pk_<e> IN (<keys>)`.
pub open spec fn spec_batch_select_sql(entity: Seq<char>, pks: Seq<i64>) -> Seq<char> {
    "SELECT pk_"@ + entity + ", data FROM v_"@ + entity + " WHERE pk_"@ + entity + " IN ("@ + pk_list(pks) + ")"@
}

pub fn batch_select_sql(entity: &str, pks: &Vec<i64>) -> (r: String)
    ensures
        r@ == spec_batch_select_sql(entity@, pks@),
{
    let mut r = "SELECT pk_".to_owned();
    r.append(entity);
    r.append(", data FROM v_");
    r.append(entity);
    r.append(" WHERE pk_");
    r.append(entity);
    r.append(" IN (");
    r.append(pk_list_exec(pks).as_str());
    r.append(")");
    r
}

/// The `WHEN` lines of the batch update, one per row found, the i-th bound
/// to parameter i (written `$ i`).
pub open spec fn when_lines(entity: Seq<char>, found: Seq<i64>) -> Seq<Seq<char>> {
    Seq::new(found.len(), |i: int| "WHEN pk_"@ + entity + " = "@ + decimal_int(found[i] as int) + " THEN $ "@ + crate::text::decimal((i + 1) as nat))
}

/// `UPDATE tv_<e> SET data = CASE ... ELSE data END, updated_at = now()
/// WHERE pk_<e> IN (<all keys>)`.
pub open spec fn spec_batch_update_sql(entity: Seq<char>, found: Seq<i64>, pks: Seq<i64>) -> Seq<char> {
    "UPDATE tv_"@ + entity + " SET data = CASE\n"@ + join_with(when_lines(entity, found), "\n"@) + "\nELSE data\nEND, updated_at = now() WHERE pk_"@
        + entity + " IN ("@ + pk_list(pks) + ")"@
}

/// The batch update for the rows found (their documents bound in order).
pub fn batch_update_sql(entity: &str, found: &Vec<i64>, pks: &Vec<i64>) -> (r: String)
    requires
        found@.len() < u64::MAX,
    ensures
        r@ == spec_batch_update_sql(entity@, found@, pks@),
{
    let ghost wl = when_lines(entity@, found@);
    let mut lines: Vec<String> = Vec::new();
    let mut i: usize = 0;
    while i < found.len()
        invariant
            i <= found@.len(),
            found@.len() < u64::MAX,
            wl == when_lines(entity@, found@),
            string_seq(lines@) == wl.take(i as int),
        decreases found.len() - i,
    {
        let mut l = "WHEN pk_".to_owned();
        l.append(entity);
        l.append(" = ");
        l.append(decimal_string_i64(found[i]).as_str());
        l.append(" THEN $ ");
        l.append(decimal_string((i + 1) as u64).as_str());
        let ghost before = string_seq(lines@);
        assert(l@ == wl[i as int]);
        lines.push(l);
        assert(wl.take(i + 1) =~= wl.take(i as int).push(wl[i as int]));
        assert(string_seq(lines@) =~= wl.take(i + 1));
        i += 1;
    }
    assert(wl.take(found@.len() as int) =~= wl);
    let mut r = "UPDATE tv_".to_owned();
    r.append(entity);
    r.append(" SET data = CASE\n");
    r.append(join(&lines, "\n").as_str());
    r.append("\nELSE data\nEND, updated_at = now() WHERE pk_");
    r.append(entity);
    r.append(" IN (");
    r.append(pk_list_exec(pks).as_str());
    r.append(")");
    r
}


/// The two statements that rebuild a whole TVIEW table from its view:
/// `TRUNCATE` it, then insert every row of the view (columns quoted).
pub open spec fn spec_full_refresh(tv_name: Seq<char>, view_name: Seq<char>, cols: Seq<Seq<char>>) -> (Seq<char>, Seq<char>) {
    let cl = join_with(cols.map_values(|c: Seq<char>| spec_quote_identifier(c)), ", "@);
    ("TRUNCATE "@ + spec_quote_identifier(tv_name),
     "INSERT INTO "@ + spec_quote_identifier(tv_name) + " ("@ + cl + ") SELECT "@ + cl + " FROM "@ + spec_quote_identifier(view_name))
}

/// The statements of a full refresh; a view without columns is an error.
pub fn full_refresh_statements(tv_name: &str, view_name: &str, view_columns: &Vec<String>) -> (r: Result<(String, String), TViewError>)
    ensures
        view_columns.len() == 0 ==> (r matches Err(TViewError::CatalogError { operation, pg_error })
            && operation@ == "Get columns for view "@ + view_name@ && pg_error@ == "View has no selectable columns"@),
        view_columns.len() > 0 ==> (r matches Ok((t, i)) && t@ == spec_full_refresh(tv_name@, view_name@, string_seq(view_columns@)).0
            && i@ == spec_full_refresh(tv_name@, view_name@, string_seq(view_columns@)).1),
{
    if view_columns.len() == 0 {
        let mut op = "Get columns for view ".to_owned();
        op.append(view_name);
        return Err(TViewError::CatalogError { operation: op, pg_error: "View has no selectable columns".to_owned() });
    }
    let mut quoted: Vec<String> = Vec::new();
    let mut i: usize = 0;
    while i < view_columns.len()
        invariant
            i <= view_columns@.len(),
            string_seq(quoted@) == string_seq(view_columns@).take(i as int).map_values(|c: Seq<char>| spec_quote_identifier(c)),
        decreases view_columns.len() - i,
    {
        let ghost before = string_seq(quoted@);
        quoted.push(quote_identifier(view_columns[i].as_str()));
        assert(string_seq(view_columns@).take(i + 1) =~= string_seq(view_columns@).take(i as int).push(view_columns@[i as int]@));
        assert(string_seq(quoted@) =~= before.push(spec_quote_identifier(view_columns@[i as int]@)));
        i += 1;
    }
    assert(string_seq(view_columns@).take(view_columns@.len() as int) =~= string_seq(view_columns@));
    let cl = join(&quoted, ", ");
    let qt = quote_identifier(tv_name);
    let mut t = "TRUNCATE ".to_owned();
    t.append(qt.as_str());
    let mut ins = "INSERT INTO ".to_owned();
    ins.append(qt.as_str());
    ins.append(" (");
    ins.append(cl.as_str());
    ins.append(") SELECT ");
    ins.append(cl.as_str());
    ins.append(" FROM ");
    ins.append(quote_identifier(view_name).as_str());
    Ok((t, ins))
}


/// A full refresh empties the TVIEW table and refills that same table from
/// its backing view: it truncates the quoted table, inserts into it, and
/// reads from the quoted view, the same columns on both sides.
pub proof fn law_full_refresh_reads_the_view(tv_name: Seq<char>, view_name: Seq<char>, cols: Seq<Seq<char>>)
    ensures
        ({
            let (t, i) = spec_full_refresh(tv_name, view_name, cols);
            &&& t == "TRUNCATE "@ + spec_quote_identifier(tv_name)
            &&& starts_with(i, "INSERT INTO "@ + spec_quote_identifier(tv_name) + " ("@)
            &&& ends_with(i, " FROM "@ + spec_quote_identifier(view_name))
            &&& exists|cl: Seq<char>| i == "INSERT INTO "@ + spec_quote_identifier(tv_name) + " ("@ + cl + ") SELECT "@ + cl
                + " FROM "@ + spec_quote_identifier(view_name)
        }),
{
    let cl = join_with(cols.map_values(|c: Seq<char>| spec_quote_identifier(c)), ", "@);
    let head = "INSERT INTO "@ + spec_quote_identifier(tv_name) + " ("@;
    let tail = " FROM "@ + spec_quote_identifier(view_name);
    let i = spec_full_refresh(tv_name, view_name, cols).1;
    let mid = cl + ") SELECT "@ + cl;
    assert(i =~= head + (mid + tail));
    assert(i =~= (head + mid) + tail);
    lemma_concat_ends(head + mid, tail, Seq::empty());
    lemma_concat_ends(Seq::empty(), head, mid + tail);
    assert(i == "INSERT INTO "@ + spec_quote_identifier(tv_name) + " ("@ + cl + ") SELECT "@ + cl
        + " FROM "@ + spec_quote_identifier(view_name));
}

} // verus!
