//! The triggers a TVIEW installs on each base table: a row trigger that
//! enqueues refreshes and a statement trigger that flushes them.
use vstd::prelude::*;
use crate::ddl::table::{qualified, spec_qualified};
use crate::sql::{quote_identifier, spec_quote_identifier};
use crate::text::{contains_seq, ends_with, lemma_concat_ends, lemma_contains_middle, starts_with};

verus! {

/// `<prefix><entity>_on_<schema>_<table>`.
pub open spec fn spec_trigger_name(prefix: Seq<char>, entity: Seq<char>, schema: Seq<char>, table: Seq<char>) -> Seq<char> {
    prefix + entity + "_on_"@ + schema + "_"@ + table
}

fn trigger_name(prefix: &str, entity: &str, schema: &str, table: &str) -> (r: String)
    ensures
        r@ == spec_trigger_name(prefix@, entity@, schema@, table@),
{
    let mut r = prefix.to_owned();
    r.append(entity);
    r.append("_on_");
    r.append(schema);
    r.append("_");
    r.append(table);
    r
}

/// The statements that manage one base table's triggers for one TVIEW.
#[derive(Debug, Clone, PartialEq, Eq)]
pub struct TriggerStatements {
    pub row_trigger: String,
    pub flush_trigger: String,
    pub create_row: String,
    pub create_flush: String,
    pub drop_row: String,
    pub drop_flush: String,
}

pub open spec fn spec_create_trigger(name: Seq<char>, table: Seq<char>, per_row: bool) -> Seq<char> {
    if per_row {
        "CREATE TRIGGER "@ + spec_quote_identifier(name) + "\n             AFTER INSERT OR UPDATE OR DELETE ON "@ + table
            + "\n             FOR EACH ROW\n             EXECUTE FUNCTION pg_tview_trigger_handler()"@
    } else {
        "CREATE TRIGGER "@ + spec_quote_identifier(name) + "\n                 AFTER INSERT OR UPDATE OR DELETE ON "@ + table
            + "\n                 FOR EACH STATEMENT\n                 EXECUTE FUNCTION pg_tview_flush_trigger()"@
    }
}

pub open spec fn spec_drop_trigger(name: Seq<char>, table: Seq<char>) -> Seq<char> {
    "DROP TRIGGER IF EXISTS "@ + spec_quote_identifier(name) + " ON "@ + table
}

/// The trigger names and statements for the TVIEW of `entity` on
/// `schema.table`.
pub fn trigger_statements(entity: &str, schema: &str, table: &str) -> (r: TriggerStatements)
    ensures
        r.row_trigger@ == spec_trigger_name("trg_tview_"@, entity@, schema@, table@),
        r.flush_trigger@ == spec_trigger_name("trg_tview_flush_"@, entity@, schema@, table@),
        r.create_row@ == spec_create_trigger(r.row_trigger@, spec_qualified(schema@, table@), true),
        r.create_flush@ == spec_create_trigger(r.flush_trigger@, spec_qualified(schema@, table@), false),
        r.drop_row@ == spec_drop_trigger(r.row_trigger@, spec_qualified(schema@, table@)),
        r.drop_flush@ == spec_drop_trigger(r.flush_trigger@, spec_qualified(schema@, table@)),
{
    let qt = qualified(schema, table);
    let row_trigger = trigger_name("trg_tview_", entity, schema, table);
    let flush_trigger = trigger_name("trg_tview_flush_", entity, schema, table);
    let mut create_row = "CREATE TRIGGER ".to_owned();
    create_row.append(quote_identifier(row_trigger.as_str()).as_str());
    create_row.append("\n             AFTER INSERT OR UPDATE OR DELETE ON ");
    create_row.append(qt.as_str());
    create_row.append("\n             FOR EACH ROW\n             EXECUTE FUNCTION pg_tview_trigger_handler()");
    let mut create_flush = "CREATE TRIGGER ".to_owned();
    create_flush.append(quote_identifier(flush_trigger.as_str()).as_str());
    create_flush.append("\n                 AFTER INSERT OR UPDATE OR DELETE ON ");
    create_flush.append(qt.as_str());
    create_flush.append("\n                 FOR EACH STATEMENT\n                 EXECUTE FUNCTION pg_tview_flush_trigger()");
    let mut drop_row = "DROP TRIGGER IF EXISTS ".to_owned();
    drop_row.append(quote_identifier(row_trigger.as_str()).as_str());
    drop_row.append(" ON ");
    drop_row.append(qt.as_str());
    let mut drop_flush = "DROP TRIGGER IF EXISTS ".to_owned();
    drop_flush.append(quote_identifier(flush_trigger.as_str()).as_str());
    drop_flush.append(" ON ");
    drop_flush.append(qt.as_str());
    TriggerStatements { row_trigger, flush_trigger, create_row, create_flush, drop_row, drop_flush }
}


/// Both triggers fire after every kind of row change, INSERT, UPDATE and
/// DELETE, on the given table: the row trigger for each row (enqueueing
/// through `pg_tview_trigger_handler`), the flush trigger once per statement
/// (through `pg_tview_flush_trigger`); and each statement creates the quoted
/// trigger name it is given.
pub proof fn law_triggers_fire_on_every_change(name: Seq<char>, table: Seq<char>, per_row: bool)
    ensures
        starts_with(spec_create_trigger(name, table, per_row), "CREATE TRIGGER "@ + spec_quote_identifier(name)),
        contains_seq(spec_create_trigger(name, table, per_row), "AFTER INSERT OR UPDATE OR DELETE ON "@ + table + "\n"@),
        per_row ==> contains_seq(spec_create_trigger(name, table, per_row), "FOR EACH ROW\n"@),
        per_row ==> ends_with(spec_create_trigger(name, table, per_row), "EXECUTE FUNCTION pg_tview_trigger_handler()"@),
        !per_row ==> contains_seq(spec_create_trigger(name, table, per_row), "FOR EACH STATEMENT\n"@),
        !per_row ==> ends_with(spec_create_trigger(name, table, per_row), "EXECUTE FUNCTION pg_tview_flush_trigger()"@),
{
    let s = spec_create_trigger(name, table, per_row);
    let head = "CREATE TRIGGER "@ + spec_quote_identifier(name);
    let events = "AFTER INSERT OR UPDATE OR DELETE ON "@ + table + "\n"@;
    let (ind1, ind2, each, func) = if per_row {
        ("\n             "@, "             "@, "FOR EACH ROW\n"@, "EXECUTE FUNCTION pg_tview_trigger_handler()"@)
    } else {
        ("\n                 "@, "                 "@, "FOR EACH STATEMENT\n"@, "EXECUTE FUNCTION pg_tview_flush_trigger()"@)
    };
    reveal_strlit("\n             AFTER INSERT OR UPDATE OR DELETE ON ");
    reveal_strlit("\n                 AFTER INSERT OR UPDATE OR DELETE ON ");
    reveal_strlit("\n             FOR EACH ROW\n             EXECUTE FUNCTION pg_tview_trigger_handler()");
    reveal_strlit("\n                 FOR EACH STATEMENT\n                 EXECUTE FUNCTION pg_tview_flush_trigger()");
    reveal_strlit("AFTER INSERT OR UPDATE OR DELETE ON ");
    reveal_strlit("\n");
    reveal_strlit("\n             ");
    reveal_strlit("\n                 ");
    reveal_strlit("             ");
    reveal_strlit("                 ");
    reveal_strlit("FOR EACH ROW\n");
    reveal_strlit("FOR EACH STATEMENT\n");
    reveal_strlit("EXECUTE FUNCTION pg_tview_trigger_handler()");
    reveal_strlit("EXECUTE FUNCTION pg_tview_flush_trigger()");
    assert(s =~= head + ind1 + events + ind2 + each + ind2 + func);
    assert(s =~= head + (ind1 + events + ind2 + each + ind2 + func));
    lemma_concat_ends(Seq::empty(), head, ind1 + events + ind2 + each + ind2 + func);
    assert(s =~= (head + ind1) + events + (ind2 + each + ind2 + func));
    lemma_contains_middle(head + ind1, events, ind2 + each + ind2 + func);
    assert(s =~= (head + ind1 + events + ind2) + each + (ind2 + func));
    lemma_contains_middle(head + ind1 + events + ind2, each, ind2 + func);
    assert(s =~= (head + ind1 + events + ind2 + each + ind2) + func);
    lemma_concat_ends(head + ind1 + events + ind2 + each + ind2, func, Seq::empty());
}

} // verus!
