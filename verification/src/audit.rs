//! The audit trail of TVIEW creations, drops and refreshes: entries are
//! buffered during the transaction and written in one statement at COMMIT.
use vstd::prelude::*;

verus! {

#[derive(Clone, Copy, Debug, PartialEq, Eq, Structural)]
pub enum AuditOperation {
    Create,
    Drop,
    Refresh,
}

pub open spec fn spec_operation_name(op: AuditOperation) -> Seq<char> {
    match op {
        AuditOperation::Create => "CREATE"@,
        AuditOperation::Drop => "DROP"@,
        AuditOperation::Refresh => "REFRESH"@,
    }
}

impl AuditOperation {
    /// The name stored in the audit log.
    pub fn as_str(&self) -> (r: &'static str)
        ensures
            r@ == spec_operation_name(*self),
    {
        match self {
            AuditOperation::Create => "CREATE",
            AuditOperation::Drop => "DROP",
            AuditOperation::Refresh => "REFRESH",
        }
    }
}

/// The details of an entry: the definition and extension version of a
/// creation, or nothing.
#[derive(Clone, Debug, PartialEq, Eq)]
pub enum AuditDetails {
    Nothing,
    Created { definition: String, version: String },
}

#[derive(Clone, Debug, PartialEq, Eq)]
pub struct AuditEntry {
    pub entity: String,
    pub operation: AuditOperation,
    pub rows_affected: Option<i64>,
    pub details: AuditDetails,
}

pub type EntryView = (Seq<char>, AuditOperation, Option<i64>, Option<(Seq<char>, Seq<char>)>);

pub open spec fn entry_view(e: AuditEntry) -> EntryView {
    (e.entity@, e.operation, e.rows_affected, match e.details {
        AuditDetails::Nothing => None,
        AuditDetails::Created { definition, version } => Some((definition@, version@)),
    })
}

pub open spec fn entries_view(s: Seq<AuditEntry>) -> Seq<EntryView> {
    s.map_values(|e: AuditEntry| entry_view(e))
}

/// The entries buffered in the current transaction, oldest first.
pub struct AuditBuffer {
    pub entries: Vec<AuditEntry>,
}

impl AuditBuffer {
    pub fn new() -> (b: Self)
        ensures
            b.entries@.len() == 0,
    {
        AuditBuffer { entries: Vec::new() }
    }

    /// Buffer a creation.
    pub fn log_create(&mut self, entity: &str, definition: &str, version: &str)
        ensures
            entries_view(final(self).entries@) == entries_view(old(self).entries@).push(
                (entity@, AuditOperation::Create, None, Some((definition@, version@))),
            ),
    {
        let ghost before = entries_view(self.entries@);
        self.entries.push(AuditEntry {
            entity: entity.to_owned(),
            operation: AuditOperation::Create,
            rows_affected: None,
            details: AuditDetails::Created { definition: definition.to_owned(), version: version.to_owned() },
        });
        assert(entries_view(self.entries@) =~= before.push((entity@, AuditOperation::Create, None, Some((definition@, version@)))));
    }

    /// Buffer a drop.
    pub fn log_drop(&mut self, entity: &str)
        ensures
            entries_view(final(self).entries@) == entries_view(old(self).entries@).push(
                (entity@, AuditOperation::Drop, None, None),
            ),
    {
        let ghost before = entries_view(self.entries@);
        self.entries.push(AuditEntry {
            entity: entity.to_owned(),
            operation: AuditOperation::Drop,
            rows_affected: None,
            details: AuditDetails::Nothing,
        });
        assert(entries_view(self.entries@) =~= before.push((entity@, AuditOperation::Drop, None, None)));
    }

    /// Buffer a refresh of `rows_affected` rows.
    pub fn log_refresh(&mut self, entity: &str, rows_affected: i64)
        ensures
            entries_view(final(self).entries@) == entries_view(old(self).entries@).push(
                (entity@, AuditOperation::Refresh, Some(rows_affected), None),
            ),
    {
        let ghost before = entries_view(self.entries@);
        self.entries.push(AuditEntry {
            entity: entity.to_owned(),
            operation: AuditOperation::Refresh,
            rows_affected: Some(rows_affected),
            details: AuditDetails::Nothing,
        });
        assert(entries_view(self.entries@) =~= before.push((entity@, AuditOperation::Refresh, Some(rows_affected), None)));
    }

    /// Empty the buffer for a flush: the entries to write, in order, or
    /// none when auditing is disabled (they are dropped either way).
    pub fn take_for_flush(&mut self, audit_enabled: bool) -> (r: Vec<AuditEntry>)
        ensures
            final(self).entries@.len() == 0,
            audit_enabled ==> r@ == old(self).entries@,
            !audit_enabled ==> r@.len() == 0,
    {
        let mut taken: Vec<AuditEntry> = Vec::new();
        std::mem::swap(&mut taken, &mut self.entries);
        if audit_enabled {
            taken
        } else {
            Vec::new()
        }
    }

    /// Drop the buffered entries (the transaction aborted).
    pub fn clear(&mut self)
        ensures
            final(self).entries@.len() == 0,
    {
        self.entries = Vec::new();
    }
}

/// The statement that writes a flush: `$1` the entries as a JSON array of
/// `{op, entity, rows, details}` objects, `$2` the session user.
pub const FLUSH_SQL: &'static str = "INSERT INTO pg_tview_audit_log (operation, entity, performed_by, rows_affected, details)\n         SELECT\n             e->>'op',\n             e->>'entity',\n             $2,\n             (e->>'rows')::bigint,\n             CASE WHEN e->'details' = 'null'::jsonb THEN NULL ELSE e->'details' END\n         FROM jsonb_array_elements($1::jsonb) AS e";

} // verus!
