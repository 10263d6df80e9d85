//! Enqueueing refresh requests, under the queue's backpressure limit, and the
//! other operations on the transaction's queue.
use vstd::prelude::*;
use crate::queue::key::{KeyView, RefreshKey};
use crate::queue::state::{queue_insert, CheckedEntities, RefreshQueue};
use crate::queue::patch::{assoc_get, assoc_put, record, poison, spec_record, FieldMap, MapView, PatchMap, PatchView};
use crate::metrics::{record_direct_patch_captured, MetricsState};
use crate::text::{decimal, decimal_string};

verus! {

/// The error raised when a queue holding `size` keys reaches `limit`.
pub open spec fn backpressure_msg(size: nat, limit: nat) -> Seq<char> {
    "refresh queue backpressure: queue size ("@ + decimal(size) + ") would exceed max_queue_size ("@
        + decimal(limit) + ")"@
}

/// `r` is the backpressure error of a queue of `size` keys at `limit`.
pub open spec fn refused(r: Result<(), String>, size: nat, limit: nat) -> bool {
    r matches Err(msg) && msg@ == backpressure_msg(size, limit)
}

/// Refuse when the queue already holds `limit` keys or more.
fn check_queue_backpressure(queue: &RefreshQueue, limit: usize) -> (r: Result<(), String>)
    ensures
        match r {
            Ok(()) => queue@.len() < limit,
            Err(msg) => queue@.len() >= limit && msg@ == backpressure_msg(
                queue@.len(),
                limit as nat,
            ),
        },
{
    let current_size = queue.len();
    if current_size >= limit {
        let mut msg = "refresh queue backpressure: queue size (".to_owned();
        let a = decimal_string(current_size as u64);
        msg.append(a.as_str());
        msg.append(") would exceed max_queue_size (");
        let b = decimal_string(limit as u64);
        msg.append(b.as_str());
        msg.append(")");
        return Err(msg);
    }
    Ok(())
}

/// Enqueue a primary-key refresh unless the queue already holds `limit` keys.
pub fn enqueue_refresh_with_limit(queue: &mut RefreshQueue, entity: &str, pk: i64, limit: usize) -> (r: Result<(), String>)
    ensures
        old(queue)@.len() >= limit ==> refused(r, old(queue)@.len(), limit as nat) && final(queue)@ == old(queue)@,
        old(queue)@.len() < limit ==> r is Ok && final(queue)@ == queue_insert(
            old(queue)@,
            (entity@, pk, None),
        ),
{
    check_queue_backpressure(queue, limit)?;
    queue.insert(RefreshKey::pk(entity, pk));
    Ok(())
}

/// Enqueue a primary-key refresh; a plain enqueue poisons any direct patch
/// for the key, so it recomputes. Refused when the queue is full.
pub fn enqueue_refresh(
    queue: &mut RefreshQueue,
    patches: &mut PatchMap,
    entity: &str,
    pk: i64,
    limit: usize,
) -> (r: Result<(), String>)
    ensures
        old(queue)@.len() >= limit ==> refused(r, old(queue)@.len(), limit as nat) && final(queue)@ == old(queue)@ && final(patches)@ == old(patches)@,
        old(queue)@.len() < limit ==> r is Ok && final(queue)@ == queue_insert(
            old(queue)@,
            (entity@, pk, None),
        ) && final(patches)@ == assoc_put(old(patches)@, (entity@, pk, None), PatchView::Poisoned),
{
    enqueue_refresh_with_limit(queue, entity, pk, limit)?;
    poison(patches, RefreshKey::pk(entity, pk));
    Ok(())
}

/// Enqueue a primary-key refresh and record `fields` as a top-level direct
/// patch for it. A capture for a key not seen before is counted. Refused
/// when the queue is full.
pub fn enqueue_refresh_patched(
    queue: &mut RefreshQueue,
    patches: &mut PatchMap,
    metrics: &mut MetricsState,
    entity: &str,
    pk: i64,
    fields: FieldMap,
    limit: usize,
) -> (r: Result<(), String>)
    ensures
        old(queue)@.len() >= limit ==> refused(r, old(queue)@.len(), limit as nat) && final(queue)@ == old(queue)@ && final(patches)@ == old(patches)@ && *final(metrics)
            == *old(metrics),
        old(queue)@.len() < limit ==> r is Ok && final(queue)@ == queue_insert(
            old(queue)@,
            (entity@, pk, None),
        ) && final(patches)@ == spec_record(
            old(patches)@,
            (entity@, pk, None),
            Seq::empty(),
            fields@,
        ) && final(metrics).direct_patch_captured == if assoc_get(
            old(patches)@,
            (entity@, pk, None::<Seq<char>>),
        ) is None {
            old(metrics).direct_patch_captured.wrapping_add(1)
        } else {
            old(metrics).direct_patch_captured
        } && (MetricsState {
            direct_patch_captured: old(metrics).direct_patch_captured,
            ..*final(metrics)
        }) == *old(metrics),
{
    enqueue_refresh_with_limit(queue, entity, pk, limit)?;
    let prefix: Vec<String> = Vec::new();
    assert(crate::queue::state::string_seq(prefix@) =~= Seq::<Seq<char>>::empty());
    if record(patches, RefreshKey::pk(entity, pk), prefix, fields) {
        record_direct_patch_captured(metrics);
    }
    Ok(())
}

/// Enqueue a DISTINCT ON refresh for the group `dedup_key`; poisons any direct
/// patch for the key. Refused when the queue is full.
pub fn enqueue_refresh_dedup(
    queue: &mut RefreshQueue,
    patches: &mut PatchMap,
    entity: &str,
    dedup_key: &str,
    limit: usize,
) -> (r: Result<(), String>)
    ensures
        old(queue)@.len() >= limit ==> refused(r, old(queue)@.len(), limit as nat) && final(queue)@ == old(queue)@ && final(patches)@ == old(patches)@,
        old(queue)@.len() < limit ==> r is Ok && final(queue)@ == queue_insert(
            old(queue)@,
            (entity@, 0i64, Some(dedup_key@)),
        ) && final(patches)@ == assoc_put(
            old(patches)@,
            (entity@, 0i64, Some(dedup_key@)),
            PatchView::Poisoned,
        ),
{
    check_queue_backpressure(queue, limit)?;
    queue.insert(RefreshKey::dedup(entity, dedup_key));
    poison(patches, RefreshKey::dedup(entity, dedup_key));
    Ok(())
}

/// `q` after enqueueing a primary-key refresh of `entity` for each of `pks`.
pub open spec fn insert_pks(q: Seq<KeyView>, entity: Seq<char>, pks: Seq<i64>) -> Seq<KeyView>
    decreases pks.len(),
{
    if pks.len() == 0 {
        q
    } else {
        insert_pks(queue_insert(q, (entity, pks[0], None)), entity, pks.drop_first())
    }
}

/// `m` after poisoning the key of `entity` for each of `pks`.
pub open spec fn poison_pks(m: MapView, entity: Seq<char>, pks: Seq<i64>) -> MapView
    decreases pks.len(),
{
    if pks.len() == 0 {
        m
    } else {
        poison_pks(assoc_put(m, (entity, pks[0], None), PatchView::Poisoned), entity, pks.drop_first())
    }
}

/// Enqueue primary-key refreshes of `entity` for each of `pks` and poison
/// their direct patches. The limit is checked once, before any is added.
pub fn enqueue_refresh_bulk(
    queue: &mut RefreshQueue,
    patches: &mut PatchMap,
    entity: &str,
    pks: Vec<i64>,
    limit: usize,
) -> (r: Result<(), String>)
    ensures
        old(queue)@.len() >= limit ==> refused(r, old(queue)@.len(), limit as nat) && final(queue)@ == old(queue)@ && final(patches)@ == old(patches)@,
        old(queue)@.len() < limit ==> r is Ok && final(queue)@ == insert_pks(
            old(queue)@,
            entity@,
            pks@,
        ) && final(patches)@ == poison_pks(old(patches)@, entity@, pks@),
{
    check_queue_backpressure(queue, limit)?;
    let ghost q_goal = insert_pks(queue@, entity@, pks@);
    let ghost m_goal = poison_pks(patches@, entity@, pks@);
    assert(pks@.subrange(0, pks@.len() as int) =~= pks@);
    let mut i: usize = 0;
    while i < pks.len()
        invariant
            i <= pks@.len(),
            insert_pks(queue@, entity@, pks@.subrange(i as int, pks@.len() as int)) == q_goal,
            poison_pks(patches@, entity@, pks@.subrange(i as int, pks@.len() as int)) == m_goal,
        decreases pks.len() - i,
    {
        let pk = pks[i];
        proof {
            assert(pks@.subrange(i as int, pks@.len() as int).drop_first() =~= pks@.subrange(
                i + 1,
                pks@.len() as int,
            ));
        }
        queue.insert(RefreshKey::pk(entity, pk));
        poison(patches, RefreshKey::pk(entity, pk));
        i += 1;
    }
    Ok(())
}

/// Take the whole queue, leaving it empty (commit-time flush, savepoint start).
pub fn take_queue_snapshot(queue: &mut RefreshQueue) -> (snapshot: RefreshQueue)
    ensures
        snapshot@ == old(queue)@,
        final(queue)@ == Seq::<KeyView>::empty(),
{
    queue.take()
}

/// Whether no refresh is pending.
pub fn is_queue_empty(queue: &RefreshQueue) -> (r: bool)
    ensures
        r == (queue@.len() == 0),
{
    queue.is_empty()
}

/// Empty the queue (transaction abort).
pub fn clear_queue(queue: &mut RefreshQueue)
    ensures
        final(queue)@ == Seq::<KeyView>::empty(),
{
    queue.clear();
}

/// Whether `entity` was already checked for post-crash truncation.
pub fn is_crash_recovery_checked(checked: &CheckedEntities, entity: &str) -> (r: bool)
    ensures
        r == checked@.contains(entity@),
{
    checked.contains(entity)
}

/// Note that `entity` was checked for post-crash truncation.
pub fn mark_crash_recovery_checked(checked: &mut CheckedEntities, entity: &str)
    ensures
        final(checked)@ == old(checked)@.insert(entity@),
{
    checked.insert(entity);
}

/// Forget every checked entity (transaction end).
pub fn clear_crash_recovery_cache(checked: &mut CheckedEntities)
    ensures
        final(checked)@ == Set::<Seq<char>>::empty(),
{
    checked.clear();
}

} // verus!
