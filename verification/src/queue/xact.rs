//! Transaction and savepoint events: what each does to the transaction's
//! refresh queue, patch map, caches and metrics.
//!
//! At `SAVEPOINT` the queue and the patch map are moved onto snapshot stacks,
//! in lockstep; `ROLLBACK TO SAVEPOINT` restores them, so a refresh or patch
//! recorded inside a rolled-back savepoint never survives it.
use vstd::prelude::*;
use crate::queue::key::KeyView;
use crate::queue::state::{CheckedEntities, RefreshQueue};
use crate::queue::patch::{MapView, PatchMap, clear_patch_map, replace_patch_map, take_patch_snapshot};
use crate::queue::ops::{clear_crash_recovery_cache, clear_queue, take_queue_snapshot};
use crate::queue::state::replace_queue;
use crate::metrics::{is_reset_of, reset_metrics, MetricsState};

verus! {

/// Top-level transaction events the extension reacts to.
#[derive(Debug, Clone, Copy, PartialEq, Eq)]
pub enum XactEvent {
    Commit,
    Abort,
    PreCommit,
    Prepare,
}

/// Subtransaction (savepoint) events.
#[derive(Debug, Clone, Copy, PartialEq, Eq)]
pub enum SubXactEvent {
    /// `SAVEPOINT`.
    StartSub,
    /// `ROLLBACK TO SAVEPOINT`.
    AbortSub,
    /// `RELEASE SAVEPOINT`.
    CommitSub,
    /// Any other subtransaction event.
    Other,
}

/// The work outside this state that an event calls for.
#[derive(Debug, Clone, Copy, PartialEq, Eq)]
pub enum XactAction {
    /// Enqueue suspended changes, resume suspension, clear the audit buffer.
    FinishCommit,
    /// Resume suspension, clear the cascade cache and the audit buffer.
    FinishAbort,
    /// Clear the audit buffer.
    FinishPrepare,
}

/// Transaction-local state of the extension.
pub struct TxState {
    /// Keys waiting for refresh.
    pub queue: RefreshQueue,
    /// Direct-patch payloads of queued keys.
    pub patches: PatchMap,
    /// Entities already checked for post-crash truncation.
    pub crash_checked: CheckedEntities,
    /// Refresh metrics.
    pub metrics: MetricsState,
    /// Number of open savepoints.
    pub savepoint_depth: usize,
    /// Queue as it stood at each open savepoint.
    pub queue_snapshots: Vec<RefreshQueue>,
    /// Patch map as it stood at each open savepoint.
    pub patch_snapshots: Vec<PatchMap>,
}

/// A transaction state as a mathematical value.
pub struct TxView {
    pub queue: Seq<KeyView>,
    pub patches: MapView,
    pub crash_checked: Set<Seq<char>>,
    pub metrics: MetricsState,
    pub depth: nat,
    pub queue_snaps: Seq<Seq<KeyView>>,
    pub patch_snaps: Seq<MapView>,
}

impl View for TxState {
    type V = TxView;

    open spec fn view(&self) -> TxView {
        TxView {
            queue: self.queue@,
            patches: self.patches@,
            crash_checked: self.crash_checked@,
            metrics: self.metrics,
            depth: self.savepoint_depth as nat,
            queue_snaps: self.queue_snapshots@.map_values(|q: RefreshQueue| q@),
            patch_snaps: self.patch_snapshots@.map_values(|m: PatchMap| m@),
        }
    }
}

/// `s` without its last element (`s` itself when empty).
pub open spec fn pop_seq<A>(s: Seq<A>) -> Seq<A> {
    if s.len() == 0 {
        s
    } else {
        s.drop_last()
    }
}

/// The state after a subtransaction event.
pub open spec fn subxact_step(v: TxView, e: SubXactEvent) -> TxView {
    match e {
        SubXactEvent::StartSub => TxView {
            depth: v.depth + 1,
            queue: Seq::empty(),
            patches: Seq::empty(),
            queue_snaps: v.queue_snaps.push(v.queue),
            patch_snaps: v.patch_snaps.push(v.patches),
            ..v
        },
        SubXactEvent::AbortSub => TxView {
            depth: if v.depth == 0 { 0 } else { (v.depth - 1) as nat },
            queue: if v.queue_snaps.len() == 0 { v.queue } else { v.queue_snaps.last() },
            patches: if v.patch_snaps.len() == 0 { v.patches } else { v.patch_snaps.last() },
            queue_snaps: pop_seq(v.queue_snaps),
            patch_snaps: pop_seq(v.patch_snaps),
            ..v
        },
        SubXactEvent::CommitSub => TxView {
            depth: if v.depth == 0 { 0 } else { (v.depth - 1) as nat },
            queue_snaps: pop_seq(v.queue_snaps),
            patch_snaps: pop_seq(v.patch_snaps),
            ..v
        },
        SubXactEvent::Other => v,
    }
}

/// The state after a top-level transaction event: every event resets the
/// per-transaction metrics; commit clears the crash-recovery cache; abort
/// also drops the queue and the patch map.
pub open spec fn xact_step_ok(v: TxView, e: XactEvent, w: TxView) -> bool {
    &&& is_reset_of(w.metrics, v.metrics)
    &&& w.depth == v.depth
    &&& w.queue_snaps == v.queue_snaps
    &&& w.patch_snaps == v.patch_snaps
    &&& match e {
        XactEvent::PreCommit | XactEvent::Commit => {
            &&& w.queue == v.queue
            &&& w.patches == v.patches
            &&& w.crash_checked == Set::<Seq<char>>::empty()
        },
        XactEvent::Prepare => {
            &&& w.queue == v.queue
            &&& w.patches == v.patches
            &&& w.crash_checked == v.crash_checked
        },
        XactEvent::Abort => {
            &&& w.queue == Seq::<KeyView>::empty()
            &&& w.patches == Seq::<(KeyView, crate::queue::patch::PatchView)>::empty()
            &&& w.crash_checked == Set::<Seq<char>>::empty()
        },
    }
}

impl TxState {
    /// A transaction with nothing queued and no savepoint.
    pub fn new() -> (t: Self)
        ensures
            t@.queue == Seq::<KeyView>::empty(),
            t@.patches == Seq::<(KeyView, crate::queue::patch::PatchView)>::empty(),
            t@.crash_checked == Set::<Seq<char>>::empty(),
            t@.depth == 0,
            t@.queue_snaps == Seq::<Seq<KeyView>>::empty(),
            t@.patch_snaps == Seq::<MapView>::empty(),
            is_reset_of(t.metrics, t.metrics),
            t.metrics.direct_patch_captured == 0,
            t.metrics.direct_patches_applied == 0,
            t.metrics.direct_patch_fallbacks == 0,
            t.metrics.view_recomputes == 0,
    {
        let t = TxState {
            queue: RefreshQueue::new(),
            patches: PatchMap::new(),
            crash_checked: CheckedEntities::new(),
            metrics: MetricsState::new(),
            savepoint_depth: 0,
            queue_snapshots: Vec::new(),
            patch_snapshots: Vec::new(),
        };
        assert(t@.queue_snaps =~= Seq::<Seq<KeyView>>::empty());
        assert(t@.patch_snaps =~= Seq::<MapView>::empty());
        t
    }
}

/// Lower the savepoint depth by one, not below zero. Returns `true` when it
/// was already zero: the events came in an unexpected order.
fn decrement_savepoint_depth(tx: &mut TxState) -> (underflow: bool)
    ensures
        underflow == (old(tx).savepoint_depth == 0),
        final(tx).savepoint_depth == if old(tx).savepoint_depth == 0 {
            0
        } else {
            (old(tx).savepoint_depth - 1) as usize
        },
        final(tx).queue == old(tx).queue,
        final(tx).patches == old(tx).patches,
        final(tx).crash_checked == old(tx).crash_checked,
        final(tx).metrics == old(tx).metrics,
        final(tx).queue_snapshots == old(tx).queue_snapshots,
        final(tx).patch_snapshots == old(tx).patch_snapshots,
{
    let underflow = tx.savepoint_depth == 0;
    tx.savepoint_depth = tx.savepoint_depth.saturating_sub(1);
    underflow
}

/// React to a savepoint event. Returns `true` when a release or rollback came
/// with no savepoint open, which the caller reports as a warning.
pub fn handle_subxact_event(tx: &mut TxState, event: SubXactEvent) -> (underflow: bool)
    requires
        old(tx)@.depth < usize::MAX,
    ensures
        final(tx)@ == subxact_step(old(tx)@, event),
        underflow == ((event is AbortSub || event is CommitSub) && old(tx)@.depth == 0),
{
    let ghost v = tx@;
    match event {
        SubXactEvent::StartSub => {
            tx.savepoint_depth = tx.savepoint_depth + 1;
            let snapshot = take_queue_snapshot(&mut tx.queue);
            tx.queue_snapshots.push(snapshot);
            let patch_snapshot = take_patch_snapshot(&mut tx.patches);
            tx.patch_snapshots.push(patch_snapshot);
            assert(tx@.queue_snaps =~= v.queue_snaps.push(v.queue));
            assert(tx@.patch_snaps =~= v.patch_snaps.push(v.patches));
            assert(tx@ == subxact_step(v, event));
            false
        },
        SubXactEvent::AbortSub => {
            let underflow = decrement_savepoint_depth(tx);
            if let Some(snapshot) = tx.queue_snapshots.pop() {
                replace_queue(&mut tx.queue, snapshot);
            }
            if let Some(patch_snapshot) = tx.patch_snapshots.pop() {
                replace_patch_map(&mut tx.patches, patch_snapshot);
            }
            assert(tx@.queue_snaps =~= pop_seq(v.queue_snaps));
            assert(tx@.patch_snaps =~= pop_seq(v.patch_snaps));
            assert(tx@ == subxact_step(v, event));
            underflow
        },
        SubXactEvent::CommitSub => {
            let underflow = decrement_savepoint_depth(tx);
            let _released_queue = tx.queue_snapshots.pop();
            let _released_patches = tx.patch_snapshots.pop();
            assert(tx@.queue_snaps =~= pop_seq(v.queue_snaps));
            assert(tx@.patch_snaps =~= pop_seq(v.patch_snaps));
            assert(tx@ == subxact_step(v, event));
            underflow
        },
        SubXactEvent::Other => false,
    }
}

/// React to a top-level transaction event, and say what else must be done.
pub fn handle_xact_event(tx: &mut TxState, event: XactEvent) -> (action: XactAction)
    ensures
        xact_step_ok(old(tx)@, event, final(tx)@),
        action == match event {
            XactEvent::PreCommit | XactEvent::Commit => XactAction::FinishCommit,
            XactEvent::Prepare => XactAction::FinishPrepare,
            XactEvent::Abort => XactAction::FinishAbort,
        },
{
    match event {
        XactEvent::PreCommit | XactEvent::Commit => {
            clear_crash_recovery_cache(&mut tx.crash_checked);
            reset_metrics(&mut tx.metrics);
            XactAction::FinishCommit
        },
        XactEvent::Prepare => {
            reset_metrics(&mut tx.metrics);
            XactAction::FinishPrepare
        },
        XactEvent::Abort => {
            clear_queue(&mut tx.queue);
            clear_patch_map(&mut tx.patches);
            clear_crash_recovery_cache(&mut tx.crash_checked);
            reset_metrics(&mut tx.metrics);
            XactAction::FinishAbort
        },
    }
}

/// Rolling back to a savepoint restores the queue and the patch map as they
/// stood when it was set, whatever was enqueued or patched in between; the
/// savepoint depth and the outer snapshots are restored too.
pub proof fn law_savepoint_rollback_restores(v: TxView, queue: Seq<KeyView>, patches: MapView)
    ensures
        ({
            let inside = TxView { queue, patches, ..subxact_step(v, SubXactEvent::StartSub) };
            let after = subxact_step(inside, SubXactEvent::AbortSub);
            &&& after.queue == v.queue
            &&& after.patches == v.patches
            &&& after.depth == v.depth
            &&& after.queue_snaps == v.queue_snaps
            &&& after.patch_snaps == v.patch_snaps
        }),
{
    let s = subxact_step(v, SubXactEvent::StartSub);
    assert(s.queue_snaps.drop_last() =~= v.queue_snaps);
    assert(s.patch_snaps.drop_last() =~= v.patch_snaps);
}

/// A savepoint starts with an empty queue and patch map; releasing it keeps
/// what was enqueued since it was set and drops its snapshot.
pub proof fn law_savepoint_release(v: TxView, queue: Seq<KeyView>, patches: MapView)
    ensures
        subxact_step(v, SubXactEvent::StartSub).queue == Seq::<KeyView>::empty(),
        ({
            let inside = TxView { queue, patches, ..subxact_step(v, SubXactEvent::StartSub) };
            let after = subxact_step(inside, SubXactEvent::CommitSub);
            &&& after.queue == queue
            &&& after.patches == patches
            &&& after.depth == v.depth
            &&& after.queue_snaps == v.queue_snaps
        }),
{
    let s = subxact_step(v, SubXactEvent::StartSub);
    assert(s.queue_snaps.drop_last() =~= v.queue_snaps);
}

} // verus!
