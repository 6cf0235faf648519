//! Decisions of the region worker: which pending ranges are registered or
//! cleaned, how the status of a snapshot job moves, how pending applies are
//! polled, and when the worker's timer fires again.

use vstd::prelude::*;
use vstd::slice::slice_to_vec;

use crate::data_keys::{
    data_end_key_of, data_key_of, enc_end_key, enc_start_key, lemma_region_data_range_ordered,
};
use crate::invoke::WriteCmdCf;
use crate::keys_order::{lemma_lex_lt_irreflexive, lex_le};
use crate::pending_ranges::{
    drained_ranges, has_key, inserted_ranges, lemma_drain_leaves_no_overlap, lemma_stored_after_remove,
    lemma_timed_out_stored, range_triple, ranges_wf, triple_view,
    overlap_ranges, ranges_triples, stored, timed_out_ranges, triples_view,
    PendingDeleteRanges, RangeTriple, RangeView,
};
use crate::text::{decimal, encode_upper, hex_upper, push_decimal};

verus! {

/// Interval (milliseconds) between checks for stale peers' ranges to delete.
pub const STALE_PEER_CHECK_INTERVAL: u64 = 10_000;

/// Interval (milliseconds) between checks for pending snapshot applies.
pub const PENDING_APPLY_CHECK_INTERVAL: u64 = 20;

/// Longest time (milliseconds) one round of cleaning timed-out ranges may take
/// before it backs off.
pub const CLEANUP_MAX_DURATION: u64 = 5_000;

/// Region related timeout event.
#[derive(PartialEq, Eq, Structural, Clone, Copy, Debug)]
pub enum Event {
    CheckStalePeer,
    CheckApply,
}

impl Event {
    /// Delay (milliseconds) after which the event is scheduled again once it
    /// has been handled.
    pub fn check_interval(&self) -> (ms: u64)
        ensures
            *self == Event::CheckApply ==> ms == PENDING_APPLY_CHECK_INTERVAL,
            *self == Event::CheckStalePeer ==> ms == STALE_PEER_CHECK_INTERVAL,
    {
        match self {
            Event::CheckApply => PENDING_APPLY_CHECK_INTERVAL,
            Event::CheckStalePeer => STALE_PEER_CHECK_INTERVAL,
        }
    }
}

/// The events a new region worker timer starts with, with their delays in
/// milliseconds, in the order they are added.
pub fn new_timer_events() -> (r: Vec<(u64, Event)>)
    ensures
        r@ == seq![(PENDING_APPLY_CHECK_INTERVAL, Event::CheckApply), (STALE_PEER_CHECK_INTERVAL, Event::CheckStalePeer)],
{
    let mut r: Vec<(u64, Event)> = Vec::new();
    r.push((PENDING_APPLY_CHECK_INTERVAL, Event::CheckApply));
    r.push((STALE_PEER_CHECK_INTERVAL, Event::CheckStalePeer));
    assert(r@ =~= seq![(PENDING_APPLY_CHECK_INTERVAL, Event::CheckApply), (STALE_PEER_CHECK_INTERVAL, Event::CheckStalePeer)]);
    r
}

/// Region related task, with the plain values that the worker's decisions and
/// descriptions read.
pub enum Task {
    Gen { region_id: u64, last_applied_index_term: u64 },
    Apply { region_id: u64, peer_id: u64 },
    /// Destroy data between [start_key, end_key).
    ///
    /// The deletion may and may not succeed.
    Destroy { region_id: u64, start_key: Vec<u8>, end_key: Vec<u8> },
}

/// Text of a task description.
pub open spec fn task_description(t: Task) -> Seq<char> {
    match t {
        Task::Gen { region_id, .. } => "Snap gen for "@ + decimal(region_id as nat),
        Task::Apply { region_id, .. } => "Snap apply for "@ + decimal(region_id as nat),
        Task::Destroy { region_id, start_key, end_key } => "Destroy "@ + decimal(region_id as nat) + " ["@
            + hex_upper(start_key@) + ", "@ + hex_upper(end_key@) + ")"@,
    }
}

impl Task {
    pub fn destroy(region_id: u64, start_key: Vec<u8>, end_key: Vec<u8>) -> (t: Task)
        ensures
            t == (Task::Destroy { region_id, start_key, end_key }),
    {
        Task::Destroy { region_id, start_key, end_key }
    }

    /// Human readable description of the task, keys in upper-case hex.
    pub fn to_string(&self) -> (s: String)
        ensures
            s@ == task_description(*self),
    {
        match self {
            Task::Gen { region_id, .. } => {
                let mut s = String::from_str("Snap gen for ");
                push_decimal(&mut s, *region_id);
                s
            },
            Task::Apply { region_id, .. } => {
                let mut s = String::from_str("Snap apply for ");
                push_decimal(&mut s, *region_id);
                s
            },
            Task::Destroy { region_id, start_key, end_key } => {
                let mut s = String::from_str("Destroy ");
                push_decimal(&mut s, *region_id);
                s.append(" [");
                let start_hex = encode_upper(start_key.as_slice());
                s.append(start_hex.as_str());
                s.append(", ");
                let end_hex = encode_upper(end_key.as_slice());
                s.append(end_hex.as_str());
                s.append(")");
                s
            },
        }
    }
}

/// Status of a snapshot job, shared with the peer that scheduled it.
#[derive(PartialEq, Eq, Structural, Clone, Copy, Debug)]
pub enum JobStatus {
    Pending,
    Running,
    Cancelling,
    Cancelled,
    Finished,
    Failed,
}

pub open spec fn job_status_code(s: JobStatus) -> usize {
    match s {
        JobStatus::Pending => 0,
        JobStatus::Running => 1,
        JobStatus::Cancelling => 2,
        JobStatus::Cancelled => 3,
        JobStatus::Finished => 4,
        JobStatus::Failed => 5,
    }
}

impl JobStatus {
    /// The number stored in the shared status cell.
    pub fn code(self) -> (c: usize)
        ensures
            c == job_status_code(self),
    {
        match self {
            JobStatus::Pending => 0,
            JobStatus::Running => 1,
            JobStatus::Cancelling => 2,
            JobStatus::Cancelled => 3,
            JobStatus::Finished => 4,
            JobStatus::Failed => 5,
        }
    }

    /// The status stored as `c`, if `c` is a status code.
    pub fn from_code(c: usize) -> (r: Option<JobStatus>)
        ensures
            c < 6 <==> r is Some,
            r matches Some(s) ==> job_status_code(s) == c,
    {
        if c == 0 {
            Some(JobStatus::Pending)
        } else if c == 1 {
            Some(JobStatus::Running)
        } else if c == 2 {
            Some(JobStatus::Cancelling)
        } else if c == 3 {
            Some(JobStatus::Cancelled)
        } else if c == 4 {
            Some(JobStatus::Finished)
        } else if c == 5 {
            Some(JobStatus::Failed)
        } else {
            None
        }
    }
}

/// A status is found again from its code: different statuses have
/// different codes, all below 6.
pub proof fn lemma_job_status_code_round_trip(s: JobStatus, t: JobStatus)
    ensures
        job_status_code(s) < 6,
        job_status_code(s) == job_status_code(t) ==> s == t,
{
}

/// A job that is still pending starts running; any other status is kept.
pub fn status_on_start(current: JobStatus) -> (r: JobStatus)
    ensures
        current == JobStatus::Pending ==> r == JobStatus::Running,
        current != JobStatus::Pending ==> r == current,
{
    if current == JobStatus::Pending {
        JobStatus::Running
    } else {
        current
    }
}

/// How applying a snapshot ended.
#[derive(PartialEq, Eq, Structural, Clone, Copy, Debug)]
pub enum ApplyOutcome {
    Applied,
    Aborted,
    Failed,
}

/// The status a job takes once applying its snapshot has ended.
pub open spec fn status_after(outcome: ApplyOutcome) -> JobStatus {
    match outcome {
        ApplyOutcome::Applied => JobStatus::Finished,
        ApplyOutcome::Aborted => JobStatus::Cancelled,
        ApplyOutcome::Failed => JobStatus::Failed,
    }
}

/// The status a job takes once applying its snapshot has ended.
pub fn status_after_apply(outcome: ApplyOutcome) -> (r: JobStatus)
    ensures
        r == status_after(outcome),
{
    match outcome {
        ApplyOutcome::Applied => JobStatus::Finished,
        ApplyOutcome::Aborted => JobStatus::Cancelled,
        ApplyOutcome::Failed => JobStatus::Failed,
    }
}

/// A job is asked to stop when its status is `Cancelling`: work on it is
/// then abandoned at the next check, and an apply that ended aborted must
/// find this status when it records `Cancelled`.
pub fn abort_requested(status: JobStatus) -> (r: bool)
    ensures
        r == (status == JobStatus::Cancelling),
{
    status == JobStatus::Cancelling
}

/// Checks the status that recording the end of an apply replaced: an
/// aborted apply must replace `Cancelling`, since only a cancel request
/// aborts it.  Gives the recorded status, or the replaced status when that
/// check fails.
pub fn finish_apply(outcome: ApplyOutcome, replaced: JobStatus) -> (r: Result<JobStatus, JobStatus>)
    ensures
        outcome == ApplyOutcome::Aborted && replaced != JobStatus::Cancelling ==> r == Err::<JobStatus, JobStatus>(
            replaced,
        ),
        !(outcome == ApplyOutcome::Aborted && replaced != JobStatus::Cancelling) ==> r == Ok::<
            JobStatus,
            JobStatus,
        >(status_after(outcome)),
{
    if outcome == ApplyOutcome::Aborted && !abort_requested(replaced) {
        Err(replaced)
    } else {
        Ok(status_after_apply(outcome))
    }
}

/// Steps of applying a region's snapshot.  The job's status is checked for
/// a cancel request before loading the region state, before cleaning up the
/// region's old data, before loading the apply state, before applying, and
/// before applying from the snapshot file once it is found.
#[derive(PartialEq, Eq, Structural, Clone, Copy, Debug)]
pub enum ApplySnapStep {
    /// Read the region's local state.
    LoadRegionState,
    /// Take out pending ranges overlapping the region and delete its data.
    CleanupRegionData,
    /// Read the region's apply state, and register the snapshot as applying.
    LoadApplyState,
    /// Hand the pre-handled snapshot to the engine store.
    ApplyPreHandled,
    /// Find the snapshot file.
    LoadSnapshotFile,
    /// Apply the snapshot file to the engine store.
    ApplySnapshotFile,
    /// Mark the region's state as normal.
    SaveNormalState,
    Done(ApplyOutcome),
}

/// The steps of an apply that can fail: reading the region state, deleting
/// the region's old data, reading the apply state, finding the snapshot file
/// and saving the normal state.
pub open spec fn apply_step_can_fail(step: ApplySnapStep) -> bool {
    ||| step == ApplySnapStep::LoadRegionState
    ||| step == ApplySnapStep::CleanupRegionData
    ||| step == ApplySnapStep::LoadApplyState
    ||| step == ApplySnapStep::LoadSnapshotFile
    ||| step == ApplySnapStep::SaveNormalState
}

/// Goes to `next` unless the job has been asked to stop.
pub open spec fn guarded(status: JobStatus, next: ApplySnapStep) -> ApplySnapStep {
    if status == JobStatus::Cancelling {
        ApplySnapStep::Done(ApplyOutcome::Aborted)
    } else {
        next
    }
}

/// The step after `step`, given whether it succeeded, the job's status, and
/// whether a pre-handled snapshot is at hand.
pub open spec fn apply_snap_next(step: ApplySnapStep, succeeded: bool, status: JobStatus, has_pre_handled: bool) -> ApplySnapStep {
    match step {
        ApplySnapStep::LoadRegionState => if succeeded {
            guarded(status, ApplySnapStep::CleanupRegionData)
        } else {
            ApplySnapStep::Done(ApplyOutcome::Failed)
        },
        ApplySnapStep::CleanupRegionData => if succeeded {
            guarded(status, ApplySnapStep::LoadApplyState)
        } else {
            ApplySnapStep::Done(ApplyOutcome::Failed)
        },
        ApplySnapStep::LoadApplyState => if !succeeded {
            ApplySnapStep::Done(ApplyOutcome::Failed)
        } else if has_pre_handled {
            guarded(status, ApplySnapStep::ApplyPreHandled)
        } else {
            guarded(status, ApplySnapStep::LoadSnapshotFile)
        },
        ApplySnapStep::ApplyPreHandled => ApplySnapStep::SaveNormalState,
        ApplySnapStep::LoadSnapshotFile => if succeeded {
            guarded(status, ApplySnapStep::ApplySnapshotFile)
        } else {
            ApplySnapStep::Done(ApplyOutcome::Failed)
        },
        ApplySnapStep::ApplySnapshotFile => ApplySnapStep::SaveNormalState,
        ApplySnapStep::SaveNormalState => if succeeded {
            ApplySnapStep::Done(ApplyOutcome::Applied)
        } else {
            ApplySnapStep::Done(ApplyOutcome::Failed)
        },
        ApplySnapStep::Done(outcome) => ApplySnapStep::Done(outcome),
    }
}

/// Applying starts by loading the region state, unless the job has been asked
/// to stop.
pub fn first_apply_snap_step(status: JobStatus) -> (r: ApplySnapStep)
    ensures
        r == guarded(status, ApplySnapStep::LoadRegionState),
        status != JobStatus::Cancelling ==> r == ApplySnapStep::LoadRegionState,
        status == JobStatus::Cancelling ==> r == ApplySnapStep::Done(ApplyOutcome::Aborted),
{
    if abort_requested(status) {
        ApplySnapStep::Done(ApplyOutcome::Aborted)
    } else {
        ApplySnapStep::LoadRegionState
    }
}

fn guard_step(status: JobStatus, next: ApplySnapStep) -> (r: ApplySnapStep)
    ensures
        r == guarded(status, next),
{
    if abort_requested(status) {
        ApplySnapStep::Done(ApplyOutcome::Aborted)
    } else {
        next
    }
}

/// The step of applying a snapshot after `step`: a failed step ends the
/// apply as failed; a cancel request seen at a check ends it as aborted; a
/// pre-handled snapshot is applied directly, else the snapshot file is found
/// and applied; the region is marked normal last.
pub fn next_apply_snap_step(step: ApplySnapStep, succeeded: bool, status: JobStatus, has_pre_handled: bool) -> (r: ApplySnapStep)
    ensures
        r == apply_snap_next(step, succeeded, status, has_pre_handled),
        apply_step_can_fail(step) && !succeeded ==> r == ApplySnapStep::Done(ApplyOutcome::Failed),
        r == ApplySnapStep::Done(ApplyOutcome::Applied) ==> (step == ApplySnapStep::SaveNormalState && succeeded)
            || step == ApplySnapStep::Done(ApplyOutcome::Applied),
        r == ApplySnapStep::Done(ApplyOutcome::Aborted) ==> status == JobStatus::Cancelling
            || step == ApplySnapStep::Done(ApplyOutcome::Aborted),
{
    match step {
        ApplySnapStep::LoadRegionState => if succeeded {
            guard_step(status, ApplySnapStep::CleanupRegionData)
        } else {
            ApplySnapStep::Done(ApplyOutcome::Failed)
        },
        ApplySnapStep::CleanupRegionData => if succeeded {
            guard_step(status, ApplySnapStep::LoadApplyState)
        } else {
            ApplySnapStep::Done(ApplyOutcome::Failed)
        },
        ApplySnapStep::LoadApplyState => if !succeeded {
            ApplySnapStep::Done(ApplyOutcome::Failed)
        } else if has_pre_handled {
            guard_step(status, ApplySnapStep::ApplyPreHandled)
        } else {
            guard_step(status, ApplySnapStep::LoadSnapshotFile)
        },
        ApplySnapStep::ApplyPreHandled => ApplySnapStep::SaveNormalState,
        ApplySnapStep::LoadSnapshotFile => if succeeded {
            guard_step(status, ApplySnapStep::ApplySnapshotFile)
        } else {
            ApplySnapStep::Done(ApplyOutcome::Failed)
        },
        ApplySnapStep::ApplySnapshotFile => ApplySnapStep::SaveNormalState,
        ApplySnapStep::SaveNormalState => if succeeded {
            ApplySnapStep::Done(ApplyOutcome::Applied)
        } else {
            ApplySnapStep::Done(ApplyOutcome::Failed)
        },
        ApplySnapStep::Done(outcome) => ApplySnapStep::Done(outcome),
    }
}

/// A pre-handled snapshot may only be applied at the index and term of the
/// region's truncated state.
pub fn pre_handled_matches(index: u64, term: u64, snap_index: u64, snap_term: u64) -> (r: bool)
    ensures
        r == (index == snap_index && term == snap_term),
{
    index == snap_index && term == snap_term
}

/// An apply asked to stop is never marked normal: from any step, with the
/// job's status `Cancelling`, the next step is not `SaveNormalState` unless
/// the step just done applied data, and it is never `Done(Applied)` unless the
/// step just done saved the normal state.
pub proof fn lemma_cancel_stops_apply(step: ApplySnapStep, succeeded: bool, has_pre_handled: bool)
    ensures
        ({
            let next = apply_snap_next(step, succeeded, JobStatus::Cancelling, has_pre_handled);
            &&& next == ApplySnapStep::SaveNormalState ==> (step == ApplySnapStep::ApplyPreHandled || step
                == ApplySnapStep::ApplySnapshotFile)
            &&& next == ApplySnapStep::Done(ApplyOutcome::Applied) ==> (step == ApplySnapStep::SaveNormalState
                || step == ApplySnapStep::Done(ApplyOutcome::Applied))
            &&& (step == ApplySnapStep::LoadRegionState || step == ApplySnapStep::CleanupRegionData || step
                == ApplySnapStep::LoadApplyState || step == ApplySnapStep::LoadSnapshotFile) ==> (next
                == ApplySnapStep::Done(ApplyOutcome::Aborted) || next == ApplySnapStep::Done(ApplyOutcome::Failed))
        }),
{
}

/// A failed step ends the apply as failed, whatever the job's status and
/// whatever snapshot is at hand: once reading the region state, deleting the
/// region's old data, reading the apply state, finding the snapshot file or
/// saving the normal state fails, no later step of the apply runs.
pub proof fn lemma_failed_step_fails_apply(step: ApplySnapStep, status: JobStatus, has_pre_handled: bool)
    requires
        apply_step_can_fail(step),
    ensures
        apply_snap_next(step, false, status, has_pre_handled) == ApplySnapStep::Done(ApplyOutcome::Failed),
{
}

/// How an apply moves without a cancel request, and what only a cancel
/// request or a successful save does:
/// - without a cancel request the checks let every step through: the apply
///   starts with the region state, then deletes the old data, reads the apply
///   state, applies the pre-handled snapshot or finds and applies the
///   snapshot file, and saves the normal state last;
/// - the job's status matters only through a cancel request: any two other
///   statuses give the same next step;
/// - an apply ends aborted only on a cancel request, and ends applied only
///   after the normal state is saved.
pub proof fn lemma_apply_steps_in_order(
    step: ApplySnapStep,
    succeeded: bool,
    status: JobStatus,
    other: JobStatus,
    has_pre_handled: bool,
)
    ensures
        status != JobStatus::Cancelling ==> {
            &&& guarded(status, ApplySnapStep::LoadRegionState) == ApplySnapStep::LoadRegionState
            &&& apply_snap_next(ApplySnapStep::LoadRegionState, true, status, has_pre_handled)
                == ApplySnapStep::CleanupRegionData
            &&& apply_snap_next(ApplySnapStep::CleanupRegionData, true, status, has_pre_handled)
                == ApplySnapStep::LoadApplyState
            &&& apply_snap_next(ApplySnapStep::LoadApplyState, true, status, true) == ApplySnapStep::ApplyPreHandled
            &&& apply_snap_next(ApplySnapStep::LoadApplyState, true, status, false) == ApplySnapStep::LoadSnapshotFile
            &&& apply_snap_next(ApplySnapStep::LoadSnapshotFile, true, status, has_pre_handled)
                == ApplySnapStep::ApplySnapshotFile
            &&& apply_snap_next(ApplySnapStep::ApplyPreHandled, succeeded, status, has_pre_handled)
                == ApplySnapStep::SaveNormalState
            &&& apply_snap_next(ApplySnapStep::ApplySnapshotFile, succeeded, status, has_pre_handled)
                == ApplySnapStep::SaveNormalState
            &&& apply_snap_next(ApplySnapStep::SaveNormalState, true, status, has_pre_handled)
                == ApplySnapStep::Done(ApplyOutcome::Applied)
        },
        status != JobStatus::Cancelling && other != JobStatus::Cancelling ==> apply_snap_next(
            step,
            succeeded,
            status,
            has_pre_handled,
        ) == apply_snap_next(step, succeeded, other, has_pre_handled),
        apply_snap_next(step, succeeded, status, has_pre_handled) == ApplySnapStep::Done(ApplyOutcome::Aborted) ==> (
        status == JobStatus::Cancelling || step == ApplySnapStep::Done(ApplyOutcome::Aborted)),
        apply_snap_next(step, succeeded, status, has_pre_handled) == ApplySnapStep::Done(ApplyOutcome::Applied) ==> ((
        step == ApplySnapStep::SaveNormalState && succeeded) || step == ApplySnapStep::Done(ApplyOutcome::Applied)),
{
}

/// What a cancel request does to an apply: the apply is abandoned at the
/// first check that sees it, before loading the region state, after loading
/// it, after deleting the old data, after loading the apply state and after
/// finding the snapshot file.  Once data is being applied there is no more
/// check: applying leads to saving the normal state, and a saved normal state
/// ends the apply as applied, whatever the job's status.  An ended apply
/// stays ended.
pub proof fn lemma_cancel_aborts_apply(
    step: ApplySnapStep,
    succeeded: bool,
    status: JobStatus,
    has_pre_handled: bool,
    outcome: ApplyOutcome,
)
    ensures
        guarded(JobStatus::Cancelling, ApplySnapStep::LoadRegionState) == ApplySnapStep::Done(ApplyOutcome::Aborted),
        (step == ApplySnapStep::LoadRegionState || step == ApplySnapStep::CleanupRegionData || step
            == ApplySnapStep::LoadApplyState || step == ApplySnapStep::LoadSnapshotFile) ==> apply_snap_next(
            step,
            true,
            JobStatus::Cancelling,
            has_pre_handled,
        ) == ApplySnapStep::Done(ApplyOutcome::Aborted),
        apply_snap_next(ApplySnapStep::ApplyPreHandled, succeeded, status, has_pre_handled)
            == ApplySnapStep::SaveNormalState,
        apply_snap_next(ApplySnapStep::ApplySnapshotFile, succeeded, status, has_pre_handled)
            == ApplySnapStep::SaveNormalState,
        apply_snap_next(ApplySnapStep::SaveNormalState, true, status, has_pre_handled) == ApplySnapStep::Done(
            ApplyOutcome::Applied,
        ),
        apply_snap_next(ApplySnapStep::Done(outcome), succeeded, status, has_pre_handled) == ApplySnapStep::Done(
            outcome,
        ),
{
}

/// Steps of pre-handling a region's snapshot before it is applied.  The
/// job's status is checked for a cancel request before loading the region
/// state, and again once the snapshot file is found.
#[derive(PartialEq, Eq, Structural, Clone, Copy, Debug)]
pub enum PreHandleStep {
    /// Read the region's local state.
    LoadRegionState,
    /// Read the region's apply state.
    LoadApplyState,
    /// Find the snapshot file of the truncated state's index and term.
    LoadSnapshotFile,
    /// Let the engine store pre-handle the snapshot.
    PreHandle,
    Done(PreHandleOutcome),
}

/// How pre-handling a snapshot ended.
#[derive(PartialEq, Eq, Structural, Clone, Copy, Debug)]
pub enum PreHandleOutcome {
    PreHandled,
    Aborted,
    Failed,
}

/// Goes to `next` unless the job has been asked to stop.
pub open spec fn pre_handle_guarded(status: JobStatus, next: PreHandleStep) -> PreHandleStep {
    if status == JobStatus::Cancelling {
        PreHandleStep::Done(PreHandleOutcome::Aborted)
    } else {
        next
    }
}

/// The step after `step`, given whether it succeeded (for the snapshot file:
/// whether it exists) and the job's status.
pub open spec fn pre_handle_next(step: PreHandleStep, succeeded: bool, status: JobStatus) -> PreHandleStep {
    match step {
        PreHandleStep::LoadRegionState => if succeeded {
            PreHandleStep::LoadApplyState
        } else {
            PreHandleStep::Done(PreHandleOutcome::Failed)
        },
        PreHandleStep::LoadApplyState => if succeeded {
            PreHandleStep::LoadSnapshotFile
        } else {
            PreHandleStep::Done(PreHandleOutcome::Failed)
        },
        PreHandleStep::LoadSnapshotFile => if succeeded {
            pre_handle_guarded(status, PreHandleStep::PreHandle)
        } else {
            PreHandleStep::Done(PreHandleOutcome::Failed)
        },
        PreHandleStep::PreHandle => PreHandleStep::Done(PreHandleOutcome::PreHandled),
        PreHandleStep::Done(outcome) => PreHandleStep::Done(outcome),
    }
}

/// Pre-handling starts by loading the region state, unless the job has been
/// asked to stop.
pub fn first_pre_handle_step(status: JobStatus) -> (r: PreHandleStep)
    ensures
        r == pre_handle_guarded(status, PreHandleStep::LoadRegionState),
        status != JobStatus::Cancelling ==> r == PreHandleStep::LoadRegionState,
        status == JobStatus::Cancelling ==> r == PreHandleStep::Done(PreHandleOutcome::Aborted),
{
    if abort_requested(status) {
        PreHandleStep::Done(PreHandleOutcome::Aborted)
    } else {
        PreHandleStep::LoadRegionState
    }
}

/// The step of pre-handling a snapshot after `step`: a failed step or a
/// missing file ends it as failed; a cancel request seen once the file is
/// found ends it as aborted; otherwise the engine store pre-handles it.
pub fn next_pre_handle_step(step: PreHandleStep, succeeded: bool, status: JobStatus) -> (r: PreHandleStep)
    ensures
        r == pre_handle_next(step, succeeded, status),
        step == PreHandleStep::LoadSnapshotFile && succeeded && status != JobStatus::Cancelling ==> r
            == PreHandleStep::PreHandle,
        r == PreHandleStep::Done(PreHandleOutcome::Aborted) ==> status == JobStatus::Cancelling
            || step == PreHandleStep::Done(PreHandleOutcome::Aborted),
{
    match step {
        PreHandleStep::LoadRegionState => if succeeded {
            PreHandleStep::LoadApplyState
        } else {
            PreHandleStep::Done(PreHandleOutcome::Failed)
        },
        PreHandleStep::LoadApplyState => if succeeded {
            PreHandleStep::LoadSnapshotFile
        } else {
            PreHandleStep::Done(PreHandleOutcome::Failed)
        },
        PreHandleStep::LoadSnapshotFile => if !succeeded {
            PreHandleStep::Done(PreHandleOutcome::Failed)
        } else if abort_requested(status) {
            PreHandleStep::Done(PreHandleOutcome::Aborted)
        } else {
            PreHandleStep::PreHandle
        },
        PreHandleStep::PreHandle => PreHandleStep::Done(PreHandleOutcome::PreHandled),
        PreHandleStep::Done(outcome) => PreHandleStep::Done(outcome),
    }
}

/// Pre-handling is abandoned only on a cancel request:
/// - for every status but `Cancelling` the check lets it through: it starts
///   with the region state, reads the apply state, and a found snapshot file
///   is pre-handled by the engine store, which ends it as pre-handled;
/// - the job's status matters only through a cancel request: any two other
///   statuses give the same next step;
/// - it ends aborted only on a cancel request, and ends pre-handled only
///   after the engine store pre-handled the snapshot;
/// - a failed step or a missing snapshot file ends it as failed.
pub proof fn lemma_pre_handle_aborts_only_on_cancel(
    step: PreHandleStep,
    succeeded: bool,
    status: JobStatus,
    other: JobStatus,
)
    ensures
        status != JobStatus::Cancelling ==> {
            &&& pre_handle_guarded(status, PreHandleStep::LoadRegionState) == PreHandleStep::LoadRegionState
            &&& pre_handle_next(PreHandleStep::LoadRegionState, true, status) == PreHandleStep::LoadApplyState
            &&& pre_handle_next(PreHandleStep::LoadApplyState, true, status) == PreHandleStep::LoadSnapshotFile
            &&& pre_handle_next(PreHandleStep::LoadSnapshotFile, true, status) == PreHandleStep::PreHandle
            &&& pre_handle_next(PreHandleStep::PreHandle, succeeded, status) == PreHandleStep::Done(
                PreHandleOutcome::PreHandled,
            )
        },
        status != JobStatus::Cancelling && other != JobStatus::Cancelling ==> pre_handle_next(step, succeeded, status)
            == pre_handle_next(step, succeeded, other),
        pre_handle_next(step, succeeded, status) == PreHandleStep::Done(PreHandleOutcome::Aborted) ==> (status
            == JobStatus::Cancelling || step == PreHandleStep::Done(PreHandleOutcome::Aborted)),
        pre_handle_next(step, succeeded, status) == PreHandleStep::Done(PreHandleOutcome::PreHandled) ==> (step
            == PreHandleStep::PreHandle || step == PreHandleStep::Done(PreHandleOutcome::PreHandled)),
        (step == PreHandleStep::LoadRegionState || step == PreHandleStep::LoadApplyState || step
            == PreHandleStep::LoadSnapshotFile) ==> pre_handle_next(step, false, status) == PreHandleStep::Done(
            PreHandleOutcome::Failed,
        ),
{
}

/// What a cancel request does to pre-handling: it is abandoned at the check
/// before loading the region state and at the check once the snapshot file
/// is found; reading the region and apply states is not checked, and once the
/// engine store has pre-handled the snapshot it ends as pre-handled whatever
/// the job's status.  Ended pre-handling stays ended.
pub proof fn lemma_cancel_aborts_pre_handle(
    succeeded: bool,
    status: JobStatus,
    outcome: PreHandleOutcome,
)
    ensures
        pre_handle_guarded(JobStatus::Cancelling, PreHandleStep::LoadRegionState) == PreHandleStep::Done(
            PreHandleOutcome::Aborted,
        ),
        pre_handle_next(PreHandleStep::LoadSnapshotFile, true, JobStatus::Cancelling) == PreHandleStep::Done(
            PreHandleOutcome::Aborted,
        ),
        pre_handle_next(PreHandleStep::LoadRegionState, true, status) == PreHandleStep::LoadApplyState,
        pre_handle_next(PreHandleStep::LoadApplyState, true, status) == PreHandleStep::LoadSnapshotFile,
        pre_handle_next(PreHandleStep::PreHandle, succeeded, status) == PreHandleStep::Done(
            PreHandleOutcome::PreHandled,
        ),
        pre_handle_next(PreHandleStep::Done(outcome), succeeded, status) == PreHandleStep::Done(outcome),
{
}

/// What polling the pre-handling of the oldest pending apply gave.
#[derive(PartialEq, Eq, Structural, Clone, Copy, Debug)]
pub enum PreHandlePoll {
    /// Pre-handling finished; `Some(empty)` carries whether the pre-handled
    /// snapshot is empty, `None` that pre-handling failed.
    Ready(Option<bool>),
    /// The pre-handling side is gone without an answer.
    Disconnected,
    /// Not finished yet.
    NotReady,
}

/// One step of handling the pending applies, oldest first.
#[derive(PartialEq, Eq, Structural, Clone, Copy, Debug)]
pub struct PendingApplyStep {
    /// Take the oldest pending apply out of the queue and apply it.
    pub apply_front: bool,
    /// Go on with the next pending apply in this round.
    pub keep_going: bool,
}

/// Decides what to do with the oldest pending apply.  While ingesting a
/// snapshot may stall writes, nothing is applied and the round stops (the
/// pre-handling is then not polled).  Otherwise a finished or abandoned
/// pre-handling is applied, and the round goes on only after an apply whose
/// pre-handled snapshot is missing or empty.
pub fn pending_apply_step(ingest_may_stall: bool, poll: PreHandlePoll) -> (r: PendingApplyStep)
    ensures
        ingest_may_stall ==> !r.apply_front && !r.keep_going,
        !ingest_may_stall ==> r.apply_front == (poll != PreHandlePoll::NotReady),
        !ingest_may_stall ==> r.keep_going == (poll == PreHandlePoll::Ready(None) || poll == PreHandlePoll::Ready(
            Some(true),
        )),
{
    if ingest_may_stall {
        return PendingApplyStep { apply_front: false, keep_going: false };
    }
    match poll {
        PreHandlePoll::Ready(snap) => {
            let stop = match snap {
                Some(empty) => !empty,
                None => false,
            };
            PendingApplyStep { apply_front: true, keep_going: !stop }
        },
        PreHandlePoll::Disconnected => PendingApplyStep { apply_front: true, keep_going: false },
        PreHandlePoll::NotReady => PendingApplyStep { apply_front: false, keep_going: false },
    }
}

/// Steps of cleaning up the data of a range.
#[derive(PartialEq, Eq, Structural, Clone, Copy, Debug)]
pub enum CleanupStep {
    /// Delete the files that lie wholly inside the range.
    DeleteFiles,
    /// Delete all data in the range.
    DeleteRange,
    Done,
}

/// Cleaning a range starts by deleting its files when asked to.
pub fn first_cleanup_step(use_delete_files: bool) -> (r: CleanupStep)
    ensures
        use_delete_files ==> r == CleanupStep::DeleteFiles,
        !use_delete_files ==> r == CleanupStep::DeleteRange,
{
    if use_delete_files {
        CleanupStep::DeleteFiles
    } else {
        CleanupStep::DeleteRange
    }
}

/// The step after `step`, given whether it succeeded: a failure to delete
/// files ends the cleanup; data is deleted once.
pub fn next_cleanup_step(step: CleanupStep, succeeded: bool) -> (r: CleanupStep)
    ensures
        step == CleanupStep::DeleteFiles && succeeded ==> r == CleanupStep::DeleteRange,
        step == CleanupStep::DeleteFiles && !succeeded ==> r == CleanupStep::Done,
        step != CleanupStep::DeleteFiles ==> r == CleanupStep::Done,
{
    match step {
        CleanupStep::DeleteFiles => if succeeded {
            CleanupStep::DeleteRange
        } else {
            CleanupStep::Done
        },
        _ => CleanupStep::Done,
    }
}

/// A round of cleaning timed-out ranges backs off once it has taken
/// `CLEANUP_MAX_DURATION`.
pub fn cleanup_should_back_off(elapsed_ms: u64) -> (r: bool)
    ensures
        r == (elapsed_ms >= CLEANUP_MAX_DURATION),
{
    elapsed_ms >= CLEANUP_MAX_DURATION
}

/// Whether ingesting a snapshot may stall writes, given, for each column
/// family of a snapshot, whether its level 0 is near the stall threshold.
/// The lock column family is written as plain data, not ingested, and does
/// not count.
pub fn ingest_maybe_stall(slowdown: &[(WriteCmdCf, bool)]) -> (r: bool)
    ensures
        r == exists|i: int| 0 <= i < slowdown@.len() && slowdown@[i].0 != WriteCmdCf::Lock && #[trigger] slowdown@[i].1,
{
    let mut i: usize = 0;
    while i < slowdown.len()
        invariant
            i <= slowdown@.len(),
            forall|j: int| 0 <= j < i ==> !(slowdown@[j].0 != WriteCmdCf::Lock && #[trigger] slowdown@[j].1),
        decreases slowdown@.len() - i,
    {
        let (cf, maybe_slowdown) = slowdown[i];
        if cf != WriteCmdCf::Lock && maybe_slowdown {
            return true;
        }
        i = i + 1;
    }
    false
}

/// The part of the snapshot context that decides about pending ranges.
pub struct SnapContext {
    /// Whether data is deleted with the engine's range deletion.
    pub use_delete_range: bool,
    /// Delay before the data of a stale peer is deleted, in milliseconds.
    pub clean_stale_peer_delay: u64,
    pub pending_delete_ranges: PendingDeleteRanges,
}

/// What to do about a range whose peer is destroyed.
pub open spec fn delay_enabled(delay_ms: u64) -> bool {
    delay_ms / 1000 != 0
}

/// Deletion of a destroyed peer's range is delayed exactly when the delay is
/// at least one second, however long it is.
pub proof fn lemma_delay_enabled(delay_ms: u64)
    ensures
        delay_enabled(delay_ms) <==> delay_ms >= 1000,
{
}

impl SnapContext {
    pub fn new(use_delete_range: bool, clean_stale_peer_delay: u64) -> (r: SnapContext)
        ensures
            r.use_delete_range == use_delete_range,
            r.clean_stale_peer_delay == clean_stale_peer_delay,
            r.pending_delete_ranges.wf(),
            r.pending_delete_ranges@ == Seq::<RangeView>::empty(),
    {
        SnapContext { use_delete_range, clean_stale_peer_delay, pending_delete_ranges: PendingDeleteRanges::new() }
    }

    /// Starts a round of cleaning the ranges timed out at `now`, in key
    /// order.
    pub fn begin_timeout_cleanup(&self, now: u64) -> (r: TimeoutCleanupRound)
        requires
            self.pending_delete_ranges.wf(),
        ensures
            r.wf(),
            r.source() == self.pending_delete_ranges@,
            r.timed() == timed_out_ranges(self.pending_delete_ranges@, now),
            r.pos() == 0,
            !r.backed_off(),
    {
        let ranges = self.pending_delete_ranges.timeout_ranges(now);
        let r = TimeoutCleanupRound {
            ranges,
            pos: 0,
            cleaned: Vec::new(),
            backed_off: false,
            source: Ghost(self.pending_delete_ranges@),
            timed: Ghost(timed_out_ranges(self.pending_delete_ranges@, now)),
        };
        assert(r.timed@ == timed_out_ranges(r.source@, now));
        r
    }

    /// Ends a round: the ranges it cleaned are forgotten, and every other
    /// range keeps its entry.  These are the first `pos` timed-out ranges, all
    /// of them unless the round backed off.
    pub fn finish_timeout_cleanup(&mut self, round: TimeoutCleanupRound)
        requires
            old(self).pending_delete_ranges.wf(),
            round.wf(),
            round.done(),
            round.source() == old(self).pending_delete_ranges@,
        ensures
            final(self).pending_delete_ranges.wf(),
            final(self).clean_stale_peer_delay == old(self).clean_stale_peer_delay,
            final(self).use_delete_range == old(self).use_delete_range,
            !round.backed_off() ==> round.pos() == round.timed().len(),
            forall|k: Seq<u8>| #[trigger] stored(final(self).pending_delete_ranges@, k) == if cleaned_in_round(
                round.timed(),
                round.pos(),
                k,
            ) {
                None
            } else {
                stored(old(self).pending_delete_ranges@, k)
            },
    {
        let ghost s = self.pending_delete_ranges@;
        let ghost t = round.timed();
        let ghost pos = round.pos();
        proof {
            assert(t == timed_out_ranges(s, round.now()));
            lemma_timed_out_stored(s, round.now());
            assert(triples_view(round.ranges@).len() == t.len());
            let keys = round.cleaned@;
            assert forall|i: int| 0 <= i < keys.len() implies has_key(s, #[trigger] keys[i]@) by {
                assert(keys[i]@ == t[i].start);
            }
            assert forall|i: int, j: int| 0 <= i < j < keys.len() implies (#[trigger] keys[i])@ != (#[trigger] keys[j])@ by {
                assert(keys[i]@ == t[i].start && keys[j]@ == t[j].start);
                lemma_lex_lt_irreflexive(t[i].start);
            }
            assert forall|k: Seq<u8>| cleaned_key(keys, k) == cleaned_in_round(t, pos, k) by {
                if cleaned_key(keys, k) {
                    let j = choose|j: int| 0 <= j < keys.len() && (#[trigger] keys[j])@ == k;
                    assert(t[j].start == k);
                }
                if cleaned_in_round(t, pos, k) {
                    let j = choose|j: int| 0 <= j < pos && (#[trigger] t[j]).start == k;
                    assert(keys[j]@ == k);
                }
            }
        }
        self.finish_cleanup(&round.cleaned);
    }

    /// Takes out the pending ranges overlapping `[start_key, end_key)`; the
    /// caller cleans them up at once, without deleting files.
    pub fn cleanup_overlap_ranges(&mut self, start_key: &[u8], end_key: &[u8]) -> (r: Vec<RangeTriple>)
        requires
            old(self).pending_delete_ranges.wf(),
            lex_le(start_key@, end_key@),
        ensures
            final(self).pending_delete_ranges.wf(),
            final(self).clean_stale_peer_delay == old(self).clean_stale_peer_delay,
            final(self).use_delete_range == old(self).use_delete_range,
            triples_view(r@) == ranges_triples(overlap_ranges(old(self).pending_delete_ranges@, start_key@, end_key@)),
            final(self).pending_delete_ranges@ == drained_ranges(old(self).pending_delete_ranges@, start_key@, end_key@),
    {
        self.pending_delete_ranges.drain_overlap_ranges(start_key, end_key)
    }

    /// Before a region's snapshot is applied, its old data goes: the data key
    /// range of the region (from its start key and end key, an empty end key
    /// meaning no end) is computed, and the pending ranges overlapping it are
    /// taken out.  Returns the data key range, to be deleted, and the taken-out
    /// ranges, to be cleaned up at once without deleting files.
    pub fn cleanup_region_data(&mut self, region_start: &[u8], region_end: &[u8]) -> (r: (Vec<u8>, Vec<u8>, Vec<RangeTriple>))
        requires
            old(self).pending_delete_ranges.wf(),
            region_end@.len() == 0 || lex_le(region_start@, region_end@),
        ensures
            final(self).pending_delete_ranges.wf(),
            final(self).clean_stale_peer_delay == old(self).clean_stale_peer_delay,
            final(self).use_delete_range == old(self).use_delete_range,
            r.0@ == data_key_of(region_start@),
            r.1@ == data_end_key_of(region_end@),
            lex_le(r.0@, r.1@),
            triples_view(r.2@) == ranges_triples(overlap_ranges(old(self).pending_delete_ranges@, r.0@, r.1@)),
            final(self).pending_delete_ranges@ == drained_ranges(old(self).pending_delete_ranges@, r.0@, r.1@),
    {
        let start_key = enc_start_key(region_start);
        let end_key = enc_end_key(region_end);
        proof {
            lemma_region_data_range_ordered(region_start@, region_end@);
        }
        let overlaps = self.cleanup_overlap_ranges(start_key.as_slice(), end_key.as_slice());
        (start_key, end_key, overlaps)
    }

    /// Registers `[start_key, end_key)` for deletion after the delay, once
    /// the overlapping pending ranges are taken out.  With a delay under one
    /// second nothing happens and `false` is returned.  Returns whether the
    /// range was registered, and the taken-out ranges, which the caller
    /// cleans up at once.
    pub fn insert_pending_delete_range(
        &mut self,
        region_id: u64,
        start_key: &[u8],
        end_key: &[u8],
        now: u64,
    ) -> (r: (bool, Vec<RangeTriple>))
        requires
            old(self).pending_delete_ranges.wf(),
            delay_enabled(old(self).clean_stale_peer_delay) ==> lex_le(start_key@, end_key@),
            delay_enabled(old(self).clean_stale_peer_delay) ==> now + old(self).clean_stale_peer_delay <= u64::MAX,
        ensures
            final(self).pending_delete_ranges.wf(),
            final(self).clean_stale_peer_delay == old(self).clean_stale_peer_delay,
            final(self).use_delete_range == old(self).use_delete_range,
            r.0 == delay_enabled(old(self).clean_stale_peer_delay),
            r.0 == (old(self).clean_stale_peer_delay >= 1000),
            !r.0 ==> r.1@.len() == 0 && final(self).pending_delete_ranges@ == old(self).pending_delete_ranges@,
            r.0 ==> triples_view(r.1@) == ranges_triples(
                overlap_ranges(old(self).pending_delete_ranges@, start_key@, end_key@),
            ),
            r.0 ==> final(self).pending_delete_ranges@ == inserted_ranges(
                drained_ranges(old(self).pending_delete_ranges@, start_key@, end_key@),
                RangeView {
                    start: start_key@,
                    region_id,
                    end: end_key@,
                    timeout: (now + old(self).clean_stale_peer_delay) as u64,
                },
            ),
    {
        if self.clean_stale_peer_delay / 1000 == 0 {
            return (false, Vec::new());
        }
        proof {
            lemma_drain_leaves_no_overlap(self.pending_delete_ranges@, start_key@, end_key@);
        }
        let overlaps = self.cleanup_overlap_ranges(start_key, end_key);
        let timeout = now + self.clean_stale_peer_delay;
        self.pending_delete_ranges.insert(region_id, start_key, end_key, timeout);
        (true, overlaps)
    }

    /// Decides about a destroyed peer's range `[start_key, end_key)`: it is
    /// registered for delayed deletion if the delay allows it, and the ranges
    /// returned are to be cleaned up at once, without deleting files: the
    /// overlapping pending ranges if it was registered, else the range itself.
    pub fn destroy_range(&mut self, region_id: u64, start_key: &[u8], end_key: &[u8], now: u64) -> (r: Vec<RangeTriple>)
        requires
            old(self).pending_delete_ranges.wf(),
            delay_enabled(old(self).clean_stale_peer_delay) ==> lex_le(start_key@, end_key@),
            delay_enabled(old(self).clean_stale_peer_delay) ==> now + old(self).clean_stale_peer_delay <= u64::MAX,
        ensures
            final(self).pending_delete_ranges.wf(),
            final(self).clean_stale_peer_delay == old(self).clean_stale_peer_delay,
            final(self).use_delete_range == old(self).use_delete_range,
            old(self).clean_stale_peer_delay < 1000 ==> {
                &&& triples_view(r@) == seq![(region_id, start_key@, end_key@)]
                &&& final(self).pending_delete_ranges@ == old(self).pending_delete_ranges@
            },
            old(self).clean_stale_peer_delay >= 1000 ==> {
                &&& triples_view(r@) == ranges_triples(
                    overlap_ranges(old(self).pending_delete_ranges@, start_key@, end_key@),
                )
                &&& final(self).pending_delete_ranges@ == inserted_ranges(
                    drained_ranges(old(self).pending_delete_ranges@, start_key@, end_key@),
                    RangeView {
                        start: start_key@,
                        region_id,
                        end: end_key@,
                        timeout: (now + old(self).clean_stale_peer_delay) as u64,
                    },
                )
            },
    {
        let (registered, overlaps) = self.insert_pending_delete_range(region_id, start_key, end_key, now);
        if registered {
            overlaps
        } else {
            let mut r: Vec<RangeTriple> = Vec::new();
            r.push((region_id, slice_to_vec(start_key), slice_to_vec(end_key)));
            assert(triples_view(r@) =~= seq![(region_id, start_key@, end_key@)]);
            r
        }
    }

    /// The pending ranges that have timed out at `now`, in key order.
    pub fn timeout_ranges(&self, now: u64) -> (r: Vec<RangeTriple>)
        ensures
            triples_view(r@) == ranges_triples(timed_out_ranges(self.pending_delete_ranges@, now)),
    {
        self.pending_delete_ranges.timeout_ranges(now)
    }

    /// Forgets the ranges stored under `keys` once their data is cleaned up.
    /// Each key must be stored, and appear once.
    pub fn finish_cleanup(&mut self, keys: &Vec<Vec<u8>>)
        requires
            old(self).pending_delete_ranges.wf(),
            forall|i: int| 0 <= i < keys@.len() ==> has_key(old(self).pending_delete_ranges@, #[trigger] keys@[i]@),
            forall|i: int, j: int| 0 <= i < j < keys@.len() ==> (#[trigger] keys@[i])@ != (#[trigger] keys@[j])@,
        ensures
            final(self).pending_delete_ranges.wf(),
            final(self).clean_stale_peer_delay == old(self).clean_stale_peer_delay,
            final(self).use_delete_range == old(self).use_delete_range,
            forall|k: Seq<u8>| #[trigger] stored(final(self).pending_delete_ranges@, k) == if cleaned_key(keys@, k) {
                None
            } else {
                stored(old(self).pending_delete_ranges@, k)
            },
    {
        let mut i: usize = 0;
        while i < keys.len()
            invariant
                i <= keys@.len(),
                self.pending_delete_ranges.wf(),
                self.clean_stale_peer_delay == old(self).clean_stale_peer_delay,
                self.use_delete_range == old(self).use_delete_range,
                forall|j: int| i <= j < keys@.len() ==> has_key(old(self).pending_delete_ranges@, #[trigger] keys@[j]@),
                forall|a: int, b: int| 0 <= a < b < keys@.len() ==> (#[trigger] keys@[a])@ != (#[trigger] keys@[b])@,
                forall|k: Seq<u8>| #[trigger] stored(self.pending_delete_ranges@, k) == if cleaned_key(keys@.take(i as int), k) {
                    None
                } else {
                    stored(old(self).pending_delete_ranges@, k)
                },
            decreases keys@.len() - i,
        {
            let ghost before = self.pending_delete_ranges@;
            let key = keys[i].as_slice();
            proof {
                // the key is still stored: it was stored at first and no earlier key equals it
                assert(!cleaned_key(keys@.take(i as int), key@)) by {
                    if cleaned_key(keys@.take(i as int), key@) {
                        let j = choose|j: int| 0 <= j < keys@.take(i as int).len() && (#[trigger] keys@.take(i as int)[j])@ == key@;
                        assert(keys@[j]@ == keys@[i as int]@);
                    }
                }
                assert(stored(before, key@) == stored(old(self).pending_delete_ranges@, key@));
                assert(has_key(old(self).pending_delete_ranges@, keys@[i as int]@));
            }
            let removed = self.pending_delete_ranges.remove(key);
            proof {
                assert(has_key(before, key@));
                assert forall|k: Seq<u8>| #[trigger] stored(self.pending_delete_ranges@, k) == if cleaned_key(keys@.take(i + 1), k) {
                    None
                } else {
                    stored(old(self).pending_delete_ranges@, k)
                } by {
                    lemma_stored_after_remove(before, key@, k);
                    assert(keys@.take(i + 1) == keys@.take(i as int).push(keys@[i as int]));
                    if k == key@ {
                        assert(keys@.take(i + 1)[i as int]@ == k);
                    } else {
                        if cleaned_key(keys@.take(i + 1), k) {
                            let j = choose|j: int| 0 <= j < keys@.take(i + 1).len() && (#[trigger] keys@.take(i + 1)[j])@ == k;
                            assert(keys@.take(i as int)[j]@ == k);
                        }
                        if cleaned_key(keys@.take(i as int), k) {
                            let j = choose|j: int| 0 <= j < keys@.take(i as int).len() && (#[trigger] keys@.take(i as int)[j])@ == k;
                            assert(keys@.take(i + 1)[j]@ == k);
                        }
                    }
                }
            }
            i = i + 1;
        }
        assert(keys@.take(keys@.len() as int) =~= keys@);
    }
}

/// `k` is the start key of one of the first `pos` timed-out ranges.
pub open spec fn cleaned_in_round(timed: Seq<RangeView>, pos: int, k: Seq<u8>) -> bool {
    exists|j: int| 0 <= j < pos && (#[trigger] timed[j]).start == k
}

/// A round of cleaning timed-out ranges: the ranges timed out when it
/// began, how many of them are cleaned, their start keys, and whether the
/// round backed off.
pub struct TimeoutCleanupRound {
    ranges: Vec<RangeTriple>,
    pos: usize,
    cleaned: Vec<Vec<u8>>,
    backed_off: bool,
    source: Ghost<Seq<RangeView>>,
    timed: Ghost<Seq<RangeView>>,
}

impl TimeoutCleanupRound {
    /// The pending ranges when the round began.
    pub closed spec fn source(&self) -> Seq<RangeView> {
        self.source@
    }

    /// The ranges timed out when the round began, in key order.
    pub closed spec fn timed(&self) -> Seq<RangeView> {
        self.timed@
    }

    /// How many of them are cleaned so far.
    pub closed spec fn pos(&self) -> int {
        self.pos as int
    }

    /// Whether the round backed off.
    pub closed spec fn backed_off(&self) -> bool {
        self.backed_off
    }

    /// The instant the round was taken at.
    pub closed spec fn now(&self) -> u64 {
        choose|now: u64| self.timed@ == timed_out_ranges(self.source@, now)
    }

    pub closed spec fn wf(&self) -> bool {
        &&& ranges_wf(self.source@)
        &&& exists|now: u64| self.timed@ == timed_out_ranges(self.source@, now)
        &&& triples_view(self.ranges@) == ranges_triples(self.timed@)
        &&& self.pos <= self.ranges@.len()
        &&& self.cleaned@.len() == self.pos
        &&& forall|i: int| 0 <= i < self.pos ==> (#[trigger] self.cleaned@[i])@ == self.timed@[i].start
        &&& self.backed_off ==> self.pos > 0
    }

    /// No range is left to clean in this round: all are cleaned, or it backed
    /// off.
    pub open spec fn done(&self) -> bool {
        self.backed_off() || self.pos() == self.timed().len()
    }

    /// The range to clean next, or `None` when the round is done.
    pub fn next_range(&self) -> (r: Option<RangeTriple>)
        requires
            self.wf(),
        ensures
            r is None <==> self.done(),
            r matches Some(t) ==> triple_view(t) == range_triple(self.timed()[self.pos()]),
    {
        proof {
            assert(triples_view(self.ranges@).len() == self.timed@.len());
        }
        if self.backed_off || self.pos == self.ranges.len() {
            return None;
        }
        let t = &self.ranges[self.pos];
        proof {
            assert(triples_view(self.ranges@)[self.pos as int] == ranges_triples(self.timed@)[self.pos as int]);
        }
        Some((t.0, slice_to_vec(t.1.as_slice()), slice_to_vec(t.2.as_slice())))
    }

    /// Records that the next range is cleaned, `elapsed_ms` after the round
    /// began; the round backs off once that reaches `CLEANUP_MAX_DURATION`.
    pub fn range_cleaned(&mut self, elapsed_ms: u64)
        requires
            old(self).wf(),
            !old(self).done(),
        ensures
            final(self).wf(),
            final(self).source() == old(self).source(),
            final(self).timed() == old(self).timed(),
            final(self).pos() == old(self).pos() + 1,
            final(self).backed_off() == (elapsed_ms >= CLEANUP_MAX_DURATION),
    {
        proof {
            assert(triples_view(self.ranges@).len() == self.timed@.len());
            assert(self.pos < self.ranges@.len());
            assert(triples_view(self.ranges@)[self.pos as int] == ranges_triples(self.timed@)[self.pos as int]);
        }
        let p = self.pos;
        let n = self.ranges.len();
        assert(p < n);
        let key = slice_to_vec(self.ranges[p].1.as_slice());
        self.cleaned.push(key);
        self.pos = p + 1;
        self.backed_off = cleanup_should_back_off(elapsed_ms);
    }
}

/// `k` is one of the keys.
pub open spec fn cleaned_key(keys: Seq<Vec<u8>>, k: Seq<u8>) -> bool {
    exists|j: int| 0 <= j < keys.len() && (#[trigger] keys[j])@ == k
}

} // verus!
