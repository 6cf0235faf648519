use tiflash_proxy::invoke::WriteCmdCf;
use tiflash_proxy::region_worker::{
    first_pre_handle_step, next_pre_handle_step, PreHandleOutcome, PreHandleStep as P,
    first_apply_snap_step, next_apply_snap_step, pre_handled_matches, ApplySnapStep as S,
};
use tiflash_proxy::region_worker::{
    cleanup_should_back_off, first_cleanup_step, ingest_maybe_stall, new_timer_events, next_cleanup_step,
    pending_apply_step, status_after_apply, status_on_start, abort_requested, finish_apply, ApplyOutcome, CleanupStep,
    Event, JobStatus, PendingApplyStep, PreHandlePoll, SnapContext, Task, CLEANUP_MAX_DURATION,
    PENDING_APPLY_CHECK_INTERVAL, STALE_PEER_CHECK_INTERVAL,
};

#[test]
fn timer_events_and_intervals() {
    assert_eq!(PENDING_APPLY_CHECK_INTERVAL, 20);
    assert_eq!(STALE_PEER_CHECK_INTERVAL, 10_000);
    assert_eq!(new_timer_events(), vec![(20, Event::CheckApply), (10_000, Event::CheckStalePeer)]);
    assert_eq!(Event::CheckApply.check_interval(), 20);
    assert_eq!(Event::CheckStalePeer.check_interval(), 10_000);
}

#[test]
fn task_descriptions() {
    let t = Task::Gen { region_id: 12, last_applied_index_term: 3 };
    assert_eq!(t.to_string(), "Snap gen for 12");
    let t = Task::Apply { region_id: 0, peer_id: 5 };
    assert_eq!(t.to_string(), "Snap apply for 0");
    let t = Task::destroy(1234567890, b"abc".to_vec(), vec![0x7a, 0x0f]);
    assert_eq!(t.to_string(), "Destroy 1234567890 [616263, 7A0F)");
    let t = Task::destroy(u64::MAX, vec![], vec![0xff]);
    assert_eq!(t.to_string(), "Destroy 18446744073709551615 [, FF)");
}

#[test]
fn job_status_codes_and_transitions() {
    let all = [
        JobStatus::Pending,
        JobStatus::Running,
        JobStatus::Cancelling,
        JobStatus::Cancelled,
        JobStatus::Finished,
        JobStatus::Failed,
    ];
    for (i, s) in all.iter().enumerate() {
        assert_eq!(s.code(), i);
        assert_eq!(JobStatus::from_code(i), Some(*s));
    }
    assert_eq!(JobStatus::from_code(6), None);
    assert_eq!(status_on_start(JobStatus::Pending), JobStatus::Running);
    assert_eq!(status_on_start(JobStatus::Cancelling), JobStatus::Cancelling);
    assert_eq!(status_after_apply(ApplyOutcome::Applied), JobStatus::Finished);
    assert_eq!(status_after_apply(ApplyOutcome::Aborted), JobStatus::Cancelled);
    assert_eq!(status_after_apply(ApplyOutcome::Failed), JobStatus::Failed);
    assert!(abort_requested(JobStatus::Cancelling));
    assert!(!abort_requested(JobStatus::Running));
}

#[test]
fn pending_apply_steps() {
    assert_eq!(
        pending_apply_step(false, PreHandlePoll::Ready(Some(false))),
        PendingApplyStep { apply_front: true, keep_going: false }
    );
    assert_eq!(
        pending_apply_step(false, PreHandlePoll::Ready(Some(true))),
        PendingApplyStep { apply_front: true, keep_going: true }
    );
    assert_eq!(
        pending_apply_step(false, PreHandlePoll::Ready(None)),
        PendingApplyStep { apply_front: true, keep_going: true }
    );
    assert_eq!(
        pending_apply_step(false, PreHandlePoll::Disconnected),
        PendingApplyStep { apply_front: true, keep_going: false }
    );
    assert_eq!(
        pending_apply_step(false, PreHandlePoll::NotReady),
        PendingApplyStep { apply_front: false, keep_going: false }
    );
}

#[test]
fn cleanup_steps() {
    assert_eq!(first_cleanup_step(true), CleanupStep::DeleteFiles);
    assert_eq!(first_cleanup_step(false), CleanupStep::DeleteRange);
    assert_eq!(next_cleanup_step(CleanupStep::DeleteFiles, true), CleanupStep::DeleteRange);
    assert_eq!(next_cleanup_step(CleanupStep::DeleteFiles, false), CleanupStep::Done);
    assert_eq!(next_cleanup_step(CleanupStep::DeleteRange, false), CleanupStep::Done);
    assert_eq!(next_cleanup_step(CleanupStep::DeleteRange, true), CleanupStep::Done);
    assert_eq!(CLEANUP_MAX_DURATION, 5_000);
    assert!(!cleanup_should_back_off(4_999));
    assert!(cleanup_should_back_off(5_000));
}

#[test]
fn ingest_stall_ignores_lock_cf() {
    assert!(!ingest_maybe_stall(&[]));
    assert!(!ingest_maybe_stall(&[
        (WriteCmdCf::Default, false),
        (WriteCmdCf::Lock, true),
        (WriteCmdCf::Write, false)
    ]));
    assert!(ingest_maybe_stall(&[
        (WriteCmdCf::Default, false),
        (WriteCmdCf::Lock, false),
        (WriteCmdCf::Write, true)
    ]));
}

#[test]
fn destroy_without_delay_cleans_at_once() {
    // a delay under one second counts as none
    for delay in [0u64, 999] {
        let mut ctx = SnapContext::new(false, delay);
        let clean = ctx.destroy_range(7, b"a", b"c", 1_000);
        assert_eq!(clean, [(7, b"a".to_vec(), b"c".to_vec())]);
        assert_eq!(ctx.pending_delete_ranges.len(), 0);
        let (registered, overlaps) = ctx.insert_pending_delete_range(7, b"a", b"c", 1_000);
        assert!(!registered);
        assert!(overlaps.is_empty());
    }
}

#[test]
fn destroy_with_delay_registers_and_cleans_overlaps() {
    let mut ctx = SnapContext::new(false, 1_000);
    assert!(ctx.destroy_range(1, b"a", b"c", 0).is_empty());
    assert!(ctx.destroy_range(2, b"d", b"f", 10).is_empty());
    let clean = ctx.destroy_range(3, b"b", b"e", 20);
    assert_eq!(clean, [(1, b"a".to_vec(), b"c".to_vec()), (2, b"d".to_vec(), b"f".to_vec())]);
    assert_eq!(ctx.pending_delete_ranges.len(), 1);
    assert!(ctx.timeout_ranges(1_019).is_empty());
    assert_eq!(ctx.timeout_ranges(1_020), [(3, b"b".to_vec(), b"e".to_vec())]);
}

#[test]
fn finish_cleanup_forgets_cleaned_ranges() {
    let mut ctx = SnapContext::new(false, 2_000);
    ctx.destroy_range(1, b"a", b"b", 0);
    ctx.destroy_range(2, b"c", b"d", 100);
    ctx.destroy_range(3, b"e", b"f", 0);
    let timed_out = ctx.timeout_ranges(2_000);
    assert_eq!(timed_out, [(1, b"a".to_vec(), b"b".to_vec()), (3, b"e".to_vec(), b"f".to_vec())]);
    let keys: Vec<Vec<u8>> = timed_out.into_iter().map(|(_, s, _)| s).collect();
    ctx.finish_cleanup(&keys);
    assert_eq!(ctx.pending_delete_ranges.len(), 1);
    assert_eq!(ctx.timeout_ranges(u64::MAX), [(2, b"c".to_vec(), b"d".to_vec())]);
}

#[test]
fn region_data_cleanup_takes_out_overlaps() {
    let mut ctx = SnapContext::new(false, 1_000);
    ctx.destroy_range(1, b"za", b"zc", 0);
    ctx.destroy_range(2, b"zx", b"{", 0);
    let (start, end, overlaps) = ctx.cleanup_region_data(b"b", b"");
    assert_eq!(start, b"zb".to_vec());
    assert_eq!(end, b"{".to_vec());
    assert_eq!(overlaps, [(1, b"za".to_vec(), b"zc".to_vec()), (2, b"zx".to_vec(), b"{".to_vec())]);
    assert_eq!(ctx.pending_delete_ranges.len(), 0);
}

#[test]
fn pending_applies_wait_while_ingest_may_stall() {
    for poll in [
        PreHandlePoll::Ready(Some(false)),
        PreHandlePoll::Ready(Some(true)),
        PreHandlePoll::Ready(None),
        PreHandlePoll::Disconnected,
        PreHandlePoll::NotReady,
    ] {
        assert_eq!(pending_apply_step(true, poll), PendingApplyStep { apply_front: false, keep_going: false });
    }
}

#[test]
fn finishing_an_apply_checks_the_replaced_status() {
    assert_eq!(finish_apply(ApplyOutcome::Aborted, JobStatus::Cancelling), Ok(JobStatus::Cancelled));
    assert_eq!(finish_apply(ApplyOutcome::Aborted, JobStatus::Running), Err(JobStatus::Running));
    assert_eq!(finish_apply(ApplyOutcome::Applied, JobStatus::Running), Ok(JobStatus::Finished));
    assert_eq!(finish_apply(ApplyOutcome::Failed, JobStatus::Cancelling), Ok(JobStatus::Failed));
}

#[test]
fn destroy_without_delay_accepts_any_keys() {
    let mut ctx = SnapContext::new(false, 500);
    let clean = ctx.destroy_range(4, b"z", b"a", u64::MAX);
    assert_eq!(clean, [(4, b"z".to_vec(), b"a".to_vec())]);
    assert_eq!(ctx.pending_delete_ranges.len(), 0);
}

#[test]
fn apply_snap_steps_in_order() {
    let run = JobStatus::Running;
    assert_eq!(first_apply_snap_step(run), S::LoadRegionState);
    assert_eq!(first_apply_snap_step(JobStatus::Cancelling), S::Done(ApplyOutcome::Aborted));
    // with a pre-handled snapshot
    let mut step = S::LoadRegionState;
    let mut seen = vec![step];
    while !matches!(step, S::Done(_)) {
        step = next_apply_snap_step(step, true, run, true);
        seen.push(step);
    }
    assert_eq!(
        seen,
        vec![
            S::LoadRegionState,
            S::CleanupRegionData,
            S::LoadApplyState,
            S::ApplyPreHandled,
            S::SaveNormalState,
            S::Done(ApplyOutcome::Applied)
        ]
    );
    // from the snapshot file
    assert_eq!(next_apply_snap_step(S::LoadApplyState, true, run, false), S::LoadSnapshotFile);
    assert_eq!(next_apply_snap_step(S::LoadSnapshotFile, true, run, false), S::ApplySnapshotFile);
    assert_eq!(next_apply_snap_step(S::ApplySnapshotFile, true, run, false), S::SaveNormalState);
    // a missing file or a failed step fails the apply
    assert_eq!(next_apply_snap_step(S::LoadSnapshotFile, false, run, false), S::Done(ApplyOutcome::Failed));
    assert_eq!(next_apply_snap_step(S::LoadRegionState, false, run, false), S::Done(ApplyOutcome::Failed));
    assert_eq!(next_apply_snap_step(S::SaveNormalState, false, run, false), S::Done(ApplyOutcome::Failed));
    // a cancel request is seen at each check
    let c = JobStatus::Cancelling;
    for s in [S::LoadRegionState, S::CleanupRegionData, S::LoadApplyState, S::LoadSnapshotFile] {
        assert_eq!(next_apply_snap_step(s, true, c, false), S::Done(ApplyOutcome::Aborted));
    }
    assert_eq!(next_apply_snap_step(S::ApplyPreHandled, true, c, true), S::SaveNormalState);
    assert!(pre_handled_matches(5, 2, 5, 2));
    assert!(!pre_handled_matches(5, 2, 5, 3));
    assert!(!pre_handled_matches(5, 2, 6, 2));
}

#[test]
fn timeout_cleanup_round_forgets_cleaned_prefix() {
    let mut ctx = SnapContext::new(true, 1_000);
    ctx.destroy_range(1, b"a", b"b", 0);
    ctx.destroy_range(2, b"c", b"d", 0);
    ctx.destroy_range(3, b"e", b"f", 0);
    ctx.destroy_range(4, b"g", b"h", 5_000);
    // a round that backs off after its second range
    let mut round = ctx.begin_timeout_cleanup(1_000);
    let mut cleaned = vec![];
    let mut elapsed = 0;
    while let Some((id, _, _)) = round.next_range() {
        cleaned.push(id);
        elapsed += 2_500;
        round.range_cleaned(elapsed);
    }
    assert_eq!(cleaned, vec![1, 2]);
    ctx.finish_timeout_cleanup(round);
    assert_eq!(ctx.timeout_ranges(u64::MAX), [(3, b"e".to_vec(), b"f".to_vec()), (4, b"g".to_vec(), b"h".to_vec())]);
    // a round that does not back off cleans all timed-out ranges
    let mut round = ctx.begin_timeout_cleanup(1_000);
    let mut cleaned = vec![];
    while let Some((id, s, e)) = round.next_range() {
        cleaned.push((id, s, e));
        round.range_cleaned(0);
    }
    assert_eq!(cleaned, [(3, b"e".to_vec(), b"f".to_vec())]);
    ctx.finish_timeout_cleanup(round);
    assert_eq!(ctx.timeout_ranges(u64::MAX), [(4, b"g".to_vec(), b"h".to_vec())]);
    // nothing timed out: an empty round
    let round = ctx.begin_timeout_cleanup(1_000);
    assert_eq!(round.next_range(), None);
    ctx.finish_timeout_cleanup(round);
    assert_eq!(ctx.pending_delete_ranges.len(), 1);
}

#[test]
fn pre_handle_steps_in_order() {
    let run = JobStatus::Running;
    assert_eq!(first_pre_handle_step(run), P::LoadRegionState);
    assert_eq!(first_pre_handle_step(JobStatus::Cancelling), P::Done(PreHandleOutcome::Aborted));
    assert_eq!(next_pre_handle_step(P::LoadRegionState, true, run), P::LoadApplyState);
    assert_eq!(next_pre_handle_step(P::LoadApplyState, true, run), P::LoadSnapshotFile);
    assert_eq!(next_pre_handle_step(P::LoadSnapshotFile, true, run), P::PreHandle);
    assert_eq!(next_pre_handle_step(P::PreHandle, true, run), P::Done(PreHandleOutcome::PreHandled));
    assert_eq!(next_pre_handle_step(P::LoadSnapshotFile, false, run), P::Done(PreHandleOutcome::Failed));
    assert_eq!(next_pre_handle_step(P::LoadRegionState, false, run), P::Done(PreHandleOutcome::Failed));
    assert_eq!(
        next_pre_handle_step(P::LoadSnapshotFile, true, JobStatus::Cancelling),
        P::Done(PreHandleOutcome::Aborted)
    );
    // the cancel request is only checked at the start and once the file is found
    assert_eq!(next_pre_handle_step(P::LoadRegionState, true, JobStatus::Cancelling), P::LoadApplyState);
}
