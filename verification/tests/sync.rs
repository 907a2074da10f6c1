use asset_ledger::chunk::{Chunk, ChunkPlanner};
use asset_ledger::sync::{
    pending_action, start, step, LedgerErrorKind, ResumePoint, StopReason, SyncAction, SyncCursor,
    SyncInput, SyncPolicy, SyncState,
};

fn drained(mut planner: ChunkPlanner) -> Vec<Chunk> {
    let mut out = vec![];
    while let Some(c) = planner.next_chunk() {
        out.push(c);
    }
    out
}

#[test]
fn baseline_policy() {
    assert_eq!(
        SyncPolicy::baseline(),
        SyncPolicy { history_window: 1000, max_range: 499, backoff_secs: 5 }
    );
}

#[test]
fn start_asks_for_the_first_chunk_of_the_window() {
    let policy = SyncPolicy::baseline();
    let (state, action) = start(20_000, &policy);
    assert_eq!(action, SyncAction::QueryChunk(Chunk { start: 19_000, end: 19_499 }));
    match state {
        SyncState::Backfilling { current, rest, latest } => {
            assert_eq!(current, Chunk { start: 19_000, end: 19_499 });
            assert_eq!(latest, 20_000);
            assert_eq!(
                drained(rest),
                vec![Chunk { start: 19_500, end: 19_999 }, Chunk { start: 20_000, end: 20_000 }]
            );
        }
        other => panic!("unexpected state {:?}", other),
    }
}

#[test]
fn start_on_a_young_ledger_begins_at_block_zero() {
    let policy = SyncPolicy::baseline();
    let (state, action) = start(120, &policy);
    assert_eq!(action, SyncAction::QueryChunk(Chunk { start: 0, end: 120 }));
    let (state, action) = step(state, SyncInput::ChunkApplied, &policy);
    assert_eq!(state, SyncState::Streaming { from_block: 121 });
    assert_eq!(action, SyncAction::Subscribe { from_block: 121 });
}

#[test]
fn backfill_walks_the_chunks_then_streams_behind_the_latest_block() {
    let policy = SyncPolicy::baseline();
    let (mut state, mut action) = start(20_000, &policy);
    let mut asked = vec![];
    while let SyncAction::QueryChunk(c) = action {
        asked.push(c);
        let next = step(state, SyncInput::ChunkApplied, &policy);
        state = next.0;
        action = next.1;
    }
    assert_eq!(
        asked,
        vec![
            Chunk { start: 19_000, end: 19_499 },
            Chunk { start: 19_500, end: 19_999 },
            Chunk { start: 20_000, end: 20_000 },
        ]
    );
    assert_eq!(state, SyncState::Streaming { from_block: 20_001 });
    assert_eq!(action, SyncAction::Subscribe { from_block: 20_001 });
}

#[test]
fn streaming_goes_on_after_each_event() {
    let policy = SyncPolicy::baseline();
    let state = SyncState::Streaming { from_block: 77 };
    assert_eq!(step(state, SyncInput::EventApplied, &policy), (state, SyncAction::AwaitEvent));
}

#[test]
fn stream_end_leads_to_recovery_and_back_to_the_same_boundary() {
    let policy = SyncPolicy::baseline();
    let state = SyncState::Streaming { from_block: 77 };
    for input in [SyncInput::StreamClosed, SyncInput::LedgerFailed(LedgerErrorKind::Transient)] {
        let (recovering, action) = step(state, input, &policy);
        assert_eq!(
            recovering,
            SyncState::Recovering { delay_secs: 5, resume: ResumePoint::Stream { from_block: 77 } }
        );
        assert_eq!(action, SyncAction::Wait { secs: 5 });
        let (resumed, action) = step(recovering, SyncInput::BackoffElapsed, &policy);
        assert_eq!(resumed, state);
        assert_eq!(action, SyncAction::Subscribe { from_block: 77 });
    }
}

#[test]
fn transient_failure_in_backfill_retries_the_same_chunk() {
    let policy = SyncPolicy { history_window: 10, max_range: 3, backoff_secs: 9 };
    let (state, first) = start(100, &policy);
    assert_eq!(first, SyncAction::QueryChunk(Chunk { start: 90, end: 93 }));
    let (state, second) = step(state, SyncInput::ChunkApplied, &policy);
    assert_eq!(second, SyncAction::QueryChunk(Chunk { start: 94, end: 97 }));
    let (recovering, wait) =
        step(state, SyncInput::LedgerFailed(LedgerErrorKind::Transient), &policy);
    assert_eq!(wait, SyncAction::Wait { secs: 9 });
    let (resumed, again) = step(recovering, SyncInput::BackoffElapsed, &policy);
    assert_eq!(resumed, state);
    assert_eq!(again, SyncAction::QueryChunk(Chunk { start: 94, end: 97 }));
    let (state, third) = step(resumed, SyncInput::ChunkApplied, &policy);
    assert_eq!(third, SyncAction::QueryChunk(Chunk { start: 98, end: 100 }));
    let (state, stream) = step(state, SyncInput::ChunkApplied, &policy);
    assert_eq!(stream, SyncAction::Subscribe { from_block: 101 });
    assert_eq!(state, SyncState::Streaming { from_block: 101 });
}

#[test]
fn fatal_inputs_stop_every_phase() {
    let policy = SyncPolicy::baseline();
    let (backfilling, _) = start(5000, &policy);
    let streaming = SyncState::Streaming { from_block: 1 };
    let recovering =
        SyncState::Recovering { delay_secs: 5, resume: ResumePoint::Stream { from_block: 1 } };
    let cases = [
        (SyncInput::Shutdown, StopReason::ShutdownRequested),
        (SyncInput::StoreFailed, StopReason::StoreUnreachable),
        (SyncInput::LedgerFailed(LedgerErrorKind::Permanent), StopReason::LedgerRefused),
    ];
    for state in [backfilling, streaming, recovering] {
        for (input, reason) in cases {
            assert_eq!(
                step(state, input, &policy),
                (SyncState::Stopped { reason }, SyncAction::Stop(reason))
            );
        }
    }
}

#[test]
fn stopped_stays_stopped() {
    let policy = SyncPolicy::baseline();
    let stopped = SyncState::Stopped { reason: StopReason::StoreUnreachable };
    for input in [
        SyncInput::ChunkApplied,
        SyncInput::EventApplied,
        SyncInput::StreamClosed,
        SyncInput::LedgerFailed(LedgerErrorKind::Transient),
        SyncInput::LedgerFailed(LedgerErrorKind::Permanent),
        SyncInput::BackoffElapsed,
        SyncInput::StoreFailed,
        SyncInput::Shutdown,
    ] {
        assert_eq!(
            step(stopped, input, &policy),
            (stopped, SyncAction::Stop(StopReason::StoreUnreachable))
        );
    }
}

#[test]
fn inputs_that_do_not_concern_a_phase_change_nothing() {
    let policy = SyncPolicy::baseline();
    let (backfilling, first) = start(5000, &policy);
    for input in [SyncInput::EventApplied, SyncInput::StreamClosed, SyncInput::BackoffElapsed] {
        assert_eq!(step(backfilling, input, &policy), (backfilling, first));
    }
    let streaming = SyncState::Streaming { from_block: 1 };
    for input in [SyncInput::ChunkApplied, SyncInput::BackoffElapsed] {
        assert_eq!(step(streaming, input, &policy), (streaming, SyncAction::AwaitEvent));
    }
    let recovering =
        SyncState::Recovering { delay_secs: 7, resume: ResumePoint::Stream { from_block: 1 } };
    for input in [
        SyncInput::ChunkApplied,
        SyncInput::EventApplied,
        SyncInput::StreamClosed,
        SyncInput::LedgerFailed(LedgerErrorKind::Transient),
    ] {
        assert_eq!(step(recovering, input, &policy), (recovering, SyncAction::Wait { secs: 7 }));
    }
}

#[test]
fn pending_action_of_each_state() {
    let policy = SyncPolicy::baseline();
    let (backfilling, first) = start(5000, &policy);
    assert_eq!(pending_action(&backfilling), first);
    assert_eq!(pending_action(&SyncState::Streaming { from_block: 3 }), SyncAction::AwaitEvent);
    assert_eq!(
        pending_action(&SyncState::Recovering {
            delay_secs: 4,
            resume: ResumePoint::Stream { from_block: 3 }
        }),
        SyncAction::Wait { secs: 4 }
    );
    assert_eq!(
        pending_action(&SyncState::Stopped { reason: StopReason::LedgerRefused }),
        SyncAction::Stop(StopReason::LedgerRefused)
    );
}

#[test]
fn stream_boundary_at_the_end_of_the_number_line() {
    let policy = SyncPolicy { history_window: 0, max_range: 499, backoff_secs: 5 };
    let (state, action) = start(u64::MAX, &policy);
    assert_eq!(action, SyncAction::QueryChunk(Chunk { start: u64::MAX, end: u64::MAX }));
    let (state, action) = step(state, SyncInput::ChunkApplied, &policy);
    assert_eq!(state, SyncState::Streaming { from_block: u64::MAX });
    assert_eq!(action, SyncAction::Subscribe { from_block: u64::MAX });
}

#[test]
fn cursor_never_moves_back() {
    let mut cursor = SyncCursor::new();
    assert_eq!(cursor.last_applied, None);
    cursor.advance(10);
    assert_eq!(cursor.last_applied, Some(10));
    cursor.advance(12);
    assert_eq!(cursor.last_applied, Some(12));
    cursor.advance(11);
    assert_eq!(cursor.last_applied, Some(12));
    cursor.advance(12);
    assert_eq!(cursor.last_applied, Some(12));
    let mut fresh = SyncCursor::new();
    fresh.advance(0);
    assert_eq!(fresh.last_applied, Some(0));
}
