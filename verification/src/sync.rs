//! The sync orchestrator: a state machine that walks the backfill window
//! chunk by chunk, hands over to the live subscription, and comes back from
//! transient failures after a fixed wait. The caller performs each action
//! and reports what came of it.

use crate::chunk::{lemma_plan_partitions_window, planned_chunks, Chunk, ChunkPlanner};
use vstd::prelude::*;

verus! {

/// The numbers that steer the orchestrator.
#[derive(Clone, Copy, Debug, PartialEq, Eq, Structural)]
pub struct SyncPolicy {
    /// How many blocks before the latest one the backfill reaches.
    pub history_window: u64,
    /// The widest block range that the provider answers in one query.
    pub max_range: u64,
    /// Seconds to wait before a failed ledger call is tried again.
    pub backoff_secs: u64,
}

impl SyncPolicy {
    /// The baseline policy: 1000 blocks of history in queries of at most 499
    /// blocks' range, and 5 seconds of backoff.
    pub fn baseline() -> (policy: SyncPolicy)
        ensures
            policy == (SyncPolicy { history_window: 1000, max_range: 499, backoff_secs: 5 }),
    {
        SyncPolicy { history_window: 1000, max_range: 499, backoff_secs: 5 }
    }
}

/// How a failed ledger call is to be taken.
#[derive(Clone, Copy, Debug, PartialEq, Eq, Structural)]
pub enum LedgerErrorKind {
    /// A timeout, a rate limit, a dropped connection: worth another try.
    Transient,
    /// The ledger refuses for good.
    Permanent,
}

/// Why the orchestrator stopped.
#[derive(Clone, Copy, Debug, PartialEq, Eq, Structural)]
pub enum StopReason {
    /// The process asked for shutdown.
    ShutdownRequested,
    /// The persistent store cannot be reached.
    StoreUnreachable,
    /// The ledger failed permanently.
    LedgerRefused,
}

/// What the caller reports back.
#[derive(Clone, Copy, Debug, PartialEq, Eq, Structural)]
pub enum SyncInput {
    /// The chunk that was asked for has been queried and all of its events
    /// have been applied.
    ChunkApplied,
    /// The subscription delivered an event and it has been applied.
    EventApplied,
    /// The subscription ended.
    StreamClosed,
    /// A ledger call failed or ran into its timeout.
    LedgerFailed(LedgerErrorKind),
    /// The wait that was asked for is over.
    BackoffElapsed,
    /// The persistent store failed.
    StoreFailed,
    /// The process is shutting down.
    Shutdown,
}

/// What the caller is asked to do next.
#[derive(Clone, Copy, Debug, PartialEq, Eq, Structural)]
pub enum SyncAction {
    /// Query both kinds of event in the chunk and apply them, registrations
    /// first.
    QueryChunk(Chunk),
    /// Open the live subscription at this block and wait for its next event.
    Subscribe { from_block: u64 },
    /// Wait for the next event of the open subscription.
    AwaitEvent,
    /// Wait this many seconds.
    Wait { secs: u64 },
    /// Release the subscription and the store, and hand the reason to the
    /// owner of the process.
    Stop(StopReason),
}

/// Where a recovery takes up the work again.
#[derive(Clone, Copy, Debug, PartialEq, Eq)]
pub enum ResumePoint {
    /// At the chunk that failed.
    Backfill { current: Chunk, rest: ChunkPlanner, latest: u64 },
    /// At the boundary of the subscription.
    Stream { from_block: u64 },
}

/// The state of the orchestrator.
#[derive(Clone, Copy, Debug, PartialEq, Eq)]
pub enum SyncState {
    /// Chunk `current` is being queried; `rest` holds the chunks after it.
    Backfilling { current: Chunk, rest: ChunkPlanner, latest: u64 },
    /// The live subscription from `from_block` on is being consumed.
    Streaming { from_block: u64 },
    /// A ledger call failed; after `delay_secs` the work resumes.
    Recovering { delay_secs: u64, resume: ResumePoint },
    /// A fatal error or a shutdown ended the work.
    Stopped { reason: StopReason },
}

/// [`ResumePoint`] as plain mathematical values.
pub enum Resumption {
    Backfill { current: Chunk, rest: Seq<Chunk>, latest: u64 },
    Stream { from_block: u64 },
}

/// [`SyncState`] as plain mathematical values.
pub enum Phase {
    Backfilling { current: Chunk, rest: Seq<Chunk>, latest: u64 },
    Streaming { from_block: u64 },
    Recovering { delay_secs: u64, resume: Resumption },
    Stopped { reason: StopReason },
}

impl View for ResumePoint {
    type V = Resumption;

    open spec fn view(&self) -> Resumption {
        match *self {
            ResumePoint::Backfill { current, rest, latest } => Resumption::Backfill {
                current,
                rest: rest@,
                latest,
            },
            ResumePoint::Stream { from_block } => Resumption::Stream { from_block },
        }
    }
}

impl View for SyncState {
    type V = Phase;

    open spec fn view(&self) -> Phase {
        match *self {
            SyncState::Backfilling { current, rest, latest } => Phase::Backfilling {
                current,
                rest: rest@,
                latest,
            },
            SyncState::Streaming { from_block } => Phase::Streaming { from_block },
            SyncState::Recovering { delay_secs, resume } => Phase::Recovering {
                delay_secs,
                resume: resume@,
            },
            SyncState::Stopped { reason } => Phase::Stopped { reason },
        }
    }
}

/// First block of the backfill window.
pub open spec fn backfill_start(latest: u64, policy: SyncPolicy) -> u64 {
    if latest >= policy.history_window {
        (latest - policy.history_window) as u64
    } else {
        0
    }
}

/// The block at which the live subscription takes over from the backfill.
pub open spec fn stream_boundary(latest: u64) -> u64 {
    if latest < u64::MAX {
        (latest + 1) as u64
    } else {
        latest
    }
}

/// The chunks of the backfill, in the order in which they are queried.
pub open spec fn backfill_plan(latest: u64, policy: SyncPolicy) -> Seq<Chunk> {
    planned_chunks(backfill_start(latest, policy), latest, policy.max_range)
}

/// The phase in which the orchestrator starts and what it asks for first.
pub open spec fn opening(latest: u64, policy: SyncPolicy) -> (Phase, SyncAction) {
    let plan = backfill_plan(latest, policy);
    (
        Phase::Backfilling { current: plan[0], rest: plan.skip(1), latest },
        SyncAction::QueryChunk(plan[0]),
    )
}

/// The reason for which an input stops the orchestrator, if it does.
pub open spec fn stops(input: SyncInput) -> Option<StopReason> {
    match input {
        SyncInput::Shutdown => Some(StopReason::ShutdownRequested),
        SyncInput::StoreFailed => Some(StopReason::StoreUnreachable),
        SyncInput::LedgerFailed(LedgerErrorKind::Permanent) => Some(StopReason::LedgerRefused),
        _ => None,
    }
}

/// Whether an input reports a failure that a wait may cure.
pub open spec fn is_transient(input: SyncInput) -> bool {
    input == SyncInput::LedgerFailed(LedgerErrorKind::Transient)
}

/// What a phase is waiting for: the action that is asked for again where an
/// input does not concern the phase.
pub open spec fn pending(phase: Phase) -> SyncAction {
    match phase {
        Phase::Backfilling { current, .. } => SyncAction::QueryChunk(current),
        Phase::Streaming { .. } => SyncAction::AwaitEvent,
        Phase::Recovering { delay_secs, .. } => SyncAction::Wait { secs: delay_secs },
        Phase::Stopped { reason } => SyncAction::Stop(reason),
    }
}

/// The transition function.
///
/// - Once stopped, the orchestrator stays stopped.
/// - A shutdown, a store failure and a permanent ledger failure stop it in
///   every other phase.
/// - Backfilling: an applied chunk leads to the next chunk, and after the
///   last one to streaming from the block behind the latest; a transient
///   failure leads to recovering, with the failed chunk as resume point.
/// - Streaming: an applied event leaves the boundary where it is; the end of
///   the stream and a transient failure lead to recovering.
/// - Recovering: when the wait is over, the work resumes at the resume point:
///   the failed chunk is queried again, or the subscription is opened again
///   at the same boundary.
/// - Any other input changes nothing and asks again for what is pending.
pub open spec fn transition(phase: Phase, input: SyncInput, policy: SyncPolicy) -> (
    Phase,
    SyncAction,
) {
    if phase is Stopped {
        (phase, pending(phase))
    } else if stops(input) is Some {
        (Phase::Stopped { reason: stops(input).unwrap() }, SyncAction::Stop(stops(input).unwrap()))
    } else {
        match phase {
            Phase::Backfilling { current, rest, latest } => {
                if input == SyncInput::ChunkApplied {
                    if rest.len() > 0 {
                        (
                            Phase::Backfilling { current: rest[0], rest: rest.skip(1), latest },
                            SyncAction::QueryChunk(rest[0]),
                        )
                    } else {
                        (
                            Phase::Streaming { from_block: stream_boundary(latest) },
                            SyncAction::Subscribe { from_block: stream_boundary(latest) },
                        )
                    }
                } else if is_transient(input) {
                    (
                        Phase::Recovering {
                            delay_secs: policy.backoff_secs,
                            resume: Resumption::Backfill { current, rest, latest },
                        },
                        SyncAction::Wait { secs: policy.backoff_secs },
                    )
                } else {
                    (phase, pending(phase))
                }
            },
            Phase::Streaming { from_block } => {
                if input == SyncInput::StreamClosed || is_transient(input) {
                    (
                        Phase::Recovering {
                            delay_secs: policy.backoff_secs,
                            resume: Resumption::Stream { from_block },
                        },
                        SyncAction::Wait { secs: policy.backoff_secs },
                    )
                } else {
                    (phase, pending(phase))
                }
            },
            Phase::Recovering { delay_secs, resume } => {
                if input == SyncInput::BackoffElapsed {
                    match resume {
                        Resumption::Backfill { current, rest, latest } => (
                            Phase::Backfilling { current, rest, latest },
                            SyncAction::QueryChunk(current),
                        ),
                        Resumption::Stream { from_block } => (
                            Phase::Streaming { from_block },
                            SyncAction::Subscribe { from_block },
                        ),
                    }
                } else {
                    (phase, pending(phase))
                }
            },
            Phase::Stopped { .. } => (phase, pending(phase)),
        }
    }
}

/// Starts the orchestrator once the latest block of the ledger is known:
/// the backfill covers the `history_window` blocks before `latest` and
/// `latest` itself, and its first chunk is asked for.
pub fn start(latest: u64, policy: &SyncPolicy) -> (r: (SyncState, SyncAction))
    ensures
        (r.0@, r.1) == opening(latest, *policy),
        backfill_plan(latest, *policy).len() > 0,
{
    let from: u64 = if latest >= policy.history_window {
        latest - policy.history_window
    } else {
        0
    };
    proof {
        lemma_plan_partitions_window(from, latest, policy.max_range);
    }
    let mut rest = ChunkPlanner::new(from, latest, policy.max_range);
    match rest.next_chunk() {
        Some(current) => (
            SyncState::Backfilling { current, rest, latest },
            SyncAction::QueryChunk(current),
        ),
        None => {
            proof {
                assert(false);
            }
            (SyncState::Streaming { from_block: latest }, SyncAction::AwaitEvent)
        },
    }
}

/// What a state is waiting for.
pub fn pending_action(state: &SyncState) -> (action: SyncAction)
    ensures
        action == pending(state@),
{
    match state {
        SyncState::Backfilling { current, .. } => SyncAction::QueryChunk(*current),
        SyncState::Streaming { .. } => SyncAction::AwaitEvent,
        SyncState::Recovering { delay_secs, .. } => SyncAction::Wait { secs: *delay_secs },
        SyncState::Stopped { reason } => SyncAction::Stop(*reason),
    }
}

/// Takes the orchestrator from one state to the next: `input` is what came
/// of the action that the state was waiting for, and the action returned is
/// what the caller does next.
pub fn step(state: SyncState, input: SyncInput, policy: &SyncPolicy) -> (r: (SyncState, SyncAction))
    ensures
        (r.0@, r.1) == transition(state@, input, *policy),
{
    if let SyncState::Stopped { reason } = state {
        return (state, SyncAction::Stop(reason));
    }
    match input {
        SyncInput::Shutdown => {
            return (
                SyncState::Stopped { reason: StopReason::ShutdownRequested },
                SyncAction::Stop(StopReason::ShutdownRequested),
            );
        },
        SyncInput::StoreFailed => {
            return (
                SyncState::Stopped { reason: StopReason::StoreUnreachable },
                SyncAction::Stop(StopReason::StoreUnreachable),
            );
        },
        SyncInput::LedgerFailed(LedgerErrorKind::Permanent) => {
            return (
                SyncState::Stopped { reason: StopReason::LedgerRefused },
                SyncAction::Stop(StopReason::LedgerRefused),
            );
        },
        _ => {},
    }
    match state {
        SyncState::Backfilling { current, rest, latest } => {
            match input {
                SyncInput::ChunkApplied => {
                    let mut rest = rest;
                    match rest.next_chunk() {
                        Some(next) => (
                            SyncState::Backfilling { current: next, rest, latest },
                            SyncAction::QueryChunk(next),
                        ),
                        None => {
                            let from_block: u64 = if latest < u64::MAX {
                                latest + 1
                            } else {
                                latest
                            };
                            (SyncState::Streaming { from_block }, SyncAction::Subscribe { from_block })
                        },
                    }
                },
                SyncInput::LedgerFailed(LedgerErrorKind::Transient) => (
                    SyncState::Recovering {
                        delay_secs: policy.backoff_secs,
                        resume: ResumePoint::Backfill { current, rest, latest },
                    },
                    SyncAction::Wait { secs: policy.backoff_secs },
                ),
                _ => (state, SyncAction::QueryChunk(current)),
            }
        },
        SyncState::Streaming { from_block } => {
            match input {
                SyncInput::StreamClosed | SyncInput::LedgerFailed(LedgerErrorKind::Transient) => (
                    SyncState::Recovering {
                        delay_secs: policy.backoff_secs,
                        resume: ResumePoint::Stream { from_block },
                    },
                    SyncAction::Wait { secs: policy.backoff_secs },
                ),
                _ => (state, SyncAction::AwaitEvent),
            }
        },
        SyncState::Recovering { delay_secs, resume } => {
            match input {
                SyncInput::BackoffElapsed => {
                    match resume {
                        ResumePoint::Backfill { current, rest, latest } => (
                            SyncState::Backfilling { current, rest, latest },
                            SyncAction::QueryChunk(current),
                        ),
                        ResumePoint::Stream { from_block } => (
                            SyncState::Streaming { from_block },
                            SyncAction::Subscribe { from_block },
                        ),
                    }
                },
                _ => (state, SyncAction::Wait { secs: delay_secs }),
            }
        },
        SyncState::Stopped { reason } => (state, SyncAction::Stop(reason)),
    }
}

/// The phase after a run of inputs, each applied to the phase that the one
/// before it left.
pub open spec fn run(phase: Phase, inputs: Seq<SyncInput>, policy: SyncPolicy) -> Phase
    decreases inputs.len(),
{
    if inputs.len() == 0 {
        phase
    } else {
        transition(run(phase, inputs.drop_last(), policy), inputs.last(), policy).0
    }
}

/// `k` times the report that a chunk has been applied.
pub open spec fn chunks_applied(k: nat) -> Seq<SyncInput> {
    Seq::new(k, |i: int| SyncInput::ChunkApplied)
}

/// The backfill walks its plan: after `k` chunks have been applied the
/// orchestrator waits for chunk number `k` of the plan, and after the last
/// one it streams from the block behind the latest.
pub proof fn lemma_backfill_walks_the_plan(latest: u64, policy: SyncPolicy, k: nat)
    requires
        k <= backfill_plan(latest, policy).len(),
    ensures
        backfill_plan(latest, policy).len() > 0,
        k < backfill_plan(latest, policy).len() ==> run(
            opening(latest, policy).0,
            chunks_applied(k),
            policy,
        ) == (Phase::Backfilling {
            current: backfill_plan(latest, policy)[k as int],
            rest: backfill_plan(latest, policy).skip(k as int + 1),
            latest,
        }),
        k == backfill_plan(latest, policy).len() ==> run(
            opening(latest, policy).0,
            chunks_applied(k),
            policy,
        ) == (Phase::Streaming { from_block: stream_boundary(latest) }),
    decreases k,
{
    let plan = backfill_plan(latest, policy);
    lemma_plan_partitions_window(backfill_start(latest, policy), latest, policy.max_range);
    if k > 0 {
        let before = (k - 1) as nat;
        lemma_backfill_walks_the_plan(latest, policy, before);
        assert(chunks_applied(k).drop_last() =~= chunks_applied(before));
        assert(chunks_applied(k).last() == SyncInput::ChunkApplied);
        if k < plan.len() {
            assert(plan.skip(k as int).skip(1) =~= plan.skip(k as int + 1));
            assert(plan.skip(k as int)[0] == plan[k as int]);
        }
    } else {
        assert(plan.skip(0int + 1) =~= plan.skip(1));
    }
}

/// A transient failure costs one wait and nothing else: when the wait is
/// over, a backfill asks again for the chunk that failed and a stream opens
/// again at the same boundary.
pub proof fn lemma_recovery_resumes(phase: Phase, policy: SyncPolicy)
    requires
        phase is Backfilling || phase is Streaming,
    ensures
        ({
            let failed = transition(
                phase,
                SyncInput::LedgerFailed(LedgerErrorKind::Transient),
                policy,
            );
            let resumed = transition(failed.0, SyncInput::BackoffElapsed, policy);
            &&& failed.0 is Recovering
            &&& failed.1 == SyncAction::Wait { secs: policy.backoff_secs }
            &&& resumed.0 == phase
            &&& phase matches Phase::Backfilling { current, .. } ==> resumed.1
                == SyncAction::QueryChunk(current)
            &&& phase matches Phase::Streaming { from_block } ==> resumed.1
                == (SyncAction::Subscribe { from_block })
        }),
{
}

/// Once stopped, the orchestrator stays stopped whatever is reported, and a
/// shutdown, a store failure and a permanent ledger failure stop it in every
/// phase.
pub proof fn lemma_stop_is_final(phase: Phase, input: SyncInput, policy: SyncPolicy)
    ensures
        phase is Stopped ==> transition(phase, input, policy).0 == phase,
        stops(input) is Some ==> transition(phase, input, policy).0 is Stopped,
        transition(phase, input, policy).0 is Stopped ==> phase is Stopped || stops(input) is Some,
{
}

/// The last block whose events are known to be applied.
#[derive(Clone, Copy, Debug, PartialEq, Eq, Structural)]
pub struct SyncCursor {
    pub last_applied: Option<u64>,
}

impl SyncCursor {
    /// The cursor before anything was applied.
    pub fn new() -> (cursor: SyncCursor)
        ensures
            cursor.last_applied is None,
    {
        SyncCursor { last_applied: None }
    }

    /// Whether the events of `block` are known to be applied.
    pub open spec fn covers(self, block: u64) -> bool {
        self.last_applied matches Some(last) && block <= last
    }

    /// Notes that the events of `block` have been applied. The cursor never
    /// moves back: a redelivered event of an earlier block leaves it where
    /// it is.
    pub fn advance(&mut self, block: u64)
        ensures
            final(self).last_applied == Some(
                if old(self).covers(block) {
                    old(self).last_applied.unwrap()
                } else {
                    block
                },
            ),
    {
        match self.last_applied {
            Some(last) if block <= last => {},
            _ => {
                self.last_applied = Some(block);
            },
        }
    }
}

} // verus!
