//! What holds of the projection after a stream of events has been applied:
//! registrations are idempotent, a replayed transfer changes nothing, a
//! transfer may come before its asset, and the owner of an asset is the new
//! owner of its latest transfer.

use crate::events::{AssetDetail, AssetRegistered, OwnershipTransferred};
use crate::models::{AssetRow, TransferRow};
use crate::projector::{after_registration, after_transfer, registration_row};
use crate::store::{has_dedup_key, StoreState};
use vstd::prelude::*;

verus! {

/// One event as it reaches the projector: a registration with what the
/// ledger answered for the asset, or a transfer with its time of ingestion.
pub enum Ingestion {
    Registration { event: AssetRegistered, detail: Option<AssetDetail> },
    Transfer { event: OwnershipTransferred, now: i64 },
}

impl Ingestion {
    /// The key of the asset that the event is about.
    pub open spec fn asset_key(self) -> Seq<char> {
        match self {
            Ingestion::Registration { event, .. } => event.asset_key(),
            Ingestion::Transfer { event, .. } => event.asset_key(),
        }
    }
}

/// The projection after one more event.
pub open spec fn ingest(state: StoreState, step: Ingestion) -> StoreState {
    match step {
        Ingestion::Registration { event, detail } => after_registration(state, event, detail),
        Ingestion::Transfer { event, now } => after_transfer(state, event, now),
    }
}

/// The projection after a stream of events, starting from nothing.
pub open spec fn replay(steps: Seq<Ingestion>) -> StoreState
    decreases steps.len(),
{
    if steps.len() == 0 {
        StoreState::empty()
    } else {
        ingest(replay(steps.drop_last()), steps.last())
    }
}

/// The owner that the last applied registration of `asset_key` names, if the
/// stream holds one that was not skipped.
pub open spec fn registered_owner(steps: Seq<Ingestion>, asset_key: Seq<char>) -> Option<Seq<char>>
    decreases steps.len(),
{
    if steps.len() == 0 {
        None
    } else {
        match steps.last() {
            Ingestion::Registration { event, detail: Some(_) } if event.asset_key() == asset_key
                => Some(event.owner_text()),
            _ => registered_owner(steps.drop_last(), asset_key),
        }
    }
}

/// No asset is registered after one of its transfers has been seen.
pub open spec fn registrations_come_first(steps: Seq<Ingestion>) -> bool {
    forall|i: int, j: int|
        0 <= i < j < steps.len() && (#[trigger] steps[i]) is Transfer && (
        #[trigger] steps[j]) is Registration ==> steps[i].asset_key() != steps[j].asset_key()
}

/// The ingestion clock never runs backwards from one transfer to a later
/// one.
pub open spec fn clock_never_runs_back(steps: Seq<Ingestion>) -> bool {
    forall|i: int, j: int|
        0 <= i < j < steps.len() && (#[trigger] steps[i]) is Transfer && (
        #[trigger] steps[j]) is Transfer ==> steps[i]->now <= steps[j]->now
}

/// Whether the projection holds a transfer of this asset.
pub open spec fn has_transfers_of(state: StoreState, asset_key: Seq<char>) -> bool {
    exists|t: int|
        0 <= t < state.transfers.len() && (#[trigger] state.transfers[t]).asset_id == asset_key
}

/// Row `t` is the latest transfer of this asset: no transfer of the asset
/// was recorded after it, and none has a greater timestamp.
pub open spec fn is_latest_transfer_of(state: StoreState, t: int, asset_key: Seq<char>) -> bool {
    &&& 0 <= t < state.transfers.len()
    &&& state.transfers[t].asset_id == asset_key
    &&& forall|u: int|
        0 <= u < state.transfers.len() && (#[trigger] state.transfers[u]).asset_id == asset_key
            ==> u <= t && state.transfers[u].timestamp <= state.transfers[t].timestamp
}

/// The owner of `asset` is the new owner of the asset's latest transfer, or
/// the owner that its registration named where the asset has no transfer.
pub open spec fn owner_is_current(state: StoreState, steps: Seq<Ingestion>, asset: AssetRow) -> bool {
    if has_transfers_of(state, asset.asset_id) {
        exists|t: int|
            #[trigger] is_latest_transfer_of(state, t, asset.asset_id)
                && state.transfers[t].new_owner == asset.owner
    } else {
        registered_owner(steps, asset.asset_id) == Some(asset.owner)
    }
}

/// Every owner in the projection is current.
pub open spec fn owners_are_current(state: StoreState, steps: Seq<Ingestion>) -> bool {
    forall|k: int|
        0 <= k < state.assets.len() ==> owner_is_current(state, steps, #[trigger] state.assets[k])
}

/// Row `t` was written by step `i`.
pub open spec fn row_comes_from(row: TransferRow, step: Ingestion) -> bool {
    &&& step is Transfer
    &&& step.asset_key() == row.asset_id
    &&& step->now == row.timestamp
}

/// Every transfer row was written by a transfer of the stream, and the rows
/// stand in the order of their timestamps.
spec fn transfers_trace_back(state: StoreState, steps: Seq<Ingestion>) -> bool {
    &&& forall|t: int|
        0 <= t < state.transfers.len() ==> exists|i: int|
            0 <= i < steps.len() && row_comes_from(#[trigger] state.transfers[t], #[trigger] steps[i])
    &&& forall|t: int, u: int|
        0 <= t < u < state.transfers.len() ==> (#[trigger] state.transfers[t]).timestamp <= (
        #[trigger] state.transfers[u]).timestamp
}

/// Applying the same registration twice leaves the projection that applying
/// it once leaves.
pub proof fn lemma_registration_is_idempotent(
    state: StoreState,
    event: AssetRegistered,
    detail: Option<AssetDetail>,
)
    ensures
        after_registration(after_registration(state, event, detail), event, detail)
            == after_registration(state, event, detail),
{
    if let Some(d) = detail {
        lemma_upsert_is_idempotent(state, registration_row(event, d));
    }
}

/// Writing the same asset row twice leaves what writing it once leaves.
pub proof fn lemma_upsert_is_idempotent(state: StoreState, row: AssetRow)
    ensures
        state.with_asset(row).with_asset(row) == state.with_asset(row),
        state.with_asset(row).has_asset(row.asset_id),
{
    let once = state.with_asset(row);
    if state.has_asset(row.asset_id) {
        let i = choose|i: int|
            0 <= i < state.assets.len() && (#[trigger] state.assets[i]).asset_id == row.asset_id;
        assert(once.assets[i].asset_id == row.asset_id);
    } else {
        assert(once.assets[state.assets.len() as int].asset_id == row.asset_id);
    }
    assert(once.with_asset(row).assets =~= once.assets);
}

/// A transfer whose asset id and transaction hash the projection knows adds
/// no transfer row and changes no owner.
pub proof fn lemma_known_transfer_changes_nothing(
    state: StoreState,
    event: OwnershipTransferred,
    now: i64,
)
    requires
        state.has_transfer(event.asset_key(), event.txn_key()),
    ensures
        after_transfer(state, event, now) == state,
{
}

/// Applying a transfer again, at whatever time and with whatever owners the
/// replayed event names, changes nothing: the dedup key is the asset id and
/// the transaction hash alone.
pub proof fn lemma_replayed_transfer_changes_nothing(
    state: StoreState,
    first: OwnershipTransferred,
    first_now: i64,
    again: OwnershipTransferred,
    again_now: i64,
)
    requires
        again.asset_key() == first.asset_key(),
        again.txn_key() == first.txn_key(),
    ensures
        after_transfer(after_transfer(state, first, first_now), again, again_now)
            == after_transfer(state, first, first_now),
{
    let once = after_transfer(state, first, first_now);
    if !state.has_transfer(first.asset_key(), first.txn_key()) && !state.is_full() {
        assert(has_dedup_key(
            once.transfers[state.transfers.len() as int],
            first.asset_key(),
            first.txn_key(),
        ));
    }
}

/// A transfer of an asset that is not registered yet is recorded all the
/// same, and no asset row changes.
pub proof fn lemma_transfer_may_come_before_registration(
    state: StoreState,
    event: OwnershipTransferred,
    now: i64,
)
    requires
        !state.has_asset(event.asset_key()),
        !state.has_transfer(event.asset_key(), event.txn_key()),
        !state.is_full(),
    ensures
        after_transfer(state, event, now).assets == state.assets,
        after_transfer(state, event, now).transfers == state.transfers.push(
            state.next_transfer(
                event.asset_key(),
                event.old_owner_text(),
                event.new_owner_text(),
                event.txn_key(),
                now,
            ),
        ),
        !after_transfer(state, event, now).has_asset(event.asset_key()),
{
    let after = after_transfer(state, event, now);
    assert(after.assets =~= state.assets);
}

/// Both kinds of event keep the keys of the projection.
pub proof fn lemma_ingest_keeps_keys(state: StoreState, step: Ingestion)
    requires
        state.well_formed(),
    ensures
        ingest(state, step).well_formed(),
{
    let after = ingest(state, step);
    match step {
        Ingestion::Registration { event, detail } => {
            if let Some(d) = detail {
                let row = registration_row(event, d);
                if state.has_asset(row.asset_id) {
                    assert forall|i: int, j: int| 0 <= i < j < after.assets.len() implies (
                    #[trigger] after.assets[i]).asset_id != (#[trigger] after.assets[j]).asset_id by {
                        assert(state.assets[i].asset_id != state.assets[j].asset_id);
                    }
                } else {
                    assert forall|i: int, j: int| 0 <= i < j < after.assets.len() implies (
                    #[trigger] after.assets[i]).asset_id != (#[trigger] after.assets[j]).asset_id by {
                        if j < state.assets.len() {
                            assert(state.assets[i].asset_id != state.assets[j].asset_id);
                        } else {
                            assert(state.assets[i].asset_id != row.asset_id);
                        }
                    }
                }
            }
        },
        Ingestion::Transfer { event, now } => {
            if !state.has_transfer(event.asset_key(), event.txn_key()) && !state.is_full() {
                assert forall|i: int, j: int| 0 <= i < j < after.assets.len() implies (
                #[trigger] after.assets[i]).asset_id != (#[trigger] after.assets[j]).asset_id by {
                    assert(state.assets[i].asset_id != state.assets[j].asset_id);
                }
                assert forall|i: int, j: int|
                    0 <= i < j < after.transfers.len() implies !has_dedup_key(
                    #[trigger] after.transfers[i],
                    (#[trigger] after.transfers[j]).asset_id,
                    after.transfers[j].txn_hash,
                ) by {
                    if j < state.transfers.len() {
                        assert(!has_dedup_key(
                            state.transfers[i],
                            state.transfers[j].asset_id,
                            state.transfers[j].txn_hash,
                        ));
                    } else {
                        assert(!has_dedup_key(
                            state.transfers[i],
                            event.asset_key(),
                            event.txn_key(),
                        ));
                    }
                }
            }
        },
    }
}

/// The projection of any stream keeps its keys: one row for each asset id,
/// one transfer for each pair of asset id and transaction hash.
pub proof fn lemma_replay_keeps_keys(steps: Seq<Ingestion>)
    ensures
        replay(steps).well_formed(),
    decreases steps.len(),
{
    if steps.len() > 0 {
        lemma_replay_keeps_keys(steps.drop_last());
        lemma_ingest_keeps_keys(replay(steps.drop_last()), steps.last());
    }
}

/// The registration that a stream ends with decides `registered_owner` for
/// its own asset and leaves it alone for every other asset; a transfer or a
/// skipped registration leaves it alone for all of them.
proof fn lemma_registered_owner_step(steps: Seq<Ingestion>, step: Ingestion, asset_key: Seq<char>)
    ensures
        registered_owner(steps.push(step), asset_key) == (match step {
            Ingestion::Registration { event, detail: Some(_) } if event.asset_key() == asset_key
                => Some(event.owner_text()),
            _ => registered_owner(steps, asset_key),
        }),
{
    assert(steps.push(step).drop_last() =~= steps);
}

/// A transfer that is skipped, or a registration that is skipped, keeps
/// every owner current.
proof fn lemma_unchanged_state_stays_current(
    state: StoreState,
    steps: Seq<Ingestion>,
    step: Ingestion,
)
    requires
        owners_are_current(state, steps),
        transfers_trace_back(state, steps),
        ingest(state, step) == state,
        step is Registration ==> step->detail is None,
    ensures
        owners_are_current(state, steps.push(step)),
        transfers_trace_back(state, steps.push(step)),
{
    let longer = steps.push(step);
    assert forall|k: int| 0 <= k < state.assets.len() implies owner_is_current(
        state,
        longer,
        #[trigger] state.assets[k],
    ) by {
        lemma_registered_owner_step(steps, step, state.assets[k].asset_id);
        assert(owner_is_current(state, steps, state.assets[k]));
    }
    assert forall|t: int| 0 <= t < state.transfers.len() implies exists|i: int|
        0 <= i < longer.len() && row_comes_from(
            #[trigger] state.transfers[t],
            #[trigger] longer[i],
        ) by {
        let i = choose|i: int|
            0 <= i < steps.len() && row_comes_from(state.transfers[t], #[trigger] steps[i]);
        assert(longer[i] == steps[i]);
    }
}

/// A recorded transfer keeps every owner current: its asset takes the new
/// owner, and the new row is the latest of its asset.
proof fn lemma_recorded_transfer_stays_current(
    state: StoreState,
    steps: Seq<Ingestion>,
    event: OwnershipTransferred,
    now: i64,
)
    requires
        owners_are_current(state, steps),
        transfers_trace_back(state, steps),
        clock_never_runs_back(steps.push(Ingestion::Transfer { event, now })),
        !state.has_transfer(event.asset_key(), event.txn_key()),
        !state.is_full(),
    ensures
        owners_are_current(
            after_transfer(state, event, now),
            steps.push(Ingestion::Transfer { event, now }),
        ),
        transfers_trace_back(
            after_transfer(state, event, now),
            steps.push(Ingestion::Transfer { event, now }),
        ),
{
    let step = Ingestion::Transfer { event, now };
    let longer = steps.push(step);
    let after = after_transfer(state, event, now);
    let fresh = state.transfers.len() as int;
    let key = event.asset_key();
    assert(longer[steps.len() as int] == step);
    // Every old row was written no later than the new one.
    assert forall|t: int| 0 <= t < fresh implies (#[trigger] state.transfers[t]).timestamp
        <= now by {
        let i = choose|i: int|
            0 <= i < steps.len() && row_comes_from(state.transfers[t], #[trigger] steps[i]);
        assert(longer[i] == steps[i]);
        assert(longer[i]->now <= longer[steps.len() as int]->now);
    }
    assert forall|t: int| 0 <= t < after.transfers.len() implies exists|i: int|
        0 <= i < longer.len() && row_comes_from(
            #[trigger] after.transfers[t],
            #[trigger] longer[i],
        ) by {
        if t < fresh {
            let i = choose|i: int|
                0 <= i < steps.len() && row_comes_from(state.transfers[t], #[trigger] steps[i]);
            assert(longer[i] == steps[i]);
            assert(after.transfers[t] == state.transfers[t]);
        } else {
            assert(row_comes_from(after.transfers[t], longer[steps.len() as int]));
        }
    }
    assert forall|t: int, u: int| 0 <= t < u < after.transfers.len() implies (
    #[trigger] after.transfers[t]).timestamp <= (#[trigger] after.transfers[u]).timestamp by {
        assert(after.transfers[t] == state.transfers[t]);
        if u < fresh {
            assert(after.transfers[u] == state.transfers[u]);
        }
    }
    assert forall|k: int| 0 <= k < after.assets.len() implies owner_is_current(
        after,
        longer,
        #[trigger] after.assets[k],
    ) by {
        let before_row = state.assets[k];
        let row = after.assets[k];
        assert(row.asset_id == before_row.asset_id);
        lemma_registered_owner_step(steps, step, row.asset_id);
        if row.asset_id == key {
            assert(after.transfers[fresh].asset_id == key);
            assert(is_latest_transfer_of(after, fresh, key)) by {
                assert forall|u: int|
                    0 <= u < after.transfers.len() && (#[trigger] after.transfers[u]).asset_id
                        == key implies u <= fresh && after.transfers[u].timestamp
                    <= after.transfers[fresh].timestamp by {
                    if u < fresh {
                        assert(after.transfers[u] == state.transfers[u]);
                    }
                }
            }
        } else {
            assert(row == before_row);
            assert(owner_is_current(state, steps, before_row));
            if has_transfers_of(state, row.asset_id) {
                let t = choose|t: int|
                    #[trigger] is_latest_transfer_of(state, t, row.asset_id)
                        && state.transfers[t].new_owner == row.owner;
                assert(after.transfers[t] == state.transfers[t]);
                assert(is_latest_transfer_of(after, t, row.asset_id)) by {
                    assert forall|u: int|
                        0 <= u < after.transfers.len() && (
                        #[trigger] after.transfers[u]).asset_id == row.asset_id implies u <= t
                        && after.transfers[u].timestamp <= after.transfers[t].timestamp by {
                        if u < fresh {
                            assert(after.transfers[u] == state.transfers[u]);
                        }
                    }
                }
                assert(has_transfers_of(after, row.asset_id));
            } else {
                assert(!has_transfers_of(after, row.asset_id)) by {
                    if has_transfers_of(after, row.asset_id) {
                        let u = choose|u: int|
                            0 <= u < after.transfers.len() && (
                            #[trigger] after.transfers[u]).asset_id == row.asset_id;
                        assert(u < fresh);
                        assert(after.transfers[u] == state.transfers[u]);
                    }
                }
            }
        }
    }
}

/// An applied registration keeps every owner current, where none of the
/// asset's transfers has been seen before it.
proof fn lemma_registration_stays_current(
    state: StoreState,
    steps: Seq<Ingestion>,
    event: AssetRegistered,
    detail: AssetDetail,
)
    requires
        owners_are_current(state, steps),
        transfers_trace_back(state, steps),
        registrations_come_first(
            steps.push(Ingestion::Registration { event, detail: Some(detail) }),
        ),
    ensures
        owners_are_current(
            after_registration(state, event, Some(detail)),
            steps.push(Ingestion::Registration { event, detail: Some(detail) }),
        ),
        transfers_trace_back(
            after_registration(state, event, Some(detail)),
            steps.push(Ingestion::Registration { event, detail: Some(detail) }),
        ),
{
    let step = Ingestion::Registration { event, detail: Some(detail) };
    let longer = steps.push(step);
    let after = after_registration(state, event, Some(detail));
    let written = registration_row(event, detail);
    let key = event.asset_key();
    assert(longer[steps.len() as int] == step);
    assert(after.transfers == state.transfers);
    assert forall|t: int| 0 <= t < after.transfers.len() implies exists|i: int|
        0 <= i < longer.len() && row_comes_from(
            #[trigger] after.transfers[t],
            #[trigger] longer[i],
        ) by {
        let i = choose|i: int|
            0 <= i < steps.len() && row_comes_from(state.transfers[t], #[trigger] steps[i]);
        assert(longer[i] == steps[i]);
    }
    // The asset has no transfer yet: a row of it would come from an earlier
    // transfer of the stream.
    assert(!has_transfers_of(after, key)) by {
        if has_transfers_of(after, key) {
            let t = choose|t: int|
                0 <= t < after.transfers.len() && (#[trigger] after.transfers[t]).asset_id == key;
            let i = choose|i: int|
                0 <= i < steps.len() && row_comes_from(state.transfers[t], #[trigger] steps[i]);
            assert(longer[i] == steps[i]);
            assert(longer[i].asset_key() != longer[steps.len() as int].asset_key());
        }
    }
    assert forall|k: int| 0 <= k < after.assets.len() implies owner_is_current(
        after,
        longer,
        #[trigger] after.assets[k],
    ) by {
        let row = after.assets[k];
        lemma_registered_owner_step(steps, step, row.asset_id);
        if row.asset_id == key {
            assert(row == written);
        } else {
            assert(k < state.assets.len());
            assert(row == state.assets[k]);
            assert(owner_is_current(state, steps, state.assets[k]));
            if has_transfers_of(state, row.asset_id) {
                let t = choose|t: int|
                    #[trigger] is_latest_transfer_of(state, t, row.asset_id)
                        && state.transfers[t].new_owner == row.owner;
                assert(is_latest_transfer_of(after, t, row.asset_id));
            }
        }
    }
}

/// After any prefix of a stream of events, the owner of every asset is the
/// new owner of the asset's latest transfer, which no transfer of the asset
/// exceeds in timestamp, or the owner that its registration named where the
/// asset has no transfer.
///
/// This holds of the streams in which no asset is registered after one of its
/// transfers has been seen, and through which the ingestion clock does not
/// run backwards: a registration overwrites the owner whatever transfers the
/// projection holds, and a transfer ingested under an earlier time than its
/// predecessor is the latest without the greatest timestamp.
pub proof fn lemma_owner_follows_latest_transfer(steps: Seq<Ingestion>, n: int)
    requires
        0 <= n <= steps.len(),
        registrations_come_first(steps),
        clock_never_runs_back(steps),
    ensures
        owners_are_current(replay(steps.take(n)), steps.take(n)),
{
    lemma_replay_stays_current(steps.take(n));
}

proof fn lemma_replay_stays_current(steps: Seq<Ingestion>)
    requires
        registrations_come_first(steps),
        clock_never_runs_back(steps),
    ensures
        owners_are_current(replay(steps), steps),
        transfers_trace_back(replay(steps), steps),
    decreases steps.len(),
{
    if steps.len() > 0 {
        let shorter = steps.drop_last();
        let step = steps.last();
        let state = replay(shorter);
        assert(shorter.push(step) =~= steps);
        lemma_replay_stays_current(shorter);
        match step {
            Ingestion::Registration { event, detail } => {
                match detail {
                    Some(d) => {
                        lemma_registration_stays_current(state, shorter, event, d);
                    },
                    None => {
                        lemma_unchanged_state_stays_current(state, shorter, step);
                    },
                }
            },
            Ingestion::Transfer { event, now } => {
                if state.has_transfer(event.asset_key(), event.txn_key()) || state.is_full() {
                    lemma_unchanged_state_stays_current(state, shorter, step);
                } else {
                    lemma_recorded_transfer_stays_current(state, shorter, event, now);
                }
            },
        }
    }
}

} // verus!
