//! The ledger projector: applies one canonical event to the projection.

use crate::encoding::{hash_text, to_checksum, unix_now};
use crate::events::{
    signed_seconds, to_signed_seconds, AssetDetail, AssetRegistered, LedgerEvent,
    OwnershipTransferred,
};
use crate::models::{Asset, AssetRow};
use crate::store::{LedgerStore, StoreError, StoreState, TransferOutcome};
use vstd::prelude::*;

verus! {

/// The asset row that a registration writes.
pub open spec fn registration_row(event: AssetRegistered, detail: AssetDetail) -> AssetRow {
    AssetRow {
        asset_id: event.asset_key(),
        owner: event.owner_text(),
        description: detail.description@,
        registered_at: signed_seconds(detail.registered_at),
    }
}

/// The projection after a registration: the asset row is written over the
/// row with its id or added; without the ledger's detail nothing changes.
pub open spec fn after_registration(
    state: StoreState,
    event: AssetRegistered,
    detail: Option<AssetDetail>,
) -> StoreState {
    match detail {
        Some(d) => state.with_asset(registration_row(event, d)),
        None => state,
    }
}

/// The projection after a transfer that was ingested at `now`.
pub open spec fn after_transfer(
    state: StoreState,
    event: OwnershipTransferred,
    now: i64,
) -> StoreState {
    state.with_transfer(
        event.asset_key(),
        event.old_owner_text(),
        event.new_owner_text(),
        event.txn_key(),
        now,
    )
}

/// What applying a registration answers.
pub open spec fn registration_outcome(
    state: StoreState,
    event: AssetRegistered,
    detail: Option<AssetDetail>,
) -> RegistrationOutcome {
    if detail is None {
        RegistrationOutcome::SkippedUnknownAsset
    } else if state.has_asset(event.asset_key()) {
        RegistrationOutcome::Overwritten
    } else {
        RegistrationOutcome::Inserted
    }
}

/// What applying an event of either kind answers.
pub open spec fn event_outcome(
    state: StoreState,
    event: LedgerEvent,
    detail: Option<AssetDetail>,
) -> Result<Applied, StoreError> {
    match event {
        LedgerEvent::AssetRegistered(e) => Ok(
            Applied::Registration(registration_outcome(state, e, detail)),
        ),
        LedgerEvent::OwnershipTransferred(e) => match state.transfer_outcome(
            e.asset_key(),
            e.txn_key(),
        ) {
            Ok(outcome) => Ok(Applied::Transfer(outcome)),
            Err(e) => Err(e),
        },
    }
}

/// What applying a registration did.
#[derive(Clone, Copy, Debug, PartialEq, Eq, Structural)]
pub enum RegistrationOutcome {
    /// The asset was not in the projection: its row was added.
    Inserted,
    /// The asset was in the projection: its row was overwritten.
    Overwritten,
    /// The ledger does not know the asset: nothing was written.
    SkippedUnknownAsset,
}

/// What applying an event did.
#[derive(Clone, Copy, Debug, PartialEq, Eq, Structural)]
pub enum Applied {
    Registration(RegistrationOutcome),
    Transfer(TransferOutcome),
}

/// Applies a registration. `detail` is what the ledger answered when asked
/// for the asset, `None` where it does not know the id: the event is then
/// skipped. Applying the same registration again leaves the same row.
pub fn apply_registration(
    store: &mut LedgerStore,
    event: &AssetRegistered,
    detail: Option<AssetDetail>,
) -> (outcome: RegistrationOutcome)
    requires
        old(store)@.well_formed(),
    ensures
        final(store)@ == after_registration(old(store)@, *event, detail),
        final(store)@.well_formed(),
        outcome == registration_outcome(old(store)@, *event, detail),
{
    match detail {
        None => RegistrationOutcome::SkippedUnknownAsset,
        Some(d) => {
            let row = Asset {
                asset_id: hash_text(&event.asset_id),
                owner: to_checksum(&event.owner),
                description: d.description,
                registered_at: to_signed_seconds(d.registered_at),
            };
            if store.upsert_asset(row) {
                RegistrationOutcome::Inserted
            } else {
                RegistrationOutcome::Overwritten
            }
        },
    }
}

/// Applies a transfer that is ingested at `now`. A transfer whose asset id
/// and transaction hash are known is skipped and counts as success. Else the
/// transfer row is appended and the asset's owner updated, both or neither;
/// where the asset is not registered the row is appended all the same and no
/// asset row changes.
pub fn apply_transfer(store: &mut LedgerStore, event: &OwnershipTransferred, now: i64) -> (r: Result<
    TransferOutcome,
    StoreError,
>)
    requires
        old(store)@.well_formed(),
    ensures
        final(store)@ == after_transfer(old(store)@, *event, now),
        final(store)@.well_formed(),
        r == old(store)@.transfer_outcome(event.asset_key(), event.txn_key()),
{
    store.record_transfer(
        hash_text(&event.asset_id),
        to_checksum(&event.old_owner),
        to_checksum(&event.new_owner),
        hash_text(&event.txn_hash),
        now,
    )
}

/// Applies a transfer that is ingested now, by the machine's clock. Whatever
/// the clock says, the projection is the one that [`apply_transfer`] leaves
/// for some time of ingestion. Reading the clock panics on a machine whose
/// clock stands before 1970.
pub fn apply_transfer_now(store: &mut LedgerStore, event: &OwnershipTransferred) -> (r: Result<
    TransferOutcome,
    StoreError,
>)
    requires
        old(store)@.well_formed(),
    ensures
        exists|now: i64| final(store)@ == #[trigger] after_transfer(old(store)@, *event, now),
        final(store)@.well_formed(),
        r == old(store)@.transfer_outcome(event.asset_key(), event.txn_key()),
{
    let now = unix_now();
    apply_transfer(store, event, now)
}

/// Applies one event of either kind; `detail` and `now` are read as
/// [`apply_registration`] and [`apply_transfer`] read them.
pub fn apply_event(
    store: &mut LedgerStore,
    event: &LedgerEvent,
    detail: Option<AssetDetail>,
    now: i64,
) -> (r: Result<Applied, StoreError>)
    requires
        old(store)@.well_formed(),
    ensures
        final(store)@ == after_event(old(store)@, *event, detail, now),
        final(store)@.well_formed(),
        r == event_outcome(old(store)@, *event, detail),
{
    match event {
        LedgerEvent::AssetRegistered(e) => Ok(
            Applied::Registration(apply_registration(store, e, detail)),
        ),
        LedgerEvent::OwnershipTransferred(e) => {
            match apply_transfer(store, e, now) {
                Ok(outcome) => Ok(Applied::Transfer(outcome)),
                Err(e) => Err(e),
            }
        },
    }
}

/// The projection after one event of either kind.
pub open spec fn after_event(
    state: StoreState,
    event: LedgerEvent,
    detail: Option<AssetDetail>,
    now: i64,
) -> StoreState {
    match event {
        LedgerEvent::AssetRegistered(e) => after_registration(state, e, detail),
        LedgerEvent::OwnershipTransferred(e) => after_transfer(state, e, now),
    }
}

} // verus!
