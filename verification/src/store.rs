//! The relational projection of the ledger: the assets, keyed by their id,
//! and the append-only list of transfers, at most one for each pair of asset
//! id and transaction hash.

use crate::models::{Asset, AssetRow, Transfer, TransferRow};
use vstd::prelude::*;

verus! {

/// The rows that a list of assets holds.
pub open spec fn asset_rows(assets: Seq<Asset>) -> Seq<AssetRow> {
    assets.map_values(|a: Asset| a@)
}

/// The rows that a list of transfers holds.
pub open spec fn transfer_rows(transfers: Seq<Transfer>) -> Seq<TransferRow> {
    transfers.map_values(|t: Transfer| t@)
}

/// The contents of a projection that holds these rows.
pub open spec fn rows_of(assets: Seq<Asset>, transfers: Seq<Transfer>) -> StoreState {
    StoreState { assets: asset_rows(assets), transfers: transfer_rows(transfers) }
}

/// Whether `row` is the transfer of `asset_id` that transaction `txn_hash`
/// emitted.
pub open spec fn has_dedup_key(row: TransferRow, asset_id: Seq<char>, txn_hash: Seq<char>) -> bool {
    row.asset_id == asset_id && row.txn_hash == txn_hash
}

/// The contents of the projection: both tables in the order in which their
/// rows were first written.
pub struct StoreState {
    pub assets: Seq<AssetRow>,
    pub transfers: Seq<TransferRow>,
}

impl StoreState {
    /// The projection before any event was applied.
    pub open spec fn empty() -> StoreState {
        StoreState { assets: Seq::empty(), transfers: Seq::empty() }
    }

    /// Whether an asset with this id is registered.
    pub open spec fn has_asset(self, asset_id: Seq<char>) -> bool {
        exists|i: int| 0 <= i < self.assets.len() && (#[trigger] self.assets[i]).asset_id == asset_id
    }

    /// Whether the transfer with this dedup key has been recorded.
    pub open spec fn has_transfer(self, asset_id: Seq<char>, txn_hash: Seq<char>) -> bool {
        exists|i: int|
            0 <= i < self.transfers.len() && has_dedup_key(
                #[trigger] self.transfers[i],
                asset_id,
                txn_hash,
            )
    }

    /// The surrogate key of the next transfer: one more than the last one's,
    /// and 1 for the first.
    pub open spec fn next_id(self) -> int {
        if self.transfers.len() == 0 {
            1
        } else {
            self.transfers.last().id + 1
        }
    }

    /// Whether every value of the surrogate key is taken.
    pub open spec fn is_full(self) -> bool {
        self.next_id() > i32::MAX
    }

    /// No two assets share an id.
    pub open spec fn asset_ids_are_unique(self) -> bool {
        forall|i: int, j: int|
            0 <= i < j < self.assets.len() ==> (#[trigger] self.assets[i]).asset_id != (
            #[trigger] self.assets[j]).asset_id
    }

    /// No two transfers share a dedup key.
    pub open spec fn dedup_keys_are_unique(self) -> bool {
        forall|i: int, j: int|
            0 <= i < j < self.transfers.len() ==> !has_dedup_key(
                #[trigger] self.transfers[i],
                (#[trigger] self.transfers[j]).asset_id,
                self.transfers[j].txn_hash,
            )
    }

    /// The transfers carry positive surrogate keys in ascending order.
    pub open spec fn surrogate_keys_ascend(self) -> bool {
        &&& forall|i: int| 0 <= i < self.transfers.len() ==> (#[trigger] self.transfers[i]).id >= 1
        &&& forall|i: int, j: int|
            0 <= i < j < self.transfers.len() ==> (#[trigger] self.transfers[i]).id < (
            #[trigger] self.transfers[j]).id
    }

    /// The keys hold: no two assets share an id, no two transfers share a
    /// dedup key, and the transfers carry positive, ascending surrogate keys.
    pub open spec fn well_formed(self) -> bool {
        &&& self.asset_ids_are_unique()
        &&& self.dedup_keys_are_unique()
        &&& self.surrogate_keys_ascend()
    }

    /// Insert-or-overwrite of one asset row: the row takes the place of the
    /// row with its id, or goes to the end where there is none.
    pub open spec fn with_asset(self, row: AssetRow) -> StoreState {
        StoreState {
            assets: if self.has_asset(row.asset_id) {
                self.assets.map_values(
                    |r: AssetRow|
                        if r.asset_id == row.asset_id {
                            row
                        } else {
                            r
                        },
                )
            } else {
                self.assets.push(row)
            },
            transfers: self.transfers,
        }
    }

    /// Update of the owner, filtered by asset id: it changes no row where
    /// the asset is not registered.
    pub open spec fn with_owner(self, asset_id: Seq<char>, owner: Seq<char>) -> StoreState {
        StoreState {
            assets: self.assets.map_values(
                |r: AssetRow|
                    if r.asset_id == asset_id {
                        AssetRow {
                            asset_id: r.asset_id,
                            owner: owner,
                            description: r.description,
                            registered_at: r.registered_at,
                        }
                    } else {
                        r
                    },
            ),
            transfers: self.transfers,
        }
    }

    /// The row that the next recorded transfer becomes.
    pub open spec fn next_transfer(
        self,
        asset_id: Seq<char>,
        old_owner: Seq<char>,
        new_owner: Seq<char>,
        txn_hash: Seq<char>,
        timestamp: i64,
    ) -> TransferRow {
        TransferRow {
            id: self.next_id() as i32,
            asset_id: asset_id,
            old_owner: old_owner,
            new_owner: new_owner,
            timestamp: timestamp,
            txn_hash: txn_hash,
        }
    }

    /// What recording a transfer with this dedup key answers: a known key is
    /// a duplicate, a used-up surrogate key an error, and else the transfer
    /// is recorded under the next surrogate key.
    pub open spec fn transfer_outcome(self, asset_id: Seq<char>, txn_hash: Seq<char>) -> Result<
        TransferOutcome,
        StoreError,
    > {
        if self.has_transfer(asset_id, txn_hash) {
            Ok(TransferOutcome::Duplicate)
        } else if self.is_full() {
            Err(StoreError::TransferIdsExhausted)
        } else {
            Ok(
                TransferOutcome::Recorded {
                    id: self.next_id() as i32,
                    owner_updated: self.has_asset(asset_id),
                },
            )
        }
    }

    /// One transfer applied: nothing changes where its dedup key is known
    /// (or the surrogate key has run out); else the transfer is appended and
    /// the asset's owner becomes `new_owner`, both or neither.
    pub open spec fn with_transfer(
        self,
        asset_id: Seq<char>,
        old_owner: Seq<char>,
        new_owner: Seq<char>,
        txn_hash: Seq<char>,
        timestamp: i64,
    ) -> StoreState {
        if self.has_transfer(asset_id, txn_hash) || self.is_full() {
            self
        } else {
            StoreState {
                assets: self.with_owner(asset_id, new_owner).assets,
                transfers: self.transfers.push(
                    self.next_transfer(asset_id, old_owner, new_owner, txn_hash, timestamp),
                ),
            }
        }
    }
}

/// Ascending positive keys bound the number of rows: a well-formed
/// projection holds no more transfers than the surrogate key has values.
pub proof fn lemma_transfers_are_countable(state: StoreState)
    requires
        state.well_formed(),
    ensures
        state.transfers.len() <= i32::MAX,
        state.is_full() ==> state.transfers.len() > 0,
{
    if state.transfers.len() > 0 {
        lemma_key_exceeds_position(state, state.transfers.len() - 1);
    }
}

proof fn lemma_key_exceeds_position(state: StoreState, i: int)
    requires
        state.well_formed(),
        0 <= i < state.transfers.len(),
    ensures
        state.transfers[i].id >= i + 1,
    decreases i,
{
    if i > 0 {
        lemma_key_exceeds_position(state, i - 1);
        assert(state.transfers[i - 1].id < state.transfers[i].id);
    }
}

/// What recording a transfer did.
#[derive(Clone, Copy, Debug, PartialEq, Eq, Structural)]
pub enum TransferOutcome {
    /// The dedup key was known: nothing was written.
    Duplicate,
    /// The transfer was appended under `id`; `owner_updated` tells whether
    /// an asset row took the new owner (it does not where the asset is not
    /// registered yet).
    Recorded { id: i32, owner_updated: bool },
}

/// Why the store refused a write.
#[derive(Clone, Copy, Debug, PartialEq, Eq, Structural)]
pub enum StoreError {
    /// Every value of the transfers' surrogate key is taken.
    TransferIdsExhausted,
}

/// Why rows cannot be taken for a projection.
#[derive(Clone, Copy, Debug, PartialEq, Eq, Structural)]
pub enum RestoreError {
    /// Two asset rows share an id.
    DuplicateAsset,
    /// Two transfer rows share a dedup key.
    DuplicateTransfer,
    /// The surrogate keys of the transfers are not positive and ascending.
    KeysOutOfOrder,
}

/// The projection, held in memory.
pub struct LedgerStore {
    assets: Vec<Asset>,
    transfers: Vec<Transfer>,
}

impl View for LedgerStore {
    type V = StoreState;

    closed spec fn view(&self) -> StoreState {
        rows_of(self.assets@, self.transfers@)
    }
}

impl LedgerStore {
    /// An empty projection.
    pub fn new() -> (store: LedgerStore)
        ensures
            store@ == StoreState::empty(),
            store@.well_formed(),
    {
        let store = LedgerStore { assets: Vec::new(), transfers: Vec::new() };
        assert(store@.assets =~= Seq::empty());
        assert(store@.transfers =~= Seq::empty());
        store
    }

    /// Takes rows that were written earlier for a projection, if their keys
    /// hold: the asset ids and the dedup keys are looked at first, then the
    /// surrogate keys.
    pub fn restore(assets: Vec<Asset>, transfers: Vec<Transfer>) -> (r: Result<
        LedgerStore,
        RestoreError,
    >)
        ensures
            match r {
                Ok(store) => {
                    &&& store@.assets == asset_rows(assets@)
                    &&& store@.transfers == transfer_rows(transfers@)
                    &&& store@.well_formed()
                },
                Err(RestoreError::DuplicateAsset) => !rows_of(assets@, transfers@).asset_ids_are_unique(),
                Err(RestoreError::DuplicateTransfer) => {
                    &&& rows_of(assets@, transfers@).asset_ids_are_unique()
                    &&& !rows_of(assets@, transfers@).dedup_keys_are_unique()
                },
                Err(RestoreError::KeysOutOfOrder) => {
                    &&& rows_of(assets@, transfers@).asset_ids_are_unique()
                    &&& rows_of(assets@, transfers@).dedup_keys_are_unique()
                    &&& !rows_of(assets@, transfers@).surrogate_keys_ascend()
                },
            },
    {
        let ghost state = rows_of(assets@, transfers@);
        let mut j: usize = 0;
        while j < assets.len()
            invariant
                state == rows_of(assets@, transfers@),
                j <= assets@.len(),
                forall|a: int, b: int|
                    0 <= a < b < j ==> (#[trigger] state.assets[a]).asset_id != (
                    #[trigger] state.assets[b]).asset_id,
            decreases assets@.len() - j,
        {
            let mut i: usize = 0;
            while i < j
                invariant
                    state == rows_of(assets@, transfers@),
                    i <= j < assets@.len(),
                    forall|a: int|
                        0 <= a < i ==> (#[trigger] state.assets[a]).asset_id != state.assets[j as int].asset_id,
                decreases j - i,
            {
                if assets[i].asset_id == assets[j].asset_id {
                    assert(state.assets[i as int].asset_id == state.assets[j as int].asset_id);
                    return Err(RestoreError::DuplicateAsset);
                }
                i += 1;
            }
            j += 1;
        }
        assert(state.asset_ids_are_unique());
        let mut j: usize = 0;
        while j < transfers.len()
            invariant
                state == rows_of(assets@, transfers@),
                state.asset_ids_are_unique(),
                j <= transfers@.len(),
                forall|a: int, b: int|
                    0 <= a < b < j ==> !has_dedup_key(
                        #[trigger] state.transfers[a],
                        (#[trigger] state.transfers[b]).asset_id,
                        state.transfers[b].txn_hash,
                    ),
            decreases transfers@.len() - j,
        {
            let mut i: usize = 0;
            while i < j
                invariant
                    state == rows_of(assets@, transfers@),
                    state.asset_ids_are_unique(),
                    i <= j < transfers@.len(),
                    forall|a: int|
                        0 <= a < i ==> !has_dedup_key(
                            #[trigger] state.transfers[a],
                            state.transfers[j as int].asset_id,
                            state.transfers[j as int].txn_hash,
                        ),
                decreases j - i,
            {
                if transfers[i].asset_id == transfers[j].asset_id && transfers[i].txn_hash
                    == transfers[j].txn_hash {
                    assert(has_dedup_key(
                        state.transfers[i as int],
                        state.transfers[j as int].asset_id,
                        state.transfers[j as int].txn_hash,
                    ));
                    return Err(RestoreError::DuplicateTransfer);
                }
                i += 1;
            }
            j += 1;
        }
        assert(state.dedup_keys_are_unique());
        let mut k: usize = 0;
        while k < transfers.len()
            invariant
                state == rows_of(assets@, transfers@),
                state.asset_ids_are_unique(),
                state.dedup_keys_are_unique(),
                k <= transfers@.len(),
                forall|a: int| 0 <= a < k ==> (#[trigger] state.transfers[a]).id >= 1,
                forall|a: int, b: int|
                    0 <= a < b < k ==> (#[trigger] state.transfers[a]).id < (
                    #[trigger] state.transfers[b]).id,
            decreases transfers@.len() - k,
        {
            if transfers[k].id < 1 {
                assert(state.transfers[k as int].id < 1);
                return Err(RestoreError::KeysOutOfOrder);
            }
            if k > 0 && transfers[k - 1].id >= transfers[k].id {
                assert(state.transfers[k - 1].id >= state.transfers[k as int].id);
                return Err(RestoreError::KeysOutOfOrder);
            }
            assert forall|a: int| 0 <= a < k implies (#[trigger] state.transfers[a]).id
                < state.transfers[k as int].id by {
                if a < k - 1 {
                    assert(state.transfers[a].id < state.transfers[k - 1].id);
                }
            }
            k += 1;
        }
        Ok(LedgerStore { assets, transfers })
    }

    /// Position of the asset with this id.
    fn find_asset(&self, asset_id: &String) -> (found: Option<usize>)
        ensures
            match found {
                Some(i) => i < self@.assets.len() && self@.assets[i as int].asset_id == asset_id@,
                None => !self@.has_asset(asset_id@),
            },
    {
        let mut i: usize = 0;
        while i < self.assets.len()
            invariant
                i <= self.assets@.len(),
                forall|k: int| 0 <= k < i ==> (#[trigger] self@.assets[k]).asset_id != asset_id@,
            decreases self.assets@.len() - i,
        {
            if self.assets[i].asset_id == *asset_id {
                return Some(i);
            }
            i += 1;
        }
        None
    }

    /// Whether an asset with this id is registered.
    pub fn has_asset(&self, asset_id: &String) -> (b: bool)
        ensures
            b == self@.has_asset(asset_id@),
    {
        self.find_asset(asset_id).is_some()
    }

    /// Writes one asset row: in place of the row with its id, or as a new
    /// row. Returns whether the row is new.
    pub fn upsert_asset(&mut self, row: Asset) -> (inserted: bool)
        requires
            old(self)@.well_formed(),
        ensures
            final(self)@ == old(self)@.with_asset(row@),
            inserted == !old(self)@.has_asset(row@.asset_id),
            final(self)@.well_formed(),
    {
        let ghost before = self@;
        match self.find_asset(&row.asset_id) {
            Some(i) => {
                self.assets.set(i, row);
                assert(self@.assets =~= before.with_asset(row@).assets);
                assert(self@.transfers =~= before.transfers);
                false
            },
            None => {
                self.assets.push(row);
                assert(self@.assets =~= before.with_asset(row@).assets);
                assert(self@.transfers =~= before.transfers);
                true
            },
        }
    }

    /// Whether the transfer with this dedup key has been recorded.
    pub fn has_transfer(&self, asset_id: &String, txn_hash: &String) -> (b: bool)
        ensures
            b == self@.has_transfer(asset_id@, txn_hash@),
    {
        let mut i: usize = 0;
        while i < self.transfers.len()
            invariant
                i <= self.transfers@.len(),
                forall|k: int|
                    0 <= k < i ==> !has_dedup_key(
                        #[trigger] self@.transfers[k],
                        asset_id@,
                        txn_hash@,
                    ),
            decreases self.transfers@.len() - i,
        {
            if self.transfers[i].asset_id == *asset_id && self.transfers[i].txn_hash == *txn_hash {
                assert(has_dedup_key(self@.transfers[i as int], asset_id@, txn_hash@));
                return true;
            }
            i += 1;
        }
        false
    }

    /// Sets the owner of the asset with this id, if it is registered.
    /// Returns whether a row changed hands.
    fn set_owner(&mut self, asset_id: &String, owner: &String) -> (updated: bool)
        requires
            old(self)@.well_formed(),
        ensures
            final(self)@ == old(self)@.with_owner(asset_id@, owner@),
            updated == old(self)@.has_asset(asset_id@),
            final(self)@.well_formed(),
    {
        let ghost before = self@;
        match self.find_asset(asset_id) {
            Some(i) => {
                let row = Asset {
                    asset_id: self.assets[i].asset_id.clone(),
                    owner: owner.clone(),
                    description: self.assets[i].description.clone(),
                    registered_at: self.assets[i].registered_at,
                };
                self.assets.set(i, row);
                assert(self@.assets =~= before.with_owner(asset_id@, owner@).assets);
                assert(self@.transfers =~= before.transfers);
                true
            },
            None => {
                assert(self@.assets =~= before.with_owner(asset_id@, owner@).assets);
                false
            },
        }
    }

    /// Records one transfer and hands the asset to its new owner, both or
    /// neither. A transfer whose dedup key is known changes nothing. The
    /// transfer is recorded also where the asset is not registered; no asset
    /// row changes then.
    pub fn record_transfer(
        &mut self,
        asset_id: String,
        old_owner: String,
        new_owner: String,
        txn_hash: String,
        timestamp: i64,
    ) -> (r: Result<TransferOutcome, StoreError>)
        requires
            old(self)@.well_formed(),
        ensures
            final(self)@ == old(self)@.with_transfer(
                asset_id@,
                old_owner@,
                new_owner@,
                txn_hash@,
                timestamp,
            ),
            final(self)@.well_formed(),
            r == old(self)@.transfer_outcome(asset_id@, txn_hash@),
    {
        let ghost before = self@;
        if self.has_transfer(&asset_id, &txn_hash) {
            return Ok(TransferOutcome::Duplicate);
        }
        let taken: usize = self.transfers.len();
        let last: i32 = if taken == 0 {
            0
        } else {
            self.transfers[taken - 1].id
        };
        if last == 2147483647 {
            return Err(StoreError::TransferIdsExhausted);
        }
        assert(last >= 0) by {
            if taken > 0 {
                assert(before.transfers[taken - 1].id >= 1);
            }
        }
        let id: i32 = last + 1;
        let owner_updated = self.set_owner(&asset_id, &new_owner);
        let row = Transfer { id, asset_id, old_owner, new_owner, timestamp, txn_hash };
        self.transfers.push(row);
        proof {
            let after = before.with_transfer(
                asset_id@,
                old_owner@,
                new_owner@,
                txn_hash@,
                timestamp,
            );
            assert(self@.transfers =~= after.transfers);
            assert(self@.assets =~= after.assets);
            assert forall|i: int, j: int| 0 <= i < j < self@.transfers.len() implies (
            #[trigger] self@.transfers[i]).id < (#[trigger] self@.transfers[j]).id by {
                assert(self@.transfers[i] == before.transfers[i]);
                if j < before.transfers.len() {
                    assert(self@.transfers[j] == before.transfers[j]);
                } else if i < before.transfers.len() - 1 {
                    assert(before.transfers[i].id < before.transfers[before.transfers.len() - 1].id);
                }
            }
            assert forall|i: int, j: int| 0 <= i < j < self@.transfers.len() implies !has_dedup_key(
                #[trigger] self@.transfers[i],
                (#[trigger] self@.transfers[j]).asset_id,
                self@.transfers[j].txn_hash,
            ) by {
                if j == before.transfers.len() {
                    assert(!has_dedup_key(before.transfers[i], asset_id@, txn_hash@));
                } else {
                    assert(!has_dedup_key(
                        before.transfers[i],
                        before.transfers[j].asset_id,
                        before.transfers[j].txn_hash,
                    ));
                }
            }
        }
        Ok(TransferOutcome::Recorded { id, owner_updated })
    }

    /// The asset rows, in the order in which they were first written.
    pub fn assets(&self) -> (rows: &Vec<Asset>)
        ensures
            asset_rows(rows@) == self@.assets,
    {
        &self.assets
    }

    /// The transfer rows, in the order in which they were recorded.
    pub fn transfers(&self) -> (rows: &Vec<Transfer>)
        ensures
            transfer_rows(rows@) == self@.transfers,
    {
        &self.transfers
    }
}

} // verus!
