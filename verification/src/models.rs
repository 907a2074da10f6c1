//! Rows of the projection, the inputs and answers of the read and write
//! paths, and the analytics snapshot.

use crate::encoding::{address_text, hash_text, prefixed_hex};
use vstd::prelude::*;

verus! {

/// One registered item.
#[derive(Clone, Debug, PartialEq, Eq)]
pub struct Asset {
    /// `0x` and the 64 hexadecimal digits of the 32-byte identifier.
    pub asset_id: String,
    /// The owning address, as text.
    pub owner: String,
    pub description: String,
    /// Seconds since the Unix epoch, as the ledger reports them.
    pub registered_at: i64,
}

/// What an [`Asset`] holds, as plain mathematical values.
pub struct AssetRow {
    pub asset_id: Seq<char>,
    pub owner: Seq<char>,
    pub description: Seq<char>,
    pub registered_at: i64,
}

impl View for Asset {
    type V = AssetRow;

    open spec fn view(&self) -> AssetRow {
        AssetRow {
            asset_id: self.asset_id@,
            owner: self.owner@,
            description: self.description@,
            registered_at: self.registered_at,
        }
    }
}

impl Asset {
    /// A copy of this row.
    pub fn duplicate(&self) -> (copy: Asset)
        ensures
            copy == *self,
    {
        Asset {
            asset_id: self.asset_id.clone(),
            owner: self.owner.clone(),
            description: self.description.clone(),
            registered_at: self.registered_at,
        }
    }
}

/// One change of ownership.
#[derive(Clone, Debug, PartialEq, Eq)]
pub struct Transfer {
    /// Surrogate key: rows are numbered from 1 in the order they were
    /// recorded.
    pub id: i32,
    pub asset_id: String,
    pub old_owner: String,
    pub new_owner: String,
    /// Seconds since the Unix epoch at which the row was recorded.
    pub timestamp: i64,
    /// The transaction that emitted the transfer.
    pub txn_hash: String,
}

/// What a [`Transfer`] holds, as plain mathematical values.
pub struct TransferRow {
    pub id: i32,
    pub asset_id: Seq<char>,
    pub old_owner: Seq<char>,
    pub new_owner: Seq<char>,
    pub timestamp: i64,
    pub txn_hash: Seq<char>,
}

impl View for Transfer {
    type V = TransferRow;

    open spec fn view(&self) -> TransferRow {
        TransferRow {
            id: self.id,
            asset_id: self.asset_id@,
            old_owner: self.old_owner@,
            new_owner: self.new_owner@,
            timestamp: self.timestamp,
            txn_hash: self.txn_hash@,
        }
    }
}

impl Transfer {
    /// A copy of this row.
    pub fn duplicate(&self) -> (copy: Transfer)
        ensures
            copy == *self,
    {
        Transfer {
            id: self.id,
            asset_id: self.asset_id.clone(),
            old_owner: self.old_owner.clone(),
            new_owner: self.new_owner.clone(),
            timestamp: self.timestamp,
            txn_hash: self.txn_hash.clone(),
        }
    }
}

/// Envelope of every answer of the read path.
#[derive(Clone, Debug, PartialEq, Eq)]
pub struct ApiResponse<T> {
    pub data: T,
}

/// Request to register an asset on the ledger.
#[derive(Clone, Debug, PartialEq, Eq)]
pub struct RegisterAssetInput {
    pub description: String,
}

/// Request to hand an asset over to another address.
#[derive(Clone, Debug, PartialEq, Eq)]
pub struct TransferAssetInput {
    pub asset_id: String,
    pub new_owner: String,
}

/// Request for one asset.
#[derive(Clone, Debug, PartialEq, Eq)]
pub struct GetAssetInput {
    pub asset_id: String,
}

/// Answer to a transfer request: the transfer that the ledger confirmed.
#[derive(Clone, Debug, PartialEq, Eq)]
pub struct OwnershipTransferredResponse {
    pub asset_id: String,
    pub old_owner: String,
    pub new_owner: String,
}

impl OwnershipTransferredResponse {
    /// The answer for a transaction that emitted no transfer: the zero id
    /// and the zero address.
    pub fn init() -> (r: Self)
        ensures
            r.asset_id@ == prefixed_hex(Seq::new(32, |i: int| 0u8)),
            r.old_owner@ == prefixed_hex(Seq::new(20, |i: int| 0u8)),
            r.new_owner@ == prefixed_hex(Seq::new(20, |i: int| 0u8)),
    {
        let id: [u8; 32] = [0u8; 32];
        let nobody: [u8; 20] = [0u8; 20];
        assert(id@ =~= Seq::new(32, |i: int| 0u8));
        assert(nobody@ =~= Seq::new(20, |i: int| 0u8));
        Self::new(id, nobody, nobody)
    }

    /// The answer for a confirmed transfer, every field as `0x` and
    /// lowercase hexadecimal digits.
    pub fn new(asset_id: [u8; 32], old_owner: [u8; 20], new_owner: [u8; 20]) -> (r: Self)
        ensures
            r.asset_id@ == prefixed_hex(asset_id@),
            r.old_owner@ == prefixed_hex(old_owner@),
            r.new_owner@ == prefixed_hex(new_owner@),
    {
        OwnershipTransferredResponse {
            asset_id: hash_text(&asset_id),
            old_owner: address_text(&old_owner),
            new_owner: address_text(&new_owner),
        }
    }
}

/// Answer to a registration request: the registration that the ledger
/// confirmed.
#[derive(Clone, Copy, Debug, PartialEq, Eq)]
pub struct AssetRegisteredResponse {
    pub asset_id: [u8; 32],
    pub asset_owner: [u8; 20],
}

impl AssetRegisteredResponse {
    /// The answer for a transaction that emitted no registration: the zero
    /// id and the zero address.
    pub fn init() -> (r: Self)
        ensures
            r.asset_id@ == Seq::new(32, |i: int| 0u8),
            r.asset_owner@ == Seq::new(20, |i: int| 0u8),
    {
        let id: [u8; 32] = [0u8; 32];
        let nobody: [u8; 20] = [0u8; 20];
        assert(id@ =~= Seq::new(32, |i: int| 0u8));
        assert(nobody@ =~= Seq::new(20, |i: int| 0u8));
        Self::new(id, nobody)
    }

    pub fn new(asset_id: [u8; 32], asset_owner: [u8; 20]) -> (r: Self)
        ensures
            r.asset_id == asset_id,
            r.asset_owner == asset_owner,
    {
        AssetRegisteredResponse { asset_id, asset_owner }
    }
}

/// Filter over the assets: every field that is set narrows the answer.
#[derive(Clone, Debug, PartialEq, Eq)]
pub struct SearchInput {
    pub asset_id: Option<String>,
    pub owner_address: Option<String>,
    /// Earliest registration time, included.
    pub start_date: Option<i64>,
    /// Latest registration time, included.
    pub end_date: Option<i64>,
}

/// Number of transfers recorded on one day.
#[derive(Clone, Copy, Debug, PartialEq, Eq, Structural)]
pub struct TransferByDate {
    /// First second of the day (UTC), as seconds since the Unix epoch.
    pub date: i64,
    pub count: i64,
}

/// An address with the number of transfers that made it an owner.
#[derive(Clone, Debug, PartialEq, Eq)]
pub struct TopOwner {
    pub owner: String,
    pub transfer_count: i64,
}

/// What a [`TopOwner`] holds, as plain mathematical values.
pub struct TopOwnerRow {
    pub owner: Seq<char>,
    pub transfer_count: i64,
}

impl View for TopOwner {
    type V = TopOwnerRow;

    open spec fn view(&self) -> TopOwnerRow {
        TopOwnerRow { owner: self.owner@, transfer_count: self.transfer_count }
    }
}

/// The rows that a list of ranked owners holds.
pub open spec fn top_owner_rows(owners: Seq<TopOwner>) -> Seq<TopOwnerRow> {
    owners.map_values(|o: TopOwner| o@)
}

/// The analytics snapshot.
#[derive(Clone, Debug, PartialEq, Eq)]
pub struct Analytics {
    pub total_assets: i64,
    pub total_transfers: i64,
    /// At most three owners, the most active first.
    pub top_owners: Vec<TopOwner>,
}

/// What an [`Analytics`] holds, as plain mathematical values.
pub struct AnalyticsRow {
    pub total_assets: i64,
    pub total_transfers: i64,
    pub top_owners: Seq<TopOwnerRow>,
}

impl View for Analytics {
    type V = AnalyticsRow;

    open spec fn view(&self) -> AnalyticsRow {
        AnalyticsRow {
            total_assets: self.total_assets,
            total_transfers: self.total_transfers,
            top_owners: top_owner_rows(self.top_owners@),
        }
    }
}

} // verus!
