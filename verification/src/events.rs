//! The two canonical events of the ledger.

use crate::encoding::{checksum_address, prefixed_hex};
use vstd::prelude::*;

verus! {

/// An asset came into being on the ledger.
#[derive(Clone, Copy, Debug, PartialEq, Eq)]
pub struct AssetRegistered {
    pub asset_id: [u8; 32],
    pub owner: [u8; 20],
    /// The transaction that emitted the event.
    pub txn_hash: [u8; 32],
}

/// An asset changed hands on the ledger.
#[derive(Clone, Copy, Debug, PartialEq, Eq)]
pub struct OwnershipTransferred {
    pub asset_id: [u8; 32],
    pub old_owner: [u8; 20],
    pub new_owner: [u8; 20],
    /// The transaction that emitted the event.
    pub txn_hash: [u8; 32],
}

/// One event of the ledger in canonical form.
#[derive(Clone, Copy, Debug, PartialEq, Eq)]
pub enum LedgerEvent {
    AssetRegistered(AssetRegistered),
    OwnershipTransferred(OwnershipTransferred),
}

/// What the ledger reports of an asset beyond its registration event.
#[derive(Clone, Debug, PartialEq, Eq)]
pub struct AssetDetail {
    pub description: String,
    /// Seconds since the Unix epoch, as the ledger's unsigned number.
    pub registered_at: u64,
}

/// The ledger's unsigned seconds as the projection's signed column holds
/// them: the same 64 bits, so that numbers from 2^63 on read as negative.
pub open spec fn signed_seconds(seconds: u64) -> i64 {
    if seconds <= i64::MAX {
        seconds as i64
    } else {
        (seconds - 0x1_0000_0000_0000_0000) as i64
    }
}

/// The ledger's unsigned seconds as the projection's signed column holds
/// them.
pub fn to_signed_seconds(seconds: u64) -> (signed: i64)
    ensures
        signed == signed_seconds(seconds),
{
    if seconds <= 9223372036854775807 {
        seconds as i64
    } else {
        let below: u64 = 18446744073709551615 - seconds;
        -(below as i64) - 1
    }
}

impl AssetRegistered {
    /// The asset id as the projection writes it.
    pub open spec fn asset_key(self) -> Seq<char> {
        prefixed_hex(self.asset_id@)
    }

    /// The owner as the projection writes it.
    pub open spec fn owner_text(self) -> Seq<char> {
        checksum_address(self.owner@)
    }
}

impl OwnershipTransferred {
    /// The asset id as the projection writes it.
    pub open spec fn asset_key(self) -> Seq<char> {
        prefixed_hex(self.asset_id@)
    }

    /// The previous owner as the projection writes it.
    pub open spec fn old_owner_text(self) -> Seq<char> {
        checksum_address(self.old_owner@)
    }

    /// The new owner as the projection writes it.
    pub open spec fn new_owner_text(self) -> Seq<char> {
        checksum_address(self.new_owner@)
    }

    /// The transaction hash as the projection writes it.
    pub open spec fn txn_key(self) -> Seq<char> {
        prefixed_hex(self.txn_hash@)
    }
}

} // verus!
