//! The write path's view of the ledger: what the receipt of a submitted
//! transaction says, and the assets as the ledger itself lists them.

use crate::decoder::{
    decode_log, kind_of, log_word, word_address, EventTopics, LogKind, RawLog,
};
use crate::encoding::{address_text, hash_text, prefixed_hex};
use crate::events::{signed_seconds, to_signed_seconds, LedgerEvent};
use crate::models::{Asset, AssetRegisteredResponse, AssetRow, OwnershipTransferredResponse};
use crate::store::{asset_rows, LedgerStore, StoreState};
use vstd::prelude::*;
use vstd::string::*;

verus! {

/// Whether a receipt reports success: its status is 1.
pub fn transaction_succeeded(status: Option<u64>) -> (ok: bool)
    ensures
        ok == (status == Some(1u64)),
{
    match status {
        Some(s) => s == 1,
        None => false,
    }
}

/// The number of the last of the first `upto` logs that is of `kind`, or -1
/// where none is.
pub open spec fn last_of_kind(logs: Seq<RawLog>, topics: EventTopics, kind: LogKind, upto: int) -> int
    decreases upto,
{
    if upto <= 0 {
        -1
    } else if kind_of(logs[upto - 1], topics) == kind {
        upto - 1
    } else {
        last_of_kind(logs, topics, kind, upto - 1)
    }
}

/// What the answer to a registration request says for the first `upto` logs
/// of a receipt: the last registration among them, or the zero id and the
/// zero address where there is none.
pub open spec fn answers_registration(
    logs: Seq<RawLog>,
    topics: EventTopics,
    upto: int,
    answer: AssetRegisteredResponse,
) -> bool {
    let at = last_of_kind(logs, topics, LogKind::Registration, upto);
    if at < 0 {
        &&& answer.asset_id@ == Seq::new(32, |i: int| 0u8)
        &&& answer.asset_owner@ == Seq::new(20, |i: int| 0u8)
    } else {
        &&& answer.asset_id@ == log_word(logs[at], 0)
        &&& answer.asset_owner@ == word_address(log_word(logs[at], 1))
    }
}

/// What the answer to a transfer request says for the first `upto` logs of
/// a receipt: the last transfer among them, every field as text, or the zero
/// id and the zero address where there is none.
pub open spec fn answers_transfer(
    logs: Seq<RawLog>,
    topics: EventTopics,
    upto: int,
    answer: OwnershipTransferredResponse,
) -> bool {
    let at = last_of_kind(logs, topics, LogKind::Transfer, upto);
    if at < 0 {
        &&& answer.asset_id@ == prefixed_hex(Seq::new(32, |i: int| 0u8))
        &&& answer.old_owner@ == prefixed_hex(Seq::new(20, |i: int| 0u8))
        &&& answer.new_owner@ == prefixed_hex(Seq::new(20, |i: int| 0u8))
    } else {
        &&& answer.asset_id@ == prefixed_hex(log_word(logs[at], 0))
        &&& answer.old_owner@ == prefixed_hex(word_address(log_word(logs[at], 1)))
        &&& answer.new_owner@ == prefixed_hex(word_address(log_word(logs[at], 2)))
    }
}

/// The answer to a registration request: the last registration among the
/// logs of the receipt, or the zero answer where the receipt holds none.
pub fn registration_answer(logs: &Vec<RawLog>, topics: &EventTopics) -> (answer:
    AssetRegisteredResponse)
    ensures
        answers_registration(logs@, *topics, logs@.len() as int, answer),
{
    let mut answer = AssetRegisteredResponse::init();
    let mut i: usize = 0;
    while i < logs.len()
        invariant
            i <= logs@.len(),
            answers_registration(logs@, *topics, i as int, answer),
        decreases logs@.len() - i,
    {
        if let Ok(Some(LedgerEvent::AssetRegistered(event))) = decode_log(&logs[i], topics) {
            answer = AssetRegisteredResponse::new(event.asset_id, event.owner);
        }
        i += 1;
    }
    answer
}

/// The answer to a transfer request: the last transfer among the logs of
/// the receipt, every field as text, or the zero answer where the receipt
/// holds none.
pub fn transfer_answer(logs: &Vec<RawLog>, topics: &EventTopics) -> (answer:
    OwnershipTransferredResponse)
    ensures
        answers_transfer(logs@, *topics, logs@.len() as int, answer),
{
    let mut answer = OwnershipTransferredResponse::init();
    let mut i: usize = 0;
    while i < logs.len()
        invariant
            i <= logs@.len(),
            answers_transfer(logs@, *topics, i as int, answer),
        decreases logs@.len() - i,
    {
        if let Ok(Some(LedgerEvent::OwnershipTransferred(event))) = decode_log(&logs[i], topics) {
            answer = OwnershipTransferredResponse::new(
                event.asset_id,
                event.old_owner,
                event.new_owner,
            );
        }
        i += 1;
    }
    answer
}

/// The line that answers a registration request.
pub open spec fn registration_message(answer: AssetRegisteredResponse) -> Seq<char> {
    "Asset ID: "@ + prefixed_hex(answer.asset_id@) + ", Owner: "@ + prefixed_hex(
        answer.asset_owner@,
    )
}

/// Writes the line that answers a registration request.
pub fn render_registration(answer: &AssetRegisteredResponse) -> (text: String)
    ensures
        text@ == registration_message(*answer),
{
    let mut text = String::from_str("Asset ID: ");
    text.append(hash_text(&answer.asset_id).as_str());
    text.append(", Owner: ");
    text.append(address_text(&answer.asset_owner).as_str());
    text
}

/// An asset as the ledger itself lists it.
#[derive(Clone, Debug, PartialEq, Eq)]
pub struct ContractAsset {
    pub asset_id: [u8; 32],
    pub asset_owner: [u8; 20],
    pub description: String,
    /// Seconds since the Unix epoch.
    pub registered_at: u64,
}

/// The row that stands for an asset of the ledger's own list: id and owner
/// as `0x` and lowercase hexadecimal digits.
pub open spec fn contract_row(asset: ContractAsset) -> AssetRow {
    AssetRow {
        asset_id: prefixed_hex(asset.asset_id@),
        owner: prefixed_hex(asset.asset_owner@),
        description: asset.description@,
        registered_at: signed_seconds(asset.registered_at),
    }
}

/// The rows that stand for the ledger's own list of assets.
pub open spec fn contract_rows(assets: Seq<ContractAsset>) -> Seq<AssetRow> {
    assets.map_values(|a: ContractAsset| contract_row(a))
}

/// The projection after the first `n` assets of the ledger's list have been
/// written into it, one after another.
pub open spec fn after_import(state: StoreState, assets: Seq<ContractAsset>, n: int) -> StoreState
    decreases n,
{
    if n <= 0 {
        state
    } else {
        after_import(state, assets, n - 1).with_asset(contract_row(assets[n - 1]))
    }
}

/// The row that stands for an asset of the ledger's own list.
pub fn contract_asset_row(asset: &ContractAsset) -> (row: Asset)
    ensures
        row@ == contract_row(*asset),
{
    Asset {
        asset_id: hash_text(&asset.asset_id),
        owner: address_text(&asset.asset_owner),
        description: asset.description.clone(),
        registered_at: to_signed_seconds(asset.registered_at),
    }
}

/// The rows that stand for the ledger's own list of assets, in its order.
pub fn contract_asset_rows(assets: &Vec<ContractAsset>) -> (rows: Vec<Asset>)
    ensures
        asset_rows(rows@) == contract_rows(assets@),
{
    let mut rows: Vec<Asset> = Vec::new();
    let mut i: usize = 0;
    while i < assets.len()
        invariant
            i <= assets@.len(),
            rows@.len() == i,
            forall|k: int| 0 <= k < i ==> (#[trigger] rows@[k])@ == contract_row(assets@[k]),
        decreases assets@.len() - i,
    {
        rows.push(contract_asset_row(&assets[i]));
        i += 1;
    }
    assert(asset_rows(rows@) =~= contract_rows(assets@));
    rows
}

/// Writes the ledger's own list of assets into the projection, each asset
/// over the row with its id, and returns the rows written.
pub fn import_contract_assets(store: &mut LedgerStore, assets: &Vec<ContractAsset>) -> (rows: Vec<
    Asset,
>)
    requires
        old(store)@.well_formed(),
    ensures
        final(store)@ == after_import(old(store)@, assets@, assets@.len() as int),
        final(store)@.well_formed(),
        asset_rows(rows@) == contract_rows(assets@),
{
    let mut rows: Vec<Asset> = Vec::new();
    let mut i: usize = 0;
    while i < assets.len()
        invariant
            i <= assets@.len(),
            rows@.len() == i,
            store@.well_formed(),
            store@ == after_import(old(store)@, assets@, i as int),
            forall|k: int| 0 <= k < i ==> (#[trigger] rows@[k])@ == contract_row(assets@[k]),
        decreases assets@.len() - i,
    {
        let row = contract_asset_row(&assets[i]);
        rows.push(row.duplicate());
        store.upsert_asset(row);
        i += 1;
    }
    assert(asset_rows(rows@) =~= contract_rows(assets@));
    rows
}

} // verus!
