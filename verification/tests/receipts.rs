use asset_ledger::decoder::{EventTopics, RawLog};
use asset_ledger::models::{Asset, AssetRegisteredResponse, OwnershipTransferredResponse};
use asset_ledger::receipts::{
    contract_asset_row, contract_asset_rows, import_contract_assets, registration_answer,
    render_registration, transaction_succeeded, transfer_answer, ContractAsset,
};
use asset_ledger::store::LedgerStore;

fn topics() -> EventTopics {
    EventTopics { asset_registered: [0xA1; 32], ownership_transferred: [0xB2; 32] }
}

fn address_word(address: [u8; 20]) -> [u8; 32] {
    let mut w = [0u8; 32];
    w[12..].copy_from_slice(&address);
    w
}

fn registration_log(asset: u8, owner: u8) -> RawLog {
    RawLog {
        topics: vec![[0xA1; 32], [asset; 32], address_word([owner; 20])],
        data: vec![],
        transaction_hash: [0x77; 32],
        block_number: 1,
    }
}

fn transfer_log(asset: u8, old_owner: u8, new_owner: u8) -> RawLog {
    RawLog {
        topics: vec![[0xB2; 32], [asset; 32]],
        data: [address_word([old_owner; 20]), address_word([new_owner; 20])].concat(),
        transaction_hash: [0x77; 32],
        block_number: 1,
    }
}

fn unrelated_log() -> RawLog {
    RawLog { topics: vec![[0xC3; 32]], data: vec![1], transaction_hash: [0x77; 32], block_number: 1 }
}

fn faulty_registration_log() -> RawLog {
    RawLog { topics: vec![[0xA1; 32]], data: vec![1], transaction_hash: [0x77; 32], block_number: 1 }
}

fn contract_asset(asset: u8, owner: u8, description: &str, registered_at: u64) -> ContractAsset {
    ContractAsset {
        asset_id: [asset; 32],
        asset_owner: [owner; 20],
        description: description.to_string(),
        registered_at,
    }
}

#[test]
fn receipt_status_one_is_success() {
    assert!(transaction_succeeded(Some(1)));
    assert!(!transaction_succeeded(Some(0)));
    assert!(!transaction_succeeded(Some(2)));
    assert!(!transaction_succeeded(None));
}

#[test]
fn zero_answers() {
    assert_eq!(
        AssetRegisteredResponse::init(),
        AssetRegisteredResponse { asset_id: [0; 32], asset_owner: [0; 20] }
    );
    assert_eq!(
        OwnershipTransferredResponse::init(),
        OwnershipTransferredResponse {
            asset_id: format!("0x{}", "0".repeat(64)),
            old_owner: format!("0x{}", "0".repeat(40)),
            new_owner: format!("0x{}", "0".repeat(40)),
        }
    );
}

#[test]
fn answers_from_their_parts() {
    assert_eq!(
        AssetRegisteredResponse::new([7; 32], [8; 20]),
        AssetRegisteredResponse { asset_id: [7; 32], asset_owner: [8; 20] }
    );
    assert_eq!(
        OwnershipTransferredResponse::new([0xAB; 32], [0xCD; 20], [0xEF; 20]),
        OwnershipTransferredResponse {
            asset_id: format!("0x{}", "ab".repeat(32)),
            old_owner: format!("0x{}", "cd".repeat(20)),
            new_owner: format!("0x{}", "ef".repeat(20)),
        }
    );
}

#[test]
fn registration_answer_is_the_last_registration_of_the_receipt() {
    let logs = vec![
        registration_log(0xAA, 0x11),
        unrelated_log(),
        registration_log(0xBB, 0x22),
        transfer_log(0xCC, 0x33, 0x44),
        faulty_registration_log(),
    ];
    assert_eq!(
        registration_answer(&logs, &topics()),
        AssetRegisteredResponse { asset_id: [0xBB; 32], asset_owner: [0x22; 20] }
    );
}

#[test]
fn registration_answer_without_registration_is_zero() {
    let logs = vec![unrelated_log(), transfer_log(0xCC, 0x33, 0x44), faulty_registration_log()];
    assert_eq!(registration_answer(&logs, &topics()), AssetRegisteredResponse::init());
    assert_eq!(registration_answer(&vec![], &topics()), AssetRegisteredResponse::init());
}

#[test]
fn transfer_answer_is_the_last_transfer_of_the_receipt() {
    let logs = vec![
        transfer_log(0xAA, 0x11, 0x22),
        registration_log(0xAA, 0x11),
        transfer_log(0xCC, 0x33, 0x44),
        unrelated_log(),
    ];
    assert_eq!(
        transfer_answer(&logs, &topics()),
        OwnershipTransferredResponse {
            asset_id: format!("0x{}", "cc".repeat(32)),
            old_owner: format!("0x{}", "33".repeat(20)),
            new_owner: format!("0x{}", "44".repeat(20)),
        }
    );
    assert_eq!(
        transfer_answer(&vec![registration_log(0xAA, 0x11)], &topics()),
        OwnershipTransferredResponse::init()
    );
}

#[test]
fn registration_message_names_id_and_owner() {
    let answer = AssetRegisteredResponse { asset_id: [0xAB; 32], asset_owner: [0x0C; 20] };
    assert_eq!(
        render_registration(&answer),
        format!("Asset ID: 0x{}, Owner: 0x{}", "ab".repeat(32), "0c".repeat(20))
    );
}

#[test]
fn contract_asset_becomes_a_row_in_lowercase_hex() {
    assert_eq!(
        contract_asset_row(&contract_asset(0xAB, 0xCD, "a chair", 1_700_000_000)),
        Asset {
            asset_id: format!("0x{}", "ab".repeat(32)),
            owner: format!("0x{}", "cd".repeat(20)),
            description: "a chair".to_string(),
            registered_at: 1_700_000_000,
        }
    );
    assert_eq!(contract_asset_row(&contract_asset(1, 2, "", u64::MAX)).registered_at, -1);
}

#[test]
fn contract_assets_become_rows_in_their_order() {
    let assets = vec![contract_asset(1, 2, "x", 3), contract_asset(4, 5, "y", 6)];
    let rows = contract_asset_rows(&assets);
    assert_eq!(rows, vec![contract_asset_row(&assets[0]), contract_asset_row(&assets[1])]);
    assert_eq!(contract_asset_rows(&vec![]), vec![]);
}

#[test]
fn import_writes_each_asset_over_the_row_with_its_id() {
    let mut store = LedgerStore::new();
    store.upsert_asset(Asset {
        asset_id: format!("0x{}", "04".repeat(32)),
        owner: "old".to_string(),
        description: "old".to_string(),
        registered_at: 0,
    });
    let assets = vec![
        contract_asset(1, 2, "x", 3),
        contract_asset(4, 5, "y", 6),
        contract_asset(1, 7, "z", 8),
    ];
    let rows = import_contract_assets(&mut store, &assets);
    assert_eq!(rows, contract_asset_rows(&assets));
    assert_eq!(
        store.assets(),
        &vec![contract_asset_row(&assets[1]), contract_asset_row(&assets[2])]
    );
}
