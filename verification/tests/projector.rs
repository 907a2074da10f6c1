use asset_ledger::encoding::parse_address;
use asset_ledger::events::{AssetDetail, AssetRegistered, LedgerEvent, OwnershipTransferred};
use asset_ledger::models::{Asset, Transfer};
use asset_ledger::projector::{
    apply_event, apply_registration, apply_transfer, apply_transfer_now, Applied,
    RegistrationOutcome,
};
use asset_ledger::queries::get_transfers_by_asset;
use asset_ledger::store::{LedgerStore, TransferOutcome};

fn hex64(digit: char) -> String {
    let mut s = String::from("0x");
    for _ in 0..64 {
        s.push(digit);
    }
    s
}

fn hex40(digit: char) -> String {
    let mut s = String::from("0x");
    for _ in 0..40 {
        s.push(digit);
    }
    s
}

fn registered(asset: u8, owner: u8) -> AssetRegistered {
    AssetRegistered { asset_id: [asset; 32], owner: [owner; 20], txn_hash: [0x01; 32] }
}

fn transferred(asset: u8, old_owner: u8, new_owner: u8, txn: u8) -> OwnershipTransferred {
    OwnershipTransferred {
        asset_id: [asset; 32],
        old_owner: [old_owner; 20],
        new_owner: [new_owner; 20],
        txn_hash: [txn; 32],
    }
}

fn detail(description: &str, registered_at: u64) -> Option<AssetDetail> {
    Some(AssetDetail { description: description.to_string(), registered_at })
}

fn owner_of(store: &LedgerStore, asset_id: &str) -> Option<String> {
    store.assets().iter().find(|a| a.asset_id == asset_id).map(|a| a.owner.clone())
}

fn store_after_two_transfers() -> LedgerStore {
    let mut store = LedgerStore::new();
    apply_registration(&mut store, &registered(0xAA, 0x11), detail("a painting", 1_700_000_000));
    apply_transfer(&mut store, &transferred(0xAA, 0x11, 0x22, 0x01), 1_700_000_100).unwrap();
    apply_transfer(&mut store, &transferred(0xAA, 0x22, 0x33, 0x02), 1_700_000_200).unwrap();
    store
}

#[test]
fn registration_writes_the_asset_row() {
    let mut store = LedgerStore::new();
    let outcome =
        apply_registration(&mut store, &registered(0xAA, 0x11), detail("a painting", 1_700_000_000));
    assert_eq!(outcome, RegistrationOutcome::Inserted);
    assert_eq!(
        store.assets(),
        &vec![Asset {
            asset_id: hex64('a'),
            owner: hex40('1'),
            description: "a painting".to_string(),
            registered_at: 1_700_000_000,
        }]
    );
    assert!(store.transfers().is_empty());
}

#[test]
fn registration_writes_the_owner_with_its_checksum() {
    let mut store = LedgerStore::new();
    let owner = parse_address("0x5aaeb6053f3e94c9b9a09f33669435e7ef1beaed").unwrap();
    let event = AssetRegistered { asset_id: [0xAA; 32], owner, txn_hash: [0x01; 32] };
    apply_registration(&mut store, &event, detail("x", 1));
    assert_eq!(store.assets()[0].owner, "0x5aAeb6053F3E94C9b9A09f33669435E7Ef1BeAed");
    let other = parse_address("0xfb6916095ca1df60bb79ce92ce3ea74c37c5d359").unwrap();
    let transfer = OwnershipTransferred {
        asset_id: [0xAA; 32],
        old_owner: owner,
        new_owner: other,
        txn_hash: [0x02; 32],
    };
    apply_transfer(&mut store, &transfer, 5).unwrap();
    assert_eq!(store.assets()[0].owner, "0xfB6916095ca1df60bB79Ce92cE3Ea74c37c5d359");
    assert_eq!(store.transfers()[0].old_owner, "0x5aAeb6053F3E94C9b9A09f33669435E7Ef1BeAed");
    assert_eq!(store.transfers()[0].new_owner, "0xfB6916095ca1df60bB79Ce92cE3Ea74c37c5d359");
}

#[test]
fn registration_without_detail_is_skipped() {
    let mut store = LedgerStore::new();
    let outcome = apply_registration(&mut store, &registered(0xAA, 0x11), None);
    assert_eq!(outcome, RegistrationOutcome::SkippedUnknownAsset);
    assert!(store.assets().is_empty());
}

#[test]
fn registration_twice_leaves_the_same_row() {
    let mut once = LedgerStore::new();
    apply_registration(&mut once, &registered(0xAA, 0x11), detail("a painting", 77));
    let mut twice = LedgerStore::new();
    apply_registration(&mut twice, &registered(0xAA, 0x11), detail("a painting", 77));
    let outcome = apply_registration(&mut twice, &registered(0xAA, 0x11), detail("a painting", 77));
    assert_eq!(outcome, RegistrationOutcome::Overwritten);
    assert_eq!(once.assets(), twice.assets());
    assert_eq!(twice.assets().len(), 1);
}

#[test]
fn registration_again_overwrites_owner_description_and_time() {
    let mut store = LedgerStore::new();
    apply_registration(&mut store, &registered(0xAA, 0x11), detail("first", 10));
    apply_registration(&mut store, &registered(0xBB, 0x11), detail("other", 11));
    let outcome = apply_registration(&mut store, &registered(0xAA, 0x44), detail("second", 20));
    assert_eq!(outcome, RegistrationOutcome::Overwritten);
    assert_eq!(
        store.assets(),
        &vec![
            Asset {
                asset_id: hex64('a'),
                owner: hex40('4'),
                description: "second".to_string(),
                registered_at: 20,
            },
            Asset {
                asset_id: hex64('b'),
                owner: hex40('1'),
                description: "other".to_string(),
                registered_at: 11,
            },
        ]
    );
}

#[test]
fn registration_reads_large_seconds_as_the_signed_column_does() {
    let mut store = LedgerStore::new();
    apply_registration(&mut store, &registered(0xAA, 0x11), detail("x", u64::MAX));
    apply_registration(&mut store, &registered(0xBB, 0x11), detail("y", 1u64 << 63));
    apply_registration(&mut store, &registered(0xCC, 0x11), detail("z", i64::MAX as u64));
    assert_eq!(store.assets()[0].registered_at, -1);
    assert_eq!(store.assets()[1].registered_at, i64::MIN);
    assert_eq!(store.assets()[2].registered_at, i64::MAX);
}

#[test]
fn two_transfers_leave_the_last_new_owner() {
    let store = store_after_two_transfers();
    assert_eq!(owner_of(&store, &hex64('a')), Some(hex40('3')));
    assert_eq!(get_transfers_by_asset(&store, &hex64('a')).data.len(), 2);
    assert_eq!(
        store.transfers(),
        &vec![
            Transfer {
                id: 1,
                asset_id: hex64('a'),
                old_owner: hex40('1'),
                new_owner: hex40('2'),
                timestamp: 1_700_000_100,
                txn_hash: format!("0x{}", "01".repeat(32)),
            },
            Transfer {
                id: 2,
                asset_id: hex64('a'),
                old_owner: hex40('2'),
                new_owner: hex40('3'),
                timestamp: 1_700_000_200,
                txn_hash: format!("0x{}", "02".repeat(32)),
            },
        ]
    );
}

#[test]
fn replayed_transfer_changes_nothing() {
    let mut store = store_after_two_transfers();
    let before_assets = store.assets().clone();
    let before_transfers = store.transfers().clone();
    let again = apply_transfer(&mut store, &transferred(0xAA, 0x22, 0x33, 0x02), 1_700_009_999);
    assert_eq!(again, Ok(TransferOutcome::Duplicate));
    assert_eq!(get_transfers_by_asset(&store, &hex64('a')).data.len(), 2);
    assert_eq!(owner_of(&store, &hex64('a')), Some(hex40('3')));
    assert_eq!(store.assets(), &before_assets);
    assert_eq!(store.transfers(), &before_transfers);
}

#[test]
fn replayed_first_transfer_does_not_bring_the_old_owner_back() {
    let mut store = store_after_two_transfers();
    let again = apply_transfer(&mut store, &transferred(0xAA, 0x11, 0x22, 0x01), 1_700_009_999);
    assert_eq!(again, Ok(TransferOutcome::Duplicate));
    assert_eq!(owner_of(&store, &hex64('a')), Some(hex40('3')));
    assert_eq!(store.transfers().len(), 2);
}

#[test]
fn dedup_key_is_asset_id_and_transaction_hash() {
    let mut store = store_after_two_transfers();
    // Same transaction, another asset: a new row.
    let other_asset = apply_transfer(&mut store, &transferred(0xBB, 0x11, 0x22, 0x01), 5);
    assert_eq!(other_asset, Ok(TransferOutcome::Recorded { id: 3, owner_updated: false }));
    // Same asset, another transaction: a new row.
    let other_txn = apply_transfer(&mut store, &transferred(0xAA, 0x33, 0x44, 0x03), 6);
    assert_eq!(other_txn, Ok(TransferOutcome::Recorded { id: 4, owner_updated: true }));
    // Same key, other owners: no row.
    let same_key = apply_transfer(&mut store, &transferred(0xAA, 0x55, 0x66, 0x03), 7);
    assert_eq!(same_key, Ok(TransferOutcome::Duplicate));
    assert_eq!(store.transfers().len(), 4);
    assert_eq!(owner_of(&store, &hex64('a')), Some(hex40('4')));
}

#[test]
fn transfer_before_registration_is_recorded_without_owner_update() {
    let mut store = LedgerStore::new();
    apply_registration(&mut store, &registered(0xBB, 0x11), detail("other", 1));
    let outcome = apply_transfer(&mut store, &transferred(0xAA, 0x11, 0x22, 0x01), 50);
    assert_eq!(outcome, Ok(TransferOutcome::Recorded { id: 1, owner_updated: false }));
    assert_eq!(store.transfers().len(), 1);
    assert_eq!(store.transfers()[0].asset_id, hex64('a'));
    assert_eq!(store.transfers()[0].new_owner, hex40('2'));
    assert_eq!(store.assets().len(), 1);
    assert_eq!(owner_of(&store, &hex64('b')), Some(hex40('1')));
    assert_eq!(owner_of(&store, &hex64('a')), None);
}

#[test]
fn late_registration_takes_the_owner_that_the_event_names() {
    let mut store = LedgerStore::new();
    apply_transfer(&mut store, &transferred(0xAA, 0x11, 0x22, 0x01), 50).unwrap();
    let outcome = apply_registration(&mut store, &registered(0xAA, 0x11), detail("late", 1));
    assert_eq!(outcome, RegistrationOutcome::Inserted);
    assert_eq!(owner_of(&store, &hex64('a')), Some(hex40('1')));
    assert_eq!(store.transfers().len(), 1);
}

#[test]
fn owner_follows_the_latest_transfer_after_every_prefix() {
    let mut store = LedgerStore::new();
    apply_registration(&mut store, &registered(0xAA, 0x11), detail("a", 1));
    assert_eq!(owner_of(&store, &hex64('a')), Some(hex40('1')));
    apply_registration(&mut store, &registered(0xBB, 0x55), detail("b", 2));
    let steps: [(u8, u8, u8, u8, i64); 5] = [
        (0xAA, 0x11, 0x22, 0x01, 100),
        (0xBB, 0x55, 0x66, 0x02, 100),
        (0xAA, 0x22, 0x33, 0x03, 101),
        (0xAA, 0x22, 0x33, 0x03, 102),
        (0xBB, 0x66, 0x77, 0x04, 103),
    ];
    for (asset, old_owner, new_owner, txn, now) in steps {
        apply_transfer(&mut store, &transferred(asset, old_owner, new_owner, txn), now).unwrap();
        for row in store.assets() {
            let latest = store
                .transfers()
                .iter()
                .filter(|t| t.asset_id == row.asset_id)
                .max_by_key(|t| (t.timestamp, t.id));
            if let Some(t) = latest {
                assert_eq!(row.owner, t.new_owner);
            }
        }
    }
    assert_eq!(owner_of(&store, &hex64('a')), Some(hex40('3')));
    assert_eq!(owner_of(&store, &hex64('b')), Some(hex40('7')));
    assert_eq!(store.transfers().len(), 4);
}

#[test]
fn transfer_ingested_now_carries_the_clock() {
    let mut store = LedgerStore::new();
    let outcome = apply_transfer_now(&mut store, &transferred(0xAA, 0x11, 0x22, 0x01));
    assert_eq!(outcome, Ok(TransferOutcome::Recorded { id: 1, owner_updated: false }));
    // Any clock of today is far behind the epoch.
    assert!(store.transfers()[0].timestamp > 1_600_000_000);
    let again = apply_transfer_now(&mut store, &transferred(0xAA, 0x11, 0x22, 0x01));
    assert_eq!(again, Ok(TransferOutcome::Duplicate));
    assert_eq!(store.transfers().len(), 1);
}

#[test]
fn apply_event_dispatches_on_the_kind() {
    let mut store = LedgerStore::new();
    let r = apply_event(
        &mut store,
        &LedgerEvent::AssetRegistered(registered(0xAA, 0x11)),
        detail("a", 1),
        999,
    );
    assert_eq!(r, Ok(Applied::Registration(RegistrationOutcome::Inserted)));
    let t = apply_event(
        &mut store,
        &LedgerEvent::OwnershipTransferred(transferred(0xAA, 0x11, 0x22, 0x09)),
        None,
        1000,
    );
    assert_eq!(t, Ok(Applied::Transfer(TransferOutcome::Recorded { id: 1, owner_updated: true })));
    assert_eq!(store.transfers()[0].timestamp, 1000);
    let skipped = apply_event(
        &mut store,
        &LedgerEvent::AssetRegistered(registered(0xCC, 0x11)),
        None,
        1001,
    );
    assert_eq!(skipped, Ok(Applied::Registration(RegistrationOutcome::SkippedUnknownAsset)));
    assert_eq!(store.assets().len(), 1);
}
