use asset_ledger::models::{Asset, Transfer};
use asset_ledger::store::{LedgerStore, RestoreError, StoreError, TransferOutcome};

fn asset(id: &str, owner: &str, description: &str, registered_at: i64) -> Asset {
    Asset {
        asset_id: id.to_string(),
        owner: owner.to_string(),
        description: description.to_string(),
        registered_at,
    }
}

#[test]
fn new_store_is_empty() {
    let store = LedgerStore::new();
    assert!(store.assets().is_empty());
    assert!(store.transfers().is_empty());
    assert!(!store.has_asset(&"a".to_string()));
    assert!(!store.has_transfer(&"a".to_string(), &"t".to_string()));
}

#[test]
fn upsert_inserts_then_overwrites_in_place() {
    let mut store = LedgerStore::new();
    assert!(store.upsert_asset(asset("a", "o1", "first", 1)));
    assert!(store.upsert_asset(asset("b", "o2", "second", 2)));
    assert!(!store.upsert_asset(asset("a", "o3", "third", 3)));
    assert_eq!(store.assets(), &vec![asset("a", "o3", "third", 3), asset("b", "o2", "second", 2)]);
    assert!(store.has_asset(&"a".to_string()));
    assert!(store.has_asset(&"b".to_string()));
    assert!(!store.has_asset(&"c".to_string()));
}

#[test]
fn record_transfer_numbers_rows_from_one() {
    let mut store = LedgerStore::new();
    store.upsert_asset(asset("a", "o1", "d", 1));
    let first = store.record_transfer(
        "a".to_string(),
        "o1".to_string(),
        "o2".to_string(),
        "t1".to_string(),
        10,
    );
    assert_eq!(first, Ok(TransferOutcome::Recorded { id: 1, owner_updated: true }));
    let second = store.record_transfer(
        "x".to_string(),
        "o1".to_string(),
        "o2".to_string(),
        "t1".to_string(),
        11,
    );
    assert_eq!(second, Ok(TransferOutcome::Recorded { id: 2, owner_updated: false }));
    assert_eq!(
        store.transfers(),
        &vec![
            Transfer {
                id: 1,
                asset_id: "a".to_string(),
                old_owner: "o1".to_string(),
                new_owner: "o2".to_string(),
                timestamp: 10,
                txn_hash: "t1".to_string(),
            },
            Transfer {
                id: 2,
                asset_id: "x".to_string(),
                old_owner: "o1".to_string(),
                new_owner: "o2".to_string(),
                timestamp: 11,
                txn_hash: "t1".to_string(),
            },
        ]
    );
    assert_eq!(store.assets(), &vec![asset("a", "o2", "d", 1)]);
    assert!(store.has_transfer(&"a".to_string(), &"t1".to_string()));
    assert!(store.has_transfer(&"x".to_string(), &"t1".to_string()));
    assert!(!store.has_transfer(&"a".to_string(), &"t2".to_string()));
}

#[test]
fn record_transfer_skips_a_known_key() {
    let mut store = LedgerStore::new();
    store.upsert_asset(asset("a", "o1", "d", 1));
    store
        .record_transfer("a".to_string(), "o1".to_string(), "o2".to_string(), "t1".to_string(), 10)
        .unwrap();
    let again = store.record_transfer(
        "a".to_string(),
        "o2".to_string(),
        "o9".to_string(),
        "t1".to_string(),
        20,
    );
    assert_eq!(again, Ok(TransferOutcome::Duplicate));
    assert_eq!(store.transfers().len(), 1);
    assert_eq!(store.assets()[0].owner, "o2");
}

#[test]
fn record_transfer_updates_only_the_asset_named() {
    let mut store = LedgerStore::new();
    store.upsert_asset(asset("a", "o1", "d", 1));
    store.upsert_asset(asset("b", "o1", "e", 2));
    store
        .record_transfer("b".to_string(), "o1".to_string(), "o2".to_string(), "t1".to_string(), 10)
        .unwrap();
    assert_eq!(store.assets(), &vec![asset("a", "o1", "d", 1), asset("b", "o2", "e", 2)]);
}

fn transfer(id: i32, asset_id: &str, txn_hash: &str) -> Transfer {
    Transfer {
        id,
        asset_id: asset_id.to_string(),
        old_owner: "o1".to_string(),
        new_owner: "o2".to_string(),
        timestamp: 0,
        txn_hash: txn_hash.to_string(),
    }
}

#[test]
fn restore_takes_rows_whose_keys_hold() {
    let assets = vec![asset("a", "o1", "d", 1), asset("b", "o1", "e", 2)];
    let transfers = vec![transfer(3, "a", "t1"), transfer(7, "a", "t2"), transfer(8, "z", "t1")];
    let mut store = LedgerStore::restore(assets.clone(), transfers.clone()).unwrap();
    assert_eq!(store.assets(), &assets);
    assert_eq!(store.transfers(), &transfers);
    let next = store.record_transfer(
        "b".to_string(),
        "o1".to_string(),
        "o5".to_string(),
        "t9".to_string(),
        4,
    );
    assert_eq!(next, Ok(TransferOutcome::Recorded { id: 9, owner_updated: true }));
    assert!(LedgerStore::restore(vec![], vec![]).is_ok());
}

#[test]
fn restore_refuses_two_assets_with_one_id() {
    let assets = vec![asset("a", "o1", "d", 1), asset("b", "o1", "e", 2), asset("a", "o2", "f", 3)];
    assert_eq!(LedgerStore::restore(assets, vec![]).err(), Some(RestoreError::DuplicateAsset));
}

#[test]
fn restore_refuses_two_transfers_with_one_dedup_key() {
    let transfers = vec![transfer(1, "a", "t1"), transfer(2, "b", "t1"), transfer(3, "a", "t1")];
    assert_eq!(LedgerStore::restore(vec![], transfers).err(), Some(RestoreError::DuplicateTransfer));
}

#[test]
fn restore_refuses_surrogate_keys_out_of_order() {
    for ids in [[1, 1, 2], [2, 1, 3], [0, 1, 2], [-1, 5, 6], [1, 3, 3]] {
        let transfers = vec![
            transfer(ids[0], "a", "t1"),
            transfer(ids[1], "a", "t2"),
            transfer(ids[2], "a", "t3"),
        ];
        assert_eq!(LedgerStore::restore(vec![], transfers).err(), Some(RestoreError::KeysOutOfOrder));
    }
}

#[test]
fn restore_names_the_first_kind_of_fault() {
    let assets = vec![asset("a", "o1", "d", 1), asset("a", "o2", "f", 3)];
    let transfers = vec![transfer(5, "a", "t1"), transfer(4, "a", "t1")];
    assert_eq!(
        LedgerStore::restore(assets, transfers.clone()).err(),
        Some(RestoreError::DuplicateAsset)
    );
    assert_eq!(LedgerStore::restore(vec![], transfers).err(), Some(RestoreError::DuplicateTransfer));
}

#[test]
fn record_transfer_fails_when_the_surrogate_key_is_used_up() {
    let assets = vec![asset("a", "o1", "d", 1)];
    let transfers = vec![transfer(i32::MAX - 1, "a", "t1")];
    let mut store = LedgerStore::restore(assets, transfers).unwrap();
    let last = store.record_transfer(
        "a".to_string(),
        "o1".to_string(),
        "o2".to_string(),
        "t2".to_string(),
        1,
    );
    assert_eq!(last, Ok(TransferOutcome::Recorded { id: i32::MAX, owner_updated: true }));
    let refused = store.record_transfer(
        "a".to_string(),
        "o2".to_string(),
        "o3".to_string(),
        "t3".to_string(),
        2,
    );
    assert_eq!(refused, Err(StoreError::TransferIdsExhausted));
    assert_eq!(store.transfers().len(), 2);
    assert_eq!(store.assets()[0].owner, "o2");
    let known = store.record_transfer(
        "a".to_string(),
        "o2".to_string(),
        "o3".to_string(),
        "t2".to_string(),
        3,
    );
    assert_eq!(known, Ok(TransferOutcome::Duplicate));
}
