use asset_ledger::analytics::{generate_analytics, render_summary, top_owners};
use asset_ledger::models::{Analytics, Asset, TopOwner, Transfer};
use asset_ledger::store::LedgerStore;

fn transfer(id: i32, new_owner: &str) -> Transfer {
    Transfer {
        id,
        asset_id: format!("asset-{}", id),
        old_owner: "someone".to_string(),
        new_owner: new_owner.to_string(),
        timestamp: 0,
        txn_hash: format!("txn-{}", id),
    }
}

fn transfers_to(owners: &[&str]) -> Vec<Transfer> {
    owners.iter().enumerate().map(|(i, o)| transfer(i as i32 + 1, o)).collect()
}

fn top(owner: &str, transfer_count: i64) -> TopOwner {
    TopOwner { owner: owner.to_string(), transfer_count }
}

#[test]
fn no_transfers_rank_nobody() {
    assert_eq!(top_owners(&vec![]), vec![]);
}

#[test]
fn owners_rank_by_number_of_transfers_received() {
    let rows = transfers_to(&["0xb", "0xa", "0xc", "0xc", "0xa", "0xc"]);
    assert_eq!(top_owners(&rows), vec![top("0xc", 3), top("0xa", 2), top("0xb", 1)]);
}

#[test]
fn ties_stand_in_ascending_order_of_address() {
    let rows = transfers_to(&["0xd", "0xb", "0xc", "0xa"]);
    assert_eq!(top_owners(&rows), vec![top("0xa", 1), top("0xb", 1), top("0xc", 1)]);
    let rows = transfers_to(&["0xB", "0xa", "0xb", "0x", "0xa", "0xB", "0x", "0xb"]);
    assert_eq!(top_owners(&rows), vec![top("0x", 2), top("0xB", 2), top("0xa", 2)]);
}

#[test]
fn only_three_owners_are_ranked() {
    let rows = transfers_to(&["e", "d", "d", "c", "c", "c", "b", "b", "b", "b", "a", "a", "a", "a", "a"]);
    assert_eq!(top_owners(&rows), vec![top("a", 5), top("b", 4), top("c", 3)]);
}

#[test]
fn a_late_riser_displaces_the_last_entry() {
    let rows = transfers_to(&["a", "b", "c", "d", "d"]);
    assert_eq!(top_owners(&rows), vec![top("d", 2), top("a", 1), top("b", 1)]);
}

#[test]
fn fewer_than_three_owners_are_all_ranked() {
    let rows = transfers_to(&["y", "x", "y"]);
    assert_eq!(top_owners(&rows), vec![top("y", 2), top("x", 1)]);
}

#[test]
fn snapshot_counts_both_tables() {
    let mut store = LedgerStore::new();
    for (id, owner) in [("a1", "o1"), ("a2", "o1"), ("a3", "o2")] {
        store.upsert_asset(Asset {
            asset_id: id.to_string(),
            owner: owner.to_string(),
            description: String::new(),
            registered_at: 0,
        });
    }
    for (asset, new_owner, txn) in
        [("a1", "o2", "t1"), ("a1", "o3", "t2"), ("a9", "o2", "t3"), ("a1", "o2", "t4")]
    {
        store
            .record_transfer(
                asset.to_string(),
                "prev".to_string(),
                new_owner.to_string(),
                txn.to_string(),
                5,
            )
            .unwrap();
    }
    // A replay adds nothing to the totals.
    store
        .record_transfer("a1".to_string(), "x".to_string(), "o3".to_string(), "t2".to_string(), 6)
        .unwrap();
    assert_eq!(
        generate_analytics(&store),
        Analytics {
            total_assets: 3,
            total_transfers: 4,
            top_owners: vec![top("o2", 3), top("o3", 1)],
        }
    );
}

#[test]
fn snapshot_of_an_empty_projection() {
    assert_eq!(
        generate_analytics(&LedgerStore::new()),
        Analytics { total_assets: 0, total_transfers: 0, top_owners: vec![] }
    );
}

#[test]
fn summary_has_headings_totals_and_one_line_for_each_owner() {
    let snapshot = Analytics {
        total_assets: 12,
        total_transfers: 345,
        top_owners: vec![top("0xaa", 200), top("0xbb", 100), top("0xcc", 45)],
    };
    assert_eq!(
        render_summary(&snapshot),
        "# SwitchAssets Analytics Summary\n\
         ## Total Assets Registered\n\
         12\n\
         ## Total Ownership Transfers\n\
         345\n\
         ## Top 3 Most Active Owners\n\
         - 0xaa: 200 transfers\n\
         - 0xbb: 100 transfers\n\
         - 0xcc: 45 transfers\n"
    );
}

#[test]
fn summary_of_an_empty_snapshot() {
    let snapshot = Analytics { total_assets: 0, total_transfers: 0, top_owners: vec![] };
    assert_eq!(
        render_summary(&snapshot),
        "# SwitchAssets Analytics Summary\n## Total Assets Registered\n0\n## Total Ownership Transfers\n0\n## Top 3 Most Active Owners\n"
    );
}

#[test]
fn summary_writes_numbers_in_decimal() {
    let snapshot = Analytics {
        total_assets: i64::MAX,
        total_transfers: -7,
        top_owners: vec![top("o", 1000000)],
    };
    assert_eq!(
        render_summary(&snapshot),
        "# SwitchAssets Analytics Summary\n## Total Assets Registered\n9223372036854775807\n## Total Ownership Transfers\n-7\n## Top 3 Most Active Owners\n- o: 1000000 transfers\n"
    );
}
