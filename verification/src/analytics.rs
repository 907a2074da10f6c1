//! Analytics recomputation: the totals of both tables and the three most
//! active owners, computed afresh from the whole projection each time.

use crate::models::{top_owner_rows, Analytics, TopOwner, TopOwnerRow, Transfer, TransferRow};
use crate::store::{lemma_transfers_are_countable, transfer_rows, LedgerStore};
use crate::text::{decimal_text, i64_to_string, lemma_text_order, precedes, text_precedes};
use vstd::prelude::*;
use vstd::string::*;

verus! {

/// How many owners a snapshot ranks.
pub const TOP_OWNERS: usize = 3;

/// Number of transfers that made `owner` the owner of an asset.
pub open spec fn transfers_to(transfers: Seq<TransferRow>, owner: Seq<char>) -> nat
    decreases transfers.len(),
{
    if transfers.len() == 0 {
        0
    } else {
        transfers_to(transfers.drop_last(), owner) + if transfers.last().new_owner == owner {
            1nat
        } else {
            0nat
        }
    }
}

/// `a` ranks before `b`: it received more transfers, or as many and its
/// address comes first in the order of texts.
pub open spec fn outranks(transfers: Seq<TransferRow>, a: Seq<char>, b: Seq<char>) -> bool {
    transfers_to(transfers, a) > transfers_to(transfers, b) || (transfers_to(transfers, a)
        == transfers_to(transfers, b) && text_precedes(a, b))
}

/// Whether `owner` is one of the ranked owners.
pub open spec fn is_ranked(top: Seq<TopOwnerRow>, owner: Seq<char>) -> bool {
    exists|k: int| 0 <= k < top.len() && (#[trigger] top[k]).owner == owner
}

/// `top` ranks the most active owners among the new owners of the first
/// `seen` transfers, at most `TOP_OWNERS` of them: each entry carries the
/// number of all transfers to its owner, the entries stand in ranking order,
/// and whoever is left out is outranked by the last entry of a full list.
pub open spec fn ranks_first(transfers: Seq<TransferRow>, top: Seq<TopOwnerRow>, seen: int) -> bool {
    &&& top.len() <= TOP_OWNERS
    &&& forall|k: int|
        0 <= k < top.len() ==> (#[trigger] top[k]).transfer_count == transfers_to(
            transfers,
            top[k].owner,
        ) && top[k].transfer_count > 0
    &&& forall|j: int, k: int|
        0 <= j < k < top.len() ==> outranks(
            transfers,
            (#[trigger] top[j]).owner,
            (#[trigger] top[k]).owner,
        )
    &&& forall|t: int|
        0 <= t < seen ==> is_ranked(top, (#[trigger] transfers[t]).new_owner) || (top.len()
            == TOP_OWNERS && outranks(
            transfers,
            top[TOP_OWNERS - 1].owner,
            transfers[t].new_owner,
        ))
}

/// `top` is the ranking of the most active owners of `transfers`.
pub open spec fn is_top_owners(transfers: Seq<TransferRow>, top: Seq<TopOwnerRow>) -> bool {
    ranks_first(transfers, top, transfers.len() as int)
}

/// A number of rows as the snapshot states it.
pub open spec fn row_total(n: nat) -> i64 {
    if n > i64::MAX {
        i64::MAX
    } else {
        n as i64
    }
}

proof fn lemma_transfers_to_bounds(transfers: Seq<TransferRow>, owner: Seq<char>)
    ensures
        transfers_to(transfers, owner) <= transfers.len(),
        forall|t: int|
            0 <= t < transfers.len() && (#[trigger] transfers[t]).new_owner == owner
                ==> transfers_to(transfers, owner) >= 1,
    decreases transfers.len(),
{
    if transfers.len() > 0 {
        lemma_transfers_to_bounds(transfers.drop_last(), owner);
        assert forall|t: int|
            0 <= t < transfers.len() && (#[trigger] transfers[t]).new_owner
                == owner implies transfers_to(transfers, owner) >= 1 by {
            if t < transfers.len() - 1 {
                assert(transfers.drop_last()[t] == transfers[t]);
            }
        }
    }
}

/// The ranking is a strict total order of the owners.
pub proof fn lemma_ranking_order(
    transfers: Seq<TransferRow>,
    a: Seq<char>,
    b: Seq<char>,
    c: Seq<char>,
)
    ensures
        !outranks(transfers, a, a),
        a != b ==> (outranks(transfers, a, b) <==> !outranks(transfers, b, a)),
        outranks(transfers, a, b) && outranks(transfers, b, c) ==> outranks(transfers, a, c),
{
    lemma_text_order(a, b, c);
    lemma_text_order(b, a, c);
}

/// An owner with a transfer to its name is the new owner of some transfer.
proof fn lemma_counted_owner_appears(transfers: Seq<TransferRow>, owner: Seq<char>) -> (t: int)
    requires
        transfers_to(transfers, owner) > 0,
    ensures
        0 <= t < transfers.len(),
        transfers[t].new_owner == owner,
    decreases transfers.len(),
{
    if transfers.last().new_owner == owner {
        transfers.len() - 1
    } else {
        let t = lemma_counted_owner_appears(transfers.drop_last(), owner);
        assert(transfers.drop_last()[t] == transfers[t]);
        t
    }
}

/// In a ranking, an owner that is not ranked is outranked by every entry,
/// and an owner that is ranked outranks every entry behind it.
proof fn lemma_entry_outranks(
    transfers: Seq<TransferRow>,
    top: Seq<TopOwnerRow>,
    k: int,
    other: Seq<char>,
)
    requires
        is_top_owners(transfers, top),
        0 <= k < top.len(),
        transfers_to(transfers, other) > 0,
        forall|i: int| 0 <= i <= k ==> (#[trigger] top[i]).owner != other,
    ensures
        outranks(transfers, top[k].owner, other),
{
    let t = lemma_counted_owner_appears(transfers, other);
    if is_ranked(top, transfers[t].new_owner) {
        let j = choose|j: int| 0 <= j < top.len() && (#[trigger] top[j]).owner == other;
        assert(k < j);
        assert(outranks(transfers, top[k].owner, top[j].owner));
    } else {
        let last = TOP_OWNERS - 1;
        assert(outranks(transfers, top[last].owner, other));
        if k < last {
            assert(outranks(transfers, top[k].owner, top[last].owner));
            lemma_ranking_order(transfers, top[k].owner, top[last].owner, other);
        }
    }
}

/// Two rankings of the same transfers name the same owner at every place
/// that the first of them fills.
proof fn lemma_rankings_agree_at(
    transfers: Seq<TransferRow>,
    x: Seq<TopOwnerRow>,
    y: Seq<TopOwnerRow>,
    k: int,
)
    requires
        is_top_owners(transfers, x),
        is_top_owners(transfers, y),
        0 <= k < x.len(),
    ensures
        k < y.len(),
        y[k].owner == x[k].owner,
        forall|i: int| 0 <= i < k ==> (#[trigger] y[i]).owner == x[i].owner,
    decreases k,
{
    if k > 0 {
        lemma_rankings_agree_at(transfers, x, y, k - 1);
    }
    let a = x[k].owner;
    // No earlier entry of either ranking names `a`.
    assert forall|i: int| 0 <= i < k implies (#[trigger] y[i]).owner != a by {
        assert(outranks(transfers, x[i].owner, x[k].owner));
        lemma_ranking_order(transfers, a, a, a);
    }
    if k >= y.len() || y[k].owner != a {
        if k < y.len() {
            let b = y[k].owner;
            // `b` stands before `a` in `y`, and `a` before `b` in `x`.
            lemma_entry_outranks(transfers, y, k, a);
            assert forall|i: int| 0 <= i <= k implies (#[trigger] x[i]).owner != b by {
                if i < k {
                    assert(outranks(transfers, y[i].owner, y[k].owner));
                    lemma_ranking_order(transfers, b, b, b);
                }
            }
            lemma_entry_outranks(transfers, x, k, b);
            lemma_ranking_order(transfers, a, b, a);
        } else {
            // `y` ends before place `k`, yet `a` has to be ranked in it.
            let t = lemma_counted_owner_appears(transfers, a);
            assert(is_ranked(y, transfers[t].new_owner) || y.len() == TOP_OWNERS);
            if is_ranked(y, a) {
                let j = choose|j: int| 0 <= j < y.len() && (#[trigger] y[j]).owner == a;
                assert(j < k);
            }
        }
    }
}

/// The ranking of the most active owners is unique: whatever satisfies
/// [`is_top_owners`] for the same transfers is the same list.
pub proof fn lemma_top_owners_are_unique(
    transfers: Seq<TransferRow>,
    x: Seq<TopOwnerRow>,
    y: Seq<TopOwnerRow>,
)
    requires
        is_top_owners(transfers, x),
        is_top_owners(transfers, y),
    ensures
        x == y,
{
    if x.len() > 0 {
        lemma_rankings_agree_at(transfers, x, y, x.len() - 1);
    }
    if y.len() > 0 {
        lemma_rankings_agree_at(transfers, y, x, y.len() - 1);
    }
    assert forall|k: int| 0 <= k < x.len() implies x[k] == y[k] by {
        lemma_rankings_agree_at(transfers, x, y, k);
    }
    assert(x =~= y);
}

/// Number of transfers to `owner`.
fn count_transfers_to(transfers: &Vec<Transfer>, owner: &String) -> (n: usize)
    ensures
        n == transfers_to(transfer_rows(transfers@), owner@),
{
    let ghost rows = transfer_rows(transfers@);
    let mut n: usize = 0;
    let mut i: usize = 0;
    assert(rows.take(0) =~= Seq::empty());
    while i < transfers.len()
        invariant
            rows == transfer_rows(transfers@),
            i <= transfers@.len(),
            n <= i,
            n == transfers_to(rows.take(i as int), owner@),
        decreases transfers@.len() - i,
    {
        assert(rows.take(i + 1).drop_last() =~= rows.take(i as int));
        if transfers[i].new_owner == *owner {
            n += 1;
        }
        i += 1;
    }
    assert(rows.take(i as int) =~= rows);
    n
}

/// Whether `owner` is among the ranked owners.
fn is_listed(top: &Vec<TopOwner>, owner: &String) -> (b: bool)
    ensures
        b == is_ranked(top_owner_rows(top@), owner@),
{
    let mut k: usize = 0;
    while k < top.len()
        invariant
            k <= top@.len(),
            forall|j: int| 0 <= j < k ==> (#[trigger] top@[j]).owner@ != owner@,
        decreases top@.len() - k,
    {
        if top[k].owner == *owner {
            assert(top_owner_rows(top@)[k as int].owner == owner@);
            return true;
        }
        k += 1;
    }
    assert forall|j: int| 0 <= j < top@.len() implies (#[trigger] top_owner_rows(top@)[j]).owner
        != owner@ by {
        assert(top@[j].owner@ != owner@);
    }
    false
}

/// The three owners who received the most transfers, the most active first;
/// owners with as many transfers stand in the order of their addresses.
pub fn top_owners(transfers: &Vec<Transfer>) -> (top: Vec<TopOwner>)
    requires
        transfers@.len() <= i64::MAX,
    ensures
        is_top_owners(transfer_rows(transfers@), top_owner_rows(top@)),
{
    let ghost rows = transfer_rows(transfers@);
    let mut top: Vec<TopOwner> = Vec::new();
    let mut i: usize = 0;
    while i < transfers.len()
        invariant
            rows == transfer_rows(transfers@),
            transfers@.len() <= i64::MAX,
            i <= transfers@.len(),
            ranks_first(rows, top_owner_rows(top@), i as int),
        decreases transfers@.len() - i,
    {
        let owner = &transfers[i].new_owner;
        assert(rows[i as int].new_owner == owner@);
        let ghost before = top_owner_rows(top@);
        if !is_listed(&top, owner) {
            let n: usize = count_transfers_to(transfers, owner);
            proof {
                lemma_transfers_to_bounds(rows, owner@);
            }
            let count: i64 = n as i64;
            // The place of the owner: before the first entry that it outranks.
            let mut p: usize = 0;
            while p < top.len() && !(count > top[p].transfer_count || (count
                == top[p].transfer_count && precedes(owner.as_str(), top[p].owner.as_str())))
                invariant
                    p <= top@.len(),
                    before == top_owner_rows(top@),
                    ranks_first(rows, before, i as int),
                    count == transfers_to(rows, owner@),
                    !is_ranked(before, owner@),
                    forall|j: int| 0 <= j < p ==> outranks(rows, (#[trigger] before[j]).owner, owner@),
                decreases top@.len() - p,
            {
                proof {
                    let other = before[p as int].owner;
                    assert(other != owner@);
                    lemma_ranking_order(rows, owner@, other, other);
                }
                p += 1;
            }
            if p < TOP_OWNERS {
                assert(p < top@.len() ==> outranks(rows, owner@, before[p as int].owner));
                top.insert(p, TopOwner { owner: owner.clone(), transfer_count: count });
                let ghost grown = top_owner_rows(top@);
                assert(grown =~= before.insert(
                    p as int,
                    TopOwnerRow { owner: owner@, transfer_count: count },
                ));
                if top.len() > TOP_OWNERS {
                    top.pop();
                }
                let ghost after = top_owner_rows(top@);
                proof {
                    assert(after =~= grown.take(after.len() as int));
                    lemma_insertion_keeps_ranking(rows, before, owner@, count, p as int, i as int);
                }
            } else {
                proof {
                    assert(before.len() == TOP_OWNERS);
                }
            }
        } else {
            assert(is_ranked(before, rows[i as int].new_owner));
        }
        i += 1;
    }
    top
}

/// Putting a new owner at its place in a ranking, and dropping the entry
/// that falls off a full list, leaves a ranking of one more transfer.
proof fn lemma_insertion_keeps_ranking(
    transfers: Seq<TransferRow>,
    before: Seq<TopOwnerRow>,
    owner: Seq<char>,
    count: i64,
    p: int,
    seen: int,
)
    requires
        0 <= seen < transfers.len(),
        transfers[seen].new_owner == owner,
        ranks_first(transfers, before, seen),
        !is_ranked(before, owner),
        count == transfers_to(transfers, owner),
        count > 0,
        0 <= p <= before.len(),
        p < TOP_OWNERS,
        forall|j: int| 0 <= j < p ==> outranks(transfers, (#[trigger] before[j]).owner, owner),
        p < before.len() ==> outranks(transfers, owner, before[p].owner),
    ensures
        ({
            let grown = before.insert(p, TopOwnerRow { owner, transfer_count: count });
            let after = if grown.len() > TOP_OWNERS {
                grown.take(TOP_OWNERS as int)
            } else {
                grown
            };
            ranks_first(transfers, after, seen + 1)
        }),
{
    let entry = TopOwnerRow { owner, transfer_count: count };
    let grown = before.insert(p, entry);
    let after = if grown.len() > TOP_OWNERS {
        grown.take(TOP_OWNERS as int)
    } else {
        grown
    };
    // The grown list is in ranking order.
    assert forall|j: int, k: int| 0 <= j < k < grown.len() implies outranks(
        transfers,
        (#[trigger] grown[j]).owner,
        (#[trigger] grown[k]).owner,
    ) by {
        if k < p {
            assert(grown[j] == before[j] && grown[k] == before[k]);
        } else if k == p {
            assert(grown[j] == before[j]);
        } else if j == p {
            assert(grown[k] == before[k - 1]);
            if k - 1 > p {
                assert(outranks(transfers, before[p].owner, before[k - 1].owner));
                lemma_ranking_order(transfers, owner, before[p].owner, before[k - 1].owner);
            }
        } else if j < p {
            assert(grown[j] == before[j] && grown[k] == before[k - 1]);
        } else {
            assert(grown[j] == before[j - 1] && grown[k] == before[k - 1]);
        }
    }
    assert forall|k: int| 0 <= k < after.len() implies (#[trigger] after[k]).transfer_count
        == transfers_to(transfers, after[k].owner) && after[k].transfer_count > 0 by {
        assert(after[k] == grown[k]);
        if k < p {
            assert(grown[k] == before[k]);
        } else if k > p {
            assert(grown[k] == before[k - 1]);
        }
    }
    assert forall|j: int, k: int| 0 <= j < k < after.len() implies outranks(
        transfers,
        (#[trigger] after[j]).owner,
        (#[trigger] after[k]).owner,
    ) by {
        assert(after[j] == grown[j] && after[k] == grown[k]);
    }
    // Whoever was ranked is ranked still, or has fallen behind the last entry.
    assert forall|t: int| 0 <= t < seen + 1 implies is_ranked(
        after,
        (#[trigger] transfers[t]).new_owner,
    ) || (after.len() == TOP_OWNERS && outranks(
        transfers,
        after[TOP_OWNERS - 1].owner,
        transfers[t].new_owner,
    )) by {
        let who = transfers[t].new_owner;
        if who == owner {
            assert(after[p] == grown[p]);
            assert(after[p].owner == who);
        } else {
            assert(t < seen);
            if is_ranked(before, who) {
                let k = choose|k: int| 0 <= k < before.len() && (#[trigger] before[k]).owner == who;
                let moved = if k < p {
                    k
                } else {
                    k + 1
                };
                assert(grown[moved] == before[k]);
                if moved < after.len() {
                    assert(after[moved] == grown[moved]);
                } else {
                    let last = TOP_OWNERS - 1;
                    assert(after[last] == grown[last]);
                    assert(outranks(transfers, grown[last].owner, grown[moved].owner));
                }
            } else {
                let last = TOP_OWNERS - 1;
                assert(before.len() == TOP_OWNERS);
                assert(after[last] == grown[last]);
                assert(grown[last + 1] == before[last]);
                assert(outranks(transfers, grown[last].owner, grown[last + 1].owner));
                lemma_ranking_order(transfers, after[last].owner, before[last].owner, who);
            }
        }
    }
}

/// The snapshot of a projection: the number of assets, the number of
/// transfers, and the three most active owners.
pub fn generate_analytics(store: &LedgerStore) -> (snapshot: Analytics)
    requires
        store@.well_formed(),
    ensures
        snapshot@.total_assets == row_total(store@.assets.len()),
        snapshot@.total_transfers == store@.transfers.len(),
        is_top_owners(store@.transfers, snapshot@.top_owners),
{
    let assets = store.assets();
    let transfers = store.transfers();
    proof {
        lemma_transfers_are_countable(store@);
    }
    let held: u64 = assets.len() as u64;
    let total_assets: i64 = if held > 9223372036854775807 {
        9223372036854775807
    } else {
        held as i64
    };
    Analytics {
        total_assets,
        total_transfers: transfers.len() as i64,
        top_owners: top_owners(transfers),
    }
}

/// The line of the summary for one ranked owner.
pub open spec fn owner_line(row: TopOwnerRow) -> Seq<char> {
    "- "@ + row.owner + ": "@ + decimal_text(row.transfer_count as int) + " transfers\n"@
}

/// The lines of the summary for the ranked owners, in their order.
pub open spec fn owner_lines(rows: Seq<TopOwnerRow>) -> Seq<char>
    decreases rows.len(),
{
    if rows.len() == 0 {
        Seq::empty()
    } else {
        owner_lines(rows.drop_last()) + owner_line(rows.last())
    }
}

/// The human-readable summary of a snapshot: a title, both totals under
/// their headings, and one line for each ranked owner.
pub open spec fn summary_text(
    total_assets: i64,
    total_transfers: i64,
    top: Seq<TopOwnerRow>,
) -> Seq<char> {
    "# SwitchAssets Analytics Summary\n## Total Assets Registered\n"@ + decimal_text(
        total_assets as int,
    ) + "\n## Total Ownership Transfers\n"@ + decimal_text(total_transfers as int)
        + "\n## Top 3 Most Active Owners\n"@ + owner_lines(top)
}

/// Writes the human-readable summary of a snapshot.
pub fn render_summary(snapshot: &Analytics) -> (text: String)
    ensures
        text@ == summary_text(
            snapshot@.total_assets,
            snapshot@.total_transfers,
            snapshot@.top_owners,
        ),
{
    let mut text = String::from_str(
        "# SwitchAssets Analytics Summary\n## Total Assets Registered\n",
    );
    text.append(i64_to_string(snapshot.total_assets).as_str());
    text.append("\n## Total Ownership Transfers\n");
    text.append(i64_to_string(snapshot.total_transfers).as_str());
    text.append("\n## Top 3 Most Active Owners\n");
    let ghost head = text@;
    let ghost rows = top_owner_rows(snapshot.top_owners@);
    let mut k: usize = 0;
    assert(rows.take(0) =~= Seq::empty());
    while k < snapshot.top_owners.len()
        invariant
            rows == top_owner_rows(snapshot.top_owners@),
            k <= snapshot.top_owners@.len(),
            text@ == head + owner_lines(rows.take(k as int)),
        decreases snapshot.top_owners@.len() - k,
    {
        let entry = &snapshot.top_owners[k];
        assert(rows.take(k + 1).drop_last() =~= rows.take(k as int));
        assert(rows.take(k + 1).last() == entry@);
        let ghost so_far = text@;
        text.append("- ");
        text.append(entry.owner.as_str());
        text.append(": ");
        text.append(i64_to_string(entry.transfer_count).as_str());
        text.append(" transfers\n");
        assert(text@ =~= so_far + owner_line(entry@));
        assert(text@ =~= head + owner_lines(rows.take(k + 1)));
        k += 1;
    }
    assert(rows.take(k as int) =~= rows);
    text
}

} // verus!
