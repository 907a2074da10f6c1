//! The read path: the queries that the projection answers.

use crate::models::{
    ApiResponse, Asset, AssetRow, SearchInput, Transfer, TransferByDate, TransferRow,
};
use crate::store::{asset_rows, lemma_transfers_are_countable, transfer_rows, LedgerStore};
use vstd::prelude::*;

verus! {

/// The assets that `owner` owns.
pub open spec fn owned_by(owner: Seq<char>) -> spec_fn(AssetRow) -> bool {
    |row: AssetRow| row.owner == owner
}

/// The transfers of the asset `asset_id`.
pub open spec fn of_asset(asset_id: Seq<char>) -> spec_fn(TransferRow) -> bool {
    |row: TransferRow| row.asset_id == asset_id
}

/// Whether an asset passes a filter: every field of the filter that is set
/// has to agree with the row.
pub open spec fn passes(filter: SearchInput, row: AssetRow) -> bool {
    &&& filter.asset_id matches Some(id) ==> row.asset_id == id@
    &&& filter.owner_address matches Some(owner) ==> row.owner == owner@
    &&& filter.start_date matches Some(start) ==> row.registered_at >= start
    &&& filter.end_date matches Some(end) ==> row.registered_at <= end
}

/// The assets that pass `filter`.
pub open spec fn passing(filter: SearchInput) -> spec_fn(AssetRow) -> bool {
    |row: AssetRow| passes(filter, row)
}

proof fn lemma_filter_next<A>(rows: Seq<A>, keep: spec_fn(A) -> bool, i: int)
    requires
        0 <= i < rows.len(),
    ensures
        rows.take(i + 1).filter(keep) == if keep(rows[i]) {
            rows.take(i).filter(keep).push(rows[i])
        } else {
            rows.take(i).filter(keep)
        },
{
    reveal(Seq::filter);
    assert(rows.take(i + 1).drop_last() =~= rows.take(i));
}

proof fn lemma_filter_first<A>(rows: Seq<A>, keep: spec_fn(A) -> bool)
    ensures
        rows.take(0).filter(keep) == Seq::<A>::empty(),
        rows.take(rows.len() as int) == rows,
{
    reveal(Seq::filter);
    assert(rows.take(0) =~= Seq::empty());
    assert(rows.take(rows.len() as int) =~= rows);
}

/// Lists all assets, in the order in which they were first written.
pub fn get_all_assets(store: &LedgerStore) -> (answer: ApiResponse<Vec<Asset>>)
    ensures
        asset_rows(answer.data@) == store@.assets,
{
    let rows = store.assets();
    let mut data: Vec<Asset> = Vec::new();
    let mut i: usize = 0;
    while i < rows.len()
        invariant
            i <= rows@.len(),
            data@.len() == i,
            asset_rows(data@) =~= asset_rows(rows@).take(i as int),
        decreases rows@.len() - i,
    {
        let ghost before = data@;
        data.push(rows[i].duplicate());
        assert forall|k: int| 0 <= k < i + 1 implies asset_rows(data@)[k] == asset_rows(rows@)[k] by {
            if k < i {
                assert(asset_rows(before)[k] == asset_rows(rows@).take(i as int)[k]);
            }
        }
        i += 1;
    }
    assert(asset_rows(rows@).take(i as int) =~= asset_rows(rows@));
    ApiResponse { data }
}

/// Lists the transfers of one asset, in the order in which they were
/// recorded.
pub fn get_transfers_by_asset(store: &LedgerStore, asset_id: &String) -> (answer: ApiResponse<
    Vec<Transfer>,
>)
    ensures
        transfer_rows(answer.data@) == store@.transfers.filter(of_asset(asset_id@)),
{
    let rows = store.transfers();
    let ghost all = transfer_rows(rows@);
    let ghost keep = of_asset(asset_id@);
    let mut data: Vec<Transfer> = Vec::new();
    let mut i: usize = 0;
    proof {
        lemma_filter_first(all, keep);
    }
    while i < rows.len()
        invariant
            all == transfer_rows(rows@),
            keep == of_asset(asset_id@),
            i <= rows@.len(),
            transfer_rows(data@) =~= all.take(i as int).filter(keep),
        decreases rows@.len() - i,
    {
        proof {
            lemma_filter_next(all, keep, i as int);
        }
        if rows[i].asset_id == *asset_id {
            data.push(rows[i].duplicate());
        }
        i += 1;
    }
    proof {
        lemma_filter_first(all, keep);
    }
    ApiResponse { data }
}

/// Lists the assets that an address owns, in the order in which they were
/// first written.
pub fn get_assets_by_owner(store: &LedgerStore, address: &String) -> (answer: ApiResponse<
    Vec<Asset>,
>)
    ensures
        asset_rows(answer.data@) == store@.assets.filter(owned_by(address@)),
{
    let rows = store.assets();
    let ghost all = asset_rows(rows@);
    let ghost keep = owned_by(address@);
    let mut data: Vec<Asset> = Vec::new();
    let mut i: usize = 0;
    proof {
        lemma_filter_first(all, keep);
    }
    while i < rows.len()
        invariant
            all == asset_rows(rows@),
            keep == owned_by(address@),
            i <= rows@.len(),
            asset_rows(data@) =~= all.take(i as int).filter(keep),
        decreases rows@.len() - i,
    {
        proof {
            lemma_filter_next(all, keep, i as int);
        }
        if rows[i].owner == *address {
            data.push(rows[i].duplicate());
        }
        i += 1;
    }
    proof {
        lemma_filter_first(all, keep);
    }
    ApiResponse { data }
}

/// Whether an asset passes a filter.
fn asset_passes(filter: &SearchInput, row: &Asset) -> (b: bool)
    ensures
        b == passes(*filter, row@),
{
    if let Some(id) = &filter.asset_id {
        if !(row.asset_id == *id) {
            return false;
        }
    }
    if let Some(owner) = &filter.owner_address {
        if !(row.owner == *owner) {
            return false;
        }
    }
    if let Some(start) = filter.start_date {
        if row.registered_at < start {
            return false;
        }
    }
    if let Some(end) = filter.end_date {
        if row.registered_at > end {
            return false;
        }
    }
    true
}

/// Lists the assets that pass a filter by asset id, owner and time of
/// registration; a filter with no field set lists them all.
pub fn search_events(store: &LedgerStore, input: &SearchInput) -> (answer: ApiResponse<Vec<Asset>>)
    ensures
        asset_rows(answer.data@) == store@.assets.filter(passing(*input)),
{
    let rows = store.assets();
    let ghost all = asset_rows(rows@);
    let ghost keep = passing(*input);
    let mut data: Vec<Asset> = Vec::new();
    let mut i: usize = 0;
    proof {
        lemma_filter_first(all, keep);
    }
    while i < rows.len()
        invariant
            all == asset_rows(rows@),
            keep == passing(*input),
            i <= rows@.len(),
            asset_rows(data@) =~= all.take(i as int).filter(keep),
        decreases rows@.len() - i,
    {
        proof {
            lemma_filter_next(all, keep, i as int);
        }
        if asset_passes(input, &rows[i]) {
            data.push(rows[i].duplicate());
        }
        i += 1;
    }
    proof {
        lemma_filter_first(all, keep);
    }
    ApiResponse { data }
}

/// Seconds in a day.
pub const DAY_SECS: i64 = 86400;

/// The first second of the UTC day that holds `timestamp`; for the few
/// timestamps whose day starts below the least `i64`, that least value.
pub open spec fn day_start(timestamp: i64) -> i64 {
    let start = timestamp - timestamp as int % 86400;
    if start < i64::MIN {
        i64::MIN
    } else {
        start as i64
    }
}

/// The number of transfers recorded on the day that starts at `day`.
pub open spec fn recorded_on(transfers: Seq<TransferRow>, day: i64) -> nat
    decreases transfers.len(),
{
    if transfers.len() == 0 {
        0
    } else {
        recorded_on(transfers.drop_last(), day) + if day_start(transfers.last().timestamp) == day {
            1nat
        } else {
            0nat
        }
    }
}

/// `days` counts the transfers day by day: it holds every day on which a
/// transfer was recorded, once and in ascending order, with the number of
/// the transfers of that day.
pub open spec fn is_daily_count(transfers: Seq<TransferRow>, days: Seq<TransferByDate>) -> bool {
    &&& forall|i: int, j: int|
        0 <= i < j < days.len() ==> (#[trigger] days[i]).date < (#[trigger] days[j]).date
    &&& forall|k: int|
        0 <= k < days.len() ==> (#[trigger] days[k]).count == recorded_on(transfers, days[k].date)
            && days[k].count > 0
    &&& forall|t: int|
        0 <= t < transfers.len() ==> exists|k: int|
            0 <= k < days.len() && (#[trigger] days[k]).date == day_start(
                (#[trigger] transfers[t]).timestamp,
            )
}

/// The first second of the UTC day that holds `timestamp`.
pub fn day_of(timestamp: i64) -> (day: i64)
    ensures
        day == day_start(timestamp),
{
    if timestamp >= 0 {
        timestamp - timestamp % 86400
    } else {
        let back: i64 = -(timestamp + 1);
        let into: i64 = 86399 - back % 86400;
        proof {
            let q = back as int / 86400;
            let r = back as int % 86400;
            vstd::arithmetic::div_mod::lemma_fundamental_div_mod(back as int, 86400);
            assert(timestamp as int == (-(q + 1)) * 86400 + (86399 - r)) by (nonlinear_arith)
                requires
                    back == 86400 * q + r,
                    timestamp == -back - 1,
            ;
            vstd::arithmetic::div_mod::lemma_fundamental_div_mod_converse(
                timestamp as int,
                86400,
                -(q + 1),
                86399 - r,
            );
        }
        if timestamp < i64::MIN + into {
            i64::MIN
        } else {
            timestamp - into
        }
    }
}

proof fn lemma_recorded_on_bounds(transfers: Seq<TransferRow>, day: i64)
    ensures
        recorded_on(transfers, day) <= transfers.len(),
        recorded_on(transfers, day) == 0 <==> forall|t: int|
            0 <= t < transfers.len() ==> day_start((#[trigger] transfers[t]).timestamp) != day,
    decreases transfers.len(),
{
    if transfers.len() > 0 {
        let shorter = transfers.drop_last();
        lemma_recorded_on_bounds(shorter, day);
        if recorded_on(transfers, day) == 0 {
            assert forall|t: int| 0 <= t < transfers.len() implies day_start(
                (#[trigger] transfers[t]).timestamp,
            ) != day by {
                if t < shorter.len() {
                    assert(shorter[t] == transfers[t]);
                }
            }
        } else if recorded_on(shorter, day) != 0 {
            let t = choose|t: int|
                0 <= t < shorter.len() && day_start((#[trigger] shorter[t]).timestamp) == day;
            assert(shorter[t] == transfers[t]);
        }
    }
}

/// The place at which a daily count lists a day that it lists somewhere.
proof fn lemma_listed_day(transfers: Seq<TransferRow>, days: Seq<TransferByDate>, day: i64) -> (k: int)
    requires
        is_daily_count(transfers, days),
        recorded_on(transfers, day) > 0,
    ensures
        0 <= k < days.len(),
        days[k].date == day,
{
    lemma_recorded_on_bounds(transfers, day);
    let t = choose|t: int|
        0 <= t < transfers.len() && day_start((#[trigger] transfers[t]).timestamp) == day;
    choose|k: int|
        0 <= k < days.len() && (#[trigger] days[k]).date == day_start(transfers[t].timestamp)
}

/// Two daily counts of the same transfers list the same day at every place
/// that the first of them fills.
proof fn lemma_daily_counts_agree_at(
    transfers: Seq<TransferRow>,
    x: Seq<TransferByDate>,
    y: Seq<TransferByDate>,
    k: int,
)
    requires
        is_daily_count(transfers, x),
        is_daily_count(transfers, y),
        0 <= k < x.len(),
    ensures
        k < y.len(),
        y[k].date == x[k].date,
        forall|i: int| 0 <= i < k ==> (#[trigger] y[i]).date == x[i].date,
    decreases k,
{
    if k > 0 {
        lemma_daily_counts_agree_at(transfers, x, y, k - 1);
    }
    let j = lemma_listed_day(transfers, y, x[k].date);
    if j < k {
        assert(x[j].date < x[k].date);
    } else if j > k {
        let i = lemma_listed_day(transfers, x, y[k].date);
        assert(y[k].date < y[j].date);
        if i < k {
            assert(y[i].date < y[k].date);
        } else if i > k {
            assert(x[k].date < x[i].date);
        }
    }
}

/// The daily count is unique: whatever satisfies [`is_daily_count`] for the
/// same transfers is the same list.
pub proof fn lemma_daily_count_is_unique(
    transfers: Seq<TransferRow>,
    x: Seq<TransferByDate>,
    y: Seq<TransferByDate>,
)
    requires
        is_daily_count(transfers, x),
        is_daily_count(transfers, y),
    ensures
        x == y,
{
    if x.len() > 0 {
        lemma_daily_counts_agree_at(transfers, x, y, x.len() - 1);
    }
    if y.len() > 0 {
        lemma_daily_counts_agree_at(transfers, y, x, y.len() - 1);
    }
    assert forall|k: int| 0 <= k < x.len() implies x[k] == y[k] by {
        lemma_daily_counts_agree_at(transfers, x, y, k);
    }
    assert(x =~= y);
}

/// Counts the transfers day by day, the earliest day first.
pub fn get_transfers_by_date(store: &LedgerStore) -> (days: Vec<TransferByDate>)
    requires
        store@.well_formed(),
    ensures
        is_daily_count(store@.transfers, days@),
{
    let rows = store.transfers();
    let ghost all = transfer_rows(rows@);
    proof {
        lemma_transfers_are_countable(store@);
    }
    let mut days: Vec<TransferByDate> = Vec::new();
    let mut i: usize = 0;
    assert(all.take(0) =~= Seq::empty());
    while i < rows.len()
        invariant
            all == transfer_rows(rows@),
            i <= rows@.len() <= i32::MAX,
            is_daily_count(all.take(i as int), days@),
        decreases rows@.len() - i,
    {
        let day: i64 = day_of(rows[i].timestamp);
        let ghost seen = all.take(i as int);
        let ghost grown = all.take(i + 1);
        let ghost before = days@;
        assert(grown.drop_last() =~= seen);
        assert(grown.last() == all[i as int]);
        let mut p: usize = 0;
        while p < days.len() && days[p].date < day
            invariant
                p <= days@.len(),
                forall|k: int| 0 <= k < p ==> (#[trigger] days@[k]).date < day,
            decreases days@.len() - p,
        {
            p += 1;
        }
        proof {
            lemma_recorded_on_bounds(seen, day);
        }
        if p < days.len() && days[p].date == day {
            let count: i64 = days[p].count + 1;
            days.set(p, TransferByDate { date: day, count });
            proof {
                assert forall|t: int| 0 <= t < grown.len() implies exists|k: int|
                    0 <= k < days@.len() && (#[trigger] days@[k]).date == day_start(
                        (#[trigger] grown[t]).timestamp,
                    ) by {
                    if t < i {
                        assert(seen[t] == grown[t]);
                        let k = choose|k: int|
                            0 <= k < before.len() && (#[trigger] before[k]).date == day_start(
                                seen[t].timestamp,
                            );
                        assert(days@[k].date == before[k].date);
                    } else {
                        assert(days@[p as int].date == day);
                    }
                }
                assert forall|k: int| 0 <= k < days@.len() implies (#[trigger] days@[k]).count
                    == recorded_on(grown, days@[k].date) && days@[k].count > 0 by {
                    if k != p {
                        assert(days@[k] == before[k]);
                        if k < p {
                            assert(before[k].date < before[p as int].date);
                        } else {
                            assert(before[p as int].date < before[k].date);
                        }
                    }
                }
                assert forall|a: int, b: int| 0 <= a < b < days@.len() implies (
                #[trigger] days@[a]).date < (#[trigger] days@[b]).date by {
                    assert(before[a].date < before[b].date);
                }
            }
        } else {
            proof {
                // No transfer seen so far was recorded on this day.
                assert forall|t: int| 0 <= t < seen.len() implies day_start(
                    (#[trigger] seen[t]).timestamp,
                ) != day by {
                    let k = choose|k: int|
                        0 <= k < before.len() && (#[trigger] before[k]).date == day_start(
                            seen[t].timestamp,
                        );
                    if k < p {
                        assert(before[k].date < day);
                    } else {
                        assert(before[p as int].date <= before[k].date);
                    }
                }
            }
            days.insert(p, TransferByDate { date: day, count: 1 });
            proof {
                assert forall|a: int, b: int| 0 <= a < b < days@.len() implies (
                #[trigger] days@[a]).date < (#[trigger] days@[b]).date by {
                    let x = if a < p {
                        a
                    } else {
                        a - 1
                    };
                    let y = if b < p {
                        b
                    } else {
                        b - 1
                    };
                    if a != p && b != p {
                        assert(before[x].date < before[y].date);
                    } else if a == p {
                        assert(days@[b] == before[y]);
                        if y > p {
                            assert(before[p as int].date < before[y].date);
                        }
                    } else {
                        assert(days@[a] == before[x]);
                    }
                }
                assert forall|k: int| 0 <= k < days@.len() implies (#[trigger] days@[k]).count
                    == recorded_on(grown, days@[k].date) && days@[k].count > 0 by {
                    if k < p {
                        assert(days@[k] == before[k]);
                    } else if k > p {
                        assert(days@[k] == before[k - 1]);
                        if k - 1 > p {
                            assert(before[p as int].date < before[k - 1].date);
                        }
                    }
                }
                assert forall|t: int| 0 <= t < grown.len() implies exists|k: int|
                    0 <= k < days@.len() && (#[trigger] days@[k]).date == day_start(
                        (#[trigger] grown[t]).timestamp,
                    ) by {
                    if t < i {
                        assert(seen[t] == grown[t]);
                        let k = choose|k: int|
                            0 <= k < before.len() && (#[trigger] before[k]).date == day_start(
                                seen[t].timestamp,
                            );
                        let moved = if k < p {
                            k
                        } else {
                            k + 1
                        };
                        assert(days@[moved] == before[k]);
                    } else {
                        assert(days@[p as int].date == day);
                    }
                }
            }
        }
        proof {
            lemma_recorded_on_bounds(grown, day);
        }
        i += 1;
    }
    assert(all.take(i as int) =~= all);
    days
}

} // verus!
