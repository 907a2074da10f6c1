//! Batches of logs: what one historical query or a run of the subscription
//! delivers is read log by log, and the events of a chunk are put in the
//! order in which they are applied.

use crate::decoder::{decode_log, is_reading, DecodeError, EventTopics, RawLog};
use crate::events::LedgerEvent;
use vstd::prelude::*;

verus! {

/// The events that a run of readings holds, in the order of their logs: a
/// log of another signature and a log with a faulty payload yield none.
pub open spec fn events_of(readings: Seq<Result<Option<LedgerEvent>, DecodeError>>) -> Seq<
    LedgerEvent,
>
    decreases readings.len(),
{
    if readings.len() == 0 {
        Seq::empty()
    } else {
        match readings.last() {
            Ok(Some(event)) => events_of(readings.drop_last()).push(event),
            _ => events_of(readings.drop_last()),
        }
    }
}

/// The number of readings that are faults.
pub open spec fn faults_in(readings: Seq<Result<Option<LedgerEvent>, DecodeError>>) -> nat
    decreases readings.len(),
{
    if readings.len() == 0 {
        0
    } else {
        faults_in(readings.drop_last()) + if readings.last() is Err {
            1nat
        } else {
            0nat
        }
    }
}

/// The registrations among `events`, in their order.
pub open spec fn registrations_in(events: Seq<LedgerEvent>) -> Seq<LedgerEvent>
    decreases events.len(),
{
    if events.len() == 0 {
        Seq::empty()
    } else if events.last() is AssetRegistered {
        registrations_in(events.drop_last()).push(events.last())
    } else {
        registrations_in(events.drop_last())
    }
}

/// The transfers among `events`, in their order.
pub open spec fn transfers_in(events: Seq<LedgerEvent>) -> Seq<LedgerEvent>
    decreases events.len(),
{
    if events.len() == 0 {
        Seq::empty()
    } else if events.last() is OwnershipTransferred {
        transfers_in(events.drop_last()).push(events.last())
    } else {
        transfers_in(events.drop_last())
    }
}

/// The events read from a batch of logs, and the number of logs that were
/// skipped for a faulty payload.
#[derive(Clone, Debug, PartialEq, Eq)]
pub struct Decoded {
    pub events: Vec<LedgerEvent>,
    pub faulty: usize,
}

/// Reads every log of a batch. A log that cannot be read does not stop the
/// batch: its fault stands at its place in the result.
pub fn decode_logs(logs: &Vec<RawLog>, topics: &EventTopics) -> (readings: Vec<
    Result<Option<LedgerEvent>, DecodeError>,
>)
    ensures
        readings@.len() == logs@.len(),
        forall|i: int|
            0 <= i < logs@.len() ==> is_reading(logs@[i], *topics, #[trigger] readings@[i]),
{
    let mut readings: Vec<Result<Option<LedgerEvent>, DecodeError>> = Vec::new();
    let mut i: usize = 0;
    while i < logs.len()
        invariant
            i <= logs@.len(),
            readings@.len() == i,
            forall|k: int| 0 <= k < i ==> is_reading(logs@[k], *topics, #[trigger] readings@[k]),
        decreases logs@.len() - i,
    {
        readings.push(decode_log(&logs[i], topics));
        i += 1;
    }
    readings
}

/// Keeps the events of a run of readings and counts its faults.
pub fn collect_events(readings: &Vec<Result<Option<LedgerEvent>, DecodeError>>) -> (decoded: Decoded)
    ensures
        decoded.events@ == events_of(readings@),
        decoded.faulty == faults_in(readings@),
{
    let mut events: Vec<LedgerEvent> = Vec::new();
    let mut faulty: usize = 0;
    let mut i: usize = 0;
    assert(readings@.take(0) =~= Seq::empty());
    while i < readings.len()
        invariant
            i <= readings@.len(),
            faulty <= i,
            events@ == events_of(readings@.take(i as int)),
            faulty == faults_in(readings@.take(i as int)),
        decreases readings@.len() - i,
    {
        assert(readings@.take(i + 1).drop_last() =~= readings@.take(i as int));
        match readings[i] {
            Ok(Some(event)) => {
                events.push(event);
            },
            Ok(None) => {},
            Err(_) => {
                faulty += 1;
            },
        }
        i += 1;
    }
    assert(readings@.take(i as int) =~= readings@);
    Decoded { events, faulty }
}

/// The order in which the events of one chunk are applied: the
/// registrations first, then the transfers, each kind in the order in which
/// the ledger delivered it.
pub fn backfill_order(events: &Vec<LedgerEvent>) -> (ordered: Vec<LedgerEvent>)
    ensures
        ordered@ == registrations_in(events@) + transfers_in(events@),
{
    let mut ordered: Vec<LedgerEvent> = Vec::new();
    let mut i: usize = 0;
    assert(events@.take(0) =~= Seq::empty());
    while i < events.len()
        invariant
            i <= events@.len(),
            ordered@ == registrations_in(events@.take(i as int)),
        decreases events@.len() - i,
    {
        assert(events@.take(i + 1).drop_last() =~= events@.take(i as int));
        if let LedgerEvent::AssetRegistered(_) = events[i] {
            ordered.push(events[i]);
        }
        i += 1;
    }
    assert(events@.take(i as int) =~= events@);
    let ghost first = ordered@;
    let mut j: usize = 0;
    while j < events.len()
        invariant
            j <= events@.len(),
            first == registrations_in(events@),
            ordered@ == first + transfers_in(events@.take(j as int)),
        decreases events@.len() - j,
    {
        assert(events@.take(j + 1).drop_last() =~= events@.take(j as int));
        if let LedgerEvent::OwnershipTransferred(_) = events[j] {
            ordered.push(events[j]);
            assert(ordered@ =~= first + transfers_in(events@.take(j + 1)));
        }
        j += 1;
    }
    assert(events@.take(j as int) =~= events@);
    ordered
}

/// Nothing is lost and nothing is added when a chunk's events are put in
/// order, and every registration stands before every transfer.
pub proof fn lemma_backfill_order_keeps_events(events: Seq<LedgerEvent>)
    ensures
        registrations_in(events).len() + transfers_in(events).len() == events.len(),
        forall|i: int|
            0 <= i < registrations_in(events).len() ==> (#[trigger] registrations_in(
                events,
            )[i]) is AssetRegistered,
        forall|i: int|
            0 <= i < transfers_in(events).len() ==> (#[trigger] transfers_in(
                events,
            )[i]) is OwnershipTransferred,
    decreases events.len(),
{
    if events.len() > 0 {
        lemma_backfill_order_keeps_events(events.drop_last());
    }
}

} // verus!
