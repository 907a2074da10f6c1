//! The event decoder: reads the raw log records of the ledger as canonical
//! events.
//!
//! A log carries the topic of its event's signature first. The parameters of
//! the event follow as 32-byte words: the indexed ones as further topics,
//! the others one after another in the data. An asset id fills a word; an
//! address stands in the last 20 bytes of its word.

use crate::encoding::{keccak256_digest, signature_topic};
use crate::events::{AssetRegistered, LedgerEvent, OwnershipTransferred};
use vstd::prelude::*;
use vstd::string::*;

verus! {

/// One log record as the provider hands it out.
#[derive(Clone, Debug, PartialEq, Eq)]
pub struct RawLog {
    pub topics: Vec<[u8; 32]>,
    pub data: Vec<u8>,
    /// The transaction that emitted the log.
    pub transaction_hash: [u8; 32],
    /// The block that holds the transaction.
    pub block_number: u64,
}

/// The topics under which the ledger files the two kinds of event.
#[derive(Clone, Copy, Debug, PartialEq, Eq)]
pub struct EventTopics {
    pub asset_registered: [u8; 32],
    pub ownership_transferred: [u8; 32],
}

/// Why a log of a known signature could not be read.
#[derive(Clone, Copy, Debug, PartialEq, Eq, Structural)]
pub enum DecodeError {
    /// The log has more topics than the event has parameters.
    TooManyTopics,
    /// The data is too short for the parameters that are not indexed.
    PayloadTooShort,
}

/// Number of bytes in a word.
pub const WORD: usize = 32;

/// Number of parameters of a registration: the asset id and the owner.
pub const REGISTRATION_PARAMS: usize = 2;

/// Number of parameters of a transfer: the asset id, the old and the new
/// owner.
pub const TRANSFER_PARAMS: usize = 3;

/// Parameter number `j` of a log: a topic behind the signature topic where
/// it is indexed, else a word of the data.
pub open spec fn log_word(log: RawLog, j: int) -> Seq<u8> {
    let indexed = log.topics@.len() - 1;
    if j < indexed {
        log.topics@[j + 1]@
    } else {
        log.data@.subrange(WORD * (j - indexed), WORD * (j - indexed) + WORD)
    }
}

/// The address that a word holds.
pub open spec fn word_address(word: Seq<u8>) -> Seq<u8> {
    word.subrange(12, 32)
}

/// Whether a log holds `params` parameters: no more topics than that, and a
/// word of data for each parameter that is not a topic.
pub open spec fn payload_fault(log: RawLog, params: int) -> Option<DecodeError> {
    let indexed = log.topics@.len() - 1;
    if indexed > params {
        Some(DecodeError::TooManyTopics)
    } else if log.data@.len() < WORD * (params - indexed) {
        Some(DecodeError::PayloadTooShort)
    } else {
        None
    }
}

/// `event` is what a log of a registration says.
pub open spec fn reads_as_registration(log: RawLog, event: AssetRegistered) -> bool {
    &&& event.asset_id@ == log_word(log, 0)
    &&& event.owner@ == word_address(log_word(log, 1))
    &&& event.txn_hash == log.transaction_hash
}

/// `event` is what a log of a transfer says.
pub open spec fn reads_as_transfer(log: RawLog, event: OwnershipTransferred) -> bool {
    &&& event.asset_id@ == log_word(log, 0)
    &&& event.old_owner@ == word_address(log_word(log, 1))
    &&& event.new_owner@ == word_address(log_word(log, 2))
    &&& event.txn_hash == log.transaction_hash
}

/// Whether the first topic of a log is `topic`.
pub open spec fn has_signature(log: RawLog, topic: [u8; 32]) -> bool {
    log.topics@.len() > 0 && log.topics@[0]@ == topic@
}

/// The kinds of log that the decoder tells apart.
#[derive(Clone, Copy, Debug, PartialEq, Eq, Structural)]
pub enum LogKind {
    /// A registration whose payload holds its parameters.
    Registration,
    /// A transfer whose payload holds its parameters.
    Transfer,
    /// A log of a known signature with a faulty payload.
    Faulty,
    /// A log of another signature, or without one.
    Unrelated,
}

/// What a log is under the given topics.
pub open spec fn kind_of(log: RawLog, topics: EventTopics) -> LogKind {
    if has_signature(log, topics.asset_registered) {
        if payload_fault(log, REGISTRATION_PARAMS as int) is Some {
            LogKind::Faulty
        } else {
            LogKind::Registration
        }
    } else if has_signature(log, topics.ownership_transferred) {
        if payload_fault(log, TRANSFER_PARAMS as int) is Some {
            LogKind::Faulty
        } else {
            LogKind::Transfer
        }
    } else {
        LogKind::Unrelated
    }
}

/// `result` is the reading of `log` under `topics`: a log of neither
/// signature is no event, a log of a known signature is that event or the
/// fault of its payload. Where both topics are the same, a log is taken for
/// a registration.
pub open spec fn is_reading(
    log: RawLog,
    topics: EventTopics,
    result: Result<Option<LedgerEvent>, DecodeError>,
) -> bool {
    if has_signature(log, topics.asset_registered) {
        match payload_fault(log, REGISTRATION_PARAMS as int) {
            Some(fault) => result == Err::<Option<LedgerEvent>, DecodeError>(fault),
            None => result matches Ok(Some(LedgerEvent::AssetRegistered(event)))
                && reads_as_registration(log, event),
        }
    } else if has_signature(log, topics.ownership_transferred) {
        match payload_fault(log, TRANSFER_PARAMS as int) {
            Some(fault) => result == Err::<Option<LedgerEvent>, DecodeError>(fault),
            None => result matches Ok(Some(LedgerEvent::OwnershipTransferred(event)))
                && reads_as_transfer(log, event),
        }
    } else {
        result == Ok::<Option<LedgerEvent>, DecodeError>(None)
    }
}

/// The topics of the ledger's two events, from their signatures.
pub fn ledger_topics() -> (topics: EventTopics)
    ensures
        topics.asset_registered@ == keccak256_digest("AssetRegistered(bytes32,address)".spec_bytes()),
        topics.ownership_transferred@ == keccak256_digest(
            "OwnershipTransferred(bytes32,address,address)".spec_bytes(),
        ),
{
    EventTopics {
        asset_registered: signature_topic("AssetRegistered(bytes32,address)"),
        ownership_transferred: signature_topic("OwnershipTransferred(bytes32,address,address)"),
    }
}

/// Whether two words hold the same bytes.
fn same_word(a: &[u8; 32], b: &[u8; 32]) -> (same: bool)
    ensures
        same == (a@ == b@),
{
    let mut i: usize = 0;
    while i < 32
        invariant
            i <= 32,
            forall|k: int| 0 <= k < i ==> a@[k] == b@[k],
        decreases 32 - i,
    {
        if a[i] != b[i] {
            return false;
        }
        i += 1;
    }
    assert(a@ =~= b@);
    true
}

/// Parameter number `j` of a log.
fn read_word(log: &RawLog, j: usize) -> (word: [u8; 32])
    requires
        log.topics@.len() > 0,
        j < TRANSFER_PARAMS,
        j >= log.topics@.len() - 1 ==> log.data@.len() >= WORD * (j - (log.topics@.len() - 1)) + WORD,
    ensures
        word@ == log_word(*log, j as int),
{
    let indexed: usize = log.topics.len() - 1;
    if j < indexed {
        log.topics[j + 1]
    } else {
        let start: usize = WORD * (j - indexed);
        let held: usize = log.data.len();
        let mut word: [u8; 32] = [0u8; 32];
        let mut i: usize = 0;
        while i < 32
            invariant
                i <= 32,
                start + 32 <= held == log.data@.len(),
                forall|k: int| 0 <= k < i ==> word@[k] == log.data@[start + k],
            decreases 32 - i,
        {
            word.set(i, log.data[start + i]);
            i += 1;
        }
        assert(word@ =~= log.data@.subrange(start as int, start + WORD));
        word
    }
}

/// The address in the last 20 bytes of a word.
fn read_address(word: &[u8; 32]) -> (address: [u8; 20])
    ensures
        address@ == word_address(word@),
{
    let mut address: [u8; 20] = [0u8; 20];
    let mut i: usize = 0;
    while i < 20
        invariant
            i <= 20,
            forall|k: int| 0 <= k < i ==> address@[k] == word@[12 + k],
        decreases 20 - i,
    {
        address.set(i, word[12 + i]);
        i += 1;
    }
    assert(address@ =~= word@.subrange(12, 32));
    address
}

/// Checks that a log holds `params` parameters.
fn check_payload(log: &RawLog, params: usize) -> (fault: Option<DecodeError>)
    requires
        log.topics@.len() > 0,
        params <= TRANSFER_PARAMS,
    ensures
        fault == payload_fault(*log, params as int),
{
    let indexed: usize = log.topics.len() - 1;
    if indexed > params {
        Some(DecodeError::TooManyTopics)
    } else if log.data.len() < WORD * (params - indexed) {
        Some(DecodeError::PayloadTooShort)
    } else {
        None
    }
}

/// Reads one log under the given topics: `Ok(None)` for a log of neither
/// signature, the event for a log of a known signature, and the fault where
/// its payload does not hold the event's parameters.
pub fn decode_log(log: &RawLog, topics: &EventTopics) -> (result: Result<
    Option<LedgerEvent>,
    DecodeError,
>)
    ensures
        is_reading(*log, *topics, result),
{
    if log.topics.len() == 0 {
        return Ok(None);
    }
    if same_word(&log.topics[0], &topics.asset_registered) {
        if let Some(fault) = check_payload(log, REGISTRATION_PARAMS) {
            return Err(fault);
        }
        let asset_id = read_word(log, 0);
        let owner = read_address(&read_word(log, 1));
        Ok(
            Some(
                LedgerEvent::AssetRegistered(
                    AssetRegistered { asset_id, owner, txn_hash: log.transaction_hash },
                ),
            ),
        )
    } else if same_word(&log.topics[0], &topics.ownership_transferred) {
        if let Some(fault) = check_payload(log, TRANSFER_PARAMS) {
            return Err(fault);
        }
        let asset_id = read_word(log, 0);
        let old_owner = read_address(&read_word(log, 1));
        let new_owner = read_address(&read_word(log, 2));
        Ok(
            Some(
                LedgerEvent::OwnershipTransferred(
                    OwnershipTransferred {
                        asset_id,
                        old_owner,
                        new_owner,
                        txn_hash: log.transaction_hash,
                    },
                ),
            ),
        )
    } else {
        Ok(None)
    }
}

/// Reads one log of the ledger.
pub fn decode(log: &RawLog) -> (result: Result<Option<LedgerEvent>, DecodeError>)
    ensures
        exists|topics: EventTopics|
            topics.asset_registered@ == keccak256_digest(
                "AssetRegistered(bytes32,address)".spec_bytes(),
            ) && topics.ownership_transferred@ == keccak256_digest(
                "OwnershipTransferred(bytes32,address,address)".spec_bytes(),
            ) && #[trigger] is_reading(*log, topics, result),
{
    let topics = ledger_topics();
    decode_log(log, &topics)
}

} // verus!
