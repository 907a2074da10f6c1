//! The taxonomy of failures: what may go wrong while the ledger is read and
//! the projection written, and what is done about each.
//!
//! The search for the ledger's marker in a message is std's `str::contains`,
//! taken on trust.

use crate::decoder::DecodeError;
use crate::sync::{LedgerErrorKind, SyncInput};
use vstd::prelude::*;

verus! {

/// A failure that a wait may cure.
#[derive(Clone, Copy, Debug, PartialEq, Eq, Structural)]
pub enum TransientKind {
    /// A ledger call ran into its timeout.
    Timeout,
    /// The provider limits the rate of calls.
    RateLimited,
    /// The subscription dropped.
    StreamDropped,
}

/// A failure that the order of delivery explains.
#[derive(Clone, Copy, Debug, PartialEq, Eq, Structural)]
pub enum DomainKind {
    /// The ledger does not know the asset whose detail was asked for.
    AssetNotFound,
    /// A transfer names an asset that is not registered yet.
    AssetNotYetRegistered,
}

/// A failure that ends the work.
#[derive(Clone, Copy, Debug, PartialEq, Eq, Structural)]
pub enum FatalKind {
    /// The persistent store cannot be reached.
    StoreUnreachable,
    /// The configuration or the credentials are refused.
    Configuration,
}

/// Everything that may go wrong.
#[derive(Clone, Copy, Debug, PartialEq, Eq, Structural)]
pub enum Failure {
    Transient(TransientKind),
    /// The payload of an event is malformed.
    Decode(DecodeError),
    Domain(DomainKind),
    /// The dedup key of a transfer is known already.
    Integrity,
    Fatal(FatalKind),
}

/// What is done about a failure.
#[derive(Clone, Copy, Debug, PartialEq, Eq, Structural)]
pub enum Disposition {
    /// Wait, then try again; the caller of the orchestrator never sees it.
    Retry,
    /// Skip the one event and go on with the next.
    Skip,
    /// Go on; no retry.
    Tolerate,
    /// Nothing went wrong: the event was applied before.
    Success,
    /// Hand the failure to the owner of the process.
    Surface,
}

/// What is done about each failure: transient ones are retried, a malformed
/// event is skipped, domain failures are tolerated, a known dedup key is a
/// success without effect, and fatal ones surface.
pub open spec fn disposition_of(failure: Failure) -> Disposition {
    match failure {
        Failure::Transient(_) => Disposition::Retry,
        Failure::Decode(_) => Disposition::Skip,
        Failure::Domain(_) => Disposition::Tolerate,
        Failure::Integrity => Disposition::Success,
        Failure::Fatal(_) => Disposition::Surface,
    }
}

/// What the orchestrator is told of a failure: nothing, unless the failure
/// is retried or surfaces.
pub open spec fn report_of(failure: Failure) -> Option<SyncInput> {
    match failure {
        Failure::Transient(TransientKind::StreamDropped) => Some(SyncInput::StreamClosed),
        Failure::Transient(_) => Some(SyncInput::LedgerFailed(LedgerErrorKind::Transient)),
        Failure::Fatal(FatalKind::StoreUnreachable) => Some(SyncInput::StoreFailed),
        Failure::Fatal(FatalKind::Configuration) => Some(
            SyncInput::LedgerFailed(LedgerErrorKind::Permanent),
        ),
        _ => None,
    }
}

/// What is done about a failure.
pub fn disposition(failure: Failure) -> (d: Disposition)
    ensures
        d == disposition_of(failure),
{
    match failure {
        Failure::Transient(_) => Disposition::Retry,
        Failure::Decode(_) => Disposition::Skip,
        Failure::Domain(_) => Disposition::Tolerate,
        Failure::Integrity => Disposition::Success,
        Failure::Fatal(_) => Disposition::Surface,
    }
}

/// What the orchestrator is told of a failure.
pub fn report(failure: Failure) -> (input: Option<SyncInput>)
    ensures
        input == report_of(failure),
        input is Some <==> disposition_of(failure) == Disposition::Retry || disposition_of(failure)
            == Disposition::Surface,
{
    match failure {
        Failure::Transient(TransientKind::StreamDropped) => Some(SyncInput::StreamClosed),
        Failure::Transient(_) => Some(SyncInput::LedgerFailed(LedgerErrorKind::Transient)),
        Failure::Fatal(FatalKind::StoreUnreachable) => Some(SyncInput::StoreFailed),
        Failure::Fatal(FatalKind::Configuration) => Some(
            SyncInput::LedgerFailed(LedgerErrorKind::Permanent),
        ),
        _ => None,
    }
}

/// Whether `needle` stands somewhere in `text`.
pub open spec fn text_contains(text: Seq<char>, needle: Seq<char>) -> bool {
    exists|i: int|
        0 <= i && i + needle.len() <= text.len() && #[trigger] text.subrange(
            i,
            i + needle.len(),
        ) == needle
}

/// Calls `str::contains` of std with a text as the pattern, which tells
/// whether the pattern matches a part of the text.
#[verifier::external_body]
pub(crate) fn str_contains(text: &str, needle: &str) -> (found: bool)
    ensures
        found == text_contains(text@, needle@),
{
    text.contains(needle)
}

/// The word by which the ledger says that it does not know an asset.
pub open spec fn unknown_asset_marker() -> Seq<char> {
    "ASSET_DOES_NOT_EXIST"@
}

/// Reads the message of a failed detail call: the ledger says that it does
/// not know the asset where the message holds its marker for that; any other
/// message is not told apart here.
pub fn detail_failure(message: &str) -> (failure: Option<Failure>)
    ensures
        failure == if text_contains(message@, unknown_asset_marker()) {
            Some(Failure::Domain(DomainKind::AssetNotFound))
        } else {
            None::<Failure>
        },
{
    if str_contains(message, "ASSET_DOES_NOT_EXIST") {
        Some(Failure::Domain(DomainKind::AssetNotFound))
    } else {
        None
    }
}

} // verus!
