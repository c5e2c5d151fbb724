//! Verified core of a QR-marker spatial tracker.
//!
//! The tracker drives an asynchronous spatial-tracking runtime: it bootstraps
//! an opaque tracking context, throttles discovery scans, validates the
//! entities each snapshot query reports, decodes their label payloads once,
//! filters them against an optional allow-set, and assembles `(label, pose)`
//! pairs for the caller, destroying the transient snapshot every cycle.
//!
//! All decisions live here and are verified. The runtime calls themselves
//! (futures, snapshots, buffer reads) are performed by an unverified driver
//! that feeds their plain-value results into these functions.

use vstd::prelude::*;

pub mod cache;
pub mod cycle;
pub mod decode;
pub mod discovery;
pub mod entity;
pub mod filter;
pub mod pose;
pub mod tracker;

verus! {

/// Largest number of markers one query can report. The runtime's query
/// buffers are fixed at this capacity, which cannot change after the first
/// query call, so they are allocated once and reused.
pub const MAX_MARKERS_COUNT: usize = 32;

/// Minimum interval, in nanoseconds, between two discovery requests.
pub const DISCOVERY_TIMEOUT_NS: u64 = 1_000_000_000;

/// Errors surfaced by the tracker.
#[derive(Clone, Copy, Debug, PartialEq, Eq, Structural)]
pub enum TrackerError {
    /// A required runtime extension was absent at construction.
    ExtensionUnsupported,
    /// A synchronous runtime call returned the given non-success code.
    RuntimeCallFailure(i64),
    /// A future completed with the given non-success result code.
    AsyncOperationFailure(i64),
    /// A label payload was not valid text.
    DecodeError,
}

} // verus!
