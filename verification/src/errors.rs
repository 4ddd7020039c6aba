//! The error taxonomy: every precondition violation surfaces as one of these
//! kinds, and no operation leaves a partial mutation behind when it fails.

use vstd::prelude::*;

verus! {

/// Typed failures returned by the ledger operations.
#[derive(Clone, Copy, PartialEq, Eq, Structural, Debug)]
pub enum ErrorCode {
    /// The provided amount must be greater than zero.
    InvalidAmount,
    /// Insufficient funds to perform the transfer.
    InsufficientFunds,
    /// A create operation targets an already-occupied derived address.
    AlreadyExists,
    /// The operation targets an address with no record.
    NotFound,
    /// The friend list is at capacity.
    ListFull,
    /// The caller lacks authority over the record it is mutating. The
    /// platform authenticates callers before the core runs, and the
    /// directories file every record under its own identity, so
    /// address-to-owner consistency holds by invariant and no core
    /// operation reports this kind; it completes the shared taxonomy.
    InvalidSigner,
}

} // verus!
