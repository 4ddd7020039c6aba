//! A minimal on-ledger accounting engine: per-identity cash accounts with
//! balances and friend lists, plus a two-phase payment-request workflow
//! (request, then accept or decline) on top of direct value transfers.
//!
//! The surrounding platform authenticates callers and serializes operations;
//! this crate holds the verified core: the account directory, the request
//! directory, and the invariants governing every balance mutation.

pub mod errors;
pub mod identity;
pub mod keyed;
pub mod laws;
pub mod ledger;
pub mod records;
pub mod sums;
