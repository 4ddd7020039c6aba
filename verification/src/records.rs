//! The two persistent record kinds, and the external-holding entries the
//! platform funds on a caller's behalf.

use vstd::prelude::*;
use crate::identity::Identity;
use crate::keyed::Keyed;

verus! {

/// Upper bound on the number of friend entries one account may hold.
pub const MAX_FRIENDS: usize = 100;

/// A balance-holding record filed under its owner's identity.
pub struct CashAccount {
    /// The identity the record was created for; immutable after creation.
    pub owner: Identity,
    /// Linked identities, insertion order preserved, duplicates allowed,
    /// at most `MAX_FRIENDS` entries.
    pub friends: Vec<Identity>,
    /// Sequence tag for requests this owner has created as recipient;
    /// starts at zero and only ever increases.
    pub pending_request_counter: u64,
    /// Value held by the account; never negative.
    pub balance: u64,
}

impl CashAccount {
    /// The record is within its structural bounds.
    pub open spec fn wf(self) -> bool {
        self.friends@.len() <= MAX_FRIENDS
    }
}

impl Keyed for CashAccount {
    /// A cash account is filed under its owner.
    open spec fn key(self) -> Identity {
        self.owner
    }
}

/// A one-shot payment solicitation filed under its recipient's identity.
#[derive(Clone, Copy, PartialEq, Eq, Structural, Debug)]
pub struct PendingRequest {
    /// The identity that will pay if the request is accepted.
    pub sender: Identity,
    /// The identity that will receive; equal to the deriving owner.
    pub recipient: Identity,
    /// The requested value.
    pub amount: u64,
    /// Snapshot of the recipient's counter at creation time.
    pub pending_request_count: u64,
}

impl Keyed for PendingRequest {
    /// A pending request is filed under its recipient.
    open spec fn key(self) -> Identity {
        self.recipient
    }
}

/// Value a caller owns outside of any cash account: the source of deposits
/// and the sink of withdrawals. The platform manages this side ledger.
#[derive(Clone, Copy, PartialEq, Eq, Structural, Debug)]
pub struct ExternalHolding {
    /// The identity the holding belongs to.
    pub owner: Identity,
    /// The value held outside of any cash account.
    pub amount: u64,
}

impl Keyed for ExternalHolding {
    /// A holding is filed under the identity it belongs to.
    open spec fn key(self) -> Identity {
        self.owner
    }
}

} // verus!
