//! Identities: the unique references under which accounts and requests are
//! filed.

use vstd::prelude::*;

verus! {

/// A caller's unique reference. The platform hands the core an
/// already-authenticated identity; the core uses it both as the owner of
/// records and as the derivation input for their addresses.
#[derive(Clone, Copy, PartialEq, Eq, Structural, Debug)]
pub struct Identity {
    pub value: u64,
}

impl Identity {
    /// Builds the identity with the given numeric value.
    pub fn new(value: u64) -> (r: Identity)
        ensures
            r.value == value,
    {
        Identity { value }
    }
}

} // verus!
