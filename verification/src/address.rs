//! Account identity and call-context values.
//!
//! An account is an opaque fixed-size identifier: the registry only ever
//! compares accounts for equality, so it is modeled as a single integer
//! wide enough for any concrete address encoding the environment may use.

use vstd::prelude::*;

verus! {

/// An account: the sole principal type of the registry.
#[derive(Clone, Copy, Debug, PartialEq, Eq, Structural)]
pub struct Address {
    /// The opaque identifier of the account.
    pub id: u128,
}

impl Address {
    /// Builds the address with the given identifier.
    pub fn new(id: u128) -> (r: Address)
        ensures
            r.id == id,
    {
        Address { id }
    }
}

/// What the environment hands to every inbound request: who calls, and the
/// current logical time in milliseconds since the epoch.
#[derive(Clone, Copy, Debug, PartialEq, Eq, Structural)]
pub struct CallContext {
    /// The account invoking the operation.
    pub sender: Address,
    /// Current time in milliseconds since the Unix epoch.
    pub block_production_time: i64,
}

impl CallContext {
    /// Builds a call context from its two components.
    pub fn new(sender: Address, block_production_time: i64) -> (r: CallContext)
        ensures
            r.sender == sender,
            r.block_production_time == block_production_time,
    {
        CallContext { sender, block_production_time }
    }
}

/// The outcome report the external payment ledger delivers for a previously
/// issued payment request.
#[derive(Clone, Copy, Debug, PartialEq, Eq, Structural)]
pub struct CallbackContext {
    /// Whether the external transfer settled successfully.
    pub success: bool,
}

} // verus!
