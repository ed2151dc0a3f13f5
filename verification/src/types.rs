//! Plain values shared by both engines.

use vstd::prelude::*;

verus! {

/// Largest number of items one batch call may carry.
pub const MAX_BATCH_SIZE: u32 = 100;

/// Highest fee rate that can be configured, in basis points (50%).
pub const MAX_FEE_RATE: i128 = 5000;

/// One hundred percent, in basis points.
pub const BASIS_POINTS: i128 = 10000;

/// Capacity of the circuit breaker's error log unless configured otherwise.
pub const MAX_ERROR_LOG_DEFAULT: u32 = 10;

/// Version number carried by every event payload.
pub const EVENT_VERSION: u32 = 2;

/// What an address names on the ledger.
#[derive(Clone, Copy, Debug, PartialEq, Eq, Structural, Hash)]
pub enum AddressKind {
    Account,
    Contract,
}

/// A ledger identity: its kind and its 256-bit payload in two halves.
///
/// The engines never look inside an address; they only compare two of them.
#[derive(Clone, Copy, Debug, PartialEq, Eq, Structural, Hash)]
pub struct Address {
    pub kind: AddressKind,
    pub hi: u128,
    pub lo: u128,
}

impl Address {
    /// The account whose payload is `hi` followed by `lo`.
    pub fn account(hi: u128, lo: u128) -> (a: Address)
        ensures
            a == (Address { kind: AddressKind::Account, hi, lo }),
    {
        Address { kind: AddressKind::Account, hi, lo }
    }

    /// The contract whose payload is `hi` followed by `lo`.
    pub fn contract(hi: u128, lo: u128) -> (a: Address)
        ensures
            a == (Address { kind: AddressKind::Contract, hi, lo }),
    {
        Address { kind: AddressKind::Contract, hi, lo }
    }
}

/// A request to the token service: move `amount` from `from` to `to`.
#[derive(Clone, Copy, Debug, PartialEq, Eq, Structural)]
pub struct Transfer {
    pub from: Address,
    pub to: Address,
    pub amount: i128,
}

} // verus!
