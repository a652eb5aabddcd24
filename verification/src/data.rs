//! The errors with which the ledger rejects an operation.

use vstd::prelude::*;

verus! {

/// Why an operation was rejected. A rejected operation changes nothing.
#[derive(Debug, PartialEq, Eq)]
pub enum PSP22Error {
    /// The account does not hold enough to complete the operation.
    InsufficientBalance,
    /// The caller's allowance does not cover the operation.
    InsufficientAllowance,
    /// The operation would exceed the largest amount.
    Overflow,
    /// A host-specific error with a message. No ledger operation raises it.
    Custom(String),
}

} // verus!
