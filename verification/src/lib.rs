//! A fungible-token ledger: balances, allowances and total supply, with
//! transfer, delegated transfer, approval management, mint and burn.
//!
//! The ledger never reads ambient state. The caller's identity is a parameter
//! of every mutating operation, and the notifications that an operation owes
//! are returned to the host, which publishes them.

pub mod account;
pub mod amount;
pub mod table;
pub mod data;
pub mod events;
pub mod ledger;

pub use account::{AccountId, AllowanceKey};
pub use amount::Amount;
pub use data::PSP22Error;
pub use events::{Approval, Event, Transfer};
pub use ledger::PspCoin;
