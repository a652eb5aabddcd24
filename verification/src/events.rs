//! The notifications that ledger operations hand to the host for publishing.

use crate::account::AccountId;
use crate::amount::Amount;
use vstd::prelude::*;

verus! {

/// Tokens moved. A missing `from` denotes a mint, a missing `to` a burn.
#[derive(Clone, Copy, Debug, PartialEq, Eq)]
pub struct Transfer {
    pub from: Option<AccountId>,
    pub to: Option<AccountId>,
    pub value: Amount,
}

/// An allowance was set. `value` is the new allowance, not the change.
#[derive(Clone, Copy, Debug, PartialEq, Eq)]
pub struct Approval {
    pub owner: AccountId,
    pub spender: AccountId,
    pub value: Amount,
}

/// A notification of either shape.
#[derive(Clone, Copy, Debug, PartialEq, Eq)]
pub enum Event {
    Transfer(Transfer),
    Approval(Approval),
}

/// Whether `e` tells of `value` tokens moving from `from` to `to`.
pub open spec fn is_transfer(e: Event, from: Option<AccountId>, to: Option<AccountId>, value: nat) -> bool {
    e matches Event::Transfer(t) && t.from == from && t.to == to && t.value@ == value
}

/// Whether `e` tells of `owner` now allowing `spender` the amount `value`.
pub open spec fn is_approval(e: Event, owner: AccountId, spender: AccountId, value: nat) -> bool {
    e matches Event::Approval(a) && a.owner == owner && a.spender == spender && a.value@ == value
}

} // verus!
