//! The ledger: total supply, balances and allowances, and the operations
//! that change them.
//!
//! Every mutating operation acts for a caller, whose identity the host passes
//! in. An operation either succeeds, and returns the notifications that the
//! host is to publish, or is rejected with one error and changes nothing.

use crate::account::{AccountId, AllowanceKey};
use crate::amount::{lemma_amount_bounded, max_amount, Amount};
use crate::data::PSP22Error;
use crate::events::{is_approval, is_transfer, Approval, Event, Transfer};
use crate::table::{Key, Table};
use vstd::prelude::*;

verus! {

/// What a ledger holds, as mathematics. Both maps are total: an account
/// without a stored balance maps to zero, and so does a pair of accounts
/// without a stored allowance.
pub struct LedgerState {
    pub total_supply: nat,
    pub balances: Map<AccountId, nat>,
    pub allowances: Map<(AccountId, AccountId), nat>,
    pub name: Seq<char>,
    pub symbol: Seq<char>,
    pub decimals: u8,
}

impl LedgerState {
    /// The state of a new ledger: no supply, no balance, no allowance.
    pub open spec fn empty() -> LedgerState {
        LedgerState {
            total_supply: 0,
            balances: Map::total(|a: AccountId| 0nat),
            allowances: Map::total(|p: (AccountId, AccountId)| 0nat),
            name: "MemeCoin"@,
            symbol: "MEME"@,
            decimals: 18,
        }
    }

    /// The state after `value` has moved from `from` to `to`.
    pub open spec fn after_move(self, from: AccountId, to: AccountId, value: nat) -> LedgerState {
        LedgerState {
            balances: self.balances.insert(from, (self.balances[from] - value) as nat).insert(
                to,
                self.balances[to] + value,
            ),
            ..self
        }
    }

    /// The state after the allowance of `spender` on `owner` was set to `value`.
    pub open spec fn after_allow(self, owner: AccountId, spender: AccountId, value: nat) -> LedgerState {
        LedgerState { allowances: self.allowances.insert((owner, spender), value), ..self }
    }

    /// The state after `owner` has approved `spender` for `value`: an owner
    /// cannot approve itself, and otherwise `value` is the new allowance.
    pub open spec fn approved(self, owner: AccountId, spender: AccountId, value: nat) -> LedgerState {
        if owner == spender {
            self
        } else {
            self.after_allow(owner, spender, value)
        }
    }

    /// The state after `value` new tokens were given to `to`.
    pub open spec fn after_mint(self, to: AccountId, value: nat) -> LedgerState {
        LedgerState {
            total_supply: self.total_supply + value,
            balances: self.balances.insert(to, self.balances[to] + value),
            ..self
        }
    }

    /// The state after `value` tokens of `from` were destroyed.
    pub open spec fn after_burn(self, from: AccountId, value: nat) -> LedgerState {
        LedgerState {
            total_supply: (self.total_supply - value) as nat,
            balances: self.balances.insert(from, (self.balances[from] - value) as nat),
            ..self
        }
    }
}

/// The sum of the balances, in `balances`, of the accounts listed in
/// `accounts`.
pub open spec fn listed_balances(balances: Map<AccountId, nat>, accounts: Seq<AccountId>) -> nat
    decreases accounts.len(),
{
    if accounts.len() == 0 {
        0
    } else {
        listed_balances(balances, accounts.drop_last()) + balances[accounts.last()]
    }
}

/// Whether moving `value` from `from` to `to` changes nothing by definition.
pub open spec fn move_is_noop(from: AccountId, to: AccountId, value: nat) -> bool {
    from == to || value == 0
}

/// The error, if any, with which a move of `value` from `from` to `to` is
/// rejected in state `s`.
pub open spec fn move_error(s: LedgerState, from: AccountId, to: AccountId, value: nat) -> Option<
    PSP22Error,
> {
    if move_is_noop(from, to, value) {
        None
    } else if s.balances[from] < value {
        Some(PSP22Error::InsufficientBalance)
    } else if s.balances[to] + value > max_amount() {
        Some(PSP22Error::Overflow)
    } else {
        None
    }
}

/// The error, if any, with which `caller` is refused a move of `value` from
/// `from` to `to` in state `s`. A lacking allowance is reported before a
/// lacking balance.
pub open spec fn delegated_move_error(
    s: LedgerState,
    caller: AccountId,
    from: AccountId,
    to: AccountId,
    value: nat,
) -> Option<PSP22Error> {
    if move_is_noop(from, to, value) {
        None
    } else if caller != from && s.allowances[(from, caller)] < value {
        Some(PSP22Error::InsufficientAllowance)
    } else {
        move_error(s, from, to, value)
    }
}

/// The error, if any, with which minting `value` to `to` is rejected in
/// state `s`.
pub open spec fn mint_error(s: LedgerState, to: AccountId, value: nat) -> Option<PSP22Error> {
    if value != 0 && (s.balances[to] + value > max_amount() || s.total_supply + value
        > max_amount()) {
        Some(PSP22Error::Overflow)
    } else {
        None
    }
}

/// Where a caller other than `from` lacks the allowance for a move, the move
/// is rejected for that reason, whatever `from` holds.
pub proof fn lemma_allowance_checked_first(
    s: LedgerState,
    caller: AccountId,
    from: AccountId,
    to: AccountId,
    value: nat,
)
    requires
        !move_is_noop(from, to, value),
        caller != from,
        s.allowances[(from, caller)] < value,
    ensures
        delegated_move_error(s, caller, from, to, value) == Some(
            PSP22Error::InsufficientAllowance,
        ),
{
}

/// Approving a spender twice leaves what the second approval alone would
/// leave: the later value replaces the earlier one, and is the allowance.
pub proof fn lemma_approve_overwrites(
    s: LedgerState,
    owner: AccountId,
    spender: AccountId,
    first: nat,
    second: nat,
)
    requires
        owner != spender,
    ensures
        s.approved(owner, spender, first).approved(owner, spender, second) == s.approved(
            owner,
            spender,
            second,
        ),
        s.approved(owner, spender, first).approved(owner, spender, second).allowances[(
            owner,
            spender,
        )] == second,
{
    let twice = s.approved(owner, spender, first).approved(owner, spender, second);
    let once = s.approved(owner, spender, second);
    assert(twice.allowances =~= once.allowances);
}

/// A move changes no allowance and not the total supply, and takes from one
/// balance exactly what it adds to the other.
pub proof fn lemma_move_conserves(s: LedgerState, from: AccountId, to: AccountId, value: nat)
    requires
        from != to,
        value <= s.balances[from],
    ensures
        s.after_move(from, to, value).total_supply == s.total_supply,
        s.after_move(from, to, value).allowances == s.allowances,
        s.after_move(from, to, value).balances[from] + s.after_move(from, to, value).balances[to]
            == s.balances[from] + s.balances[to],
        forall|other: AccountId|
            other != from && other != to ==> s.after_move(from, to, value).balances[other]
                == s.balances[other],
{
}

/// The fungible-token ledger.
pub struct PspCoin {
    total_supply: Amount,
    balances: Table<AccountId>,
    allowances: Table<AllowanceKey>,
    metadata: (String, String, u8),
}

impl View for PspCoin {
    type V = LedgerState;

    closed spec fn view(&self) -> LedgerState {
        LedgerState {
            total_supply: self.total_supply@,
            balances: Map::total(|a: AccountId| self.balances.value_of(a)),
            allowances: Map::total(
                |p: (AccountId, AccountId)|
                    self.allowances.value_of(AllowanceKey { owner: p.0, spender: p.1 }),
            ),
            name: self.metadata.0@,
            symbol: self.metadata.1@,
            decimals: self.metadata.2,
        }
    }
}

impl PspCoin {
    /// The ledger's invariant: each account and each pair of owner and
    /// spender is stored at most once, and the stored balances add up to the
    /// total supply.
    pub closed spec fn wf(&self) -> bool {
        &&& self.balances.wf()
        &&& self.allowances.wf()
        &&& self.balances.total() == self.total_supply@
    }

    /// The sum of the balances of all accounts that have a stored balance.
    /// All other accounts hold zero.
    pub closed spec fn balance_sum(&self) -> nat {
        self.balances.total()
    }

    /// In every valid ledger the balances add up to the total supply.
    pub proof fn lemma_supply_is_balance_sum(&self)
        requires
            self.wf(),
        ensures
            self.balance_sum() == self@.total_supply,
    {
    }

    /// In every valid ledger the balances add up to the total supply: listed
    /// once each, the accounts that hold anything hold the total supply
    /// between them, whichever accounts of balance zero the list also names.
    pub proof fn lemma_balances_add_up_to_supply(&self, accounts: Seq<AccountId>)
        requires
            self.wf(),
            accounts.no_duplicates(),
            forall|a: AccountId| self@.balances[a] != 0 ==> accounts.contains(a),
        ensures
            listed_balances(self@.balances, accounts) == self@.total_supply,
            listed_balances(self@.balances, accounts) == self.balance_sum(),
    {
        self.lemma_listed_balances_unfold(accounts);
        self.balances.lemma_listed_total_is_total(accounts);
    }

    proof fn lemma_listed_balances_unfold(&self, accounts: Seq<AccountId>)
        ensures
            listed_balances(self@.balances, accounts) == self.balances.listed_total(accounts),
        decreases accounts.len(),
    {
        if accounts.len() > 0 {
            self.lemma_listed_balances_unfold(accounts.drop_last());
        }
    }

    /// In every valid ledger no account holds more than the total supply.
    pub proof fn lemma_balance_within_supply(&self, account: AccountId)
        requires
            self.wf(),
        ensures
            self@.balances[account] <= self@.total_supply,
    {
        self.balances.lemma_value_within_total(account);
    }

    /// In every valid ledger any two accounts together hold no more than the
    /// total supply.
    pub proof fn lemma_two_balances_within_supply(&self, a: AccountId, b: AccountId)
        requires
            self.wf(),
            a != b,
        ensures
            self@.balances[a] + self@.balances[b] <= self@.total_supply,
    {
        self.balances.lemma_pair_within_total(a, b);
    }

    /// In a valid ledger no move is rejected for overflow: what two accounts
    /// hold together is within the total supply, which is an amount.
    pub proof fn lemma_move_never_overflows(&self, from: AccountId, to: AccountId, value: nat)
        requires
            self.wf(),
        ensures
            move_error(self@, from, to, value) != Some(PSP22Error::Overflow),
    {
        if from != to {
            self.balances.lemma_pair_within_total(from, to);
            lemma_amount_bounded(self.total_supply);
        }
    }

    /// A ledger with no supply.
    pub fn new() -> (ledger: PspCoin)
        ensures
            ledger.wf(),
            ledger@ == LedgerState::empty(),
    {
        let ledger = PspCoin {
            total_supply: Amount::zero(),
            balances: Table::new(),
            allowances: Table::new(),
            metadata: ("MemeCoin".to_owned(), "MEME".to_owned(), 18),
        };
        proof {
            assert(ledger@.balances =~= LedgerState::empty().balances);
            assert(ledger@.allowances =~= LedgerState::empty().allowances);
        }
        ledger
    }

    /// A ledger whose whole supply, `total_supply`, is held by `caller`.
    pub fn new_with_supply(caller: AccountId, total_supply: Amount) -> (ledger: PspCoin)
        ensures
            ledger.wf(),
            ledger@ == LedgerState::empty().after_mint(caller, total_supply@),
    {
        let mut balances: Table<AccountId> = Table::new();
        balances.insert(caller, total_supply);
        let ledger = PspCoin {
            total_supply,
            balances,
            allowances: Table::new(),
            metadata: ("MemeCoin".to_owned(), "MEME".to_owned(), 18),
        };
        proof {
            let target = LedgerState::empty().after_mint(caller, total_supply@);
            assert(ledger@.balances =~= target.balances);
            assert(ledger@.allowances =~= target.allowances);
        }
        ledger
    }

    /// The total supply.
    pub fn total_supply(&self) -> (r: Amount)
        ensures
            r@ == self@.total_supply,
    {
        self.total_supply
    }

    /// The balance of `owner`: zero where none is stored.
    pub fn balance_of(&self, owner: AccountId) -> (r: Amount)
        requires
            self.wf(),
        ensures
            r@ == self@.balances[owner],
    {
        match self.balances.get(&owner) {
            Some(amount) => amount,
            None => Amount::zero(),
        }
    }

    /// What `spender` may still move out of the balance of `owner`: zero
    /// where nothing is stored.
    pub fn allowance(&self, owner: AccountId, spender: AccountId) -> (r: Amount)
        requires
            self.wf(),
        ensures
            r@ == self@.allowances[(owner, spender)],
    {
        match self.allowances.get(&AllowanceKey { owner, spender }) {
            Some(amount) => amount,
            None => Amount::zero(),
        }
    }

    /// The token's name.
    pub fn name(&self) -> (r: Option<String>)
        ensures
            r.is_some(),
            r.unwrap()@ == self@.name,
    {
        Some(self.metadata.0.clone())
    }

    /// The token's symbol.
    pub fn symbol(&self) -> (r: Option<String>)
        ensures
            r.is_some(),
            r.unwrap()@ == self@.symbol,
    {
        Some(self.metadata.1.clone())
    }

    /// The number of decimals in which the token is displayed.
    pub fn decimals(&self) -> (r: u8)
        ensures
            r == self@.decimals,
    {
        self.metadata.2
    }

    /// The two balances that a move of `value` from `from` to `to` leaves,
    /// or the error with which it is rejected.
    fn plan_move(&self, from: AccountId, to: AccountId, value: Amount) -> (r: Result<
        (Amount, Amount),
        PSP22Error,
    >)
        requires
            self.wf(),
            !move_is_noop(from, to, value@),
        ensures
            match move_error(self@, from, to, value@) {
                Some(e) => r == Err::<(Amount, Amount), PSP22Error>(e),
                None => r.is_ok() && r.unwrap().0@ == self@.balances[from] - value@
                    && r.unwrap().1@ == self@.balances[to] + value@,
            },
    {
        let from_balance = self.balance_of(from);
        if from_balance.less_than(&value) {
            return Err(PSP22Error::InsufficientBalance);
        }
        let to_balance = self.balance_of(to);
        match to_balance.checked_add(&value) {
            Some(new_to) => Ok((from_balance.minus(&value), new_to)),
            None => Err(PSP22Error::Overflow),
        }
    }

    /// Stores the two balances that `plan_move` has computed.
    fn commit_move(
        &mut self,
        from: AccountId,
        to: AccountId,
        value: Amount,
        new_from: Amount,
        new_to: Amount,
    ) -> (event: Event)
        requires
            old(self).wf(),
            from != to,
            value@ <= old(self)@.balances[from],
            new_from@ == old(self)@.balances[from] - value@,
            new_to@ == old(self)@.balances[to] + value@,
        ensures
            final(self).wf(),
            final(self)@ == old(self)@.after_move(from, to, value@),
            final(self).balance_sum() == old(self).balance_sum(),
            is_transfer(event, Some(from), Some(to), value@),
    {
        self.balances.insert(from, new_from);
        self.balances.insert(to, new_to);
        proof {
            assert(final(self)@.balances =~= old(self)@.after_move(from, to, value@).balances);
        }
        Event::Transfer(Transfer { from: Some(from), to: Some(to), value })
    }

    /// Stores `value` as the allowance of `spender` on `owner`.
    fn store_allowance(&mut self, owner: AccountId, spender: AccountId, value: Amount) -> (event:
        Event)
        requires
            old(self).wf(),
        ensures
            final(self).wf(),
            final(self)@ == old(self)@.after_allow(owner, spender, value@),
            final(self).balance_sum() == old(self).balance_sum(),
            is_approval(event, owner, spender, value@),
    {
        self.allowances.insert(AllowanceKey { owner, spender }, value);
        proof {
            let target = old(self)@.after_allow(owner, spender, value@);
            assert forall|p: (AccountId, AccountId)| final(self)@.allowances[p] == target.allowances[p] by {
                let k = AllowanceKey { owner: p.0, spender: p.1 };
                if p != (owner, spender) {
                    assert(k != AllowanceKey { owner, spender });
                }
            }
            assert(final(self)@.allowances =~= target.allowances);
        }
        Event::Approval(Approval { owner, spender, value })
    }

    /// Moves `value` from `from` to `to`. Nothing happens where the two are
    /// the same account or `value` is zero.
    fn transfer_from_to(&mut self, from: AccountId, to: AccountId, value: Amount) -> (r: Result<
        Vec<Event>,
        PSP22Error,
    >)
        requires
            old(self).wf(),
        ensures
            final(self).wf(),
            final(self).balance_sum() == old(self).balance_sum(),
            match move_error(old(self)@, from, to, value@) {
                Some(e) => r == Err::<Vec<Event>, PSP22Error>(e) && *final(self) == *old(self),
                None => r.is_ok() && if move_is_noop(from, to, value@) {
                    r.unwrap()@.len() == 0 && *final(self) == *old(self)
                } else {
                    &&& r.unwrap()@.len() == 1
                    &&& is_transfer(r.unwrap()@[0], Some(from), Some(to), value@)
                    &&& final(self)@ == old(self)@.after_move(from, to, value@)
                },
            },
    {
        let mut events: Vec<Event> = Vec::new();
        if from.same(&to) || value.is_zero() {
            return Ok(events);
        }
        match self.plan_move(from, to, value) {
            Ok((new_from, new_to)) => {
                let event = self.commit_move(from, to, value, new_from, new_to);
                events.push(event);
                Ok(events)
            },
            Err(e) => Err(e),
        }
    }

    /// Moves `value` from the caller's balance to that of `to`.
    ///
    /// Nothing happens, and nothing is to be published, where `to` is the
    /// caller or `value` is zero. The move is rejected with
    /// `InsufficientBalance` where the caller holds less than `value`, and
    /// with `Overflow` where the balance of `to` cannot take `value`.
    pub fn transfer(&mut self, caller: AccountId, to: AccountId, value: Amount, _data: Vec<u8>) -> (r:
        Result<Vec<Event>, PSP22Error>)
        requires
            old(self).wf(),
        ensures
            final(self).wf(),
            final(self).balance_sum() == old(self).balance_sum(),
            match move_error(old(self)@, caller, to, value@) {
                Some(e) => r == Err::<Vec<Event>, PSP22Error>(e) && *final(self) == *old(self),
                None => r.is_ok() && if move_is_noop(caller, to, value@) {
                    r.unwrap()@.len() == 0 && *final(self) == *old(self)
                } else {
                    &&& r.unwrap()@.len() == 1
                    &&& is_transfer(r.unwrap()@[0], Some(caller), Some(to), value@)
                    &&& final(self)@ == old(self)@.after_move(caller, to, value@)
                },
            },
    {
        self.transfer_from_to(caller, to, value)
    }

    /// Moves `value` from `from` to `to` on the caller's word.
    ///
    /// Nothing happens where `from` and `to` are the same account or `value`
    /// is zero. A caller other than `from` needs an allowance on `from` of at
    /// least `value`, which the move uses up; the new allowance is published
    /// before the move. A lacking allowance is reported before a lacking
    /// balance, and a rejected move leaves the allowance as it was.
    pub fn transfer_from(
        &mut self,
        caller: AccountId,
        from: AccountId,
        to: AccountId,
        value: Amount,
        _data: Vec<u8>,
    ) -> (r: Result<Vec<Event>, PSP22Error>)
        requires
            old(self).wf(),
        ensures
            final(self).wf(),
            final(self).balance_sum() == old(self).balance_sum(),
            match delegated_move_error(old(self)@, caller, from, to, value@) {
                Some(e) => r == Err::<Vec<Event>, PSP22Error>(e) && *final(self) == *old(self),
                None => r.is_ok() && if move_is_noop(from, to, value@) {
                    r.unwrap()@.len() == 0 && *final(self) == *old(self)
                } else if caller == from {
                    &&& r.unwrap()@.len() == 1
                    &&& is_transfer(r.unwrap()@[0], Some(from), Some(to), value@)
                    &&& final(self)@ == old(self)@.after_move(from, to, value@)
                } else {
                    let left = (old(self)@.allowances[(from, caller)] - value@) as nat;
                    &&& r.unwrap()@.len() == 2
                    &&& is_approval(r.unwrap()@[0], from, caller, left)
                    &&& is_transfer(r.unwrap()@[1], Some(from), Some(to), value@)
                    &&& final(self)@ == old(self)@.after_allow(from, caller, left).after_move(
                        from,
                        to,
                        value@,
                    )
                },
            },
    {
        let mut events: Vec<Event> = Vec::new();
        if from.same(&to) || value.is_zero() {
            return Ok(events);
        }
        let delegated = !caller.same(&from);
        let mut left = Amount::zero();
        if delegated {
            let allowance = self.allowance(from, caller);
            if allowance.less_than(&value) {
                return Err(PSP22Error::InsufficientAllowance);
            }
            left = allowance.minus(&value);
        }
        match self.plan_move(from, to, value) {
            Ok((new_from, new_to)) => {
                if delegated {
                    let approval = self.store_allowance(from, caller, left);
                    events.push(approval);
                }
                let moved = self.commit_move(from, to, value, new_from, new_to);
                events.push(moved);
                Ok(events)
            },
            Err(e) => Err(e),
        }
    }

    /// Sets what `spender` may move out of the caller's balance to `value`,
    /// whatever it was before. Nothing happens where `spender` is the caller.
    /// Never fails.
    pub fn approve(&mut self, caller: AccountId, spender: AccountId, value: Amount) -> (r: Result<
        Vec<Event>,
        PSP22Error,
    >)
        requires
            old(self).wf(),
        ensures
            final(self).wf(),
            final(self).balance_sum() == old(self).balance_sum(),
            r.is_ok(),
            final(self)@ == old(self)@.approved(caller, spender, value@),
            if caller == spender {
                r.unwrap()@.len() == 0 && *final(self) == *old(self)
            } else {
                r.unwrap()@.len() == 1 && is_approval(r.unwrap()@[0], caller, spender, value@)
            },
    {
        let mut events: Vec<Event> = Vec::new();
        if caller.same(&spender) {
            return Ok(events);
        }
        let event = self.store_allowance(caller, spender, value);
        events.push(event);
        Ok(events)
    }

    /// Raises what `spender` may move out of the caller's balance by
    /// `delta_value`. Nothing happens where `spender` is the caller or
    /// `delta_value` is zero. Rejected with `Overflow` where the new
    /// allowance would exceed the largest amount.
    pub fn increase_allowance(&mut self, caller: AccountId, spender: AccountId, delta_value: Amount) -> (r:
        Result<Vec<Event>, PSP22Error>)
        requires
            old(self).wf(),
        ensures
            final(self).wf(),
            final(self).balance_sum() == old(self).balance_sum(),
            if caller == spender || delta_value@ == 0 {
                r.is_ok() && r.unwrap()@.len() == 0 && *final(self) == *old(self)
            } else if old(self)@.allowances[(caller, spender)] + delta_value@ > max_amount() {
                r == Err::<Vec<Event>, PSP22Error>(PSP22Error::Overflow)
                    && *final(self) == *old(self)
            } else {
                let raised = old(self)@.allowances[(caller, spender)] + delta_value@;
                &&& r.is_ok()
                &&& r.unwrap()@.len() == 1
                &&& is_approval(r.unwrap()@[0], caller, spender, raised)
                &&& final(self)@ == old(self)@.after_allow(caller, spender, raised)
            },
    {
        let mut events: Vec<Event> = Vec::new();
        if caller.same(&spender) || delta_value.is_zero() {
            return Ok(events);
        }
        let current = self.allowance(caller, spender);
        match current.checked_add(&delta_value) {
            Some(raised) => {
                let event = self.store_allowance(caller, spender, raised);
                events.push(event);
                Ok(events)
            },
            None => Err(PSP22Error::Overflow),
        }
    }

    /// Lowers what `spender` may move out of the caller's balance by
    /// `delta_value`. Nothing happens where `spender` is the caller or
    /// `delta_value` is zero. Rejected with `InsufficientAllowance` where the
    /// allowance is less than `delta_value`.
    pub fn decrease_allowance(&mut self, caller: AccountId, spender: AccountId, delta_value: Amount) -> (r:
        Result<Vec<Event>, PSP22Error>)
        requires
            old(self).wf(),
        ensures
            final(self).wf(),
            final(self).balance_sum() == old(self).balance_sum(),
            if caller == spender || delta_value@ == 0 {
                r.is_ok() && r.unwrap()@.len() == 0 && *final(self) == *old(self)
            } else if old(self)@.allowances[(caller, spender)] < delta_value@ {
                r == Err::<Vec<Event>, PSP22Error>(PSP22Error::InsufficientAllowance) && *final(self) == *old(self)
            } else {
                let lowered = (old(self)@.allowances[(caller, spender)] - delta_value@) as nat;
                &&& r.is_ok()
                &&& r.unwrap()@.len() == 1
                &&& is_approval(r.unwrap()@[0], caller, spender, lowered)
                &&& final(self)@ == old(self)@.after_allow(caller, spender, lowered)
            },
    {
        let mut events: Vec<Event> = Vec::new();
        if caller.same(&spender) || delta_value.is_zero() {
            return Ok(events);
        }
        let current = self.allowance(caller, spender);
        if current.less_than(&delta_value) {
            return Err(PSP22Error::InsufficientAllowance);
        }
        let event = self.store_allowance(caller, spender, current.minus(&delta_value));
        events.push(event);
        Ok(events)
    }

    /// Creates `value` new tokens in the caller's balance. Nothing happens
    /// where `value` is zero. Rejected with `Overflow` where the caller's
    /// balance or the total supply cannot take `value`.
    pub fn mint(&mut self, caller: AccountId, value: Amount) -> (r: Result<Vec<Event>, PSP22Error>)
        requires
            old(self).wf(),
        ensures
            final(self).wf(),
            r.is_ok() ==> final(self).balance_sum() == old(self).balance_sum() + value@,
            match mint_error(old(self)@, caller, value@) {
                Some(e) => r == Err::<Vec<Event>, PSP22Error>(e) && *final(self) == *old(self),
                None => r.is_ok() && if value@ == 0 {
                    r.unwrap()@.len() == 0 && *final(self) == *old(self)
                } else {
                    &&& r.unwrap()@.len() == 1
                    &&& is_transfer(r.unwrap()@[0], None, Some(caller), value@)
                    &&& final(self)@ == old(self)@.after_mint(caller, value@)
                },
            },
    {
        let mut events: Vec<Event> = Vec::new();
        if value.is_zero() {
            return Ok(events);
        }
        let balance = self.balance_of(caller);
        let new_balance = match balance.checked_add(&value) {
            Some(sum) => sum,
            None => { return Err(PSP22Error::Overflow); },
        };
        let new_supply = match self.total_supply.checked_add(&value) {
            Some(sum) => sum,
            None => { return Err(PSP22Error::Overflow); },
        };
        self.balances.insert(caller, new_balance);
        self.total_supply = new_supply;
        proof {
            assert(final(self)@.balances =~= old(self)@.after_mint(caller, value@).balances);
        }
        events.push(Event::Transfer(Transfer { from: None, to: Some(caller), value }));
        Ok(events)
    }

    /// Destroys `value` tokens of the caller's balance. Nothing happens where
    /// `value` is zero. Rejected with `InsufficientBalance` where the caller
    /// holds less than `value`.
    pub fn burn(&mut self, caller: AccountId, value: Amount) -> (r: Result<Vec<Event>, PSP22Error>)
        requires
            old(self).wf(),
        ensures
            final(self).wf(),
            r.is_ok() ==> final(self).balance_sum() == old(self).balance_sum() - value@,
            if value@ == 0 {
                r.is_ok() && r.unwrap()@.len() == 0 && *final(self) == *old(self)
            } else if old(self)@.balances[caller] < value@ {
                r == Err::<Vec<Event>, PSP22Error>(PSP22Error::InsufficientBalance) && *final(self) == *old(self)
            } else {
                &&& r.is_ok()
                &&& r.unwrap()@.len() == 1
                &&& is_transfer(r.unwrap()@[0], Some(caller), None, value@)
                &&& final(self)@ == old(self)@.after_burn(caller, value@)
            },
    {
        let mut events: Vec<Event> = Vec::new();
        if value.is_zero() {
            return Ok(events);
        }
        let balance = self.balance_of(caller);
        if balance.less_than(&value) {
            return Err(PSP22Error::InsufficientBalance);
        }
        proof {
            self.balances.lemma_value_within_total(caller);
        }
        self.balances.insert(caller, balance.minus(&value));
        self.total_supply = self.total_supply.minus(&value);
        proof {
            assert(final(self)@.balances =~= old(self)@.after_burn(caller, value@).balances);
        }
        events.push(Event::Transfer(Transfer { from: Some(caller), to: None, value }));
        Ok(events)
    }
}

} // verus!
