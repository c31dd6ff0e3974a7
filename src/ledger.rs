use crate::registry::{AccountId, Balance};
use std::collections::HashMap;
use vstd::prelude::*;

verus! {

broadcast use vstd::std_specs::hash::group_hash_axioms;

/// Why a ledger refused a payment.
#[derive(Clone, Copy, Debug, PartialEq, Eq, Structural)]
pub enum LedgerError {
    /// The payer holds less than the amount.
    InsufficientBalance,
    /// The payer would be left under the minimum balance.
    KeepAlive,
    /// The payee would end under the minimum balance.
    ExistentialDeposit,
    /// The payee's balance would overflow.
    Overflow,
}

/// A holder of fungible balances with an atomic payment between two accounts.
pub trait Ledger {
    /// The balance that `who` holds.
    spec fn balance_of(&self, who: AccountId) -> Balance;

    /// The balance of `who`.
    fn free_balance(&self, who: AccountId) -> (r: Balance)
        ensures
            r == self.balance_of(who),
    ;

    /// Moves `amount` from `from` to `to`, never leaving `from` under the
    /// ledger's minimum balance. Either the whole payment happens or nothing.
    fn transfer(&mut self, from: AccountId, to: AccountId, amount: Balance) -> (r: Result<(), LedgerError>)
        requires
            from != to,
        ensures
            r is Ok ==> {
                &&& final(self).balance_of(from) == old(self).balance_of(from) - amount
                &&& final(self).balance_of(to) == old(self).balance_of(to) + amount
                &&& forall|c: AccountId|
                    c != from && c != to ==> final(self).balance_of(c) == old(self).balance_of(c)
            },
            r is Err ==> forall|c: AccountId| final(self).balance_of(c) == old(self).balance_of(c),
    ;
}

/// A ledger held in memory: a balance per account and a minimum balance that
/// no funded account may fall under.
pub struct Balances {
    accounts: HashMap<AccountId, Balance>,
    existential_deposit: Balance,
}

impl Balances {
    /// The minimum balance of this ledger.
    pub closed spec fn minimum(&self) -> Balance {
        self.existential_deposit
    }

    /// An empty ledger with the given minimum balance.
    pub fn new(existential_deposit: Balance) -> (r: Self)
        ensures
            r.minimum() == existential_deposit,
            forall|c: AccountId| r.balance_of(c) == 0,
    {
        Balances { accounts: HashMap::new(), existential_deposit }
    }

    /// Sets the balance of `who` to `amount`.
    pub fn set_balance(&mut self, who: AccountId, amount: Balance)
        ensures
            final(self).minimum() == old(self).minimum(),
            final(self).balance_of(who) == amount,
            forall|c: AccountId| c != who ==> final(self).balance_of(c) == old(self).balance_of(c),
    {
        self.accounts.insert(who, amount);
    }

    /// Why this ledger refuses to pay `amount` from `from` to `to`, if it does.
    pub open spec fn refusal(&self, from: AccountId, to: AccountId, amount: Balance) -> Option<LedgerError> {
        let from_balance = self.balance_of(from);
        let to_balance = self.balance_of(to);
        if amount == 0 {
            None
        } else if from_balance < amount {
            Some(LedgerError::InsufficientBalance)
        } else if from_balance - amount < self.minimum() {
            Some(LedgerError::KeepAlive)
        } else if to_balance + amount > u128::MAX {
            Some(LedgerError::Overflow)
        } else if to_balance + amount < self.minimum() {
            Some(LedgerError::ExistentialDeposit)
        } else {
            None
        }
    }

    /// Pays `amount` from `from` to `to`. A payment of zero does nothing.
    /// Otherwise it fails with `InsufficientBalance` if the payer holds less
    /// than `amount`, with `KeepAlive` if the payer would be left under the
    /// minimum, with `Overflow` if the payee's balance would overflow, and
    /// with `ExistentialDeposit` if the payee would end under the minimum;
    /// a refused payment changes nothing.
    pub fn pay(&mut self, from: AccountId, to: AccountId, amount: Balance) -> (r: Result<(), LedgerError>)
        requires
            from != to,
        ensures
            final(self).minimum() == old(self).minimum(),
            match old(self).refusal(from, to, amount) {
                Some(e) => r == Err::<(), LedgerError>(e) && *final(self) == *old(self),
                None => r is Ok,
            },
            r is Ok ==> {
                &&& final(self).balance_of(from) == old(self).balance_of(from) - amount
                &&& final(self).balance_of(to) == old(self).balance_of(to) + amount
                &&& forall|c: AccountId|
                    c != from && c != to ==> final(self).balance_of(c) == old(self).balance_of(c)
            },
            r is Err ==> forall|c: AccountId| final(self).balance_of(c) == old(self).balance_of(c),
    {
        if amount == 0 {
            return Ok(());
        }
        let from_balance = self.free_balance(from);
        let to_balance = self.free_balance(to);
        if from_balance < amount {
            return Err(LedgerError::InsufficientBalance);
        }
        if from_balance - amount < self.existential_deposit {
            return Err(LedgerError::KeepAlive);
        }
        if to_balance > u128::MAX - amount {
            return Err(LedgerError::Overflow);
        }
        if to_balance + amount < self.existential_deposit {
            return Err(LedgerError::ExistentialDeposit);
        }
        self.accounts.insert(from, from_balance - amount);
        self.accounts.insert(to, to_balance + amount);
        Ok(())
    }
}

impl Ledger for Balances {
    closed spec fn balance_of(&self, who: AccountId) -> Balance {
        if self.accounts@.contains_key(who) {
            self.accounts@[who]
        } else {
            0
        }
    }

    fn free_balance(&self, who: AccountId) -> (r: Balance) {
        match self.accounts.get(&who) {
            Some(b) => *b,
            None => 0,
        }
    }

    fn transfer(&mut self, from: AccountId, to: AccountId, amount: Balance) -> (r: Result<(), LedgerError>) {
        self.pay(from, to, amount)
    }
}

} // verus!
