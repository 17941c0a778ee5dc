//! The ledger of one client account.
//!
//! A [`ClientData`] holds the available and the held funds of one client, the
//! lock, and the deposits that can still be disputed. Its view is the
//! [`Account`] of the model, with every amount as mantissa and scale; every
//! operation is specified by the model's transition of the same name.
//!
//! The balances are [`Amount`]s, and a decimal holds a sum or a difference
//! exactly only while its mantissa has at most 96 bits. Each operation asks
//! for that, and has a companion (`can_deposit`, `can_withdraw`, ...) that
//! decides it.

use crate::account::{lemma_held_below_zero, lemma_operations_preserve_wf, Account, DepositRecord};
use crate::amount::Amount;
use std::collections::HashMap;
use vstd::prelude::*;

verus! {

broadcast use vstd::std_specs::hash::group_hash_axioms;

pub type ClientID = u16;

pub type TransactionID = u32;

/// Why an operation left the account as it was.
#[derive(PartialEq, Eq, Structural, Clone, Copy, Debug)]
pub enum AccountUpdateFailure {
    /// The account is locked.
    Frozen,
    /// No deposit with this transaction identifier is recorded.
    TXNotFound,
    /// The deposit is not under dispute.
    TXUndisputed,
    /// The available funds do not cover the withdrawal.
    InsufficientFunds,
    /// A deposit with this transaction identifier is already recorded.
    DuplicateDepositTX,
    /// The deposit is already under dispute.
    RedundantDispute,
}

/// A recorded deposit.
#[derive(Clone, Copy, Debug)]
pub struct Deposit {
    pub disputed: bool,
    pub amount: Amount,
}

impl View for Deposit {
    type V = DepositRecord;

    open spec fn view(&self) -> DepositRecord {
        DepositRecord { amount: self.amount.parts(), disputed: self.disputed }
    }
}

/// The model's history of a recorded history.
pub open spec fn records_of(history: Map<TransactionID, Deposit>) -> Map<u32, DepositRecord> {
    Map::new(|tx: u32| history.contains_key(tx), |tx: u32| history[tx]@)
}

/// The funds and the deposit history of one client.
pub struct ClientData {
    wealth: Amount,
    held_wealth: Amount,
    frozen: bool,
    deposit_history: HashMap<TransactionID, Deposit>,
}

impl View for ClientData {
    type V = Account;

    open spec fn view(&self) -> Account {
        Account {
            available: self.get_wealth().parts(),
            held: self.get_held_wealth().parts(),
            locked: self.is_locked(),
            deposits: records_of(self.history()),
        }
    }
}

impl ClientData {
    pub closed spec fn spec_is_locked(&self) -> bool {
        self.frozen
    }

    pub closed spec fn spec_get_held_wealth(&self) -> Amount {
        self.held_wealth
    }

    pub closed spec fn spec_get_wealth(&self) -> Amount {
        self.wealth
    }

    /// The recorded deposits.
    pub closed spec fn history(&self) -> Map<TransactionID, Deposit> {
        self.deposit_history@
    }

    /// The held funds are the sum of the disputed deposits.
    pub open spec fn wf(&self) -> bool {
        self@.wf()
    }

    #[verifier::when_used_as_spec(spec_is_locked)]
    pub fn is_locked(&self) -> (locked: bool)
        ensures
            locked == self.is_locked(),
    {
        self.frozen
    }

    /// Whether `get_total` may be called.
    pub fn can_total(&self) -> (ok: bool)
        ensures
            ok == self@.total_fits(),
    {
        self.wealth.can_add(&self.held_wealth)
    }

    /// Available and held funds together.
    pub fn get_total(&self) -> (total: Amount)
        requires
            self@.total_fits(),
        ensures
            total.parts() == self@.total(),
            total@ == self@.total_value(),
    {
        self.wealth.plus(&self.held_wealth)
    }

    #[verifier::when_used_as_spec(spec_get_held_wealth)]
    pub fn get_held_wealth(&self) -> (held: Amount)
        ensures
            held == self.get_held_wealth(),
    {
        self.held_wealth
    }

    #[verifier::when_used_as_spec(spec_get_wealth)]
    pub fn get_wealth(&self) -> (available: Amount)
        ensures
            available == self.get_wealth(),
    {
        self.wealth
    }

    /// An unlocked account without history, whose funds are `0.0`.
    pub fn new() -> (client: ClientData)
        ensures
            client.wf(),
            client@ == Account::new(),
    {
        let zero = Amount::new(0, 1).unwrap();
        let client = ClientData {
            wealth: zero,
            held_wealth: zero,
            frozen: false,
            deposit_history: HashMap::new(),
        };
        proof {
            assert(client@.deposits =~= Map::<u32, DepositRecord>::empty());
            lemma_held_below_zero(0x1_0000_0000);
        }
        client
    }
}

// the operations of the ledger
impl ClientData {
    /// Sets or lifts the lock by hand, outside the five operations: the
    /// operations themselves only ever set it.
    pub fn set_locked(&mut self, locked: bool)
        requires
            old(self).wf(),
        ensures
            final(self).wf(),
            final(self)@ == (Account { locked, ..old(self)@ }),
    {
        self.frozen = locked;
    }

    /// Whether `deposit` may be called with these arguments.
    pub fn can_deposit(&self, transaction_id: TransactionID, wealth: Amount) -> (ok: bool)
        ensures
            ok == self@.deposit_fits(transaction_id, wealth.parts()),
    {
        if self.frozen || self.deposit_history.contains_key(&transaction_id) {
            true
        } else {
            self.wealth.can_add(&wealth)
        }
    }

    /// Deposits money in the account and records the deposit in case of a later dispute.
    ///
    /// Fails with `Frozen` on a locked account and with `DuplicateDepositTX`
    /// where a deposit with this identifier is recorded already.
    pub fn deposit(&mut self, transaction_id: TransactionID, wealth: Amount) -> (r: Result<
        (),
        AccountUpdateFailure,
    >)
        requires
            old(self).wf(),
            old(self)@.deposit_fits(transaction_id, wealth.parts()),
        ensures
            final(self).wf(),
            r == old(self)@.deposit_result(transaction_id),
            final(self)@ == old(self)@.deposit(transaction_id, wealth.parts()),
    {
        proof {
            use_type_invariant(&wealth);
            lemma_operations_preserve_wf(old(self)@, transaction_id, wealth.parts());
        }
        if self.frozen {
            Err(AccountUpdateFailure::Frozen)
        } else if self.deposit_history.contains_key(&transaction_id) {
            Err(AccountUpdateFailure::DuplicateDepositTX)
        } else {
            self.wealth = self.wealth.plus(&wealth);
            self.deposit_history.insert(transaction_id, Deposit { disputed: false, amount: wealth });
            assert(self@.deposits =~= old(self)@.deposit(transaction_id, wealth.parts()).deposits);
            Ok(())
        }
    }

    /// Whether `withdraw` may be called with this amount.
    pub fn can_withdraw(&self, wealth: Amount) -> (ok: bool)
        ensures
            ok == self@.withdraw_fits(wealth.parts()),
    {
        if self.frozen || self.wealth.is_less_than(&wealth) {
            true
        } else {
            self.wealth.can_sub(&wealth)
        }
    }

    /// Withdraws money from the account. Held funds are not available for withdrawal.
    ///
    /// Fails with `Frozen` on a locked account and with `InsufficientFunds`
    /// where the available funds are less than the amount.
    pub fn withdraw(&mut self, wealth: Amount) -> (r: Result<(), AccountUpdateFailure>)
        requires
            old(self).wf(),
            old(self)@.withdraw_fits(wealth.parts()),
        ensures
            final(self).wf(),
            r == old(self)@.withdraw_result(wealth.parts()),
            final(self)@ == old(self)@.withdraw(wealth.parts()),
    {
        proof {
            use_type_invariant(&wealth);
            lemma_operations_preserve_wf(old(self)@, 0, wealth.parts());
        }
        if self.frozen {
            Err(AccountUpdateFailure::Frozen)
        } else if self.wealth.is_less_than(&wealth) {
            Err(AccountUpdateFailure::InsufficientFunds)
        } else {
            self.wealth = self.wealth.minus(&wealth);
            Ok(())
        }
    }

    /// The recorded deposit `transaction`, if there is one.
    fn recorded(&self, transaction: TransactionID) -> (found: Option<Deposit>)
        ensures
            found is Some <==> self@.deposits.contains_key(transaction),
            found matches Some(deposit) ==> deposit@ == self@.deposits[transaction],
    {
        match self.deposit_history.get(&transaction) {
            Some(deposit) => Some(*deposit),
            None => None,
        }
    }

    /// Whether `dispute` may be called for this transaction.
    pub fn can_dispute(&self, transaction: TransactionID) -> (ok: bool)
        ensures
            ok == self@.dispute_fits(transaction),
    {
        if self.frozen {
            return true;
        }
        match self.recorded(transaction) {
            Some(deposit) => deposit.disputed || (self.wealth.can_sub(&deposit.amount)
                && self.held_wealth.can_add(&deposit.amount)),
            None => true,
        }
    }

    /// Submits a dispute on a deposit, putting a hold on its funds. The
    /// available funds become negative where they do not cover the deposit.
    ///
    /// Fails with `Frozen` on a locked account, with `TXNotFound` where no such
    /// deposit is recorded, and with `RedundantDispute` where it is under
    /// dispute already.
    pub fn dispute(&mut self, transaction: TransactionID) -> (r: Result<(), AccountUpdateFailure>)
        requires
            old(self).wf(),
            old(self)@.dispute_fits(transaction),
        ensures
            final(self).wf(),
            r == old(self)@.dispute_result(transaction),
            final(self)@ == old(self)@.dispute(transaction),
    {
        proof {
            lemma_operations_preserve_wf(old(self)@, transaction, (0, 0));
        }
        if self.frozen {
            return Err(AccountUpdateFailure::Frozen);
        }
        match self.recorded(transaction) {
            Some(deposit) => {
                if deposit.disputed {
                    Err(AccountUpdateFailure::RedundantDispute)
                } else {
                    self.deposit_history.insert(
                        transaction,
                        Deposit { disputed: true, amount: deposit.amount },
                    );
                    self.wealth = self.wealth.minus(&deposit.amount);
                    self.held_wealth = self.held_wealth.plus(&deposit.amount);
                    assert(self@.deposits =~= old(self)@.dispute(transaction).deposits);
                    Ok(())
                }
            },
            None => Err(AccountUpdateFailure::TXNotFound),
        }
    }

    /// Whether `chargeback` may be called for this transaction.
    pub fn can_chargeback(&self, transaction: TransactionID) -> (ok: bool)
        ensures
            ok == self@.chargeback_fits(transaction),
    {
        if self.frozen {
            return true;
        }
        match self.recorded(transaction) {
            Some(deposit) => !deposit.disputed || self.held_wealth.can_sub(&deposit.amount),
            None => true,
        }
    }

    /// Submits a chargeback on a disputed deposit: the held funds of the
    /// dispute leave the account, the account is locked, and the deposit is
    /// taken out of the history.
    ///
    /// Fails with `Frozen` on a locked account, with `TXNotFound` where no such
    /// deposit is recorded, and with `TXUndisputed` where it is not under dispute.
    pub fn chargeback(&mut self, transaction: TransactionID) -> (r: Result<
        (),
        AccountUpdateFailure,
    >)
        requires
            old(self).wf(),
            old(self)@.chargeback_fits(transaction),
        ensures
            final(self).wf(),
            r == old(self)@.chargeback_result(transaction),
            final(self)@ == old(self)@.chargeback(transaction),
    {
        proof {
            lemma_operations_preserve_wf(old(self)@, transaction, (0, 0));
        }
        if self.frozen {
            return Err(AccountUpdateFailure::Frozen);
        }
        match self.recorded(transaction) {
            Some(deposit) => {
                if deposit.disputed {
                    self.held_wealth = self.held_wealth.minus(&deposit.amount);
                    self.frozen = true;
                    self.deposit_history.remove(&transaction);
                    assert(self@.deposits =~= old(self)@.chargeback(transaction).deposits);
                    Ok(())
                } else {
                    Err(AccountUpdateFailure::TXUndisputed)
                }
            },
            None => Err(AccountUpdateFailure::TXNotFound),
        }
    }

    /// Whether `resolve` may be called for this transaction.
    pub fn can_resolve(&self, transaction: TransactionID) -> (ok: bool)
        ensures
            ok == self@.resolve_fits(transaction),
    {
        if self.frozen {
            return true;
        }
        match self.recorded(transaction) {
            Some(deposit) => !deposit.disputed || (self.wealth.can_add(&deposit.amount)
                && self.held_wealth.can_sub(&deposit.amount)),
            None => true,
        }
    }

    /// Submits a resolve on a disputed deposit, releasing the funds held by the dispute.
    ///
    /// Fails with `Frozen` on a locked account, with `TXNotFound` where no such
    /// deposit is recorded, and with `TXUndisputed` where it is not under dispute.
    pub fn resolve(&mut self, transaction: TransactionID) -> (r: Result<(), AccountUpdateFailure>)
        requires
            old(self).wf(),
            old(self)@.resolve_fits(transaction),
        ensures
            final(self).wf(),
            r == old(self)@.resolve_result(transaction),
            final(self)@ == old(self)@.resolve(transaction),
    {
        proof {
            lemma_operations_preserve_wf(old(self)@, transaction, (0, 0));
        }
        if self.frozen {
            return Err(AccountUpdateFailure::Frozen);
        }
        match self.recorded(transaction) {
            Some(deposit) => {
                if deposit.disputed {
                    self.deposit_history.insert(
                        transaction,
                        Deposit { disputed: false, amount: deposit.amount },
                    );
                    self.wealth = self.wealth.plus(&deposit.amount);
                    self.held_wealth = self.held_wealth.minus(&deposit.amount);
                    assert(self@.deposits =~= old(self)@.resolve(transaction).deposits);
                    Ok(())
                } else {
                    Err(AccountUpdateFailure::TXUndisputed)
                }
            },
            None => Err(AccountUpdateFailure::TXNotFound),
        }
    }
}

} // verus!
