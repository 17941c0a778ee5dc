//! The mathematical model of one account.
//!
//! An [`Account`] holds each amount as its parts, the pair of mantissa and
//! scale of the decimal, from which the number follows ([`value_of`]), and
//! the deposit history as a map. Each ledger operation is a pair of spec
//! functions: the result it returns and the account it leaves. The executable
//! ledger in [`crate::client_data`] is verified against them, and the rules
//! that relate several operations are proved here, over the model.

use crate::amount::{
    difference_fits, difference_of, lemma_parts_are_exact, lemma_pow10_positive, pow10,
    scale_is_valid, sum_fits, sum_of, value_of, MAX_SCALE,
};
use crate::client_data::AccountUpdateFailure;
use vstd::prelude::*;

verus! {

/// One accepted deposit.
pub struct DepositRecord {
    /// Mantissa and scale of the deposited amount.
    pub amount: (int, nat),
    /// Whether the deposit is under dispute.
    pub disputed: bool,
}

/// The state of one account.
pub struct Account {
    /// Funds that are not on hold. May be negative.
    pub available: (int, nat),
    /// Funds frozen by open disputes.
    pub held: (int, nat),
    /// Whether a chargeback has locked the account.
    pub locked: bool,
    /// The accepted deposits by transaction identifier.
    pub deposits: Map<u32, DepositRecord>,
}

/// What the deposit `tx` adds to the held funds, as a number.
pub open spec fn held_for(deposits: Map<u32, DepositRecord>, tx: u32) -> int {
    if deposits.contains_key(tx) && deposits[tx].disputed {
        value_of(deposits[tx].amount)
    } else {
        0
    }
}

/// The sum of the disputed deposits whose identifier is below `bound`.
pub open spec fn held_below(deposits: Map<u32, DepositRecord>, bound: nat) -> int
    decreases bound,
{
    if bound == 0 {
        0
    } else {
        held_below(deposits, (bound - 1) as nat) + held_for(deposits, (bound - 1) as u32)
    }
}

/// The sum of all disputed deposits.
pub open spec fn disputed_total(deposits: Map<u32, DepositRecord>) -> int {
    held_below(deposits, 0x1_0000_0000)
}

/// Every recorded amount has a scale that a decimal can have.
pub open spec fn scales_are_valid(deposits: Map<u32, DepositRecord>) -> bool {
    forall|tx: u32| deposits.contains_key(tx) ==> scale_is_valid((#[trigger] deposits[tx]).amount)
}

impl Account {
    /// The account of a client that is seen for the first time: its funds are `0.0`.
    pub open spec fn new() -> Account {
        Account { available: (0, 1), held: (0, 1), locked: false, deposits: Map::empty() }
    }

    /// The available funds as a number.
    pub open spec fn available_value(self) -> int {
        value_of(self.available)
    }

    /// The held funds as a number.
    pub open spec fn held_value(self) -> int {
        value_of(self.held)
    }

    /// Mantissa and scale of available and held funds together.
    pub open spec fn total(self) -> (int, nat) {
        sum_of(self.available, self.held)
    }

    /// Available and held funds together, as a number.
    pub open spec fn total_value(self) -> int {
        self.available_value() + self.held_value()
    }

    /// The amount of a recorded deposit as a number.
    pub open spec fn deposit_value(self, tx: u32) -> int {
        value_of(self.deposits[tx].amount)
    }

    /// The held funds are the sum of the disputed deposits, and every scale
    /// is one that a decimal can have.
    pub open spec fn wf(self) -> bool {
        &&& scale_is_valid(self.available)
        &&& scale_is_valid(self.held)
        &&& scales_are_valid(self.deposits)
        &&& self.held_value() == disputed_total(self.deposits)
    }

    /// Whether `tx` is a recorded deposit under dispute.
    pub open spec fn is_disputed(self, tx: u32) -> bool {
        self.deposits.contains_key(tx) && self.deposits[tx].disputed
    }

    pub open spec fn deposit_result(self, tx: u32) -> Result<(), AccountUpdateFailure> {
        if self.locked {
            Err(AccountUpdateFailure::Frozen)
        } else if self.deposits.contains_key(tx) {
            Err(AccountUpdateFailure::DuplicateDepositTX)
        } else {
            Ok(())
        }
    }

    pub open spec fn deposit(self, tx: u32, amount: (int, nat)) -> Account {
        if self.deposit_result(tx) is Ok {
            Account {
                available: sum_of(self.available, amount),
                deposits: self.deposits.insert(tx, DepositRecord { amount, disputed: false }),
                ..self
            }
        } else {
            self
        }
    }

    pub open spec fn withdraw_result(self, amount: (int, nat)) -> Result<
        (),
        AccountUpdateFailure,
    > {
        if self.locked {
            Err(AccountUpdateFailure::Frozen)
        } else if self.available_value() < value_of(amount) {
            Err(AccountUpdateFailure::InsufficientFunds)
        } else {
            Ok(())
        }
    }

    pub open spec fn withdraw(self, amount: (int, nat)) -> Account {
        if self.withdraw_result(amount) is Ok {
            Account { available: difference_of(self.available, amount), ..self }
        } else {
            self
        }
    }

    pub open spec fn dispute_result(self, tx: u32) -> Result<(), AccountUpdateFailure> {
        if self.locked {
            Err(AccountUpdateFailure::Frozen)
        } else if !self.deposits.contains_key(tx) {
            Err(AccountUpdateFailure::TXNotFound)
        } else if self.deposits[tx].disputed {
            Err(AccountUpdateFailure::RedundantDispute)
        } else {
            Ok(())
        }
    }

    pub open spec fn dispute(self, tx: u32) -> Account {
        if self.dispute_result(tx) is Ok {
            let amount = self.deposits[tx].amount;
            Account {
                available: difference_of(self.available, amount),
                held: sum_of(self.held, amount),
                deposits: self.deposits.insert(tx, DepositRecord { amount, disputed: true }),
                ..self
            }
        } else {
            self
        }
    }

    /// The result of `resolve` and of `chargeback`, which fail alike.
    pub open spec fn settle_result(self, tx: u32) -> Result<(), AccountUpdateFailure> {
        if self.locked {
            Err(AccountUpdateFailure::Frozen)
        } else if !self.deposits.contains_key(tx) {
            Err(AccountUpdateFailure::TXNotFound)
        } else if !self.deposits[tx].disputed {
            Err(AccountUpdateFailure::TXUndisputed)
        } else {
            Ok(())
        }
    }

    pub open spec fn resolve_result(self, tx: u32) -> Result<(), AccountUpdateFailure> {
        self.settle_result(tx)
    }

    pub open spec fn resolve(self, tx: u32) -> Account {
        if self.resolve_result(tx) is Ok {
            let amount = self.deposits[tx].amount;
            Account {
                available: sum_of(self.available, amount),
                held: difference_of(self.held, amount),
                deposits: self.deposits.insert(tx, DepositRecord { amount, disputed: false }),
                ..self
            }
        } else {
            self
        }
    }

    pub open spec fn chargeback_result(self, tx: u32) -> Result<(), AccountUpdateFailure> {
        self.settle_result(tx)
    }

    pub open spec fn chargeback(self, tx: u32) -> Account {
        if self.chargeback_result(tx) is Ok {
            Account {
                held: difference_of(self.held, self.deposits[tx].amount),
                locked: true,
                deposits: self.deposits.remove(tx),
                ..self
            }
        } else {
            self
        }
    }

    /// Whether a decimal holds the total of the account exactly.
    pub open spec fn total_fits(self) -> bool {
        sum_fits(self.available, self.held)
    }

    /// Whether a decimal holds exactly what a deposit that the account accepts leaves.
    pub open spec fn deposit_fits(self, tx: u32, amount: (int, nat)) -> bool {
        self.deposit_result(tx) is Ok ==> sum_fits(self.available, amount)
    }

    /// Whether a decimal holds exactly what a withdrawal that the account accepts leaves.
    pub open spec fn withdraw_fits(self, amount: (int, nat)) -> bool {
        self.withdraw_result(amount) is Ok ==> difference_fits(self.available, amount)
    }

    /// Whether a decimal holds exactly what a dispute that the account accepts leaves.
    pub open spec fn dispute_fits(self, tx: u32) -> bool {
        self.dispute_result(tx) is Ok ==> {
            &&& difference_fits(self.available, self.deposits[tx].amount)
            &&& sum_fits(self.held, self.deposits[tx].amount)
        }
    }

    /// Whether a decimal holds exactly what a resolve that the account accepts leaves.
    pub open spec fn resolve_fits(self, tx: u32) -> bool {
        self.resolve_result(tx) is Ok ==> {
            &&& sum_fits(self.available, self.deposits[tx].amount)
            &&& difference_fits(self.held, self.deposits[tx].amount)
        }
    }

    /// Whether a decimal holds exactly what a chargeback that the account accepts leaves.
    pub open spec fn chargeback_fits(self, tx: u32) -> bool {
        self.chargeback_result(tx) is Ok ==> difference_fits(self.held, self.deposits[tx].amount)
    }
}

/// Two histories that differ at `tx` alone differ in their disputed total by
/// what `tx` contributes to each.
pub proof fn lemma_held_below_changes_at(
    before: Map<u32, DepositRecord>,
    after: Map<u32, DepositRecord>,
    tx: u32,
    bound: nat,
)
    requires
        bound <= 0x1_0000_0000,
        forall|t: u32| t != tx ==> held_for(before, t) == held_for(after, t),
    ensures
        held_below(after, bound) - held_below(before, bound) == if tx < bound {
            held_for(after, tx) - held_for(before, tx)
        } else {
            0
        },
    decreases bound,
{
    if bound > 0 {
        lemma_held_below_changes_at(before, after, tx, (bound - 1) as nat);
    }
}

/// An empty history holds nothing.
pub proof fn lemma_held_below_zero(bound: nat)
    ensures
        held_below(Map::empty(), bound) == 0,
    decreases bound,
{
    if bound > 0 {
        lemma_held_below_zero((bound - 1) as nat);
    }
}

/// Every operation keeps the held funds equal to the sum of the disputed
/// deposits, and the scales valid.
pub proof fn lemma_operations_preserve_wf(account: Account, tx: u32, amount: (int, nat))
    requires
        account.wf(),
        scale_is_valid(amount),
    ensures
        Account::new().wf(),
        account.deposit(tx, amount).wf(),
        account.withdraw(amount).wf(),
        account.dispute(tx).wf(),
        account.resolve(tx).wf(),
        account.chargeback(tx).wf(),
{
    lemma_held_below_zero(0x1_0000_0000);
    lemma_parts_are_exact(account.available, amount);
    lemma_parts_are_exact(account.held, amount);
    if account.deposits.contains_key(tx) {
        lemma_parts_are_exact(account.available, account.deposits[tx].amount);
        lemma_parts_are_exact(account.held, account.deposits[tx].amount);
    }
    lemma_held_below_changes_at(
        account.deposits,
        account.deposit(tx, amount).deposits,
        tx,
        0x1_0000_0000,
    );
    lemma_held_below_changes_at(account.deposits, account.dispute(tx).deposits, tx, 0x1_0000_0000);
    lemma_held_below_changes_at(account.deposits, account.resolve(tx).deposits, tx, 0x1_0000_0000);
    lemma_held_below_changes_at(
        account.deposits,
        account.chargeback(tx).deposits,
        tx,
        0x1_0000_0000,
    );
}

/// One operation of the ledger with its arguments.
pub enum Operation {
    Deposit { tx: u32, amount: (int, nat) },
    Withdraw { amount: (int, nat) },
    Dispute { tx: u32 },
    Resolve { tx: u32 },
    Chargeback { tx: u32 },
}

impl Operation {
    /// The amount of the operation, if it has one, has a scale that a decimal can have.
    pub open spec fn is_valid(self) -> bool {
        match self {
            Operation::Deposit { tx, amount } => scale_is_valid(amount),
            Operation::Withdraw { amount } => scale_is_valid(amount),
            _ => true,
        }
    }
}

impl Account {
    /// What the operation returns on this account.
    pub open spec fn result_of(self, op: Operation) -> Result<(), AccountUpdateFailure> {
        match op {
            Operation::Deposit { tx, amount } => self.deposit_result(tx),
            Operation::Withdraw { amount } => self.withdraw_result(amount),
            Operation::Dispute { tx } => self.dispute_result(tx),
            Operation::Resolve { tx } => self.resolve_result(tx),
            Operation::Chargeback { tx } => self.chargeback_result(tx),
        }
    }

    /// The account that the operation leaves.
    pub open spec fn apply(self, op: Operation) -> Account {
        match op {
            Operation::Deposit { tx, amount } => self.deposit(tx, amount),
            Operation::Withdraw { amount } => self.withdraw(amount),
            Operation::Dispute { tx } => self.dispute(tx),
            Operation::Resolve { tx } => self.resolve(tx),
            Operation::Chargeback { tx } => self.chargeback(tx),
        }
    }

    /// The account that a sequence of operations leaves, applied first to last.
    pub open spec fn apply_all(self, ops: Seq<Operation>) -> Account
        decreases ops.len(),
    {
        if ops.len() == 0 {
            self
        } else {
            self.apply_all(ops.drop_last()).apply(ops.last())
        }
    }

    /// The account after a sequence of deposits, each given as identifier and amount.
    pub open spec fn after_deposits(self, deposits: Seq<(u32, (int, nat))>) -> Account
        decreases deposits.len(),
    {
        if deposits.len() == 0 {
            self
        } else {
            self.after_deposits(deposits.drop_last()).deposit(deposits.last().0, deposits.last().1)
        }
    }

    /// The sum of the amounts of those deposits of the sequence that the account accepts.
    pub open spec fn accepted_total(self, deposits: Seq<(u32, (int, nat))>) -> int
        decreases deposits.len(),
    {
        if deposits.len() == 0 {
            0
        } else {
            let earlier = self.after_deposits(deposits.drop_last());
            self.accepted_total(deposits.drop_last()) + if earlier.deposit_result(
                deposits.last().0,
            ) is Ok {
                value_of(deposits.last().1)
            } else {
                0
            }
        }
    }
}

/// The sum of the amounts of a sequence of deposits.
pub open spec fn amounts_total(deposits: Seq<(u32, (int, nat))>) -> int
    decreases deposits.len(),
{
    if deposits.len() == 0 {
        0
    } else {
        amounts_total(deposits.drop_last()) + value_of(deposits.last().1)
    }
}

/// Every amount of the sequence has a scale that a decimal can have.
pub open spec fn valid_amounts(deposits: Seq<(u32, (int, nat))>) -> bool {
    forall|i: int| 0 <= i < deposits.len() ==> scale_is_valid((#[trigger] deposits[i]).1)
}

/// No identifier occurs twice in the sequence.
pub open spec fn distinct_ids(deposits: Seq<(u32, (int, nat))>) -> bool {
    forall|i: int, j: int|
        0 <= i < j < deposits.len() ==> (#[trigger] deposits[i]).0 != (#[trigger] deposits[j]).0
}

/// The account records none of the identifiers of the sequence.
pub open spec fn unrecorded_ids(account: Account, deposits: Seq<(u32, (int, nat))>) -> bool {
    forall|i: int|
        0 <= i < deposits.len() ==> !account.deposits.contains_key((#[trigger] deposits[i]).0)
}

/// A sequence of deposits adds to the available funds the amounts of those
/// that are accepted. It changes neither the held funds nor the lock, and it
/// records the identifiers of the sequence beside those recorded before, and
/// no others.
pub proof fn lemma_deposits_add_accepted_amounts(
    account: Account,
    deposits: Seq<(u32, (int, nat))>,
)
    requires
        scale_is_valid(account.available),
        valid_amounts(deposits),
    ensures
        account.after_deposits(deposits).available_value() == account.available_value()
            + account.accepted_total(deposits),
        scale_is_valid(account.after_deposits(deposits).available),
        account.after_deposits(deposits).held == account.held,
        account.after_deposits(deposits).locked == account.locked,
        forall|tx: u32|
            account.after_deposits(deposits).deposits.contains_key(tx)
                ==> account.deposits.contains_key(tx) || exists|i: int|
                0 <= i < deposits.len() && (#[trigger] deposits[i]).0 == tx,
    decreases deposits.len(),
{
    if deposits.len() > 0 {
        let earlier = deposits.drop_last();
        assert forall|i: int| 0 <= i < earlier.len() implies scale_is_valid(
            (#[trigger] earlier[i]).1,
        ) by {
            assert(scale_is_valid(deposits[i].1));
        }
        lemma_deposits_add_accepted_amounts(account, earlier);
        assert(scale_is_valid(deposits[deposits.len() - 1].1));
        lemma_parts_are_exact(account.after_deposits(earlier).available, deposits.last().1);
        assert forall|tx: u32|
            account.after_deposits(deposits).deposits.contains_key(
                tx,
            ) implies account.deposits.contains_key(tx) || exists|i: int|
            0 <= i < deposits.len() && (#[trigger] deposits[i]).0 == tx by {
            if tx == deposits.last().0 {
                assert(deposits[deposits.len() - 1].0 == tx);
            } else if !account.deposits.contains_key(tx) {
                assert(account.after_deposits(earlier).deposits.contains_key(tx));
                let i = choose|i: int| 0 <= i < earlier.len() && (#[trigger] earlier[i]).0 == tx;
                assert(deposits[i].0 == tx);
            }
        }
    }
}

/// On an unlocked account every deposit of a sequence is accepted where the
/// identifiers are distinct and none is recorded yet, and the available funds
/// then grow by the sum of all amounts.
pub proof fn lemma_distinct_deposits_are_accepted(
    account: Account,
    deposits: Seq<(u32, (int, nat))>,
)
    requires
        !account.locked,
        scale_is_valid(account.available),
        valid_amounts(deposits),
        distinct_ids(deposits),
        unrecorded_ids(account, deposits),
    ensures
        forall|i: int|
            0 <= i < deposits.len() ==> account.after_deposits(
                #[trigger] deposits.take(i),
            ).deposit_result(deposits[i].0) is Ok,
        account.accepted_total(deposits) == amounts_total(deposits),
        account.after_deposits(deposits).available_value() == account.available_value()
            + amounts_total(deposits),
    decreases deposits.len(),
{
    lemma_deposits_add_accepted_amounts(account, deposits);
    if deposits.len() > 0 {
        let earlier = deposits.drop_last();
        let last = deposits.len() - 1;
        assert forall|i: int| 0 <= i < earlier.len() implies scale_is_valid(
            (#[trigger] earlier[i]).1,
        ) by {
            assert(scale_is_valid(deposits[i].1));
        }
        assert forall|i: int, j: int| 0 <= i < j < earlier.len() implies (#[trigger] earlier[i]).0 != (
        #[trigger] earlier[j]).0 by {
            assert(deposits[i].0 != deposits[j].0);
        }
        assert forall|i: int| 0 <= i < earlier.len() implies !account.deposits.contains_key(
            (#[trigger] earlier[i]).0,
        ) by {
            assert(!account.deposits.contains_key(deposits[i].0));
        }
        lemma_distinct_deposits_are_accepted(account, earlier);
        lemma_deposits_add_accepted_amounts(account, earlier);
        let before = account.after_deposits(earlier);
        assert(before.deposit_result(deposits[last].0) is Ok) by {
            if before.deposits.contains_key(deposits[last].0) {
                assert(!account.deposits.contains_key(deposits[last].0));
                let i = choose|i: int|
                    0 <= i < earlier.len() && (#[trigger] earlier[i]).0 == deposits[last].0;
                assert(deposits[i].0 != deposits[last].0);
            }
        }
        assert forall|i: int| 0 <= i < deposits.len() implies account.after_deposits(
            #[trigger] deposits.take(i),
        ).deposit_result(deposits[i].0) is Ok by {
            if i < last {
                assert(deposits.take(i) =~= earlier.take(i));
            } else {
                assert(deposits.take(i) =~= earlier);
            }
        }
    }
}

/// A deposit with a new identifier on an unlocked account adds its amount to
/// the available funds and records it undisputed; the held funds and the lock stay.
pub proof fn lemma_deposit_adds_amount(account: Account, tx: u32, amount: (int, nat))
    requires
        !account.locked,
        !account.deposits.contains_key(tx),
        scale_is_valid(account.available),
        scale_is_valid(amount),
    ensures
        account.deposit_result(tx) is Ok,
        account.deposit(tx, amount).available_value() == account.available_value() + value_of(
            amount,
        ),
        account.deposit(tx, amount).held == account.held,
        account.deposit(tx, amount).locked == account.locked,
        account.deposit(tx, amount).deposits == account.deposits.insert(
            tx,
            DepositRecord { amount, disputed: false },
        ),
{
    lemma_parts_are_exact(account.available, amount);
}

/// A deposit whose identifier is recorded is rejected as a duplicate on an
/// unlocked account (on a locked one with `Frozen`) and changes nothing:
/// so is every repetition of a deposit.
pub proof fn lemma_repeated_deposit_is_rejected(
    account: Account,
    tx: u32,
    first: (int, nat),
    again: (int, nat),
)
    requires
        !account.locked,
    ensures
        account.deposit(tx, first).deposit_result(tx) == Err::<(), _>(
            AccountUpdateFailure::DuplicateDepositTX,
        ),
        account.deposit(tx, first).deposit(tx, again) == account.deposit(tx, first),
{
}

/// A withdrawal of more than the available funds fails; one that succeeds
/// takes its amount from the available funds; and no withdrawal changes the
/// held funds, the lock or the history.
pub proof fn lemma_withdraw_respects_available(account: Account, amount: (int, nat))
    requires
        scale_is_valid(account.available),
        scale_is_valid(amount),
    ensures
        value_of(amount) > account.available_value() ==> account.withdraw_result(amount) is Err,
        !account.locked && value_of(amount) <= account.available_value()
            ==> account.withdraw_result(amount) is Ok,
        account.withdraw_result(amount) is Ok ==> account.withdraw(amount).available_value()
            == account.available_value() - value_of(amount),
        account.withdraw_result(amount) is Err ==> account.withdraw(amount) == account,
        account.withdraw(amount).held == account.held,
        account.withdraw(amount).locked == account.locked,
        account.withdraw(amount).deposits == account.deposits,
{
    lemma_parts_are_exact(account.available, amount);
}

/// A dispute of a recorded, undisputed deposit on an unlocked account moves
/// the amount of the deposit from the available to the held funds; a second
/// dispute of the same deposit is redundant and changes nothing.
pub proof fn lemma_dispute_moves_amount(account: Account, tx: u32)
    requires
        account.wf(),
        !account.locked,
        account.deposits.contains_key(tx),
        !account.deposits[tx].disputed,
    ensures
        account.dispute_result(tx) is Ok,
        account.dispute(tx).available_value() == account.available_value() - account.deposit_value(
            tx,
        ),
        account.dispute(tx).held_value() == account.held_value() + account.deposit_value(tx),
        account.dispute(tx).total_value() == account.total_value(),
        account.dispute(tx).locked == account.locked,
        account.dispute(tx).deposits == account.deposits.insert(
            tx,
            DepositRecord { amount: account.deposits[tx].amount, disputed: true },
        ),
        account.dispute(tx).dispute_result(tx) == Err::<(), _>(
            AccountUpdateFailure::RedundantDispute,
        ),
        account.dispute(tx).dispute(tx) == account.dispute(tx),
{
    lemma_parts_are_exact(account.available, account.deposits[tx].amount);
    lemma_parts_are_exact(account.held, account.deposits[tx].amount);
}

/// A resolve of a disputed deposit on an unlocked account moves the amount of
/// the deposit from the held funds back to the available funds.
pub proof fn lemma_resolve_moves_amount_back(account: Account, tx: u32)
    requires
        account.wf(),
        !account.locked,
        account.is_disputed(tx),
    ensures
        account.resolve_result(tx) is Ok,
        account.resolve(tx).available_value() == account.available_value() + account.deposit_value(
            tx,
        ),
        account.resolve(tx).held_value() == account.held_value() - account.deposit_value(tx),
        account.resolve(tx).total_value() == account.total_value(),
        account.resolve(tx).locked == account.locked,
        account.resolve(tx).deposits == account.deposits.insert(
            tx,
            DepositRecord { amount: account.deposits[tx].amount, disputed: false },
        ),
{
    lemma_parts_are_exact(account.available, account.deposits[tx].amount);
    lemma_parts_are_exact(account.held, account.deposits[tx].amount);
}

/// On a locked account every operation fails with `Frozen` and changes nothing.
pub proof fn lemma_locked_rejects(account: Account, op: Operation)
    requires
        account.locked,
    ensures
        account.result_of(op) == Err::<(), _>(AccountUpdateFailure::Frozen),
        account.apply(op) == account,
{
}

/// No operation lifts the lock.
pub proof fn lemma_lock_stays(account: Account, op: Operation)
    requires
        account.locked,
    ensures
        account.apply(op).locked,
{
}

/// A locked account stays as it is, whatever operations follow, and each of
/// them fails with `Frozen`.
pub proof fn lemma_locked_is_final(account: Account, ops: Seq<Operation>)
    requires
        account.locked,
    ensures
        account.apply_all(ops) == account,
        forall|i: int|
            0 <= i < ops.len() ==> account.apply_all(#[trigger] ops.take(i)).result_of(ops[i])
                == Err::<(), _>(AccountUpdateFailure::Frozen),
    decreases ops.len(),
{
    if ops.len() > 0 {
        lemma_locked_is_final(account, ops.drop_last());
        assert forall|i: int| 0 <= i < ops.len() implies account.apply_all(
            #[trigger] ops.take(i),
        ).result_of(ops[i]) == Err::<(), _>(AccountUpdateFailure::Frozen) by {
            lemma_locked_is_final(account, ops.take(i));
        }
    }
}

/// A chargeback of a disputed deposit on an unlocked account takes the amount
/// out of the held funds, locks the account and removes the deposit from the
/// history. Whatever operations follow, each fails with `Frozen`, the account
/// stays locked and the deposit stays out of the history.
pub proof fn lemma_chargeback_locks_for_good(account: Account, tx: u32, ops: Seq<Operation>)
    requires
        account.wf(),
        !account.locked,
        account.is_disputed(tx),
    ensures
        account.chargeback_result(tx) is Ok,
        account.chargeback(tx).locked,
        account.chargeback(tx).available == account.available,
        account.chargeback(tx).held_value() == account.held_value() - account.deposit_value(tx),
        account.chargeback(tx).total_value() == account.total_value() - account.deposit_value(tx),
        account.chargeback(tx).deposits == account.deposits.remove(tx),
        !account.chargeback(tx).deposits.contains_key(tx),
        account.chargeback(tx).apply_all(ops) == account.chargeback(tx),
        forall|i: int|
            0 <= i < ops.len() ==> account.chargeback(tx).apply_all(
                #[trigger] ops.take(i),
            ).result_of(ops[i]) == Err::<(), _>(AccountUpdateFailure::Frozen),
{
    lemma_parts_are_exact(account.held, account.deposits[tx].amount);
    lemma_locked_is_final(account.chargeback(tx), ops);
}

/// A resolve after a dispute gives back the account as it was before the
/// dispute: the funds are the same numbers, the lock and the history are the
/// same, and the deposit holds nothing. A second resolve finds the deposit
/// undisputed and changes nothing.
pub proof fn lemma_resolve_undoes_dispute(account: Account, tx: u32)
    requires
        account.wf(),
        !account.locked,
        account.deposits.contains_key(tx),
        !account.deposits[tx].disputed,
    ensures
        account.dispute(tx).resolve_result(tx) is Ok,
        account.dispute(tx).resolve(tx).available_value() == account.available_value(),
        account.dispute(tx).resolve(tx).held_value() == account.held_value(),
        account.dispute(tx).resolve(tx).locked == account.locked,
        account.dispute(tx).resolve(tx).deposits == account.deposits,
        held_for(account.dispute(tx).deposits, tx) == account.deposit_value(tx),
        held_for(account.dispute(tx).resolve(tx).deposits, tx) == 0,
        account.dispute(tx).resolve(tx).resolve_result(tx) == Err::<(), _>(
            AccountUpdateFailure::TXUndisputed,
        ),
        account.dispute(tx).resolve(tx).resolve(tx) == account.dispute(tx).resolve(tx),
{
    let amount = account.deposits[tx].amount;
    lemma_parts_are_exact(account.available, amount);
    lemma_parts_are_exact(account.held, amount);
    lemma_parts_are_exact(account.dispute(tx).available, amount);
    lemma_parts_are_exact(account.dispute(tx).held, amount);
    assert(account.dispute(tx).resolve(tx).deposits =~= account.deposits);
}

/// Only a deposit adds a record to the history, and it adds its own identifier alone.
pub proof fn lemma_only_deposits_record(account: Account, op: Operation, tx: u32)
    requires
        account.apply(op).deposits.contains_key(tx),
        !account.deposits.contains_key(tx),
    ensures
        op matches Operation::Deposit { tx: id, amount } && id == tx
            && account.apply(op).deposits[tx] == (DepositRecord { amount, disputed: false }),
{
}

/// A sequence of operations keeps the held funds equal to the sum of the disputed deposits.
pub proof fn lemma_sequences_preserve_wf(account: Account, ops: Seq<Operation>)
    requires
        account.wf(),
        forall|i: int| 0 <= i < ops.len() ==> (#[trigger] ops[i]).is_valid(),
    ensures
        account.apply_all(ops).wf(),
    decreases ops.len(),
{
    if ops.len() > 0 {
        let earlier = ops.drop_last();
        assert forall|i: int| 0 <= i < earlier.len() implies (#[trigger] earlier[i]).is_valid() by {
            assert(ops[i].is_valid());
        }
        lemma_sequences_preserve_wf(account, earlier);
        let before = account.apply_all(earlier);
        assert(ops[ops.len() - 1].is_valid());
        match ops.last() {
            Operation::Deposit { tx, amount } => lemma_operations_preserve_wf(before, tx, amount),
            Operation::Withdraw { amount } => lemma_operations_preserve_wf(before, 0, amount),
            Operation::Dispute { tx } => lemma_operations_preserve_wf(before, tx, (0, 0)),
            Operation::Resolve { tx } => lemma_operations_preserve_wf(before, tx, (0, 0)),
            Operation::Chargeback { tx } => lemma_operations_preserve_wf(before, tx, (0, 0)),
        }
    }
}

/// No deposit of the history has a negative amount.
pub open spec fn amounts_not_negative(deposits: Map<u32, DepositRecord>) -> bool {
    forall|tx: u32| deposits.contains_key(tx) ==> (#[trigger] deposits[tx]).amount.0 >= 0
}

/// The disputed deposits below a bound hold no negative sum where no deposit is negative.
pub proof fn lemma_held_below_not_negative(deposits: Map<u32, DepositRecord>, bound: nat)
    requires
        amounts_not_negative(deposits),
    ensures
        held_below(deposits, bound) >= 0,
    decreases bound,
{
    if bound > 0 {
        lemma_held_below_not_negative(deposits, (bound - 1) as nat);
        let tx = (bound - 1) as u32;
        if deposits.contains_key(tx) {
            let amount = deposits[tx].amount;
            let unit = pow10((MAX_SCALE - amount.1) as nat);
            lemma_pow10_positive((MAX_SCALE - amount.1) as nat);
            assert(amount.0 * unit >= 0) by (nonlinear_arith)
                requires
                    amount.0 >= 0,
                    unit >= 1,
            ;
        }
    }
}

/// The held funds are not negative where no deposit is, and every operation
/// but a negative deposit keeps the deposits that way.
pub proof fn lemma_held_is_not_negative(account: Account, op: Operation)
    requires
        account.wf(),
        amounts_not_negative(account.deposits),
    ensures
        account.held_value() >= 0,
        !(op matches Operation::Deposit { amount, .. } && amount.0 < 0) ==> amounts_not_negative(
            account.apply(op).deposits,
        ),
{
    lemma_held_below_not_negative(account.deposits, 0x1_0000_0000);
}

} // verus!
