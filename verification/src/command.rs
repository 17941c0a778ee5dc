//! The commands that drive the ledger.
//!
//! A [`Command`] is an immutable intent: its kind, the client and the
//! transaction it is about, and an amount. Deposits and withdrawals need the
//! amount; the other kinds ignore it.

use crate::amount::Amount;
use crate::client_data::{ClientID, TransactionID};
use vstd::prelude::*;

verus! {

/// The kind of a command.
#[derive(Copy, Clone, PartialEq, Eq, Structural, Debug)]
pub enum CommandType {
    Withdraw,
    Deposit,
    Dispute,
    Resolve,
    Chargeback,
}

/// One command as it arrived.
#[derive(Copy, Clone, Debug, PartialEq)]
pub struct Command {
    command_type: CommandType,
    client_id: ClientID,
    transaction_id: TransactionID,
    wealth: Option<Amount>,
}

/// A command with its amount as mantissa and scale.
pub struct CommandView {
    pub kind: CommandType,
    pub client: ClientID,
    pub tx: TransactionID,
    pub amount: Option<(int, nat)>,
}

impl View for Command {
    type V = CommandView;

    open spec fn view(&self) -> CommandView {
        CommandView {
            kind: self.get_type(),
            client: self.get_client_id(),
            tx: self.get_transaction_id(),
            amount: match self.get_wealth() {
                Some(wealth) => Some(wealth.parts()),
                None => None,
            },
        }
    }
}

impl Command {
    pub closed spec fn spec_get_type(&self) -> CommandType {
        self.command_type
    }

    pub closed spec fn spec_get_client_id(&self) -> ClientID {
        self.client_id
    }

    pub closed spec fn spec_get_transaction_id(&self) -> TransactionID {
        self.transaction_id
    }

    pub closed spec fn spec_get_wealth(&self) -> &Option<Amount> {
        &self.wealth
    }

    pub fn new(
        command_type: CommandType,
        client_id: ClientID,
        transaction_id: TransactionID,
        wealth: Option<Amount>,
    ) -> (cmd: Command)
        ensures
            cmd.get_type() == command_type,
            cmd.get_client_id() == client_id,
            cmd.get_transaction_id() == transaction_id,
            *cmd.get_wealth() == wealth,
    {
        Command { command_type, client_id, transaction_id, wealth }
    }

    #[verifier::when_used_as_spec(spec_get_type)]
    pub fn get_type(&self) -> (command_type: CommandType)
        ensures
            command_type == self.get_type(),
    {
        self.command_type
    }

    #[verifier::when_used_as_spec(spec_get_client_id)]
    pub fn get_client_id(&self) -> (client_id: ClientID)
        ensures
            client_id == self.get_client_id(),
    {
        self.client_id
    }

    #[verifier::when_used_as_spec(spec_get_transaction_id)]
    pub fn get_transaction_id(&self) -> (transaction_id: TransactionID)
        ensures
            transaction_id == self.get_transaction_id(),
    {
        self.transaction_id
    }

    #[verifier::when_used_as_spec(spec_get_wealth)]
    pub fn get_wealth(&self) -> (wealth: &Option<Amount>)
        ensures
            wealth == self.get_wealth(),
    {
        &self.wealth
    }
}

} // verus!
