//! A ledger of client accounts driven by a stream of transaction commands.
//!
//! Amounts are exact decimals whose arithmetic is done by `rust_decimal`;
//! the account rules and the command dispatch are verified against a
//! mathematical model of each account.

pub mod account;
pub mod amount;
pub mod client_data;
pub mod command;
pub mod command_handler;
pub mod logger;
pub mod text;
pub mod transaction_csv;
