//! The lines of the account snapshot.
//!
//! The snapshot is comma-separated text: a line of headers, then one record
//! per account with the client, the available, held and total funds, each
//! rounded to four fractional digits, and the lock.

use crate::account::Account;
use crate::amount::{decimal_text, rounded};
use crate::client_data::{ClientData, ClientID};
use crate::text::{decimal_digits, u32_to_string};
use vstd::prelude::*;
use vstd::string::StringExecFns;

verus! {

/// The number of fractional digits of an amount in the snapshot.
pub const RECORD_PLACES: u32 = 4;

/// The text of the amount with the given mantissa and scale in a record.
pub open spec fn amount_text(parts: (int, nat)) -> Seq<char> {
    decimal_text(rounded(parts, RECORD_PLACES as nat))
}

/// The text of the lock in a record.
pub open spec fn lock_text(locked: bool) -> Seq<char> {
    if locked {
        "true"@
    } else {
        "false"@
    }
}

/// The record of an account, with the line feed that ends it.
pub open spec fn record_text(client_id: ClientID, account: Account) -> Seq<char> {
    decimal_digits(client_id as nat) + ","@ + amount_text(account.available) + ","@ + amount_text(
        account.held,
    ) + ","@ + amount_text(account.total()) + ","@ + lock_text(account.locked) + "\n"@
}

/// The line of headers, with the line feed that ends it.
pub fn csv_headers() -> (headers: String)
    ensures
        headers@ == "client,available,held,total,locked\n"@,
{
    String::from_str("client,available,held,total,locked\n")
}

/// The record of one account.
pub fn csv_record(client_id: ClientID, client: &ClientData) -> (record: String)
    requires
        client@.total_fits(),
    ensures
        record@ == record_text(client_id, client@),
{
    let mut record = u32_to_string(client_id as u32);
    record.append(",");
    record.append(client.get_wealth().round_dp(RECORD_PLACES).to_text().as_str());
    record.append(",");
    record.append(client.get_held_wealth().round_dp(RECORD_PLACES).to_text().as_str());
    record.append(",");
    record.append(client.get_total().round_dp(RECORD_PLACES).to_text().as_str());
    record.append(",");
    record.append(
        if client.is_locked() {
            "true"
        } else {
            "false"
        },
    );
    record.append("\n");
    record
}

} // verus!
