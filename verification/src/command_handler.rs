//! The dispatch of commands to the accounts of a registry.

use crate::account::Account;
use crate::client_data::{AccountUpdateFailure, ClientData, ClientID, TransactionID};
use crate::command::{Command, CommandType, CommandView};
use crate::text::{decimal_digits, u32_to_string};
use std::collections::HashMap;
use vstd::pervasive::unreached;
use vstd::prelude::*;
use vstd::string::StringExecFns;

verus! {

broadcast use vstd::std_specs::hash::group_hash_axioms;

/// How a diagnostic is to be reported.
#[derive(Copy, Clone, PartialEq, Eq, Structural, Debug)]
pub enum Severity {
    /// A command that an account rejected, or that names an unknown client.
    Warning,
    /// A malformed command.
    Error,
}

/// What is reported of a command that changed nothing.
#[derive(Debug, PartialEq)]
pub struct Diagnostic {
    pub severity: Severity,
    pub message: String,
}

/// A diagnostic with its message as a sequence of characters.
pub struct DiagnosticView {
    pub severity: Severity,
    pub message: Seq<char>,
}

impl View for Diagnostic {
    type V = DiagnosticView;

    open spec fn view(&self) -> DiagnosticView {
        DiagnosticView { severity: self.severity, message: self.message@ }
    }
}

/// The view of a report that may be absent.
pub open spec fn report_view(report: Option<Diagnostic>) -> Option<DiagnosticView> {
    match report {
        Some(diagnostic) => Some(diagnostic@),
        None => None,
    }
}

/// A warning with this message.
pub open spec fn warning_report(message: Seq<char>) -> Option<DiagnosticView> {
    Some(DiagnosticView { severity: Severity::Warning, message })
}

/// An error with this message.
pub open spec fn error_report(message: Seq<char>) -> Option<DiagnosticView> {
    Some(DiagnosticView { severity: Severity::Error, message })
}

/// The text of a diagnostic: which transaction, of which kind, for which
/// client did not succeed, and why.
pub open spec fn msg_text(
    process_type: Seq<char>,
    problem: Seq<char>,
    tx: TransactionID,
    client: ClientID,
) -> Seq<char> {
    "TX:"@ + decimal_digits(tx as nat) + " to "@ + process_type + " for user:"@ + decimal_digits(
        client as nat,
    ) + " did not succeed because "@ + problem + "."@
}

pub fn msg_build(process_type: &str, problem: &str, tx: &TransactionID, client: &ClientID) -> (msg:
    String)
    ensures
        msg@ == msg_text(process_type@, problem@, *tx, *client),
{
    let mut msg = String::from_str("TX:");
    msg.append(u32_to_string(*tx).as_str());
    msg.append(" to ");
    msg.append(process_type);
    msg.append(" for user:");
    msg.append(u32_to_string(*client as u32).as_str());
    msg.append(" did not succeed because ");
    msg.append(problem);
    msg.append(".");
    msg
}

/// The account after a deposit command: a command without an amount changes nothing.
pub open spec fn deposit_effect(account: Account, cmd: CommandView) -> Account {
    match cmd.amount {
        Some(amount) => account.deposit(cmd.tx, amount),
        None => account,
    }
}

/// What is reported of a deposit command.
pub open spec fn deposit_report(account: Account, cmd: CommandView) -> Option<DiagnosticView> {
    match cmd.amount {
        Some(amount) => match account.deposit_result(cmd.tx) {
            Ok(_) => None,
            Err(AccountUpdateFailure::Frozen) => warning_report(
                msg_text("deposit"@, "their account is frozen"@, cmd.tx, cmd.client),
            ),
            Err(_) => warning_report(
                msg_text("deposit"@, "the deposit tx id is a duplicate"@, cmd.tx, cmd.client),
            ),
        },
        None => error_report(
            msg_text(
                "deposit"@,
                "the transaction did not contain the ammount"@,
                cmd.tx,
                cmd.client,
            ),
        ),
    }
}

/// The account after a withdrawal command: a command without an amount changes nothing.
pub open spec fn withdraw_effect(account: Account, cmd: CommandView) -> Account {
    match cmd.amount {
        Some(amount) => account.withdraw(amount),
        None => account,
    }
}

/// What is reported of a withdrawal command.
pub open spec fn withdraw_report(account: Account, cmd: CommandView) -> Option<DiagnosticView> {
    match cmd.amount {
        Some(amount) => match account.withdraw_result(amount) {
            Ok(_) => None,
            Err(AccountUpdateFailure::Frozen) => warning_report(
                msg_text("withdraw"@, "their account is frozen"@, cmd.tx, cmd.client),
            ),
            Err(_) => warning_report(
                msg_text("withdraw"@, "their account has insufficient funds"@, cmd.tx, cmd.client),
            ),
        },
        None => error_report(
            msg_text(
                "withdraw"@,
                "the transaction did not contain the ammount"@,
                cmd.tx,
                cmd.client,
            ),
        ),
    }
}

/// What is reported of a dispute, resolve or chargeback that the account of
/// the client answered with `result`; `process_type` names the kind.
pub open spec fn reference_report(
    process_type: Seq<char>,
    result: Result<(), AccountUpdateFailure>,
    cmd: CommandView,
) -> Option<DiagnosticView> {
    match result {
        Err(AccountUpdateFailure::Frozen) => warning_report(
            msg_text(process_type, "the corresponding user account is frozen"@, cmd.tx, cmd.client),
        ),
        Err(AccountUpdateFailure::RedundantDispute) => warning_report(
            msg_text(process_type, "the dispute was redundant"@, cmd.tx, cmd.client),
        ),
        Err(AccountUpdateFailure::TXUndisputed) => warning_report(
            msg_text(process_type, "the transaction is not under dispute"@, cmd.tx, cmd.client),
        ),
        Err(AccountUpdateFailure::TXNotFound) => warning_report(
            msg_text(
                process_type,
                "the transaction did not correspond to a known deposit for that user"@,
                cmd.tx,
                cmd.client,
            ),
        ),
        _ => None,
    }
}

/// What is reported of a dispute, resolve or chargeback for a client without an account.
pub open spec fn unknown_user_report(process_type: Seq<char>, cmd: CommandView) -> Option<
    DiagnosticView,
> {
    warning_report(
        msg_text(
            process_type,
            "the transaction did not correspond to a known user"@,
            cmd.tx,
            cmd.client,
        ),
    )
}

/// Whether a decimal holds exactly what the withdrawal of the command leaves.
pub open spec fn withdraw_command_fits(account: Account, cmd: CommandView) -> bool {
    cmd.amount matches Some(amount) ==> account.withdraw_fits(amount)
}

/// Whether a decimal holds exactly what the deposit of the command leaves.
pub open spec fn deposit_command_fits(account: Account, cmd: CommandView) -> bool {
    cmd.amount matches Some(amount) ==> account.deposit_fits(cmd.tx, amount)
}

fn warn(message: String) -> (report: Option<Diagnostic>)
    ensures
        report_view(report) == warning_report(message@),
{
    Some(Diagnostic { severity: Severity::Warning, message })
}

/// Withdraws the amount of the command from the account of its client.
///
/// A rejected withdrawal and a command without an amount change nothing and
/// are reported.
pub fn withdraw_for_client(client: &mut ClientData, cmd: &Command) -> (report: Option<Diagnostic>)
    requires
        old(client).wf(),
        withdraw_command_fits(old(client)@, cmd@),
    ensures
        final(client).wf(),
        final(client)@ == withdraw_effect(old(client)@, cmd@),
        report_view(report) == withdraw_report(old(client)@, cmd@),
{
    // get the withdrawn amount
    match cmd.get_wealth() {
        Some(wealth) => {
            // withdraw the funds
            match client.withdraw(*wealth) {
                Err(err) => {
                    if AccountUpdateFailure::Frozen == err {
                        warn(
                            msg_build(
                                "withdraw",
                                "their account is frozen",
                                &cmd.get_transaction_id(),
                                &cmd.get_client_id(),
                            ),
                        )
                    } else {
                        warn(
                            msg_build(
                                "withdraw",
                                "their account has insufficient funds",
                                &cmd.get_transaction_id(),
                                &cmd.get_client_id(),
                            ),
                        )
                    }
                },
                Ok(()) => None,
            }
        },
        // a withdrawal should always have an amount
        None => {
            let msg = msg_build(
                "withdraw",
                "the transaction did not contain the ammount",
                &cmd.get_transaction_id(),
                &cmd.get_client_id(),
            );
            Some(Diagnostic { severity: Severity::Error, message: msg })
        },
    }
}

/// Deposits the amount of the command in the account of its client.
///
/// A rejected deposit and a command without an amount change nothing and are
/// reported.
pub fn deposit_for_client(client: &mut ClientData, cmd: &Command) -> (report: Option<Diagnostic>)
    requires
        old(client).wf(),
        deposit_command_fits(old(client)@, cmd@),
    ensures
        final(client).wf(),
        final(client)@ == deposit_effect(old(client)@, cmd@),
        report_view(report) == deposit_report(old(client)@, cmd@),
{
    // get the deposited amount
    match cmd.get_wealth() {
        Some(wealth) => {
            // add the funds to the account
            match client.deposit(cmd.get_transaction_id(), *wealth) {
                Err(err) => {
                    match err {
                        AccountUpdateFailure::Frozen => warn(
                            msg_build(
                                "deposit",
                                "their account is frozen",
                                &cmd.get_transaction_id(),
                                &cmd.get_client_id(),
                            ),
                        ),
                        AccountUpdateFailure::DuplicateDepositTX => warn(
                            msg_build(
                                "deposit",
                                "the deposit tx id is a duplicate",
                                &cmd.get_transaction_id(),
                                &cmd.get_client_id(),
                            ),
                        ),
                        // a deposit fails in no other way
                        _ => unreached(),
                    }
                },
                Ok(()) => None,
            }
        },
        // a deposit should always have an amount
        None => {
            let msg = msg_build(
                "deposit",
                "the transaction did not contain the ammount",
                &cmd.get_transaction_id(),
                &cmd.get_client_id(),
            );
            Some(Diagnostic { severity: Severity::Error, message: msg })
        },
    }
}

/// The accounts of a registry, each as the model sees it.
pub open spec fn accounts_of(registry: Map<ClientID, ClientData>) -> Map<ClientID, Account> {
    Map::new(|id: ClientID| registry.contains_key(id), |id: ClientID| registry[id]@)
}

/// Every account of the registry is well formed.
pub open spec fn registry_wf(registry: Map<ClientID, ClientData>) -> bool {
    forall|id: ClientID| registry.contains_key(id) ==> (#[trigger] registry[id]).wf()
}

/// The account of a client, or a new one where the client has none.
pub open spec fn account_of(accounts: Map<ClientID, Account>, client: ClientID) -> Account {
    if accounts.contains_key(client) {
        accounts[client]
    } else {
        Account::new()
    }
}

/// The accounts after one command.
///
/// A deposit or a withdrawal creates the account of a client that has none,
/// whether or not the command succeeds. A dispute, resolve or chargeback for
/// a client without an account changes nothing.
pub open spec fn step(accounts: Map<ClientID, Account>, cmd: CommandView) -> Map<
    ClientID,
    Account,
> {
    match cmd.kind {
        CommandType::Deposit => accounts.insert(
            cmd.client,
            deposit_effect(account_of(accounts, cmd.client), cmd),
        ),
        CommandType::Withdraw => accounts.insert(
            cmd.client,
            withdraw_effect(account_of(accounts, cmd.client), cmd),
        ),
        CommandType::Dispute => if accounts.contains_key(cmd.client) {
            accounts.insert(cmd.client, accounts[cmd.client].dispute(cmd.tx))
        } else {
            accounts
        },
        CommandType::Resolve => if accounts.contains_key(cmd.client) {
            accounts.insert(cmd.client, accounts[cmd.client].resolve(cmd.tx))
        } else {
            accounts
        },
        CommandType::Chargeback => if accounts.contains_key(cmd.client) {
            accounts.insert(cmd.client, accounts[cmd.client].chargeback(cmd.tx))
        } else {
            accounts
        },
    }
}

/// What is reported of one command.
pub open spec fn report(accounts: Map<ClientID, Account>, cmd: CommandView) -> Option<
    DiagnosticView,
> {
    match cmd.kind {
        CommandType::Deposit => deposit_report(account_of(accounts, cmd.client), cmd),
        CommandType::Withdraw => withdraw_report(account_of(accounts, cmd.client), cmd),
        CommandType::Dispute => if accounts.contains_key(cmd.client) {
            reference_report("dispute"@, accounts[cmd.client].dispute_result(cmd.tx), cmd)
        } else {
            unknown_user_report("dispute"@, cmd)
        },
        CommandType::Resolve => if accounts.contains_key(cmd.client) {
            reference_report("resolve"@, accounts[cmd.client].resolve_result(cmd.tx), cmd)
        } else {
            unknown_user_report("resolve"@, cmd)
        },
        CommandType::Chargeback => if accounts.contains_key(cmd.client) {
            reference_report("chargeback"@, accounts[cmd.client].chargeback_result(cmd.tx), cmd)
        } else {
            unknown_user_report("chargeback"@, cmd)
        },
    }
}

/// Whether a decimal holds exactly what the command leaves in the account of
/// its client. For a client without an account it always does.
pub open spec fn command_fits(accounts: Map<ClientID, Account>, cmd: CommandView) -> bool {
    accounts.contains_key(cmd.client) ==> {
        let account = accounts[cmd.client];
        match cmd.kind {
            CommandType::Deposit => deposit_command_fits(account, cmd),
            CommandType::Withdraw => withdraw_command_fits(account, cmd),
            CommandType::Dispute => account.dispute_fits(cmd.tx),
            CommandType::Resolve => account.resolve_fits(cmd.tx),
            CommandType::Chargeback => account.chargeback_fits(cmd.tx),
        }
    }
}

/// Whether `handle_command` may be called with this command.
pub fn accepts(registry: &HashMap<ClientID, ClientData>, cmd: &Command) -> (ok: bool)
    ensures
        ok == command_fits(accounts_of(registry@), cmd@),
{
    match registry.get(&cmd.get_client_id()) {
        Some(client) => match cmd.get_type() {
            CommandType::Deposit => match cmd.get_wealth() {
                Some(wealth) => client.can_deposit(cmd.get_transaction_id(), *wealth),
                None => true,
            },
            CommandType::Withdraw => match cmd.get_wealth() {
                Some(wealth) => client.can_withdraw(*wealth),
                None => true,
            },
            CommandType::Dispute => client.can_dispute(cmd.get_transaction_id()),
            CommandType::Resolve => client.can_resolve(cmd.get_transaction_id()),
            CommandType::Chargeback => client.can_chargeback(cmd.get_transaction_id()),
        },
        None => true,
    }
}

/// The report of a dispute, resolve or chargeback that the account answered with `result`.
fn report_reference(process_type: &str, result: Result<(), AccountUpdateFailure>, cmd: &Command) -> (report:
    Option<Diagnostic>)
    ensures
        report_view(report) == reference_report(process_type@, result, cmd@),
{
    match result {
        Err(err) => match err {
            AccountUpdateFailure::Frozen => warn(
                msg_build(
                    process_type,
                    "the corresponding user account is frozen",
                    &cmd.get_transaction_id(),
                    &cmd.get_client_id(),
                ),
            ),
            AccountUpdateFailure::RedundantDispute => warn(
                msg_build(
                    process_type,
                    "the dispute was redundant",
                    &cmd.get_transaction_id(),
                    &cmd.get_client_id(),
                ),
            ),
            AccountUpdateFailure::TXUndisputed => warn(
                msg_build(
                    process_type,
                    "the transaction is not under dispute",
                    &cmd.get_transaction_id(),
                    &cmd.get_client_id(),
                ),
            ),
            AccountUpdateFailure::TXNotFound => warn(
                msg_build(
                    process_type,
                    "the transaction did not correspond to a known deposit for that user",
                    &cmd.get_transaction_id(),
                    &cmd.get_client_id(),
                ),
            ),
            _ => None,
        },
        Ok(()) => None,
    }
}

/// The report of a dispute, resolve or chargeback for a client without an account.
fn report_unknown_user(process_type: &str, cmd: &Command) -> (report: Option<Diagnostic>)
    ensures
        report_view(report) == unknown_user_report(process_type@, cmd@),
{
    warn(
        msg_build(
            process_type,
            "the transaction did not correspond to a known user",
            &cmd.get_transaction_id(),
            &cmd.get_client_id(),
        ),
    )
}

/// Applies one command to the account of its client and says what is to be reported.
///
/// A rejected or malformed command changes no funds and is reported; it never
/// stops the stream.
pub fn handle_command(registry: &mut HashMap<ClientID, ClientData>, cmd: &Command) -> (reported:
    Option<Diagnostic>)
    requires
        registry_wf(old(registry)@),
        command_fits(accounts_of(old(registry)@), cmd@),
    ensures
        registry_wf(final(registry)@),
        accounts_of(final(registry)@) == step(accounts_of(old(registry)@), cmd@),
        report_view(reported) == report(accounts_of(old(registry)@), cmd@),
{
    let id = cmd.get_client_id();
    let ghost before = accounts_of(registry@);
    // Identify the type of command
    match cmd.get_type() {
        // For deposits...
        CommandType::Deposit => {
            // find the client, or create it
            let mut client = match registry.remove(&id) {
                Some(client) => client,
                None => ClientData::new(),
            };
            let reported = deposit_for_client(&mut client, cmd);
            registry.insert(id, client);
            assert(accounts_of(registry@) =~= step(before, cmd@));
            reported
        },
        // For withdrawals...
        CommandType::Withdraw => {
            // find the client, or create it
            let mut client = match registry.remove(&id) {
                Some(client) => client,
                None => ClientData::new(),
            };
            let reported = withdraw_for_client(&mut client, cmd);
            registry.insert(id, client);
            assert(accounts_of(registry@) =~= step(before, cmd@));
            reported
        },
        // For disputes...
        CommandType::Dispute => {
            match registry.remove(&id) {
                // If the client is known, handle the dispute.
                Some(mut client) => {
                    let result = client.dispute(cmd.get_transaction_id());
                    registry.insert(id, client);
                    assert(accounts_of(registry@) =~= step(before, cmd@));
                    report_reference("dispute", result, cmd)
                },
                // If the client is unknown...
                None => {
                    assert(accounts_of(registry@) =~= before);
                    report_unknown_user("dispute", cmd)
                },
            }
        },
        // For resolves...
        CommandType::Resolve => {
            match registry.remove(&id) {
                Some(mut client) => {
                    let result = client.resolve(cmd.get_transaction_id());
                    registry.insert(id, client);
                    assert(accounts_of(registry@) =~= step(before, cmd@));
                    report_reference("resolve", result, cmd)
                },
                None => {
                    assert(accounts_of(registry@) =~= before);
                    report_unknown_user("resolve", cmd)
                },
            }
        },
        // For chargebacks...
        CommandType::Chargeback => {
            match registry.remove(&id) {
                Some(mut client) => {
                    let result = client.chargeback(cmd.get_transaction_id());
                    registry.insert(id, client);
                    assert(accounts_of(registry@) =~= step(before, cmd@));
                    report_reference("chargeback", result, cmd)
                },
                None => {
                    assert(accounts_of(registry@) =~= before);
                    report_unknown_user("chargeback", cmd)
                },
            }
        },
    }
}

/// The commands of a sequence, each as the model sees it.
pub open spec fn command_views(commands: Seq<Command>) -> Seq<CommandView> {
    commands.map_values(|cmd: Command| cmd@)
}

/// The diagnostics of a sequence, each with its message as characters.
pub open spec fn diagnostic_views(diagnostics: Seq<Diagnostic>) -> Seq<DiagnosticView> {
    diagnostics.map_values(|diagnostic: Diagnostic| diagnostic@)
}

/// The accounts after a sequence of commands, applied first to last.
pub open spec fn run(accounts: Map<ClientID, Account>, cmds: Seq<CommandView>) -> Map<
    ClientID,
    Account,
>
    decreases cmds.len(),
{
    if cmds.len() == 0 {
        accounts
    } else {
        step(run(accounts, cmds.drop_last()), cmds.last())
    }
}

/// What is reported of a sequence of commands, in the order of the commands.
pub open spec fn reports(accounts: Map<ClientID, Account>, cmds: Seq<CommandView>) -> Seq<
    DiagnosticView,
>
    decreases cmds.len(),
{
    if cmds.len() == 0 {
        Seq::empty()
    } else {
        let earlier = reports(accounts, cmds.drop_last());
        match report(run(accounts, cmds.drop_last()), cmds.last()) {
            Some(diagnostic) => earlier.push(diagnostic),
            None => earlier,
        }
    }
}

/// Whether a decimal holds exactly what each command of the sequence leaves
/// in the accounts that the commands before it left.
pub open spec fn all_fit(accounts: Map<ClientID, Account>, cmds: Seq<CommandView>) -> bool {
    forall|i: int|
        0 <= i < cmds.len() ==> command_fits(run(accounts, #[trigger] cmds.take(i)), cmds[i])
}

/// Applies the commands in their order, each to the accounts that the
/// commands before it left, and collects what is to be reported.
///
/// It stops before the first command whose result a decimal cannot hold
/// exactly, and returns the number of commands applied with the diagnostics:
/// all commands were applied where that number is their count.
pub fn handle_commands(registry: &mut HashMap<ClientID, ClientData>, commands: &Vec<Command>) -> (done:
    (Vec<Diagnostic>, usize))
    requires
        registry_wf(old(registry)@),
    ensures
        registry_wf(final(registry)@),
        done.1 <= commands.len(),
        accounts_of(final(registry)@) == run(
            accounts_of(old(registry)@),
            command_views(commands@.take(done.1 as int)),
        ),
        diagnostic_views(done.0@) == reports(
            accounts_of(old(registry)@),
            command_views(commands@.take(done.1 as int)),
        ),
        done.1 < commands.len() ==> !command_fits(
            accounts_of(final(registry)@),
            commands[done.1 as int]@,
        ),
        all_fit(accounts_of(old(registry)@), command_views(commands@)) ==> done.1
            == commands.len(),
{
    let mut diagnostics: Vec<Diagnostic> = Vec::new();
    let mut applied: usize = 0;
    let ghost start = accounts_of(registry@);
    proof {
        assert(command_views(commands@.take(0)) =~= Seq::<CommandView>::empty());
        assert(diagnostic_views(diagnostics@) =~= Seq::<DiagnosticView>::empty());
    }
    while applied < commands.len()
        invariant
            applied <= commands.len(),
            registry_wf(registry@),
            start == accounts_of(old(registry)@),
            accounts_of(registry@) == run(start, command_views(commands@.take(applied as int))),
            diagnostic_views(diagnostics@) == reports(
                start,
                command_views(commands@.take(applied as int)),
            ),
        ensures
            applied <= commands.len(),
            registry_wf(registry@),
            accounts_of(registry@) == run(start, command_views(commands@.take(applied as int))),
            diagnostic_views(diagnostics@) == reports(
                start,
                command_views(commands@.take(applied as int)),
            ),
            applied < commands.len() ==> !command_fits(
                accounts_of(registry@),
                commands[applied as int]@,
            ),
        decreases commands.len() - applied,
    {
        let cmd = &commands[applied];
        if !accepts(registry, cmd) {
            break;
        }
        let ghost earlier = command_views(commands@.take(applied as int));
        let ghost reported_earlier = diagnostic_views(diagnostics@);
        let reported = handle_command(registry, cmd);
        match reported {
            Some(diagnostic) => {
                diagnostics.push(diagnostic);
                assert(diagnostic_views(diagnostics@) =~= reported_earlier.push(diagnostic@));
            },
            None => {},
        }
        applied = applied + 1;
        proof {
            let now = command_views(commands@.take(applied as int));
            assert(now.drop_last() =~= earlier);
            assert(now.last() == cmd@);
        }
    }
    proof {
        if applied < commands.len() {
            let all = command_views(commands@);
            assert(all.take(applied as int) =~= command_views(commands@.take(applied as int)));
            assert(all[applied as int] == commands[applied as int]@);
        }
    }
    (diagnostics, applied)
}

/// A command changes no account but that of its client.
pub proof fn lemma_step_keeps_other_clients(
    accounts: Map<ClientID, Account>,
    cmd: CommandView,
    other: ClientID,
)
    requires
        other != cmd.client,
    ensures
        step(accounts, cmd).contains_key(other) == accounts.contains_key(other),
        accounts.contains_key(other) ==> step(accounts, cmd)[other] == accounts[other],
{
}

/// A deposit or a withdrawal leaves its client with an account; a dispute,
/// resolve or chargeback creates none, and for a client without an account
/// it changes nothing and is reported.
pub proof fn lemma_step_creates_accounts_for_funds_only(
    accounts: Map<ClientID, Account>,
    cmd: CommandView,
)
    ensures
        cmd.kind == CommandType::Deposit || cmd.kind == CommandType::Withdraw ==> step(
            accounts,
            cmd,
        ).contains_key(cmd.client),
        cmd.kind != CommandType::Deposit && cmd.kind != CommandType::Withdraw
            && !accounts.contains_key(cmd.client) ==> step(accounts, cmd) == accounts && report(
            accounts,
            cmd,
        ) is Some,
        accounts.contains_key(cmd.client) ==> step(accounts, cmd).contains_key(cmd.client),
{
}

/// A command that is reported changes the funds, the lock and the history of
/// no account: at most it creates the empty account of its client.
pub proof fn lemma_reported_commands_change_nothing(
    accounts: Map<ClientID, Account>,
    cmd: CommandView,
)
    requires
        report(accounts, cmd) is Some,
    ensures
        step(accounts, cmd) == if accounts.contains_key(cmd.client) || (cmd.kind
            != CommandType::Deposit && cmd.kind != CommandType::Withdraw) {
            accounts
        } else {
            accounts.insert(cmd.client, Account::new())
        },
{
    assert(step(accounts, cmd) =~= if accounts.contains_key(cmd.client) || (cmd.kind
        != CommandType::Deposit && cmd.kind != CommandType::Withdraw) {
        accounts
    } else {
        accounts.insert(cmd.client, Account::new())
    });
}

/// One more command is one more step, and one more report where the command is reported.
pub proof fn lemma_run_one_more(
    accounts: Map<ClientID, Account>,
    cmds: Seq<CommandView>,
    cmd: CommandView,
)
    ensures
        run(accounts, cmds.push(cmd)) == step(run(accounts, cmds), cmd),
        reports(accounts, cmds.push(cmd)) == match report(run(accounts, cmds), cmd) {
            Some(diagnostic) => reports(accounts, cmds).push(diagnostic),
            None => reports(accounts, cmds),
        },
{
    assert(cmds.push(cmd).drop_last() =~= cmds);
}

/// Running two sequences of commands one after the other is running their concatenation.
pub proof fn lemma_run_in_parts(
    accounts: Map<ClientID, Account>,
    first: Seq<CommandView>,
    second: Seq<CommandView>,
)
    ensures
        run(accounts, first + second) == run(run(accounts, first), second),
        reports(accounts, first + second) == reports(accounts, first) + reports(
            run(accounts, first),
            second,
        ),
    decreases second.len(),
{
    if second.len() == 0 {
        assert(first + second =~= first);
        assert(reports(accounts, first) + Seq::<DiagnosticView>::empty() =~= reports(
            accounts,
            first,
        ));
    } else {
        lemma_run_in_parts(accounts, first, second.drop_last());
        assert((first + second).drop_last() =~= first + second.drop_last());
        assert((first + second).last() == second.last());
        let middle = run(accounts, first);
        match report(run(middle, second.drop_last()), second.last()) {
            Some(diagnostic) => {
                assert((reports(accounts, first) + reports(middle, second.drop_last())).push(
                    diagnostic,
                ) =~= reports(accounts, first) + reports(middle, second.drop_last()).push(
                    diagnostic,
                ));
            },
            None => {},
        }
    }
}

} // verus!
