use transaction_parser::amount::Amount;
use transaction_parser::client_data::{AccountUpdateFailure, ClientData};

/// The decimal `number` with `scale` fractional digits.
fn dec(number: f64, scale: u32) -> Amount {
    let mantissa = (number * 10f64.powi(scale as i32)).round() as i128;
    Amount::new(mantissa, scale).unwrap()
}

#[test]
fn test_deposit() {
    let mut client = ClientData::new();
    assert_eq!(client.get_wealth(), dec(0.0000, 4));
    assert_eq!(Ok(()), client.deposit(1, dec(20.0, 1)));
    assert_eq!(client.get_wealth(), dec(20.0, 1));

    assert_eq!(Err(AccountUpdateFailure::DuplicateDepositTX), client.deposit(1, dec(20.0, 1)));

    client.set_locked(true);
    assert_eq!(Err(AccountUpdateFailure::Frozen), client.deposit(2, dec(2.0, 1)))
}

#[test]
fn test_withdraw() {
    let mut client = ClientData::new();
    assert_eq!(client.get_wealth(), dec(0.0000, 4));
    assert_eq!(Ok(()), client.deposit(1, dec(20.0, 1)));

    assert_eq!(Ok(()), client.withdraw(dec(10.0, 1)));
    assert_eq!(client.get_wealth(), dec(10.0, 1));

    client.set_locked(true);
    let result = client.withdraw(dec(5.0, 1));
    assert_eq!(result, Err(AccountUpdateFailure::Frozen));
    client.set_locked(false);

    let result = client.withdraw(dec(500.0, 1));
    assert_eq!(result, Err(AccountUpdateFailure::InsufficientFunds));

    assert_eq!(Ok(()), client.dispute(1));
    let result = client.withdraw(dec(5.0, 1));
    assert_eq!(result, Err(AccountUpdateFailure::InsufficientFunds));
}

#[test]
fn test_dispute() {
    let mut client = ClientData::new();
    assert_eq!(client.get_wealth(), dec(0.0000, 4));
    assert_eq!(Ok(()), client.deposit(1, dec(20.0, 1)));

    assert_eq!(Ok(()), client.dispute(1));
    assert_eq!(client.get_wealth(), dec(0.0000, 4));
    assert_eq!(client.get_held_wealth(), dec(20.0, 1));

    assert_eq!(Err(AccountUpdateFailure::RedundantDispute), client.dispute(1));

    // to verify dispute can be done again after resolve
    assert_eq!(Ok(()), client.resolve(1));
    // to verify disputing insufficient funds forces available balance negative
    assert_eq!(Ok(()), client.withdraw(dec(5.0, 1)));

    assert_eq!(Ok(()), client.dispute(1));
    assert_eq!(client.get_wealth(), dec(-5.0, 1));

    assert_eq!(Err(AccountUpdateFailure::TXNotFound), client.dispute(42));

    client.set_locked(true);
    assert_eq!(Err(AccountUpdateFailure::Frozen), client.dispute(1));
}

#[test]
fn test_resolve() {
    let mut client = ClientData::new();
    assert_eq!(client.get_wealth(), dec(0.0000, 4));
    assert_eq!(Ok(()), client.deposit(1, dec(20.0, 1)));

    assert_eq!(Ok(()), client.dispute(1));
    assert_eq!(client.get_wealth(), dec(0.0000, 4));
    assert_eq!(client.get_held_wealth(), dec(20.0, 1));

    assert_eq!(Ok(()), client.resolve(1));
    assert_eq!(client.get_held_wealth(), dec(0.0000, 4));
    assert_eq!(client.get_wealth(), dec(20.0, 1));

    assert_eq!(Err(AccountUpdateFailure::TXNotFound), client.resolve(42));

    assert_eq!(Err(AccountUpdateFailure::TXUndisputed), client.resolve(1));

    client.set_locked(true);
    assert_eq!(Err(AccountUpdateFailure::Frozen), client.resolve(1));
}

#[test]
fn test_chargeback() {
    let mut client = ClientData::new();
    assert_eq!(client.get_wealth(), dec(0.0000, 4));
    assert_eq!(Ok(()), client.deposit(1, dec(20.0, 1)));

    assert_eq!(Ok(()), client.dispute(1));
    assert_eq!(client.get_wealth(), dec(0.0000, 4));
    assert_eq!(client.get_held_wealth(), dec(20.0, 1));

    assert_eq!(Ok(()), client.chargeback(1));
    assert_eq!(client.get_wealth(), dec(0.0000, 4));
    assert_eq!(client.get_held_wealth(), dec(0.0000, 4));

    // client should be frozen after chargeback
    assert_eq!(Err(AccountUpdateFailure::Frozen), client.chargeback(1));
    client.set_locked(false);
    assert_eq!(Ok(()), client.deposit(1, dec(20.0, 1)));

    // to verify chargeback of insufficient funds forces available balance negative
    assert_eq!(Ok(()), client.withdraw(dec(5.0, 1)));
    assert_eq!(Ok(()), client.dispute(1));
    assert_eq!(Ok(()), client.chargeback(1));
    assert_eq!(client.get_wealth(), dec(-5.0000, 4));
    assert_eq!(client.get_held_wealth(), dec(0.0000, 4));
    client.set_locked(false);

    assert_eq!(Err(AccountUpdateFailure::TXNotFound), client.chargeback(42));

    assert_eq!(Ok(()), client.deposit(1, dec(20.0, 1)));
    assert_eq!(Err(AccountUpdateFailure::TXUndisputed), client.chargeback(1));
}

#[test]
fn new_account_is_empty_and_unlocked() {
    let client = ClientData::new();
    assert!(!client.is_locked());
    assert_eq!(client.get_wealth().mantissa(), 0);
    assert_eq!(client.get_wealth().scale(), 1);
    assert_eq!(client.get_held_wealth().mantissa(), 0);
    assert_eq!(client.get_held_wealth().scale(), 1);
    assert_eq!(client.get_total(), dec(0.0, 1));
}

#[test]
fn deposits_with_distinct_ids_add_up() {
    let mut client = ClientData::new();
    assert_eq!(Ok(()), client.deposit(44, dec(22.125, 3)));
    assert_eq!(Ok(()), client.deposit(43, dec(11.0625, 4)));
    assert_eq!(Ok(()), client.deposit(45, dec(3.0, 0)));
    // 22.125 + 11.0625 + 3 = 36.1875, at the largest scale met
    assert_eq!(client.get_wealth().mantissa(), 361875);
    assert_eq!(client.get_wealth().scale(), 4);
    assert_eq!(client.get_held_wealth(), dec(0.0, 1));
}

#[test]
fn repeated_deposit_leaves_the_account_unchanged() {
    let mut client = ClientData::new();
    assert_eq!(Ok(()), client.deposit(7, dec(1.5, 1)));
    assert_eq!(Err(AccountUpdateFailure::DuplicateDepositTX), client.deposit(7, dec(99.0, 1)));
    assert_eq!(client.get_wealth().mantissa(), 15);
    assert_eq!(client.get_wealth().scale(), 1);
    assert_eq!(client.get_held_wealth(), dec(0.0, 1));
    assert!(!client.is_locked());
    // the record still holds the first amount
    assert_eq!(Ok(()), client.dispute(7));
    assert_eq!(client.get_held_wealth(), dec(1.5, 1));
}

#[test]
fn withdraw_never_exceeds_available_nor_touches_held() {
    let mut client = ClientData::new();
    assert_eq!(Ok(()), client.deposit(1, dec(10.0, 1)));
    assert_eq!(Ok(()), client.deposit(2, dec(4.0, 1)));
    assert_eq!(Ok(()), client.dispute(2));
    // available 10, held 4
    assert_eq!(Err(AccountUpdateFailure::InsufficientFunds), client.withdraw(dec(10.0001, 4)));
    assert_eq!(client.get_wealth(), dec(10.0, 1));
    assert_eq!(client.get_held_wealth(), dec(4.0, 1));
    // the whole of the available funds can leave
    assert_eq!(Ok(()), client.withdraw(dec(10.0, 1)));
    assert_eq!(client.get_wealth(), dec(0.0, 1));
    assert_eq!(client.get_held_wealth(), dec(4.0, 1));
    assert_eq!(client.get_total(), dec(4.0, 1));
}

#[test]
fn dispute_moves_the_amount_and_rejects_a_second_dispute() {
    let mut client = ClientData::new();
    assert_eq!(Ok(()), client.deposit(1, dec(7.25, 2)));
    assert_eq!(Ok(()), client.deposit(2, dec(3.0, 1)));
    assert_eq!(Ok(()), client.dispute(1));
    assert_eq!(client.get_wealth(), dec(3.0, 1));
    assert_eq!(client.get_held_wealth(), dec(7.25, 2));
    assert_eq!(client.get_total(), dec(10.25, 2));
    assert_eq!(Err(AccountUpdateFailure::RedundantDispute), client.dispute(1));
    assert_eq!(client.get_wealth(), dec(3.0, 1));
    assert_eq!(client.get_held_wealth(), dec(7.25, 2));
}

#[test]
fn chargeback_locks_the_account_for_good() {
    let mut client = ClientData::new();
    assert_eq!(Ok(()), client.deposit(1, dec(4.0, 1)));
    assert_eq!(Ok(()), client.deposit(2, dec(6.0, 1)));
    assert_eq!(Ok(()), client.dispute(1));
    assert_eq!(Ok(()), client.chargeback(1));
    assert!(client.is_locked());
    assert_eq!(client.get_wealth(), dec(6.0, 1));
    assert_eq!(client.get_held_wealth(), dec(0.0, 1));

    assert_eq!(Err(AccountUpdateFailure::Frozen), client.deposit(3, dec(1.0, 1)));
    assert_eq!(Err(AccountUpdateFailure::Frozen), client.withdraw(dec(1.0, 1)));
    assert_eq!(Err(AccountUpdateFailure::Frozen), client.dispute(2));
    assert_eq!(Err(AccountUpdateFailure::Frozen), client.resolve(2));
    assert_eq!(Err(AccountUpdateFailure::Frozen), client.chargeback(1));
    assert!(client.is_locked());
    assert_eq!(client.get_wealth(), dec(6.0, 1));
    assert_eq!(client.get_held_wealth(), dec(0.0, 1));

    // the record is gone: even with the lock lifted by hand it is not found
    client.set_locked(false);
    assert_eq!(Err(AccountUpdateFailure::TXNotFound), client.dispute(1));
    assert_eq!(Err(AccountUpdateFailure::TXNotFound), client.resolve(1));
}

#[test]
fn resolve_restores_the_funds_and_is_not_repeated() {
    let mut client = ClientData::new();
    assert_eq!(Ok(()), client.deposit(9, dec(12.5, 1)));
    assert_eq!(Ok(()), client.dispute(9));
    assert_eq!(Ok(()), client.resolve(9));
    assert_eq!(client.get_wealth(), dec(12.5, 1));
    assert_eq!(client.get_held_wealth(), dec(0.0, 1));
    assert_eq!(Err(AccountUpdateFailure::TXUndisputed), client.resolve(9));
    assert_eq!(client.get_wealth(), dec(12.5, 1));
    assert_eq!(client.get_held_wealth(), dec(0.0, 1));
}

#[test]
fn wide_amounts_are_computed_exactly() {
    // 1844674407370955.1616, whose mantissa is 2^64
    let wide = Amount::new(1 << 64, 4).unwrap();
    let mut client = ClientData::new();
    assert!(client.can_deposit(1, wide));
    assert_eq!(Ok(()), client.deposit(1, wide));
    assert!(client.can_deposit(2, dec(0.0001, 4)));
    assert_eq!(Ok(()), client.deposit(2, dec(0.0001, 4)));
    assert_eq!(client.get_wealth().mantissa(), (1i128 << 64) + 1);
    assert_eq!(client.get_wealth().scale(), 4);
    assert!(client.can_dispute(1));
    assert_eq!(Ok(()), client.dispute(1));
    assert_eq!(client.get_wealth().mantissa(), 1);
    assert_eq!(client.get_held_wealth().mantissa(), 1 << 64);
    assert!(client.can_total());
    assert_eq!(client.get_total().mantissa(), (1i128 << 64) + 1);
    assert!(client.can_resolve(1));
    assert_eq!(Ok(()), client.resolve(1));
    assert_eq!(client.get_wealth().mantissa(), (1i128 << 64) + 1);
    assert_eq!(client.get_held_wealth(), dec(0.0, 1));
    assert!(client.can_withdraw(wide));
    assert_eq!(Ok(()), client.withdraw(wide));
    assert_eq!(client.get_wealth(), dec(0.0001, 4));
}

#[test]
fn range_checks_tell_what_a_decimal_holds() {
    let most = Amount::new(79_228_162_514_264_337_593_543_950_335, 0).unwrap();
    let one = Amount::new(1, 0).unwrap();
    let mut client = ClientData::new();
    // a zero balance takes any amount
    assert!(client.can_deposit(1, most));
    assert_eq!(Ok(()), client.deposit(1, most));
    assert_eq!(client.get_wealth().mantissa(), 79_228_162_514_264_337_593_543_950_335);
    // one more needs 97 bits
    assert!(!client.can_deposit(2, one));
    // but a rejected deposit is always in range
    assert!(client.can_deposit(1, one));
    assert!(client.can_withdraw(one));
    assert!(client.can_withdraw(most));
    // a fractional digit more needs a mantissa ten times as long
    assert!(!client.can_withdraw(dec(0.5, 1)));
    assert!(!client.can_deposit(2, dec(0.5, 1)));
    assert!(client.can_dispute(1));
    assert!(client.can_dispute(5));
    assert!(client.can_resolve(1));
    assert!(client.can_chargeback(1));
    assert!(client.can_total());
    assert_eq!(Ok(()), client.dispute(1));
    assert_eq!(client.get_wealth().mantissa(), 0);
    assert_eq!(client.get_held_wealth().mantissa(), 79_228_162_514_264_337_593_543_950_335);
    assert_eq!(Ok(()), client.deposit(2, most));
    // available and held are both in range, their total is not
    assert!(!client.can_total());
    assert!(!client.can_resolve(1));
    assert!(client.can_chargeback(1));
    assert!(client.can_resolve(2));
    assert!(client.can_dispute(1));
    // a second dispute would hold twice as much
    assert!(!client.can_dispute(2));
    assert!(client.can_withdraw(most));
    assert_eq!(Ok(()), client.withdraw(most));
    assert!(client.can_total());
    assert!(client.can_resolve(1));
}
