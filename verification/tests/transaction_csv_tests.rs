use transaction_parser::amount::Amount;
use transaction_parser::client_data::ClientData;
use transaction_parser::transaction_csv::{csv_headers, csv_record};

fn amount(mantissa: i128, scale: u32) -> Amount {
    Amount::new(mantissa, scale).unwrap()
}

#[test]
fn headers_name_the_five_columns() {
    assert_eq!(csv_headers(), "client,available,held,total,locked\n");
}

#[test]
fn record_of_a_new_account() {
    assert_eq!(csv_record(7, &ClientData::new()), "7,0.0,0.0,0.0,false\n");
    assert_eq!(csv_record(65535, &ClientData::new()), "65535,0.0,0.0,0.0,false\n");
    assert_eq!(csv_record(0, &ClientData::new()), "0,0.0,0.0,0.0,false\n");
}

#[test]
fn record_of_a_locked_account() {
    let mut client = ClientData::new();
    assert!(client.deposit(3, amount(33333333333, 4)).is_ok());
    assert!(client.deposit(17, amount(36, 0)).is_ok());
    assert!(client.dispute(3).is_ok());
    assert!(client.dispute(17).is_ok());
    assert!(client.chargeback(3).is_ok());
    assert_eq!(csv_record(4, &client), "4,0.0000,36.0000,36.0000,true\n");
}

#[test]
fn record_with_held_funds() {
    let mut client = ClientData::new();
    assert!(client.deposit(3, amount(999999999999, 4)).is_ok());
    assert!(client.withdraw(amount(999999669999, 4)).is_ok());
    assert!(client.deposit(8, amount(4, 0)).is_ok());
    assert!(client.dispute(8).is_ok());
    assert_eq!(csv_record(2, &client), "2,33.0000,4,37.0000,false\n");
}

#[test]
fn record_with_negative_funds() {
    let mut client = ClientData::new();
    assert!(client.deposit(55, amount(6, 0)).is_ok());
    assert!(client.withdraw(amount(6, 0)).is_ok());
    assert!(client.dispute(55).is_ok());
    assert!(client.chargeback(55).is_ok());
    assert_eq!(csv_record(5, &client), "5,-6,0,-6,true\n");
}

#[test]
fn record_rounds_to_four_places() {
    let mut client = ClientData::new();
    assert!(client.deposit(1, amount(123455, 5)).is_ok());
    assert!(client.deposit(2, amount(2000025, 5)).is_ok());
    assert!(client.dispute(2).is_ok());
    // 1.23455 and 20.00025 are halves: each goes to its even neighbour
    assert_eq!(csv_record(1, &client), "1,1.2346,20.0002,21.2348,false\n");
}
