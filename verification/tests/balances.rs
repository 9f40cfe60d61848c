use tokenized_sports_betting::model::{Error, UserPayload};
use tokenized_sports_betting::store::Store;

fn invalid(msg: &str) -> Error {
    Error::InvalidInput { msg: msg.to_string() }
}

fn store_with_account(balance: u64) -> Store {
    let mut store = Store::new().unwrap();
    store.add_user(UserPayload { username: "carol".to_string(), balance }).unwrap();
    store
}

#[test]
fn a_deposit_adds_to_the_balance() {
    let mut store = store_with_account(100);
    let user = store.deposit_balance(1, 23).unwrap();
    assert_eq!(user.balance, 123);
    assert_eq!(store.get_user(1).unwrap().balance, 123);
}

#[test]
fn a_withdrawal_takes_from_the_balance() {
    let mut store = store_with_account(100);
    let user = store.withdraw_balance(1, 23).unwrap();
    assert_eq!(user.balance, 77);
    assert_eq!(store.get_user(1).unwrap().balance, 77);
}

#[test]
fn the_whole_balance_can_be_withdrawn() {
    let mut store = store_with_account(100);
    assert_eq!(store.withdraw_balance(1, 100).unwrap().balance, 0);
}

#[test]
fn a_withdrawal_of_more_than_the_balance_changes_nothing() {
    let mut store = store_with_account(100);
    let before = store.get_user(1).unwrap();
    assert_eq!(store.withdraw_balance(1, 101), Err(invalid("Insufficient balance")));
    assert_eq!(store.withdraw_balance(1, u64::MAX), Err(invalid("Insufficient balance")));
    assert_eq!(store.get_user(1).unwrap(), before);
}

#[test]
fn a_deposit_then_a_withdrawal_of_the_same_amount_restores_the_balance() {
    let mut store = store_with_account(100);
    let before = store.get_user(1).unwrap();
    store.deposit_balance(1, 4_000).unwrap();
    let after = store.withdraw_balance(1, 4_000).unwrap();
    assert_eq!(after, before);
    assert_eq!(store.get_user(1).unwrap(), before);
}

#[test]
fn an_amount_of_zero_is_refused() {
    let mut store = store_with_account(100);
    assert_eq!(
        store.deposit_balance(1, 0),
        Err(invalid("Deposit amount must be greater than zero"))
    );
    assert_eq!(
        store.withdraw_balance(1, 0),
        Err(invalid("Withdrawal amount must be greater than zero"))
    );
    assert_eq!(
        store.deposit_balance(9, 0),
        Err(invalid("Deposit amount must be greater than zero"))
    );
}

#[test]
fn a_missing_account_is_reported() {
    let mut store = store_with_account(100);
    let missing = Error::NotFound { msg: "User not found".to_string() };
    assert_eq!(store.deposit_balance(2, 5), Err(missing.clone()));
    assert_eq!(store.withdraw_balance(2, 5), Err(missing));
}

#[test]
fn a_deposit_past_the_largest_balance_is_refused() {
    let mut store = store_with_account(u64::MAX - 1);
    assert_eq!(store.deposit_balance(1, 1).unwrap().balance, u64::MAX);
    assert_eq!(
        store.deposit_balance(1, 1),
        Err(invalid("Deposit would exceed the largest balance"))
    );
    assert_eq!(store.get_user(1).unwrap().balance, u64::MAX);
}
