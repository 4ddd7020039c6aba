use cash_dapp::errors::ErrorCode;
use cash_dapp::identity::Identity;
use cash_dapp::ledger::Ledger;
use cash_dapp::records::MAX_FRIENDS;

fn id(v: u64) -> Identity {
    Identity::new(v)
}

#[test]
fn initialize_account_creates_blank_record() {
    let mut l = Ledger::new();
    assert!(!l.has_account(id(1)));
    assert_eq!(l.initialize_account(id(1)), Ok(()));
    assert!(l.has_account(id(1)));
    assert_eq!(l.account_balance(id(1)), Some(0));
    assert_eq!(l.friend_count(id(1)), Some(0));
    assert_eq!(l.pending_counter(id(1)), Some(0));
}

#[test]
fn initialize_account_twice_fails_and_changes_nothing() {
    let mut l = Ledger::new();
    assert_eq!(l.initialize_account(id(1)), Ok(()));
    l.fund_external(id(1), 30);
    assert_eq!(l.deposit_funds(id(1), 30), Ok(()));
    let second = l.initialize_account(id(1));
    assert_eq!(second, Err(ErrorCode::AlreadyExists));
    assert_eq!(l.account_balance(id(1)), Some(30));
    assert_eq!(l.friend_count(id(1)), Some(0));
    assert_eq!(l.pending_counter(id(1)), Some(0));
}

#[test]
fn deposit_moves_value_from_external_holding() {
    let mut l = Ledger::new();
    assert_eq!(l.initialize_account(id(1)), Ok(()));
    l.fund_external(id(1), 100);
    assert_eq!(l.external_balance(id(1)), 100);
    assert_eq!(l.deposit_funds(id(1), 60), Ok(()));
    assert_eq!(l.account_balance(id(1)), Some(60));
    assert_eq!(l.external_balance(id(1)), 40);
    assert_eq!(l.supply(), 100);
}

#[test]
fn deposit_without_account_is_not_found() {
    let mut l = Ledger::new();
    l.fund_external(id(1), 10);
    assert_eq!(l.deposit_funds(id(1), 5), Err(ErrorCode::NotFound));
    assert_eq!(l.external_balance(id(1)), 10);
}

#[test]
fn deposit_beyond_holding_is_insufficient() {
    let mut l = Ledger::new();
    assert_eq!(l.initialize_account(id(1)), Ok(()));
    l.fund_external(id(1), 10);
    assert_eq!(l.deposit_funds(id(1), 11), Err(ErrorCode::InsufficientFunds));
    assert_eq!(l.account_balance(id(1)), Some(0));
    assert_eq!(l.external_balance(id(1)), 10);
    assert_eq!(l.deposit_funds(id(1), 3), Ok(()));
    assert_eq!(l.deposit_funds(id(1), 8), Err(ErrorCode::InsufficientFunds));
}

#[test]
fn deposit_of_zero_succeeds_and_moves_nothing() {
    let mut l = Ledger::new();
    assert_eq!(l.initialize_account(id(1)), Ok(()));
    assert_eq!(l.deposit_funds(id(1), 0), Ok(()));
    assert_eq!(l.account_balance(id(1)), Some(0));
    assert_eq!(l.external_balance(id(1)), 0);
}

#[test]
fn withdraw_of_zero_is_invalid_amount() {
    let mut l = Ledger::new();
    assert_eq!(l.initialize_account(id(1)), Ok(()));
    assert_eq!(l.withdraw_funds(id(1), 0), Err(ErrorCode::InvalidAmount));
}

#[test]
fn withdraw_without_account_is_not_found() {
    let mut l = Ledger::new();
    assert_eq!(l.withdraw_funds(id(1), 5), Err(ErrorCode::NotFound));
}

#[test]
fn withdraw_beyond_balance_is_insufficient() {
    let mut l = Ledger::new();
    assert_eq!(l.initialize_account(id(1)), Ok(()));
    l.fund_external(id(1), 20);
    assert_eq!(l.deposit_funds(id(1), 20), Ok(()));
    assert_eq!(l.withdraw_funds(id(1), 21), Err(ErrorCode::InsufficientFunds));
    assert_eq!(l.account_balance(id(1)), Some(20));
    assert_eq!(l.external_balance(id(1)), 0);
}

#[test]
fn deposit_then_withdraw_round_trips() {
    let mut l = Ledger::new();
    assert_eq!(l.initialize_account(id(1)), Ok(()));
    l.fund_external(id(1), 75);
    assert_eq!(l.deposit_funds(id(1), 40), Ok(()));
    let balance_before = l.account_balance(id(1)).unwrap();
    let external_before = l.external_balance(id(1));
    assert_eq!(l.deposit_funds(id(1), 25), Ok(()));
    assert_eq!(l.withdraw_funds(id(1), 25), Ok(()));
    assert_eq!(l.account_balance(id(1)), Some(balance_before));
    assert_eq!(l.external_balance(id(1)), external_before);
}

#[test]
fn transfer_moves_exactly_the_amount() {
    let mut l = Ledger::new();
    assert_eq!(l.initialize_account(id(1)), Ok(()));
    assert_eq!(l.initialize_account(id(2)), Ok(()));
    l.fund_external(id(1), 100);
    assert_eq!(l.deposit_funds(id(1), 100), Ok(()));
    l.fund_external(id(2), 7);
    assert_eq!(l.deposit_funds(id(2), 7), Ok(()));
    assert_eq!(l.transfer_funds(id(1), id(2), 30), Ok(()));
    assert_eq!(l.account_balance(id(1)), Some(70));
    assert_eq!(l.account_balance(id(2)), Some(37));
    // The two balances together are unchanged: 100 + 7 == 70 + 37.
    assert_eq!(
        l.account_balance(id(1)).unwrap() + l.account_balance(id(2)).unwrap(),
        107
    );
}

#[test]
fn transfer_beyond_balance_changes_neither_account() {
    let mut l = Ledger::new();
    assert_eq!(l.initialize_account(id(1)), Ok(()));
    assert_eq!(l.initialize_account(id(2)), Ok(()));
    l.fund_external(id(1), 10);
    assert_eq!(l.deposit_funds(id(1), 10), Ok(()));
    assert_eq!(
        l.transfer_funds(id(1), id(2), 11),
        Err(ErrorCode::InsufficientFunds)
    );
    assert_eq!(l.account_balance(id(1)), Some(10));
    assert_eq!(l.account_balance(id(2)), Some(0));
}

#[test]
fn transfer_of_zero_is_invalid_amount() {
    let mut l = Ledger::new();
    assert_eq!(l.initialize_account(id(1)), Ok(()));
    assert_eq!(l.initialize_account(id(2)), Ok(()));
    assert_eq!(
        l.transfer_funds(id(1), id(2), 0),
        Err(ErrorCode::InvalidAmount)
    );
}

#[test]
fn transfer_with_missing_account_is_not_found() {
    let mut l = Ledger::new();
    assert_eq!(l.initialize_account(id(1)), Ok(()));
    l.fund_external(id(1), 10);
    assert_eq!(l.deposit_funds(id(1), 10), Ok(()));
    assert_eq!(l.transfer_funds(id(1), id(2), 5), Err(ErrorCode::NotFound));
    assert_eq!(l.transfer_funds(id(3), id(1), 5), Err(ErrorCode::NotFound));
    assert_eq!(l.account_balance(id(1)), Some(10));
}

#[test]
fn transfer_to_oneself_moves_nothing() {
    let mut l = Ledger::new();
    assert_eq!(l.initialize_account(id(1)), Ok(()));
    l.fund_external(id(1), 10);
    assert_eq!(l.deposit_funds(id(1), 10), Ok(()));
    assert_eq!(l.transfer_funds(id(1), id(1), 4), Ok(()));
    assert_eq!(l.account_balance(id(1)), Some(10));
}

#[test]
fn add_friend_appends_and_keeps_duplicates() {
    let mut l = Ledger::new();
    assert_eq!(l.initialize_account(id(1)), Ok(()));
    assert_eq!(l.add_friend(id(1), id(7)), Ok(()));
    assert_eq!(l.add_friend(id(1), id(8)), Ok(()));
    assert_eq!(l.add_friend(id(1), id(7)), Ok(()));
    assert_eq!(l.friend_count(id(1)), Some(3));
    assert_eq!(l.friend_at(id(1), 0), Some(id(7)));
    assert_eq!(l.friend_at(id(1), 1), Some(id(8)));
    assert_eq!(l.friend_at(id(1), 2), Some(id(7)));
    assert_eq!(l.friend_at(id(1), 3), None);
}

#[test]
fn add_friend_without_account_is_not_found() {
    let mut l = Ledger::new();
    assert_eq!(l.add_friend(id(1), id(2)), Err(ErrorCode::NotFound));
}

#[test]
fn friend_list_is_capped_at_one_hundred() {
    let mut l = Ledger::new();
    assert_eq!(l.initialize_account(id(1)), Ok(()));
    for k in 0..MAX_FRIENDS as u64 {
        assert_eq!(l.add_friend(id(1), id(1000 + k)), Ok(()));
    }
    // The hundred-and-first entry is refused and the count stays put.
    assert_eq!(l.add_friend(id(1), id(2000)), Err(ErrorCode::ListFull));
    assert_eq!(l.friend_count(id(1)), Some(MAX_FRIENDS));
}

#[test]
fn funding_raises_supply_and_operations_conserve_it() {
    let mut l = Ledger::new();
    assert_eq!(l.supply(), 0);
    assert_eq!(l.initialize_account(id(1)), Ok(()));
    assert_eq!(l.initialize_account(id(2)), Ok(()));
    l.fund_external(id(1), 500);
    l.fund_external(id(1), 250);
    assert_eq!(l.supply(), 750);
    assert_eq!(l.external_balance(id(1)), 750);
    assert_eq!(l.deposit_funds(id(1), 600), Ok(()));
    assert_eq!(l.transfer_funds(id(1), id(2), 200), Ok(()));
    assert_eq!(l.withdraw_funds(id(2), 150), Ok(()));
    assert_eq!(l.supply(), 750);
    let spread = l.account_balance(id(1)).unwrap()
        + l.account_balance(id(2)).unwrap()
        + l.external_balance(id(1))
        + l.external_balance(id(2));
    assert_eq!(spread, 750);
}
