use cash_dapp::errors::ErrorCode;
use cash_dapp::identity::Identity;
use cash_dapp::ledger::Ledger;

fn id(v: u64) -> Identity {
    Identity::new(v)
}

/// A ledger with accounts for 1 and 2, where account 2 holds `balance`.
fn two_accounts(balance: u64) -> Ledger {
    let mut l = Ledger::new();
    assert_eq!(l.initialize_account(id(1)), Ok(()));
    assert_eq!(l.initialize_account(id(2)), Ok(()));
    l.fund_external(id(2), balance);
    assert_eq!(l.deposit_funds(id(2), balance), Ok(()));
    l
}

#[test]
fn new_pending_request_files_and_counts() {
    let mut l = two_accounts(0);
    assert_eq!(l.pending_counter(id(1)), Some(0));
    assert_eq!(l.new_pending_request(id(1), id(2), 50), Ok(()));
    let req = l.pending_request(id(1)).unwrap();
    assert_eq!(req.sender, id(2));
    assert_eq!(req.recipient, id(1));
    assert_eq!(req.amount, 50);
    assert_eq!(req.pending_request_count, 0);
    assert_eq!(l.pending_counter(id(1)), Some(1));
}

#[test]
fn second_request_before_resolution_already_exists() {
    let mut l = two_accounts(0);
    assert_eq!(l.new_pending_request(id(1), id(2), 50), Ok(()));
    assert_eq!(
        l.new_pending_request(id(1), id(2), 10),
        Err(ErrorCode::AlreadyExists)
    );
    // The filed request and the counter are untouched.
    assert_eq!(l.pending_request(id(1)).unwrap().amount, 50);
    assert_eq!(l.pending_counter(id(1)), Some(1));
}

#[test]
fn new_pending_request_without_account_is_not_found() {
    let mut l = Ledger::new();
    assert_eq!(
        l.new_pending_request(id(1), id(2), 50),
        Err(ErrorCode::NotFound)
    );
}

#[test]
fn counter_steps_once_per_request() {
    let mut l = two_accounts(0);
    assert_eq!(l.new_pending_request(id(1), id(2), 5), Ok(()));
    assert_eq!(l.decline_request(id(1)), Ok(()));
    assert_eq!(l.new_pending_request(id(1), id(2), 6), Ok(()));
    assert_eq!(l.decline_request(id(1)), Ok(()));
    assert_eq!(l.new_pending_request(id(1), id(2), 7), Ok(()));
    assert_eq!(l.pending_counter(id(1)), Some(3));
    assert_eq!(l.pending_request(id(1)).unwrap().pending_request_count, 2);
}

#[test]
fn accept_request_moves_value_and_releases_the_request() {
    let mut l = two_accounts(80);
    assert_eq!(l.new_pending_request(id(1), id(2), 50), Ok(()));
    assert_eq!(l.accept_request(id(1)), Ok(()));
    assert_eq!(l.account_balance(id(2)), Some(30));
    assert_eq!(l.account_balance(id(1)), Some(50));
    assert_eq!(l.pending_request(id(1)), None);
    // The request is gone: resolving it again finds nothing.
    assert_eq!(l.accept_request(id(1)), Err(ErrorCode::NotFound));
    // The recipient, never funded from outside, can withdraw what arrived:
    // this opens a fresh external holding for it.
    assert_eq!(l.external_balance(id(1)), 0);
    assert_eq!(l.withdraw_funds(id(1), 50), Ok(()));
    assert_eq!(l.external_balance(id(1)), 50);
    assert_eq!(l.account_balance(id(1)), Some(0));
}

#[test]
fn accept_request_without_request_is_not_found() {
    let mut l = two_accounts(80);
    assert_eq!(l.accept_request(id(1)), Err(ErrorCode::NotFound));
}

#[test]
fn accept_request_with_poor_sender_is_insufficient() {
    let mut l = two_accounts(49);
    assert_eq!(l.new_pending_request(id(1), id(2), 50), Ok(()));
    assert_eq!(l.accept_request(id(1)), Err(ErrorCode::InsufficientFunds));
    // Nothing moved and the request still stands.
    assert_eq!(l.account_balance(id(1)), Some(0));
    assert_eq!(l.account_balance(id(2)), Some(49));
    assert_eq!(l.pending_request(id(1)).unwrap().amount, 50);
}

#[test]
fn accept_request_with_absent_sender_is_not_found() {
    let mut l = Ledger::new();
    assert_eq!(l.initialize_account(id(1)), Ok(()));
    assert_eq!(l.new_pending_request(id(1), id(9), 50), Ok(()));
    assert_eq!(l.accept_request(id(1)), Err(ErrorCode::NotFound));
    assert_eq!(l.pending_request(id(1)).unwrap().sender, id(9));
}

#[test]
fn accept_request_against_oneself_moves_nothing() {
    let mut l = Ledger::new();
    assert_eq!(l.initialize_account(id(1)), Ok(()));
    l.fund_external(id(1), 60);
    assert_eq!(l.deposit_funds(id(1), 60), Ok(()));
    assert_eq!(l.new_pending_request(id(1), id(1), 20), Ok(()));
    assert_eq!(l.accept_request(id(1)), Ok(()));
    assert_eq!(l.account_balance(id(1)), Some(60));
    assert_eq!(l.pending_request(id(1)), None);
}

#[test]
fn decline_request_releases_without_moving_value() {
    let mut l = two_accounts(80);
    assert_eq!(l.new_pending_request(id(1), id(2), 50), Ok(()));
    assert_eq!(l.decline_request(id(1)), Ok(()));
    assert_eq!(l.account_balance(id(1)), Some(0));
    assert_eq!(l.account_balance(id(2)), Some(80));
    assert_eq!(l.pending_request(id(1)), None);
    assert_eq!(l.decline_request(id(1)), Err(ErrorCode::NotFound));
}

#[test]
fn requests_of_different_recipients_are_independent() {
    let mut l = two_accounts(80);
    assert_eq!(l.new_pending_request(id(1), id(2), 30), Ok(()));
    assert_eq!(l.new_pending_request(id(2), id(1), 7), Ok(()));
    assert_eq!(l.accept_request(id(1)), Ok(()));
    // Recipient 2's request survives the resolution of recipient 1's.
    let req = l.pending_request(id(2)).unwrap();
    assert_eq!(req.sender, id(1));
    assert_eq!(req.amount, 7);
    assert_eq!(l.account_balance(id(1)), Some(30));
    assert_eq!(l.account_balance(id(2)), Some(50));
}
