//! Laws of the ledger: properties that relate several operations, proved
//! from the operations' own contracts.
//!
//! Each proof function takes the states an operation sequence passes
//! through, with the operations' success effects as hypotheses, and states
//! what must hold of the outcome.

use vstd::prelude::*;
use crate::identity::Identity;
use crate::ledger::Ledger;
use crate::records::MAX_FRIENDS;

verus! {

/// No account's balance is ever negative: balances are unsigned, every
/// operation preserves the ledger's well-formedness, and a debit is only
/// committed when the balance covers it, so no sequence of operations can
/// drive a balance below zero.
pub proof fn lemma_balance_never_negative(l: Ledger, id: Identity)
    ensures
        l.balance_of(id) >= 0,
        l.external_of(id) >= 0,
{
}

/// Initializing the same identity twice cannot succeed twice: after a
/// successful `initialize_account`, the derived address is occupied, so by
/// the operation's contract a second call returns `AlreadyExists` and
/// leaves the state exactly as the first call left it.
pub proof fn lemma_initialize_account_twice(pre: Ledger, post: Ledger, caller: Identity)
    requires
        pre.init_account_applied(post, caller),
    ensures
        post.spec_has_account(caller),
        !post.init_account_enabled(caller),
{
}

/// Round trip: a successful `deposit_funds(a, x)` followed by a successful
/// `withdraw_funds(a, x)` restores both the account balance and the
/// external holding of `a` to their starting values.
pub proof fn lemma_deposit_withdraw_round_trip(
    l0: Ledger,
    l1: Ledger,
    l2: Ledger,
    a: Identity,
    x: u64,
)
    requires
        l0.deposit_applied(l1, a, x),
        l1.withdraw_applied(l2, a, x),
    ensures
        l2.balance_of(a) == l0.balance_of(a),
        l2.external_of(a) == l0.external_of(a),
        l2.friends_of(a) == l0.friends_of(a),
        l2.counter_of(a) == l0.counter_of(a),
{
}

/// A successful transfer between distinct accounts moves exactly the
/// amount: the caller's balance drops by it, the recipient's rises by it,
/// and the two balances together are unchanged.
pub proof fn lemma_transfer_conserves(
    l0: Ledger,
    l1: Ledger,
    a: Identity,
    b: Identity,
    x: u64,
)
    requires
        a != b,
        l0.transfer_applied(l1, a, b, x),
    ensures
        l1.balance_of(a) == l0.balance_of(a) - x,
        l1.balance_of(b) == l0.balance_of(b) + x,
        l1.balance_of(a) + l1.balance_of(b) == l0.balance_of(a) + l0.balance_of(b),
{
}

/// A transfer that the caller's balance cannot cover is not enabled; by
/// the operation's contract the call then returns `InsufficientFunds` and
/// neither balance changes.
pub proof fn lemma_transfer_insufficient(l0: Ledger, a: Identity, b: Identity, x: u64)
    requires
        x > 0,
        l0.spec_has_account(a),
        l0.spec_has_account(b),
        l0.balance_of(a) < x,
    ensures
        !l0.transfer_enabled(a, b, x),
{
}

/// Request lifecycle, accepted: filing a request from `r` naming sender
/// `s` and then accepting it moves exactly the requested amount from `s`
/// to `r` and releases the request, so a further resolution of `r`'s
/// address is not enabled and returns `NotFound` by the operations'
/// contracts.
pub proof fn lemma_request_accept_lifecycle(
    l0: Ledger,
    l1: Ledger,
    l2: Ledger,
    r: Identity,
    s: Identity,
    x: u64,
)
    requires
        s != r,
        l0.new_request_applied(l1, r, s, x),
        l1.accept_applied(l2, r),
    ensures
        l0.spec_has_account(s) ==> l2.balance_of(s) == l0.balance_of(s) - x,
        l2.balance_of(r) == l0.balance_of(r) + x,
        !l2.spec_has_request(r),
        !l2.accept_enabled(r),
        !l2.decline_enabled(r),
{
    assert(l1.request_of(r).sender == s);
    assert(l1.request_of(r).amount == x);
    assert(l1.balance_of(r) == l0.balance_of(r));
    if l0.spec_has_account(s) {
        assert(l1.balance_of(s) == l0.balance_of(s));
    }
}

/// Request lifecycle, declined: filing a request from `r` naming sender
/// `s` and then declining it releases the request and moves no value: the
/// balances of `s` and `r` end where they started.
pub proof fn lemma_request_decline_no_transfer(
    l0: Ledger,
    l1: Ledger,
    l2: Ledger,
    r: Identity,
    s: Identity,
    x: u64,
)
    requires
        l0.new_request_applied(l1, r, s, x),
        l1.decline_applied(l2, r),
    ensures
        l0.spec_has_account(s) && s != r ==> l2.balance_of(s) == l0.balance_of(s),
        l2.balance_of(r) == l0.balance_of(r),
        !l2.spec_has_request(r),
{
    assert(l2.accounts@ == l1.accounts@);
}

/// The friend list is capped: once an account holds `MAX_FRIENDS`
/// entries, `add_friend` is no longer enabled, so by its contract the call
/// returns `ListFull` and the count stays at the cap.
pub proof fn lemma_friend_list_capacity(l0: Ledger, caller: Identity, friend: Identity)
    requires
        l0.spec_has_account(caller),
        l0.friends_of(caller).len() >= MAX_FRIENDS,
    ensures
        !l0.add_friend_enabled(caller),
{
}

/// Value conservation: no operation but the platform's own minting
/// changes the total supply, and a well-formed ledger's total is exactly
/// the value spread over accounts and holdings, so every balance and
/// every holding is bounded by what was minted.
pub proof fn lemma_supply_bounds_balances(l: Ledger, id: Identity)
    requires
        l.wf(),
        l.spec_has_account(id),
    ensures
        l.balance_of(id) <= l.total_supply,
{
    let i = crate::keyed::idx_of(l.accounts@, id);
    crate::sums::lemma_balance_le_sum(l.accounts@, i);
    crate::sums::lemma_sum_holdings_nonneg(l.holdings@);
}

} // verus!
