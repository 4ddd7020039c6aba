//! Total value accounting.
//!
//! Value enters the ledger only when the platform funds an external holding;
//! every operation afterwards moves value between records. The sums here
//! make that conservation provable, and with it the absence of overflow: no
//! single balance can exceed the total, and the total is bounded.

use vstd::prelude::*;
use crate::records::{CashAccount, ExternalHolding};

verus! {

/// The value held across all cash accounts of the directory.
pub open spec fn sum_balances(s: Seq<CashAccount>) -> int
    decreases s.len(),
{
    if s.len() == 0 {
        0
    } else {
        sum_balances(s.drop_last()) + s.last().balance
    }
}

/// The value held across all external holdings.
pub open spec fn sum_holdings(s: Seq<ExternalHolding>) -> int
    decreases s.len(),
{
    if s.len() == 0 {
        0
    } else {
        sum_holdings(s.drop_last()) + s.last().amount
    }
}

/// No account holds more than all accounts together.
pub proof fn lemma_balance_le_sum(s: Seq<CashAccount>, i: int)
    requires
        0 <= i < s.len(),
    ensures
        s[i].balance <= sum_balances(s),
        sum_balances(s) >= 0,
    decreases s.len(),
{
    if s.len() > 0 {
        if i == s.len() - 1 {
            lemma_sum_balances_nonneg(s.drop_last());
        } else {
            lemma_balance_le_sum(s.drop_last(), i);
            assert(s.drop_last()[i] == s[i]);
        }
    }
}

/// The account total is never negative.
pub proof fn lemma_sum_balances_nonneg(s: Seq<CashAccount>)
    ensures
        sum_balances(s) >= 0,
    decreases s.len(),
{
    if s.len() > 0 {
        lemma_sum_balances_nonneg(s.drop_last());
    }
}

/// Replacing the account at `i` shifts the total by exactly the balance
/// difference.
pub proof fn lemma_sum_balances_update(s: Seq<CashAccount>, i: int, v: CashAccount)
    requires
        0 <= i < s.len(),
    ensures
        sum_balances(s.update(i, v)) == sum_balances(s) - s[i].balance + v.balance,
    decreases s.len(),
{
    let t = s.update(i, v);
    if i == s.len() - 1 {
        assert(t.drop_last() =~= s.drop_last());
        assert(t.last() == v);
    } else {
        assert(t.drop_last() =~= s.drop_last().update(i, v));
        assert(t.last() == s.last());
        lemma_sum_balances_update(s.drop_last(), i, v);
        assert(s.drop_last()[i] == s[i]);
    }
}

/// Filing a new account adds exactly its balance to the total.
pub proof fn lemma_sum_balances_push(s: Seq<CashAccount>, v: CashAccount)
    ensures
        sum_balances(s.push(v)) == sum_balances(s) + v.balance,
{
    assert(s.push(v).drop_last() =~= s);
    assert(s.push(v).last() == v);
}

/// No holding holds more than all holdings together.
pub proof fn lemma_holding_le_sum(s: Seq<ExternalHolding>, i: int)
    requires
        0 <= i < s.len(),
    ensures
        s[i].amount <= sum_holdings(s),
        sum_holdings(s) >= 0,
    decreases s.len(),
{
    if s.len() > 0 {
        if i == s.len() - 1 {
            lemma_sum_holdings_nonneg(s.drop_last());
        } else {
            lemma_holding_le_sum(s.drop_last(), i);
            assert(s.drop_last()[i] == s[i]);
        }
    }
}

/// The holdings total is never negative.
pub proof fn lemma_sum_holdings_nonneg(s: Seq<ExternalHolding>)
    ensures
        sum_holdings(s) >= 0,
    decreases s.len(),
{
    if s.len() > 0 {
        lemma_sum_holdings_nonneg(s.drop_last());
    }
}

/// Replacing the holding at `i` shifts the total by exactly the amount
/// difference.
pub proof fn lemma_sum_holdings_update(s: Seq<ExternalHolding>, i: int, v: ExternalHolding)
    requires
        0 <= i < s.len(),
    ensures
        sum_holdings(s.update(i, v)) == sum_holdings(s) - s[i].amount + v.amount,
    decreases s.len(),
{
    let t = s.update(i, v);
    if i == s.len() - 1 {
        assert(t.drop_last() =~= s.drop_last());
        assert(t.last() == v);
    } else {
        assert(t.drop_last() =~= s.drop_last().update(i, v));
        assert(t.last() == s.last());
        lemma_sum_holdings_update(s.drop_last(), i, v);
        assert(s.drop_last()[i] == s[i]);
    }
}

/// Filing a new holding adds exactly its amount to the total.
pub proof fn lemma_sum_holdings_push(s: Seq<ExternalHolding>, v: ExternalHolding)
    ensures
        sum_holdings(s.push(v)) == sum_holdings(s) + v.amount,
{
    assert(s.push(v).drop_last() =~= s);
    assert(s.push(v).last() == v);
}

} // verus!
