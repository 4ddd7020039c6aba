//! The ledger core: the account directory, the request directory, the
//! external-holding side ledger, and the operations over them.
//!
//! Every operation is a single atomic state transition: it either applies in
//! full or returns a typed failure and leaves the ledger exactly as it was.

use vstd::prelude::*;
use crate::errors::ErrorCode;
use crate::identity::Identity;
use crate::keyed::{distinct_keys, entry_of, has_key, idx_of, lemma_idx_of_unique,
    lemma_push_entry, lemma_remove_entry, lemma_update_entry};
use crate::records::{CashAccount, ExternalHolding, PendingRequest, MAX_FRIENDS};
use crate::sums::{lemma_balance_le_sum, lemma_holding_le_sum, lemma_sum_balances_nonneg,
    lemma_sum_balances_push, lemma_sum_holdings_nonneg,
    lemma_sum_balances_update, lemma_sum_holdings_push, lemma_sum_holdings_update, sum_balances,
    sum_holdings};

verus! {

/// The two records describe the same account: ledger edits that leave an
/// account alone preserve this.
pub open spec fn account_like(a: CashAccount, b: CashAccount) -> bool {
    &&& a.owner == b.owner
    &&& a.friends@ == b.friends@
    &&& a.pending_request_counter == b.pending_request_counter
    &&& a.balance == b.balance
}

/// The whole persisted state: two deterministic key spaces (accounts by
/// owner, requests by recipient) plus the platform-managed external
/// holdings, and the total value ever minted into the system.
pub struct Ledger {
    /// Cash accounts, at most one per owner identity.
    pub accounts: Vec<CashAccount>,
    /// Pending requests, at most one per recipient identity.
    pub requests: Vec<PendingRequest>,
    /// External holdings, at most one entry per identity.
    pub holdings: Vec<ExternalHolding>,
    /// Total value across accounts and holdings; operations conserve it,
    /// only funding an external holding raises it.
    pub total_supply: u64,
}

impl Ledger {
    /// The ledger's governing invariant: each directory is keyed uniquely,
    /// accounts are within bounds, every pending request's recipient has an
    /// account, and the recorded total supply is exactly the value spread
    /// over accounts and holdings.
    pub open spec fn wf(self) -> bool {
        &&& distinct_keys(self.accounts@)
        &&& distinct_keys(self.requests@)
        &&& distinct_keys(self.holdings@)
        &&& forall|i: int| 0 <= i < self.accounts@.len() ==> (#[trigger] self.accounts@[i]).wf()
        &&& forall|i: int|
            0 <= i < self.requests@.len() ==> self.spec_has_account(
                (#[trigger] self.requests@[i]).recipient,
            )
        &&& self.total_supply == sum_balances(self.accounts@) + sum_holdings(self.holdings@)
    }

    /// An account exists for `id`.
    pub open spec fn spec_has_account(self, id: Identity) -> bool {
        has_key(self.accounts@, id)
    }

    /// The account filed under `id`.
    pub open spec fn account_of(self, id: Identity) -> CashAccount {
        entry_of(self.accounts@, id)
    }

    /// The balance of the account filed under `id`.
    pub open spec fn balance_of(self, id: Identity) -> u64 {
        self.account_of(id).balance
    }

    /// The friend list of the account filed under `id`.
    pub open spec fn friends_of(self, id: Identity) -> Seq<Identity> {
        self.account_of(id).friends@
    }

    /// The request counter of the account filed under `id`.
    pub open spec fn counter_of(self, id: Identity) -> u64 {
        self.account_of(id).pending_request_counter
    }

    /// A pending request exists for recipient `id`.
    pub open spec fn spec_has_request(self, id: Identity) -> bool {
        has_key(self.requests@, id)
    }

    /// The pending request filed under recipient `id`.
    pub open spec fn request_of(self, id: Identity) -> PendingRequest {
        entry_of(self.requests@, id)
    }

    /// The value `id` holds outside of any cash account; zero when the
    /// platform has never funded it.
    pub open spec fn external_of(self, id: Identity) -> u64 {
        if has_key(self.holdings@, id) {
            entry_of(self.holdings@, id).amount
        } else {
            0
        }
    }

    /// Outside `except`, `post` files exactly the accounts `self` files,
    /// each unchanged.
    pub open spec fn same_accounts_except(self, post: Ledger, except: Set<Identity>) -> bool {
        forall|id: Identity|
            #![trigger self.spec_has_account(id)]
            #![trigger post.spec_has_account(id)]
            #![trigger self.account_of(id)]
            #![trigger post.account_of(id)]
            !except.contains(id) ==> {
                &&& post.spec_has_account(id) == self.spec_has_account(id)
                &&& self.spec_has_account(id) ==> account_like(
                    post.account_of(id),
                    self.account_of(id),
                )
            }
    }

    /// Outside `except`, `post` files exactly the pending requests `self`
    /// files, each unchanged.
    pub open spec fn same_requests_except(self, post: Ledger, except: Set<Identity>) -> bool {
        forall|id: Identity|
            #![trigger self.spec_has_request(id)]
            #![trigger post.spec_has_request(id)]
            #![trigger self.request_of(id)]
            #![trigger post.request_of(id)]
            !except.contains(id) ==> {
                &&& post.spec_has_request(id) == self.spec_has_request(id)
                &&& self.spec_has_request(id) ==> post.request_of(id) == self.request_of(id)
            }
    }

    /// Outside `except`, every identity's external holding is unchanged.
    pub open spec fn same_externals_except(self, post: Ledger, except: Set<Identity>) -> bool {
        forall|id: Identity|
            #![trigger self.external_of(id)]
            #![trigger post.external_of(id)]
            !except.contains(id) ==> post.external_of(id) == self.external_of(id)
    }

    /// `initialize_account` succeeds exactly when no account is filed for
    /// the caller yet.
    pub open spec fn init_account_enabled(self, caller: Identity) -> bool {
        !self.spec_has_account(caller)
    }

    /// The successful effect of `initialize_account`: a blank account for
    /// the caller, everything else untouched.
    pub open spec fn init_account_applied(self, post: Ledger, caller: Identity) -> bool {
        &&& post.spec_has_account(caller)
        &&& post.account_of(caller).owner == caller
        &&& post.friends_of(caller).len() == 0
        &&& post.counter_of(caller) == 0
        &&& post.balance_of(caller) == 0
        &&& self.same_accounts_except(post, set![caller])
        &&& post.requests@ == self.requests@
        &&& post.holdings@ == self.holdings@
        &&& post.total_supply == self.total_supply
    }

    /// The effect of the platform funding a caller's external holding.
    pub open spec fn fund_external_applied(
        self,
        post: Ledger,
        caller: Identity,
        amount: u64,
    ) -> bool {
        &&& post.external_of(caller) == self.external_of(caller) + amount
        &&& self.same_externals_except(post, set![caller])
        &&& post.accounts@ == self.accounts@
        &&& post.requests@ == self.requests@
        &&& post.total_supply == self.total_supply + amount
    }

    /// `deposit_funds` succeeds exactly when the caller's account exists
    /// and the caller's external holding covers the amount.
    pub open spec fn deposit_enabled(self, caller: Identity, amount: u64) -> bool {
        &&& self.spec_has_account(caller)
        &&& self.external_of(caller) >= amount
    }

    /// The successful effect of `deposit_funds`: the amount moves from the
    /// caller's external holding into the caller's account.
    pub open spec fn deposit_applied(self, post: Ledger, caller: Identity, amount: u64) -> bool {
        &&& post.spec_has_account(caller)
        &&& post.account_of(caller).owner == self.account_of(caller).owner
        &&& post.friends_of(caller) == self.friends_of(caller)
        &&& post.counter_of(caller) == self.counter_of(caller)
        &&& post.balance_of(caller) == self.balance_of(caller) + amount
        &&& self.same_accounts_except(post, set![caller])
        &&& post.external_of(caller) == self.external_of(caller) - amount
        &&& self.same_externals_except(post, set![caller])
        &&& post.requests@ == self.requests@
        &&& post.total_supply == self.total_supply
    }

    /// `withdraw_funds` succeeds exactly when the amount is positive, the
    /// caller's account exists, and its balance covers the amount.
    pub open spec fn withdraw_enabled(self, caller: Identity, amount: u64) -> bool {
        &&& amount > 0
        &&& self.spec_has_account(caller)
        &&& self.balance_of(caller) >= amount
    }

    /// The successful effect of `withdraw_funds`: the amount moves from the
    /// caller's account back into the caller's external holding.
    pub open spec fn withdraw_applied(self, post: Ledger, caller: Identity, amount: u64) -> bool {
        &&& post.spec_has_account(caller)
        &&& post.account_of(caller).owner == self.account_of(caller).owner
        &&& post.friends_of(caller) == self.friends_of(caller)
        &&& post.counter_of(caller) == self.counter_of(caller)
        &&& post.balance_of(caller) == self.balance_of(caller) - amount
        &&& self.same_accounts_except(post, set![caller])
        &&& post.external_of(caller) == self.external_of(caller) + amount
        &&& self.same_externals_except(post, set![caller])
        &&& post.requests@ == self.requests@
        &&& post.total_supply == self.total_supply
    }

    /// `transfer_funds` succeeds exactly when the amount is positive, both
    /// accounts exist, and the caller's balance covers the amount.
    pub open spec fn transfer_enabled(self, caller: Identity, recipient: Identity, amount: u64) -> bool {
        &&& amount > 0
        &&& self.spec_has_account(caller)
        &&& self.spec_has_account(recipient)
        &&& self.balance_of(caller) >= amount
    }

    /// The successful effect of `transfer_funds`: both halves apply as one
    /// unit, and a transfer to oneself moves nothing.
    pub open spec fn transfer_applied(
        self,
        post: Ledger,
        caller: Identity,
        recipient: Identity,
        amount: u64,
    ) -> bool {
        &&& caller == recipient ==> self.same_accounts_except(post, Set::empty())
        &&& caller != recipient ==> {
            &&& post.spec_has_account(caller)
            &&& post.spec_has_account(recipient)
            &&& post.balance_of(caller) == self.balance_of(caller) - amount
            &&& post.balance_of(recipient) == self.balance_of(recipient) + amount
            &&& post.account_of(caller).owner == self.account_of(caller).owner
            &&& post.friends_of(caller) == self.friends_of(caller)
            &&& post.counter_of(caller) == self.counter_of(caller)
            &&& post.account_of(recipient).owner == self.account_of(recipient).owner
            &&& post.friends_of(recipient) == self.friends_of(recipient)
            &&& post.counter_of(recipient) == self.counter_of(recipient)
            &&& self.same_accounts_except(post, set![caller, recipient])
        }
        &&& post.requests@ == self.requests@
        &&& post.holdings@ == self.holdings@
        &&& post.total_supply == self.total_supply
    }

    /// `add_friend` succeeds exactly when the caller's account exists and
    /// its friend list is below capacity.
    pub open spec fn add_friend_enabled(self, caller: Identity) -> bool {
        &&& self.spec_has_account(caller)
        &&& self.friends_of(caller).len() < MAX_FRIENDS
    }

    /// The successful effect of `add_friend`: the identity is appended to
    /// the caller's friend list, duplicates and all.
    pub open spec fn add_friend_applied(
        self,
        post: Ledger,
        caller: Identity,
        friend: Identity,
    ) -> bool {
        &&& post.spec_has_account(caller)
        &&& post.account_of(caller).owner == self.account_of(caller).owner
        &&& post.friends_of(caller) == self.friends_of(caller).push(friend)
        &&& post.counter_of(caller) == self.counter_of(caller)
        &&& post.balance_of(caller) == self.balance_of(caller)
        &&& self.same_accounts_except(post, set![caller])
        &&& post.requests@ == self.requests@
        &&& post.holdings@ == self.holdings@
        &&& post.total_supply == self.total_supply
    }

    /// `new_pending_request` succeeds exactly when no request occupies the
    /// caller's derived address and the caller's account exists.
    pub open spec fn new_request_enabled(self, caller: Identity) -> bool {
        &&& !self.spec_has_request(caller)
        &&& self.spec_has_account(caller)
    }

    /// The successful effect of `new_pending_request`: a request filed for
    /// the caller as recipient, tagged with the counter's snapshot, and the
    /// counter stepped by one.
    pub open spec fn new_request_applied(
        self,
        post: Ledger,
        caller: Identity,
        sender: Identity,
        amount: u64,
    ) -> bool {
        &&& post.spec_has_request(caller)
        &&& post.request_of(caller) == (PendingRequest {
            sender,
            recipient: caller,
            amount,
            pending_request_count: self.counter_of(caller),
        })
        &&& self.same_requests_except(post, set![caller])
        &&& post.spec_has_account(caller)
        &&& post.account_of(caller).owner == self.account_of(caller).owner
        &&& post.friends_of(caller) == self.friends_of(caller)
        &&& post.counter_of(caller) == self.counter_of(caller) + 1
        &&& post.balance_of(caller) == self.balance_of(caller)
        &&& self.same_accounts_except(post, set![caller])
        &&& post.holdings@ == self.holdings@
        &&& post.total_supply == self.total_supply
    }

    /// `accept_request` succeeds exactly when a request is filed for the
    /// caller, its sender has an account, and the sender's balance covers
    /// the requested amount.
    pub open spec fn accept_enabled(self, caller: Identity) -> bool {
        &&& self.spec_has_request(caller)
        &&& self.spec_has_account(self.request_of(caller).sender)
        &&& self.balance_of(self.request_of(caller).sender) >= self.request_of(caller).amount
    }

    /// The successful effect of `accept_request`: the requested amount
    /// moves from the sender's account to the caller's, and the request's
    /// storage is released. A request against oneself moves nothing.
    pub open spec fn accept_applied(self, post: Ledger, caller: Identity) -> bool {
        let req = self.request_of(caller);
        &&& !post.spec_has_request(caller)
        &&& self.same_requests_except(post, set![caller])
        &&& req.sender == caller ==> self.same_accounts_except(post, Set::empty())
        &&& req.sender != caller ==> {
            &&& post.spec_has_account(req.sender)
            &&& post.spec_has_account(caller)
            &&& post.balance_of(req.sender) == self.balance_of(req.sender) - req.amount
            &&& post.balance_of(caller) == self.balance_of(caller) + req.amount
            &&& post.account_of(req.sender).owner == self.account_of(req.sender).owner
            &&& post.friends_of(req.sender) == self.friends_of(req.sender)
            &&& post.counter_of(req.sender) == self.counter_of(req.sender)
            &&& post.account_of(caller).owner == self.account_of(caller).owner
            &&& post.friends_of(caller) == self.friends_of(caller)
            &&& post.counter_of(caller) == self.counter_of(caller)
            &&& self.same_accounts_except(post, set![req.sender, caller])
        }
        &&& post.holdings@ == self.holdings@
        &&& post.total_supply == self.total_supply
    }

    /// `decline_request` succeeds exactly when a request is filed for the
    /// caller.
    pub open spec fn decline_enabled(self, caller: Identity) -> bool {
        self.spec_has_request(caller)
    }

    /// The successful effect of `decline_request`: the request's storage is
    /// released and no value moves anywhere.
    pub open spec fn decline_applied(self, post: Ledger, caller: Identity) -> bool {
        &&& !post.spec_has_request(caller)
        &&& self.same_requests_except(post, set![caller])
        &&& post.accounts@ == self.accounts@
        &&& post.holdings@ == self.holdings@
        &&& post.total_supply == self.total_supply
    }

    /// An empty ledger: no accounts, no requests, no holdings, no value.
    pub fn new() -> (r: Ledger)
        ensures
            r.wf(),
            r.accounts@.len() == 0,
            r.requests@.len() == 0,
            r.holdings@.len() == 0,
            r.total_supply == 0,
            forall|id: Identity| !r.spec_has_account(id),
            forall|id: Identity| !r.spec_has_request(id),
            forall|id: Identity| r.external_of(id) == 0,
    {
        Ledger {
            accounts: Vec::new(),
            requests: Vec::new(),
            holdings: Vec::new(),
            total_supply: 0,
        }
    }

    /// Resolves the derived address of `id`'s account to its slot, if the
    /// account exists.
    fn find_account(&self, id: Identity) -> (r: Option<usize>)
        requires
            distinct_keys(self.accounts@),
        ensures
            r is Some <==> self.spec_has_account(id),
            r matches Some(i) ==> 0 <= i < self.accounts@.len() && i == idx_of(self.accounts@, id)
                && self.accounts@[i as int].owner == id,
    {
        let n = self.accounts.len();
        let mut j: usize = 0;
        while j < n
            invariant
                n == self.accounts@.len(),
                0 <= j <= n,
                distinct_keys(self.accounts@),
                forall|k: int| 0 <= k < j ==> (#[trigger] self.accounts@[k]).owner != id,
            decreases n - j,
        {
            if self.accounts[j].owner == id {
                proof {
                    lemma_idx_of_unique(self.accounts@, j as int, id);
                }
                return Some(j);
            }
            j += 1;
        }
        proof {
            if self.spec_has_account(id) {
                let w = idx_of(self.accounts@, id);
                assert(self.accounts@[w].owner != id);
            }
        }
        None
    }

    /// Resolves the derived address of `id`'s pending request to its slot,
    /// if one exists.
    fn find_request(&self, id: Identity) -> (r: Option<usize>)
        requires
            distinct_keys(self.requests@),
        ensures
            r is Some <==> self.spec_has_request(id),
            r matches Some(i) ==> 0 <= i < self.requests@.len() && i == idx_of(self.requests@, id)
                && self.requests@[i as int].recipient == id,
    {
        let n = self.requests.len();
        let mut j: usize = 0;
        while j < n
            invariant
                n == self.requests@.len(),
                0 <= j <= n,
                distinct_keys(self.requests@),
                forall|k: int| 0 <= k < j ==> (#[trigger] self.requests@[k]).recipient != id,
            decreases n - j,
        {
            if self.requests[j].recipient == id {
                proof {
                    lemma_idx_of_unique(self.requests@, j as int, id);
                }
                return Some(j);
            }
            j += 1;
        }
        proof {
            if self.spec_has_request(id) {
                let w = idx_of(self.requests@, id);
                assert(self.requests@[w].recipient != id);
            }
        }
        None
    }

    /// Resolves `id`'s external holding to its slot, if the platform has
    /// ever funded one.
    fn find_holding(&self, id: Identity) -> (r: Option<usize>)
        requires
            distinct_keys(self.holdings@),
        ensures
            r is Some <==> has_key(self.holdings@, id),
            r matches Some(i) ==> 0 <= i < self.holdings@.len() && i == idx_of(self.holdings@, id)
                && self.holdings@[i as int].owner == id,
    {
        let n = self.holdings.len();
        let mut j: usize = 0;
        while j < n
            invariant
                n == self.holdings@.len(),
                0 <= j <= n,
                distinct_keys(self.holdings@),
                forall|k: int| 0 <= k < j ==> (#[trigger] self.holdings@[k]).owner != id,
            decreases n - j,
        {
            if self.holdings[j].owner == id {
                proof {
                    lemma_idx_of_unique(self.holdings@, j as int, id);
                }
                return Some(j);
            }
            j += 1;
        }
        proof {
            if has_key(self.holdings@, id) {
                let w = idx_of(self.holdings@, id);
                assert(self.holdings@[w].owner != id);
            }
        }
        None
    }

    /// Whether a cash account is filed for `id`.
    pub fn has_account(&self, id: Identity) -> (r: bool)
        requires
            self.wf(),
        ensures
            r == self.spec_has_account(id),
    {
        self.find_account(id).is_some()
    }

    /// The balance of `id`'s cash account, if the account exists.
    pub fn account_balance(&self, id: Identity) -> (r: Option<u64>)
        requires
            self.wf(),
        ensures
            r is Some <==> self.spec_has_account(id),
            r matches Some(b) ==> b == self.balance_of(id),
    {
        match self.find_account(id) {
            None => None,
            Some(i) => Some(self.accounts[i].balance),
        }
    }

    /// The value `id` holds outside of any cash account.
    pub fn external_balance(&self, id: Identity) -> (r: u64)
        requires
            self.wf(),
        ensures
            r == self.external_of(id),
    {
        match self.find_holding(id) {
            None => 0,
            Some(h) => self.holdings[h].amount,
        }
    }

    /// How many friend entries `id`'s account holds, if it exists.
    pub fn friend_count(&self, id: Identity) -> (r: Option<usize>)
        requires
            self.wf(),
        ensures
            r is Some <==> self.spec_has_account(id),
            r matches Some(n) ==> n == self.friends_of(id).len(),
    {
        match self.find_account(id) {
            None => None,
            Some(i) => Some(self.accounts[i].friends.len()),
        }
    }

    /// The friend entry at position `j` of `id`'s list, if both exist.
    pub fn friend_at(&self, id: Identity, j: usize) -> (r: Option<Identity>)
        requires
            self.wf(),
        ensures
            r is Some <==> self.spec_has_account(id) && j < self.friends_of(id).len(),
            r matches Some(f) ==> f == self.friends_of(id)[j as int],
    {
        match self.find_account(id) {
            None => None,
            Some(i) => {
                if j < self.accounts[i].friends.len() {
                    Some(self.accounts[i].friends[j])
                } else {
                    None
                }
            },
        }
    }

    /// The request counter of `id`'s account, if it exists.
    pub fn pending_counter(&self, id: Identity) -> (r: Option<u64>)
        requires
            self.wf(),
        ensures
            r is Some <==> self.spec_has_account(id),
            r matches Some(c) ==> c == self.counter_of(id),
    {
        match self.find_account(id) {
            None => None,
            Some(i) => Some(self.accounts[i].pending_request_counter),
        }
    }

    /// The pending request filed for recipient `id`, if one exists.
    pub fn pending_request(&self, id: Identity) -> (r: Option<PendingRequest>)
        requires
            self.wf(),
        ensures
            r is Some <==> self.spec_has_request(id),
            r matches Some(q) ==> q == self.request_of(id),
    {
        match self.find_request(id) {
            None => None,
            Some(i) => Some(self.requests[i]),
        }
    }

    /// The total value minted into the system so far.
    pub fn supply(&self) -> (r: u64)
        ensures
            r == self.total_supply,
    {
        self.total_supply
    }

    /// Creates the caller's cash account if and only if none exists at the
    /// derived address: owner set to the caller, no friends, counter and
    /// balance zero.
    pub fn initialize_account(&mut self, caller: Identity) -> (r: Result<(), ErrorCode>)
        requires
            old(self).wf(),
        ensures
            final(self).wf(),
            r is Ok <==> old(self).init_account_enabled(caller),
            r == Err::<(), ErrorCode>(ErrorCode::AlreadyExists) <==> old(self).spec_has_account(
                caller,
            ),
            r is Ok ==> old(self).init_account_applied(*final(self), caller),
            r is Err ==> *final(self) == *old(self),
    {
        match self.find_account(caller) {
            Some(_) => Err(ErrorCode::AlreadyExists),
            None => {
                let acc = CashAccount {
                    owner: caller,
                    friends: Vec::new(),
                    pending_request_counter: 0,
                    balance: 0,
                };
                proof {
                    lemma_push_entry(self.accounts@, acc);
                    lemma_sum_balances_push(self.accounts@, acc);
                }
                self.accounts.push(acc);
                Ok(())
            },
        }
    }

    /// Moves `amount` from the caller's external holding into the caller's
    /// own cash account. The account must already exist; the move fails
    /// atomically when the holding cannot cover the amount. No minimum is
    /// enforced: a zero deposit succeeds and moves nothing.
    pub fn deposit_funds(&mut self, caller: Identity, amount: u64) -> (r: Result<(), ErrorCode>)
        requires
            old(self).wf(),
        ensures
            final(self).wf(),
            r is Ok <==> old(self).deposit_enabled(caller, amount),
            r == Err::<(), ErrorCode>(ErrorCode::NotFound) <==> !old(self).spec_has_account(
                caller,
            ),
            r == Err::<(), ErrorCode>(ErrorCode::InsufficientFunds) <==> old(
                self,
            ).spec_has_account(caller) && old(self).external_of(caller) < amount,
            r is Ok ==> old(self).deposit_applied(*final(self), caller, amount),
            r is Err ==> *final(self) == *old(self),
    {
        let ai = match self.find_account(caller) {
            None => {
                return Err(ErrorCode::NotFound);
            },
            Some(i) => i,
        };
        match self.find_holding(caller) {
            None => {
                if amount > 0 {
                    return Err(ErrorCode::InsufficientFunds);
                }
                // A zero deposit from an unfunded holding moves nothing.
                Ok(())
            },
            Some(h) => {
                let held = self.holdings[h].amount;
                if held < amount {
                    return Err(ErrorCode::InsufficientFunds);
                }
                proof {
                    lemma_balance_le_sum(self.accounts@, ai as int);
                    lemma_holding_le_sum(self.holdings@, h as int);
                }
                let new_hold = ExternalHolding { owner: caller, amount: held - amount };
                proof {
                    lemma_sum_holdings_update(self.holdings@, h as int, new_hold);
                    lemma_update_entry(self.holdings@, h as int, new_hold);
                }
                self.holdings[h] = new_hold;
                let ghost accs0 = self.accounts@;
                let mut acc = self.accounts.remove(ai);
                let bal = acc.balance;
                acc.balance = bal + amount;
                let ghost accv = acc;
                self.accounts.insert(ai, acc);
                proof {
                    assert(self.accounts@ =~= accs0.update(ai as int, accv));
                    lemma_sum_balances_update(accs0, ai as int, accv);
                    lemma_update_entry(accs0, ai as int, accv);
                }
                Ok(())
            },
        }
    }

    /// Moves `amount` from the caller's own cash account back into the
    /// caller's external holding. The amount must be positive and within
    /// the account's balance.
    pub fn withdraw_funds(&mut self, caller: Identity, amount: u64) -> (r: Result<(), ErrorCode>)
        requires
            old(self).wf(),
        ensures
            final(self).wf(),
            r is Ok <==> old(self).withdraw_enabled(caller, amount),
            r == Err::<(), ErrorCode>(ErrorCode::InvalidAmount) <==> amount == 0,
            r == Err::<(), ErrorCode>(ErrorCode::NotFound) <==> amount > 0 && !old(
                self,
            ).spec_has_account(caller),
            r == Err::<(), ErrorCode>(ErrorCode::InsufficientFunds) <==> amount > 0 && old(
                self,
            ).spec_has_account(caller) && old(self).balance_of(caller) < amount,
            r is Ok ==> old(self).withdraw_applied(*final(self), caller, amount),
            r is Err ==> *final(self) == *old(self),
    {
        if amount == 0 {
            return Err(ErrorCode::InvalidAmount);
        }
        let ai = match self.find_account(caller) {
            None => {
                return Err(ErrorCode::NotFound);
            },
            Some(i) => i,
        };
        let bal = self.accounts[ai].balance;
        if bal < amount {
            return Err(ErrorCode::InsufficientFunds);
        }
        proof {
            lemma_balance_le_sum(self.accounts@, ai as int);
        }
        let ghost accs0 = self.accounts@;
        let mut acc = self.accounts.remove(ai);
        acc.balance = bal - amount;
        let ghost accv = acc;
        self.accounts.insert(ai, acc);
        proof {
            assert(self.accounts@ =~= accs0.update(ai as int, accv));
            lemma_sum_balances_update(accs0, ai as int, accv);
            lemma_update_entry(accs0, ai as int, accv);
        }
        match self.find_holding(caller) {
            Some(h) => {
                let held = self.holdings[h].amount;
                proof {
                    lemma_holding_le_sum(self.holdings@, h as int);
                }
                let new_hold = ExternalHolding { owner: caller, amount: held + amount };
                proof {
                    lemma_sum_holdings_update(self.holdings@, h as int, new_hold);
                    lemma_update_entry(self.holdings@, h as int, new_hold);
                }
                self.holdings[h] = new_hold;
            },
            None => {
                let entry = ExternalHolding { owner: caller, amount };
                proof {
                    lemma_sum_holdings_push(self.holdings@, entry);
                    lemma_push_entry(self.holdings@, entry);
                }
                self.holdings.push(entry);
            },
        }
        Ok(())
    }

    /// Moves `amount` from the caller's cash account into the recipient's.
    /// Both accounts must already exist, the amount must be positive, and
    /// the caller's balance must cover it; debit and credit apply as one
    /// atomic unit or not at all.
    pub fn transfer_funds(
        &mut self,
        caller: Identity,
        recipient: Identity,
        amount: u64,
    ) -> (r: Result<(), ErrorCode>)
        requires
            old(self).wf(),
        ensures
            final(self).wf(),
            r is Ok <==> old(self).transfer_enabled(caller, recipient, amount),
            r == Err::<(), ErrorCode>(ErrorCode::InvalidAmount) <==> amount == 0,
            r == Err::<(), ErrorCode>(ErrorCode::NotFound) <==> amount > 0 && !(old(
                self,
            ).spec_has_account(caller) && old(self).spec_has_account(recipient)),
            r == Err::<(), ErrorCode>(ErrorCode::InsufficientFunds) <==> amount > 0 && old(
                self,
            ).spec_has_account(caller) && old(self).spec_has_account(recipient) && old(
                self,
            ).balance_of(caller) < amount,
            r is Ok ==> old(self).transfer_applied(*final(self), caller, recipient, amount),
            r is Err ==> *final(self) == *old(self),
    {
        if amount == 0 {
            return Err(ErrorCode::InvalidAmount);
        }
        let fi = match self.find_account(caller) {
            None => {
                return Err(ErrorCode::NotFound);
            },
            Some(i) => i,
        };
        let ti = match self.find_account(recipient) {
            None => {
                return Err(ErrorCode::NotFound);
            },
            Some(i) => i,
        };
        let from_bal = self.accounts[fi].balance;
        if from_bal < amount {
            return Err(ErrorCode::InsufficientFunds);
        }
        if caller == recipient {
            // Debit and credit land on the same record: nothing moves.
            return Ok(());
        }
        // Debit the caller.
        let ghost accs0 = self.accounts@;
        let mut from_acc = self.accounts.remove(fi);
        from_acc.balance = from_bal - amount;
        let ghost fromv = from_acc;
        self.accounts.insert(fi, from_acc);
        proof {
            assert(self.accounts@ =~= accs0.update(fi as int, fromv));
            lemma_sum_balances_update(accs0, fi as int, fromv);
            lemma_update_entry(accs0, fi as int, fromv);
        }
        // Credit the recipient; the debited total bounds the credit.
        let ghost accs1 = self.accounts@;
        proof {
            lemma_balance_le_sum(accs1, ti as int);
            lemma_sum_holdings_nonneg(self.holdings@);
            lemma_idx_of_unique(accs1, ti as int, recipient);
        }
        let to_bal = self.accounts[ti].balance;
        let mut to_acc = self.accounts.remove(ti);
        to_acc.balance = to_bal + amount;
        let ghost tov = to_acc;
        self.accounts.insert(ti, to_acc);
        proof {
            assert(self.accounts@ =~= accs1.update(ti as int, tov));
            lemma_sum_balances_update(accs1, ti as int, tov);
            lemma_update_entry(accs1, ti as int, tov);
        }
        Ok(())
    }

    /// Appends `friend` to the caller's own friend list. Duplicates are
    /// allowed; the list is bounded at `MAX_FRIENDS` entries.
    pub fn add_friend(&mut self, caller: Identity, friend: Identity) -> (r: Result<
        (),
        ErrorCode,
    >)
        requires
            old(self).wf(),
        ensures
            final(self).wf(),
            r is Ok <==> old(self).add_friend_enabled(caller),
            r == Err::<(), ErrorCode>(ErrorCode::NotFound) <==> !old(self).spec_has_account(
                caller,
            ),
            r == Err::<(), ErrorCode>(ErrorCode::ListFull) <==> old(self).spec_has_account(caller)
                && old(self).friends_of(caller).len() >= MAX_FRIENDS,
            r is Ok ==> old(self).add_friend_applied(*final(self), caller, friend),
            r is Err ==> *final(self) == *old(self),
    {
        let ai = match self.find_account(caller) {
            None => {
                return Err(ErrorCode::NotFound);
            },
            Some(i) => i,
        };
        if self.accounts[ai].friends.len() >= MAX_FRIENDS {
            return Err(ErrorCode::ListFull);
        }
        let ghost accs0 = self.accounts@;
        let mut acc = self.accounts.remove(ai);
        acc.friends.push(friend);
        let ghost accv = acc;
        self.accounts.insert(ai, acc);
        proof {
            assert(self.accounts@ =~= accs0.update(ai as int, accv));
            lemma_sum_balances_update(accs0, ai as int, accv);
            lemma_update_entry(accs0, ai as int, accv);
        }
        Ok(())
    }

    /// Files a payment request at the caller's derived address, naming the
    /// identity asked to pay, and steps the caller's request counter. The
    /// counter bound is a machine limit; `pending_counter` lets any caller
    /// check it first.
    pub fn new_pending_request(
        &mut self,
        caller: Identity,
        sender: Identity,
        amount: u64,
    ) -> (r: Result<(), ErrorCode>)
        requires
            old(self).wf(),
            old(self).spec_has_account(caller) ==> old(self).counter_of(caller) < u64::MAX,
        ensures
            final(self).wf(),
            r is Ok <==> old(self).new_request_enabled(caller),
            r == Err::<(), ErrorCode>(ErrorCode::AlreadyExists) <==> old(self).spec_has_request(
                caller,
            ),
            r == Err::<(), ErrorCode>(ErrorCode::NotFound) <==> !old(self).spec_has_request(
                caller,
            ) && !old(self).spec_has_account(caller),
            r is Ok ==> old(self).new_request_applied(*final(self), caller, sender, amount),
            r is Err ==> *final(self) == *old(self),
    {
        match self.find_request(caller) {
            Some(_) => {
                return Err(ErrorCode::AlreadyExists);
            },
            None => {},
        }
        let ai = match self.find_account(caller) {
            None => {
                return Err(ErrorCode::NotFound);
            },
            Some(i) => i,
        };
        let count = self.accounts[ai].pending_request_counter;
        let req = PendingRequest {
            sender,
            recipient: caller,
            amount,
            pending_request_count: count,
        };
        proof {
            lemma_push_entry(self.requests@, req);
        }
        self.requests.push(req);
        let ghost accs0 = self.accounts@;
        let mut acc = self.accounts.remove(ai);
        acc.pending_request_counter = count + 1;
        let ghost accv = acc;
        self.accounts.insert(ai, acc);
        proof {
            assert(self.accounts@ =~= accs0.update(ai as int, accv));
            lemma_sum_balances_update(accs0, ai as int, accv);
            lemma_update_entry(accs0, ai as int, accv);
        }
        Ok(())
    }

    /// Resolves the request filed for the caller by paying it: the
    /// requested amount moves from the sender's account to the caller's,
    /// and the request's storage is released — one atomic unit, refused
    /// whole if the sender cannot cover it.
    pub fn accept_request(&mut self, caller: Identity) -> (r: Result<(), ErrorCode>)
        requires
            old(self).wf(),
        ensures
            final(self).wf(),
            r is Ok <==> old(self).accept_enabled(caller),
            r == Err::<(), ErrorCode>(ErrorCode::NotFound) <==> !old(self).spec_has_request(
                caller,
            ) || !old(self).spec_has_account(old(self).request_of(caller).sender),
            r == Err::<(), ErrorCode>(ErrorCode::InsufficientFunds) <==> old(
                self,
            ).spec_has_request(caller) && old(self).spec_has_account(
                old(self).request_of(caller).sender,
            ) && old(self).balance_of(old(self).request_of(caller).sender) < old(
                self,
            ).request_of(caller).amount,
            r is Ok ==> old(self).accept_applied(*final(self), caller),
            r is Err ==> *final(self) == *old(self),
    {
        let ri = match self.find_request(caller) {
            None => {
                return Err(ErrorCode::NotFound);
            },
            Some(i) => i,
        };
        let req = self.requests[ri];
        let si = match self.find_account(req.sender) {
            None => {
                return Err(ErrorCode::NotFound);
            },
            Some(i) => i,
        };
        let sender_bal = self.accounts[si].balance;
        if sender_bal < req.amount {
            return Err(ErrorCode::InsufficientFunds);
        }
        let ghost reqs0 = self.requests@;
        if req.sender == caller {
            // Debit and credit land on the same record: only the request
            // storage is released.
            proof {
                lemma_remove_entry(self.requests@, ri as int);
                reqs0.remove_ensures(ri as int);
            }
            let _ = self.requests.remove(ri);
            return Ok(());
        }
        // The recipient's account exists: the request directory only ever
        // files requests for identities that hold one.
        let ci = match self.find_account(caller) {
            None => {
                proof {
                    assert(false);
                }
                return Err(ErrorCode::NotFound);
            },
            Some(i) => i,
        };
        // Debit the sender.
        let ghost accs0 = self.accounts@;
        let mut from_acc = self.accounts.remove(si);
        from_acc.balance = sender_bal - req.amount;
        let ghost fromv = from_acc;
        self.accounts.insert(si, from_acc);
        proof {
            assert(self.accounts@ =~= accs0.update(si as int, fromv));
            lemma_sum_balances_update(accs0, si as int, fromv);
            lemma_update_entry(accs0, si as int, fromv);
        }
        // Credit the caller; the debited total bounds the credit.
        let ghost accs1 = self.accounts@;
        proof {
            lemma_balance_le_sum(accs1, ci as int);
            lemma_sum_holdings_nonneg(self.holdings@);
            lemma_idx_of_unique(accs1, ci as int, caller);
        }
        let to_bal = self.accounts[ci].balance;
        let mut to_acc = self.accounts.remove(ci);
        to_acc.balance = to_bal + req.amount;
        let ghost tov = to_acc;
        self.accounts.insert(ci, to_acc);
        proof {
            assert(self.accounts@ =~= accs1.update(ci as int, tov));
            lemma_sum_balances_update(accs1, ci as int, tov);
            lemma_update_entry(accs1, ci as int, tov);
        }
        // Release the request's storage.
        proof {
            lemma_remove_entry(self.requests@, ri as int);
            reqs0.remove_ensures(ri as int);
        }
        let _ = self.requests.remove(ri);
        Ok(())
    }

    /// Resolves the request filed for the caller by releasing its storage
    /// without moving any value.
    pub fn decline_request(&mut self, caller: Identity) -> (r: Result<(), ErrorCode>)
        requires
            old(self).wf(),
        ensures
            final(self).wf(),
            r is Ok <==> old(self).decline_enabled(caller),
            r == Err::<(), ErrorCode>(ErrorCode::NotFound) <==> !old(self).spec_has_request(
                caller,
            ),
            r is Ok ==> old(self).decline_applied(*final(self), caller),
            r is Err ==> *final(self) == *old(self),
    {
        let ri = match self.find_request(caller) {
            None => {
                return Err(ErrorCode::NotFound);
            },
            Some(i) => i,
        };
        proof {
            lemma_remove_entry(self.requests@, ri as int);
            self.requests@.remove_ensures(ri as int);
        }
        let _ = self.requests.remove(ri);
        Ok(())
    }

    /// The platform minting value into a caller's external holding; the one
    /// way total supply rises. The bound on the new total is a machine
    /// limit; `supply` lets any caller check it first.
    pub fn fund_external(&mut self, caller: Identity, amount: u64)
        requires
            old(self).wf(),
            old(self).total_supply + amount <= u64::MAX,
        ensures
            final(self).wf(),
            old(self).fund_external_applied(*final(self), caller, amount),
    {
        match self.find_holding(caller) {
            Some(h) => {
                let held = self.holdings[h].amount;
                proof {
                    lemma_holding_le_sum(self.holdings@, h as int);
                    lemma_sum_balances_nonneg(self.accounts@);
                    lemma_sum_holdings_update(
                        self.holdings@,
                        h as int,
                        ExternalHolding { owner: caller, amount: (held + amount) as u64 },
                    );
                    lemma_update_entry(
                        self.holdings@,
                        h as int,
                        ExternalHolding { owner: caller, amount: (held + amount) as u64 },
                    );
                }
                self.holdings[h] = ExternalHolding { owner: caller, amount: held + amount };
                self.total_supply = self.total_supply + amount;
            },
            None => {
                let entry = ExternalHolding { owner: caller, amount };
                proof {
                    lemma_sum_holdings_push(self.holdings@, entry);
                    lemma_push_entry(self.holdings@, entry);
                }
                self.holdings.push(entry);
                self.total_supply = self.total_supply + amount;
            },
        }
    }
}

} // verus!
