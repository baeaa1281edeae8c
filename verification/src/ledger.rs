//! The balance ledger capability: a withdrawal that keeps accounts alive,
//! injected by the surrounding system, plus an in-memory ledger for
//! deterministic testing.

use vstd::prelude::*;
use crate::assoc::{assoc_view, lemma_assoc_view_at, lemma_assoc_view_contains,
    lemma_assoc_view_push, lemma_assoc_view_update, lemma_unique_keys_push,
    lemma_unique_keys_update, unique_keys};
use crate::types::{AccountId, Balance, LedgerError};

verus! {

/// What a keep-alive withdrawal of `amount` answers when the account holds
/// `free` and the ledger keeps accounts alive at `minimum`: a zero
/// withdrawal always succeeds; otherwise the amount must be covered, and
/// what remains must not fall below the minimum.
pub open spec fn withdraw_outcome(free: Balance, minimum: Balance, amount: Balance) -> Result<
    (),
    LedgerError,
> {
    if amount == 0 {
        Ok(())
    } else if free < amount {
        Err(LedgerError::InsufficientBalance)
    } else if free - amount < minimum {
        Err(LedgerError::KeepAlive)
    } else {
        Ok(())
    }
}

/// A balance ledger that can withdraw fees while keeping the paying
/// account above its minimum balance.
pub trait Ledger {
    /// The free balance of each account; 0 for accounts never funded.
    spec fn balance_of(&self, who: AccountId) -> Balance;

    /// The floor below which a withdrawal must not take an account.
    spec fn minimum_balance(&self) -> Balance;

    /// Withdraws `amount` from `who`, failing without any change if the
    /// amount is not covered or the account would fall below the minimum.
    fn withdraw(&mut self, who: AccountId, amount: Balance) -> (r: Result<(), LedgerError>)
        ensures
            r == withdraw_outcome(old(self).balance_of(who), old(self).minimum_balance(), amount),
            final(self).minimum_balance() == old(self).minimum_balance(),
            forall|a: AccountId| a != who ==> final(self).balance_of(a) == old(self).balance_of(a),
            r is Ok ==> final(self).balance_of(who) == old(self).balance_of(who) - amount,
            r is Err ==> final(self).balance_of(who) == old(self).balance_of(who),
    ;
}

/// An in-memory ledger with the keep-alive semantics of
/// [`withdraw_outcome`]; the deterministic stand-in for the surrounding
/// system's ledger in tests.
pub struct TestLedger {
    balances: Vec<(AccountId, Balance)>,
    minimum: Balance,
}

impl TestLedger {
    #[verifier::type_invariant]
    spec fn inv(self) -> bool {
        unique_keys(self.balances@)
    }

    /// An empty ledger (every balance 0) with the given minimum balance.
    pub fn new(minimum: Balance) -> (r: Self)
        ensures
            forall|a: AccountId| r.balance_of(a) == 0,
            r.minimum_balance() == minimum,
    {
        let r = TestLedger { balances: Vec::new(), minimum };
        proof {
            assert forall|a: AccountId| r.balance_of(a) == 0 by {
                lemma_assoc_view_contains(r.balances@, a);
            }
        }
        r
    }

    /// The index of the entry holding `who`'s balance, if one exists.
    fn find_account(&self, who: AccountId) -> (r: Option<usize>)
        ensures
            match r {
                Some(i) => i < self.balances@.len() && self.balances@[i as int].0 == who
                    && self.balance_of(who) == self.balances@[i as int].1,
                None => self.balance_of(who) == 0 && forall|j: int|
                    0 <= j < self.balances@.len() ==> (#[trigger] self.balances@[j]).0 != who,
            },
    {
        proof {
            use_type_invariant(&*self);
        }
        let mut i: usize = 0;
        while i < self.balances.len()
            invariant
                i <= self.balances@.len(),
                unique_keys(self.balances@),
                forall|j: int| 0 <= j < i ==> (#[trigger] self.balances@[j]).0 != who,
            decreases self.balances@.len() - i,
        {
            if self.balances[i].0 == who {
                proof {
                    lemma_assoc_view_at(self.balances@, i as int);
                }
                return Some(i);
            }
            i = i + 1;
        }
        proof {
            lemma_assoc_view_contains(self.balances@, who);
        }
        None
    }

    /// Sets `who`'s free balance to exactly `amount`.
    pub fn make_free_balance_be(&mut self, who: AccountId, amount: Balance)
        ensures
            final(self).balance_of(who) == amount,
            forall|a: AccountId| a != who ==> final(self).balance_of(a) == old(self).balance_of(a),
            final(self).minimum_balance() == old(self).minimum_balance(),
    {
        proof {
            use_type_invariant(&*self);
        }
        let idx = self.find_account(who);
        let mut entries: Vec<(AccountId, Balance)> = Vec::new();
        std::mem::swap(&mut entries, &mut self.balances);
        match idx {
            Some(i) => {
                proof {
                    lemma_unique_keys_update(entries@, i as int, who, amount);
                    lemma_assoc_view_update(entries@, i as int, who, amount);
                }
                entries.set(i, (who, amount));
            },
            None => {
                proof {
                    lemma_unique_keys_push(entries@, who, amount);
                    lemma_assoc_view_push(entries@, who, amount);
                }
                entries.push((who, amount));
            },
        }
        std::mem::swap(&mut entries, &mut self.balances);
    }

    /// Reads `who`'s free balance.
    pub fn free_balance(&self, who: AccountId) -> (b: Balance)
        ensures
            b == self.balance_of(who),
    {
        match self.find_account(who) {
            Some(i) => self.balances[i].1,
            None => 0,
        }
    }
}

impl Ledger for TestLedger {
    closed spec fn balance_of(&self, who: AccountId) -> Balance {
        if assoc_view(self.balances@).contains_key(who) {
            assoc_view(self.balances@)[who]
        } else {
            0
        }
    }

    closed spec fn minimum_balance(&self) -> Balance {
        self.minimum
    }

    fn withdraw(&mut self, who: AccountId, amount: Balance) -> (r: Result<(), LedgerError>) {
        proof {
            use_type_invariant(&*self);
        }
        if amount == 0 {
            return Ok(());
        }
        let idx = self.find_account(who);
        let free = match idx {
            Some(i) => self.balances[i].1,
            None => 0,
        };
        if free < amount {
            return Err(LedgerError::InsufficientBalance);
        }
        let remaining = free - amount;
        if remaining < self.minimum {
            return Err(LedgerError::KeepAlive);
        }
        match idx {
            Some(i) => {
                let mut entries: Vec<(AccountId, Balance)> = Vec::new();
                std::mem::swap(&mut entries, &mut self.balances);
                proof {
                    lemma_unique_keys_update(entries@, i as int, who, remaining);
                    lemma_assoc_view_update(entries@, i as int, who, remaining);
                }
                entries.set(i, (who, remaining));
                std::mem::swap(&mut entries, &mut self.balances);
            },
            None => {
                // free is 0 here, yet it covers a positive amount.
                proof {
                    assert(false);
                }
            },
        }
        Ok(())
    }
}

} // verus!
