//! The fungible asset ledger: per-account balances and per-currency
//! total issuance, with signed updates that reject rather than produce
//! negative balances.

use crate::table::{AcctTable, CurTable};
use crate::types::{AccountId, Balance, CurrencyId};
use vstd::prelude::*;

verus! {

/// Balances keyed by account and currency, plus each currency's total
/// issuance.  Transfers conserve issuance; mint and burn change it.
pub struct Ledger {
    pub balances: AcctTable<Balance>,
    pub issuance: CurTable<Balance>,
}

impl Ledger {
    /// An account's balance of a currency; absent entries read as zero.
    pub open spec fn spec_balance(self, who: AccountId, c: CurrencyId) -> int {
        match self.balances.spec_get(who, c) {
            Some(v) => v as int,
            None => 0,
        }
    }

    /// Total units of a currency in circulation.
    pub open spec fn spec_issuance(self, c: CurrencyId) -> int {
        match self.issuance.spec_get(c) {
            Some(v) => v as int,
            None => 0,
        }
    }

    pub fn new() -> (r: Self)
        ensures
            forall|who: AccountId, c: CurrencyId| #[trigger] r.spec_balance(who, c) == 0,
            forall|c: CurrencyId| #[trigger] r.spec_issuance(c) == 0,
    {
        Ledger { balances: AcctTable::new(), issuance: CurTable::new() }
    }

    pub fn free_balance(&self, who: AccountId, c: CurrencyId) -> (r: Balance)
        ensures
            r == self.spec_balance(who, c),
    {
        match self.balances.get(who, c) {
            Some(v) => v,
            None => 0,
        }
    }

    pub fn total_issuance(&self, c: CurrencyId) -> (r: Balance)
        ensures
            r == self.spec_issuance(c),
    {
        match self.issuance.get(c) {
            Some(v) => v,
            None => 0,
        }
    }

    /// Create `amt` new units of `c` in `who`'s account.
    pub(crate) fn mint(&mut self, who: AccountId, c: CurrencyId, amt: Balance)
        requires
            old(self).spec_balance(who, c) + amt <= u128::MAX,
            old(self).spec_issuance(c) + amt <= u128::MAX,
        ensures
            final(self).spec_balance(who, c) == old(self).spec_balance(who, c) + amt,
            final(self).spec_issuance(c) == old(self).spec_issuance(c) + amt,
            forall|w2: AccountId, c2: CurrencyId|
                !(w2 == who && c2 == c) ==> #[trigger] final(self).spec_balance(w2, c2) == old(
                    self,
                ).spec_balance(w2, c2),
            forall|c2: CurrencyId|
                c2 != c ==> #[trigger] final(self).spec_issuance(c2) == old(self).spec_issuance(
                    c2,
                ),
    {
        let b = self.free_balance(who, c);
        let i = self.total_issuance(c);
        self.balances.set(who, c, b + amt);
        self.issuance.set(c, i + amt);
    }

    /// Destroy `amt` units of `c` held by `who`.
    pub(crate) fn burn(&mut self, who: AccountId, c: CurrencyId, amt: Balance)
        requires
            old(self).spec_balance(who, c) >= amt,
            old(self).spec_issuance(c) >= amt,
        ensures
            final(self).spec_balance(who, c) == old(self).spec_balance(who, c) - amt,
            final(self).spec_issuance(c) == old(self).spec_issuance(c) - amt,
            forall|w2: AccountId, c2: CurrencyId|
                !(w2 == who && c2 == c) ==> #[trigger] final(self).spec_balance(w2, c2) == old(
                    self,
                ).spec_balance(w2, c2),
            forall|c2: CurrencyId|
                c2 != c ==> #[trigger] final(self).spec_issuance(c2) == old(self).spec_issuance(
                    c2,
                ),
    {
        let b = self.free_balance(who, c);
        let i = self.total_issuance(c);
        self.balances.set(who, c, b - amt);
        self.issuance.set(c, i - amt);
    }

    /// Move `amt` units of `c` from `from` to `to`; issuance is
    /// conserved.  A transfer to oneself changes nothing.
    pub(crate) fn transfer(&mut self, from: AccountId, to: AccountId, c: CurrencyId, amt: Balance)
        requires
            old(self).spec_balance(from, c) >= amt,
            from != to ==> old(self).spec_balance(to, c) + amt <= u128::MAX,
        ensures
            from != to ==> final(self).spec_balance(from, c) == old(self).spec_balance(from, c)
                - amt,
            from != to ==> final(self).spec_balance(to, c) == old(self).spec_balance(to, c) + amt,
            from == to ==> final(self).spec_balance(from, c) == old(self).spec_balance(from, c),
            forall|w2: AccountId, c2: CurrencyId|
                !((w2 == from || w2 == to) && c2 == c) ==> #[trigger] final(self).spec_balance(
                    w2,
                    c2,
                ) == old(self).spec_balance(w2, c2),
            forall|c2: CurrencyId|
                #[trigger] final(self).spec_issuance(c2) == old(self).spec_issuance(c2),
    {
        if from == to {
            return ;
        }
        let bf = self.free_balance(from, c);
        let bt = self.free_balance(to, c);
        self.balances.set(from, c, bf - amt);
        self.balances.set(to, c, bt + amt);
    }
}

} // verus!
