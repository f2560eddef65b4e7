//! The treasury pool: custodied collateral per type, the bad-debt pool
//! and the surplus pool.  Pure bookkeeping; the balance moves that
//! accompany these counters are made through the ledger by the engine.

use crate::table::CurTable;
use crate::types::{Balance, CurrencyId};
use vstd::prelude::*;

verus! {

/// Aggregate treasury accounting.
pub struct Treasury {
    pub total_collaterals: CurTable<Balance>,
    pub debit_pool: Balance,
    pub surplus_pool: Balance,
}

impl Treasury {
    /// Collateral of type `c` custodied by the treasury.
    pub open spec fn spec_total_collaterals(self, c: CurrencyId) -> int {
        match self.total_collaterals.spec_get(c) {
            Some(v) => v as int,
            None => 0,
        }
    }

    pub fn new() -> (r: Self)
        ensures
            forall|c: CurrencyId| #[trigger] r.spec_total_collaterals(c) == 0,
            r.debit_pool == 0,
            r.surplus_pool == 0,
    {
        Treasury { total_collaterals: CurTable::new(), debit_pool: 0, surplus_pool: 0 }
    }

    pub fn total_collaterals(&self, c: CurrencyId) -> (r: Balance)
        ensures
            r == self.spec_total_collaterals(c),
    {
        match self.total_collaterals.get(c) {
            Some(v) => v,
            None => 0,
        }
    }

    pub fn debit_pool(&self) -> (r: Balance)
        ensures
            r == self.debit_pool,
    {
        self.debit_pool
    }

    pub fn surplus_pool(&self) -> (r: Balance)
        ensures
            r == self.surplus_pool,
    {
        self.surplus_pool
    }

    /// Add seized or deposited collateral to the custody counter.
    pub(crate) fn add_collateral(&mut self, c: CurrencyId, amt: Balance)
        requires
            old(self).spec_total_collaterals(c) + amt <= u128::MAX,
        ensures
            final(self).spec_total_collaterals(c) == old(self).spec_total_collaterals(c) + amt,
            forall|c2: CurrencyId|
                c2 != c ==> #[trigger] final(self).spec_total_collaterals(c2) == old(
                    self,
                ).spec_total_collaterals(c2),
            final(self).debit_pool == old(self).debit_pool,
            final(self).surplus_pool == old(self).surplus_pool,
    {
        let cur = self.total_collaterals(c);
        self.total_collaterals.set(c, cur + amt);
    }

    /// Release custodied collateral (sold on the exchange, refunded, or
    /// handed to an auction winner).
    pub(crate) fn sub_collateral(&mut self, c: CurrencyId, amt: Balance)
        requires
            old(self).spec_total_collaterals(c) >= amt,
        ensures
            final(self).spec_total_collaterals(c) == old(self).spec_total_collaterals(c) - amt,
            forall|c2: CurrencyId|
                c2 != c ==> #[trigger] final(self).spec_total_collaterals(c2) == old(
                    self,
                ).spec_total_collaterals(c2),
            final(self).debit_pool == old(self).debit_pool,
            final(self).surplus_pool == old(self).surplus_pool,
    {
        let cur = self.total_collaterals(c);
        self.total_collaterals.set(c, cur - amt);
    }

    /// Record written-off debt value in the bad-debt pool.
    pub(crate) fn on_system_debit(&mut self, amt: Balance)
        requires
            old(self).debit_pool + amt <= u128::MAX,
        ensures
            final(self).debit_pool == old(self).debit_pool + amt,
            final(self).surplus_pool == old(self).surplus_pool,
            final(self).total_collaterals == old(self).total_collaterals,
    {
        self.debit_pool = self.debit_pool + amt;
    }

    /// Record received stable currency in the surplus pool.
    pub(crate) fn on_system_surplus(&mut self, amt: Balance)
        requires
            old(self).surplus_pool + amt <= u128::MAX,
        ensures
            final(self).surplus_pool == old(self).surplus_pool + amt,
            final(self).debit_pool == old(self).debit_pool,
            final(self).total_collaterals == old(self).total_collaterals,
    {
        self.surplus_pool = self.surplus_pool + amt;
    }
}

} // verus!
