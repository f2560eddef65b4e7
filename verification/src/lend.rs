//! The position ledger: one record of collateral and debit per
//! (collateral type, owner), with per-type aggregates.

use crate::table::{AcctTable, CurTable};
use crate::types::{AccountId, Balance, CurrencyId, Position};
use vstd::prelude::*;

verus! {

/// All positions, plus the per-type totals of collateral and debit.
pub struct Lend {
    pub positions: AcctTable<Position>,
    pub totals: CurTable<(Balance, Balance)>,
}

impl Lend {
    /// The position of `who` under collateral type `c`; an absent
    /// record reads as the empty position.
    pub open spec fn spec_position(self, c: CurrencyId, who: AccountId) -> Position {
        match self.positions.spec_get(who, c) {
            Some(p) => p,
            None => Position { collateral: 0, debit: 0 },
        }
    }

    /// Aggregate (collateral, debit) under collateral type `c`.
    pub open spec fn spec_total(self, c: CurrencyId) -> (Balance, Balance) {
        match self.totals.spec_get(c) {
            Some(t) => t,
            None => (0, 0),
        }
    }

    pub fn new() -> (r: Self)
        ensures
            forall|c: CurrencyId, who: AccountId|
                #[trigger] r.spec_position(c, who) == (Position { collateral: 0, debit: 0 }),
            forall|c: CurrencyId| #[trigger] r.spec_total(c) == (0u128, 0u128),
    {
        Lend { positions: AcctTable::new(), totals: CurTable::new() }
    }

    /// The position of `who` under collateral type `c`.
    pub fn positions(&self, c: CurrencyId, who: AccountId) -> (r: Position)
        ensures
            r == self.spec_position(c, who),
    {
        match self.positions.get(who, c) {
            Some(p) => p,
            None => Position::empty(),
        }
    }

    /// Aggregate (collateral, debit) under collateral type `c`.
    pub fn total_positions(&self, c: CurrencyId) -> (r: (Balance, Balance))
        ensures
            r == self.spec_total(c),
    {
        match self.totals.get(c) {
            Some(t) => t,
            None => (0, 0),
        }
    }

    /// Overwrite one position, leaving all others unchanged.
    pub(crate) fn set_position(&mut self, c: CurrencyId, who: AccountId, p: Position)
        ensures
            final(self).spec_position(c, who) == p,
            forall|c2: CurrencyId, w2: AccountId|
                !(c2 == c && w2 == who) ==> #[trigger] final(self).spec_position(c2, w2) == old(
                    self,
                ).spec_position(c2, w2),
            final(self).totals == old(self).totals,
    {
        self.positions.set(who, c, p);
    }

    /// Overwrite one type's aggregates, leaving all others unchanged.
    pub(crate) fn set_total(&mut self, c: CurrencyId, t: (Balance, Balance))
        ensures
            final(self).spec_total(c) == t,
            forall|c2: CurrencyId|
                c2 != c ==> #[trigger] final(self).spec_total(c2) == old(self).spec_total(c2),
            final(self).positions == old(self).positions,
    {
        self.totals.set(c, t);
    }
}

} // verus!
