//! The deterministic in-memory price feed the engine consumes.
//!
//! The chain's oracle is an external collaborator; this stand-in holds
//! the fed prices explicitly so that every reading is a pure function
//! of the stored state.  The stable currency itself is always worth
//! exactly one unit of account.

use crate::arith::mul_div_floor;
use crate::fixed::{FixedU128, Price, FIXED_ONE};
use crate::table::CurTable;
use crate::types::CurrencyId;
use vstd::prelude::*;

verus! {

/// Price feed: a table of stable-denominated prices, plus the identity
/// of the stable currency, whose price is fixed at one.
pub struct MockPriceSource {
    pub stable_currency_id: CurrencyId,
    pub prices: CurTable<Option<Price>>,
}

impl MockPriceSource {
    /// The stored price of `c` in raw fixed-point bits, if any.
    pub open spec fn spec_price(self, c: CurrencyId) -> Option<int> {
        if c == self.stable_currency_id {
            Some(FIXED_ONE as int)
        } else {
            match self.prices.spec_get(c) {
                Some(Some(p)) => Some(p.bits as int),
                _ => None,
            }
        }
    }

    /// Price of `base` expressed in units of `quote`, rounded down:
    /// `price(base) / price(quote)` in fixed-point.
    pub open spec fn spec_relative_price(self, base: CurrencyId, quote: CurrencyId) -> Option<
        int,
    > {
        match (self.spec_price(base), self.spec_price(quote)) {
            (Some(pb), Some(pq)) => if pq == 0 {
                None
            } else {
                let v = mul_div_floor(pb, FIXED_ONE as int, pq);
                if v > u128::MAX {
                    None
                } else {
                    Some(v)
                }
            },
            _ => None,
        }
    }

    pub fn new(stable_currency_id: CurrencyId) -> (r: Self)
        ensures
            r.stable_currency_id == stable_currency_id,
            forall|c: CurrencyId|
                c != stable_currency_id ==> #[trigger] r.spec_price(c) is None,
            r.spec_price(stable_currency_id) == Some(FIXED_ONE as int),
    {
        MockPriceSource { stable_currency_id, prices: CurTable::new() }
    }

    /// Record `price` as the stable-denominated price of `c`, or clear
    /// the feed for `c` with `None`.
    pub fn set_relative_price(&mut self, c: CurrencyId, price: Option<Price>)
        ensures
            final(self).stable_currency_id == old(self).stable_currency_id,
            final(self).spec_price(c) == if c == old(self).stable_currency_id {
                Some(FIXED_ONE as int)
            } else {
                match price {
                    Some(p) => Some(p.bits as int),
                    None => None,
                }
            },
            forall|c2: CurrencyId|
                c2 != c ==> #[trigger] final(self).spec_price(c2) == old(self).spec_price(c2),
    {
        self.prices.set(c, price);
    }

    /// Record `price` as the stable-denominated price of `c`.
    pub fn feed_price(&mut self, c: CurrencyId, price: Price)
        ensures
            final(self).stable_currency_id == old(self).stable_currency_id,
            final(self).spec_price(c) == if c == old(self).stable_currency_id {
                Some(FIXED_ONE as int)
            } else {
                Some(price.bits as int)
            },
            forall|c2: CurrencyId|
                c2 != c ==> #[trigger] final(self).spec_price(c2) == old(self).spec_price(c2),
    {
        self.prices.set(c, Some(price));
    }

    /// The stable-denominated price of `c`, if one is available.
    pub fn get_price(&self, c: CurrencyId) -> (r: Option<Price>)
        ensures
            r == match self.spec_price(c) {
                Some(b) => Some(FixedU128 { bits: b as u128 }),
                None => None::<Price>,
            },
    {
        if c == self.stable_currency_id {
            return Some(FixedU128::one());
        }
        match self.prices.get(c) {
            Some(Some(p)) => Some(p),
            _ => None,
        }
    }

    /// Price of `base` in units of `quote`, if both prices are known
    /// and the quotient is representable.
    pub fn get_relative_price(&self, base: CurrencyId, quote: CurrencyId) -> (r: Option<Price>)
        ensures
            r == match self.spec_relative_price(base, quote) {
                Some(b) => Some(FixedU128 { bits: b as u128 }),
                None => None::<Price>,
            },
    {
        let pb = self.get_price(base);
        let pq = self.get_price(quote);
        match (pb, pq) {
            (Some(b), Some(q)) => b.checked_div(q),
            _ => None,
        }
    }
}

} // verus!
