//! The constant-product liquidity exchange.
//!
//! Pools are keyed by their share currency: the ordered pair of token
//! symbols they trade.  Deposits must hold the stable currency on one
//! side; swaps walk a short path of tokens, applying the configured
//! fee on each hop.  The constant product of a pool's reserves never
//! decreases; a swap grows it by at least the fee contribution.

use crate::arith::{lemma_le_div_iff, lemma_mul_div_bound, lemma_mul_div_le_self, mul_div, mul_div_floor};
use crate::fixed::FIXED_ONE;
use crate::types::{AccountId, Balance, CurrencyId, Error, TokenSymbol};
use crate::world::{Runtime, EXCHANGE_ACCOUNT};
use vstd::arithmetic::div_mod::{lemma_fundamental_div_mod, lemma_mod_bound};
use vstd::arithmetic::mul::lemma_mul_nonnegative;
use vstd::prelude::*;

verus! {

/// Canonical order of the registered tokens.
pub open spec fn spec_token_rank(t: TokenSymbol) -> int {
    match t {
        TokenSymbol::DOS => 0,
        TokenSymbol::AUSD => 1,
        TokenSymbol::XBTC => 2,
        TokenSymbol::DOT => 3,
        TokenSymbol::LDOT => 4,
    }
}

/// The share currency of the pool trading `a` against `b`: the two
/// token symbols in canonical order.  `None` when the two are not
/// distinct plain tokens.
pub open spec fn spec_trading_pair_id(a: CurrencyId, b: CurrencyId) -> Option<CurrencyId> {
    match (a, b) {
        (CurrencyId::Token(x), CurrencyId::Token(y)) => if x == y {
            None
        } else if spec_token_rank(x) < spec_token_rank(y) {
            Some(CurrencyId::ExchangeShare(x, y))
        } else {
            Some(CurrencyId::ExchangeShare(y, x))
        },
        _ => None,
    }
}

/// The first-ordered currency of a share currency.
pub open spec fn spec_pair_first(share: CurrencyId) -> CurrencyId {
    match share {
        CurrencyId::ExchangeShare(x, y) => CurrencyId::Token(x),
        _ => share,
    }
}

fn token_rank(t: TokenSymbol) -> (r: u8)
    ensures
        r as int == spec_token_rank(t),
{
    match t {
        TokenSymbol::DOS => 0,
        TokenSymbol::AUSD => 1,
        TokenSymbol::XBTC => 2,
        TokenSymbol::DOT => 3,
        TokenSymbol::LDOT => 4,
    }
}

/// The share currency of the pool trading `a` against `b`, if the two
/// form a tradable pair.
pub fn trading_pair_id(a: CurrencyId, b: CurrencyId) -> (r: Option<CurrencyId>)
    ensures
        r == spec_trading_pair_id(a, b),
{
    match (a, b) {
        (CurrencyId::Token(x), CurrencyId::Token(y)) => {
            if x == y {
                None
            } else if token_rank(x) < token_rank(y) {
                Some(CurrencyId::ExchangeShare(x, y))
            } else {
                Some(CurrencyId::ExchangeShare(y, x))
            }
        },
        _ => None,
    }
}

/// `supply` after the fee is taken out: `supply * (fee_d - fee_n) / fee_d`.
pub open spec fn spec_fee_adjusted(supply: int, fee_n: int, fee_d: int) -> int {
    (supply * (fee_d - fee_n)) / fee_d
}

/// Constant-product output of one hop: supply reserve `rs`, target
/// reserve `rt_`, fee-adjusted input `s2`, output `rt_ * s2 / (rs + s2)`.
/// An empty pool yields nothing.
pub open spec fn spec_swap_target(rs: int, rt_: int, supply: int, fee_n: int, fee_d: int) -> int {
    let s2 = spec_fee_adjusted(supply, fee_n, fee_d);
    if rs <= 0 || rt_ <= 0 {
        0
    } else {
        (rt_ * s2) / (rs + s2)
    }
}

proof fn lemma_swap_product_core(rs: int, rt_: int, s2: int, supply: int, out: int, rem: int)
    by (nonlinear_arith)
    requires
        0 < rs,
        0 <= s2 <= supply,
        0 <= out <= rt_,
        0 <= rem,
        rt_ * s2 == (rs + s2) * out + rem,
    ensures
        (rs + supply) * (rt_ - out) >= rs * rt_ + (supply - s2) * (rt_ - out),
        (rs + supply) * (rt_ - out) >= rs * rt_,
{
}

/// Law: a swap never decreases the pool's constant product, and grows
/// it by at least the fee contribution `(supply - s2) * (rt_ - out)`,
/// the fee kept by the pool valued at the post-swap margin.
pub proof fn lemma_swap_product(rs: int, rt_: int, supply: int, fee_n: int, fee_d: int)
    requires
        0 < rs,
        0 < rt_,
        0 <= supply,
        0 <= fee_n <= fee_d,
        0 < fee_d,
    ensures
        ({
            let s2 = spec_fee_adjusted(supply, fee_n, fee_d);
            let out = spec_swap_target(rs, rt_, supply, fee_n, fee_d);
            &&& (rs + supply) * (rt_ - out) >= rs * rt_ + (supply - s2) * (rt_ - out)
            &&& (rs + supply) * (rt_ - out) >= rs * rt_
            &&& 0 <= out <= rt_
            &&& 0 <= s2 <= supply
        }),
{
    let s2 = spec_fee_adjusted(supply, fee_n, fee_d);
    let out = spec_swap_target(rs, rt_, supply, fee_n, fee_d);
    lemma_mul_div_le_self(supply, fee_d - fee_n, fee_d);
    lemma_mul_div_le_self(rt_, s2, rs + s2);
    assert(out == (rt_ * s2) / (rs + s2));
    lemma_mul_nonnegative(rt_, s2);
    lemma_fundamental_div_mod(rt_ * s2, rs + s2);
    lemma_mod_bound(rt_ * s2, rs + s2);
    lemma_swap_product_core(rs, rt_, s2, supply, out, (rt_ * s2) % (rs + s2));
}

/// Law: adding liquidity never decreases the pool's constant product.
pub proof fn lemma_add_liquidity_product(ro: int, rb: int, oi: int, bi: int)
    by (nonlinear_arith)
    requires
        0 <= ro,
        0 <= rb,
        0 <= oi,
        0 <= bi,
    ensures
        (ro + oi) * (rb + bi) >= ro * rb,
{
}

/// The deposit a liquidity provider's offer amounts to, against pool
/// reserves `(ro, rb)` (other, base) with share issuance `iss`:
/// `Ok((other_increment, base_increment, share_increment))`.
pub open spec fn spec_add_liquidity_plan(ro: int, rb: int, iss: int, mo: int, mb: int) -> Result<
    (int, int, int),
    Error,
> {
    if ro == 0 && rb == 0 {
        if mo == 0 || mb == 0 {
            Err(Error::InvalidLiquidityIncrement)
        } else {
            Ok((mo, mb, mb))
        }
    } else if ro == 0 || rb == 0 {
        Err(Error::InvalidLiquidityIncrement)
    } else {
        let base_limited = mb * ro <= rb * mo;
        let oi = if base_limited {
            (mb * ro) / rb
        } else {
            mo
        };
        let bi = if base_limited {
            mb
        } else {
            (mo * rb) / ro
        };
        if oi == 0 || bi == 0 {
            Err(Error::InvalidLiquidityIncrement)
        } else {
            let r1 = (oi * FIXED_ONE) / ro;
            let r2 = (bi * FIXED_ONE) / rb;
            if r1 > u128::MAX || r2 > u128::MAX {
                Err(Error::ArithmeticOverflow)
            } else {
                let rmin = if r1 <= r2 {
                    r1
                } else {
                    r2
                };
                let sh = (rmin * iss) / FIXED_ONE as int;
                if sh > u128::MAX {
                    Err(Error::ArithmeticOverflow)
                } else if sh == 0 {
                    Err(Error::InvalidLiquidityIncrement)
                } else if ro + oi > u128::MAX || rb + bi > u128::MAX {
                    Err(Error::ArithmeticOverflow)
                } else {
                    Ok((oi, bi, sh))
                }
            }
        }
    }
}

impl Runtime {
    /// Reserves of the pool with this share currency, in its canonical
    /// order; `(0, 0)` when the pool does not exist.
    pub open spec fn spec_pool(self, share: CurrencyId) -> (Balance, Balance) {
        match self.pools.spec_get(share) {
            Some(p) => p,
            None => (0, 0),
        }
    }

    /// Reserves of the pool trading `a` against `b`, returned in the
    /// order `(reserve_a, reserve_b)`; `(0, 0)` when the two do not
    /// form a pair or the pool does not exist.
    pub open spec fn spec_reserves(self, a: CurrencyId, b: CurrencyId) -> (Balance, Balance) {
        match spec_trading_pair_id(a, b) {
            Some(share) => {
                let p = self.spec_pool(share);
                if a == spec_pair_first(share) {
                    p
                } else {
                    ((p.1, p.0))
                }
            },
            None => (0, 0),
        }
    }

    /// Reserves of the pool trading `a` against `b`, as
    /// `(reserve_a, reserve_b)`.
    pub fn get_liquidity_pool(&self, a: CurrencyId, b: CurrencyId) -> (r: (Balance, Balance))
        ensures
            r == self.spec_reserves(a, b),
    {
        match trading_pair_id(a, b) {
            Some(share) => {
                let p = match self.pools.get(share) {
                    Some(p) => p,
                    None => (0, 0),
                };
                let first_is_a = match share {
                    CurrencyId::ExchangeShare(x, y) => a == CurrencyId::Token(x),
                    _ => false,
                };
                if first_is_a {
                    p
                } else {
                    (p.1, p.0)
                }
            },
            None => (0, 0),
        }
    }
}

impl Runtime {
    /// Deposit liquidity into the pool trading `a` against `b`.  One
    /// side must be the stable currency.  A first deposit fixes the
    /// pool at exactly the offered ratio and mints shares equal to the
    /// stable contribution; a later deposit is cut down to the pool's
    /// ratio and mints shares in proportion to the smaller relative
    /// contribution.  Returns the minted share increment.
    pub fn add_liquidity(
        &mut self,
        who: AccountId,
        a: CurrencyId,
        b: CurrencyId,
        max_a: Balance,
        max_b: Balance,
    ) -> (r: Result<Balance, Error>)
        requires
            old(self).wf(),
        ensures
            final(self).wf(),
            final(self).config == old(self).config,
            final(self).lend == old(self).lend,
            final(self).params == old(self).params,
            final(self).debit_exchange_rates == old(self).debit_exchange_rates,
            final(self).global_stability_fee == old(self).global_stability_fee,
            final(self).treasury == old(self).treasury,
            final(self).price_source == old(self).price_source,
            final(self).auction_manager == old(self).auction_manager,
            final(self).emergency_shutdown == old(self).emergency_shutdown,
            r is Err ==> *final(self) == *old(self),
            (spec_trading_pair_id(a, b) is None || (a != old(self).config.stable_currency_id && b
                != old(self).config.stable_currency_id)) ==> r == Err::<Balance, Error>(
                Error::InvalidCurrencyPair,
            ),
            (match spec_trading_pair_id(a, b) {
                Some(share) => (a == old(self).config.stable_currency_id || b == old(self).config.stable_currency_id) ==> ({
                    let stable = old(self).config.stable_currency_id;
                    let other = if a == stable {
                        b
                    } else {
                        a
                    };
                    let mo = if a == stable {
                        max_b
                    } else {
                        max_a
                    };
                    let mb = if a == stable {
                        max_a
                    } else {
                        max_b
                    };
                    let rsv = old(self).spec_reserves(other, stable);
                    let iss = old(self).ledger.spec_issuance(share);
                    match spec_add_liquidity_plan(
                        rsv.0 as int,
                        rsv.1 as int,
                        iss,
                        mo as int,
                        mb as int,
                    ) {
                        Err(e) => r == Err::<Balance, Error>(e),
                        Ok(plan) => {
                            if old(self).ledger.spec_balance(who, other) < plan.0 || old(self).ledger.spec_balance(who, stable) < plan.1 {
                                r == Err::<Balance, Error>(Error::BalanceTooLow)
                            } else if (who != EXCHANGE_ACCOUNT && (old(self).ledger.spec_balance(
                                EXCHANGE_ACCOUNT,
                                other,
                            ) + plan.0 > u128::MAX || old(self).ledger.spec_balance(
                                EXCHANGE_ACCOUNT,
                                stable,
                            ) + plan.1 > u128::MAX)) || old(self).ledger.spec_balance(who, share)
                                + plan.2 > u128::MAX || iss + plan.2 > u128::MAX {
                                r == Err::<Balance, Error>(Error::ArithmeticOverflow)
                            } else {
                                &&& r == Ok::<Balance, Error>(plan.2 as Balance)
                                &&& final(self).spec_reserves(other, stable) == ((
                                    (rsv.0 + plan.0) as Balance,
                                    (rsv.1 + plan.1) as Balance,
                                ))
                                &&& forall|s2: CurrencyId|
                                    s2 != share ==> #[trigger] final(self).spec_pool(s2) == old(self).spec_pool(s2)
                                &&& who != EXCHANGE_ACCOUNT ==> {
                                    &&& final(self).ledger.spec_balance(who, other) == old(self).ledger.spec_balance(who, other) - plan.0
                                    &&& final(self).ledger.spec_balance(who, stable) == old(self).ledger.spec_balance(who, stable) - plan.1
                                    &&& final(self).ledger.spec_balance(who, share) == old(self).ledger.spec_balance(who, share) + plan.2
                                    &&& final(self).ledger.spec_balance(EXCHANGE_ACCOUNT, other)
                                        == old(self).ledger.spec_balance(EXCHANGE_ACCOUNT, other)
                                        + plan.0
                                    &&& final(self).ledger.spec_balance(EXCHANGE_ACCOUNT, stable)
                                        == old(self).ledger.spec_balance(EXCHANGE_ACCOUNT, stable)
                                        + plan.1
                                }
                                &&& final(self).ledger.spec_issuance(share) == iss + plan.2
                                &&& forall|c2: CurrencyId|
                                    c2 != share ==> #[trigger] final(self).ledger.spec_issuance(
                                        c2,
                                    ) == old(self).ledger.spec_issuance(c2)
                                &&& forall|w2: AccountId, c2: CurrencyId|
                                    !((w2 == who && (c2 == other || c2 == stable || c2 == share))
                                        || (w2 == EXCHANGE_ACCOUNT && (c2 == other || c2
                                        == stable))) ==> #[trigger] final(self).ledger.spec_balance(w2, c2)
                                        == old(self).ledger.spec_balance(w2, c2)
                            }
                        },
                    }
                }),
                None => true,
            }),
    {
        let stable = self.config.stable_currency_id;
        let share = match trading_pair_id(a, b) {
            Some(s) => s,
            None => {
                return Err(Error::InvalidCurrencyPair);
            },
        };
        if a != stable && b != stable {
            return Err(Error::InvalidCurrencyPair);
        }
        let other_c = if a == stable {
            b
        } else {
            a
        };
        let mo = if a == stable {
            max_b
        } else {
            max_a
        };
        let mb = if a == stable {
            max_a
        } else {
            max_b
        };
        let pool = self.get_liquidity_pool(other_c, stable);
        let ro = pool.0;
        let rb = pool.1;
        let iss = self.ledger.total_issuance(share);
        let oi: Balance;
        let bi: Balance;
        let shares: Balance;
        if ro == 0 && rb == 0 {
            if mo == 0 || mb == 0 {
                return Err(Error::InvalidLiquidityIncrement);
            }
            oi = mo;
            bi = mb;
            shares = mb;
        } else if ro == 0 || rb == 0 {
            return Err(Error::InvalidLiquidityIncrement);
        } else {
            let q = mul_div(rb, mo, ro);
            let base_limited = match q {
                Some(qv) => mb <= qv,
                None => true,
            };
            proof {
                lemma_le_div_iff(mb as int, rb as int * mo as int, ro as int);
                assert(base_limited == (mb as int * ro as int <= rb as int * mo as int));
            }
            if base_limited {
                bi = mb;
                proof {
                    lemma_mul_div_bound(mb as int * ro as int, rb as int, mo as int);
                }
                oi = match mul_div(mb, ro, rb) {
                    Some(v) => v,
                    None => {
                        proof {
                            assert(false);
                        }
                        return Err(Error::ArithmeticOverflow);
                    },
                };
            } else {
                oi = mo;
                proof {
                    lemma_mul_div_bound(mo as int * rb as int, ro as int, mb as int);
                }
                bi = match mul_div(mo, rb, ro) {
                    Some(v) => v,
                    None => {
                        proof {
                            assert(false);
                        }
                        return Err(Error::ArithmeticOverflow);
                    },
                };
            }
            if oi == 0 || bi == 0 {
                return Err(Error::InvalidLiquidityIncrement);
            }
            let r1 = match mul_div(oi, crate::fixed::FIXED_ONE, ro) {
                Some(v) => v,
                None => {
                    return Err(Error::ArithmeticOverflow);
                },
            };
            let r2 = match mul_div(bi, crate::fixed::FIXED_ONE, rb) {
                Some(v) => v,
                None => {
                    return Err(Error::ArithmeticOverflow);
                },
            };
            let rmin = if r1 <= r2 {
                r1
            } else {
                r2
            };
            shares = match mul_div(rmin, iss, crate::fixed::FIXED_ONE) {
                Some(v) => v,
                None => {
                    return Err(Error::ArithmeticOverflow);
                },
            };
            if shares == 0 {
                return Err(Error::InvalidLiquidityIncrement);
            }
            if oi > u128::MAX - ro || bi > u128::MAX - rb {
                return Err(Error::ArithmeticOverflow);
            }
        }
        let bal_o = self.ledger.free_balance(who, other_c);
        let bal_b = self.ledger.free_balance(who, stable);
        if bal_o < oi || bal_b < bi {
            return Err(Error::BalanceTooLow);
        }
        let ex_o = self.ledger.free_balance(EXCHANGE_ACCOUNT, other_c);
        let ex_b = self.ledger.free_balance(EXCHANGE_ACCOUNT, stable);
        let who_sh = self.ledger.free_balance(who, share);
        if who != EXCHANGE_ACCOUNT && (oi > u128::MAX - ex_o || bi > u128::MAX - ex_b) {
            return Err(Error::ArithmeticOverflow);
        }
        if shares > u128::MAX - who_sh || shares > u128::MAX - iss {
            return Err(Error::ArithmeticOverflow);
        }
        self.ledger.transfer(who, EXCHANGE_ACCOUNT, other_c, oi);
        self.ledger.transfer(who, EXCHANGE_ACCOUNT, stable, bi);
        let first_is_other = match share {
            CurrencyId::ExchangeShare(x, y) => other_c == CurrencyId::Token(x),
            _ => false,
        };
        let new_pool = if first_is_other {
            (ro + oi, rb + bi)
        } else {
            (rb + bi, ro + oi)
        };
        self.pools.set(share, new_pool);
        self.ledger.mint(who, share, shares);
        Ok(shares)
    }
}

impl Runtime {
    /// Swap an exact `supply_amount` of the first path currency for as
    /// much of the last as the pools yield, one constant-product hop
    /// per adjacent pair, failing `ExcessiveSlippage` when the output
    /// falls short of `min_target`.  Returns the output amount.
    pub fn swap_with_exact_supply(
        &mut self,
        who: AccountId,
        path: &Vec<CurrencyId>,
        supply_amount: Balance,
        min_target: Balance,
    ) -> (r: Result<Balance, Error>)
        requires
            old(self).wf(),
        ensures
            final(self).wf(),
            final(self).config == old(self).config,
            final(self).lend == old(self).lend,
            final(self).params == old(self).params,
            final(self).debit_exchange_rates == old(self).debit_exchange_rates,
            final(self).global_stability_fee == old(self).global_stability_fee,
            final(self).treasury == old(self).treasury,
            final(self).price_source == old(self).price_source,
            final(self).auction_manager == old(self).auction_manager,
            final(self).emergency_shutdown == old(self).emergency_shutdown,
            forall|c2: CurrencyId|
                #[trigger] final(self).ledger.spec_issuance(c2) == old(self).ledger.spec_issuance(
                    c2,
                ),
            r is Err ==> *final(self) == *old(self),
            (path@.len() < 2 || path@.len() > old(self).config.trading_path_limit || (path@.len()
                == 3 && path@[0] == path@[2])) ==> r == Err::<Balance, Error>(
                Error::InvalidTradingPathLength,
            ),
            (path@.len() == 2 && path@.len() <= old(self).config.trading_path_limit) ==> (
            match spec_trading_pair_id(path@[0], path@[1]) {
                None => r == Err::<Balance, Error>(Error::InvalidCurrencyPair),
                Some(share) => ({
                    let rsv = old(self).spec_reserves(path@[0], path@[1]);
                    let fee_n = old(self).config.exchange_fee.0 as int;
                    let fee_d = old(self).config.exchange_fee.1 as int;
                    let s2 = spec_fee_adjusted(supply_amount as int, fee_n, fee_d);
                    let out = spec_swap_target(
                        rsv.0 as int,
                        rsv.1 as int,
                        supply_amount as int,
                        fee_n,
                        fee_d,
                    );
                    if rsv.0 + s2 > u128::MAX || rsv.0 + supply_amount > u128::MAX {
                        r == Err::<Balance, Error>(Error::ArithmeticOverflow)
                    } else if out == 0 {
                        r == Err::<Balance, Error>(Error::ZeroTargetAmount)
                    } else if out < min_target {
                        r == Err::<Balance, Error>(Error::ExcessiveSlippage)
                    } else if old(self).ledger.spec_balance(who, path@[0]) < supply_amount {
                        r == Err::<Balance, Error>(Error::BalanceTooLow)
                    } else if old(self).ledger.spec_balance(EXCHANGE_ACCOUNT, path@[1]) < out {
                        r == Err::<Balance, Error>(Error::BalanceTooLow)
                    } else if who != EXCHANGE_ACCOUNT && (old(self).ledger.spec_balance(
                        EXCHANGE_ACCOUNT,
                        path@[0],
                    ) + supply_amount > u128::MAX || old(self).ledger.spec_balance(who, path@[1])
                        + out > u128::MAX) {
                        r == Err::<Balance, Error>(Error::ArithmeticOverflow)
                    } else {
                        &&& r == Ok::<Balance, Error>(out as Balance)
                        &&& final(self).spec_reserves(path@[0], path@[1]) == ((
                            (rsv.0 + supply_amount) as Balance,
                            (rsv.1 - out) as Balance,
                        ))
                        &&& forall|s2c: CurrencyId|
                            s2c != share ==> #[trigger] final(self).spec_pool(s2c) == old(self).spec_pool(s2c)
                        &&& who != EXCHANGE_ACCOUNT ==> {
                            &&& final(self).ledger.spec_balance(who, path@[0]) == old(self).ledger.spec_balance(who, path@[0]) - supply_amount
                            &&& final(self).ledger.spec_balance(who, path@[1]) == old(self).ledger.spec_balance(who, path@[1]) + out
                            &&& final(self).ledger.spec_balance(EXCHANGE_ACCOUNT, path@[0])
                                == old(self).ledger.spec_balance(EXCHANGE_ACCOUNT, path@[0])
                                + supply_amount
                            &&& final(self).ledger.spec_balance(EXCHANGE_ACCOUNT, path@[1])
                                == old(self).ledger.spec_balance(EXCHANGE_ACCOUNT, path@[1]) - out
                        }
                        &&& forall|w2: AccountId, c2: CurrencyId|
                            !((w2 == who || w2 == EXCHANGE_ACCOUNT) && (c2 == path@[0] || c2
                                == path@[1])) ==> #[trigger] final(self).ledger.spec_balance(
                                w2,
                                c2,
                            ) == old(self).ledger.spec_balance(w2, c2)
                    }
                }),
            }),
            (path@.len() == 3 && path@.len() <= old(self).config.trading_path_limit && path@[0]
                != path@[2]) ==> (match spec_trading_pair_id(path@[0], path@[1]) {
                None => r == Err::<Balance, Error>(Error::InvalidCurrencyPair),
                Some(share1) => ({
                    let rsv1 = old(self).spec_reserves(path@[0], path@[1]);
                    let fee_n = old(self).config.exchange_fee.0 as int;
                    let fee_d = old(self).config.exchange_fee.1 as int;
                    let s2a = spec_fee_adjusted(supply_amount as int, fee_n, fee_d);
                    let out1 = spec_swap_target(
                        rsv1.0 as int,
                        rsv1.1 as int,
                        supply_amount as int,
                        fee_n,
                        fee_d,
                    );
                    if rsv1.0 + s2a > u128::MAX || rsv1.0 + supply_amount > u128::MAX {
                        r == Err::<Balance, Error>(Error::ArithmeticOverflow)
                    } else if out1 == 0 {
                        r == Err::<Balance, Error>(Error::ZeroTargetAmount)
                    } else {
                        match spec_trading_pair_id(path@[1], path@[2]) {
                            None => r == Err::<Balance, Error>(Error::InvalidCurrencyPair),
                            Some(share2) => ({
                                let rsv2 = old(self).spec_reserves(path@[1], path@[2]);
                                let s2b = spec_fee_adjusted(out1, fee_n, fee_d);
                                let out2 = spec_swap_target(
                                    rsv2.0 as int,
                                    rsv2.1 as int,
                                    out1,
                                    fee_n,
                                    fee_d,
                                );
                                if rsv2.0 + s2b > u128::MAX || rsv2.0 + out1 > u128::MAX {
                                    r == Err::<Balance, Error>(Error::ArithmeticOverflow)
                                } else if out2 == 0 {
                                    r == Err::<Balance, Error>(Error::ZeroTargetAmount)
                                } else if out2 < min_target {
                                    r == Err::<Balance, Error>(Error::ExcessiveSlippage)
                                } else if old(self).ledger.spec_balance(who, path@[0])
                                    < supply_amount {
                                    r == Err::<Balance, Error>(Error::BalanceTooLow)
                                } else if old(self).ledger.spec_balance(
                                    EXCHANGE_ACCOUNT,
                                    path@[2],
                                ) < out2 {
                                    r == Err::<Balance, Error>(Error::BalanceTooLow)
                                } else if who != EXCHANGE_ACCOUNT && (old(self).ledger.spec_balance(EXCHANGE_ACCOUNT, path@[0]) + supply_amount
                                    > u128::MAX || old(self).ledger.spec_balance(who, path@[2])
                                    + out2 > u128::MAX) {
                                    r == Err::<Balance, Error>(Error::ArithmeticOverflow)
                                } else {
                                    &&& r == Ok::<Balance, Error>(out2 as Balance)
                                    &&& final(self).spec_reserves(path@[0], path@[1]) == ((
                                        (rsv1.0 + supply_amount) as Balance,
                                        (rsv1.1 - out1) as Balance,
                                    ))
                                    &&& final(self).spec_reserves(path@[1], path@[2]) == ((
                                        (rsv2.0 + out1) as Balance,
                                        (rsv2.1 - out2) as Balance,
                                    ))
                                    &&& forall|s2c: CurrencyId|
                                        s2c != share1 && s2c != share2
                                            ==> #[trigger] final(self).spec_pool(s2c) == old(self).spec_pool(s2c)
                                    &&& who != EXCHANGE_ACCOUNT ==> {
                                        &&& final(self).ledger.spec_balance(who, path@[0]) == old(self).ledger.spec_balance(who, path@[0]) - supply_amount
                                        &&& final(self).ledger.spec_balance(who, path@[2]) == old(self).ledger.spec_balance(who, path@[2]) + out2
                                        &&& final(self).ledger.spec_balance(
                                            EXCHANGE_ACCOUNT,
                                            path@[0],
                                        ) == old(self).ledger.spec_balance(
                                            EXCHANGE_ACCOUNT,
                                            path@[0],
                                        ) + supply_amount
                                        &&& final(self).ledger.spec_balance(
                                            EXCHANGE_ACCOUNT,
                                            path@[2],
                                        ) == old(self).ledger.spec_balance(
                                            EXCHANGE_ACCOUNT,
                                            path@[2],
                                        ) - out2
                                    }
                                    &&& forall|w2: AccountId, c2: CurrencyId|
                                        !((w2 == who || w2 == EXCHANGE_ACCOUNT) && (c2 == path@[0]
                                            || c2 == path@[2]))
                                            ==> #[trigger] final(self).ledger.spec_balance(w2, c2)
                                            == old(self).ledger.spec_balance(w2, c2)
                                }
                            }),
                        }
                    }
                }),
            }),
    {
        let n = path.len();
        if n < 2 || n > self.config.trading_path_limit {
            return Err(Error::InvalidTradingPathLength);
        }
        if n == 3 && path[0] == path[2] {
            return Err(Error::InvalidTradingPathLength);
        }
        let fee_n = self.config.exchange_fee.0;
        let fee_d = self.config.exchange_fee.1;
        let p0 = path[0];
        let p1 = path[1];
        let share1 = match trading_pair_id(p0, p1) {
            Some(s) => s,
            None => {
                return Err(Error::InvalidCurrencyPair);
            },
        };
        let pool1 = self.get_liquidity_pool(p0, p1);
        let out1 = match swap_target_amount(pool1.0, pool1.1, supply_amount, fee_n, fee_d) {
            Ok(v) => v,
            Err(e) => {
                return Err(e);
            },
        };
        if supply_amount > u128::MAX - pool1.0 {
            return Err(Error::ArithmeticOverflow);
        }
        if out1 == 0 {
            return Err(Error::ZeroTargetAmount);
        }
        if n == 2 {
            if out1 < min_target {
                return Err(Error::ExcessiveSlippage);
            }
            let bal_who = self.ledger.free_balance(who, p0);
            if bal_who < supply_amount {
                return Err(Error::BalanceTooLow);
            }
            let ex_t = self.ledger.free_balance(EXCHANGE_ACCOUNT, p1);
            if ex_t < out1 {
                return Err(Error::BalanceTooLow);
            }
            let ex_s = self.ledger.free_balance(EXCHANGE_ACCOUNT, p0);
            let who_t = self.ledger.free_balance(who, p1);
            if who != EXCHANGE_ACCOUNT && (supply_amount > u128::MAX - ex_s || out1 > u128::MAX
                - who_t) {
                return Err(Error::ArithmeticOverflow);
            }
            let first_is_p0 = match share1 {
                CurrencyId::ExchangeShare(x, y) => p0 == CurrencyId::Token(x),
                _ => false,
            };
            let new_pool = if first_is_p0 {
                (pool1.0 + supply_amount, pool1.1 - out1)
            } else {
                (pool1.1 - out1, pool1.0 + supply_amount)
            };
            self.pools.set(share1, new_pool);
            self.ledger.transfer(who, EXCHANGE_ACCOUNT, p0, supply_amount);
            self.ledger.transfer(EXCHANGE_ACCOUNT, who, p1, out1);
            return Ok(out1);
        }
        let p2c = path[2];
        let share2 = match trading_pair_id(p1, p2c) {
            Some(s) => s,
            None => {
                return Err(Error::InvalidCurrencyPair);
            },
        };
        let pool2 = self.get_liquidity_pool(p1, p2c);
        let out2 = match swap_target_amount(pool2.0, pool2.1, out1, fee_n, fee_d) {
            Ok(v) => v,
            Err(e) => {
                return Err(e);
            },
        };
        if out1 > u128::MAX - pool2.0 {
            return Err(Error::ArithmeticOverflow);
        }
        if out2 == 0 {
            return Err(Error::ZeroTargetAmount);
        }
        if out2 < min_target {
            return Err(Error::ExcessiveSlippage);
        }
        let bal_who = self.ledger.free_balance(who, p0);
        if bal_who < supply_amount {
            return Err(Error::BalanceTooLow);
        }
        let ex_t = self.ledger.free_balance(EXCHANGE_ACCOUNT, p2c);
        if ex_t < out2 {
            return Err(Error::BalanceTooLow);
        }
        let ex_s = self.ledger.free_balance(EXCHANGE_ACCOUNT, p0);
        let who_t = self.ledger.free_balance(who, p2c);
        if who != EXCHANGE_ACCOUNT && (supply_amount > u128::MAX - ex_s || out2 > u128::MAX
            - who_t) {
            return Err(Error::ArithmeticOverflow);
        }
        proof {
            assert(share1 != share2);
        }
        let first1_is_p0 = match share1 {
            CurrencyId::ExchangeShare(x, y) => p0 == CurrencyId::Token(x),
            _ => false,
        };
        let new_pool1 = if first1_is_p0 {
            (pool1.0 + supply_amount, pool1.1 - out1)
        } else {
            (pool1.1 - out1, pool1.0 + supply_amount)
        };
        self.pools.set(share1, new_pool1);
        let first2_is_p1 = match share2 {
            CurrencyId::ExchangeShare(x, y) => p1 == CurrencyId::Token(x),
            _ => false,
        };
        let new_pool2 = if first2_is_p1 {
            (pool2.0 + out1, pool2.1 - out2)
        } else {
            (pool2.1 - out2, pool2.0 + out1)
        };
        self.pools.set(share2, new_pool2);
        self.ledger.transfer(who, EXCHANGE_ACCOUNT, p0, supply_amount);
        self.ledger.transfer(EXCHANGE_ACCOUNT, who, p2c, out2);
        Ok(out2)
    }
}

/// Output of one constant-product hop, or `ArithmeticOverflow` when
/// the post-swap supply reserve would not be representable.
pub(crate) fn swap_target_amount(rs: Balance, rt_: Balance, supply: Balance, fee_n: u32, fee_d: u32) -> (r:
    Result<Balance, Error>)
    requires
        0 < fee_d,
        fee_n <= fee_d,
    ensures
        match r {
            Ok(out) => {
                &&& out == spec_swap_target(rs as int, rt_ as int, supply as int, fee_n as int, fee_d as int)
                &&& out <= rt_
                &&& rs + spec_fee_adjusted(supply as int, fee_n as int, fee_d as int)
                    <= u128::MAX
            },
            Err(e) => {
                &&& e == Error::ArithmeticOverflow
                &&& rs + spec_fee_adjusted(supply as int, fee_n as int, fee_d as int)
                    > u128::MAX
            },
        },
{
    proof {
        lemma_mul_div_le_self(supply as int, fee_d - fee_n, fee_d as int);
    }
    let s2 = match mul_div(supply, (fee_d - fee_n) as u128, fee_d as u128) {
        Some(v) => v,
        None => {
            proof {
                assert(false);
            }
            return Err(Error::ArithmeticOverflow);
        },
    };
    if s2 > u128::MAX - rs {
        return Err(Error::ArithmeticOverflow);
    }
    if rs == 0 || rt_ == 0 {
        return Ok(0);
    }
    proof {
        lemma_mul_div_le_self(rt_ as int, s2 as int, rs as int + s2 as int);
    }
    let out = match mul_div(rt_, s2, rs + s2) {
        Some(v) => v,
        None => {
            proof {
                assert(false);
            }
            return Err(Error::ArithmeticOverflow);
        },
    };
    Ok(out)
}

} // verus!
