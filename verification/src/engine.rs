//! The risk engine: parameter administration, safety evaluation, and
//! the calculators its entry points share.

use crate::arith::{lemma_le_div_iff, mul_div, mul_div_floor};
use crate::fixed::{sat_u128, ExchangeRate, FixedU128, Rate, Ratio, FIXED_ONE};
use crate::types::{Balance, Change, CurrencyId, Error, RiskParameters};
use crate::world::Runtime;
use vstd::prelude::*;

verus! {

/// Apply one per-field update instruction.
pub open spec fn spec_apply_change<T>(ch: Change<T>, cur: T) -> T {
    match ch {
        Change::NoChange => cur,
        Change::NewValue(v) => v,
    }
}

fn apply_change<T: Copy>(ch: Change<T>, cur: T) -> (r: T)
    ensures
        r == spec_apply_change(ch, cur),
{
    match ch {
        Change::NoChange => cur,
        Change::NewValue(v) => v,
    }
}

/// Magnitude of a signed adjustment.
fn magnitude(a: i128) -> (r: u128)
    ensures
        r == (if a >= 0 {
            a as int
        } else {
            -(a as int)
        }),
{
    if a >= 0 {
        a as u128
    } else if a == i128::MIN {
        170141183460469231731687303715884105728u128
    } else {
        (-a) as u128
    }
}

/// What a position adjustment resolves to before any balance moves:
/// the new position and per-type totals `(collateral, debit,
/// total_collateral, total_debit)`, or the error that rejects it.
pub open spec fn spec_adjust_plan(
    shutdown: bool,
    pos: crate::types::Position,
    totals: (Balance, Balance),
    rate: int,
    params: RiskParameters,
    price: Option<int>,
    min_debit_value: int,
    cadj: int,
    dadj: int,
) -> Result<(int, int, int, int), Error> {
    if dadj > 0 && shutdown {
        Err(Error::MustBeforeShutdown)
    } else {
        let nc = pos.collateral + cadj;
        let nd = pos.debit + dadj;
        let ntc = totals.0 + cadj;
        let ntd = totals.1 + dadj;
        if nc < 0 {
            Err(Error::CollateralTooLow)
        } else if nc > u128::MAX {
            Err(Error::ArithmeticOverflow)
        } else if nd < 0 {
            Err(Error::DebitTooLow)
        } else if nd > u128::MAX {
            Err(Error::ArithmeticOverflow)
        } else if ntc < 0 || ntc > u128::MAX || ntd < 0 || ntd > u128::MAX {
            Err(Error::ArithmeticOverflow)
        } else if dadj > 0 && sat_u128(mul_div_floor(rate, ntd, FIXED_ONE as int))
            > params.maximum_total_debit_value {
            Err(Error::ExceedDebitValueHardCap)
        } else if nd > 0 {
            let dv = mul_div_floor(rate, nd, FIXED_ONE as int);
            if dv > u128::MAX {
                Err(Error::ArithmeticOverflow)
            } else if dv < min_debit_value {
                Err(Error::RemainDebitValueTooSmall)
            } else {
                match params.required_collateral_ratio {
                    Some(req) => match price {
                        None => Err(Error::InvalidFeedPrice),
                        Some(p) => if spec_ratio_of(rate, nc, nd, p) < req.bits {
                            Err(Error::BelowRequiredCollateralRatio)
                        } else {
                            Ok((nc, nd, ntc, ntd))
                        },
                    },
                    None => Ok((nc, nd, ntc, ntd)),
                }
            }
        } else {
            Ok((nc, nd, ntc, ntd))
        }
    }
}

/// Law: a plan the engine accepts keeps both resulting position
/// amounts non-negative, whatever the signed deltas were.
pub proof fn lemma_adjust_amounts_nonnegative(
    shutdown: bool,
    pos: crate::types::Position,
    totals: (Balance, Balance),
    rate: int,
    params: RiskParameters,
    price: Option<int>,
    min_debit_value: int,
    cadj: int,
    dadj: int,
)
    requires
        spec_adjust_plan(shutdown, pos, totals, rate, params, price, min_debit_value, cadj, dadj)
            is Ok,
    ensures
        pos.collateral + cadj >= 0,
        pos.debit + dadj >= 0,
{
}

/// Law: when a required collateral ratio is configured, no accepted
/// debt-increasing adjustment leaves the position's ratio below it,
/// and a price feed must have been available.
pub proof fn lemma_adjust_respects_required_ratio(
    shutdown: bool,
    pos: crate::types::Position,
    totals: (Balance, Balance),
    rate: int,
    params: RiskParameters,
    price: Option<int>,
    min_debit_value: int,
    cadj: int,
    dadj: int,
)
    requires
        spec_adjust_plan(shutdown, pos, totals, rate, params, price, min_debit_value, cadj, dadj)
            is Ok,
        dadj > 0,
        params.required_collateral_ratio is Some,
    ensures
        price is Some,
        forall|req: Ratio, p: int|
            params.required_collateral_ratio == Some(req) && price == Some(p)
                ==> spec_ratio_of(rate, pos.collateral + cadj, pos.debit + dadj, p) >= req.bits,
{
}

/// Whether a position may be liquidated, and what is seized if so:
/// `Ok((collateral_seized, debit_value_owed))`.  A missing price feed
/// rejects the round; an unset liquidation ratio, a zero debt value,
/// or a ratio at or above the liquidation ratio mean the position is
/// not unsafe; an overflowing value computation rejects outright so
/// nothing is mis-seized.
pub open spec fn spec_liquidate_check(
    pos: crate::types::Position,
    rate: int,
    liquidation_ratio: Option<Ratio>,
    price: Option<int>,
) -> Result<(int, int), Error> {
    match price {
        None => Err(Error::InvalidFeedPrice),
        Some(p) => match liquidation_ratio {
            None => Err(Error::AlreadySafe),
            Some(lr) => {
                let dv = mul_div_floor(rate, pos.debit as int, FIXED_ONE as int);
                if dv > u128::MAX {
                    Err(Error::ArithmeticOverflow)
                } else if dv == 0 {
                    Err(Error::AlreadySafe)
                } else {
                    let cv = mul_div_floor(p, pos.collateral as int, FIXED_ONE as int);
                    if cv > u128::MAX {
                        Err(Error::ArithmeticOverflow)
                    } else {
                        let ratio = sat_u128(mul_div_floor(cv, FIXED_ONE as int, dv));
                        if ratio >= lr.bits {
                            Err(Error::AlreadySafe)
                        } else {
                            Ok((pos.collateral as int, dv))
                        }
                    }
                }
            },
        },
    }
}

/// Liquidation strategy selection: the exchange path is taken exactly
/// when the pool exists, can absorb the full seized collateral within
/// the slippage bound (`seized / rc <= slippage`), the grown reserve
/// stays representable, and the swap's output covers the owed debt
/// value.  A pure function of pool depth, slippage bound, seized
/// collateral and owed value.
pub open spec fn spec_exchange_viable(
    rc: int,
    rs: int,
    slippage_bits: int,
    seized: int,
    owed: int,
    fee_n: int,
    fee_d: int,
) -> bool {
    &&& rc > 0
    &&& rs > 0
    &&& seized * FIXED_ONE <= slippage_bits * rc
    &&& rc + seized <= u128::MAX
    &&& crate::exchange::spec_swap_target(rc, rs, seized, fee_n, fee_d) >= owed
}

/// What settling an indebted position resolves to:
/// `Ok((bad_debt_value, confiscated_collateral))` or the rejection.
/// The confiscated slice is the debt value converted to collateral at
/// the settle price, capped by the position's collateral.
pub open spec fn spec_settle_check(
    pos: crate::types::Position,
    rate: int,
    settle_price: Option<int>,
) -> Result<(int, int), Error> {
    if pos.debit == 0 {
        Err(Error::NoDebitValue)
    } else {
        match settle_price {
            None => Err(Error::InvalidFeedPrice),
            Some(sp) => {
                let dv = mul_div_floor(rate, pos.debit as int, FIXED_ONE as int);
                if dv > u128::MAX {
                    Err(Error::ArithmeticOverflow)
                } else {
                    let conv = sat_u128(mul_div_floor(sp, dv, FIXED_ONE as int));
                    let confiscate = if conv <= pos.collateral {
                        conv
                    } else {
                        pos.collateral as int
                    };
                    Ok((dv, confiscate))
                }
            },
        }
    }
}

/// Collateral ratio in raw fixed-point bits: collateral value over
/// debt value, both rounded down and saturated, with an infinite
/// (saturated) ratio for zero debt value.
pub open spec fn spec_ratio_of(rate: int, collateral: int, debit: int, price_bits: int) -> int {
    let cv = sat_u128(mul_div_floor(price_bits, collateral, FIXED_ONE as int));
    let dv = sat_u128(mul_div_floor(rate, debit, FIXED_ONE as int));
    if dv == 0 {
        u128::MAX as int
    } else {
        sat_u128(mul_div_floor(cv, FIXED_ONE as int, dv))
    }
}

impl Runtime {
    /// Risk parameters of a collateral type; an unregistered type has
    /// every check disabled and a zero debt ceiling.
    pub open spec fn spec_collateral_params(self, c: CurrencyId) -> RiskParameters {
        match self.params.spec_get(c) {
            Some(p) => p,
            None => RiskParameters {
                stability_fee: None,
                liquidation_ratio: None,
                liquidation_penalty: None,
                required_collateral_ratio: None,
                maximum_total_debit_value: 0,
            },
        }
    }

    /// Debit-to-value exchange rate of a collateral type, in raw bits.
    pub open spec fn spec_debit_rate(self, c: CurrencyId) -> int {
        match self.debit_exchange_rates.spec_get(c) {
            Some(r) => r.bits as int,
            None => self.config.default_debit_exchange_rate.bits as int,
        }
    }

    /// Stable-currency value of `debit` internal debit units.
    pub open spec fn spec_debit_value(self, c: CurrencyId, debit: int) -> int {
        mul_div_floor(self.spec_debit_rate(c), debit, FIXED_ONE as int)
    }

    /// Risk parameters of a collateral type.
    pub fn collateral_params(&self, c: CurrencyId) -> (r: RiskParameters)
        ensures
            r == self.spec_collateral_params(c),
    {
        match self.params.get(c) {
            Some(p) => p,
            None => RiskParameters::unset(),
        }
    }

    /// Debit-to-value exchange rate of a collateral type.
    pub fn get_debit_exchange_rate(&self, c: CurrencyId) -> (r: ExchangeRate)
        ensures
            r.bits == self.spec_debit_rate(c),
    {
        match self.debit_exchange_rates.get(c) {
            Some(r) => r,
            None => self.config.default_debit_exchange_rate,
        }
    }

    /// Stable-currency value of `debit` internal debit units, or
    /// `None` when it does not fit.
    pub fn get_debit_value(&self, c: CurrencyId, debit: Balance) -> (r: Option<Balance>)
        ensures
            match r {
                Some(v) => v == self.spec_debit_value(c, debit as int),
                None => self.spec_debit_value(c, debit as int) > u128::MAX,
            },
    {
        let rate = self.get_debit_exchange_rate(c);
        mul_div(rate.bits, debit, FIXED_ONE)
    }

    /// Collateral ratio of a hypothetical position of `collateral`
    /// and `debit` under type `c` at `price`, saturating instead of
    /// failing: a zero debt value reads as the largest ratio.
    pub fn calculate_collateral_ratio(
        &self,
        c: CurrencyId,
        collateral: Balance,
        debit: Balance,
        price: crate::fixed::Price,
    ) -> (r: Ratio)
        ensures
            r.bits == spec_ratio_of(
                self.spec_debit_rate(c),
                collateral as int,
                debit as int,
                price.bits as int,
            ),
    {
        let cv = match mul_div(price.bits, collateral, FIXED_ONE) {
            Some(v) => v,
            None => u128::MAX,
        };
        let rate = self.get_debit_exchange_rate(c);
        let dv = match mul_div(rate.bits, debit, FIXED_ONE) {
            Some(v) => v,
            None => u128::MAX,
        };
        if dv == 0 {
            return FixedU128 { bits: u128::MAX };
        }
        match mul_div(cv, FIXED_ONE, dv) {
            Some(v) => FixedU128 { bits: v },
            None => FixedU128 { bits: u128::MAX },
        }
    }

    /// Enforce the per-type debt ceiling against a prospective total
    /// debit: `Ok` exactly when the total's value (saturated) stays
    /// within `maximum_total_debit_value`.
    pub fn check_debit_cap(&self, c: CurrencyId, total_debit: Balance) -> (r: Result<(), Error>)
        ensures
            r == if sat_u128(self.spec_debit_value(c, total_debit as int))
                <= self.spec_collateral_params(c).maximum_total_debit_value as int {
                Ok::<(), Error>(())
            } else {
                Err::<(), Error>(Error::ExceedDebitValueHardCap)
            },
    {
        let rate = self.get_debit_exchange_rate(c);
        let value = match mul_div(rate.bits, total_debit, FIXED_ONE) {
            Some(v) => v,
            None => u128::MAX,
        };
        let cap = self.collateral_params(c).maximum_total_debit_value;
        if value <= cap {
            Ok(())
        } else {
            Err(Error::ExceedDebitValueHardCap)
        }
    }

    /// Privileged atomic update of one collateral type's risk
    /// parameters: each field is left alone or replaced as its
    /// instruction says.
    pub fn set_collateral_params(
        &mut self,
        c: CurrencyId,
        stability_fee: Change<Option<Rate>>,
        liquidation_ratio: Change<Option<Ratio>>,
        liquidation_penalty: Change<Option<Rate>>,
        required_collateral_ratio: Change<Option<Ratio>>,
        maximum_total_debit_value: Change<Balance>,
    )
        ensures
            final(self).spec_collateral_params(c) == (RiskParameters {
                stability_fee: spec_apply_change(
                    stability_fee,
                    old(self).spec_collateral_params(c).stability_fee,
                ),
                liquidation_ratio: spec_apply_change(
                    liquidation_ratio,
                    old(self).spec_collateral_params(c).liquidation_ratio,
                ),
                liquidation_penalty: spec_apply_change(
                    liquidation_penalty,
                    old(self).spec_collateral_params(c).liquidation_penalty,
                ),
                required_collateral_ratio: spec_apply_change(
                    required_collateral_ratio,
                    old(self).spec_collateral_params(c).required_collateral_ratio,
                ),
                maximum_total_debit_value: spec_apply_change(
                    maximum_total_debit_value,
                    old(self).spec_collateral_params(c).maximum_total_debit_value,
                ),
            }),
            forall|c2: CurrencyId|
                c2 != c ==> #[trigger] final(self).spec_collateral_params(c2) == old(self).spec_collateral_params(c2),
            final(self).config == old(self).config,
            final(self).ledger == old(self).ledger,
            final(self).lend == old(self).lend,
            final(self).debit_exchange_rates == old(self).debit_exchange_rates,
            final(self).global_stability_fee == old(self).global_stability_fee,
            final(self).treasury == old(self).treasury,
            final(self).pools == old(self).pools,
            final(self).price_source == old(self).price_source,
            final(self).auction_manager == old(self).auction_manager,
            final(self).emergency_shutdown == old(self).emergency_shutdown,
    {
        let cur = self.collateral_params(c);
        let updated = RiskParameters {
            stability_fee: apply_change(stability_fee, cur.stability_fee),
            liquidation_ratio: apply_change(liquidation_ratio, cur.liquidation_ratio),
            liquidation_penalty: apply_change(liquidation_penalty, cur.liquidation_penalty),
            required_collateral_ratio: apply_change(
                required_collateral_ratio,
                cur.required_collateral_ratio,
            ),
            maximum_total_debit_value: apply_change(
                maximum_total_debit_value,
                cur.maximum_total_debit_value,
            ),
        };
        self.params.set(c, updated);
    }

    /// Adjust a position by signed deltas of collateral and debit.
    /// Every check runs before any state is written, so a rejected
    /// call leaves the runtime exactly as it was.
    pub fn adjust_position(
        &mut self,
        who: crate::types::AccountId,
        currency_id: CurrencyId,
        collateral_adjustment: crate::types::Amount,
        debit_adjustment: crate::types::Amount,
    ) -> (r: Result<(), Error>)
        requires
            old(self).wf(),
        ensures
            final(self).wf(),
            final(self).config == old(self).config,
            final(self).params == old(self).params,
            final(self).debit_exchange_rates == old(self).debit_exchange_rates,
            final(self).global_stability_fee == old(self).global_stability_fee,
            final(self).treasury == old(self).treasury,
            final(self).pools == old(self).pools,
            final(self).price_source == old(self).price_source,
            final(self).auction_manager == old(self).auction_manager,
            final(self).emergency_shutdown == old(self).emergency_shutdown,
            r is Err ==> *final(self) == *old(self),
            // the stable currency itself cannot serve as collateral
            currency_id == old(self).config.stable_currency_id ==> r == Err::<(), Error>(
                Error::InvalidCurrencyPair,
            ),
            // any successful adjustment keeps both resulting amounts non-negative
            r is Ok ==> old(self).lend.spec_position(currency_id, who).collateral
                + collateral_adjustment >= 0 && old(self).lend.spec_position(
                currency_id,
                who,
            ).debit + debit_adjustment >= 0,
            // a successful debt-increasing adjustment meets the
            // required collateral ratio whenever one is configured
            (r is Ok && debit_adjustment > 0 && old(self).spec_collateral_params(
                currency_id,
            ).required_collateral_ratio is Some) ==> (match (
                old(self).spec_collateral_params(currency_id).required_collateral_ratio,
                old(self).price_source.spec_relative_price(
                    currency_id,
                    old(self).config.stable_currency_id,
                ),
            ) {
                (Some(req), Some(p)) => spec_ratio_of(
                    old(self).spec_debit_rate(currency_id),
                    old(self).lend.spec_position(currency_id, who).collateral
                        + collateral_adjustment,
                    old(self).lend.spec_position(currency_id, who).debit + debit_adjustment,
                    p,
                ) >= req.bits,
                _ => false,
            }),
            currency_id != old(self).config.stable_currency_id ==> ({
                let pos = old(self).lend.spec_position(currency_id, who);
                let totals = old(self).lend.spec_total(currency_id);
                let rate = old(self).spec_debit_rate(currency_id);
                let stable = old(self).config.stable_currency_id;
                let plan = spec_adjust_plan(
                    old(self).emergency_shutdown.is_shutdown,
                    pos,
                    totals,
                    rate,
                    old(self).spec_collateral_params(currency_id),
                    old(self).price_source.spec_relative_price(currency_id, stable),
                    old(self).config.minimum_debit_value as int,
                    collateral_adjustment as int,
                    debit_adjustment as int,
                );
                match plan {
                    Err(e) => r == Err::<(), Error>(e),
                    Ok(np) => ({
                        let magc = if collateral_adjustment >= 0 {
                            collateral_adjustment as int
                        } else {
                            -(collateral_adjustment as int)
                        };
                        let magd = if debit_adjustment >= 0 {
                            debit_adjustment as int
                        } else {
                            -(debit_adjustment as int)
                        };
                        let v = mul_div_floor(rate, magd, FIXED_ONE as int);
                        if debit_adjustment != 0 && v > u128::MAX {
                            r == Err::<(), Error>(Error::ArithmeticOverflow)
                        } else if collateral_adjustment > 0 && old(self).ledger.spec_balance(
                            who,
                            currency_id,
                        ) < magc {
                            r == Err::<(), Error>(Error::BalanceTooLow)
                        } else if collateral_adjustment < 0 && old(self).ledger.spec_balance(
                            crate::world::LOANS_ACCOUNT,
                            currency_id,
                        ) < magc {
                            r == Err::<(), Error>(Error::BalanceTooLow)
                        } else if collateral_adjustment != 0 && who != crate::world::LOANS_ACCOUNT
                            && (if collateral_adjustment > 0 {
                            old(self).ledger.spec_balance(crate::world::LOANS_ACCOUNT, currency_id)
                        } else {
                            old(self).ledger.spec_balance(who, currency_id)
                        }) + magc > u128::MAX {
                            r == Err::<(), Error>(Error::ArithmeticOverflow)
                        } else if debit_adjustment > 0 && (old(self).ledger.spec_balance(
                            who,
                            stable,
                        ) + v > u128::MAX || old(self).ledger.spec_issuance(stable) + v
                            > u128::MAX) {
                            r == Err::<(), Error>(Error::ArithmeticOverflow)
                        } else if debit_adjustment < 0 && (old(self).ledger.spec_balance(
                            who,
                            stable,
                        ) < v || old(self).ledger.spec_issuance(stable) < v) {
                            r == Err::<(), Error>(Error::BalanceTooLow)
                        } else {
                            &&& r == Ok::<(), Error>(())
                            &&& final(self).lend.spec_position(currency_id, who) == (
                            crate::types::Position {
                                collateral: np.0 as Balance,
                                debit: np.1 as Balance,
                            })
                            &&& forall|c2: CurrencyId, w2: crate::types::AccountId|
                                !(c2 == currency_id && w2 == who) ==> #[trigger] final(self).lend.spec_position(c2, w2) == old(self).lend.spec_position(
                                    c2,
                                    w2,
                                )
                            &&& final(self).lend.spec_total(currency_id) == ((
                                np.2 as Balance,
                                np.3 as Balance,
                            ))
                            &&& forall|c2: CurrencyId|
                                c2 != currency_id ==> #[trigger] final(self).lend.spec_total(c2)
                                    == old(self).lend.spec_total(c2)
                            &&& (who != crate::world::LOANS_ACCOUNT && currency_id != stable)
                                ==> {
                                &&& final(self).ledger.spec_balance(who, currency_id) == old(self).ledger.spec_balance(who, currency_id) - collateral_adjustment
                                &&& final(self).ledger.spec_balance(
                                    crate::world::LOANS_ACCOUNT,
                                    currency_id,
                                ) == old(self).ledger.spec_balance(
                                    crate::world::LOANS_ACCOUNT,
                                    currency_id,
                                ) + collateral_adjustment
                                &&& final(self).ledger.spec_balance(who, stable) == old(self).ledger.spec_balance(who, stable) + (if debit_adjustment >= 0 {
                                    v
                                } else {
                                    -v
                                })
                                &&& final(self).ledger.spec_issuance(stable) == old(self).ledger.spec_issuance(stable) + (if debit_adjustment >= 0 {
                                    v
                                } else {
                                    -v
                                })
                            }
                            &&& forall|w2: crate::types::AccountId, c2: CurrencyId|
                                !((w2 == who || w2 == crate::world::LOANS_ACCOUNT) && (c2
                                    == currency_id || c2 == stable)) ==> #[trigger] final(self).ledger.spec_balance(w2, c2) == old(self).ledger.spec_balance(
                                    w2,
                                    c2,
                                )
                            &&& forall|c2: CurrencyId|
                                c2 != stable ==> #[trigger] final(self).ledger.spec_issuance(c2)
                                    == old(self).ledger.spec_issuance(c2)
                        }
                    }),
                }
            }),
    {
        if currency_id == self.config.stable_currency_id {
            return Err(Error::InvalidCurrencyPair);
        }
        let shutdown = self.emergency_shutdown.is_shutdown();
        if debit_adjustment > 0 && shutdown {
            return Err(Error::MustBeforeShutdown);
        }
        let pos = self.lend.positions(currency_id, who);
        let totals = self.lend.total_positions(currency_id);
        let stable = self.config.stable_currency_id;
        let magc = magnitude(collateral_adjustment);
        let magd = magnitude(debit_adjustment);
        let nc: Balance;
        if collateral_adjustment >= 0 {
            if magc > u128::MAX - pos.collateral {
                return Err(Error::ArithmeticOverflow);
            }
            nc = pos.collateral + magc;
        } else {
            if magc > pos.collateral {
                return Err(Error::CollateralTooLow);
            }
            nc = pos.collateral - magc;
        }
        let nd: Balance;
        if debit_adjustment >= 0 {
            if magd > u128::MAX - pos.debit {
                return Err(Error::ArithmeticOverflow);
            }
            nd = pos.debit + magd;
        } else {
            if magd > pos.debit {
                return Err(Error::DebitTooLow);
            }
            nd = pos.debit - magd;
        }
        let ntc: Balance;
        if collateral_adjustment >= 0 {
            if magc > u128::MAX - totals.0 {
                return Err(Error::ArithmeticOverflow);
            }
            ntc = totals.0 + magc;
        } else {
            if magc > totals.0 {
                return Err(Error::ArithmeticOverflow);
            }
            ntc = totals.0 - magc;
        }
        let ntd: Balance;
        if debit_adjustment >= 0 {
            if magd > u128::MAX - totals.1 {
                return Err(Error::ArithmeticOverflow);
            }
            ntd = totals.1 + magd;
        } else {
            if magd > totals.1 {
                return Err(Error::ArithmeticOverflow);
            }
            ntd = totals.1 - magd;
        }
        let params = self.collateral_params(currency_id);
        if debit_adjustment > 0 {
            match self.check_debit_cap(currency_id, ntd) {
                Ok(_) => {},
                Err(e) => {
                    return Err(e);
                },
            }
        }
        if nd > 0 {
            let dv = match self.get_debit_value(currency_id, nd) {
                Some(v) => v,
                None => {
                    return Err(Error::ArithmeticOverflow);
                },
            };
            if dv < self.config.minimum_debit_value {
                return Err(Error::RemainDebitValueTooSmall);
            }
            match params.required_collateral_ratio {
                Some(req) => {
                    let price = match self.price_source.get_relative_price(currency_id, stable) {
                        Some(p) => p,
                        None => {
                            return Err(Error::InvalidFeedPrice);
                        },
                    };
                    let ratio = self.calculate_collateral_ratio(currency_id, nc, nd, price);
                    if ratio.lt(req) {
                        return Err(Error::BelowRequiredCollateralRatio);
                    }
                },
                None => {},
            }
        }
        let rate = self.get_debit_exchange_rate(currency_id);
        let v: Balance;
        if debit_adjustment != 0 {
            v = match mul_div(rate.bits, magd, FIXED_ONE) {
                Some(x) => x,
                None => {
                    return Err(Error::ArithmeticOverflow);
                },
            };
        } else {
            v = 0;
        }
        if collateral_adjustment > 0 {
            let b = self.ledger.free_balance(who, currency_id);
            if b < magc {
                return Err(Error::BalanceTooLow);
            }
            if who != crate::world::LOANS_ACCOUNT {
                let bl = self.ledger.free_balance(crate::world::LOANS_ACCOUNT, currency_id);
                if magc > u128::MAX - bl {
                    return Err(Error::ArithmeticOverflow);
                }
            }
        } else if collateral_adjustment < 0 {
            let bl = self.ledger.free_balance(crate::world::LOANS_ACCOUNT, currency_id);
            if bl < magc {
                return Err(Error::BalanceTooLow);
            }
            if who != crate::world::LOANS_ACCOUNT {
                let b = self.ledger.free_balance(who, currency_id);
                if magc > u128::MAX - b {
                    return Err(Error::ArithmeticOverflow);
                }
            }
        }
        if debit_adjustment > 0 {
            let b = self.ledger.free_balance(who, stable);
            let iss = self.ledger.total_issuance(stable);
            if v > u128::MAX - b || v > u128::MAX - iss {
                return Err(Error::ArithmeticOverflow);
            }
        } else if debit_adjustment < 0 {
            let b = self.ledger.free_balance(who, stable);
            let iss = self.ledger.total_issuance(stable);
            if b < v || iss < v {
                return Err(Error::BalanceTooLow);
            }
        }
        self.lend.set_position(currency_id, who, crate::types::Position { collateral: nc, debit: nd });
        let ghost lend_mid = self.lend;
        self.lend.set_total(currency_id, (ntc, ntd));
        let ghost led0 = self.ledger;
        if collateral_adjustment > 0 {
            self.ledger.transfer(who, crate::world::LOANS_ACCOUNT, currency_id, magc);
        } else if collateral_adjustment < 0 {
            self.ledger.transfer(crate::world::LOANS_ACCOUNT, who, currency_id, magc);
        }
        let ghost led1 = self.ledger;
        if debit_adjustment > 0 {
            self.ledger.mint(who, stable, v);
        } else if debit_adjustment < 0 {
            self.ledger.burn(who, stable, v);
        }
        proof {
            assert forall|c2: CurrencyId, w2: crate::types::AccountId|
                !(c2 == currency_id && w2 == who) implies #[trigger] self.lend.spec_position(
                c2,
                w2,
            ) == old(self).lend.spec_position(c2, w2) by {
                assert(lend_mid.spec_position(c2, w2) == old(self).lend.spec_position(c2, w2));
            }
            assert forall|c2: CurrencyId|
                c2 != currency_id implies #[trigger] self.lend.spec_total(c2) == old(self).lend.spec_total(c2) by {
                assert(lend_mid.spec_total(c2) == old(self).lend.spec_total(c2));
            }
            assert forall|w2: crate::types::AccountId, c2: CurrencyId|
                !((w2 == who || w2 == crate::world::LOANS_ACCOUNT) && (c2 == currency_id || c2
                    == stable)) implies #[trigger] self.ledger.spec_balance(w2, c2) == old(self).ledger.spec_balance(w2, c2) by {
                assert(led0.spec_balance(w2, c2) == old(self).ledger.spec_balance(w2, c2));
                assert(led1.spec_balance(w2, c2) == led0.spec_balance(w2, c2));
            }
            assert forall|c2: CurrencyId|
                c2 != stable implies #[trigger] self.ledger.spec_issuance(c2) == old(self).ledger.spec_issuance(c2) by {
                assert(led0.spec_issuance(c2) == old(self).ledger.spec_issuance(c2));
                assert(led1.spec_issuance(c2) == led0.spec_issuance(c2));
            }
            if who != crate::world::LOANS_ACCOUNT && currency_id != stable {
                assert(led1.spec_balance(who, stable) == led0.spec_balance(who, stable));
                assert(led1.spec_balance(who, currency_id) == old(self).ledger.spec_balance(
                    who,
                    currency_id,
                ) - collateral_adjustment);
                assert(led1.spec_balance(crate::world::LOANS_ACCOUNT, currency_id) == old(self).ledger.spec_balance(crate::world::LOANS_ACCOUNT, currency_id)
                    + collateral_adjustment);
                assert(self.ledger.spec_balance(who, currency_id) == led1.spec_balance(
                    who,
                    currency_id,
                ));
                assert(self.ledger.spec_balance(crate::world::LOANS_ACCOUNT, currency_id)
                    == led1.spec_balance(crate::world::LOANS_ACCOUNT, currency_id));
                assert(led0.spec_issuance(stable) == old(self).ledger.spec_issuance(stable));
                assert(led1.spec_issuance(stable) == led0.spec_issuance(stable));
            }
        }
        Ok(())
    }

    /// Liquidate an unsafe position: recompute its ratio from the
    /// latest price, fail `AlreadySafe` without touching anything if
    /// it is not unsafe, otherwise seize the whole position in one
    /// indivisible step and settle it through the exchange when the
    /// pool can absorb the seizure, else through a collateral auction
    /// with the penalty surcharge on the target.
    pub fn liquidate_unsafe_cdp(&mut self, who: crate::types::AccountId, currency_id: CurrencyId) -> (r:
        Result<crate::types::LiquidationRecord, Error>)
        requires
            old(self).wf(),
        ensures
            final(self).wf(),
            final(self).config == old(self).config,
            final(self).params == old(self).params,
            final(self).debit_exchange_rates == old(self).debit_exchange_rates,
            final(self).global_stability_fee == old(self).global_stability_fee,
            final(self).price_source == old(self).price_source,
            final(self).emergency_shutdown == old(self).emergency_shutdown,
            r is Err ==> *final(self) == *old(self),
            // the strategy is a pure function of pool depth, the
            // slippage bound, the seized collateral and the owed value
            (match r {
                Ok(rec) => rec.strategy == (if spec_exchange_viable(
                    old(self).spec_reserves(currency_id, old(self).config.stable_currency_id).0
                        as int,
                    old(self).spec_reserves(currency_id, old(self).config.stable_currency_id).1
                        as int,
                    old(self).config.max_slippage_swap_with_exchange.bits as int,
                    rec.collateral_seized as int,
                    rec.debit_value_owed as int,
                    old(self).config.exchange_fee.0 as int,
                    old(self).config.exchange_fee.1 as int,
                ) {
                    crate::types::LiquidationStrategy::Exchange
                } else {
                    crate::types::LiquidationStrategy::Auction
                }),
                Err(_) => true,
            }),
            ({
                let stable = old(self).config.stable_currency_id;
                let pos = old(self).lend.spec_position(currency_id, who);
                let rate = old(self).spec_debit_rate(currency_id);
                let params = old(self).spec_collateral_params(currency_id);
                let price = old(self).price_source.spec_relative_price(currency_id, stable);
                let totals = old(self).lend.spec_total(currency_id);
                let rsv = old(self).spec_reserves(currency_id, stable);
                let slip = old(self).config.max_slippage_swap_with_exchange.bits;
                let fee_n = old(self).config.exchange_fee.0 as int;
                let fee_d = old(self).config.exchange_fee.1 as int;
                match spec_liquidate_check(pos, rate, params.liquidation_ratio, price) {
                    Err(e) => r == Err::<crate::types::LiquidationRecord, Error>(e),
                    Ok(co) => ({
                        let seized = co.0;
                        let owed = co.1;
                        let viable = spec_exchange_viable(
                            rsv.0 as int,
                            rsv.1 as int,
                            slip as int,
                            seized,
                            owed,
                            fee_n,
                            fee_d,
                        );
                        if totals.0 < seized || totals.1 < pos.debit {
                            r == Err::<crate::types::LiquidationRecord, Error>(
                                Error::ArithmeticOverflow,
                            )
                        } else if old(self).treasury.debit_pool + owed > u128::MAX {
                            r == Err::<crate::types::LiquidationRecord, Error>(
                                Error::ArithmeticOverflow,
                            )
                        } else if old(self).ledger.spec_balance(
                            crate::world::LOANS_ACCOUNT,
                            currency_id,
                        ) < seized {
                            r == Err::<crate::types::LiquidationRecord, Error>(
                                Error::BalanceTooLow,
                            )
                        } else if viable {
                            let out = crate::exchange::spec_swap_target(
                                rsv.0 as int,
                                rsv.1 as int,
                                seized,
                                fee_n,
                                fee_d,
                            );
                            if old(self).ledger.spec_balance(
                                crate::world::EXCHANGE_ACCOUNT,
                                currency_id,
                            ) + seized > u128::MAX {
                                r == Err::<crate::types::LiquidationRecord, Error>(
                                    Error::ArithmeticOverflow,
                                )
                            } else if old(self).ledger.spec_balance(
                                crate::world::EXCHANGE_ACCOUNT,
                                stable,
                            ) < out {
                                r == Err::<crate::types::LiquidationRecord, Error>(
                                    Error::BalanceTooLow,
                                )
                            } else if old(self).ledger.spec_balance(
                                crate::world::TREASURY_ACCOUNT,
                                stable,
                            ) + out > u128::MAX || old(self).treasury.surplus_pool + out
                                > u128::MAX {
                                r == Err::<crate::types::LiquidationRecord, Error>(
                                    Error::ArithmeticOverflow,
                                )
                            } else {
                                &&& r == Ok::<crate::types::LiquidationRecord, Error>(
                                    (crate::types::LiquidationRecord {
                                        currency_id,
                                        owner: who,
                                        collateral_seized: seized as Balance,
                                        debit_value_owed: owed as Balance,
                                        strategy: crate::types::LiquidationStrategy::Exchange,
                                    }),
                                )
                                &&& final(self).lend.spec_position(currency_id, who) == (
                                crate::types::Position { collateral: 0, debit: 0 })
                                &&& final(self).lend.spec_total(currency_id) == ((
                                    (totals.0 - seized) as Balance,
                                    (totals.1 - pos.debit) as Balance,
                                ))
                                &&& final(self).spec_reserves(currency_id, stable) == ((
                                    (rsv.0 + seized) as Balance,
                                    (rsv.1 - out) as Balance,
                                ))
                                &&& final(self).treasury.surplus_pool == old(self).treasury.surplus_pool + out
                                &&& final(self).treasury.debit_pool == old(self).treasury.debit_pool + owed
                                &&& final(self).treasury.total_collaterals == old(self).treasury.total_collaterals
                                &&& final(self).auction_manager == old(self).auction_manager
                                &&& final(self).ledger.spec_balance(
                                    crate::world::LOANS_ACCOUNT,
                                    currency_id,
                                ) == old(self).ledger.spec_balance(
                                    crate::world::LOANS_ACCOUNT,
                                    currency_id,
                                ) - seized
                                &&& final(self).ledger.spec_balance(
                                    crate::world::EXCHANGE_ACCOUNT,
                                    currency_id,
                                ) == old(self).ledger.spec_balance(
                                    crate::world::EXCHANGE_ACCOUNT,
                                    currency_id,
                                ) + seized
                                &&& final(self).ledger.spec_balance(
                                    crate::world::EXCHANGE_ACCOUNT,
                                    stable,
                                ) == old(self).ledger.spec_balance(
                                    crate::world::EXCHANGE_ACCOUNT,
                                    stable,
                                ) - out
                                &&& final(self).ledger.spec_balance(
                                    crate::world::TREASURY_ACCOUNT,
                                    stable,
                                ) == old(self).ledger.spec_balance(
                                    crate::world::TREASURY_ACCOUNT,
                                    stable,
                                ) + out
                            }
                        } else {
                            let pen = match params.liquidation_penalty {
                                Some(p) => mul_div_floor(p.bits as int, owed, FIXED_ONE as int),
                                None => 0,
                            };
                            if pen > u128::MAX || owed + pen > u128::MAX {
                                r == Err::<crate::types::LiquidationRecord, Error>(
                                    Error::ArithmeticOverflow,
                                )
                            } else if old(self).ledger.spec_balance(
                                crate::world::TREASURY_ACCOUNT,
                                currency_id,
                            ) + seized > u128::MAX || old(self).treasury.spec_total_collaterals(
                                currency_id,
                            ) + seized > u128::MAX {
                                r == Err::<crate::types::LiquidationRecord, Error>(
                                    Error::ArithmeticOverflow,
                                )
                            } else if old(self).auction_manager.next_id
                                == crate::types::AuctionId::MAX || crate::auction::spec_auction_total(
                                old(self).auction_manager.auctions@,
                                currency_id,
                            ) + seized > u128::MAX {
                                r == Err::<crate::types::LiquidationRecord, Error>(
                                    Error::ArithmeticOverflow,
                                )
                            } else {
                                &&& r == Ok::<crate::types::LiquidationRecord, Error>(
                                    (crate::types::LiquidationRecord {
                                        currency_id,
                                        owner: who,
                                        collateral_seized: seized as Balance,
                                        debit_value_owed: owed as Balance,
                                        strategy: crate::types::LiquidationStrategy::Auction,
                                    }),
                                )
                                &&& final(self).lend.spec_position(currency_id, who) == (
                                crate::types::Position { collateral: 0, debit: 0 })
                                &&& final(self).lend.spec_total(currency_id) == ((
                                    (totals.0 - seized) as Balance,
                                    (totals.1 - pos.debit) as Balance,
                                ))
                                &&& final(self).pools == old(self).pools
                                &&& final(self).treasury.surplus_pool == old(self).treasury.surplus_pool
                                &&& final(self).treasury.debit_pool == old(self).treasury.debit_pool + owed
                                &&& final(self).treasury.spec_total_collaterals(currency_id)
                                    == old(self).treasury.spec_total_collaterals(currency_id)
                                    + seized
                                &&& forall|c2: CurrencyId|
                                    c2 != currency_id ==> #[trigger] final(self).treasury.spec_total_collaterals(c2) == old(self).treasury.spec_total_collaterals(c2)
                                &&& final(self).auction_manager.next_id == old(self).auction_manager.next_id + 1
                                &&& final(self).auction_manager.auctions@ == old(self).auction_manager.auctions@.push(
                                    (crate::types::CollateralAuction {
                                        id: old(self).auction_manager.next_id,
                                        refund_recipient: who,
                                        currency_id,
                                        amount: seized as Balance,
                                        target: (owed + pen) as Balance,
                                    }),
                                )
                                &&& final(self).ledger.spec_balance(
                                    crate::world::LOANS_ACCOUNT,
                                    currency_id,
                                ) == old(self).ledger.spec_balance(
                                    crate::world::LOANS_ACCOUNT,
                                    currency_id,
                                ) - seized
                                &&& final(self).ledger.spec_balance(
                                    crate::world::TREASURY_ACCOUNT,
                                    currency_id,
                                ) == old(self).ledger.spec_balance(
                                    crate::world::TREASURY_ACCOUNT,
                                    currency_id,
                                ) + seized
                            }
                        }
                    }),
                }
            }),
            // untouched positions, totals, balances and issuance
            r is Ok ==> {
                &&& forall|c2: CurrencyId, w2: crate::types::AccountId|
                    !(c2 == currency_id && w2 == who) ==> #[trigger] final(self).lend.spec_position(c2, w2) == old(self).lend.spec_position(c2, w2)
                &&& forall|c2: CurrencyId|
                    c2 != currency_id ==> #[trigger] final(self).lend.spec_total(c2) == old(self).lend.spec_total(c2)
                &&& forall|w2: crate::types::AccountId, c2: CurrencyId|
                    !((w2 == crate::world::LOANS_ACCOUNT || w2 == crate::world::EXCHANGE_ACCOUNT
                        || w2 == crate::world::TREASURY_ACCOUNT) && (c2 == currency_id || c2
                        == old(self).config.stable_currency_id)) ==> #[trigger] final(self).ledger.spec_balance(w2, c2) == old(self).ledger.spec_balance(w2, c2)
                &&& forall|c2: CurrencyId|
                    #[trigger] final(self).ledger.spec_issuance(c2) == old(self).ledger.spec_issuance(c2)
            },
    {
        let stable = self.config.stable_currency_id;
        let pos = self.lend.positions(currency_id, who);
        let rate = self.get_debit_exchange_rate(currency_id);
        let params = self.collateral_params(currency_id);
        let price = match self.price_source.get_relative_price(currency_id, stable) {
            Some(p) => p,
            None => {
                return Err(Error::InvalidFeedPrice);
            },
        };
        let liq_ratio = match params.liquidation_ratio {
            Some(lr) => lr,
            None => {
                return Err(Error::AlreadySafe);
            },
        };
        let owed = match mul_div(rate.bits, pos.debit, FIXED_ONE) {
            Some(v) => v,
            None => {
                return Err(Error::ArithmeticOverflow);
            },
        };
        if owed == 0 {
            return Err(Error::AlreadySafe);
        }
        let cv = match mul_div(price.bits, pos.collateral, FIXED_ONE) {
            Some(v) => v,
            None => {
                return Err(Error::ArithmeticOverflow);
            },
        };
        let ratio = match mul_div(cv, FIXED_ONE, owed) {
            Some(v) => v,
            None => u128::MAX,
        };
        if ratio >= liq_ratio.bits {
            return Err(Error::AlreadySafe);
        }
        let seized = pos.collateral;
        let totals = self.lend.total_positions(currency_id);
        if totals.0 < seized || totals.1 < pos.debit {
            return Err(Error::ArithmeticOverflow);
        }
        if owed > u128::MAX - self.treasury.debit_pool {
            return Err(Error::ArithmeticOverflow);
        }
        let bal_loans = self.ledger.free_balance(crate::world::LOANS_ACCOUNT, currency_id);
        if bal_loans < seized {
            return Err(Error::BalanceTooLow);
        }
        let pool = self.get_liquidity_pool(currency_id, stable);
        let slip = self.config.max_slippage_swap_with_exchange;
        let fee_n = self.config.exchange_fee.0;
        let fee_d = self.config.exchange_fee.1;
        let mut viable = false;
        let mut out: Balance = 0;
        if pool.0 > 0 && pool.1 > 0 && seized <= u128::MAX - pool.0 {
            let bound_ok = match mul_div(slip.bits, pool.0, FIXED_ONE) {
                Some(q) => seized <= q,
                None => true,
            };
            proof {
                lemma_le_div_iff(
                    seized as int,
                    slip.bits as int * pool.0 as int,
                    FIXED_ONE as int,
                );
            }
            if bound_ok {
                out = match crate::exchange::swap_target_amount(
                    pool.0,
                    pool.1,
                    seized,
                    fee_n,
                    fee_d,
                ) {
                    Ok(v) => v,
                    Err(_) => {
                        proof {
                            crate::arith::lemma_mul_div_le_self(
                                seized as int,
                                fee_d as int - fee_n as int,
                                fee_d as int,
                            );
                            assert(false);
                        }
                        return Err(Error::ArithmeticOverflow);
                    },
                };
                viable = out >= owed;
            }
        }
        proof {
            assert(viable == spec_exchange_viable(
                pool.0 as int,
                pool.1 as int,
                slip.bits as int,
                seized as int,
                owed as int,
                fee_n as int,
                fee_d as int,
            ));
        }
        if viable {
            let ex_c = self.ledger.free_balance(crate::world::EXCHANGE_ACCOUNT, currency_id);
            if seized > u128::MAX - ex_c {
                return Err(Error::ArithmeticOverflow);
            }
            let ex_s = self.ledger.free_balance(crate::world::EXCHANGE_ACCOUNT, stable);
            if ex_s < out {
                return Err(Error::BalanceTooLow);
            }
            let tr_s = self.ledger.free_balance(crate::world::TREASURY_ACCOUNT, stable);
            if out > u128::MAX - tr_s || out > u128::MAX - self.treasury.surplus_pool {
                return Err(Error::ArithmeticOverflow);
            }
            let share = match crate::exchange::trading_pair_id(currency_id, stable) {
                Some(s) => s,
                None => {
                    proof {
                        assert(false);
                    }
                    return Err(Error::ArithmeticOverflow);
                },
            };
            self.lend.set_position(
                currency_id,
                who,
                crate::types::Position { collateral: 0, debit: 0 },
            );
            let ghost lend_mid = self.lend;
            self.lend.set_total(currency_id, (totals.0 - seized, totals.1 - pos.debit));
            let first_is_c = match share {
                CurrencyId::ExchangeShare(x, y) => currency_id == CurrencyId::Token(x),
                _ => false,
            };
            let new_pool = if first_is_c {
                (pool.0 + seized, pool.1 - out)
            } else {
                (pool.1 - out, pool.0 + seized)
            };
            self.pools.set(share, new_pool);
            let ghost led0 = self.ledger;
            self.ledger.transfer(
                crate::world::LOANS_ACCOUNT,
                crate::world::EXCHANGE_ACCOUNT,
                currency_id,
                seized,
            );
            let ghost led1 = self.ledger;
            self.ledger.transfer(
                crate::world::EXCHANGE_ACCOUNT,
                crate::world::TREASURY_ACCOUNT,
                stable,
                out,
            );
            self.treasury.on_system_surplus(out);
            self.treasury.on_system_debit(owed);
            proof {
                assert forall|c2: CurrencyId, w2: crate::types::AccountId|
                    !(c2 == currency_id && w2 == who) implies #[trigger] self.lend.spec_position(
                    c2,
                    w2,
                ) == old(self).lend.spec_position(c2, w2) by {
                    assert(lend_mid.spec_position(c2, w2) == old(self).lend.spec_position(
                        c2,
                        w2,
                    ));
                }
                assert forall|c2: CurrencyId|
                    c2 != currency_id implies #[trigger] self.lend.spec_total(c2) == old(self).lend.spec_total(c2) by {
                    assert(lend_mid.spec_total(c2) == old(self).lend.spec_total(c2));
                }
                assert forall|w2: crate::types::AccountId, c2: CurrencyId|
                    !((w2 == crate::world::LOANS_ACCOUNT || w2 == crate::world::EXCHANGE_ACCOUNT
                        || w2 == crate::world::TREASURY_ACCOUNT) && (c2 == currency_id || c2
                        == stable)) implies #[trigger] self.ledger.spec_balance(w2, c2) == old(self).ledger.spec_balance(w2, c2) by {
                    assert(led0.spec_balance(w2, c2) == old(self).ledger.spec_balance(w2, c2));
                    assert(led1.spec_balance(w2, c2) == led0.spec_balance(w2, c2));
                }
                assert forall|c2: CurrencyId|
                    #[trigger] self.ledger.spec_issuance(c2) == old(self).ledger.spec_issuance(
                    c2,
                ) by {
                    assert(led0.spec_issuance(c2) == old(self).ledger.spec_issuance(c2));
                    assert(led1.spec_issuance(c2) == led0.spec_issuance(c2));
                }
                assert(led1.spec_balance(crate::world::EXCHANGE_ACCOUNT, stable)
                    == led0.spec_balance(crate::world::EXCHANGE_ACCOUNT, stable));
                assert(led1.spec_balance(crate::world::TREASURY_ACCOUNT, stable)
                    == led0.spec_balance(crate::world::TREASURY_ACCOUNT, stable));
                assert(self.ledger.spec_balance(crate::world::LOANS_ACCOUNT, currency_id)
                    == led1.spec_balance(crate::world::LOANS_ACCOUNT, currency_id));
                assert(self.ledger.spec_balance(crate::world::EXCHANGE_ACCOUNT, currency_id)
                    == led1.spec_balance(crate::world::EXCHANGE_ACCOUNT, currency_id));
            }
            Ok(
                crate::types::LiquidationRecord {
                    currency_id,
                    owner: who,
                    collateral_seized: seized,
                    debit_value_owed: owed,
                    strategy: crate::types::LiquidationStrategy::Exchange,
                },
            )
        } else {
            let pen: Balance = match params.liquidation_penalty {
                Some(p) => match mul_div(p.bits, owed, FIXED_ONE) {
                    Some(v) => v,
                    None => {
                        return Err(Error::ArithmeticOverflow);
                    },
                },
                None => 0,
            };
            if pen > u128::MAX - owed {
                return Err(Error::ArithmeticOverflow);
            }
            let tr_c = self.ledger.free_balance(crate::world::TREASURY_ACCOUNT, currency_id);
            let tot_c = self.treasury.total_collaterals(currency_id);
            if seized > u128::MAX - tr_c || seized > u128::MAX - tot_c {
                return Err(Error::ArithmeticOverflow);
            }
            match self.auction_manager.new_collateral_auction(
                who,
                currency_id,
                seized,
                owed + pen,
            ) {
                Ok(_) => {},
                Err(e) => {
                    return Err(e);
                },
            }
            self.lend.set_position(
                currency_id,
                who,
                crate::types::Position { collateral: 0, debit: 0 },
            );
            let ghost lend_mid = self.lend;
            self.lend.set_total(currency_id, (totals.0 - seized, totals.1 - pos.debit));
            let ghost led0 = self.ledger;
            self.ledger.transfer(
                crate::world::LOANS_ACCOUNT,
                crate::world::TREASURY_ACCOUNT,
                currency_id,
                seized,
            );
            let ghost tre0 = self.treasury;
            self.treasury.add_collateral(currency_id, seized);
            let ghost tre1 = self.treasury;
            self.treasury.on_system_debit(owed);
            proof {
                assert forall|c2: CurrencyId|
                    c2 != currency_id implies #[trigger] self.treasury.spec_total_collaterals(c2)
                    == old(self).treasury.spec_total_collaterals(c2) by {
                    assert(tre1.spec_total_collaterals(c2) == tre0.spec_total_collaterals(c2));
                    assert(self.treasury.spec_total_collaterals(c2)
                        == tre1.spec_total_collaterals(c2));
                }
                assert(self.treasury.spec_total_collaterals(currency_id)
                    == tre1.spec_total_collaterals(currency_id));
                assert forall|c2: CurrencyId, w2: crate::types::AccountId|
                    !(c2 == currency_id && w2 == who) implies #[trigger] self.lend.spec_position(
                    c2,
                    w2,
                ) == old(self).lend.spec_position(c2, w2) by {
                    assert(lend_mid.spec_position(c2, w2) == old(self).lend.spec_position(
                        c2,
                        w2,
                    ));
                }
                assert forall|c2: CurrencyId|
                    c2 != currency_id implies #[trigger] self.lend.spec_total(c2) == old(self).lend.spec_total(c2) by {
                    assert(lend_mid.spec_total(c2) == old(self).lend.spec_total(c2));
                }
                assert forall|w2: crate::types::AccountId, c2: CurrencyId|
                    !((w2 == crate::world::LOANS_ACCOUNT || w2 == crate::world::EXCHANGE_ACCOUNT
                        || w2 == crate::world::TREASURY_ACCOUNT) && (c2 == currency_id || c2
                        == stable)) implies #[trigger] self.ledger.spec_balance(w2, c2) == old(self).ledger.spec_balance(w2, c2) by {
                    assert(led0.spec_balance(w2, c2) == old(self).ledger.spec_balance(w2, c2));
                }
                assert forall|c2: CurrencyId|
                    #[trigger] self.ledger.spec_issuance(c2) == old(self).ledger.spec_issuance(
                    c2,
                ) by {
                    assert(led0.spec_issuance(c2) == old(self).ledger.spec_issuance(c2));
                }
            }
            Ok(
                crate::types::LiquidationRecord {
                    currency_id,
                    owner: who,
                    collateral_seized: seized,
                    debit_value_owed: owed,
                    strategy: crate::types::LiquidationStrategy::Auction,
                },
            )
        }
    }

    /// Settle a position that still carries debt: write its debt value
    /// off into the debit pool, confiscate the matching slice of its
    /// collateral into the treasury, and leave the remainder in the
    /// position for its owner.  Fails `NoDebitValue` when there is no
    /// debt, touching nothing.
    pub fn settle_cdp_has_debit(&mut self, who: crate::types::AccountId, currency_id: CurrencyId) -> (r:
        Result<crate::types::SettlementRecord, Error>)
        requires
            old(self).wf(),
        ensures
            final(self).wf(),
            final(self).config == old(self).config,
            final(self).params == old(self).params,
            final(self).debit_exchange_rates == old(self).debit_exchange_rates,
            final(self).global_stability_fee == old(self).global_stability_fee,
            final(self).price_source == old(self).price_source,
            final(self).emergency_shutdown == old(self).emergency_shutdown,
            final(self).pools == old(self).pools,
            final(self).auction_manager == old(self).auction_manager,
            r is Err ==> *final(self) == *old(self),
            ({
                let stable = old(self).config.stable_currency_id;
                let pos = old(self).lend.spec_position(currency_id, who);
                let rate = old(self).spec_debit_rate(currency_id);
                let sp = old(self).price_source.spec_relative_price(stable, currency_id);
                let totals = old(self).lend.spec_total(currency_id);
                match spec_settle_check(pos, rate, sp) {
                    Err(e) => r == Err::<crate::types::SettlementRecord, Error>(e),
                    Ok(dc) => ({
                        let dv = dc.0;
                        let confiscate = dc.1;
                        if totals.0 < confiscate || totals.1 < pos.debit {
                            r == Err::<crate::types::SettlementRecord, Error>(
                                Error::ArithmeticOverflow,
                            )
                        } else if old(self).treasury.debit_pool + dv > u128::MAX {
                            r == Err::<crate::types::SettlementRecord, Error>(
                                Error::ArithmeticOverflow,
                            )
                        } else if old(self).ledger.spec_balance(
                            crate::world::LOANS_ACCOUNT,
                            currency_id,
                        ) < confiscate {
                            r == Err::<crate::types::SettlementRecord, Error>(
                                Error::BalanceTooLow,
                            )
                        } else if old(self).ledger.spec_balance(
                            crate::world::TREASURY_ACCOUNT,
                            currency_id,
                        ) + confiscate > u128::MAX || old(self).treasury.spec_total_collaterals(
                            currency_id,
                        ) + confiscate > u128::MAX {
                            r == Err::<crate::types::SettlementRecord, Error>(
                                Error::ArithmeticOverflow,
                            )
                        } else {
                            &&& r == Ok::<crate::types::SettlementRecord, Error>(
                                (crate::types::SettlementRecord {
                                    currency_id,
                                    owner: who,
                                    bad_debt_value: dv as Balance,
                                    confiscated_collateral: confiscate as Balance,
                                }),
                            )
                            &&& final(self).lend.spec_position(currency_id, who) == (
                            crate::types::Position {
                                collateral: (pos.collateral - confiscate) as Balance,
                                debit: 0,
                            })
                            &&& final(self).lend.spec_total(currency_id) == ((
                                (totals.0 - confiscate) as Balance,
                                (totals.1 - pos.debit) as Balance,
                            ))
                            &&& forall|c2: CurrencyId, w2: crate::types::AccountId|
                                !(c2 == currency_id && w2 == who) ==> #[trigger] final(self).lend.spec_position(c2, w2) == old(self).lend.spec_position(
                                    c2,
                                    w2,
                                )
                            &&& forall|c2: CurrencyId|
                                c2 != currency_id ==> #[trigger] final(self).lend.spec_total(c2)
                                    == old(self).lend.spec_total(c2)
                            &&& final(self).treasury.debit_pool == old(self).treasury.debit_pool
                                + dv
                            &&& final(self).treasury.surplus_pool == old(self).treasury.surplus_pool
                            &&& final(self).treasury.spec_total_collaterals(currency_id) == old(self).treasury.spec_total_collaterals(currency_id) + confiscate
                            &&& forall|c2: CurrencyId|
                                c2 != currency_id ==> #[trigger] final(self).treasury.spec_total_collaterals(c2) == old(self).treasury.spec_total_collaterals(c2)
                            &&& final(self).ledger.spec_balance(
                                crate::world::LOANS_ACCOUNT,
                                currency_id,
                            ) == old(self).ledger.spec_balance(
                                crate::world::LOANS_ACCOUNT,
                                currency_id,
                            ) - confiscate
                            &&& final(self).ledger.spec_balance(
                                crate::world::TREASURY_ACCOUNT,
                                currency_id,
                            ) == old(self).ledger.spec_balance(
                                crate::world::TREASURY_ACCOUNT,
                                currency_id,
                            ) + confiscate
                            &&& forall|w2: crate::types::AccountId, c2: CurrencyId|
                                !((w2 == crate::world::LOANS_ACCOUNT || w2
                                    == crate::world::TREASURY_ACCOUNT) && c2 == currency_id)
                                    ==> #[trigger] final(self).ledger.spec_balance(w2, c2) == old(self).ledger.spec_balance(w2, c2)
                            &&& forall|c2: CurrencyId|
                                #[trigger] final(self).ledger.spec_issuance(c2) == old(self).ledger.spec_issuance(c2)
                        }
                    }),
                }
            }),
    {
        let stable = self.config.stable_currency_id;
        let pos = self.lend.positions(currency_id, who);
        if pos.debit == 0 {
            return Err(Error::NoDebitValue);
        }
        let sp = match self.price_source.get_relative_price(stable, currency_id) {
            Some(p) => p,
            None => {
                return Err(Error::InvalidFeedPrice);
            },
        };
        let rate = self.get_debit_exchange_rate(currency_id);
        let dv = match mul_div(rate.bits, pos.debit, FIXED_ONE) {
            Some(v) => v,
            None => {
                return Err(Error::ArithmeticOverflow);
            },
        };
        let conv = match mul_div(sp.bits, dv, FIXED_ONE) {
            Some(v) => v,
            None => u128::MAX,
        };
        let confiscate = if conv <= pos.collateral {
            conv
        } else {
            pos.collateral
        };
        let totals = self.lend.total_positions(currency_id);
        if totals.0 < confiscate || totals.1 < pos.debit {
            return Err(Error::ArithmeticOverflow);
        }
        if dv > u128::MAX - self.treasury.debit_pool {
            return Err(Error::ArithmeticOverflow);
        }
        let bal_loans = self.ledger.free_balance(crate::world::LOANS_ACCOUNT, currency_id);
        if bal_loans < confiscate {
            return Err(Error::BalanceTooLow);
        }
        let tr_c = self.ledger.free_balance(crate::world::TREASURY_ACCOUNT, currency_id);
        let tot_c = self.treasury.total_collaterals(currency_id);
        if confiscate > u128::MAX - tr_c || confiscate > u128::MAX - tot_c {
            return Err(Error::ArithmeticOverflow);
        }
        self.lend.set_position(
            currency_id,
            who,
            crate::types::Position { collateral: pos.collateral - confiscate, debit: 0 },
        );
        let ghost lend_mid = self.lend;
        self.lend.set_total(currency_id, (totals.0 - confiscate, totals.1 - pos.debit));
        let ghost led0 = self.ledger;
        self.ledger.transfer(
            crate::world::LOANS_ACCOUNT,
            crate::world::TREASURY_ACCOUNT,
            currency_id,
            confiscate,
        );
        let ghost tre0 = self.treasury;
        self.treasury.add_collateral(currency_id, confiscate);
        let ghost tre1 = self.treasury;
        self.treasury.on_system_debit(dv);
        proof {
            assert forall|c2: CurrencyId, w2: crate::types::AccountId|
                !(c2 == currency_id && w2 == who) implies #[trigger] self.lend.spec_position(
                c2,
                w2,
            ) == old(self).lend.spec_position(c2, w2) by {
                assert(lend_mid.spec_position(c2, w2) == old(self).lend.spec_position(c2, w2));
            }
            assert forall|c2: CurrencyId|
                c2 != currency_id implies #[trigger] self.lend.spec_total(c2) == old(self).lend.spec_total(c2) by {
                assert(lend_mid.spec_total(c2) == old(self).lend.spec_total(c2));
            }
            assert forall|w2: crate::types::AccountId, c2: CurrencyId|
                !((w2 == crate::world::LOANS_ACCOUNT || w2 == crate::world::TREASURY_ACCOUNT)
                    && c2 == currency_id) implies #[trigger] self.ledger.spec_balance(w2, c2)
                == old(self).ledger.spec_balance(w2, c2) by {
                assert(led0.spec_balance(w2, c2) == old(self).ledger.spec_balance(w2, c2));
            }
            assert forall|c2: CurrencyId|
                #[trigger] self.ledger.spec_issuance(c2) == old(self).ledger.spec_issuance(
                c2,
            ) by {
                assert(led0.spec_issuance(c2) == old(self).ledger.spec_issuance(c2));
            }
            assert forall|c2: CurrencyId|
                c2 != currency_id implies #[trigger] self.treasury.spec_total_collaterals(c2)
                == old(self).treasury.spec_total_collaterals(c2) by {
                assert(tre1.spec_total_collaterals(c2) == tre0.spec_total_collaterals(c2));
                assert(self.treasury.spec_total_collaterals(c2) == tre1.spec_total_collaterals(
                    c2,
                ));
            }
            assert(self.treasury.spec_total_collaterals(currency_id)
                == tre1.spec_total_collaterals(currency_id));
        }
        Ok(
            crate::types::SettlementRecord {
                currency_id,
                owner: who,
                bad_debt_value: dv,
                confiscated_collateral: confiscate,
            },
        )
    }

    /// Final settlement entry point: only available once the global
    /// shutdown switch is on; then settles like
    /// [`Runtime::settle_cdp_has_debit`].
    pub fn settle(&mut self, currency_id: CurrencyId, who: crate::types::AccountId) -> (r: Result<
        crate::types::SettlementRecord,
        Error,
    >)
        requires
            old(self).wf(),
        ensures
            final(self).wf(),
            r is Err ==> *final(self) == *old(self),
            !old(self).emergency_shutdown.is_shutdown ==> r == Err::<
                crate::types::SettlementRecord,
                Error,
            >(Error::MustAfterShutdown),
            final(self).config == old(self).config,
            final(self).params == old(self).params,
            final(self).debit_exchange_rates == old(self).debit_exchange_rates,
            final(self).global_stability_fee == old(self).global_stability_fee,
            final(self).price_source == old(self).price_source,
            final(self).emergency_shutdown == old(self).emergency_shutdown,
            final(self).pools == old(self).pools,
            final(self).auction_manager == old(self).auction_manager,
            old(self).emergency_shutdown.is_shutdown ==> ({
                let stable = old(self).config.stable_currency_id;
                let pos = old(self).lend.spec_position(currency_id, who);
                let rate = old(self).spec_debit_rate(currency_id);
                let sp = old(self).price_source.spec_relative_price(stable, currency_id);
                let totals = old(self).lend.spec_total(currency_id);
                match spec_settle_check(pos, rate, sp) {
                    Err(e) => r == Err::<crate::types::SettlementRecord, Error>(e),
                    Ok(dc) => ({
                        let dv = dc.0;
                        let confiscate = dc.1;
                        if totals.0 < confiscate || totals.1 < pos.debit {
                            r == Err::<crate::types::SettlementRecord, Error>(
                                Error::ArithmeticOverflow,
                            )
                        } else if old(self).treasury.debit_pool + dv > u128::MAX {
                            r == Err::<crate::types::SettlementRecord, Error>(
                                Error::ArithmeticOverflow,
                            )
                        } else if old(self).ledger.spec_balance(
                            crate::world::LOANS_ACCOUNT,
                            currency_id,
                        ) < confiscate {
                            r == Err::<crate::types::SettlementRecord, Error>(
                                Error::BalanceTooLow,
                            )
                        } else if old(self).ledger.spec_balance(
                            crate::world::TREASURY_ACCOUNT,
                            currency_id,
                        ) + confiscate > u128::MAX || old(self).treasury.spec_total_collaterals(
                            currency_id,
                        ) + confiscate > u128::MAX {
                            r == Err::<crate::types::SettlementRecord, Error>(
                                Error::ArithmeticOverflow,
                            )
                        } else {
                            &&& r == Ok::<crate::types::SettlementRecord, Error>(
                                (crate::types::SettlementRecord {
                                    currency_id,
                                    owner: who,
                                    bad_debt_value: dv as Balance,
                                    confiscated_collateral: confiscate as Balance,
                                }),
                            )
                            &&& final(self).lend.spec_position(currency_id, who) == (
                            crate::types::Position {
                                collateral: (pos.collateral - confiscate) as Balance,
                                debit: 0,
                            })
                            &&& final(self).lend.spec_total(currency_id) == ((
                                (totals.0 - confiscate) as Balance,
                                (totals.1 - pos.debit) as Balance,
                            ))
                            &&& forall|c2: CurrencyId, w2: crate::types::AccountId|
                                !(c2 == currency_id && w2 == who) ==> #[trigger] final(self).lend.spec_position(c2, w2) == old(self).lend.spec_position(
                                    c2,
                                    w2,
                                )
                            &&& forall|c2: CurrencyId|
                                c2 != currency_id ==> #[trigger] final(self).lend.spec_total(c2)
                                    == old(self).lend.spec_total(c2)
                            &&& final(self).treasury.debit_pool == old(self).treasury.debit_pool
                                + dv
                            &&& final(self).treasury.surplus_pool == old(self).treasury.surplus_pool
                            &&& final(self).treasury.spec_total_collaterals(currency_id) == old(self).treasury.spec_total_collaterals(currency_id) + confiscate
                            &&& forall|c2: CurrencyId|
                                c2 != currency_id ==> #[trigger] final(self).treasury.spec_total_collaterals(c2) == old(self).treasury.spec_total_collaterals(c2)
                            &&& final(self).ledger.spec_balance(
                                crate::world::LOANS_ACCOUNT,
                                currency_id,
                            ) == old(self).ledger.spec_balance(
                                crate::world::LOANS_ACCOUNT,
                                currency_id,
                            ) - confiscate
                            &&& final(self).ledger.spec_balance(
                                crate::world::TREASURY_ACCOUNT,
                                currency_id,
                            ) == old(self).ledger.spec_balance(
                                crate::world::TREASURY_ACCOUNT,
                                currency_id,
                            ) + confiscate
                            &&& forall|w2: crate::types::AccountId, c2: CurrencyId|
                                !((w2 == crate::world::LOANS_ACCOUNT || w2
                                    == crate::world::TREASURY_ACCOUNT) && c2 == currency_id)
                                    ==> #[trigger] final(self).ledger.spec_balance(w2, c2) == old(self).ledger.spec_balance(w2, c2)
                            &&& forall|c2: CurrencyId|
                                #[trigger] final(self).ledger.spec_issuance(c2) == old(self).ledger.spec_issuance(c2)
                        }
                    }),
                }
            }),
    {
        if !self.emergency_shutdown.is_shutdown() {
            return Err(Error::MustAfterShutdown);
        }
        self.settle_cdp_has_debit(who, currency_id)
    }

    /// Completion callback for a collateral auction: the winning
    /// payment arrives in the treasury's surplus pool and the sold
    /// collateral leaves its custody.  A callback for an unknown (or
    /// already handled) auction is accepted and changes nothing, so
    /// duplicate deliveries are harmless.
    pub fn on_auction_ended(&mut self, auction_id: crate::types::AuctionId, winning_payment: Balance) -> (r:
        Result<(), Error>)
        requires
            old(self).wf(),
        ensures
            final(self).wf(),
            final(self).config == old(self).config,
            final(self).params == old(self).params,
            final(self).debit_exchange_rates == old(self).debit_exchange_rates,
            final(self).global_stability_fee == old(self).global_stability_fee,
            final(self).price_source == old(self).price_source,
            final(self).emergency_shutdown == old(self).emergency_shutdown,
            final(self).pools == old(self).pools,
            final(self).lend == old(self).lend,
            r is Err ==> *final(self) == *old(self),
            ({
                let stable = old(self).config.stable_currency_id;
                match crate::auction::spec_find_auction(
                    old(self).auction_manager.auctions@,
                    auction_id,
                ) {
                    None => r == Ok::<(), Error>(()) && *final(self) == *old(self),
                    Some(a) => ({
                        if a.currency_id == stable {
                            r == Err::<(), Error>(Error::ArithmeticOverflow)
                        } else if old(self).treasury.surplus_pool + winning_payment > u128::MAX
                            || old(self).ledger.spec_balance(
                            crate::world::TREASURY_ACCOUNT,
                            stable,
                        ) + winning_payment > u128::MAX || old(self).ledger.spec_issuance(stable)
                            + winning_payment > u128::MAX {
                            r == Err::<(), Error>(Error::ArithmeticOverflow)
                        } else if old(self).ledger.spec_balance(
                            crate::world::TREASURY_ACCOUNT,
                            a.currency_id,
                        ) < a.amount || old(self).ledger.spec_issuance(a.currency_id) < a.amount {
                            r == Err::<(), Error>(Error::BalanceTooLow)
                        } else if old(self).treasury.spec_total_collaterals(a.currency_id)
                            < a.amount {
                            r == Err::<(), Error>(Error::ArithmeticOverflow)
                        } else {
                            &&& r == Ok::<(), Error>(())
                            &&& crate::auction::spec_find_auction(
                                final(self).auction_manager.auctions@,
                                auction_id,
                            ) is None
                            &&& forall|id2: crate::types::AuctionId|
                                id2 != auction_id ==> #[trigger] crate::auction::spec_find_auction(
                                    final(self).auction_manager.auctions@,
                                    id2,
                                ) == crate::auction::spec_find_auction(
                                    old(self).auction_manager.auctions@,
                                    id2,
                                )
                            &&& final(self).treasury.surplus_pool == old(self).treasury.surplus_pool + winning_payment
                            &&& final(self).treasury.debit_pool == old(self).treasury.debit_pool
                            &&& final(self).treasury.spec_total_collaterals(a.currency_id)
                                == old(self).treasury.spec_total_collaterals(a.currency_id)
                                - a.amount
                            &&& forall|c2: CurrencyId|
                                c2 != a.currency_id ==> #[trigger] final(self).treasury.spec_total_collaterals(c2) == old(self).treasury.spec_total_collaterals(c2)
                            &&& final(self).ledger.spec_balance(
                                crate::world::TREASURY_ACCOUNT,
                                a.currency_id,
                            ) == old(self).ledger.spec_balance(
                                crate::world::TREASURY_ACCOUNT,
                                a.currency_id,
                            ) - a.amount
                            &&& final(self).ledger.spec_balance(
                                crate::world::TREASURY_ACCOUNT,
                                stable,
                            ) == old(self).ledger.spec_balance(
                                crate::world::TREASURY_ACCOUNT,
                                stable,
                            ) + winning_payment
                            &&& forall|w2: crate::types::AccountId, c2: CurrencyId|
                                !(w2 == crate::world::TREASURY_ACCOUNT && (c2 == a.currency_id
                                    || c2 == stable)) ==> #[trigger] final(self).ledger.spec_balance(w2, c2) == old(self).ledger.spec_balance(
                                    w2,
                                    c2,
                                )
                        }
                    }),
                }
            }),
    {
        let stable = self.config.stable_currency_id;
        let found = self.auction_manager.collateral_auctions(auction_id);
        let a = match found {
            Some(a) => a,
            None => {
                return Ok(());
            },
        };
        if a.currency_id == stable {
            return Err(Error::ArithmeticOverflow);
        }
        let tr_s = self.ledger.free_balance(crate::world::TREASURY_ACCOUNT, stable);
        let iss_s = self.ledger.total_issuance(stable);
        if winning_payment > u128::MAX - self.treasury.surplus_pool || winning_payment
            > u128::MAX - tr_s || winning_payment > u128::MAX - iss_s {
            return Err(Error::ArithmeticOverflow);
        }
        let tr_c = self.ledger.free_balance(crate::world::TREASURY_ACCOUNT, a.currency_id);
        let iss_c = self.ledger.total_issuance(a.currency_id);
        if tr_c < a.amount || iss_c < a.amount {
            return Err(Error::BalanceTooLow);
        }
        let tot_c = self.treasury.total_collaterals(a.currency_id);
        if tot_c < a.amount {
            return Err(Error::ArithmeticOverflow);
        }
        let taken = self.auction_manager.take_auction(auction_id);
        proof {
            assert(taken == Some(a));
        }
        let ghost led0 = self.ledger;
        self.ledger.burn(crate::world::TREASURY_ACCOUNT, a.currency_id, a.amount);
        let ghost tre0 = self.treasury;
        self.treasury.sub_collateral(a.currency_id, a.amount);
        let ghost tre1 = self.treasury;
        self.treasury.on_system_surplus(winning_payment);
        self.ledger.mint(crate::world::TREASURY_ACCOUNT, stable, winning_payment);
        proof {
            assert forall|w2: crate::types::AccountId, c2: CurrencyId|
                !(w2 == crate::world::TREASURY_ACCOUNT && (c2 == a.currency_id || c2 == stable))
                implies #[trigger] self.ledger.spec_balance(w2, c2) == old(self).ledger.spec_balance(w2, c2) by {
                assert(led0.spec_balance(w2, c2) == old(self).ledger.spec_balance(w2, c2));
                assert(self.ledger.spec_balance(w2, c2) == led0.spec_balance(w2, c2));
            }
            assert forall|c2: CurrencyId|
                c2 != a.currency_id implies #[trigger] self.treasury.spec_total_collaterals(c2)
                == old(self).treasury.spec_total_collaterals(c2) by {
                assert(tre1.spec_total_collaterals(c2) == tre0.spec_total_collaterals(c2));
                assert(self.treasury.spec_total_collaterals(c2) == tre1.spec_total_collaterals(
                    c2,
                ));
            }
            assert(self.treasury.spec_total_collaterals(a.currency_id)
                == tre1.spec_total_collaterals(a.currency_id));
            assert(led0.spec_balance(crate::world::TREASURY_ACCOUNT, stable) == old(self).ledger.spec_balance(crate::world::TREASURY_ACCOUNT, stable));
            assert(led0.spec_balance(crate::world::TREASURY_ACCOUNT, a.currency_id) == old(self).ledger.spec_balance(crate::world::TREASURY_ACCOUNT, a.currency_id));
        }
        Ok(())
    }

    /// Move collateral from an account into the treasury's custody.
    pub fn deposit_collateral(&mut self, from: crate::types::AccountId, c: CurrencyId, amount: Balance) -> (r:
        Result<(), Error>)
        requires
            old(self).wf(),
        ensures
            final(self).wf(),
            final(self).config == old(self).config,
            final(self).params == old(self).params,
            final(self).debit_exchange_rates == old(self).debit_exchange_rates,
            final(self).global_stability_fee == old(self).global_stability_fee,
            final(self).price_source == old(self).price_source,
            final(self).emergency_shutdown == old(self).emergency_shutdown,
            final(self).pools == old(self).pools,
            final(self).lend == old(self).lend,
            final(self).auction_manager == old(self).auction_manager,
            r is Err ==> *final(self) == *old(self),
            ({
                if old(self).ledger.spec_balance(from, c) < amount {
                    r == Err::<(), Error>(Error::BalanceTooLow)
                } else if (from != crate::world::TREASURY_ACCOUNT && old(self).ledger.spec_balance(crate::world::TREASURY_ACCOUNT, c) + amount > u128::MAX)
                    || old(self).treasury.spec_total_collaterals(c) + amount > u128::MAX {
                    r == Err::<(), Error>(Error::ArithmeticOverflow)
                } else {
                    &&& r == Ok::<(), Error>(())
                    &&& final(self).treasury.spec_total_collaterals(c) == old(self).treasury.spec_total_collaterals(c) + amount
                    &&& forall|c2: CurrencyId|
                        c2 != c ==> #[trigger] final(self).treasury.spec_total_collaterals(c2)
                            == old(self).treasury.spec_total_collaterals(c2)
                    &&& final(self).treasury.debit_pool == old(self).treasury.debit_pool
                    &&& final(self).treasury.surplus_pool == old(self).treasury.surplus_pool
                    &&& from != crate::world::TREASURY_ACCOUNT ==> {
                        &&& final(self).ledger.spec_balance(from, c) == old(self).ledger.spec_balance(from, c) - amount
                        &&& final(self).ledger.spec_balance(crate::world::TREASURY_ACCOUNT, c)
                            == old(self).ledger.spec_balance(crate::world::TREASURY_ACCOUNT, c)
                            + amount
                    }
                    &&& forall|w2: crate::types::AccountId, c2: CurrencyId|
                        !((w2 == from || w2 == crate::world::TREASURY_ACCOUNT) && c2 == c)
                            ==> #[trigger] final(self).ledger.spec_balance(w2, c2) == old(self).ledger.spec_balance(w2, c2)
                    &&& forall|c2: CurrencyId|
                        #[trigger] final(self).ledger.spec_issuance(c2) == old(self).ledger.spec_issuance(c2)
                }
            }),
    {
        let b = self.ledger.free_balance(from, c);
        if b < amount {
            return Err(Error::BalanceTooLow);
        }
        if from != crate::world::TREASURY_ACCOUNT {
            let tb = self.ledger.free_balance(crate::world::TREASURY_ACCOUNT, c);
            if amount > u128::MAX - tb {
                return Err(Error::ArithmeticOverflow);
            }
        }
        let tot = self.treasury.total_collaterals(c);
        if amount > u128::MAX - tot {
            return Err(Error::ArithmeticOverflow);
        }
        self.ledger.transfer(from, crate::world::TREASURY_ACCOUNT, c, amount);
        self.treasury.add_collateral(c, amount);
        Ok(())
    }

    /// Permissionless liquidation entry point: behaves exactly like
    /// [`Runtime::liquidate_unsafe_cdp`], and remains available after
    /// the emergency shutdown.
    pub fn liquidate(&mut self, currency_id: CurrencyId, who: crate::types::AccountId) -> (r:
        Result<crate::types::LiquidationRecord, Error>)
        requires
            old(self).wf(),
        ensures
            final(self).wf(),
            final(self).config == old(self).config,
            final(self).params == old(self).params,
            final(self).debit_exchange_rates == old(self).debit_exchange_rates,
            final(self).global_stability_fee == old(self).global_stability_fee,
            final(self).price_source == old(self).price_source,
            final(self).emergency_shutdown == old(self).emergency_shutdown,
            r is Err ==> *final(self) == *old(self),
            // the strategy is a pure function of pool depth, the
            // slippage bound, the seized collateral and the owed value
            (match r {
                Ok(rec) => rec.strategy == (if spec_exchange_viable(
                    old(self).spec_reserves(currency_id, old(self).config.stable_currency_id).0
                        as int,
                    old(self).spec_reserves(currency_id, old(self).config.stable_currency_id).1
                        as int,
                    old(self).config.max_slippage_swap_with_exchange.bits as int,
                    rec.collateral_seized as int,
                    rec.debit_value_owed as int,
                    old(self).config.exchange_fee.0 as int,
                    old(self).config.exchange_fee.1 as int,
                ) {
                    crate::types::LiquidationStrategy::Exchange
                } else {
                    crate::types::LiquidationStrategy::Auction
                }),
                Err(_) => true,
            }),
            ({
                let stable = old(self).config.stable_currency_id;
                let pos = old(self).lend.spec_position(currency_id, who);
                let rate = old(self).spec_debit_rate(currency_id);
                let params = old(self).spec_collateral_params(currency_id);
                let price = old(self).price_source.spec_relative_price(currency_id, stable);
                let totals = old(self).lend.spec_total(currency_id);
                let rsv = old(self).spec_reserves(currency_id, stable);
                let slip = old(self).config.max_slippage_swap_with_exchange.bits;
                let fee_n = old(self).config.exchange_fee.0 as int;
                let fee_d = old(self).config.exchange_fee.1 as int;
                match spec_liquidate_check(pos, rate, params.liquidation_ratio, price) {
                    Err(e) => r == Err::<crate::types::LiquidationRecord, Error>(e),
                    Ok(co) => ({
                        let seized = co.0;
                        let owed = co.1;
                        let viable = spec_exchange_viable(
                            rsv.0 as int,
                            rsv.1 as int,
                            slip as int,
                            seized,
                            owed,
                            fee_n,
                            fee_d,
                        );
                        if totals.0 < seized || totals.1 < pos.debit {
                            r == Err::<crate::types::LiquidationRecord, Error>(
                                Error::ArithmeticOverflow,
                            )
                        } else if old(self).treasury.debit_pool + owed > u128::MAX {
                            r == Err::<crate::types::LiquidationRecord, Error>(
                                Error::ArithmeticOverflow,
                            )
                        } else if old(self).ledger.spec_balance(
                            crate::world::LOANS_ACCOUNT,
                            currency_id,
                        ) < seized {
                            r == Err::<crate::types::LiquidationRecord, Error>(
                                Error::BalanceTooLow,
                            )
                        } else if viable {
                            let out = crate::exchange::spec_swap_target(
                                rsv.0 as int,
                                rsv.1 as int,
                                seized,
                                fee_n,
                                fee_d,
                            );
                            if old(self).ledger.spec_balance(
                                crate::world::EXCHANGE_ACCOUNT,
                                currency_id,
                            ) + seized > u128::MAX {
                                r == Err::<crate::types::LiquidationRecord, Error>(
                                    Error::ArithmeticOverflow,
                                )
                            } else if old(self).ledger.spec_balance(
                                crate::world::EXCHANGE_ACCOUNT,
                                stable,
                            ) < out {
                                r == Err::<crate::types::LiquidationRecord, Error>(
                                    Error::BalanceTooLow,
                                )
                            } else if old(self).ledger.spec_balance(
                                crate::world::TREASURY_ACCOUNT,
                                stable,
                            ) + out > u128::MAX || old(self).treasury.surplus_pool + out
                                > u128::MAX {
                                r == Err::<crate::types::LiquidationRecord, Error>(
                                    Error::ArithmeticOverflow,
                                )
                            } else {
                                &&& r == Ok::<crate::types::LiquidationRecord, Error>(
                                    (crate::types::LiquidationRecord {
                                        currency_id,
                                        owner: who,
                                        collateral_seized: seized as Balance,
                                        debit_value_owed: owed as Balance,
                                        strategy: crate::types::LiquidationStrategy::Exchange,
                                    }),
                                )
                                &&& final(self).lend.spec_position(currency_id, who) == (
                                crate::types::Position { collateral: 0, debit: 0 })
                                &&& final(self).lend.spec_total(currency_id) == ((
                                    (totals.0 - seized) as Balance,
                                    (totals.1 - pos.debit) as Balance,
                                ))
                                &&& final(self).spec_reserves(currency_id, stable) == ((
                                    (rsv.0 + seized) as Balance,
                                    (rsv.1 - out) as Balance,
                                ))
                                &&& final(self).treasury.surplus_pool == old(self).treasury.surplus_pool + out
                                &&& final(self).treasury.debit_pool == old(self).treasury.debit_pool + owed
                                &&& final(self).treasury.total_collaterals == old(self).treasury.total_collaterals
                                &&& final(self).auction_manager == old(self).auction_manager
                                &&& final(self).ledger.spec_balance(
                                    crate::world::LOANS_ACCOUNT,
                                    currency_id,
                                ) == old(self).ledger.spec_balance(
                                    crate::world::LOANS_ACCOUNT,
                                    currency_id,
                                ) - seized
                                &&& final(self).ledger.spec_balance(
                                    crate::world::EXCHANGE_ACCOUNT,
                                    currency_id,
                                ) == old(self).ledger.spec_balance(
                                    crate::world::EXCHANGE_ACCOUNT,
                                    currency_id,
                                ) + seized
                                &&& final(self).ledger.spec_balance(
                                    crate::world::EXCHANGE_ACCOUNT,
                                    stable,
                                ) == old(self).ledger.spec_balance(
                                    crate::world::EXCHANGE_ACCOUNT,
                                    stable,
                                ) - out
                                &&& final(self).ledger.spec_balance(
                                    crate::world::TREASURY_ACCOUNT,
                                    stable,
                                ) == old(self).ledger.spec_balance(
                                    crate::world::TREASURY_ACCOUNT,
                                    stable,
                                ) + out
                            }
                        } else {
                            let pen = match params.liquidation_penalty {
                                Some(p) => mul_div_floor(p.bits as int, owed, FIXED_ONE as int),
                                None => 0,
                            };
                            if pen > u128::MAX || owed + pen > u128::MAX {
                                r == Err::<crate::types::LiquidationRecord, Error>(
                                    Error::ArithmeticOverflow,
                                )
                            } else if old(self).ledger.spec_balance(
                                crate::world::TREASURY_ACCOUNT,
                                currency_id,
                            ) + seized > u128::MAX || old(self).treasury.spec_total_collaterals(
                                currency_id,
                            ) + seized > u128::MAX {
                                r == Err::<crate::types::LiquidationRecord, Error>(
                                    Error::ArithmeticOverflow,
                                )
                            } else if old(self).auction_manager.next_id
                                == crate::types::AuctionId::MAX || crate::auction::spec_auction_total(
                                old(self).auction_manager.auctions@,
                                currency_id,
                            ) + seized > u128::MAX {
                                r == Err::<crate::types::LiquidationRecord, Error>(
                                    Error::ArithmeticOverflow,
                                )
                            } else {
                                &&& r == Ok::<crate::types::LiquidationRecord, Error>(
                                    (crate::types::LiquidationRecord {
                                        currency_id,
                                        owner: who,
                                        collateral_seized: seized as Balance,
                                        debit_value_owed: owed as Balance,
                                        strategy: crate::types::LiquidationStrategy::Auction,
                                    }),
                                )
                                &&& final(self).lend.spec_position(currency_id, who) == (
                                crate::types::Position { collateral: 0, debit: 0 })
                                &&& final(self).lend.spec_total(currency_id) == ((
                                    (totals.0 - seized) as Balance,
                                    (totals.1 - pos.debit) as Balance,
                                ))
                                &&& final(self).pools == old(self).pools
                                &&& final(self).treasury.surplus_pool == old(self).treasury.surplus_pool
                                &&& final(self).treasury.debit_pool == old(self).treasury.debit_pool + owed
                                &&& final(self).treasury.spec_total_collaterals(currency_id)
                                    == old(self).treasury.spec_total_collaterals(currency_id)
                                    + seized
                                &&& forall|c2: CurrencyId|
                                    c2 != currency_id ==> #[trigger] final(self).treasury.spec_total_collaterals(c2) == old(self).treasury.spec_total_collaterals(c2)
                                &&& final(self).auction_manager.next_id == old(self).auction_manager.next_id + 1
                                &&& final(self).auction_manager.auctions@ == old(self).auction_manager.auctions@.push(
                                    (crate::types::CollateralAuction {
                                        id: old(self).auction_manager.next_id,
                                        refund_recipient: who,
                                        currency_id,
                                        amount: seized as Balance,
                                        target: (owed + pen) as Balance,
                                    }),
                                )
                                &&& final(self).ledger.spec_balance(
                                    crate::world::LOANS_ACCOUNT,
                                    currency_id,
                                ) == old(self).ledger.spec_balance(
                                    crate::world::LOANS_ACCOUNT,
                                    currency_id,
                                ) - seized
                                &&& final(self).ledger.spec_balance(
                                    crate::world::TREASURY_ACCOUNT,
                                    currency_id,
                                ) == old(self).ledger.spec_balance(
                                    crate::world::TREASURY_ACCOUNT,
                                    currency_id,
                                ) + seized
                            }
                        }
                    }),
                }
            }),
            // untouched positions, totals, balances and issuance
            r is Ok ==> {
                &&& forall|c2: CurrencyId, w2: crate::types::AccountId|
                    !(c2 == currency_id && w2 == who) ==> #[trigger] final(self).lend.spec_position(c2, w2) == old(self).lend.spec_position(c2, w2)
                &&& forall|c2: CurrencyId|
                    c2 != currency_id ==> #[trigger] final(self).lend.spec_total(c2) == old(self).lend.spec_total(c2)
                &&& forall|w2: crate::types::AccountId, c2: CurrencyId|
                    !((w2 == crate::world::LOANS_ACCOUNT || w2 == crate::world::EXCHANGE_ACCOUNT
                        || w2 == crate::world::TREASURY_ACCOUNT) && (c2 == currency_id || c2
                        == old(self).config.stable_currency_id)) ==> #[trigger] final(self).ledger.spec_balance(w2, c2) == old(self).ledger.spec_balance(w2, c2)
                &&& forall|c2: CurrencyId|
                    #[trigger] final(self).ledger.spec_issuance(c2) == old(self).ledger.spec_issuance(c2)
            },
    {
        self.liquidate_unsafe_cdp(who, currency_id)
    }

    /// Accrue one period of interest on a collateral type's debit
    /// exchange rate: the rate grows by itself times the global plus
    /// per-type stability fee.  The rate never decreases; accrual
    /// stops after shutdown and for types with no stability fee set.
    pub fn accumulate_interest(&mut self, c: CurrencyId) -> (r: Result<(), Error>)
        requires
            old(self).wf(),
        ensures
            final(self).wf(),
            final(self).config == old(self).config,
            final(self).ledger == old(self).ledger,
            final(self).lend == old(self).lend,
            final(self).params == old(self).params,
            final(self).global_stability_fee == old(self).global_stability_fee,
            final(self).treasury == old(self).treasury,
            final(self).pools == old(self).pools,
            final(self).price_source == old(self).price_source,
            final(self).auction_manager == old(self).auction_manager,
            final(self).emergency_shutdown == old(self).emergency_shutdown,
            r is Err ==> *final(self) == *old(self),
            // the debit exchange rate is monotonic non-decreasing
            final(self).spec_debit_rate(c) >= old(self).spec_debit_rate(c),
            forall|c2: CurrencyId|
                c2 != c ==> #[trigger] final(self).spec_debit_rate(c2) == old(
                    self,
                ).spec_debit_rate(c2),
            ({
                let rate = old(self).spec_debit_rate(c);
                match old(self).spec_collateral_params(c).stability_fee {
                    None => r == Ok::<(), Error>(()) && *final(self) == *old(self),
                    Some(fee) => if old(self).emergency_shutdown.is_shutdown {
                        r == Ok::<(), Error>(()) && *final(self) == *old(self)
                    } else if old(self).global_stability_fee.bits + fee.bits > u128::MAX {
                        r == Err::<(), Error>(Error::ArithmeticOverflow)
                    } else {
                        let inc = mul_div_floor(
                            rate,
                            old(self).global_stability_fee.bits + fee.bits,
                            FIXED_ONE as int,
                        );
                        if rate + inc > u128::MAX {
                            r == Err::<(), Error>(Error::ArithmeticOverflow)
                        } else {
                            r == Ok::<(), Error>(()) && final(self).spec_debit_rate(c) == rate
                                + inc
                        }
                    },
                }
            }),
    {
        let params = self.collateral_params(c);
        let fee = match params.stability_fee {
            Some(f) => f,
            None => {
                return Ok(());
            },
        };
        if self.emergency_shutdown.is_shutdown() {
            return Ok(());
        }
        if fee.bits > u128::MAX - self.global_stability_fee.bits {
            return Err(Error::ArithmeticOverflow);
        }
        let total_fee = self.global_stability_fee.bits + fee.bits;
        let rate = self.get_debit_exchange_rate(c);
        let inc = match mul_div(rate.bits, total_fee, FIXED_ONE) {
            Some(v) => v,
            None => {
                return Err(Error::ArithmeticOverflow);
            },
        };
        if inc > u128::MAX - rate.bits {
            return Err(Error::ArithmeticOverflow);
        }
        self.debit_exchange_rates.set(c, FixedU128 { bits: rate.bits + inc });
        proof {
            vstd::arithmetic::div_mod::lemma_div_pos_is_pos(
                rate.bits as int * total_fee as int,
                FIXED_ONE as int,
            );
            vstd::arithmetic::mul::lemma_mul_nonnegative(rate.bits as int, total_fee as int);
        }
        Ok(())
    }

    /// Privileged update of the global stability fee.
    pub fn set_global_params(&mut self, global_stability_fee: Rate)
        ensures
            *final(self) == (Runtime { global_stability_fee, ..*old(self) }),
    {
        self.global_stability_fee = global_stability_fee;
    }
}

} // verus!
