//! Core identifiers, amounts, parameter records and error codes of the
//! risk engine.

use crate::fixed::{Rate, Ratio};
use vstd::prelude::*;

verus! {

/// Account identifier of the host ledger.
pub type AccountId = u128;

/// Unsigned amount of some currency, in raw units.
pub type Balance = u128;

/// Signed adjustment to a balance or position field.
pub type Amount = i128;

/// Identifier of a collateral auction.
pub type AuctionId = u32;

/// Symbol of a registered token.
#[derive(Clone, Copy, Debug, PartialEq, Eq, Structural)]
pub enum TokenSymbol {
    DOS,
    AUSD,
    XBTC,
    DOT,
    LDOT,
}

/// Identifier of a currency: either a plain token, or the share token
/// minted for the liquidity pool of an ordered pair of tokens.
#[derive(Clone, Copy, Debug, PartialEq, Eq, Structural)]
pub enum CurrencyId {
    Token(TokenSymbol),
    ExchangeShare(TokenSymbol, TokenSymbol),
}

/// A per-field update instruction for a privileged parameter change:
/// either leave the field as it is or set it to the given value.
#[derive(Clone, Copy, Debug)]
pub enum Change<T> {
    NoChange,
    NewValue(T),
}

/// Risk parameters of one collateral type.  An unset optional field
/// disables the corresponding check.
#[derive(Clone, Copy, Debug, PartialEq, Eq, Structural)]
pub struct RiskParameters {
    /// Interest accrued on the debit exchange rate each period.
    pub stability_fee: Option<Rate>,
    /// Positions whose collateral ratio falls below this are unsafe.
    pub liquidation_ratio: Option<Ratio>,
    /// Surcharge applied to the auction target on liquidation.
    pub liquidation_penalty: Option<Rate>,
    /// Floor a position's ratio must meet after any adjustment.
    pub required_collateral_ratio: Option<Ratio>,
    /// Aggregate debt-value cap for the collateral type.
    pub maximum_total_debit_value: Balance,
}

impl RiskParameters {
    /// Parameters of an unregistered collateral type: no checks are
    /// enabled and the debt ceiling is zero.
    pub fn unset() -> (r: Self)
        ensures
            r == (RiskParameters {
                stability_fee: None,
                liquidation_ratio: None,
                liquidation_penalty: None,
                required_collateral_ratio: None,
                maximum_total_debit_value: 0,
            }),
    {
        RiskParameters {
            stability_fee: None,
            liquidation_ratio: None,
            liquidation_penalty: None,
            required_collateral_ratio: None,
            maximum_total_debit_value: 0,
        }
    }
}

/// One account's position under one collateral type.
#[derive(Clone, Copy, Debug, PartialEq, Eq, Structural)]
pub struct Position {
    pub collateral: Balance,
    pub debit: Balance,
}

impl Position {
    pub fn empty() -> (r: Self)
        ensures
            r == (Position { collateral: 0, debit: 0 }),
    {
        Position { collateral: 0, debit: 0 }
    }
}

/// Which liquidation path settled an unsafe position.
#[derive(Clone, Copy, Debug, PartialEq, Eq, Structural)]
pub enum LiquidationStrategy {
    /// Collateral was put up for auction; settlement is asynchronous.
    Auction,
    /// Collateral was swapped on the exchange and the debt settled
    /// immediately.
    Exchange,
}

/// Record emitted by a successful liquidation.
#[derive(Clone, Copy, Debug, PartialEq, Eq, Structural)]
pub struct LiquidationRecord {
    pub currency_id: CurrencyId,
    pub owner: AccountId,
    pub collateral_seized: Balance,
    pub debit_value_owed: Balance,
    pub strategy: LiquidationStrategy,
}

/// Record emitted by a successful settlement of an indebted position.
#[derive(Clone, Copy, Debug, PartialEq, Eq, Structural)]
pub struct SettlementRecord {
    pub currency_id: CurrencyId,
    pub owner: AccountId,
    pub bad_debt_value: Balance,
    pub confiscated_collateral: Balance,
}

/// A pending collateral auction.
#[derive(Clone, Copy, Debug, PartialEq, Eq, Structural)]
pub struct CollateralAuction {
    pub id: AuctionId,
    pub refund_recipient: AccountId,
    pub currency_id: CurrencyId,
    pub amount: Balance,
    pub target: Balance,
}

/// Why an engine operation was rejected.  Every rejection happens
/// before any state is written.
#[derive(Clone, Copy, Debug, PartialEq, Eq, Structural)]
pub enum Error {
    /// The position's ratio already meets the liquidation ratio.
    AlreadySafe,
    /// Debt-increasing adjustments are frozen after shutdown.
    MustBeforeShutdown,
    /// Final settlement is only available after shutdown.
    MustAfterShutdown,
    /// No oracle price is available for the collateral type.
    InvalidFeedPrice,
    /// The adjusted position would fall below the required ratio.
    BelowRequiredCollateralRatio,
    /// The type's aggregate debt value would exceed its ceiling.
    ExceedDebitValueHardCap,
    /// A nonzero residual debt value would fall below the floor.
    RemainDebitValueTooSmall,
    /// The position carries no debt to settle.
    NoDebitValue,
    /// The deposit would not add liquidity at the pool's ratio.
    InvalidLiquidityIncrement,
    /// The swap's output fell short of the caller's minimum.
    ExcessiveSlippage,
    /// The swap would produce nothing.
    ZeroTargetAmount,
    /// The trading path is empty, repeats a currency, or is longer
    /// than the configured limit.
    InvalidTradingPathLength,
    /// The two currencies do not form a tradable pair with the stable
    /// currency on one side.
    InvalidCurrencyPair,
    /// A balance update would drive an account negative.
    BalanceTooLow,
    /// A withdrawal exceeds the position's collateral.
    CollateralTooLow,
    /// A repayment exceeds the position's debit.
    DebitTooLow,
    /// A computation would overflow; the operation is rejected whole.
    ArithmeticOverflow,
}

} // verus!
