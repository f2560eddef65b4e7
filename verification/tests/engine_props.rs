//! Scenario checks for the engine's stated properties: strategy
//! selection, the end-to-end deposit/mint/settle flow, the debt
//! ceiling, shutdown gating, and one input for every error code.

use cdp_engine::fixed::{FixedU128, Price, Rate, Ratio};
use cdp_engine::types::{Change, CurrencyId, Error, LiquidationStrategy, TokenSymbol};
use cdp_engine::world::{mock_shutdown, ExtBuilder, Runtime};

const ALICE: u128 = 1;
const BOB: u128 = 2;

const AUSD: CurrencyId = CurrencyId::Token(TokenSymbol::AUSD);
const XBTC: CurrencyId = CurrencyId::Token(TokenSymbol::XBTC);
const DOT: CurrencyId = CurrencyId::Token(TokenSymbol::DOT);

fn amount(x: u128) -> u128 {
    x.saturating_mul(Price::accuracy())
}

fn unsafe_position(rt: &mut Runtime, who: u128, collateral: u128, debit: u128) {
    rt.price_source
        .feed_price(XBTC, Price::saturating_from_rational(10000, 1));
    rt.set_collateral_params(
        XBTC,
        Change::NoChange,
        Change::NewValue(Some(Ratio::saturating_from_rational(2, 1))),
        Change::NewValue(Some(Rate::saturating_from_rational(2, 10))),
        Change::NoChange,
        Change::NewValue(amount(10_000_000)),
    );
    assert!(rt
        .adjust_position(who, XBTC, collateral as i128, debit as i128)
        .is_ok());
    rt.set_collateral_params(
        XBTC,
        Change::NoChange,
        Change::NewValue(Some(Ratio::saturating_from_rational(400, 1))),
        Change::NoChange,
        Change::NoChange,
        Change::NoChange,
    );
}

/// With the same seized collateral and owed value, a deep pool takes
/// the exchange path and a shallow one the auction path, with the
/// auction target carrying the penalty surcharge.
#[test]
fn strategy_follows_pool_depth() {
    // deep pool: exchange
    let mut rt = ExtBuilder::default()
        .balances(vec![
            (ALICE, XBTC, amount(10)),
            (BOB, AUSD, amount(10_000_000)),
            (BOB, XBTC, amount(1000)),
        ])
        .build();
    rt.config.max_slippage_swap_with_exchange = Ratio::saturating_from_rational(5, 100);
    assert!(rt
        .add_liquidity(BOB, XBTC, AUSD, amount(1000), amount(10_000_000))
        .is_ok());
    unsafe_position(&mut rt, ALICE, amount(10), amount(500));
    let rec = rt.liquidate_unsafe_cdp(ALICE, XBTC).unwrap();
    assert_eq!(rec.strategy, LiquidationStrategy::Exchange);
    assert_eq!(rt.treasury.debit_pool(), amount(500));

    // shallow pool, same position: auction
    let mut rt = ExtBuilder::default()
        .balances(vec![
            (ALICE, XBTC, amount(10)),
            (BOB, AUSD, amount(1000)),
            (BOB, XBTC, amount(100)),
        ])
        .build();
    rt.config.max_slippage_swap_with_exchange = Ratio::saturating_from_rational(5, 100);
    assert!(rt
        .add_liquidity(BOB, XBTC, AUSD, amount(100), amount(1000))
        .is_ok());
    unsafe_position(&mut rt, ALICE, amount(10), amount(500));
    let rec = rt.liquidate_unsafe_cdp(ALICE, XBTC).unwrap();
    assert_eq!(rec.strategy, LiquidationStrategy::Auction);
    assert_eq!(rt.treasury.debit_pool(), amount(500));
    // target carries the 20% penalty surcharge
    let auction = rt.auction_manager.collateral_auctions(0).unwrap();
    assert_eq!(auction.amount, amount(10));
    assert_eq!(auction.target, amount(500) + amount(100));
    assert_eq!(auction.refund_recipient, ALICE);
}

/// Liquidating an already-healthy position fails `AlreadySafe` and is
/// a no-op, twice over.
#[test]
fn liquidate_healthy_position_is_noop() {
    let mut rt = ExtBuilder::default()
        .balances(vec![(ALICE, XBTC, amount(10))])
        .build();
    rt.price_source
        .feed_price(XBTC, Price::saturating_from_rational(10000, 1));
    rt.set_collateral_params(
        XBTC,
        Change::NoChange,
        Change::NewValue(Some(Ratio::saturating_from_rational(2, 1))),
        Change::NoChange,
        Change::NoChange,
        Change::NewValue(amount(10_000_000)),
    );
    assert!(rt
        .adjust_position(ALICE, XBTC, amount(10) as i128, amount(500) as i128)
        .is_ok());
    let before_pos = rt.lend.positions(XBTC, ALICE);
    let before_pool = rt.treasury.debit_pool();
    assert_eq!(rt.liquidate(XBTC, ALICE), Err(Error::AlreadySafe));
    assert_eq!(rt.liquidate(XBTC, ALICE), Err(Error::AlreadySafe));
    assert_eq!(rt.lend.positions(XBTC, ALICE), before_pos);
    assert_eq!(rt.treasury.debit_pool(), before_pool);
}

/// Deposit 100 units of collateral with no debit, mint 100 units of
/// stable-value debt at price 3 with a required ratio of 1.8, then
/// settle: the debt value moves into the debit pool and a
/// proportional slice of collateral is confiscated.
#[test]
fn deposit_mint_settle_end_to_end() {
    let mut rt = ExtBuilder::default().balances(vec![(ALICE, XBTC, 1000)]).build();
    rt.set_collateral_params(
        XBTC,
        Change::NoChange,
        Change::NoChange,
        Change::NoChange,
        Change::NewValue(Some(Ratio::saturating_from_rational(9, 5))),
        Change::NewValue(1000),
    );
    assert!(rt.adjust_position(ALICE, XBTC, 100, 0).is_ok());
    assert_eq!(rt.ledger.free_balance(ALICE, XBTC), 900);

    rt.price_source
        .feed_price(XBTC, Price::saturating_from_rational(3, 1));
    assert!(rt.adjust_position(ALICE, XBTC, 0, 100).is_ok());
    assert_eq!(rt.ledger.free_balance(ALICE, AUSD), 100);
    assert_eq!(rt.lend.total_positions(XBTC), (100, 100));

    let rec = rt.settle_cdp_has_debit(ALICE, XBTC).unwrap();
    assert_eq!(rec.bad_debt_value, 100);
    assert_eq!(rec.confiscated_collateral, 33);
    assert_eq!(rt.treasury.debit_pool(), 100);
    assert_eq!(rt.lend.positions(XBTC, ALICE).debit, 0);
    assert_eq!(rt.lend.positions(XBTC, ALICE).collateral, 67);
    assert_eq!(rt.lend.total_positions(XBTC), (67, 0));
}

/// With a ceiling of 100,000, a check against 99,999 passes and one
/// against 100,001 fails, without mutating anything.
#[test]
fn debit_ceiling_boundary() {
    let mut rt = ExtBuilder::default().build();
    rt.set_collateral_params(
        XBTC,
        Change::NoChange,
        Change::NoChange,
        Change::NoChange,
        Change::NoChange,
        Change::NewValue(100_000),
    );
    assert_eq!(rt.check_debit_cap(XBTC, 99_999), Ok(()));
    assert_eq!(
        rt.check_debit_cap(XBTC, 100_001),
        Err(Error::ExceedDebitValueHardCap)
    );
    assert_eq!(rt.check_debit_cap(XBTC, 100_000), Ok(()));
}

#[test]
fn shutdown_freezes_debt_increases_only() {
    let mut rt = ExtBuilder::default()
        .balances(vec![(ALICE, XBTC, 1000)])
        .build();
    rt.set_collateral_params(
        XBTC,
        Change::NoChange,
        Change::NoChange,
        Change::NoChange,
        Change::NoChange,
        Change::NewValue(1000),
    );
    assert!(rt.adjust_position(ALICE, XBTC, 100, 10).is_ok());
    assert_eq!(rt.settle(XBTC, ALICE), Err(Error::MustAfterShutdown));
    mock_shutdown(&mut rt);
    assert!(rt.emergency_shutdown.is_shutdown());
    assert_eq!(
        rt.adjust_position(ALICE, XBTC, 0, 10),
        Err(Error::MustBeforeShutdown)
    );
    // withdrawing collateral and repaying debt stay open
    assert!(rt.adjust_position(ALICE, XBTC, -10, -10).is_ok());
    // settlement opens up after shutdown
    rt.price_source
        .feed_price(XBTC, Price::saturating_from_rational(1, 1));
    assert!(rt.adjust_position(ALICE, XBTC, 0, 0).is_ok());
    assert_eq!(rt.settle(XBTC, ALICE), Err(Error::NoDebitValue));
}

#[test]
fn auction_completion_routes_payment_and_is_idempotent() {
    let mut rt = ExtBuilder::default()
        .balances(vec![(ALICE, XBTC, amount(10))])
        .build();
    unsafe_position(&mut rt, ALICE, amount(10), amount(500));
    let rec = rt.liquidate_unsafe_cdp(ALICE, XBTC).unwrap();
    assert_eq!(rec.strategy, LiquidationStrategy::Auction);
    assert_eq!(rt.treasury.total_collaterals(XBTC), amount(10));
    assert_eq!(rt.auction_manager.get_total_collateral_in_auction(XBTC), amount(10));

    assert_eq!(rt.on_auction_ended(0, amount(620)), Ok(()));
    assert_eq!(rt.treasury.surplus_pool(), amount(620));
    assert_eq!(rt.treasury.total_collaterals(XBTC), 0);
    assert!(rt.auction_manager.collateral_auctions(0).is_none());

    // a duplicate delivery changes nothing
    assert_eq!(rt.on_auction_ended(0, amount(620)), Ok(()));
    assert_eq!(rt.treasury.surplus_pool(), amount(620));
    assert_eq!(rt.treasury.total_collaterals(XBTC), 0);
}

#[test]
fn deposit_collateral_moves_custody() {
    let mut rt = ExtBuilder::default()
        .balances(vec![(ALICE, XBTC, 1_000_000)])
        .build();
    assert_eq!(rt.deposit_collateral(ALICE, XBTC, 1_000_000), Ok(()));
    assert_eq!(rt.treasury.total_collaterals(XBTC), 1_000_000);
    assert_eq!(rt.ledger.free_balance(ALICE, XBTC), 0);
    assert_eq!(
        rt.deposit_collateral(ALICE, XBTC, 1),
        Err(Error::BalanceTooLow)
    );
}

#[test]
fn error_inputs() {
    let mut rt = ExtBuilder::default()
        .balances(vec![(ALICE, XBTC, 1000), (ALICE, AUSD, 1000), (BOB, XBTC, 1000)])
        .build();
    rt.set_collateral_params(
        XBTC,
        Change::NoChange,
        Change::NoChange,
        Change::NoChange,
        Change::NoChange,
        Change::NewValue(100_000),
    );

    // the stable currency is no collateral type
    assert_eq!(
        rt.adjust_position(ALICE, AUSD, 10, 0),
        Err(Error::InvalidCurrencyPair)
    );
    // more collateral than the account holds
    assert_eq!(
        rt.adjust_position(ALICE, XBTC, 2000, 0),
        Err(Error::BalanceTooLow)
    );
    // withdrawing from an empty position
    assert_eq!(
        rt.adjust_position(ALICE, XBTC, -1, 0),
        Err(Error::CollateralTooLow)
    );
    // repaying debt that does not exist
    assert_eq!(rt.adjust_position(ALICE, XBTC, 0, -1), Err(Error::DebitTooLow));
    // a residual debt value below the floor of 2
    assert_eq!(
        rt.adjust_position(ALICE, XBTC, 100, 1),
        Err(Error::RemainDebitValueTooSmall)
    );
    // over the ceiling
    assert_eq!(
        rt.adjust_position(ALICE, XBTC, 1000, 200_000),
        Err(Error::ExceedDebitValueHardCap)
    );
    // a required ratio without a price feed
    rt.set_collateral_params(
        XBTC,
        Change::NoChange,
        Change::NoChange,
        Change::NoChange,
        Change::NewValue(Some(Ratio::saturating_from_rational(9, 5))),
        Change::NoChange,
    );
    assert_eq!(
        rt.adjust_position(ALICE, XBTC, 100, 10),
        Err(Error::InvalidFeedPrice)
    );
    // below the required ratio
    rt.price_source
        .feed_price(XBTC, Price::saturating_from_rational(1, 1));
    assert_eq!(
        rt.adjust_position(ALICE, XBTC, 10, 10),
        Err(Error::BelowRequiredCollateralRatio)
    );
    // liquidation without a price feed
    assert_eq!(rt.liquidate(DOT, ALICE), Err(Error::InvalidFeedPrice));
    // settling a debt-free position
    assert_eq!(rt.settle_cdp_has_debit(BOB, XBTC), Err(Error::NoDebitValue));
    // minting into a saturated stable issuance overflows
    let mut rt2 = ExtBuilder::default()
        .balances(vec![(ALICE, AUSD, u128::MAX), (BOB, XBTC, 1000)])
        .build();
    rt2.set_collateral_params(
        XBTC,
        Change::NoChange,
        Change::NoChange,
        Change::NoChange,
        Change::NoChange,
        Change::NewValue(1000),
    );
    assert_eq!(
        rt2.adjust_position(BOB, XBTC, 100, 10),
        Err(Error::ArithmeticOverflow)
    );
}

/// One accrual period at a 10% combined fee lifts the debit exchange
/// rate from 1.0 to exactly 1.1, and accrual never lowers it.
#[test]
fn interest_accrual_raises_debit_exchange_rate() {
    let mut rt = ExtBuilder::default().build();
    // no stability fee set: accrual is a no-op
    assert_eq!(rt.accumulate_interest(XBTC), Ok(()));
    assert_eq!(rt.get_debit_exchange_rate(XBTC), FixedU128::one());

    rt.set_collateral_params(
        XBTC,
        Change::NewValue(Some(Rate::saturating_from_rational(1, 10))),
        Change::NoChange,
        Change::NoChange,
        Change::NoChange,
        Change::NoChange,
    );
    assert_eq!(rt.accumulate_interest(XBTC), Ok(()));
    assert_eq!(
        rt.get_debit_exchange_rate(XBTC),
        FixedU128::saturating_from_rational(11, 10)
    );
    assert_eq!(rt.accumulate_interest(XBTC), Ok(()));
    assert_eq!(
        rt.get_debit_exchange_rate(XBTC),
        FixedU128::saturating_from_rational(121, 100)
    );
    // after shutdown the rate freezes
    mock_shutdown(&mut rt);
    assert_eq!(rt.accumulate_interest(XBTC), Ok(()));
    assert_eq!(
        rt.get_debit_exchange_rate(XBTC),
        FixedU128::saturating_from_rational(121, 100)
    );
}

#[test]
fn price_feed_set_and_clear() {
    let mut rt = ExtBuilder::default().build();
    rt.price_source
        .set_relative_price(XBTC, Some(Price::saturating_from_rational(2, 1)));
    assert_eq!(
        rt.price_source.get_relative_price(XBTC, AUSD),
        Some(Price::saturating_from_rational(2, 1))
    );
    assert_eq!(
        rt.price_source.get_relative_price(AUSD, XBTC),
        Some(Price::saturating_from_rational(1, 2))
    );
    rt.price_source.set_relative_price(XBTC, None);
    assert_eq!(rt.price_source.get_price(XBTC), None);
    assert_eq!(rt.price_source.get_price(AUSD), Some(Price::one()));
    assert_eq!(rt.price_source.get_relative_price(XBTC, AUSD), None);
}

#[test]
fn cancelled_auction_leaves_the_book() {
    let mut rt = ExtBuilder::default()
        .balances(vec![(ALICE, XBTC, amount(10))])
        .build();
    unsafe_position(&mut rt, ALICE, amount(10), amount(500));
    assert!(rt.liquidate_unsafe_cdp(ALICE, XBTC).is_ok());
    assert!(rt.auction_manager.collateral_auctions(0).is_some());
    let a = rt.auction_manager.cancel_auction(0).unwrap();
    assert_eq!(a.amount, amount(10));
    assert!(rt.auction_manager.collateral_auctions(0).is_none());
    assert_eq!(rt.auction_manager.cancel_auction(0), None);
}

#[test]
fn swap_errors() {
    let mut rt = ExtBuilder::default()
        .balances(vec![(ALICE, AUSD, 1_000_000), (ALICE, XBTC, 1_000_000), (BOB, XBTC, 1000)])
        .build();
    assert!(rt
        .add_liquidity(ALICE, XBTC, AUSD, 100_000, 100_000)
        .is_ok());

    // a path must hold two or three distinct currencies
    assert_eq!(
        rt.swap_with_exact_supply(BOB, &vec![XBTC], 10, 0),
        Err(Error::InvalidTradingPathLength)
    );
    assert_eq!(
        rt.swap_with_exact_supply(BOB, &vec![XBTC, AUSD, XBTC], 10, 0),
        Err(Error::InvalidTradingPathLength)
    );
    assert_eq!(
        rt.swap_with_exact_supply(BOB, &vec![XBTC, XBTC], 10, 0),
        Err(Error::InvalidCurrencyPair)
    );
    // an empty pool yields nothing
    assert_eq!(
        rt.swap_with_exact_supply(BOB, &vec![XBTC, DOT], 10, 0),
        Err(Error::ZeroTargetAmount)
    );
    // output below the caller's minimum
    assert_eq!(
        rt.swap_with_exact_supply(BOB, &vec![XBTC, AUSD], 10, 1_000_000),
        Err(Error::ExcessiveSlippage)
    );
    // a successful swap pays out of the pool
    let out = rt.swap_with_exact_supply(BOB, &vec![XBTC, AUSD], 1000, 900).unwrap();
    assert_eq!(out, 990);
    assert_eq!(rt.get_liquidity_pool(XBTC, AUSD), (101_000, 99_010));
    assert_eq!(rt.ledger.free_balance(BOB, AUSD), 990);
}
