//! End-to-end scenarios: position management, liquidation through both
//! paths, and the constant-product exchange.

use cdp_engine::fixed::{FixedU128, Price, Rate, Ratio};
use cdp_engine::types::{Change, CurrencyId, Error, LiquidationStrategy, TokenSymbol};
use cdp_engine::world::ExtBuilder;

const ALICE: u128 = 4;
const BOB: u128 = 5;

const AUSD: CurrencyId = CurrencyId::Token(TokenSymbol::AUSD);
const XBTC: CurrencyId = CurrencyId::Token(TokenSymbol::XBTC);
const SHARE_AUSD_XBTC: CurrencyId = CurrencyId::ExchangeShare(TokenSymbol::AUSD, TokenSymbol::XBTC);

fn amount(x: u128) -> u128 {
    x.saturating_mul(Price::accuracy())
}

/// One tenth, the debit exchange rate the liquidation scenarios run at.
fn tenth() -> FixedU128 {
    FixedU128::saturating_from_rational(1, 10)
}

#[test]
fn liquidate_cdp() {
    let mut rt = ExtBuilder::default()
        .balances(vec![
            (ALICE, XBTC, amount(10)),
            (BOB, AUSD, amount(1_000_000)),
            (BOB, XBTC, amount(101)),
        ])
        .build();
    rt.config.default_debit_exchange_rate = tenth();
    rt.config.max_slippage_swap_with_exchange = Ratio::saturating_from_rational(5, 100);

    rt.price_source
        .feed_price(XBTC, Price::saturating_from_rational(10000, 1));

    assert!(rt
        .add_liquidity(BOB, XBTC, AUSD, amount(100), amount(1_000_000))
        .is_ok());

    rt.set_collateral_params(
        XBTC,
        Change::NewValue(Some(Rate::zero())),
        Change::NewValue(Some(Ratio::saturating_from_rational(200, 100))),
        Change::NewValue(Some(Rate::saturating_from_rational(20, 100))),
        Change::NewValue(Some(Ratio::saturating_from_rational(200, 100))),
        Change::NewValue(amount(1_000_000)),
    );

    assert!(rt
        .adjust_position(ALICE, XBTC, amount(10) as i128, amount(500_000) as i128)
        .is_ok());
    assert!(rt
        .adjust_position(BOB, XBTC, amount(1) as i128, amount(50_000) as i128)
        .is_ok());

    assert_eq!(rt.lend.positions(XBTC, ALICE).debit, amount(500_000));
    assert_eq!(rt.lend.positions(XBTC, ALICE).collateral, amount(10));
    assert_eq!(rt.lend.positions(XBTC, BOB).debit, amount(50_000));
    assert_eq!(rt.lend.positions(XBTC, BOB).collateral, amount(1));
    assert_eq!(rt.treasury.debit_pool(), 0);
    assert!(rt.auction_manager.collateral_auctions(0).is_none());

    rt.set_collateral_params(
        XBTC,
        Change::NoChange,
        Change::NewValue(Some(Ratio::saturating_from_rational(400, 100))),
        Change::NoChange,
        Change::NewValue(Some(Ratio::saturating_from_rational(400, 100))),
        Change::NoChange,
    );

    let rec = rt.liquidate_unsafe_cdp(ALICE, XBTC).unwrap();
    assert_eq!(rec.currency_id, XBTC);
    assert_eq!(rec.owner, ALICE);
    assert_eq!(rec.collateral_seized, amount(10));
    assert_eq!(rec.debit_value_owed, amount(50_000));
    assert_eq!(rec.strategy, LiquidationStrategy::Auction);

    assert_eq!(rt.lend.positions(XBTC, ALICE).debit, 0);
    assert_eq!(rt.lend.positions(XBTC, ALICE).collateral, 0);
    assert!(rt.auction_manager.collateral_auctions(0).is_some());
    assert_eq!(rt.treasury.debit_pool(), amount(50_000));

    let rec = rt.liquidate_unsafe_cdp(BOB, XBTC).unwrap();
    assert_eq!(rec.currency_id, XBTC);
    assert_eq!(rec.owner, BOB);
    assert_eq!(rec.collateral_seized, amount(1));
    assert_eq!(rec.debit_value_owed, amount(5_000));
    assert_eq!(rec.strategy, LiquidationStrategy::Exchange);

    assert_eq!(rt.lend.positions(XBTC, BOB).debit, 0);
    assert_eq!(rt.lend.positions(XBTC, BOB).collateral, 0);
    assert_eq!(rt.treasury.debit_pool(), amount(55_000));
    assert!(rt.treasury.surplus_pool() >= amount(5_000));
}

#[test]
fn test_exchange_module() {
    let mut rt = ExtBuilder::default()
        .balances(vec![
            (ALICE, AUSD, 1_000_000_000_000_000_000u128),
            (ALICE, XBTC, 1_000_000_000_000_000_000u128),
            (BOB, AUSD, 1_000_000_000_000_000_000u128),
            (BOB, XBTC, 1_000_000_000_000_000_000u128),
        ])
        .build();

    assert_eq!(rt.get_liquidity_pool(XBTC, AUSD), (0, 0));
    assert_eq!(rt.ledger.total_issuance(SHARE_AUSD_XBTC), 0);
    assert_eq!(rt.ledger.free_balance(ALICE, SHARE_AUSD_XBTC), 0);

    assert_eq!(
        rt.add_liquidity(ALICE, XBTC, AUSD, 0, 10000000),
        Err(Error::InvalidLiquidityIncrement)
    );

    assert_eq!(rt.add_liquidity(ALICE, XBTC, AUSD, 10000, 10000000), Ok(10000000));
    assert_eq!(rt.get_liquidity_pool(XBTC, AUSD), (10000, 10000000));
    assert_eq!(rt.ledger.total_issuance(SHARE_AUSD_XBTC), 10000000);
    assert_eq!(rt.ledger.free_balance(ALICE, SHARE_AUSD_XBTC), 10000000);

    assert_eq!(rt.add_liquidity(BOB, XBTC, AUSD, 1, 1000), Ok(1000));
    assert_eq!(rt.get_liquidity_pool(XBTC, AUSD), (10001, 10001000));
    assert_eq!(rt.ledger.total_issuance(SHARE_AUSD_XBTC), 10001000);
    assert_eq!(rt.ledger.free_balance(BOB, SHARE_AUSD_XBTC), 1000);

    assert_eq!(
        rt.add_liquidity(BOB, XBTC, AUSD, 1, 999),
        Err(Error::InvalidLiquidityIncrement)
    );
    assert_eq!(rt.get_liquidity_pool(XBTC, AUSD), (10001, 10001000));
    assert_eq!(rt.ledger.total_issuance(SHARE_AUSD_XBTC), 10001000);
    assert_eq!(rt.ledger.free_balance(BOB, SHARE_AUSD_XBTC), 1000);

    assert!(rt.add_liquidity(BOB, XBTC, AUSD, 2, 1000).is_ok());
    assert_eq!(rt.get_liquidity_pool(XBTC, AUSD), (10002, 10002000));

    assert!(rt.add_liquidity(BOB, XBTC, AUSD, 1, 1001).is_ok());
    assert_eq!(rt.get_liquidity_pool(XBTC, AUSD), (10003, 10003000));

    assert_eq!(rt.ledger.total_issuance(SHARE_AUSD_XBTC), 10002998);
}

#[test]
fn test_honzon_module() {
    let mut rt = ExtBuilder::default()
        .balances(vec![(ALICE, XBTC, amount(1_000))])
        .build();
    rt.config.default_debit_exchange_rate = tenth();

    rt.price_source
        .feed_price(XBTC, Price::saturating_from_rational(1, 1));

    rt.set_collateral_params(
        XBTC,
        Change::NewValue(Some(Rate::saturating_from_rational(1, 100000))),
        Change::NewValue(Some(Ratio::saturating_from_rational(3, 2))),
        Change::NewValue(Some(Rate::saturating_from_rational(2, 10))),
        Change::NewValue(Some(Ratio::saturating_from_rational(9, 5))),
        Change::NewValue(amount(10000)),
    );
    assert!(rt
        .adjust_position(ALICE, XBTC, amount(100) as i128, amount(500) as i128)
        .is_ok());
    assert_eq!(rt.ledger.free_balance(ALICE, XBTC), amount(900));
    assert_eq!(rt.ledger.free_balance(ALICE, AUSD), amount(50));
    assert_eq!(rt.lend.positions(XBTC, ALICE).debit, amount(500));
    assert_eq!(rt.lend.positions(XBTC, ALICE).collateral, amount(100));

    assert!(rt.liquidate(XBTC, ALICE).is_err());

    rt.set_collateral_params(
        XBTC,
        Change::NoChange,
        Change::NewValue(Some(Ratio::saturating_from_rational(3, 1))),
        Change::NoChange,
        Change::NoChange,
        Change::NoChange,
    );
    assert!(rt.liquidate(XBTC, ALICE).is_ok());

    assert_eq!(rt.ledger.free_balance(ALICE, XBTC), amount(900));
    assert_eq!(rt.ledger.free_balance(ALICE, AUSD), amount(50));
    assert_eq!(rt.lend.positions(XBTC, ALICE).debit, 0);
    assert_eq!(rt.lend.positions(XBTC, ALICE).collateral, 0);
}

#[test]
fn test_cdp_engine_module() {
    let mut rt = ExtBuilder::default()
        .balances(vec![(ALICE, AUSD, amount(1000)), (ALICE, XBTC, amount(1000))])
        .build();
    rt.config.default_debit_exchange_rate = tenth();

    rt.set_collateral_params(
        XBTC,
        Change::NewValue(Some(Rate::saturating_from_rational(1, 100000))),
        Change::NewValue(Some(Ratio::saturating_from_rational(3, 2))),
        Change::NewValue(Some(Rate::saturating_from_rational(2, 10))),
        Change::NewValue(Some(Ratio::saturating_from_rational(9, 5))),
        Change::NewValue(amount(10000)),
    );

    let new_collateral_params = rt.collateral_params(XBTC);
    assert_eq!(
        new_collateral_params.stability_fee,
        Some(Rate::saturating_from_rational(1, 100000))
    );
    assert_eq!(
        new_collateral_params.liquidation_ratio,
        Some(Ratio::saturating_from_rational(3, 2))
    );
    assert_eq!(
        new_collateral_params.liquidation_penalty,
        Some(Rate::saturating_from_rational(2, 10))
    );
    assert_eq!(
        new_collateral_params.required_collateral_ratio,
        Some(Ratio::saturating_from_rational(9, 5))
    );
    assert_eq!(new_collateral_params.maximum_total_debit_value, amount(10000));

    assert_eq!(
        rt.calculate_collateral_ratio(XBTC, 100, 50, Price::saturating_from_rational(1, 1)),
        Ratio::saturating_from_rational(100 * 10, 50)
    );

    assert!(rt.check_debit_cap(XBTC, amount(99999)).is_ok());
    assert!(rt.check_debit_cap(XBTC, amount(100001)).is_err());

    assert!(rt.adjust_position(ALICE, XBTC, amount(100) as i128, 0).is_ok());
    assert_eq!(rt.ledger.free_balance(ALICE, XBTC), amount(900));
    assert_eq!(rt.lend.positions(XBTC, ALICE).debit, 0);
    assert_eq!(rt.lend.positions(XBTC, ALICE).collateral, amount(100));

    assert_eq!(
        rt.settle_cdp_has_debit(ALICE, XBTC),
        Err(Error::NoDebitValue)
    );

    rt.price_source
        .feed_price(AUSD, Price::saturating_from_rational(1, 1));
    rt.price_source
        .feed_price(XBTC, Price::saturating_from_rational(3, 1));

    assert!(rt.adjust_position(ALICE, XBTC, 0, amount(100) as i128).is_ok());
    assert_eq!(rt.lend.positions(XBTC, ALICE).debit, amount(100));
    assert_eq!(rt.treasury.debit_pool(), 0);
    assert_eq!(rt.treasury.total_collaterals(XBTC), 0);

    let rec = rt.settle_cdp_has_debit(ALICE, XBTC).unwrap();
    assert_eq!(rec.currency_id, XBTC);
    assert_eq!(rec.owner, ALICE);

    assert_eq!(rt.lend.positions(XBTC, ALICE).debit, 0);
    assert_eq!(rt.treasury.debit_pool(), amount(10));
    assert_eq!(rt.treasury.total_collaterals(XBTC), 3333333333333333330);
}
