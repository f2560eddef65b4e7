//! Exact-value checks of the wide arithmetic, the fixed-point type,
//! and the constant-product invariant on concrete pools.

use cdp_engine::arith::mul_div;
use cdp_engine::fixed::{FixedU128, Price, FIXED_ONE};
use cdp_engine::types::{CurrencyId, TokenSymbol};
use cdp_engine::world::ExtBuilder;

const ALICE: u128 = 1;
const BOB: u128 = 2;
const AUSD: CurrencyId = CurrencyId::Token(TokenSymbol::AUSD);
const XBTC: CurrencyId = CurrencyId::Token(TokenSymbol::XBTC);

#[test]
fn mul_div_exact_values() {
    assert_eq!(mul_div(6, 7, 3), Some(14));
    assert_eq!(mul_div(7, 7, 3), Some(16));
    assert_eq!(mul_div(0, u128::MAX, 5), Some(0));
    // the product exceeds u128 while the quotient fits
    let a = 1_000_000_000_000_000_000_000_000u128; // 10^24
    let c = 101_000_000_000_000_000_000u128; // 101 * 10^18
    assert_eq!(mul_div(a, FIXED_ONE, c), Some(9_900_990_099_009_900_990_099));
    assert_eq!(mul_div(u128::MAX, u128::MAX, u128::MAX), Some(u128::MAX));
    assert_eq!(mul_div(u128::MAX, 2, 1), None);
    assert_eq!(mul_div(1 << 100, 1 << 100, 1 << 90), Some(1 << 110));
}

#[test]
fn fixed_point_values() {
    let third = FixedU128::saturating_from_rational(1, 3);
    assert_eq!(third.into_inner(), 333_333_333_333_333_333);
    assert_eq!(third.saturating_mul_int(10_000_000_000_000_000_000), 3_333_333_333_333_333_330);

    let three = FixedU128::saturating_from_rational(3, 1);
    assert_eq!(three.reciprocal().unwrap(), third);
    assert_eq!(FixedU128::zero().reciprocal(), None);

    assert_eq!(
        three.checked_mul(third).unwrap(),
        FixedU128::from_inner(999_999_999_999_999_999)
    );
    assert_eq!(three.checked_div(FixedU128::zero()), None);
    assert_eq!(FixedU128::saturating_from_rational(u128::MAX, 1).into_inner(), u128::MAX);
    assert_eq!(FixedU128::checked_from_rational(u128::MAX, 1), None);
    assert_eq!(FixedU128::checked_from_rational(1, 0), None);
    assert_eq!(FixedU128::one().checked_mul_int(41), Some(41));
    assert!(third.lt(three) && three.gt(third) && third.le(third) && third.ge(third));
    assert_eq!(FixedU128::accuracy(), FIXED_ONE);
    assert_eq!(
        FixedU128::one().checked_add(FixedU128::one()),
        Some(FixedU128::from_inner(2 * FIXED_ONE))
    );
    assert_eq!(FixedU128::from_inner(u128::MAX).checked_add(FixedU128::one()), None);
}

/// The constant product never decreases across deposits and swaps; a
/// fee-charging swap grows it strictly.
#[test]
fn constant_product_monotone() {
    let mut rt = ExtBuilder::default()
        .balances(vec![
            (ALICE, AUSD, 10_000_000),
            (ALICE, XBTC, 10_000_000),
            (BOB, XBTC, 10_000),
        ])
        .build();
    rt.config.exchange_fee = (3, 1000);

    assert!(rt.add_liquidity(ALICE, XBTC, AUSD, 50_000, 200_000).is_ok());
    let (ra, rb) = rt.get_liquidity_pool(XBTC, AUSD);
    let mut product = ra * rb;

    assert!(rt.add_liquidity(ALICE, XBTC, AUSD, 7, 40).is_ok());
    let (ra, rb) = rt.get_liquidity_pool(XBTC, AUSD);
    assert!(ra * rb >= product);
    product = ra * rb;

    let out = rt
        .swap_with_exact_supply(BOB, &vec![XBTC, AUSD], 10_000, 0)
        .unwrap();
    // fee-adjusted input 9970: 200028 * 9970 / (50007 + 9970) = 33250
    assert_eq!(out, 33_250);
    let (ra, rb) = rt.get_liquidity_pool(XBTC, AUSD);
    assert_eq!((ra, rb), (60_007, 166_778));
    assert!(ra * rb > product);
}

#[test]
fn two_hop_swap() {
    let dot = CurrencyId::Token(TokenSymbol::DOT);
    let mut rt = ExtBuilder::default()
        .balances(vec![
            (ALICE, AUSD, 2_000_000),
            (ALICE, XBTC, 1_000_000),
            (ALICE, dot, 1_000_000),
            (BOB, XBTC, 1_000),
        ])
        .build();
    assert!(rt.add_liquidity(ALICE, XBTC, AUSD, 100_000, 1_000_000).is_ok());
    assert!(rt.add_liquidity(ALICE, dot, AUSD, 500_000, 1_000_000).is_ok());

    // XBTC -> AUSD -> DOT, zero fee
    let out1 = 1_000_000u128 * 1_000 / (100_000 + 1_000); // 9900
    assert_eq!(out1, 9_900);
    let out2 = 500_000u128 * out1 / (1_000_000 + out1); // 4901
    assert_eq!(out2, 4_901);
    let got = rt
        .swap_with_exact_supply(BOB, &vec![XBTC, AUSD, dot], 1_000, 0)
        .unwrap();
    assert_eq!(got, out2);
    assert_eq!(rt.ledger.free_balance(BOB, dot), out2);
    assert_eq!(rt.get_liquidity_pool(XBTC, AUSD), (101_000, 1_000_000 - out1));
    assert_eq!(rt.get_liquidity_pool(AUSD, dot), (1_000_000 + out1, 500_000 - out2));
}
