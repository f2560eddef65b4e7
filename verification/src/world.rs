//! The assembled runtime: configuration plus every state component,
//! passed explicitly into each engine entry point, and the builder the
//! test suites construct it with.

use crate::auction::MockAuctionManager;
use crate::fixed::{ExchangeRate, FixedU128, Ratio, Rate, FIXED_ONE};
use crate::ledger::Ledger;
use crate::lend::Lend;
use crate::oracle::MockPriceSource;
use crate::table::CurTable;
use crate::treasury::Treasury;
use crate::types::{AccountId, Balance, CurrencyId, RiskParameters, TokenSymbol};
use vstd::prelude::*;

verus! {

/// Ledger account holding collateral deposited into open positions.
pub const LOANS_ACCOUNT: AccountId = 10_000_000_001;

/// Ledger account holding collateral and stable currency custodied by
/// the treasury.
pub const TREASURY_ACCOUNT: AccountId = 10_000_000_002;

/// Ledger account holding the liquidity pools' reserves.
pub const EXCHANGE_ACCOUNT: AccountId = 10_000_000_003;

/// Fixed choices of the deployment.
pub struct Config {
    /// The stable currency debts are denominated in.
    pub stable_currency_id: CurrencyId,
    /// A nonzero residual debt's value must reach this floor.
    pub minimum_debit_value: Balance,
    /// Debit-to-value rate for types with no stored rate.
    pub default_debit_exchange_rate: ExchangeRate,
    /// Largest fraction of a pool's depth one liquidation may consume.
    pub max_slippage_swap_with_exchange: Ratio,
    /// Exchange fee as (numerator, denominator).
    pub exchange_fee: (u32, u32),
    /// Largest number of currencies in one swap path.
    pub trading_path_limit: usize,
}

impl Config {
    /// The engine supports paths of at most three currencies.
    pub open spec fn wf(self) -> bool {
        &&& 0 < self.exchange_fee.1
        &&& self.exchange_fee.0 <= self.exchange_fee.1
        &&& 2 <= self.trading_path_limit <= 3
        &&& self.default_debit_exchange_rate.bits > 0
    }
}

/// The standard test configuration.
pub open spec fn spec_test_config() -> Config {
    Config {
        stable_currency_id: CurrencyId::Token(TokenSymbol::AUSD),
        minimum_debit_value: 2,
        default_debit_exchange_rate: FixedU128 { bits: FIXED_ONE },
        max_slippage_swap_with_exchange: FixedU128 { bits: 500_000_000_000_000_000 },
        exchange_fee: (0, 100),
        trading_path_limit: 3,
    }
}

/// The standard test configuration: AUSD as stable currency, a unit
/// default debit exchange rate, a 50% slippage cap, no exchange fee and
/// a path limit of three.
pub fn test_config() -> (r: Config)
    ensures
        r == spec_test_config(),
        r.wf(),
{
    Config {
        stable_currency_id: CurrencyId::Token(TokenSymbol::AUSD),
        minimum_debit_value: 2,
        default_debit_exchange_rate: FixedU128 { bits: FIXED_ONE },
        max_slippage_swap_with_exchange: FixedU128 { bits: 500_000_000_000_000_000 },
        exchange_fee: (0, 100),
        trading_path_limit: 3,
    }
}

/// The global shutdown switch consulted by the engine.
pub struct MockEmergencyShutdown {
    pub is_shutdown: bool,
}

impl MockEmergencyShutdown {
    pub fn is_shutdown(&self) -> (r: bool)
        ensures
            r == self.is_shutdown,
    {
        self.is_shutdown
    }
}

/// The whole machine: configuration and every state component.
pub struct Runtime {
    pub config: Config,
    pub ledger: Ledger,
    pub lend: Lend,
    pub params: CurTable<RiskParameters>,
    pub debit_exchange_rates: CurTable<ExchangeRate>,
    pub global_stability_fee: Rate,
    pub treasury: Treasury,
    pub pools: CurTable<(Balance, Balance)>,
    pub price_source: MockPriceSource,
    pub auction_manager: MockAuctionManager,
    pub emergency_shutdown: MockEmergencyShutdown,
}

impl Runtime {
    pub open spec fn wf(self) -> bool {
        &&& self.config.wf()
        &&& self.auction_manager.wf()
        &&& self.price_source.stable_currency_id == self.config.stable_currency_id
    }

    /// A runtime with the given configuration and empty state.
    pub fn new(config: Config) -> (r: Runtime)
        requires
            config.wf(),
        ensures
            r.wf(),
            r.config == config,
            forall|who: AccountId, c: CurrencyId| #[trigger] r.ledger.spec_balance(who, c) == 0,
            forall|c: CurrencyId| #[trigger] r.ledger.spec_issuance(c) == 0,
            forall|c: CurrencyId, who: AccountId|
                #[trigger] r.lend.spec_position(c, who) == (crate::types::Position {
                    collateral: 0,
                    debit: 0,
                }),
            forall|c: CurrencyId| #[trigger] r.lend.spec_total(c) == (0u128, 0u128),
            forall|c: CurrencyId| #[trigger] r.params.spec_get(c) is None,
            forall|c: CurrencyId| #[trigger] r.debit_exchange_rates.spec_get(c) is None,
            r.global_stability_fee.bits == 0,
            forall|c: CurrencyId| #[trigger] r.treasury.spec_total_collaterals(c) == 0,
            r.treasury.debit_pool == 0,
            r.treasury.surplus_pool == 0,
            forall|c: CurrencyId| #[trigger] r.pools.spec_get(c) is None,
            forall|c: CurrencyId|
                c != config.stable_currency_id ==> #[trigger] r.price_source.spec_price(c)
                    is None,
            r.auction_manager.auctions@ == Seq::<crate::types::CollateralAuction>::empty(),
            r.auction_manager.next_id == 0,
            !r.emergency_shutdown.is_shutdown,
    {
        let stable = config.stable_currency_id;
        Runtime {
            config,
            ledger: Ledger::new(),
            lend: Lend::new(),
            params: CurTable::new(),
            debit_exchange_rates: CurTable::new(),
            global_stability_fee: FixedU128::zero(),
            treasury: Treasury::new(),
            pools: CurTable::new(),
            price_source: MockPriceSource::new(stable),
            auction_manager: MockAuctionManager::new(),
            emergency_shutdown: MockEmergencyShutdown { is_shutdown: false },
        }
    }
}

/// Flip the global shutdown switch on; everything else is untouched.
pub fn mock_shutdown(rt: &mut Runtime)
    ensures
        *final(rt) == (Runtime {
            emergency_shutdown: (MockEmergencyShutdown { is_shutdown: true }),
            ..*old(rt)
        }),
{
    rt.emergency_shutdown.is_shutdown = true;
}

/// Sum of the endowments of `(who, c)` in the build list.
pub open spec fn spec_endowed(
    s: Seq<(AccountId, CurrencyId, Balance)>,
    who: AccountId,
    c: CurrencyId,
) -> int
    decreases s.len(),
{
    if s.len() == 0 {
        0
    } else {
        (if s[0].0 == who && s[0].1 == c {
            s[0].2 as int
        } else {
            0
        }) + spec_endowed(s.drop_first(), who, c)
    }
}

/// Sum of the endowments of currency `c` in the build list.
pub open spec fn spec_endowed_issuance(s: Seq<(AccountId, CurrencyId, Balance)>, c: CurrencyId) -> int
    decreases s.len(),
{
    if s.len() == 0 {
        0
    } else {
        (if s[0].1 == c {
            s[0].2 as int
        } else {
            0
        }) + spec_endowed_issuance(s.drop_first(), c)
    }
}

proof fn lemma_endowed_push(
    s: Seq<(AccountId, CurrencyId, Balance)>,
    e: (AccountId, CurrencyId, Balance),
    who: AccountId,
    c: CurrencyId,
)
    ensures
        spec_endowed(s.push(e), who, c) == spec_endowed(s, who, c) + (if e.0 == who && e.1 == c {
            e.2 as int
        } else {
            0
        }),
        spec_endowed_issuance(s.push(e), c) == spec_endowed_issuance(s, c) + (if e.1 == c {
            e.2 as int
        } else {
            0
        }),
    decreases s.len(),
{
    if s.len() == 0 {
        assert(s.push(e)[0] == e);
        assert(s.push(e).drop_first() =~= Seq::<(AccountId, CurrencyId, Balance)>::empty());
        assert(spec_endowed(Seq::<(AccountId, CurrencyId, Balance)>::empty(), who, c) == 0);
        assert(spec_endowed_issuance(Seq::<(AccountId, CurrencyId, Balance)>::empty(), c) == 0);
        assert(spec_endowed(s, who, c) == 0);
        assert(spec_endowed_issuance(s, c) == 0);
    } else {
        assert(s.push(e)[0] == s[0]);
        assert(s.push(e).drop_first() =~= s.drop_first().push(e));
        lemma_endowed_push(s.drop_first(), e, who, c);
    }
}

proof fn lemma_endowed_nonneg(
    s: Seq<(AccountId, CurrencyId, Balance)>,
    who: AccountId,
    c: CurrencyId,
)
    ensures
        spec_endowed(s, who, c) >= 0,
        spec_endowed_issuance(s, c) >= 0,
    decreases s.len(),
{
    if s.len() > 0 {
        lemma_endowed_nonneg(s.drop_first(), who, c);
    }
}

/// Builder of a runtime with the standard test configuration and a
/// list of initial balances.
pub struct ExtBuilder {
    pub endowed_accounts: Vec<(AccountId, CurrencyId, Balance)>,
}

impl Default for ExtBuilder {
    /// A builder with no initial balances.
    fn default() -> (r: Self)
        ensures
            r.endowed_accounts@ == Seq::<(AccountId, CurrencyId, Balance)>::empty(),
    {
        ExtBuilder { endowed_accounts: Vec::new() }
    }
}

impl ExtBuilder {
    /// Replace the list of initial balances.
    pub fn balances(self, endowed_accounts: Vec<(AccountId, CurrencyId, Balance)>) -> (r: Self)
        ensures
            r.endowed_accounts == endowed_accounts,
    {
        ExtBuilder { endowed_accounts }
    }

    /// A runtime with the standard test configuration whose ledger
    /// holds the listed endowments (summed per key, saturating at
    /// `u128::MAX`) and whose every other component is empty.
    pub fn build(self) -> (r: Runtime)
        ensures
            r.wf(),
            r.config == spec_test_config(),
            forall|who: AccountId, c: CurrencyId|
                #[trigger] r.ledger.spec_balance(who, c) == crate::fixed::sat_u128(
                    spec_endowed(self.endowed_accounts@, who, c),
                ),
            forall|c: CurrencyId|
                #[trigger] r.ledger.spec_issuance(c) == crate::fixed::sat_u128(
                    spec_endowed_issuance(self.endowed_accounts@, c),
                ),
            forall|c: CurrencyId, who: AccountId|
                #[trigger] r.lend.spec_position(c, who) == (crate::types::Position {
                    collateral: 0,
                    debit: 0,
                }),
            forall|c: CurrencyId| #[trigger] r.lend.spec_total(c) == (0u128, 0u128),
            forall|c: CurrencyId| #[trigger] r.params.spec_get(c) is None,
            forall|c: CurrencyId| #[trigger] r.debit_exchange_rates.spec_get(c) is None,
            r.global_stability_fee.bits == 0,
            forall|c: CurrencyId| #[trigger] r.treasury.spec_total_collaterals(c) == 0,
            r.treasury.debit_pool == 0,
            r.treasury.surplus_pool == 0,
            forall|c: CurrencyId| #[trigger] r.pools.spec_get(c) is None,
            forall|c: CurrencyId|
                c != spec_test_config().stable_currency_id
                    ==> #[trigger] r.price_source.spec_price(c) is None,
            r.auction_manager.auctions@ == Seq::<crate::types::CollateralAuction>::empty(),
            r.auction_manager.next_id == 0,
            !r.emergency_shutdown.is_shutdown,
    {
        let mut rt = Runtime::new(test_config());
        let ghost s = self.endowed_accounts@;
        proof {
            assert(s.take(0) =~= Seq::<(AccountId, CurrencyId, Balance)>::empty());
        }
        let n = self.endowed_accounts.len();
        #[verifier::loop_isolation(false)]
        for i in 0..n
            invariant
                rt.wf(),
                rt.config == spec_test_config(),
                forall|who: AccountId, c: CurrencyId|
                    #[trigger] rt.ledger.spec_balance(who, c) == crate::fixed::sat_u128(
                        spec_endowed(s.take(i as int), who, c),
                    ),
                forall|c: CurrencyId|
                    #[trigger] rt.ledger.spec_issuance(c) == crate::fixed::sat_u128(
                        spec_endowed_issuance(s.take(i as int), c),
                    ),
                forall|c: CurrencyId, who: AccountId|
                    #[trigger] rt.lend.spec_position(c, who) == (crate::types::Position {
                        collateral: 0,
                        debit: 0,
                    }),
                forall|c: CurrencyId| #[trigger] rt.lend.spec_total(c) == (0u128, 0u128),
                forall|c: CurrencyId| #[trigger] rt.params.spec_get(c) is None,
                forall|c: CurrencyId| #[trigger] rt.debit_exchange_rates.spec_get(c) is None,
                rt.global_stability_fee.bits == 0,
                forall|c: CurrencyId| #[trigger] rt.treasury.spec_total_collaterals(c) == 0,
                rt.treasury.debit_pool == 0,
                rt.treasury.surplus_pool == 0,
                forall|c: CurrencyId| #[trigger] rt.pools.spec_get(c) is None,
                forall|c: CurrencyId|
                    c != spec_test_config().stable_currency_id
                        ==> #[trigger] rt.price_source.spec_price(c) is None,
                rt.auction_manager.auctions@ == Seq::<crate::types::CollateralAuction>::empty(),
                rt.auction_manager.next_id == 0,
                !rt.emergency_shutdown.is_shutdown,
        {
            let (who, c, amt) = self.endowed_accounts[i];
            let b = rt.ledger.free_balance(who, c);
            let iss = rt.ledger.total_issuance(c);
            proof {
                assert(b == crate::fixed::sat_u128(spec_endowed(s.take(i as int), who, c)));
                assert(iss == crate::fixed::sat_u128(
                    spec_endowed_issuance(s.take(i as int), c),
                ));
            }
            let nb = if amt > u128::MAX - b {
                u128::MAX
            } else {
                b + amt
            };
            let ni = if amt > u128::MAX - iss {
                u128::MAX
            } else {
                iss + amt
            };
            let ghost led0 = rt.ledger;
            rt.ledger.balances.set(who, c, nb);
            rt.ledger.issuance.set(c, ni);
            proof {
                assert(s.take(i as int + 1) =~= s.take(i as int).push(s[i as int]));
                assert forall|w2: AccountId, c2: CurrencyId|
                    #[trigger] rt.ledger.spec_balance(w2, c2) == crate::fixed::sat_u128(
                    spec_endowed(s.take(i as int + 1), w2, c2),
                ) by {
                    lemma_endowed_push(s.take(i as int), s[i as int], w2, c2);
                    lemma_endowed_nonneg(s.take(i as int), w2, c2);
                    assert(led0.spec_balance(w2, c2) == crate::fixed::sat_u128(
                        spec_endowed(s.take(i as int), w2, c2),
                    ));
                    if w2 == who && c2 == c {
                        assert(rt.ledger.spec_balance(w2, c2) == nb);
                    } else {
                        assert(rt.ledger.balances.spec_get(w2, c2) == led0.balances.spec_get(
                            w2,
                            c2,
                        ));
                    }
                }
                assert forall|c2: CurrencyId|
                    #[trigger] rt.ledger.spec_issuance(c2) == crate::fixed::sat_u128(
                    spec_endowed_issuance(s.take(i as int + 1), c2),
                ) by {
                    lemma_endowed_push(s.take(i as int), s[i as int], who, c2);
                    lemma_endowed_nonneg(s.take(i as int), who, c2);
                    assert(led0.spec_issuance(c2) == crate::fixed::sat_u128(
                        spec_endowed_issuance(s.take(i as int), c2),
                    ));
                    if c2 == c {
                        assert(rt.ledger.spec_issuance(c2) == ni);
                    } else {
                        assert(rt.ledger.issuance.spec_get(c2) == led0.issuance.spec_get(c2));
                    }
                }
            }
        }
        proof {
            assert(s.take(n as int) =~= s);
        }
        rt
    }
}

} // verus!
