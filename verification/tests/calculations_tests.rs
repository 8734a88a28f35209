use stellar_defi_toolkit::asset::AssetPrice;
use stellar_defi_toolkit::liquidity_pool::LiquidityPool;
use stellar_defi_toolkit::multi_asset_oracle::MultiAssetOracleContract;
use stellar_defi_toolkit::numeric::abs_deviation_bps;
use stellar_defi_toolkit::oracle_adapter::{
    binance_config, coinbase_config, kraken_config, AdapterHealth, CexPriceAdapter, MultiExchangeAggregator,
};
use stellar_defi_toolkit::position_manager::PositionManagerContract;
use stellar_defi_toolkit::ws::{is_premium_key, matches_arbitrage, should_push, ArbitrageOpportunityUpdate, ArbitrageQuery};

#[test]
fn risk_score_components() {
    let r = PositionManagerContract::compute_risk_score_internal(30_000, 2_000, 365, 5_000);
    assert_eq!(r.collateral_component, 0);
    assert_eq!(r.volatility_component, 2_000);
    assert_eq!(r.age_component, 10_000);
    assert_eq!(r.market_component, 5_000);
    assert_eq!(r.total_score, (2_000 * 3_000 + 10_000 * 1_000 + 5_000 * 1_000) / 10_000);
    let r = PositionManagerContract::compute_risk_score_internal(20_500, 20_000, 0, 0);
    assert_eq!(r.collateral_component, 5_000);
    assert_eq!(r.volatility_component, 10_000);
    assert_eq!(r.total_score, 5_500);
    let r = PositionManagerContract::compute_risk_score_internal(10_000, 10_000, 10_000, 10_000);
    assert_eq!(r.total_score, 10_000);
}

#[test]
fn integer_square_root() {
    assert_eq!(PositionManagerContract::isqrt(0), 0);
    assert_eq!(PositionManagerContract::isqrt(15), 3);
    assert_eq!(PositionManagerContract::isqrt(16), 4);
    assert_eq!(PositionManagerContract::isqrt(u64::MAX), 4_294_967_295);
}

#[test]
fn price_deviation() {
    assert_eq!(MultiAssetOracleContract::calculate_deviation(0, 5), 0);
    assert_eq!(MultiAssetOracleContract::calculate_deviation(100, 110), 1_000);
    assert_eq!(MultiAssetOracleContract::calculate_deviation(100, 90), 1_000);
    assert_eq!(abs_deviation_bps(150, 101), 4_851);
    assert_eq!(abs_deviation_bps(5, 0), 0);
}

#[test]
fn constant_product_swap() {
    let (out, fee) = LiquidityPool::compute_swap(100, 1_000, 2_000, 30);
    assert!(out > 180 && out < 182);
    assert_eq!(out, 181);
    assert_eq!(fee, 0);
    let (out, fee) = LiquidityPool::compute_swap(10_000, 100_000, 100_000, 30);
    assert_eq!(fee, 30);
    assert_eq!(out, 9_066);
}

#[test]
fn arbitrage_filters() {
    let u = ArbitrageOpportunityUpdate {
        opportunity_id: 1,
        asset_pair: "XLM/USDC".to_string(),
        potential_profit: 500,
        risk_score: 30,
        timestamp: 0,
    };
    let all = ArbitrageQuery { asset_pair: None, min_profit: None, max_risk: None };
    assert!(matches_arbitrage(&u, &all));
    let q = ArbitrageQuery { asset_pair: Some("XLM/USDC".to_string()), min_profit: Some(500), max_risk: Some(30) };
    assert!(matches_arbitrage(&u, &q));
    let q = ArbitrageQuery { asset_pair: Some("BTC/USDC".to_string()), min_profit: None, max_risk: None };
    assert!(!matches_arbitrage(&u, &q));
    let q = ArbitrageQuery { asset_pair: None, min_profit: Some(501), max_risk: None };
    assert!(!matches_arbitrage(&u, &q));
    let q = ArbitrageQuery { asset_pair: None, min_profit: None, max_risk: Some(29) };
    assert!(!matches_arbitrage(&u, &q));
}

#[test]
fn premium_and_throttling() {
    assert!(is_premium_key(Some("premium-api-key")));
    assert!(!is_premium_key(Some("free")));
    assert!(!is_premium_key(None));
    assert!(should_push(true, 0, 1_000));
    assert!(!should_push(false, 999, 1_000));
    assert!(should_push(false, 1_000, 1_000));
}

#[test]
fn vwap_ignores_thin_quotes() {
    let a = CexPriceAdapter::new(binance_config());
    assert_eq!(a.compute_vwap(vec![(100, 10_000), (200, 30_000), (1_000, 5)]), Some(175));
    assert_eq!(a.compute_vwap(vec![(100, 5)]), None);
    assert_eq!(a.name(), "Binance");
}

#[test]
fn adapter_backoff_throttle_and_health() {
    let mut a = CexPriceAdapter::new(coinbase_config());
    assert_eq!(a.backoff_delay(), 100);
    assert_eq!(a.health_check(), AdapterHealth::Healthy);
    a.record_error(1_000);
    assert!(a.should_throttle(1_100));
    assert!(!a.should_throttle(1_150));
    assert_eq!(a.backoff_delay(), 200);
    assert_eq!(a.health_check(), AdapterHealth::Degraded);
    for t in 0..10 {
        a.record_error(2_000 + t);
    }
    assert_eq!(a.backoff_delay(), 10_000);
    assert_eq!(a.health_check(), AdapterHealth::Offline);
    let p = AssetPrice { price: 42, decimals: 7, timestamp: 500 };
    a.record_success(3_000, p);
    assert_eq!(a.get_price(), Some(p));
    assert_eq!(a.health_check(), AdapterHealth::Healthy);
    assert!(!a.is_stale(510, 10));
    assert!(a.is_stale(511, 10));
}

#[test]
fn aggregator_prefers_first_live_adapter() {
    let mut agg = MultiExchangeAggregator::with_defaults();
    assert_eq!(agg.get_best_price(), None);
    let p1 = AssetPrice { price: 1, decimals: 7, timestamp: 1 };
    let p2 = AssetPrice { price: 2, decimals: 7, timestamp: 1 };
    agg.adapters[0].record_success(1, p1);
    agg.adapters[1].record_success(1, p2);
    assert_eq!(agg.get_best_price(), Some(p1));
    for t in 0..5 {
        agg.adapters[0].record_error(t);
    }
    assert_eq!(agg.get_best_price(), Some(p2));
    assert_eq!(kraken_config().rate_limit_ms, 200);
    assert!(MultiExchangeAggregator::new().adapters.is_empty());
}
