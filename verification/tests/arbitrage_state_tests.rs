use stellar_defi_toolkit::arbitrage::ArbitrageContract;
use stellar_defi_toolkit::arbitrage_state::{ArbitrageError, ArbitrageState};

fn state() -> ArbitrageState {
    ArbitrageState::initialize("arb", "STABLE", "ORACLE")
}

#[test]
fn detect_opportunity_numbers_and_checks_range() {
    let mut s = state();
    assert_eq!(s.detect_opportunity("A", "B", 5, 100), Err(ArbitrageError::DeviationTooSmall));
    assert_eq!(s.detect_opportunity("A", "B", 501, 100), Err(ArbitrageError::DeviationTooLarge));
    assert_eq!(s.detect_opportunity("A", "B", 100, 100), Ok(1));
    assert_eq!(s.detect_opportunity("A", "C", 200, 110), Ok(2));
    let all = s.get_active_opportunities(110);
    assert_eq!(all.len(), 2);
    assert_eq!(all[0].opportunity_id, 1);
    assert_eq!(all[0].potential_profit, 10_000_000);
    assert_eq!(all[0].required_capital, 1_000_000_000);
    assert_eq!(all[0].expires_at, 1_900);
    // past its expiry the first one is no longer active
    assert_eq!(s.get_active_opportunities(1_901).len(), 1);
}

#[test]
fn execute_arbitrage_pays_reward_once() {
    let mut s = state();
    let id = s.detect_opportunity("A", "B", 100, 0).unwrap();
    assert_eq!(s.execute_arbitrage("alice", id, 1_000, 10), Err(ArbitrageError::TradeTooSmall));
    assert_eq!(s.execute_arbitrage("alice", 99, 1_000_000_000, 10), Err(ArbitrageError::OpportunityNotFound));
    // rate 50 + (100 - 50) / 2 = 75 bps of 1e9
    assert_eq!(s.execute_arbitrage("alice", id, 1_000_000_000, 10), Ok(7_500_000));
    assert_eq!(s.execute_arbitrage("alice", id, 1_000_000_000, 11), Err(ArbitrageError::OpportunityInvalid));
    assert_eq!(s.total_rewards_paid(), 7_500_000);
    let st = s.get_arbitrageur_stats("alice");
    assert_eq!(st.total_arbitrages, 1);
    assert_eq!(st.total_volume, 1_000_000_000);
    assert_eq!(st.total_rewards, 7_500_000);
    assert_eq!(st.avg_profit, 7_500_000);
    assert_eq!(st.success_rate, 10_000);
    assert_eq!(st.last_arbitrage, 10);
    assert!(s.get_active_opportunities(10).is_empty());
}

#[test]
fn expired_opportunity_is_refused() {
    let mut s = state();
    let id = s.detect_opportunity("A", "B", 100, 0).unwrap();
    assert_eq!(s.execute_arbitrage("alice", id, 1_000_000_000, 1_801), Err(ArbitrageError::OpportunityExpired));
}

#[test]
fn failed_arbitrage_lowers_success_rate() {
    let mut s = state();
    let id = s.detect_opportunity("A", "B", 100, 0).unwrap();
    s.execute_arbitrage("bob", id, 1_000_000_000, 5).unwrap();
    s.report_failed_arbitrage("bob", 6).unwrap();
    let st = s.get_arbitrageur_stats("bob");
    assert_eq!(st.total_arbitrages, 2);
    assert_eq!(st.success_rate, 5_000);
    let none = s.get_arbitrageur_stats("carol");
    assert_eq!(none.total_arbitrages, 0);
    assert_eq!(none.success_rate, 0);
}

#[test]
fn admin_controls_pause_and_params() {
    let mut s = state();
    assert_eq!(s.pause("eve"), Err(ArbitrageError::NotAuthorized));
    s.pause("arb").unwrap();
    assert_eq!(s.detect_opportunity("A", "B", 100, 0), Err(ArbitrageError::Paused));
    assert_eq!(s.report_failed_arbitrage("x", 0), Err(ArbitrageError::Paused));
    s.unpause("arb").unwrap();
    let mut p = s.get_params_view();
    p.min_deviation_bps = 0;
    assert_eq!(s.update_params("arb", p), Err(ArbitrageError::InvalidMinimumDeviation));
    p.min_deviation_bps = 100;
    p.max_deviation_bps = 100;
    assert_eq!(s.update_params("arb", p), Err(ArbitrageError::InvalidMaximumDeviation));
    p.max_deviation_bps = 300;
    s.update_params("arb", p).unwrap();
    assert_eq!(s.get_params_view().min_deviation_bps, 100);
    assert_eq!(s.detect_opportunity("A", "B", 50, 0), Err(ArbitrageError::DeviationTooSmall));
    let mut cfg = ArbitrageContract::default_mev_config();
    cfg.enabled = false;
    assert_eq!(s.update_mev_config("eve", cfg), Err(ArbitrageError::NotAuthorized));
    s.update_mev_config("arb", cfg).unwrap();
    assert!(!s.get_mev_config_view().enabled);
}

#[test]
fn mev_aware_detection_stores_profitable_opportunities() {
    let mut s = state();
    // 1% on 1e9 is 1e7; MEV cost 0.3% + 5% buffer = 3 150 000; gas 100 000; fee 10 000
    assert_eq!(s.detect_mev_aware_opportunity("A", "B", 100, 100_000, 2, 1, 0), Ok(Some(1)));
    // 0.2%: 2e6 does not cover the MEV cost
    assert_eq!(s.detect_mev_aware_opportunity("A", "B", 20, 100_000, 2, 1, 0), Ok(None));
    assert_eq!(s.detect_mev_aware_opportunity("A", "B", 5, 100_000, 2, 1, 0), Ok(None));
    assert_eq!(s.get_active_opportunities(0).len(), 1);
}

fn bundle_hop(fee_bps: u32, min_out: u64) -> stellar_defi_toolkit::arbitrage::FlashBundleHop {
    stellar_defi_toolkit::arbitrage::FlashBundleHop {
        pool: "P".to_string(),
        token_in: "A".to_string(),
        token_out: "B".to_string(),
        fee_bps,
        min_amount_out: min_out,
    }
}

#[test]
fn flash_bundles_are_stored() {
    let mut s = state();
    assert_eq!(
        s.execute_flash_bundle("alice", 1_000_000, vec![bundle_hop(30, 0)], 0, 5).unwrap_err(),
        "Flash bundle requires at least 2 hops"
    );
    let b = s.execute_flash_bundle("alice", 1_000_000, vec![bundle_hop(30, 0), bundle_hop(30, 0)], -10_000, 5).unwrap();
    assert_eq!(b.bundle_id, 1);
    assert_eq!(b.loan_fee, 900);
    assert_eq!(b.expected_profit, 994_009 - 1_000_900);
    assert_eq!(b.max_gas_cost, 100_000);
    assert!(b.executed);
    assert_eq!(b.executed_at, 5);
    let stored = s.get_flash_bundle(1).unwrap();
    assert_eq!(stored.hops.len(), 2);
    assert!(s.get_flash_bundle(2).is_none());
    // a loss pays nothing
    assert_eq!(s.total_rewards_paid(), 0);
    s.pause("arb").unwrap();
    assert_eq!(
        s.execute_flash_bundle("alice", 1_000_000, vec![bundle_hop(30, 0), bundle_hop(30, 0)], -10_000, 6).unwrap_err(),
        "Arbitrage system is paused"
    );
}

fn route_of(n: usize, net_profit: i128) -> stellar_defi_toolkit::arbitrage::ArbitrageRoute {
    let mut hops = Vec::new();
    for _ in 0..n {
        hops.push(stellar_defi_toolkit::arbitrage::RouteHop {
            pool: "P".to_string(),
            token_in: "A".to_string(),
            token_out: "B".to_string(),
            fee_bps: 30,
            liquidity: 1,
        });
    }
    stellar_defi_toolkit::arbitrage::ArbitrageRoute { hops, input_amount: 1, output_amount: 1, gas_cost: 0, net_profit }
}

#[test]
fn registered_routes_give_the_best_route() {
    let mut s = state();
    assert!(s.best_route().is_none());
    assert_eq!(s.register_route(route_of(2, 50)).unwrap_err(), "Route must contain between 3 and 5 hops");
    s.register_route(route_of(3, 10)).unwrap();
    s.register_route(route_of(4, 30)).unwrap();
    s.register_route(route_of(5, 30)).unwrap();
    let best = s.best_route().unwrap();
    assert_eq!(best.hops.len(), 4);
    assert_eq!(best.net_profit, 30);
}

#[test]
fn system_stats_sum_volume_and_count_active() {
    let mut s = state();
    let a = s.detect_opportunity("A", "B", 100, 0).unwrap();
    let b = s.detect_opportunity("A", "C", 100, 0).unwrap();
    s.execute_arbitrage("alice", a, 1_000_000_000, 10).unwrap();
    s.execute_arbitrage("bob", b, 2_000_000_000, 0).unwrap();
    let st = s.get_system_stats();
    assert_eq!(st.total_value_locked, 3_000_000_000);
    // bob's last arbitrage is at time 0, so only alice counts as active
    assert_eq!(st.active_vaults, 1);
    assert_eq!(st.total_supply, 100_000_000_000);
    assert_eq!(st.health_score, 8500);
}
