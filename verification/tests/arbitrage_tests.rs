use stellar_defi_toolkit::arbitrage::{
    ArbitrageContract, ArbitrageRoute, FlashBundleHop, FlashBundlePlan, MEVConfig, MEVRiskLevel, RouteHop,
};

#[test]
fn opportunity_metrics() {
    assert_eq!(ArbitrageContract::calculate_arbitrage_metrics(100), (10_000_000, 1_000_000_000));
    assert_eq!(ArbitrageContract::calculate_arbitrage_metrics(0), (0, 1_000_000_000));
}

#[test]
fn mev_cost_estimate() {
    let cfg = ArbitrageContract::default_mev_config();
    let c = ArbitrageContract::estimate_mev_cost(1_000_000_000, 100_000, 2, &cfg, 7);
    assert_eq!(c.sandwich_cost, 2_000_000);
    assert_eq!(c.frontrun_cost, 1_000_000);
    assert_eq!(c.total_mev_cost, 3_150_000);
    assert_eq!(c.gas_cost, 200_000);
    assert_eq!(c.estimated_at_block, 7);
    let off = MEVConfig { enabled: false, ..cfg };
    let c = ArbitrageContract::estimate_mev_cost(1_000_000_000, 100_000, 2, &off, 7);
    assert_eq!(c.total_mev_cost, 0);
    assert_eq!(c.gas_cost, 100_000);
}

#[test]
fn rewards_by_price_difference() {
    let p = ArbitrageContract::default_params();
    assert_eq!(ArbitrageContract::calculate_reward(&p, 1_000_000_000, 30), 5_000_000);
    assert_eq!(ArbitrageContract::calculate_reward(&p, 1_000_000_000, 100), 7_500_000);
    assert_eq!(ArbitrageContract::calculate_reward(&p, 1_000_000_000, 300), 20_000_000);
    assert_eq!(ArbitrageContract::calculate_reward(&p, 1_000_000_000_000, 300), 1_000_000_000);
}

#[test]
fn mev_aware_assessment() {
    let p = ArbitrageContract::default_params();
    let cfg = ArbitrageContract::default_mev_config();
    assert!(ArbitrageContract::assess_mev_opportunity(&p, &cfg, 5, 100_000, 2, 1).is_none());
    assert!(ArbitrageContract::assess_mev_opportunity(&p, &cfg, 501, 100_000, 2, 1).is_none());
    assert!(ArbitrageContract::assess_mev_opportunity(&p, &cfg, 20, 100_000, 2, 1).is_none());
    let a = ArbitrageContract::assess_mev_opportunity(&p, &cfg, 100, 100_000, 2, 1).unwrap();
    assert_eq!(a.potential_profit, 10_000_000);
    assert_eq!(a.required_capital, 1_000_000_000);
    assert_eq!(a.net_profit, 6_740_000);
    assert_eq!(a.risk_level, MEVRiskLevel::High);
}

fn hop(fee_bps: u32, min_amount_out: u64) -> FlashBundleHop {
    FlashBundleHop {
        pool: "pool".to_string(),
        token_in: "A".to_string(),
        token_out: "B".to_string(),
        fee_bps,
        min_amount_out,
    }
}

fn route(hops: usize, net_profit: i128) -> ArbitrageRoute {
    let mut v = Vec::new();
    for _ in 0..hops {
        v.push(RouteHop {
            pool: "p".to_string(),
            token_in: "A".to_string(),
            token_out: "B".to_string(),
            fee_bps: 30,
            liquidity: 1,
        });
    }
    ArbitrageRoute { hops: v, input_amount: 0, output_amount: 0, gas_cost: 0, net_profit }
}

#[test]
fn simulation_deducts_fees_gas_and_mev() {
    let params = ArbitrageContract::default_params();
    let cfg = ArbitrageContract::default_mev_config();
    let small = ArbitrageContract::simulate_arbitrage(&params, &cfg, 1, 100, 2, 30, 10, 7);
    assert!(!small.success);
    assert_eq!(small.route_summary, "INVALID");
    assert_eq!(small.simulated_at, 7);
    let sim = ArbitrageContract::simulate_arbitrage(&params, &cfg, 1_000_000_000, 100, 2, 30, 10, 7);
    // Gross 1%: 10_000_000; fees 3_000_000 + 2_991_000; gas 100_000; protocol 10_000;
    // slippage 1_000_000; MEV (2_000_000 + 1_000_000) * 1.05 = 3_150_000.
    assert_eq!(sim.gross_profit, 10_000_000);
    assert_eq!(sim.pool_fees, 5_991_000);
    assert_eq!(sim.gas_cost, 100_000);
    assert_eq!(sim.protocol_fees, 10_000);
    assert_eq!(sim.slippage_estimate, 1_000_000);
    assert_eq!(sim.mev_cost, 3_150_000);
    assert_eq!(sim.net_profit, 10_000_000 - 10_251_000);
    assert!(!sim.success);
    assert_eq!(sim.route_summary, "UNPROFIT");
    let good = ArbitrageContract::simulate_arbitrage(&params, &cfg, 1_000_000_000, 500, 1, 0, 0, 0);
    assert!(good.success);
    assert_eq!(good.route_summary, "PROFIT");
}

#[test]
fn opportunity_risk_threshold() {
    assert!(ArbitrageContract::evaluate_opportunity(1, 70, 70, 70, 70));
    assert!(!ArbitrageContract::evaluate_opportunity(1, 100, 100, 100, 4));
}

#[test]
fn parameter_and_route_checks() {
    let mut p = ArbitrageContract::default_params();
    assert_eq!(ArbitrageContract::validate_params(&p), Ok(()));
    p.min_deviation_bps = 0;
    assert_eq!(ArbitrageContract::validate_params(&p), Err("Invalid minimum deviation".to_string()));
    p.min_deviation_bps = 600;
    assert_eq!(ArbitrageContract::validate_params(&p), Err("Invalid maximum deviation".to_string()));
    assert!(ArbitrageContract::validate_route(&route(3, 1)).is_ok());
    assert_eq!(
        ArbitrageContract::validate_route(&route(2, 1)),
        Err("Route must contain between 3 and 5 hops".to_string())
    );
    assert!(ArbitrageContract::validate_route(&route(6, 1)).is_err());
}

#[test]
fn best_route_is_first_highest_profit() {
    let routes = vec![route(3, -5), route(3, 10), route(4, 7), route(5, 10)];
    let best = ArbitrageContract::best_route(&routes).unwrap();
    assert_eq!(best.hops.len(), 3);
    assert_eq!(best.net_profit, 10);
    assert!(ArbitrageContract::best_route(&vec![route(3, 0), route(3, -1)]).is_none());
}

#[test]
fn flash_bundle_planning() {
    let cfg = ArbitrageContract::default_mev_config();
    assert_eq!(
        ArbitrageContract::plan_flash_bundle(&cfg, 1_000_000, &vec![hop(30, 0)], 0),
        Err("Flash bundle requires at least 2 hops".to_string())
    );
    assert_eq!(
        ArbitrageContract::plan_flash_bundle(&cfg, 1_000_000, &vec![hop(30, 0), hop(30, 999_000)], i128::MIN),
        Err("Hop slippage exceeded minimum output".to_string())
    );
    // 1_000_000 -> 997_000 -> 994_009; repayment 1_000_900.
    let plan = ArbitrageContract::plan_flash_bundle(&cfg, 1_000_000, &vec![hop(30, 0), hop(30, 0)], -10_000).unwrap();
    assert_eq!(plan, FlashBundlePlan { loan_fee: 900, expected_profit: 994_009 - 1_000_900, max_gas_cost: 100_000 });
    assert_eq!(
        ArbitrageContract::plan_flash_bundle(&cfg, 1_000_000, &vec![hop(30, 0), hop(30, 0)], 0),
        Err("Bundle profit below minimum".to_string())
    );
}
