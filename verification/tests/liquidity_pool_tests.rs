use stellar_defi_toolkit::liquidity_pool::LiquidityPoolContract;

#[test]
fn test_pool_creation() {
    let pool = LiquidityPoolContract::new("TOKEN_A_CONTRACT".to_string(), "TOKEN_B_CONTRACT".to_string());

    assert_eq!(pool.token_a, "TOKEN_A_CONTRACT");
    assert_eq!(pool.token_b, "TOKEN_B_CONTRACT");
    assert_eq!(pool.reserve_a, 0);
    assert_eq!(pool.reserve_b, 0);
    assert_eq!(pool.total_liquidity, 0);
    assert_eq!(pool.fee_percentage, 30);
}

#[test]
fn test_pool_creation_with_custom_fee() {
    let pool = LiquidityPoolContract::new_with_fee(
        "TOKEN_A_CONTRACT".to_string(),
        "TOKEN_B_CONTRACT".to_string(),
        50,
    );
    assert_eq!(pool.fee_percentage, 50);
}

#[test]
fn test_add_initial_liquidity() {
    let mut pool = LiquidityPoolContract::new("TOKEN_A_CONTRACT".to_string(), "TOKEN_B_CONTRACT".to_string());

    let liquidity = pool.add_liquidity("provider1", 1000, 2000, 1000, 2000).unwrap();

    assert_eq!(pool.reserve_a, 1000);
    assert_eq!(pool.reserve_b, 2000);
    assert_eq!(pool.total_liquidity, liquidity);
    assert!(liquidity > 0);
}

#[test]
fn test_fee_collection_and_claim() {
    let mut pool = LiquidityPoolContract::new("TOKEN_A".to_string(), "TOKEN_B".to_string());

    pool.add_liquidity("alice", 10000, 10000, 0, 0).unwrap();

    pool.swap_a_for_b(1000, 0).unwrap();
    let (fees_a, fees_b) = pool.get_collected_fees();
    assert!(fees_a > 0);
    assert_eq!(fees_b, 0);

    let (claimed_a, claimed_b) = pool.claim_fees("alice").unwrap();
    assert_eq!(claimed_a, fees_a);
    assert_eq!(claimed_b, 0);

    let (remaining_a, _) = pool.get_collected_fees();
    assert_eq!(remaining_a, 0);
}

#[test]
fn test_swap_calculation() {
    let mut pool = LiquidityPoolContract::new("TOKEN_A_CONTRACT".to_string(), "TOKEN_B_CONTRACT".to_string());

    pool.reserve_a = 1000;
    pool.reserve_b = 2000;

    let output = pool.calculate_swap_output(100, pool.reserve_a, pool.reserve_b);
    assert!(output > 180 && output < 182);
}

#[test]
fn test_invalid_add_liquidity() {
    let mut pool = LiquidityPoolContract::new("TOKEN_A_CONTRACT".to_string(), "TOKEN_B_CONTRACT".to_string());

    let result = pool.add_liquidity("alice", 0, 1000, 0, 1000);
    assert!(result.is_err());
    assert_eq!(result.unwrap_err(), "Amounts must be greater than 0");
}

#[test]
fn pool_first_deposit_mints_integer_square_root() {
    let mut pool = LiquidityPoolContract::new("A".to_string(), "B".to_string());
    assert_eq!(pool.add_liquidity("alice", 1000, 1000, 0, 0).unwrap(), 1000);
    assert_eq!(pool.add_liquidity("bob", 10, 20, 0, 0).unwrap(), 10);
    assert_eq!(pool.lp_balance("alice"), 1000);
    assert_eq!(pool.lp_balance("bob"), 10);
    assert_eq!(pool.total_liquidity, 1010);
    assert_eq!(pool.positions().len(), 2);
    let mut p2 = LiquidityPoolContract::new("A".to_string(), "B".to_string());
    assert_eq!(p2.add_liquidity("x", 2, 3, 0, 0).unwrap(), 2);
}

#[test]
fn pool_swap_keeps_constant_product() {
    let mut pool = LiquidityPoolContract::new("A".to_string(), "B".to_string());
    pool.add_liquidity("alice", 5_000, 7_000, 0, 0).unwrap();
    let k0 = pool.reserve_a as u128 * pool.reserve_b as u128;
    let out = pool.swap_a_for_b(1_000, 0).unwrap();
    // fee 3, after fee 997: 7000*997/5997 = 1163
    assert_eq!(out, 1163);
    assert!(pool.reserve_a as u128 * pool.reserve_b as u128 >= k0);
    let out_b = pool.swap_b_for_a(500, 0).unwrap();
    assert!(out_b > 0);
    assert_eq!(pool.get_collected_fees(), (3, 1));
    assert_eq!(pool.swap_a_for_b(10, 1_000).unwrap_err(), "Insufficient output amount");
    assert_eq!(pool.swap_a_for_b(0, 0).unwrap_err(), "Input amount must be greater than 0");
}

#[test]
fn pool_remove_liquidity_pays_proportional_share() {
    let mut pool = LiquidityPoolContract::new("A".to_string(), "B".to_string());
    let lp = pool.add_liquidity("alice", 4_000, 9_000, 0, 0).unwrap();
    assert_eq!(lp, 6_000);
    assert_eq!(pool.remove_liquidity("alice", 3_000, 0, 0).unwrap(), (2_000, 4_500));
    assert_eq!(pool.lp_balance("alice"), 3_000);
    assert_eq!(pool.remove_liquidity("alice", 3_000, 0, 0).unwrap(), (2_000, 4_500));
    assert_eq!(pool.lp_balance("alice"), 0);
    assert!(pool.positions().is_empty());
    assert_eq!(pool.remove_liquidity("alice", 1, 0, 0).unwrap_err(), "Insufficient liquidity tokens");
    assert_eq!(pool.remove_liquidity("alice", 0, 0, 0).unwrap_err(), "Liquidity tokens must be greater than 0");
}

#[test]
fn pool_simulate_swap_and_claim_errors() {
    let mut pool = LiquidityPoolContract::new("A".to_string(), "B".to_string());
    assert_eq!(pool.claim_fees("nobody").unwrap_err(), "No liquidity position found");
    pool.add_liquidity("alice", 1_000, 2_000, 0, 0).unwrap();
    assert_eq!(pool.simulate_swap("A", 100).unwrap(), 181);
    assert_eq!(pool.simulate_swap("B", 100).unwrap(), 47);
    assert_eq!(pool.simulate_swap("C", 100).unwrap_err(), "Invalid token");
    assert_eq!(pool.simulate_swap("A", 0).unwrap_err(), "Input amount must be greater than 0");
    let info = pool.get_info();
    assert_eq!(info.reserve_a, 1_000);
    assert_eq!(info.token_b, "B");
    assert_eq!(
        pool.add_liquidity("bob", 10, 10, 20, 0).unwrap_err(),
        "Amounts below minimum threshold"
    );
}
