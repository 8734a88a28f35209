use stellar_defi_toolkit::liquidity_pool::{LiquidityPool, PoolContractError};

fn pool() -> LiquidityPool {
    let mut p = LiquidityPool::new();
    p.initialize("A", "B", 30).unwrap();
    p
}

#[test]
fn chain_pool_liquidity_and_positions() {
    let mut p = pool();
    assert_eq!(p.initialize("A", "B", 30), Err(PoolContractError::AlreadyInitialized));
    assert_eq!(p.add_liquidity("alice", 0, 10), Err(PoolContractError::InvalidAmount));
    assert_eq!(p.add_liquidity("alice", 1_000, 1_000), Ok(1_000));
    assert_eq!(p.add_liquidity("bob", 500, 2_000), Ok(500));
    assert_eq!(p.get_position("alice"), 1_000);
    assert_eq!(p.get_position("bob"), 500);
    assert_eq!(p.remove_liquidity("alice", 0), Err(PoolContractError::InvalidAmount));
    assert_eq!(p.remove_liquidity("alice", 1_501), Err(PoolContractError::InsufficientLiquidity));
    assert_eq!(p.remove_liquidity("alice", 300), Ok((300, 600)));
    assert_eq!(p.get_position("alice"), 700);
    assert_eq!(p.remove_liquidity("carol", 10), Ok((10, 20)));
    assert_eq!(p.get_position("carol"), 0);
}

#[test]
fn chain_pool_swaps_collect_fees() {
    let mut p = pool();
    p.add_liquidity("alice", 10_000, 10_000).unwrap();
    assert_eq!(p.swap_a_for_b(0, 0), Err(PoolContractError::InvalidAmount));
    assert_eq!(p.swap_a_for_b(1_000, 1_000), Err(PoolContractError::SlippageExceeded));
    // fee 3, after 997, out = 10000*997/10997 = 906.
    assert_eq!(p.swap_a_for_b(1_000, 0), Ok(906));
    assert_eq!(p.get_collected_fees(), (3, 0));
    assert_eq!(p.swap_b_for_a(1_000, 0), Ok(1_086));
    assert_eq!(p.get_collected_fees(), (3, 3));
    assert_eq!(p.claim_fees("bob"), Err(PoolContractError::NoPosition));
    assert_eq!(p.claim_fees("alice"), Ok((3, 3)));
    assert_eq!(p.get_collected_fees(), (0, 0));
}

#[test]
fn uninitialized_pool_uses_default_fee() {
    let mut p = LiquidityPool::new();
    p.add_liquidity("x", 100, 100).unwrap();
    assert_eq!(p.swap_a_for_b(1_000, 0), Ok(90));
    assert_eq!(p.get_collected_fees(), (3, 0));
}
