use stellar_defi_toolkit::oracle::PriceData;
use stellar_defi_toolkit::oracle_fallback::{
    perform_health_check, OracleAdapter, OracleFailoverManagerContract, OracleManagerContract, OracleNode,
    OracleReputationManagerContract,
};

fn pd(price: i128, timestamp: u64) -> PriceData {
    PriceData { price, timestamp, is_degraded: false }
}

#[test]
fn primary_then_secondary_then_last_good() {
    let mut m = OracleManagerContract::new();
    assert_eq!(
        m.get_price("XLM", 60, 1_000),
        Err("All oracle sources stale and no last known good price available".to_string())
    );
    m.set_primary_price(Some(pd(10, 950)));
    m.set_secondary_price(Some(pd(11, 990)));
    assert_eq!(m.get_price("XLM", 60, 1_000), Ok(pd(10, 950)));
    assert_eq!(m.get_price("XLM", 60, 1_011), Ok(PriceData { price: 11, timestamp: 990, is_degraded: true }));
    assert_eq!(m.get_price("XLM", 60, 2_000), Ok(PriceData { price: 11, timestamp: 990, is_degraded: true }));
    assert_eq!(
        m.get_price("BTC", 60, 2_000),
        Err("All oracle sources stale and no last known good price available".to_string())
    );
}

#[test]
fn missed_updates_lower_reputation_and_pause() {
    let mut r = OracleReputationManagerContract::new();
    assert_eq!(r.record_missed_update("x"), Err("Oracle not registered".to_string()));
    r.register_node("op", OracleNode { reputation_score: 3200, missed_updates: 0, active: true });
    r.record_missed_update("op").unwrap();
    assert_eq!(r.get_oracle_weight("op"), Ok(3050));
    r.record_missed_update("op").unwrap();
    assert_eq!(r.get_oracle_weight("op"), Ok(0));
    r.register_node("low", OracleNode { reputation_score: 100, missed_updates: 0, active: true });
    r.set_pause_threshold(0);
    r.record_missed_update("low").unwrap();
    assert_eq!(r.get_oracle_weight("low"), Ok(0));
    assert_eq!(r.get_oracle_weight("none"), Err("Oracle not registered".to_string()));
}

fn adapter(id: &str, healthy: bool) -> OracleAdapter {
    OracleAdapter { source_id: id.to_string(), priority: 1, is_healthy: healthy, last_health_check: 100 }
}

#[test]
fn failover_picks_first_healthy_unless_overridden() {
    let mut f = OracleFailoverManagerContract::new();
    assert_eq!(f.get_active_oracle("XLM"), Err("No oracle priority list configured for asset".to_string()));
    f.set_oracle_priority("XLM", vec![adapter("a", false), adapter("b", true), adapter("c", true)]);
    assert_eq!(f.get_active_oracle("XLM"), Ok("b".to_string()));
    f.set_oracle_priority("BTC", vec![adapter("a", false)]);
    assert_eq!(
        f.get_active_oracle("BTC"),
        Err("All prioritized oracle adapters are unhealthy; failover failed".to_string())
    );
    f.set_manual_override("BTC", "manual");
    assert_eq!(f.get_active_oracle("BTC"), Ok("manual".to_string()));
}

#[test]
fn health_check_times_out() {
    let mut a = adapter("a", true);
    assert!(perform_health_check(&mut a, 50, 150));
    assert!(!perform_health_check(&mut a, 50, 151));
    assert!(!a.is_healthy);
    assert!(!perform_health_check(&mut a, 50, 100));
}
