use stellar_defi_toolkit::oracle::{check_staleness, MockOracle, OracleError, PriceOracle, PriceOracleSim};
use stellar_defi_toolkit::types::{OracleSanityConfig, ProtocolError};

#[test]
fn mock_oracle_sets_and_reads_price_for_any_asset() {
    let mut oracle = MockOracle::new("admin");
    oracle.set_price("admin", "XLM", 100).unwrap();
    oracle.set_price("admin", "BTC", 60_000).unwrap();

    assert_eq!(oracle.get_price("XLM").unwrap(), 100);
    assert_eq!(oracle.get_price("BTC").unwrap(), 60_000);
}

#[test]
fn mock_oracle_rejects_non_admin_price_updates() {
    let mut oracle = MockOracle::new("admin");
    let err = oracle.set_price("attacker", "XLM", 100).unwrap_err();
    assert_eq!(err, ProtocolError::Unauthorized);
}

#[test]
fn mock_oracle_simulates_linear_trend() {
    let mut oracle = MockOracle::new("admin");
    oracle.simulate_trend("admin", "XLM", 100, 200, 4, 3_600).unwrap();

    assert_eq!(oracle.get_price("XLM").unwrap(), 200);
    assert_eq!(oracle.now(), 4 * 3_600);
}

#[test]
fn mock_oracle_simulates_spike_and_reversion() {
    let mut sanity = OracleSanityConfig::default();
    sanity.max_price_deviation_bps = 0;
    let mut oracle = MockOracle::with_sanity("admin", sanity);

    oracle.simulate_spike("admin", "XLM", 100, 500, 60).unwrap();

    assert_eq!(oracle.get_price("XLM").unwrap(), 100);
}

#[test]
fn mock_oracle_simulates_50_percent_crash_over_one_hour() {
    let mut sanity = OracleSanityConfig::default();
    sanity.max_price_deviation_bps = 0;
    let mut oracle = MockOracle::with_sanity("admin", sanity);

    oracle.simulate_crash("admin", "XLM", 1_000, 5_000, 6, 3_600).unwrap();

    assert_eq!(oracle.get_price("XLM").unwrap(), 500);
    assert_eq!(oracle.now(), 3_600);
}

#[test]
fn mock_oracle_simulates_staleness() {
    let mut sanity = OracleSanityConfig::default();
    sanity.max_price_age_secs = 3_600;
    let mut oracle = MockOracle::with_sanity("admin", sanity);

    oracle.set_price("admin", "XLM", 100).unwrap();
    assert_eq!(oracle.get_price("XLM").unwrap(), 100);

    oracle.simulate_staleness(3_601);
    let err = oracle.get_price("XLM").unwrap_err();
    assert_eq!(err, ProtocolError::OraclePriceStale("XLM".to_string()));
}

#[test]
fn oracle_rejects_price_below_minimum_with_message() {
    let mut oracle = PriceOracleSim::new("admin");
    let err = oracle.set_price("admin", "XLM", -5).unwrap_err();
    assert_eq!(
        err,
        ProtocolError::OracleSanityCheckFailed("XLM".to_string(), "price -5 is below minimum 1".to_string())
    );
}

#[test]
fn oracle_circuit_breaker_rejects_large_move() {
    let mut oracle = PriceOracleSim::new("admin");
    oracle.set_price("admin", "XLM", 100).unwrap();
    let err = oracle.set_price("admin", "XLM", 151).unwrap_err();
    assert_eq!(
        err,
        ProtocolError::OracleSanityCheckFailed(
            "XLM".to_string(),
            "price deviation 5100bps exceeds circuit-breaker threshold 5000bps".to_string()
        )
    );
    assert_eq!(oracle.get_price("XLM").unwrap(), 100);
    oracle.set_price("admin", "XLM", 150).unwrap();
    assert_eq!(oracle.get_price("XLM").unwrap(), 150);
}

#[test]
fn oracle_rejects_price_above_maximum() {
    let mut sanity = OracleSanityConfig::default();
    sanity.max_price = 1_000;
    let mut oracle = PriceOracleSim::with_sanity("admin", sanity);
    let err = oracle.set_price("admin", "BTC", 1_001).unwrap_err();
    assert_eq!(
        err,
        ProtocolError::OracleSanityCheckFailed("BTC".to_string(), "price 1001 exceeds maximum 1000".to_string())
    );
}

#[test]
fn oracle_missing_price_and_staleness_at() {
    let mut oracle = PriceOracleSim::new("admin");
    assert_eq!(oracle.get_price("ETH").unwrap_err(), ProtocolError::MissingPrice("ETH".to_string()));
    oracle.set_price_at("admin", "ETH", 2_000, 1_000).unwrap();
    assert_eq!(oracle.get_price_at("ETH", 4_600).unwrap(), 2_000);
    assert_eq!(oracle.get_price_at("ETH", 4_601).unwrap_err(), ProtocolError::OraclePriceStale("ETH".to_string()));
    assert_eq!(oracle.get_price_at("ETH", 0).unwrap(), 2_000);
}

#[test]
fn oracle_sanity_config_is_admin_only() {
    let mut oracle = PriceOracleSim::new("admin");
    let mut sanity = OracleSanityConfig::default();
    sanity.min_price = 10;
    assert_eq!(oracle.set_sanity_config("mallory", sanity).unwrap_err(), ProtocolError::Unauthorized);
    oracle.set_sanity_config("admin", sanity).unwrap();
    assert!(oracle.set_price("admin", "XLM", 9).is_err());
    assert_eq!(oracle.admin(), "admin");
}

#[test]
fn mock_oracle_derefs_to_price_oracle_sim_for_protocol_use() {
    const WAD: i128 = 1_000_000_000_000_000_000;
    let mut oracle = MockOracle::new("admin");
    oracle.set_price("admin", "XLM", WAD).unwrap();
    // `&MockOracle` derefs to `&PriceOracleSim` for code that consumes the simulator.
    let sim: &PriceOracleSim = &oracle;
    assert_eq!(sim.get_price("XLM").unwrap(), WAD);
    assert!(sim.get_price("XLM").unwrap() > 0);
}

fn setup_price_oracle() -> (PriceOracle, String) {
    let mut client = PriceOracle::default();
    let admin = "admin".to_string();
    client.initialize(&admin).unwrap();
    (client, admin)
}

#[test]
fn oracle_test_initialization() {
    let (client, admin) = setup_price_oracle();
    assert_eq!(client.admin(), admin);
}

#[test]
fn test_set_and_get_price() {
    let (mut client, admin) = setup_price_oracle();
    let asset = "XLM";
    client.set_price(&admin, asset, 15000000).unwrap();
    assert_eq!(client.get_price(asset), Ok(15000000));
}

#[test]
fn test_unauthorized_fails() {
    let (mut client, _admin) = setup_price_oracle();
    let result = client.set_price("attacker", "XLM", 15000000);
    assert_eq!(result, Err(OracleError::Unauthorized));
}

#[test]
fn test_invalid_amount_fails() {
    let (mut client, admin) = setup_price_oracle();
    let result = client.set_price(&admin, "XLM", 0);
    assert_eq!(result, Err(OracleError::InvalidAmount));
    let result = client.set_price(&admin, "XLM", -5);
    assert_eq!(result, Err(OracleError::InvalidAmount));
}

#[test]
fn test_missing_price_fails() {
    let (client, _admin) = setup_price_oracle();
    let result = client.get_price("BTC");
    assert_eq!(result, Err(OracleError::MissingPrice));
}

#[test]
fn price_oracle_initializes_once_and_overwrites_prices() {
    let (mut client, admin) = setup_price_oracle();
    assert_eq!(client.initialize("other"), Err(OracleError::AlreadyInitialized));
    client.set_price(&admin, "XLM", 1).unwrap();
    client.set_price(&admin, "XLM", 2).unwrap();
    assert_eq!(client.get_price("XLM"), Ok(2));
}

#[test]
fn staleness_uses_a_saturating_age() {
    assert!(check_staleness(1_000, 100, 899));
    assert!(!check_staleness(1_000, 100, 900));
    assert!(!check_staleness(100, 1_000, 0));
}

#[test]
fn oracle_circuit_breaker_rejects_huge_jump() {
    let mut oracle = PriceOracleSim::new("admin");
    oracle.set_price("admin", "XLM", 1).unwrap();
    assert!(oracle.set_price("admin", "XLM", 1 + (1i128 << 60)).is_err());
    assert_eq!(oracle.get_price("XLM").unwrap(), 1);
}
