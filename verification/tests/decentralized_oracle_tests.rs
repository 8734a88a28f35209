use stellar_defi_toolkit::decentralized_oracle::{
    DecentralizedOracle, DecentralizedOracleError, DisputeStatus, OracleSlashingContract, MIN_ORACLES, MIN_STAKE,
};

fn setup_test() -> (DecentralizedOracle, String) {
    let mut client = DecentralizedOracle::new();
    let admin = "admin".to_string();
    client.initialize(&admin).unwrap();
    (client, admin)
}

#[test]
fn decentralized_oracle_test_initialization() {
    let (client, _admin) = setup_test();
    let min_oracles = client.config("MIN_ORACL").unwrap();
    assert_eq!(min_oracles, MIN_ORACLES as u64);
}

#[test]
fn test_register_oracle() {
    let (mut client, _admin) = setup_test();
    let oracle = "oracle";
    client.register_oracle(oracle, MIN_STAKE).unwrap();
    let stake = client.get_oracle_stake(oracle);
    assert_eq!(stake, Ok(MIN_STAKE));
}

#[test]
fn test_insufficient_stake_fails() {
    let (mut client, _admin) = setup_test();
    let result = client.register_oracle("oracle", MIN_STAKE - 1);
    assert!(matches!(result, Err(_)));
}

#[test]
fn test_submit_price() {
    let (mut client, _admin) = setup_test();
    let oracle = "oracle";
    client.register_oracle(oracle, MIN_STAKE).unwrap();

    let asset_id = 1u32;
    let price = 1000000u64;
    let confidence = 9000u32;
    let timestamp = 0u64;

    client.submit_price(oracle, asset_id, price, confidence, timestamp, 0).unwrap();
}

#[test]
fn test_unauthorized_config_update_fails() {
    let (mut client, _admin) = setup_test();
    let result = client.update_config("unauthorized", "MIN_ORACL", 4);
    assert!(matches!(result, Err(_)));
}

#[test]
fn price_is_aggregated_by_reputation_after_three_reports() {
    let (mut client, admin) = setup_test();
    for o in ["a", "b", "c"] {
        client.register_oracle(o, MIN_STAKE).unwrap();
    }
    client.submit_price("a", 7, 100, 9000, 50, 60).unwrap();
    client.submit_price("b", 7, 200, 9000, 50, 60).unwrap();
    assert_eq!(client.get_price(7), Err(DecentralizedOracleError::InsufficientOracles));
    client.submit_price("c", 7, 300, 9000, 50, 60).unwrap();
    assert_eq!(client.get_price(7), Ok(200));
    // Slashing "c" lowers its weight: (100*8000 + 200*8000 + 300*7200) / 23200 = 196.
    client.slash_oracle(&admin, "c", "bad").unwrap();
    assert_eq!(client.get_oracle_reputation("c"), Ok(7200));
    assert_eq!(client.get_oracle_stake("c"), Ok(900_000));
    client.submit_price("a", 7, 100, 9000, 50, 60).unwrap();
    assert_eq!(client.get_price(7), Ok(196));
}

#[test]
fn reports_are_checked() {
    let (mut client, admin) = setup_test();
    client.register_oracle("a", MIN_STAKE).unwrap();
    assert_eq!(client.register_oracle("a", MIN_STAKE), Err(DecentralizedOracleError::OracleExists));
    assert_eq!(client.submit_price("z", 1, 1, 9000, 0, 0), Err(DecentralizedOracleError::OracleNotFound));
    assert_eq!(client.submit_price("a", 1, 1, 9000, 10, 5), Err(DecentralizedOracleError::PriceTooOld));
    assert_eq!(client.submit_price("a", 1, 1, 9000, 0, 3601), Err(DecentralizedOracleError::PriceTooOld));
    assert_eq!(client.submit_price("a", 1, 1, 6999, 0, 0), Err(DecentralizedOracleError::ConfidenceTooLow));
    assert_eq!(client.submit_price("a", 1, 0, 9000, 0, 0), Err(DecentralizedOracleError::InvalidPrice));
    client.pause(&admin).unwrap();
    assert_eq!(client.submit_price("a", 1, 1, 9000, 0, 0), Err(DecentralizedOracleError::ContractPaused));
    assert_eq!(client.pause("x"), Err(DecentralizedOracleError::Unauthorized));
    client.unpause(&admin).unwrap();
    client.update_config(&admin, "MAX_ORCL", 1).unwrap();
    assert_eq!(client.register_oracle("b", MIN_STAKE), Err(DecentralizedOracleError::MaxOraclesReached));
    assert_eq!(client.get_oracle_addresses(), vec!["a".to_string()]);
}

#[test]
fn unbonding_and_withdrawal() {
    let (mut client, _admin) = setup_test();
    client.register_oracle("a", 2_000_000).unwrap();
    assert_eq!(client.withdraw_stake("a", 10), Err(DecentralizedOracleError::NotStaked));
    client.request_unbond("a", 100).unwrap();
    assert_eq!(client.withdraw_stake("a", 100 + 604_799), Err(DecentralizedOracleError::StillUnbonding));
    assert_eq!(client.withdraw_stake("a", 100 + 604_800), Ok(2_000_000));
    assert_eq!(client.get_oracle_stake("a"), Err(DecentralizedOracleError::OracleNotFound));
    assert_eq!(client.request_unbond("a", 0), Err(DecentralizedOracleError::NotStaked));
}

#[test]
fn disputes_slash_or_reward() {
    let (mut client, admin) = setup_test();
    client.register_oracle("a", 1_000_000).unwrap();
    assert_eq!(client.open_dispute("c", "a", 1, 1, 0), Err(DecentralizedOracleError::InvalidBond));
    let d0 = client.open_dispute("c", "a", 1, 500_000, 1_000).unwrap();
    let d1 = client.open_dispute("c", "a", 1, 500_000, 1_000).unwrap();
    assert_eq!((d0, d1), (0, 1));
    assert_eq!(client.resolve_dispute(&admin, d0, true, 2_000), Err(DecentralizedOracleError::DisputeReviewActive));
    client.resolve_dispute(&admin, d0, true, 1_000 + 172_800).unwrap();
    assert_eq!(client.get_oracle_stake("a"), Ok(900_000));
    assert_eq!(
        client.resolve_dispute(&admin, d0, true, 1_000 + 172_800),
        Err(DecentralizedOracleError::DisputeNotPending)
    );
    client.resolve_dispute(&admin, d1, false, 1_000 + 172_800).unwrap();
    assert_eq!(client.get_oracle_stake("a"), Ok(1_400_000));
    assert_eq!(client.resolve_dispute(&admin, 9, false, 0), Err(DecentralizedOracleError::DisputeNotFound));
    let _ = DisputeStatus::Pending;
}

#[test]
fn bad_data_reports_and_execution() {
    let mut s = OracleSlashingContract::new();
    s.initialize("admin");
    assert_eq!(
        s.report_bad_data("c", "n", 110, 100, 10, 0),
        Err("Deviation is within acceptable consensus limits".to_string())
    );
    let id = s.report_bad_data("c", "n", 160, 100, 10, 5).unwrap();
    assert_eq!(id, 1);
    assert_eq!(s.execute_slashing("admin", id, 14), Err("Challenge period has not yet elapsed".to_string()));
    s.execute_slashing("admin", id, 15).unwrap();
    assert_eq!(s.execute_slashing("admin", id, 15), Err("Slashing already executed".to_string()));
    assert_eq!(s.execute_slashing("admin", 7, 15), Err("Slashing record not found".to_string()));
}
