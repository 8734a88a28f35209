use stellar_defi_toolkit::manager_contract::{
    AggregationMethod, AggregationParams, AlertSeverity, OracleManagerContract, OracleManagerError,
};
use stellar_defi_toolkit::position_manager::{
    AlertSeverity as PositionAlertSeverity, AlertType, BatchCloseItem, BatchCollateralItem, BatchRebalanceItem,
    PositionError, PositionManagerContract, PositionStatus,
};

fn manager() -> OracleManagerContract {
    let mut m = OracleManagerContract::initialize("admin");
    m.register_oracle("admin", "o1", "ONE", 5_000).unwrap();
    m
}

#[test]
fn oracle_registration_and_weights() {
    let mut m = manager();
    assert_eq!(m.register_oracle("intruder", "o2", "TWO", 1), Err(OracleManagerError::NotAuthorized));
    assert_eq!(m.register_oracle("admin", "o1", "ONE", 1), Err(OracleManagerError::OracleAlreadyRegistered));
    assert_eq!(m.register_oracle("admin", "o2", "TWO", 6_000), Err(OracleManagerError::TotalWeightExceeded));
    m.register_oracle("admin", "o2", "TWO", 5_000).unwrap();
    assert_eq!(m.calculate_total_weight(), 10_000);
    assert_eq!(m.update_oracle_weight("admin", "o1", 5_001), Err(OracleManagerError::TotalWeightExceeded));
    m.update_oracle_weight("admin", "o1", 4_000).unwrap();
    assert_eq!(m.get_oracle_info("o1").unwrap().weight, 4_000);
    assert_eq!(m.get_oracle_info("o1").unwrap().reputation, 8_000);
    m.deactivate_oracle("admin", "o2").unwrap();
    assert_eq!(m.calculate_total_weight(), 4_000);
    let active = m.get_registered_oracles();
    assert_eq!(active.len(), 1);
    assert_eq!(active[0].address, "o1");
    assert_eq!(m.get_oracle_info("nobody"), Err(OracleManagerError::OracleNotFound));
    assert!(m.get_price_alerts(1).is_empty());
}

#[test]
fn aggregation_params_need_two_oracles() {
    let mut m = manager();
    let mut p = m.get_aggregation_params();
    assert_eq!(p.min_oracles, 3);
    assert_eq!(p.aggregation_method, AggregationMethod::ConfidenceWeighted);
    p.min_oracles = 1;
    assert_eq!(m.update_aggregation_params("admin", p), Err(OracleManagerError::MinOraclesTooLow));
    let q = AggregationParams { min_oracles: 2, ..p };
    m.update_aggregation_params("admin", q).unwrap();
    assert_eq!(m.get_aggregation_params().min_oracles, 2);
}

#[test]
fn price_submission_checks() {
    let mut m = manager();
    assert_eq!(m.submit_price("ghost", 1, 100, 9_000, 10, 100), Err(OracleManagerError::OracleNotRegistered));
    assert_eq!(m.submit_price("o1", 1, 100, 9_000, 101, 100), Err(OracleManagerError::FutureTimestamp));
    assert_eq!(m.submit_price("o1", 1, 100, 9_000, 10, 5_000), Err(OracleManagerError::StaleData));
    assert_eq!(m.submit_price("o1", 1, 100, 6_999, 10, 100), Err(OracleManagerError::ConfidenceTooLow));
    // A lone submission cannot be aggregated, so it is refused and not stored.
    assert_eq!(m.submit_price("o1", 1, 100, 9_000, 10, 100), Err(OracleManagerError::InsufficientPriceSources));
    assert_eq!(m.get_oracle_info("o1").unwrap().successful_updates, 0);
    assert_eq!(m.get_aggregated_price(1, 100, "agg"), Err(OracleManagerError::NoPriceData));
    m.deactivate_oracle("admin", "o1").unwrap();
    assert_eq!(m.submit_price("o1", 1, 100, 9_000, 10, 100), Err(OracleManagerError::OracleNotActive));
}

#[test]
fn heartbeat_monitoring() {
    let mut m = manager();
    assert_eq!(m.set_heartbeat_config("admin", "o1", 0, 3, 1_000), Err(OracleManagerError::ZeroHeartbeatInterval));
    m.set_heartbeat_config("admin", "o1", 60, 3, 1_000).unwrap();
    assert_eq!(m.get_heartbeat_status("o1").unwrap().last_heartbeat, 1_000);
    assert!(m.check_heartbeats(1_059).is_empty());
    let alerts = m.check_heartbeats(1_240);
    assert_eq!(alerts.len(), 1);
    assert_eq!(alerts[0].oracle_address, "o1");
    assert_eq!(alerts[0].consecutive_misses, 4);
    assert_eq!(alerts[0].severity, AlertSeverity::High);
    assert!(alerts[0].reputation_downgraded);
    assert_eq!(m.get_oracle_info("o1").unwrap().reputation, 7_800);
    let st = m.get_heartbeat_status("o1").unwrap();
    assert!(st.flagged);
    assert_eq!(st.total_missed, 4);
    assert!(m.record_heartbeat("o1", 1_300));
    let st = m.get_heartbeat_status("o1").unwrap();
    assert!(!st.flagged);
    assert_eq!(st.missed_count, 0);
    assert_eq!(st.total_missed, 4);
    m.disable_heartbeat("admin", "o1").unwrap();
    assert!(!m.get_heartbeat_config("o1").unwrap().enabled);
    assert!(m.check_heartbeats(100_000).is_empty());
    assert_eq!(m.get_all_heartbeat_statuses().len(), 1);
}

#[test]
fn heartbeat_severity_levels() {
    let mut m = manager();
    m.set_heartbeat_config("admin", "o9", 10, 4, 0).unwrap();
    let alerts = m.check_heartbeats(10);
    assert_eq!(alerts[0].severity, AlertSeverity::Low);
    assert!(!alerts[0].reputation_downgraded);
    let alerts = m.check_heartbeats(20);
    assert_eq!(alerts[0].severity, AlertSeverity::Medium);
    let alerts = m.check_heartbeats(80);
    assert_eq!(alerts[0].severity, AlertSeverity::Critical);
    assert_eq!(m.get_heartbeat_status("o9").unwrap().total_missed, 8);
}

fn book() -> PositionManagerContract {
    let mut b = PositionManagerContract::initialize("admin");
    b.create_monitored_position("admin", "alice", 1, "USDC", 1_000, 200_000_000, 20_000, 100, 7, 1_000).unwrap();
    b
}

#[test]
fn position_creation_and_scoring() {
    let mut b = PositionManagerContract::initialize("admin");
    assert_eq!(
        b.create_monitored_position("admin", "alice", 1, "USDC", 1_000, 50_000_000, 20_000, 100, 7, 1_000),
        Err(PositionError::PositionTooSmall)
    );
    assert_eq!(
        b.create_monitored_position("mallory", "alice", 1, "USDC", 1_000, 200_000_000, 20_000, 100, 7, 1_000),
        Err(PositionError::Unauthorized)
    );
    let mut b2 = book();
    assert_eq!(b2.get_risk_score(7), 4_031);
    assert_eq!(b2.get_risk_score(8), 10_000);
    let r = b2.calculate_risk_score(7, 10_000, 10_000, 400, 10_000, 2_000);
    assert_eq!(r.total_score, 10_000);
    assert_eq!(b2.get_risk_score(7), 10_000);
    let a = b2.get_position_analytics(7).unwrap();
    assert_eq!(a.entry_price, 100);
    assert_eq!(a.initial_collateral, 1_000);
    assert_eq!(b2.get_position_analytics(9), Err(PositionError::AnalyticsNotFound));
    b.create_monitored_position("admin", "bob", 2, "XLM", 5, 100_000_000, 30_000, 1, 3, 0).unwrap();
    assert_eq!(b.get_risk_score(3), 1_400);
}

#[test]
fn batch_operations() {
    let mut b = book();
    let r = b
        .batch_rebalance_positions(
            "alice",
            vec![
                BatchRebalanceItem { position_id: 7, owner: "alice".to_string(), target_ratio: 25_000 },
                BatchRebalanceItem { position_id: 7, owner: "mallory".to_string(), target_ratio: 25_000 },
                BatchRebalanceItem { position_id: 7, owner: "alice".to_string(), target_ratio: 25_050 },
            ],
            2_000,
        )
        .unwrap();
    assert_eq!((r.total, r.succeeded, r.failed), (3, 1, 2));
    assert_eq!(r.results[0].error_code, "OK");
    assert_eq!(r.results[1].error_code, "ERR");
    assert_eq!(b.get_risk_score(7), 2_415);

    let r = b
        .batch_adjust_collateral(
            "alice",
            vec![
                BatchCollateralItem { position_id: 7, owner: "alice".to_string(), collateral_token: "USDC".to_string(), delta: 500 },
                BatchCollateralItem { position_id: 7, owner: "alice".to_string(), collateral_token: "USDC".to_string(), delta: -5_000 },
                BatchCollateralItem { position_id: 7, owner: "alice".to_string(), collateral_token: "XLM".to_string(), delta: -1 },
                BatchCollateralItem { position_id: 7, owner: "alice".to_string(), collateral_token: "USDC".to_string(), delta: -1_500 },
            ],
            3_000,
        )
        .unwrap();
    assert_eq!(r.results.iter().map(|x| x.success).collect::<Vec<_>>(), vec![true, false, false, true]);

    let r = b
        .batch_close_positions("alice", vec![BatchCloseItem { position_id: 7, owner: "alice".to_string() }], 90_000)
        .unwrap();
    assert_eq!(r.succeeded, 1);
    assert_eq!(b.get_position_analytics(7).unwrap().days_held, 1);
    let r = b
        .batch_close_positions("alice", vec![BatchCloseItem { position_id: 7, owner: "alice".to_string() }], 90_001)
        .unwrap();
    assert_eq!(r.failed, 1);
    let too_many: Vec<BatchCloseItem> =
        (0..21).map(|i| BatchCloseItem { position_id: i, owner: "alice".to_string() }).collect();
    assert_eq!(b.batch_close_positions("alice", too_many, 1).unwrap_err(), PositionError::BatchTooLarge);
}

#[test]
fn alerts_are_deduplicated_and_acknowledged() {
    let mut b = book();
    assert_eq!(b.raise_alert(7, AlertType::LowCollateral, PositionAlertSeverity::Warning, "LOW", 99, 5_000), 99);
    assert_eq!(b.raise_alert(7, AlertType::LowCollateral, PositionAlertSeverity::Warning, "LOW", 100, 5_100), 0);
    assert_eq!(b.raise_alert(7, AlertType::OracleFailure, PositionAlertSeverity::Info, "ORA", 101, 5_100), 101);
    assert_eq!(b.get_position_alerts(7).len(), 2);
    assert_eq!(b.get_user_alerts("alice").len(), 2);
    assert_eq!(b.acknowledge_alert("bob", 7, 99), Err(PositionError::NotPositionOwner));
    assert_eq!(b.acknowledge_alert("alice", 8, 99), Err(PositionError::PositionNotFound));
    b.acknowledge_alert("alice", 7, 99).unwrap();
    let open = b.get_user_alerts("alice");
    assert_eq!(open.len(), 1);
    assert_eq!(open[0].alert_id, 101);
    assert_eq!(b.raise_alert(7, AlertType::LowCollateral, PositionAlertSeverity::Warning, "LOW", 102, 8_600), 102);
}

#[test]
fn monitoring_and_analytics() {
    let mut b = PositionManagerContract::initialize("admin");
    b.create_monitored_position("admin", "alice", 2, "USDC", 1_000, 200_000_000, 11_000, 100, 8, 0).unwrap();
    b.monitor_positions(6_000, 10_000, 1_000, 50);
    assert!(b.get_position_alerts(8).is_empty());
    b.monitor_positions(6_000, 10_000, 4_000, 51);
    let alerts = b.get_position_alerts(8);
    assert_eq!(alerts.len(), 2);
    assert_eq!(alerts[0].alert_type, AlertType::LowCollateral);
    assert_eq!(alerts[0].message, "LOW_COL");
    assert_eq!(alerts[1].alert_type, AlertType::PriceVolatility);
    assert_eq!(b.get_risk_score(8), 7_800);

    b.update_analytics(8, 150, 172_800).unwrap();
    let a = b.get_position_analytics(8).unwrap();
    assert_eq!(a.pnl, 100);
    assert_eq!(a.roi_bps, 1_000);
    assert_eq!(a.daily_returns_sum, 5_000);
    assert_eq!(a.daily_return_samples, 1);
    assert_eq!(a.days_held, 2);
    b.update_analytics(8, 50, 259_200).unwrap();
    let a = b.get_position_analytics(8).unwrap();
    assert_eq!(a.pnl, -100);
    assert_eq!(a.roi_bps, -1_000);
    assert_eq!(a.max_drawdown_bps, 1_000);
    assert_eq!(a.daily_returns_sum, -1_666);
    assert_eq!(a.daily_return_samples, 2);
    assert_eq!(a.sharpe_ratio_scaled, -1_428);
    assert_eq!(b.export_user_analytics("alice").len(), 1);
    assert_eq!(b.update_analytics(1, 1, 1), Err(PositionError::AnalyticsNotFound));
    let _ = PositionStatus::Active;
}
