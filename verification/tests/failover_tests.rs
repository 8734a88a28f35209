use stellar_defi_toolkit::failover::{AdapterHealth, FailoverEngine, FailoverReason, HealthMonitor};
use stellar_defi_toolkit::oracle_manager::{
    CoordinationEventType, CoordinatorConfig, CoordinatorError, OracleFailoverCoordinator,
};

#[test]
fn adapter_health_starts_perfect() {
    let h = AdapterHealth::new("a");
    assert_eq!(h.total_requests, 0);
    assert_eq!(h.success_rate_bps, 10_000);
    assert_eq!(h.uptime_bps, 10_000);
    assert!(h.is_healthy);
}

#[test]
fn adapter_health_tracks_rates_and_latency() {
    let mut h = AdapterHealth::new("a");
    h.record(100, true, 50, 1);
    h.record(300, false, 0, 2);
    assert_eq!(h.total_requests, 2);
    assert_eq!(h.successful_requests, 1);
    assert_eq!(h.success_rate_bps, 5_000);
    assert_eq!(h.avg_latency_ms, 200);
    assert_eq!(h.p95_latency_ms, 300);
    assert_eq!(h.avg_deviation_bps, 50);
    assert_eq!(h.last_success_ts, 1);
    assert!(!h.is_healthy);
}

#[test]
fn adapter_health_uptime() {
    let mut h = AdapterHealth::new("a");
    h.tick(30, true);
    h.tick(10, false);
    assert_eq!(h.monitored_secs, 40);
    assert_eq!(h.healthy_secs, 30);
    assert_eq!(h.uptime_bps, 7_500);
}

#[test]
fn health_monitor_lists_unhealthy_adapters() {
    let mut m = HealthMonitor::new();
    m.register("good");
    m.record("good", 10, true, 0, 1);
    m.record("bad", 10, false, 0, 1);
    assert!(m.get("good").unwrap().is_healthy);
    assert!(!m.get("bad").unwrap().is_healthy);
    assert_eq!(m.unhealthy_adapters(), vec!["bad".to_string()]);
    assert!(m.get("unknown").is_none());
}

#[test]
fn engine_orders_chain_by_priority() {
    let mut e = FailoverEngine::new();
    e.register("c", 3);
    e.register("a", 1);
    e.register("b", 2);
    let ids: Vec<&str> = e.adapters().iter().map(|a| a.adapter_id.as_str()).collect();
    assert_eq!(ids, vec!["a", "b", "c"]);
    e.set_priority("c", 0);
    let ids: Vec<&str> = e.adapters().iter().map(|a| a.adapter_id.as_str()).collect();
    assert_eq!(ids, vec!["c", "a", "b"]);
}

#[test]
fn engine_fails_over_to_next_adapter() {
    let mut e = FailoverEngine::new();
    e.register("primary", 1);
    e.register("backup", 2);
    let r = e.fetch("XLM", 100, |id: &str, _asset: &str| {
        if id == "primary" {
            (Err("down".to_string()), 5)
        } else {
            (Ok(123), 7)
        }
    });
    assert_eq!(r.unwrap(), 123);
    let evs = e.drain_events();
    assert_eq!(evs.len(), 2);
    assert_eq!(evs[0].adapter_id, "primary");
    assert!(!evs[0].succeeded);
    assert_eq!(evs[0].reason, Some(FailoverReason::AdapterError));
    assert_eq!(evs[1].adapter_id, "backup");
    assert!(evs[1].succeeded);
    assert!(e.events().is_empty());
}

#[test]
fn engine_reports_all_failures() {
    let mut e = FailoverEngine::new();
    e.register("a", 1);
    e.register("b", 2);
    e.set_enabled("b", false);
    let r = e.fetch("XLM", 100, |_id: &str, _asset: &str| (Err("down".to_string()), 5));
    let evs = r.unwrap_err();
    assert!(evs.iter().all(|ev| !ev.succeeded));
    assert!(evs.iter().any(|ev| ev.adapter_id == "b" && ev.reason == Some(FailoverReason::Disabled)));
}

#[test]
fn engine_manual_override_asks_one_adapter() {
    let mut e = FailoverEngine::new();
    e.register("a", 1);
    e.register("b", 2);
    e.set_manual_override(Some("b"));
    assert_eq!(e.manual_override(), Some("b"));
    let r = e.fetch("XLM", 1, |id: &str, _asset: &str| if id == "b" { (Ok(77), 1) } else { (Ok(1), 1) });
    assert_eq!(r.unwrap(), 77);
    assert_eq!(e.events().len(), 1);
    e.set_manual_override(None);
    assert_eq!(e.manual_override(), None);
}

fn three_oracles() -> OracleFailoverCoordinator {
    let mut c = OracleFailoverCoordinator::new();
    c.register_oracle("o1", 1);
    c.register_oracle("o2", 2);
    c.register_oracle("o3", 3);
    c
}

#[test]
fn coordinator_without_oracles_fails() {
    let mut c = OracleFailoverCoordinator::new();
    let r = c.fetch_consensus("XLM", 1, |_id: &str, _asset: &str| (Ok(1), 1));
    assert_eq!(r.unwrap_err(), CoordinatorError::NoOracles);
}

#[test]
fn coordinator_takes_median_and_drops_outliers() {
    let mut c = three_oracles();
    let r = c
        .fetch_consensus("XLM", 42, |id: &str, _asset: &str| match id {
            "o1" => (Ok(100), 10),
            "o2" => (Ok(101), 20),
            _ => (Ok(150), 30),
        })
        .unwrap();
    assert_eq!(r.asset_id, "XLM");
    assert_eq!(r.consensus_price, Some(101));
    assert_eq!(r.responses, 3);
    assert_eq!(r.excluded, 1);
    assert!(r.quorum_reached);
    assert_eq!(r.timestamp, 42);
    assert_eq!(r.contributions.len(), 3);
    assert!(r.contributions[0].included);
    assert_eq!(r.contributions[0].deviation_bps, 99);
    assert!(!r.contributions[2].included);
    assert_eq!(r.contributions[2].deviation_bps, 4_851);
    let evs = c.drain_events();
    assert!(evs.iter().any(|e| e.event_type
        == CoordinationEventType::OracleExcluded { oracle_id: "o3".to_string(), deviation_bps: 4_851 }));
    assert_eq!(evs.last().unwrap().event_type, CoordinationEventType::ConsensusReached);
}

#[test]
fn coordinator_quorum_failure() {
    let mut c = three_oracles();
    let r = c.fetch_consensus("XLM", 1, |id: &str, _asset: &str| {
        if id == "o1" {
            (Ok(100), 1)
        } else {
            (Err("timeout".to_string()), 1)
        }
    });
    assert_eq!(r.unwrap_err(), CoordinatorError::QuorumNotMet { responses: 1, required: 2 });
}

#[test]
fn coordinator_skips_disabled_oracles() {
    let mut c = three_oracles();
    c.set_oracle_enabled("o3", false);
    let r = c.fetch_consensus("XLM", 1, |_id: &str, _asset: &str| (Ok(200), 1)).unwrap();
    assert_eq!(r.responses, 2);
    assert_eq!(r.contributions[2].price, None);
    assert!(!r.contributions[2].included);
    assert_eq!(r.consensus_price, Some(200));
}

#[test]
fn coordinator_manual_override() {
    let mut c = three_oracles();
    c.set_manual_override_at(Some("o2"), 9);
    let r = c
        .fetch_consensus("XLM", 10, |id: &str, _asset: &str| if id == "o2" { (Ok(555), 3) } else { (Ok(1), 3) })
        .unwrap();
    assert_eq!(r.consensus_price, Some(555));
    assert_eq!(r.responses, 1);
    assert_eq!(r.contributions.len(), 1);
    assert_eq!(r.contributions[0].oracle_id, "o2");
    let r = c.fetch_consensus("XLM", 11, |_id: &str, _asset: &str| (Err("x".to_string()), 3));
    assert_eq!(r.unwrap_err(), CoordinatorError::QuorumNotMet { responses: 0, required: 1 });
    let evs = c.drain_events();
    assert_eq!(
        evs[0].event_type,
        CoordinationEventType::ManualOverrideApplied { oracle_id: "o2".to_string() }
    );
    assert_eq!(evs[0].timestamp, 9);
}

#[test]
fn coordinator_config_defaults() {
    let c = OracleFailoverCoordinator::default();
    assert_eq!(c.config().min_quorum, 2);
    assert_eq!(c.config().max_deviation_bps, 200);
    assert!(!c.config().strict_health_gate);
    let cfg = CoordinatorConfig { min_quorum: 1, max_deviation_bps: 10, strict_health_gate: true, timeout_ms: 5 };
    let c = OracleFailoverCoordinator::with_config(cfg);
    assert_eq!(*c.config(), cfg);
}

#[test]
fn coordinator_strict_gate_skips_unhealthy() {
    let cfg = CoordinatorConfig { min_quorum: 1, max_deviation_bps: 200, strict_health_gate: true, timeout_ms: 5 };
    let mut c = OracleFailoverCoordinator::with_config(cfg);
    c.register_oracle("o1", 1);
    c.register_oracle("o2", 2);
    // o1 fails once and becomes unhealthy.
    let _ = c.fetch_consensus("XLM", 1, |id: &str, _asset: &str| {
        if id == "o1" {
            (Err("x".to_string()), 1)
        } else {
            (Ok(10), 1)
        }
    });
    assert!(!c.health().get("o1").unwrap().is_healthy);
    let r = c.fetch_consensus("XLM", 2, |_id: &str, _asset: &str| (Ok(10), 1)).unwrap();
    assert_eq!(r.contributions[0].price, None);
    assert_eq!(r.responses, 1);
}

#[test]
fn ranked_orders_by_success_rate() {
    let mut m = HealthMonitor::new();
    m.register("a");
    m.register("b");
    m.register("c");
    m.record("a", 10, false, 0, 1);
    m.record("b", 10, true, 0, 1);
    m.record("c", 10, true, 0, 1);
    let ranked = m.ranked();
    let ids: Vec<&str> = ranked.iter().map(|h| h.adapter_id.as_str()).collect();
    assert_eq!(ids, vec!["b", "c", "a"]);
    assert_eq!(ranked[0].success_rate_bps, 10_000);
    assert_eq!(ranked[2].success_rate_bps, 0);
}

#[test]
fn coordinator_zero_quorum_without_answers_fails() {
    let cfg = CoordinatorConfig { min_quorum: 0, max_deviation_bps: 200, strict_health_gate: false, timeout_ms: 5 };
    let mut c = OracleFailoverCoordinator::with_config(cfg);
    c.register_oracle("o1", 1);
    let r = c.fetch_consensus("XLM", 1, |_id: &str, _asset: &str| (Err("down".to_string()), 1));
    assert!(matches!(r, Err(CoordinatorError::QuorumNotMet { responses: 0, required: 0 })));
    let r = c.fetch_consensus("XLM", 2, |_id: &str, _asset: &str| (Ok(7), 1)).unwrap();
    assert_eq!(r.consensus_price, Some(7));
}
