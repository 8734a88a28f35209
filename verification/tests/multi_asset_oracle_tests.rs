use stellar_defi_toolkit::multi_asset_oracle::{AlertSeverity, FeedPrice, MultiAssetOracleContract, MultiOracleError};

fn quote(price: u64, confidence: u32, ts: u64) -> FeedPrice {
    FeedPrice {
        asset_id: "XLM".to_string(),
        price,
        decimals: 7,
        confidence,
        timestamp: ts,
        source: "feed".to_string(),
        price_change_24h: 0,
        high_24h: price,
        low_24h: price,
        volume_24h: 0,
    }
}

#[test]
fn aggregates_and_caches() {
    let mut o = MultiAssetOracleContract::initialize("admin", "registry");
    o.submit_price("XLM", quote(100, 5_000, 10), 10, "agg").unwrap();
    let p = o.get_price("XLM", 20, "agg").unwrap();
    assert_eq!(p.price, 100);
    assert_eq!(p.confidence, 5_000);
    assert_eq!(p.decimals, 7);
    assert_eq!(p.timestamp, 10);
    o.submit_price("XLM", quote(300, 5_000, 20), 20, "agg").unwrap();
    let alerts = o.get_deviation_alerts();
    assert_eq!(alerts.len(), 1);
    assert_eq!(alerts[0].expected_price, 100);
    assert_eq!(alerts[0].reported_price, 200);
    assert_eq!(alerts[0].deviation_bps, 10_000);
    assert_eq!(alerts[0].severity, AlertSeverity::Critical);
    let p = o.get_price("XLM", 100, "agg2").unwrap();
    assert_eq!(p.price, 200);
    assert_eq!(p.timestamp, 100);
    assert_eq!(p.source, "agg2");
    assert_eq!(o.get_price("BTC", 100, "agg").unwrap_err(), MultiOracleError::PriceNotAvailable);
    assert_eq!(o.clear_deviation_alerts("nobody"), Err(MultiOracleError::NotAuthorized));
    o.clear_deviation_alerts("admin").unwrap();
    assert!(o.get_deviation_alerts().is_empty());
}

#[test]
fn pausing_blocks_submissions() {
    let mut o = MultiAssetOracleContract::initialize("admin", "registry");
    assert_eq!(o.pause("nobody"), Err(MultiOracleError::NotAuthorized));
    o.pause("admin").unwrap();
    assert_eq!(o.submit_price("XLM", quote(1, 1, 1), 1, "agg"), Err(MultiOracleError::Paused));
    o.unpause("admin").unwrap();
    o.submit_price("XLM", quote(1, 1, 1), 1, "agg").unwrap();
    o.update_asset_registry("admin", "registry2").unwrap();
}

#[test]
fn time_weighted_average_and_history_cap() {
    let mut o = MultiAssetOracleContract::initialize("admin", "registry");
    assert_eq!(o.get_twap_price("XLM", 10, 100, "t").unwrap_err(), MultiOracleError::NoPriceHistory);
    o.submit_price("XLM", quote(100, 5_000, 10), 10, "agg").unwrap();
    assert_eq!(o.get_twap_price("XLM", 100, 100, "t").unwrap_err(), MultiOracleError::NoPriceDataInPeriod);
    o.submit_price("XLM", quote(300, 5_000, 20), 20, "agg").unwrap();
    o.submit_price("XLM", quote(500, 5_000, 50), 50, "agg").unwrap();
    let t = o.get_twap_price("XLM", 100, 100, "t").unwrap();
    assert_eq!(t.price, (100 * 10 + 300 * 30) / 40);
    assert_eq!(t.source, "t");
    for i in 0..110u64 {
        o.submit_price("XLM", quote(100, 5_000, 100 + i), 100 + i, "agg").unwrap();
    }
    assert_eq!(o.get_price_history("XLM").len(), 100);
    assert!(o.get_price_history("BTC").is_empty());
}
