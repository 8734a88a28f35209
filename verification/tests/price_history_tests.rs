use stellar_defi_toolkit::anomaly::{AnomalyConfidence, AnomalyConfig, AnomalyDetector, AnomalyMethod};
use stellar_defi_toolkit::history_manager::PriceHistoryManager;
use stellar_defi_toolkit::price_history::{
    ArchivalConfig, ArchiveTier, PriceHistoryEntry, PriceHistoryError, TimeBucket,
};

fn now_secs() -> u64 {
    std::time::SystemTime::now()
        .duration_since(std::time::UNIX_EPOCH)
        .unwrap()
        .as_secs()
}

fn entry(asset: &str, price: u64, timestamp: u64) -> PriceHistoryEntry {
    PriceHistoryEntry {
        asset_id: asset.to_string(),
        price,
        decimals: 6,
        timestamp,
        source: "oracle1".to_string(),
        volume: 1000,
        transaction_count: 10,
    }
}

fn manual_manager() -> PriceHistoryManager {
    PriceHistoryManager::with_config(ArchivalConfig {
        auto_archive_on_store: false,
        archival_interval_secs: 3_600,
    })
}

#[test]
fn test_manager_creation() {
    let manager = PriceHistoryManager::new();
    assert!(manager.get_asset_metadata("XLM").is_err());
    let all = manager
        .get_price_history("XLM", TimeBucket::OneMinute, 0, u64::MAX, None, None)
        .unwrap();
    assert!(all.is_empty());
}

#[test]
fn test_store_price() {
    let mut manager = PriceHistoryManager::new();
    let current_time = now_secs();
    assert!(manager.store_price(entry("XLM", 1000000, current_time)).is_ok());
}

#[test]
fn test_twap_calculation() {
    let mut manager = PriceHistoryManager::new();
    let base_time = now_secs();
    for i in 0u64..10 {
        manager
            .store_price(entry("XLM", 1_000_000 + i * 10_000, base_time - 600 + i * 60))
            .unwrap();
    }
    let twap = manager.calculate_twap("XLM", 600).unwrap();
    assert!(twap.twap_price > 0);
}

#[test]
fn test_get_price_history_pagination() {
    let mut manager = PriceHistoryManager::new();
    let base_time = now_secs();
    for i in 0..10 {
        manager
            .store_price(entry("XLM", 1000000 + (i * 10000), base_time + (i * 60)))
            .unwrap();
    }

    let all = manager
        .get_price_history("XLM", TimeBucket::OneMinute, base_time, base_time + 600, None, None)
        .unwrap();
    assert_eq!(all.len(), 10);

    let limited = manager
        .get_price_history("XLM", TimeBucket::OneMinute, base_time, base_time + 600, Some(3), None)
        .unwrap();
    assert_eq!(limited.len(), 3);
    assert_eq!(limited[0].close, 1000000);

    let offset = manager
        .get_price_history("XLM", TimeBucket::OneMinute, base_time, base_time + 600, None, Some(5))
        .unwrap();
    assert_eq!(offset.len(), 5);
    assert_eq!(offset[0].close, 1050000);

    let paginated = manager
        .get_price_history("XLM", TimeBucket::OneMinute, base_time, base_time + 600, Some(2), Some(3))
        .unwrap();
    assert_eq!(paginated.len(), 2);
    assert_eq!(paginated[0].close, 1030000);
    assert_eq!(paginated[1].close, 1040000);
}

#[test]
fn test_query_historical_prices() {
    let mut manager = PriceHistoryManager::new();
    let base_time = now_secs();
    for i in 0..10 {
        manager
            .store_price(entry("XLM", 1000000 + (i * 10000), base_time + (i * 60)))
            .unwrap();
    }

    let result = manager
        .query_historical_prices("XLM", base_time, base_time + 600, "1min", Some(3), Some(0))
        .unwrap();

    assert_eq!(result.prices.len(), 3);
    assert!(result.twap > 0);
    assert_eq!(result.total_count, 10);
    assert!(result.has_more);
}

#[test]
fn test_without_pagination_flag() {
    let mut manager = PriceHistoryManager::new();
    let base_time = now_secs();
    manager.store_price(entry("XLM", 1000000, base_time)).unwrap();

    let result = manager
        .query_historical_prices("XLM", base_time, base_time + 60, "1min", None, None)
        .unwrap();

    assert_eq!(result.prices.len(), 1);
    assert_eq!(result.has_more, false);
    assert_eq!(result.total_count, 1);
}

#[test]
fn test_invalid_granularity() {
    let manager = PriceHistoryManager::new();
    let err = manager
        .query_historical_prices("XLM", 0, 100, "invalid", None, None)
        .unwrap_err();
    assert_eq!(err, PriceHistoryError::InvalidGranularity("invalid".to_string()));
}

#[test]
fn test_granularity_mapping() {
    assert_eq!(TimeBucket::from_granularity_str("1min").unwrap(), TimeBucket::OneMinute);
    assert_eq!(TimeBucket::from_granularity_str("5min").unwrap(), TimeBucket::FiveMinute);
    assert_eq!(TimeBucket::from_granularity_str("15min").unwrap(), TimeBucket::FifteenMinute);
    assert_eq!(TimeBucket::from_granularity_str("1hr").unwrap(), TimeBucket::OneHour);
    assert_eq!(TimeBucket::from_granularity_str("1day").unwrap(), TimeBucket::OneDay);
    assert!(TimeBucket::from_granularity_str("bad").is_err());
}

#[test]
fn test_time_bucket_durations() {
    assert_eq!(TimeBucket::OneMinute.duration(), 60);
    assert_eq!(TimeBucket::FiveMinute.duration(), 300);
    assert_eq!(TimeBucket::FifteenMinute.duration(), 900);
    assert_eq!(TimeBucket::OneHour.duration(), 3600);
    assert_eq!(TimeBucket::SixHour.duration(), 21600);
    assert_eq!(TimeBucket::OneDay.duration(), 86400);
}

#[test]
fn history_rejects_zero_price_and_far_future_timestamp() {
    let mut manager = manual_manager();
    assert_eq!(
        manager.store_price_at(entry("XLM", 0, 1_000), 1_000),
        Err(PriceHistoryError::InvalidPrice)
    );
    assert_eq!(
        manager.store_price_at(entry("XLM", 5, 1_601), 1_000),
        Err(PriceHistoryError::InvalidTimestamp)
    );
    assert!(manager.store_price_at(entry("XLM", 5, 1_600), 1_000).is_ok());
}

#[test]
fn history_metadata_tracks_entries() {
    let mut manager = manual_manager();
    manager.store_price_at(entry("XLM", 100, 1_000), 1_000).unwrap();
    manager.store_price_at(entry("XLM", 150, 1_060), 1_060).unwrap();
    manager.store_price_at(entry("XLM", 80, 1_120), 1_120).unwrap();
    let meta = manager.get_asset_metadata("XLM").unwrap();
    assert_eq!(meta.total_entries, 3);
    assert_eq!(meta.first_timestamp, 1_000);
    assert_eq!(meta.last_timestamp, 1_120);
    assert_eq!(meta.current_price, 80);
    assert_eq!(meta.high_24h, 150);
    assert_eq!(meta.low_24h, 80);
    assert_eq!(meta.volume_24h, 3_000);
    // from 150 to 80: 70 * 10000 / 150
    assert_eq!(meta.price_change_24h_bps, 4_666);
    assert_eq!(manager.get_asset_metadata("BTC"), Err(PriceHistoryError::AssetNotFound));
}

#[test]
fn history_sma_twap_and_volatility_at_fixed_time() {
    let mut manager = manual_manager();
    let base = 1_000_000u64;
    for i in 0..4u64 {
        manager.store_price_at(entry("XLM", 100 + 100 * i, base + i * 60), base + 300).unwrap();
    }
    // closes 100, 200, 300, 400
    assert_eq!(manager.calculate_sma_at("XLM", 3_600, base + 300), Ok(250));
    let twap = manager.calculate_twap_at("XLM", 3_600, base + 300).unwrap();
    // each close weighted by the 60 s gap to the next bucket: (100 + 200 + 300) / 3
    assert_eq!(twap.twap_price, 200);
    // between the lowest and the highest close
    assert!(twap.twap_price >= 100 && twap.twap_price <= 400);
    assert_eq!(twap.data_points, 4);
    assert_eq!(twap.calculated_at, base + 300);
    // variance 12500, std dev 111 (floor square root), 111 * 10000 / 250 = 4440 bps
    let vol = manager.calculate_volatility_at("XLM", 3_600, base + 300).unwrap();
    assert_eq!(vol, 4440);
    assert_eq!(manager.calculate_twap_at("XLM", 0, base), Err(PriceHistoryError::InvalidPeriod));
    assert_eq!(manager.calculate_sma_at("BTC", 3_600, base), Err(PriceHistoryError::InsufficientData));
}

#[test]
fn history_archival_moves_old_minutes_to_hourly_tier() {
    let mut manager = manual_manager();
    let hour = 3_600u64;
    // two prices in one old hour, one recent price
    manager.store_price_at(entry("XLM", 10, 10 * hour), 10 * hour).unwrap();
    manager.store_price_at(entry("XLM", 30, 10 * hour + 120), 10 * hour + 120).unwrap();
    let now = 10 * hour + 31 * 86_400;
    manager.store_price_at(entry("XLM", 50, now), now).unwrap();

    let stats = manager.run_archival_at(now).unwrap();
    assert_eq!(stats.medium_buckets_created, 1);
    assert_eq!(stats.live_entries_pruned, 2);
    assert_eq!(stats.historical_buckets_created, 0);
    assert_eq!(stats.completed_at, now);
    assert_eq!(manager.last_archival_run(), now);

    let hourly = manager.get_medium_archive("XLM", 0, u64::MAX);
    assert_eq!(hourly.len(), 1);
    let h = &hourly[0];
    assert_eq!(h.tier, ArchiveTier::Medium);
    assert_eq!(h.window_start, 10 * hour);
    assert_eq!(h.window_end, 11 * hour);
    assert_eq!(h.open, 10);
    assert_eq!(h.close, 30);
    assert_eq!(h.high, 30);
    assert_eq!(h.low, 10);
    assert_eq!(h.price_sum, 40);
    assert_eq!(h.raw_entry_count, 2);
    assert_eq!(h.mean_price(), 20);
    assert_eq!(h.compression_ratio(), 60);

    // the archived hour still answers range queries, next to the live data
    let all = manager
        .get_price_history("XLM", TimeBucket::OneMinute, 0, u64::MAX, None, None)
        .unwrap();
    assert_eq!(all.len(), 2);
    assert_eq!(all[0].close, 30);
    assert_eq!(all[1].close, 50);

    // running again creates nothing new
    let again = manager.run_archival_at(now).unwrap();
    assert_eq!(again.medium_buckets_created, 0);
    assert_eq!(again.live_entries_pruned, 0);
}

#[test]
fn history_archival_moves_old_hours_to_daily_tier() {
    let mut manager = manual_manager();
    let day = 86_400u64;
    manager.store_price_at(entry("XLM", 7, 2 * day), 2 * day).unwrap();
    manager.store_price_at(entry("XLM", 9, 2 * day + 3_600), 2 * day + 3_600).unwrap();
    let now = 2 * day + 91 * day;
    let stats = manager.run_archival_at(now).unwrap();
    assert_eq!(stats.medium_buckets_created, 2);
    assert_eq!(stats.historical_buckets_created, 1);
    assert!(manager.get_medium_archive("XLM", 0, u64::MAX).is_empty());
    let daily = manager.get_historical_archive("XLM", 0, u64::MAX);
    assert_eq!(daily.len(), 1);
    assert_eq!(daily[0].tier, ArchiveTier::Historical);
    assert_eq!(daily[0].window_start, 2 * day);
    assert_eq!(daily[0].open, 7);
    assert_eq!(daily[0].close, 9);
    assert_eq!(daily[0].price_sum, 16);
    assert_eq!(daily[0].compression_ratio(), 1_440);
}

#[test]
fn history_cleanup_drops_old_live_buckets() {
    let mut manager = manual_manager();
    manager.store_price_at(entry("XLM", 10, 1_000), 1_000).unwrap();
    manager.store_price_at(entry("XLM", 20, 100_000), 100_000).unwrap();
    manager.cleanup_old_data_at(50_000, 100_000);
    let all = manager
        .get_price_history("XLM", TimeBucket::OneMinute, 0, u64::MAX, None, None)
        .unwrap();
    assert_eq!(all.len(), 1);
    assert_eq!(all[0].close, 20);
}

#[test]
fn history_export_to_csv_lists_buckets_and_metadata() {
    let mut manager = manual_manager();
    manager.store_price_at(entry("XLM", 10, 120), 120).unwrap();
    let csv = manager
        .export_to_csv("XLM", TimeBucket::OneMinute, 0, 1_000, true)
        .unwrap();
    assert_eq!(
        csv,
        "timestamp,open,high,low,close,volume,entry_count,bucket_index\n\
         120,10,10,10,10,2000,1,2\n\
         \n# Asset Metadata\n\
         asset_id,XLM,total_entries,1,first_timestamp,120,last_timestamp,120,current_price,10\n"
    );
    let bare = manager
        .export_to_csv("BTC", TimeBucket::OneMinute, 0, 1_000, true)
        .unwrap();
    assert_eq!(bare, "timestamp,open,high,low,close,volume,entry_count,bucket_index\n");
}

#[test]
fn history_analytics_are_cached_for_five_minutes() {
    let mut manager = manual_manager();
    let base = 10_000_000u64;
    manager.store_price_at(entry("XLM", 100, base), base).unwrap();
    let first = manager.get_analytics_at("XLM", base + 10).unwrap();
    assert_eq!(first.sma_1h, 100);
    assert_eq!(first.volatility_24h, 0);
    assert_eq!(first.last_update, base + 10);
    let cached = manager.get_analytics_at("XLM", base + 100).unwrap();
    assert_eq!(cached.last_update, base + 10);
    assert!(manager.get_analytics_at("BTC", base).is_err());
}

#[test]
fn anomaly_detector_flags_outlier_with_high_confidence() {
    let detector = AnomalyDetector::new();
    let window: Vec<u64> = vec![100, 101, 99, 100, 102, 98, 100, 101, 99, 100];
    let r = detector.detect("XLM", 200, 5, &window);
    assert!(r.is_anomaly);
    assert_eq!(r.confidence, Some(AnomalyConfidence::High));
    assert_eq!(r.methods[0], AnomalyMethod::ZScore);
    assert_eq!(r.methods[1], AnomalyMethod::Iqr);
    assert_eq!(r.price, 200);
    assert_eq!(r.timestamp, 5);
    // mean 100, variance 1, std dev 1: (200 - 100) * 100 / 1
    assert_eq!(r.z_score_x100, 10_000);

    let calm = detector.detect("XLM", 100, 5, &window);
    assert!(!calm.is_anomaly);
    assert_eq!(calm.confidence, None);
    assert!(calm.methods.is_empty());
}

#[test]
fn anomaly_detector_needs_a_full_window() {
    let detector = AnomalyDetector::new();
    let r = detector.detect("XLM", 1_000_000, 0, &[100, 100, 100]);
    assert!(!r.is_anomaly);
    assert_eq!(r.z_score_x100, 0);
}

#[test]
fn anomaly_z_score_iqr_and_crossover() {
    let detector = AnomalyDetector::with_config(AnomalyConfig {
        z_score_threshold_x100: 300,
        iqr_multiplier_x100: 150,
        min_window: 4,
        ma_short_period: 3_600,
        ma_long_period: 86_400,
        ma_crossover_threshold_bps: 200,
    });
    assert_eq!(detector.config().min_window, 4);
    assert_eq!(detector.z_score_x100(5, &[]), 0);
    assert_eq!(detector.z_score_x100(11, &[10, 10, 10, 10]), 92_233_720_368_547_758);
    assert_eq!(detector.z_score_x100(9, &[10, 10, 10, 10]), -92_233_720_368_547_758);
    // sorted 1,2,3,4,5,6,7,8: q1 = 3, q3 = 7, fence 6
    let w = [8, 1, 7, 2, 6, 3, 5, 4];
    assert!(!detector.iqr_flagged(13, &w));
    assert!(detector.iqr_flagged(14, &w));
    assert!(!detector.iqr_flagged(0, &[1, 2, 3]));
    // long mean 137, last quarter mean 250: 8248 bps apart; candidate 400 is further
    let ramp = [100, 100, 100, 100, 100, 100, 250, 250];
    assert!(detector.ma_crossover_flagged(400, &ramp));
    assert!(!detector.ma_crossover_flagged(150, &ramp));
    assert!(!detector.ma_crossover_flagged(400, &[]));
}

#[test]
fn history_detect_anomaly_uses_recent_closes() {
    let mut manager = manual_manager();
    let base = 1_000_000u64;
    for i in 0..10u64 {
        let price = if i % 2 == 0 { 100 } else { 102 };
        manager.store_price_at(entry("XLM", price, base + i * 60), base + 600).unwrap();
    }
    let r = manager.detect_anomaly_at("XLM", 500, base + 600, 3_600, None, base + 600);
    assert!(r.is_anomaly);
    let none = manager.detect_anomaly_at("BTC", 500, base + 600, 3_600, None, base + 600);
    assert!(!none.is_anomaly);
}

#[test]
fn volatility_is_standard_deviation_in_bps_of_mean() {
    let mut manager = manual_manager();
    let base = 2_000_000u64;
    manager.store_price_at(entry("ETH", 1_000_000, base), base + 120).unwrap();
    manager.store_price_at(entry("ETH", 1_100_000, base + 60), base + 120).unwrap();
    // mean 1 050 000, standard deviation 50 000: 50 000 * 10 000 / 1 050 000 = 476
    assert_eq!(manager.calculate_volatility_at("ETH", 3_600, base + 120), Ok(476));
}

#[test]
fn archival_keeps_the_hour_that_straddles_the_cutoff() {
    let mut manager = manual_manager();
    let hour = 3_600u64;
    manager.store_price_at(entry("XLM", 10, 10 * hour + 600), 10 * hour + 600).unwrap();
    manager.store_price_at(entry("XLM", 20, 10 * hour + 3_000), 10 * hour + 3_000).unwrap();
    // the 30-day cutoff falls in the middle of hour 10
    let now = 10 * hour + 1_800 + 30 * 86_400;
    let stats = manager.run_archival_at(now).unwrap();
    assert_eq!(stats.medium_buckets_created, 0);
    assert_eq!(stats.live_entries_pruned, 0);
    let minutes = manager
        .get_price_history("XLM", TimeBucket::OneMinute, 0, u64::MAX, None, None)
        .unwrap();
    assert_eq!(minutes.len(), 2);
    // once the cutoff passes the end of the hour, the whole hour is archived
    let later = 11 * hour + 30 * 86_400;
    let stats = manager.run_archival_at(later).unwrap();
    assert_eq!(stats.medium_buckets_created, 1);
    assert_eq!(stats.live_entries_pruned, 2);
    let hourly = manager.get_medium_archive("XLM", 0, u64::MAX);
    assert_eq!(hourly.len(), 1);
    assert_eq!(hourly[0].raw_entry_count, 2);
}

#[test]
fn archival_folds_late_minutes_into_archived_hour() {
    let mut manager = manual_manager();
    let hour = 3_600u64;
    manager.store_price_at(entry("XLM", 10, 10 * hour), 10 * hour).unwrap();
    let now = 12 * hour + 30 * 86_400;
    let stats = manager.run_archival_at(now).unwrap();
    assert_eq!(stats.medium_buckets_created, 1);
    // a price for the archived hour arrives late
    manager.store_price_at(entry("XLM", 40, 10 * hour + 600), now).unwrap();
    let stats = manager.run_archival_at(now).unwrap();
    assert_eq!(stats.medium_buckets_created, 0);
    assert_eq!(stats.live_entries_pruned, 1);
    let hourly = manager.get_medium_archive("XLM", 0, u64::MAX);
    assert_eq!(hourly.len(), 1);
    assert_eq!(hourly[0].raw_entry_count, 2);
    assert_eq!(hourly[0].high, 40);
    assert_eq!(hourly[0].low, 10);
    assert_eq!(hourly[0].price_sum, 50);
    assert_eq!(hourly[0].open, 10);
    assert_eq!(hourly[0].close, 10);
    let minutes = manager
        .get_price_history("XLM", TimeBucket::OneMinute, 0, 11 * hour, None, None)
        .unwrap();
    // only the hourly bucket answers for hour 10 now
    assert_eq!(minutes.len(), 1);
    assert_eq!(minutes[0].entry_count, 2);
}
