//! Operations of the price history that read the system clock, and anomaly
//! detection against the live history.

use vstd::prelude::*;
use super::analytics::{analytics_served, sat_sub, sma_outcome, twap_outcome, volatility_outcome};
use super::archival::archival_result;
use super::maintenance::{cleaned, store_outcome};
use super::query::{append_live_range, live_range};
use super::{live_view, record_all_fits, series_of, HistoryView, PriceHistoryManager};
use crate::anomaly::{default_anomaly_config, detected, AnomalyConfig, AnomalyDetector, AnomalyResult};
use crate::keyed::find_key;
use crate::oracle_manager::unix_now;
use crate::price_history::{
    AnalyticsData, ArchivalStats, PriceBucket, PriceHistoryEntry, PriceHistoryError, TimeBucket, TwapResult,
};

verus! {

/// Closing prices of the one-minute buckets of `asset` from `window_secs` before
/// `now` up to `now`, oldest first.
pub open spec fn anomaly_window(v: HistoryView, asset: Seq<char>, window_secs: u64, now: u64) -> Seq<u64> {
    live_range(series_of(v, TimeBucket::OneMinute, asset), sat_sub(now, window_secs) / 60, now / 60).map_values(
        |b: PriceBucket| b.close,
    )
}

impl PriceHistoryManager {
    /// Judge `candidate_price` against the closing prices of the last `window_secs`
    /// seconds (up to `now`) of one-minute history, with the given thresholds or the
    /// default ones.
    pub fn detect_anomaly_at(
        &self,
        asset_id: &str,
        candidate_price: u64,
        timestamp: u64,
        window_secs: u64,
        config: Option<AnomalyConfig>,
        now: u64,
    ) -> (r: AnomalyResult)
        requires
            self.wf(),
        ensures
            detected(
                r,
                match config {
                    Some(c) => c,
                    None => default_anomaly_config(),
                },
                asset_id@,
                candidate_price,
                timestamp,
                anomaly_window(self@, asset_id@, window_secs, now),
            ),
    {
        let detector = match config {
            Some(c) => AnomalyDetector::with_config(c),
            None => AnomalyDetector::new(),
        };
        let start = now.saturating_sub(window_secs);
        let mut buckets: Vec<PriceBucket> = Vec::new();
        proof {
            self.lemma_view_live(TimeBucket::OneMinute);
        }
        match find_key(&self.live_1m, asset_id) {
            Some(i) => {
                append_live_range(&mut buckets, &self.live_1m[i].1, start / 60, now / 60);
                proof {
                    assert(buckets@ =~= live_range(series_of(self@, TimeBucket::OneMinute, asset_id@), start / 60, now / 60));
                }
            },
            None => {
                proof {
                    reveal_with_fuel(Seq::<_>::filter, 1);
                    assert(buckets@ =~= live_range(series_of(self@, TimeBucket::OneMinute, asset_id@), start / 60, now / 60));
                }
            },
        }
        let mut closes: Vec<u64> = Vec::new();
        let mut i: usize = 0;
        while i < buckets.len()
            invariant
                i <= buckets@.len(),
                closes@ == buckets@.take(i as int).map_values(|b: PriceBucket| b.close),
            decreases buckets@.len() - i,
        {
            closes.push(buckets[i].close);
            proof {
                assert(buckets@.take(i + 1).map_values(|b: PriceBucket| b.close) =~= buckets@.take(i as int).map_values(
                    |b: PriceBucket| b.close,
                ).push(buckets@[i as int].close));
            }
            i = i + 1;
        }
        proof {
            assert(buckets@.take(buckets@.len() as int) =~= buckets@);
        }
        detector.detect(asset_id, candidate_price, timestamp, closes.as_slice())
    }

    /// [`Self::detect_anomaly_at`] at the current time.
    pub fn detect_anomaly(
        &self,
        asset_id: &str,
        candidate_price: u64,
        timestamp: u64,
        window_secs: u64,
        config: Option<AnomalyConfig>,
    ) -> (r: AnomalyResult)
        requires
            self.wf(),
        ensures
            exists|now: u64|
                detected(
                    r,
                    match config {
                        Some(c) => c,
                        None => default_anomaly_config(),
                    },
                    asset_id@,
                    candidate_price,
                    timestamp,
                    #[trigger] anomaly_window(self@, asset_id@, window_secs, now),
                ),
    {
        let now = unix_now();
        self.detect_anomaly_at(asset_id, candidate_price, timestamp, window_secs, config, now)
    }

    /// [`Self::store_price_at`] at the current time.
    pub fn store_price(&mut self, entry: PriceHistoryEntry) -> (r: Result<(), PriceHistoryError>)
        requires
            old(self).wf(),
            entry.price != 0 ==> record_all_fits(old(self)@, entry.asset_id@, entry.timestamp, entry.volume),
        ensures
            final(self).wf(),
            exists|now: u64| #[trigger] store_outcome(old(self)@, final(self)@, entry, now, r),
    {
        let now = unix_now();
        self.store_price_at(entry, now)
    }

    /// [`Self::calculate_twap_at`] at the current time.
    pub fn calculate_twap(&self, asset_id: &str, period: u64) -> (r: Result<TwapResult, PriceHistoryError>)
        requires
            self.wf(),
        ensures
            exists|now: u64| #[trigger] twap_outcome(self@, asset_id@, period, now, r),
    {
        let now = unix_now();
        self.calculate_twap_at(asset_id, period, now)
    }

    /// [`Self::calculate_sma_at`] at the current time.
    pub fn calculate_sma(&self, asset_id: &str, period: u64) -> (r: Result<u64, PriceHistoryError>)
        requires
            self.wf(),
        ensures
            exists|now: u64| r == #[trigger] sma_outcome(self@, asset_id@, period, now),
    {
        let now = unix_now();
        self.calculate_sma_at(asset_id, period, now)
    }

    /// [`Self::calculate_volatility_at`] at the current time.
    pub fn calculate_volatility(&self, asset_id: &str, period: u64) -> (r: Result<u32, PriceHistoryError>)
        requires
            self.wf(),
        ensures
            exists|now: u64| r == #[trigger] volatility_outcome(self@, asset_id@, period, now),
    {
        let now = unix_now();
        self.calculate_volatility_at(asset_id, period, now)
    }

    /// [`Self::get_analytics_at`] at the current time.
    pub fn get_analytics(&mut self, asset_id: &str) -> (r: Result<AnalyticsData, PriceHistoryError>)
        requires
            old(self).wf(),
        ensures
            final(self).wf(),
            exists|now: u64| #[trigger] analytics_served(old(self)@, final(self)@, asset_id@, now, r),
            r matches Ok(a) ==> super::trend_consistent(a),
    {
        let now = unix_now();
        self.get_analytics_at(asset_id, now)
    }

    /// [`Self::run_archival_at`] at the current time.
    pub fn run_archival(&mut self) -> (r: Result<ArchivalStats, PriceHistoryError>)
        requires
            old(self).wf(),
        ensures
            final(self).wf(),
            r matches Ok(stats) && exists|now: u64| #[trigger] archival_result(old(self)@, final(self)@, now, stats),
    {
        let now = unix_now();
        self.run_archival_at(now)
    }

    /// [`Self::cleanup_old_data_at`] at the current time.
    pub fn cleanup_old_data(&mut self, retention_period: u64)
        requires
            old(self).wf(),
        ensures
            final(self).wf(),
            exists|now: u64| #[trigger] cleaned(old(self)@, final(self)@, sat_sub(now, retention_period)),
    {
        let now = unix_now();
        self.cleanup_old_data_at(retention_period, now)
    }
}

} // verus!
