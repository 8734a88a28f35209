//! Historical price storage for analytics and TWAP calculations.
//!
//! Prices are stored in time buckets of several granularities (live data),
//! and older data is compressed into an hourly medium-tier archive and a daily
//! historical archive.  Queries are tier-transparent: they merge the live store
//! with both archives and return buckets in ascending time order.
//!
//! ## Archival tiers
//! - **Recent** (0–30 days): every update kept at full granularity
//! - **Medium** (30–90 days): compressed to hourly OHLCV buckets
//! - **Historical** (90+ days): compressed to daily OHLCV buckets

use vstd::prelude::*;

verus! {

/// Maximum history retention period (30 days) for live data.
pub const MAX_HISTORY_RETENTION: u64 = 2_592_000;

/// How far ahead of the current time a price timestamp may lie (clock skew allowance).
pub const MAX_CLOCK_SKEW_SECS: u64 = 600;

/// Recent tier: 0 – 30 days (full granularity).
pub const TIER_RECENT_SECS: u64 = 2_592_000;

/// Medium tier: 30 – 90 days (hourly aggregation).
pub const TIER_MEDIUM_SECS: u64 = 7_776_000;


/// Time bucket intervals for organizing price data.
#[derive(Clone, Copy, Debug, PartialEq, Eq, Hash, Structural)]
pub enum TimeBucket {
    /// 1-minute bucket
    OneMinute,
    /// 5-minute bucket
    FiveMinute,
    /// 15-minute bucket
    FifteenMinute,
    /// 1-hour bucket
    OneHour,
    /// 6-hour bucket
    SixHour,
    /// 24-hour bucket
    OneDay,
}

/// Width in seconds of a time bucket.
pub open spec fn bucket_secs(b: TimeBucket) -> u64 {
    match b {
        TimeBucket::OneMinute => 60,
        TimeBucket::FiveMinute => 300,
        TimeBucket::FifteenMinute => 900,
        TimeBucket::OneHour => 3600,
        TimeBucket::SixHour => 21600,
        TimeBucket::OneDay => 86400,
    }
}

/// The granularity a query string names, if any.
pub open spec fn granularity_of(g: Seq<char>) -> Option<TimeBucket> {
    if g == "1min"@ {
        Some(TimeBucket::OneMinute)
    } else if g == "5min"@ {
        Some(TimeBucket::FiveMinute)
    } else if g == "15min"@ {
        Some(TimeBucket::FifteenMinute)
    } else if g == "1hr"@ {
        Some(TimeBucket::OneHour)
    } else if g == "1day"@ {
        Some(TimeBucket::OneDay)
    } else {
        None
    }
}

/// Errors returned by the price history manager.
#[derive(Clone, Debug, PartialEq, Eq)]
pub enum PriceHistoryError {
    AlreadyInitialized,
    Unauthorized,
    InvalidPrice,
    InvalidTimestamp,
    AssetNotFound,
    InsufficientData,
    InvalidPeriod,
    ExportError,
    /// The granularity string is not one of "1min", "5min", "15min", "1hr", "1day".
    InvalidGranularity(String),
}

impl TimeBucket {
    /// Duration of this time bucket in seconds.
    pub fn duration(&self) -> (r: u64)
        ensures
            r == bucket_secs(*self),
    {
        match self {
            TimeBucket::OneMinute => 60,
            TimeBucket::FiveMinute => 300,
            TimeBucket::FifteenMinute => 900,
            TimeBucket::OneHour => 3600,
            TimeBucket::SixHour => 21600,
            TimeBucket::OneDay => 86400,
        }
    }

    /// Index of the bucket of this width that contains `timestamp`.
    pub fn bucket_index(&self, timestamp: u64) -> (r: u64)
        ensures
            r == timestamp / bucket_secs(*self),
    {
        timestamp / self.duration()
    }

    /// Parse a granularity string ("1min", "5min", "15min", "1hr", "1day").
    pub fn from_granularity_str(granularity: &str) -> (r: Result<Self, PriceHistoryError>)
        ensures
            granularity_of(granularity@) is Some ==> r == Ok::<TimeBucket, PriceHistoryError>(
                granularity_of(granularity@)->0,
            ),
            granularity_of(granularity@) is None ==> (r matches Err(
                PriceHistoryError::InvalidGranularity(s),
            ) && s@ == granularity@),
    {
        let g = String::from_str(granularity);
        if g == String::from_str("1min") {
            Ok(TimeBucket::OneMinute)
        } else if g == String::from_str("5min") {
            Ok(TimeBucket::FiveMinute)
        } else if g == String::from_str("15min") {
            Ok(TimeBucket::FifteenMinute)
        } else if g == String::from_str("1hr") {
            Ok(TimeBucket::OneHour)
        } else if g == String::from_str("1day") {
            Ok(TimeBucket::OneDay)
        } else {
            Err(PriceHistoryError::InvalidGranularity(g))
        }
    }
}

/// A price observation to be recorded.
#[derive(Debug)]
pub struct PriceHistoryEntry {
    /// Asset identifier (e.g., token address or symbol).
    pub asset_id: String,
    /// Price value.
    pub price: u64,
    /// Number of decimals.
    pub decimals: u32,
    /// Timestamp of this price.
    pub timestamp: u64,
    /// Source of this price (e.g., oracle ID).
    pub source: String,
    /// Trading volume at this price.
    pub volume: u64,
    /// Number of transactions at this price.
    pub transaction_count: u32,
}

/// Time-bucketed OHLCV price data.
#[derive(Clone, Copy, Debug, PartialEq, Eq)]
pub struct PriceBucket {
    /// Time bucket type.
    pub bucket_type: TimeBucket,
    /// Bucket index (timestamp / bucket duration).
    pub bucket_index: u64,
    /// Opening price in this bucket.
    pub open: u64,
    /// Highest price in this bucket.
    pub high: u64,
    /// Lowest price in this bucket.
    pub low: u64,
    /// Closing price in this bucket.
    pub close: u64,
    /// Total volume in this bucket.
    pub volume: u64,
    /// Number of price entries in this bucket.
    pub entry_count: u32,
    /// First timestamp in this bucket.
    pub first_timestamp: u64,
    /// Last timestamp in this bucket.
    pub last_timestamp: u64,
}

/// Per-asset summary statistics.
#[derive(Debug, PartialEq, Eq)]
pub struct AssetMetadata {
    /// Asset identifier.
    pub asset_id: String,
    /// Total number of price entries stored.
    pub total_entries: u64,
    /// First price timestamp.
    pub first_timestamp: u64,
    /// Last price timestamp.
    pub last_timestamp: u64,
    /// Current price.
    pub current_price: u64,
    /// 24-hour high.
    pub high_24h: u64,
    /// 24-hour low.
    pub low_24h: u64,
    /// 24-hour volume.
    pub volume_24h: u64,
    /// 24-hour price change (basis points).
    pub price_change_24h_bps: i64,
}

impl Clone for AssetMetadata {
    fn clone(&self) -> (r: Self)
        ensures
            r == *self,
    {
        AssetMetadata {
            asset_id: self.asset_id.clone(),
            total_entries: self.total_entries,
            first_timestamp: self.first_timestamp,
            last_timestamp: self.last_timestamp,
            current_price: self.current_price,
            high_24h: self.high_24h,
            low_24h: self.low_24h,
            volume_24h: self.volume_24h,
            price_change_24h_bps: self.price_change_24h_bps,
        }
    }
}

/// Price trend direction.
#[derive(Clone, Copy, Debug, PartialEq, Eq, Structural)]
pub enum PriceTrend {
    /// Price is trending up.
    Up,
    /// Price is trending down.
    Down,
    /// Price is sideways (stable).
    Sideways,
}

/// Moving averages, volatility and trend of an asset.
#[derive(Debug, PartialEq, Eq)]
pub struct AnalyticsData {
    /// Asset identifier.
    pub asset_id: String,
    pub sma_1h: u64,
    pub sma_6h: u64,
    pub sma_24h: u64,
    pub sma_7d: u64,
    pub ema_1h: u64,
    pub ema_6h: u64,
    pub ema_24h: u64,
    /// Volatility (standard deviation as basis points of the mean) over 24h.
    pub volatility_24h: u32,
    /// Price trend.
    pub trend: PriceTrend,
    /// Last analytics update timestamp.
    pub last_update: u64,
}

impl Clone for AnalyticsData {
    fn clone(&self) -> (r: Self)
        ensures
            r == *self,
    {
        AnalyticsData {
            asset_id: self.asset_id.clone(),
            sma_1h: self.sma_1h,
            sma_6h: self.sma_6h,
            sma_24h: self.sma_24h,
            sma_7d: self.sma_7d,
            ema_1h: self.ema_1h,
            ema_6h: self.ema_6h,
            ema_24h: self.ema_24h,
            volatility_24h: self.volatility_24h,
            trend: self.trend,
            last_update: self.last_update,
        }
    }
}

/// Which storage tier a data point belongs to.
#[derive(Clone, Copy, Debug, PartialEq, Eq, Structural)]
pub enum ArchiveTier {
    /// 0–30 days: every raw update kept.
    Recent,
    /// 30–90 days: one bucket per hour.
    Medium,
    /// 90+ days: one bucket per day.
    Historical,
}

/// Bucket width in seconds of an archive tier.
pub open spec fn tier_secs(t: ArchiveTier) -> u64 {
    match t {
        ArchiveTier::Recent => 60,
        ArchiveTier::Medium => 3_600,
        ArchiveTier::Historical => 86_400,
    }
}

/// The tier that holds data of the given age.
pub open spec fn tier_of_age(age: u64) -> ArchiveTier {
    if age <= TIER_RECENT_SECS {
        ArchiveTier::Recent
    } else if age <= TIER_MEDIUM_SECS {
        ArchiveTier::Medium
    } else {
        ArchiveTier::Historical
    }
}

impl ArchiveTier {
    /// Bucket width in seconds for this tier.
    pub fn bucket_secs(&self) -> (r: u64)
        ensures
            r == tier_secs(*self),
    {
        match self {
            ArchiveTier::Recent => 60,
            ArchiveTier::Medium => 3_600,
            ArchiveTier::Historical => 86_400,
        }
    }

    /// Derive the tier from age (seconds since the data point was recorded).
    pub fn from_age(age_secs: u64) -> (r: Self)
        ensures
            r == tier_of_age(age_secs),
    {
        if age_secs <= TIER_RECENT_SECS {
            ArchiveTier::Recent
        } else if age_secs <= TIER_MEDIUM_SECS {
            ArchiveTier::Medium
        } else {
            ArchiveTier::Historical
        }
    }
}

/// A compressed OHLCV bucket stored in the archive, covering `[window_start, window_end)`.
#[derive(Debug, PartialEq, Eq)]
pub struct ArchivedBucket {
    /// Asset this bucket belongs to.
    pub asset_id: String,
    /// Tier that produced this bucket.
    pub tier: ArchiveTier,
    /// Start of the time window (inclusive).
    pub window_start: u64,
    /// End of the time window (exclusive).
    pub window_end: u64,
    /// Opening price (first raw entry in the window).
    pub open: u64,
    /// Highest price seen in the window.
    pub high: u64,
    /// Lowest price seen in the window.
    pub low: u64,
    /// Closing price (last raw entry in the window).
    pub close: u64,
    /// Sum of the merged closing prices.
    pub price_sum: u128,
    /// Total traded volume.
    pub volume: u64,
    /// Number of raw entries merged into this bucket.
    pub raw_entry_count: u32,
}

impl Clone for ArchivedBucket {
    fn clone(&self) -> (r: Self)
        ensures
            r == *self,
    {
        ArchivedBucket {
            asset_id: self.asset_id.clone(),
            tier: self.tier,
            window_start: self.window_start,
            window_end: self.window_end,
            open: self.open,
            high: self.high,
            low: self.low,
            close: self.close,
            price_sum: self.price_sum,
            volume: self.volume,
            raw_entry_count: self.raw_entry_count,
        }
    }
}

impl ArchivedBucket {
    /// Mean price of the bucket: `price_sum / raw_entry_count` (0 for an empty bucket),
    /// truncated to 64 bits.
    pub fn mean_price(&self) -> (r: u64)
        ensures
            r == (if self.raw_entry_count == 0 {
                0
            } else {
                (self.price_sum / self.raw_entry_count as u128) as u64
            }),
    {
        if self.raw_entry_count == 0 {
            return 0;
        }
        let q: u128 = self.price_sum / (self.raw_entry_count as u128);
        #[verifier::truncate]
        let r: u64 = q as u64;
        r
    }

    /// Number of one-minute slots collapsed into this bucket.
    pub fn compression_ratio(&self) -> (r: u32)
        ensures
            r == tier_secs(self.tier) / 60,
    {
        let bucket_secs = self.tier.bucket_secs();
        (bucket_secs / 60) as u32
    }
}

/// Configuration of the archival subsystem.
#[derive(Clone, Copy, Debug, PartialEq, Eq)]
pub struct ArchivalConfig {
    /// Run archival automatically whenever a price is stored.
    pub auto_archive_on_store: bool,
    /// Minimum number of seconds between automatic archival runs.
    pub archival_interval_secs: u64,
}

impl Default for ArchivalConfig {
    fn default() -> (r: Self)
        ensures
            r.auto_archive_on_store,
            r.archival_interval_secs == 3_600,
    {
        ArchivalConfig { auto_archive_on_store: true, archival_interval_secs: 3_600 }
    }
}

/// Statistics reported after an archival run.
#[derive(Clone, Copy, Debug, PartialEq, Eq)]
pub struct ArchivalStats {
    /// Hourly medium-tier buckets created from live one-minute buckets.
    pub medium_buckets_created: u32,
    /// Daily historical buckets created from medium-tier buckets.
    pub historical_buckets_created: u32,
    /// Live one-minute buckets removed after archival.
    pub live_entries_pruned: u32,
    /// Timestamp the archival run completed.
    pub completed_at: u64,
}

/// TWAP calculation result.
#[derive(Debug, PartialEq, Eq)]
pub struct TwapResult {
    /// Asset identifier.
    pub asset_id: String,
    /// TWAP price.
    pub twap_price: u64,
    /// Number of decimals.
    pub decimals: u32,
    /// Calculation period in seconds.
    pub period: u64,
    /// Number of raw entries covered.
    pub data_points: u32,
    /// Timestamp of calculation.
    pub calculated_at: u64,
}

/// Result of a historical price query.
#[derive(Debug, PartialEq, Eq)]
pub struct PriceQueryResult {
    /// The requested page of buckets, in ascending time order.
    pub prices: Vec<PriceBucket>,
    /// Mean closing price of the returned buckets (0 when there are none).
    pub twap: u64,
    /// Number of live buckets of the requested granularity in the range.
    pub total_count: u64,
    /// Whether buckets remain beyond the requested page.
    pub has_more: bool,
}

} // verus!
