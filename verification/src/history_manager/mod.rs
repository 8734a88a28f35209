//! The price history manager: live bucket store, archives and metadata.

use vstd::prelude::*;
use crate::bucket_series::{
    archived_at, bucket_at, record_fits, record_in_bucket, record_price, series_shaped, sorted_idx, sorted_ws,
};
use crate::keyed::{distinct_keys, find_key, lemma_push, lemma_update, remove_key, to_map, upsert};
use crate::price_history::{
    tier_of_age, AnalyticsData, ArchivalConfig, ArchiveTier, ArchivedBucket, AssetMetadata,
    PriceBucket, PriceHistoryEntry, PriceHistoryError, PriceTrend, TimeBucket, bucket_secs,
};

pub mod analytics;
pub mod archival;
pub mod clock;
pub mod maintenance;
pub mod query;

verus! {

/// Live bucket store of one granularity: asset -> ordered buckets.
pub open spec fn live_view(v: Seq<(String, Vec<PriceBucket>)>) -> Map<Seq<char>, Seq<PriceBucket>> {
    to_map(v).map_values(|s: Vec<PriceBucket>| s@)
}

/// Archive store: asset -> ordered archived buckets.
pub open spec fn archive_view(v: Seq<(String, Vec<ArchivedBucket>)>) -> Map<Seq<char>, Seq<ArchivedBucket>> {
    to_map(v).map_values(|s: Vec<ArchivedBucket>| s@)
}

/// Mathematical model of a [`PriceHistoryManager`].
pub struct HistoryView {
    /// Live buckets per granularity and asset.
    pub live: Map<TimeBucket, Map<Seq<char>, Seq<PriceBucket>>>,
    /// Per-asset metadata.
    pub metadata: Map<Seq<char>, AssetMetadata>,
    /// Cached analytics per asset.
    pub analytics: Map<Seq<char>, AnalyticsData>,
    /// Hourly archive per asset.
    pub medium: Map<Seq<char>, Seq<ArchivedBucket>>,
    /// Daily archive per asset.
    pub historical: Map<Seq<char>, Seq<ArchivedBucket>>,
    /// Archival configuration.
    pub config: ArchivalConfig,
    /// Time of the last archival run (0 = never ran).
    pub last_archival_run: u64,
}

/// The live series of `asset` at granularity `bt` (empty when there is none).
pub open spec fn series_of(v: HistoryView, bt: TimeBucket, asset: Seq<char>) -> Seq<PriceBucket> {
    if v.live[bt].dom().contains(asset) {
        v.live[bt][asset]
    } else {
        Seq::empty()
    }
}

/// The granularities a stored price is recorded at.
pub open spec fn recorded_granularity(bt: TimeBucket) -> bool {
    bt != TimeBucket::OneDay
}

/// Price history manager for storing and analyzing historical price data.
pub struct PriceHistoryManager {
    pub(crate) live_1m: Vec<(String, Vec<PriceBucket>)>,
    pub(crate) live_5m: Vec<(String, Vec<PriceBucket>)>,
    pub(crate) live_15m: Vec<(String, Vec<PriceBucket>)>,
    pub(crate) live_1h: Vec<(String, Vec<PriceBucket>)>,
    pub(crate) live_6h: Vec<(String, Vec<PriceBucket>)>,
    pub(crate) live_1d: Vec<(String, Vec<PriceBucket>)>,
    pub(crate) asset_metadata: Vec<(String, AssetMetadata)>,
    pub(crate) analytics_cache: Vec<(String, AnalyticsData)>,
    pub(crate) medium_archive: Vec<(String, Vec<ArchivedBucket>)>,
    pub(crate) historical_archive: Vec<(String, Vec<ArchivedBucket>)>,
    pub(crate) archival_config: ArchivalConfig,
    pub(crate) last_archival_run: u64,
}

impl PriceHistoryManager {
    /// The live store of one granularity.
    pub closed spec fn store_of(&self, bt: TimeBucket) -> Seq<(String, Vec<PriceBucket>)> {
        match bt {
            TimeBucket::OneMinute => self.live_1m@,
            TimeBucket::FiveMinute => self.live_5m@,
            TimeBucket::FifteenMinute => self.live_15m@,
            TimeBucket::OneHour => self.live_1h@,
            TimeBucket::SixHour => self.live_6h@,
            TimeBucket::OneDay => self.live_1d@,
        }
    }
}

impl View for PriceHistoryManager {
    type V = HistoryView;

    closed spec fn view(&self) -> HistoryView {
        HistoryView {
            live: Map::new(|bt: TimeBucket| true, |bt: TimeBucket| live_view(self.store_of(bt))),
            metadata: to_map(self.asset_metadata@),
            analytics: to_map(self.analytics_cache@),
            medium: archive_view(self.medium_archive@),
            historical: archive_view(self.historical_archive@),
            config: self.archival_config,
            last_archival_run: self.last_archival_run,
        }
    }
}

/// The trend reported with analytics follows its averages: up exactly when the
/// one-hour average is above the 24-hour one, down exactly when it is below, and
/// sideways when they are equal.
pub open spec fn trend_consistent(a: AnalyticsData) -> bool {
    &&& (a.trend == PriceTrend::Up <==> a.sma_1h > a.sma_24h)
    &&& (a.trend == PriceTrend::Down <==> a.sma_1h < a.sma_24h)
    &&& (a.trend == PriceTrend::Sideways <==> a.sma_1h == a.sma_24h)
}

/// Every cached analytics record reports the trend of its averages.
pub open spec fn cache_consistent(v: HistoryView) -> bool {
    forall|a: Seq<char>| #[trigger] v.analytics.dom().contains(a) ==> trend_consistent(v.analytics[a])
}

/// Every live series of a store has the live shape.
pub open spec fn store_shaped(m: Map<Seq<char>, Seq<PriceBucket>>) -> bool {
    forall|a: Seq<char>| #[trigger] m.dom().contains(a) ==> series_shaped(m[a])
}

/// Every live bucket, at every granularity, has the live shape.
pub open spec fn live_shaped(v: HistoryView) -> bool {
    forall|bt: TimeBucket| #[trigger] store_shaped(v.live[bt])
}

/// An archived bucket of the hourly tier: tagged Medium, covering exactly one hour
/// aligned to the hour, holding at least one raw entry, with its open and close
/// within its low and high.
pub open spec fn hourly_shape(b: ArchivedBucket) -> bool {
    &&& b.tier == ArchiveTier::Medium
    &&& b.window_start % 3600 == 0
    &&& b.window_end == b.window_start + 3600
    &&& b.raw_entry_count >= 1
    &&& b.low <= b.open <= b.high
    &&& b.low <= b.close <= b.high
}

/// Every bucket of the hourly tier has the hourly shape.
pub open spec fn medium_shaped(v: HistoryView) -> bool {
    forall|a: Seq<char>, i: int|
        #![trigger v.medium[a][i]]
        v.medium.dom().contains(a) && 0 <= i < v.medium[a].len() ==> hourly_shape(v.medium[a][i])
}

/// Every live series is ordered by index and every archive series by window start.
pub open spec fn view_ordered(v: HistoryView) -> bool {
    &&& forall|bt: TimeBucket, a: Seq<char>|
        #[trigger] v.live[bt].dom().contains(a) ==> sorted_idx(v.live[bt][a])
    &&& forall|a: Seq<char>| #[trigger] v.medium.dom().contains(a) ==> sorted_ws(v.medium[a])
    &&& forall|a: Seq<char>| #[trigger] v.historical.dom().contains(a) ==> sorted_ws(v.historical[a])
}

/// A history with no data and the given archival configuration.
pub open spec fn empty_history(config: ArchivalConfig) -> HistoryView {
    HistoryView {
        live: Map::new(|bt: TimeBucket| true, |bt: TimeBucket| Map::empty()),
        metadata: Map::empty(),
        analytics: Map::empty(),
        medium: Map::empty(),
        historical: Map::empty(),
        config,
        last_archival_run: 0,
    }
}

impl PriceHistoryManager {
    /// Well-formedness: one entry per asset in every store, ordered series.
    pub closed spec fn wf(&self) -> bool {
        &&& distinct_keys(self.live_1m@)
        &&& distinct_keys(self.live_5m@)
        &&& distinct_keys(self.live_15m@)
        &&& distinct_keys(self.live_1h@)
        &&& distinct_keys(self.live_6h@)
        &&& distinct_keys(self.live_1d@)
        &&& distinct_keys(self.asset_metadata@)
        &&& distinct_keys(self.analytics_cache@)
        &&& distinct_keys(self.medium_archive@)
        &&& distinct_keys(self.historical_archive@)
        &&& view_ordered(self@)
        &&& medium_shaped(self@)
        &&& live_shaped(self@)
        &&& cache_consistent(self@)
    }

    /// Create an empty manager with the default archival configuration.
    pub fn new() -> (r: Self)
        ensures
            r.wf(),
            r@ == empty_history(ArchivalConfig { auto_archive_on_store: true, archival_interval_secs: 3_600 }),
    {
        Self::with_config(ArchivalConfig { auto_archive_on_store: true, archival_interval_secs: 3_600 })
    }

    /// Create an empty manager with a custom archival configuration.
    pub fn with_config(config: ArchivalConfig) -> (r: Self)
        ensures
            r.wf(),
            r@ == empty_history(config),
    {
        let r = PriceHistoryManager {
            live_1m: Vec::new(),
            live_5m: Vec::new(),
            live_15m: Vec::new(),
            live_1h: Vec::new(),
            live_6h: Vec::new(),
            live_1d: Vec::new(),
            asset_metadata: Vec::new(),
            analytics_cache: Vec::new(),
            medium_archive: Vec::new(),
            historical_archive: Vec::new(),
            archival_config: config,
            last_archival_run: 0,
        };
        proof {
            assert forall|bt: TimeBucket| #[trigger] live_view(r.store_of(bt)) =~= Map::<Seq<char>, Seq<PriceBucket>>::empty() by {
                assert(to_map(r.store_of(bt)) =~= Map::<Seq<char>, Vec<PriceBucket>>::empty());
            }
            assert(r@.live =~= empty_history(config).live);
            assert(to_map(r.asset_metadata@) =~= Map::<Seq<char>, AssetMetadata>::empty());
            assert(to_map(r.analytics_cache@) =~= Map::<Seq<char>, AnalyticsData>::empty());
            assert(to_map(r.medium_archive@) =~= Map::<Seq<char>, Vec<ArchivedBucket>>::empty());
            assert(archive_view(r.medium_archive@) =~= Map::<Seq<char>, Seq<ArchivedBucket>>::empty());
            assert(to_map(r.historical_archive@) =~= Map::<Seq<char>, Vec<ArchivedBucket>>::empty());
            assert(archive_view(r.historical_archive@) =~= Map::<Seq<char>, Seq<ArchivedBucket>>::empty());
        }
        r
    }

    /// The tier that covers data of the given age.
    pub fn tier_for_age(age_secs: u64) -> (r: ArchiveTier)
        ensures
            r == tier_of_age(age_secs),
    {
        ArchiveTier::from_age(age_secs)
    }

    /// The current archival configuration.
    pub fn archival_config(&self) -> (r: &ArchivalConfig)
        ensures
            *r == self@.config,
    {
        &self.archival_config
    }

    /// Replace the archival configuration.
    pub fn set_archival_config(&mut self, config: ArchivalConfig)
        requires
            old(self).wf(),
        ensures
            final(self).wf(),
            final(self)@ == (HistoryView { config, ..old(self)@ }),
    {
        self.archival_config = config;
        proof {
            assert forall|bt: TimeBucket| #[trigger] self.store_of(bt) == old(self).store_of(bt) by {}
            assert(self@.live =~= old(self)@.live);
        }
    }

    /// Time of the last completed archival run (0 = never ran).
    pub fn last_archival_run(&self) -> (r: u64)
        ensures
            r == self@.last_archival_run,
    {
        self.last_archival_run
    }

    /// Metadata of an asset.
    pub fn get_asset_metadata(&self, asset_id: &str) -> (r: Result<AssetMetadata, PriceHistoryError>)
        requires
            self.wf(),
        ensures
            self@.metadata.dom().contains(asset_id@) ==> r == Ok::<AssetMetadata, PriceHistoryError>(
                self@.metadata[asset_id@],
            ),
            !self@.metadata.dom().contains(asset_id@) ==> r == Err::<AssetMetadata, PriceHistoryError>(
                PriceHistoryError::AssetNotFound,
            ),
    {
        match find_key(&self.asset_metadata, asset_id) {
            Some(i) => Ok(self.asset_metadata[i].1.clone()),
            None => Err(PriceHistoryError::AssetNotFound),
        }
    }
}

/// `new` is `old` with one price recorded in the bucket with index `idx`.
pub open spec fn recorded_series(
    old: Seq<PriceBucket>,
    new: Seq<PriceBucket>,
    bt: TimeBucket,
    idx: u64,
    price: u64,
    ts: u64,
    volume: u64,
) -> bool {
    &&& sorted_idx(new)
    &&& forall|k: u64|
        #[trigger] bucket_at(new, k) == if k == idx {
            Some(record_in_bucket(bucket_at(old, idx), bt, idx, price, ts, volume))
        } else {
            bucket_at(old, k)
        }
}

/// The live series of `asset` in a store (empty when there is none).
pub open spec fn store_series(m: Map<Seq<char>, Seq<PriceBucket>>, asset: Seq<char>) -> Seq<PriceBucket> {
    if m.dom().contains(asset) {
        m[asset]
    } else {
        Seq::empty()
    }
}

/// `new` is the store `old` with one price recorded for `asset`.
pub open spec fn recorded_store(
    old: Map<Seq<char>, Seq<PriceBucket>>,
    new: Map<Seq<char>, Seq<PriceBucket>>,
    asset: Seq<char>,
    bt: TimeBucket,
    idx: u64,
    price: u64,
    ts: u64,
    volume: u64,
) -> bool {
    &&& new.dom() == old.dom().insert(asset)
    &&& forall|a: Seq<char>| #[trigger] old.dom().contains(a) && a != asset ==> new[a] == old[a]
    &&& recorded_series(store_series(old, asset), new[asset], bt, idx, price, ts, volume)
}

/// Law: after a price of `asset` is recorded at `ts`, the bucket holding `ts` at
/// every recorded granularity closes at that price, was last updated at `ts`, and
/// has the price within its low and high.
pub proof fn lemma_recorded_close(
    old: HistoryView,
    new: HistoryView,
    asset: Seq<char>,
    price: u64,
    ts: u64,
    volume: u64,
    now: u64,
    bt: TimeBucket,
)
    requires
        recorded(old, new, asset, price, ts, volume, now),
        record_all_fits(old, asset, ts, volume),
        recorded_granularity(bt),
    ensures
        bucket_at(store_series(new.live[bt], asset), ts / bucket_secs(bt)) matches Some(b) && b.close == price
            && b.last_timestamp == ts && b.low <= price <= b.high,
{
    let idx = ts / bucket_secs(bt);
    assert(recorded_store(old.live[bt], new.live[bt], asset, bt, idx, price, ts, volume));
    assert(record_fits(bucket_at(store_series(old.live[bt], asset), idx), volume));
    crate::bucket_series::lemma_record_in_bucket(bucket_at(store_series(old.live[bt], asset), idx), bt, idx, price, ts, volume);
    assert(new.live[bt].dom().contains(asset));
    assert(store_series(new.live[bt], asset) == new.live[bt][asset]);
    assert(bucket_at(new.live[bt][asset], idx) == Some(
        record_in_bucket(bucket_at(store_series(old.live[bt], asset), idx), bt, idx, price, ts, volume),
    ));
}

/// Record a price for `asset` in one live store.
fn record_in_store(
    store: &mut Vec<(String, Vec<PriceBucket>)>,
    asset: &str,
    bt: TimeBucket,
    idx: u64,
    price: u64,
    ts: u64,
    volume: u64,
)
    requires
        distinct_keys(old(store)@),
        forall|a: Seq<char>| #[trigger] live_view(old(store)@).dom().contains(a) ==> sorted_idx(live_view(old(store)@)[a]),
        record_fits(bucket_at(store_series(live_view(old(store)@), asset@), idx), volume),
    ensures
        distinct_keys(final(store)@),
        forall|a: Seq<char>| #[trigger] live_view(final(store)@).dom().contains(a) ==> sorted_idx(live_view(final(store)@)[a]),
        recorded_store(live_view(old(store)@), live_view(final(store)@), asset@, bt, idx, price, ts, volume),
        store_shaped(live_view(old(store)@)) ==> store_shaped(live_view(final(store)@)),
{
    let ghost m0 = live_view(store@);
    match find_key(store, asset) {
        Some(i) => {
            let (k, mut series) = store.remove(i);
            proof {
                assert(series@ == m0[asset@]);
            }
            record_price(&mut series, bt, idx, price, ts, volume);
            let ghost s0 = old(store)@;
            proof {
                assert(store@ == s0.remove(i as int));
                assert(k@ == asset@);
                lemma_update(s0, i as int, k, series);
            }
            store.insert(i, (k, series));
            proof {
                assert(store@ =~= s0.update(i as int, (k, series)));
                assert(live_view(store@) =~= m0.insert(asset@, series@));
                if store_shaped(m0) {
                    assert(m0.dom().contains(asset@));
                    assert forall|a: Seq<char>| #[trigger] live_view(store@).dom().contains(a) implies series_shaped(live_view(store@)[a]) by {
                        if a != asset@ {
                            assert(m0.dom().contains(a));
                        }
                    }
                }
            }
        },
        None => {
            let mut series: Vec<PriceBucket> = Vec::new();
            proof {
                assert(series@ == store_series(m0, asset@));
            }
            record_price(&mut series, bt, idx, price, ts, volume);
            let key = String::from_str(asset);
            proof {
                lemma_push(store@, key, series);
            }
            store.push((key, series));
            proof {
                assert(live_view(store@) =~= m0.insert(asset@, series@));
                if store_shaped(m0) {
                    assert forall|a: Seq<char>| #[trigger] live_view(store@).dom().contains(a) implies series_shaped(live_view(store@)[a]) by {
                        if a != asset@ {
                            assert(m0.dom().contains(a));
                        }
                    }
                }
            }
        },
    }
}

/// Metadata after recording a price at time `now`.  Prices up to 24 hours old feed
/// the 24h high, low and volume; the 24h change is reset to 0.
pub open spec fn meta_updated(
    old: Option<AssetMetadata>,
    new: AssetMetadata,
    asset: Seq<char>,
    price: u64,
    ts: u64,
    volume: u64,
    now: u64,
) -> bool {
    let recent = now < ts || now - ts <= 86400;
    let (total, first, high, low, vol) = match old {
        None => (0, ts, price, price, 0),
        Some(m) => (m.total_entries as int, m.first_timestamp, m.high_24h, m.low_24h, m.volume_24h),
    };
    &&& new.asset_id@ == (match old {
        None => asset,
        Some(m) => m.asset_id@,
    })
    &&& new.total_entries == total + 1
    &&& new.first_timestamp == first
    &&& new.last_timestamp == ts
    &&& new.current_price == price
    &&& new.high_24h == if recent && price > high { price } else { high }
    &&& new.low_24h == if recent && price < low { price } else { low }
    &&& new.volume_24h == if recent { vol + volume } else { vol as int }
    &&& new.price_change_24h_bps == (match old {
        None => 0,
        Some(m) => change_bps(m.current_price, price),
    })
}

/// Change from `old_price` to `price` in basis points of `old_price` (0 when the old
/// price is 0), truncated to `i64`.
pub open spec fn change_bps(old_price: u64, price: u64) -> i64 {
    if old_price > 0 {
        let diff: int = if price > old_price { price - old_price } else { old_price - price };
        (diff * 10_000 / (old_price as int)) as i64
    } else {
        0
    }
}

/// Recording a price keeps the metadata counters in range.
pub open spec fn meta_fits(old: Option<AssetMetadata>, volume: u64) -> bool {
    match old {
        None => true,
        Some(m) => m.total_entries + 1 <= u64::MAX && m.volume_24h + volume <= u64::MAX,
    }
}

/// The metadata stored for an asset, if any.
pub open spec fn meta_of(v: HistoryView, asset: Seq<char>) -> Option<AssetMetadata> {
    if v.metadata.dom().contains(asset) {
        Some(v.metadata[asset])
    } else {
        None
    }
}

/// `new` is `old` with one price of `asset` recorded at every stored granularity,
/// the asset's metadata updated and its cached analytics dropped.
pub open spec fn recorded(
    old: HistoryView,
    new: HistoryView,
    asset: Seq<char>,
    price: u64,
    ts: u64,
    volume: u64,
    now: u64,
) -> bool {
    &&& forall|bt: TimeBucket|
        recorded_granularity(bt) ==> #[trigger] recorded_store(
            old.live[bt],
            new.live[bt],
            asset,
            bt,
            ts / bucket_secs(bt),
            price,
            ts,
            volume,
        )
    &&& new.live[TimeBucket::OneDay] == old.live[TimeBucket::OneDay]
    &&& new.metadata.dom() == old.metadata.dom().insert(asset)
    &&& forall|a: Seq<char>| #[trigger] old.metadata.dom().contains(a) && a != asset ==> new.metadata[a] == old.metadata[a]
    &&& meta_updated(meta_of(old, asset), new.metadata[asset], asset, price, ts, volume, now)
    &&& new.analytics == old.analytics.remove(asset)
    &&& new.medium == old.medium
    &&& new.historical == old.historical
    &&& new.config == old.config
    &&& new.last_archival_run == old.last_archival_run
}

/// Recording a price of `asset` keeps every counter in range.
pub open spec fn record_all_fits(v: HistoryView, asset: Seq<char>, ts: u64, volume: u64) -> bool {
    &&& forall|bt: TimeBucket|
        recorded_granularity(bt) ==> #[trigger] record_fits(
            bucket_at(store_series(v.live[bt], asset), ts / bucket_secs(bt)),
            volume,
        )
    &&& meta_fits(meta_of(v, asset), volume)
}

/// Change from `old_price` to `price` in basis points of `old_price`.
fn price_change_bps(old_price: u64, price: u64) -> (r: i64)
    ensures
        r == change_bps(old_price, price),
{
    if old_price == 0 {
        return 0;
    }
    let diff: u64 = if price > old_price { price - old_price } else { old_price - price };
    assert((diff as u128) * 10_000 <= u128::MAX) by (nonlinear_arith)
        requires diff <= u64::MAX;
    let q: u128 = (diff as u128) * 10_000 / (old_price as u128);
    #[verifier::truncate]
    let r: i64 = q as i64;
    r
}

fn updated_metadata(old: Option<&AssetMetadata>, asset: &str, price: u64, ts: u64, volume: u64, now: u64) -> (r: AssetMetadata)
    requires
        meta_fits(match old { Some(m) => Some(*m), None => None }, volume),
    ensures
        meta_updated(match old { Some(m) => Some(*m), None => None }, r, asset@, price, ts, volume, now),
{
    let recent = now < ts || now - ts <= 86400;
    match old {
        None => AssetMetadata {
            asset_id: String::from_str(asset),
            total_entries: 1,
            first_timestamp: ts,
            last_timestamp: ts,
            current_price: price,
            high_24h: price,
            low_24h: price,
            volume_24h: if recent { volume } else { 0 },
            price_change_24h_bps: 0,
        },
        Some(m) => AssetMetadata {
            asset_id: m.asset_id.clone(),
            total_entries: m.total_entries + 1,
            first_timestamp: m.first_timestamp,
            last_timestamp: ts,
            current_price: price,
            high_24h: if recent && price > m.high_24h { price } else { m.high_24h },
            low_24h: if recent && price < m.low_24h { price } else { m.low_24h },
            volume_24h: if recent { m.volume_24h + volume } else { m.volume_24h },
            price_change_24h_bps: price_change_bps(m.current_price, price),
        },
    }
}

impl PriceHistoryManager {
    proof fn lemma_view_live(&self, bt: TimeBucket)
        ensures
            self@.live[bt] == live_view(self.store_of(bt)),
    {
    }

    /// Record one price at every stored granularity, update the asset's metadata and
    /// drop its cached analytics.
    pub(crate) fn record_entry(&mut self, entry: &PriceHistoryEntry, now: u64)
        requires
            old(self).wf(),
            record_all_fits(old(self)@, entry.asset_id@, entry.timestamp, entry.volume),
        ensures
            final(self).wf(),
            recorded(old(self)@, final(self)@, entry.asset_id@, entry.price, entry.timestamp, entry.volume, now),
    {
        let asset = entry.asset_id.as_str();
        let ts = entry.timestamp;
        let ghost v0 = self@;
        proof {
            self.lemma_view_live(TimeBucket::OneMinute);
            self.lemma_view_live(TimeBucket::FiveMinute);
            self.lemma_view_live(TimeBucket::FifteenMinute);
            self.lemma_view_live(TimeBucket::OneHour);
            self.lemma_view_live(TimeBucket::SixHour);
            assert(recorded_granularity(TimeBucket::OneMinute));
            assert(recorded_granularity(TimeBucket::FiveMinute));
            assert(recorded_granularity(TimeBucket::FifteenMinute));
            assert(recorded_granularity(TimeBucket::OneHour));
            assert(recorded_granularity(TimeBucket::SixHour));
            assert(view_ordered(v0));
            assert(record_fits(bucket_at(store_series(v0.live[TimeBucket::OneMinute], entry.asset_id@), ts / bucket_secs(TimeBucket::OneMinute)), entry.volume));
            assert(record_fits(bucket_at(store_series(v0.live[TimeBucket::FiveMinute], entry.asset_id@), ts / bucket_secs(TimeBucket::FiveMinute)), entry.volume));
            assert(record_fits(bucket_at(store_series(v0.live[TimeBucket::FifteenMinute], entry.asset_id@), ts / bucket_secs(TimeBucket::FifteenMinute)), entry.volume));
            assert(record_fits(bucket_at(store_series(v0.live[TimeBucket::OneHour], entry.asset_id@), ts / bucket_secs(TimeBucket::OneHour)), entry.volume));
            assert(record_fits(bucket_at(store_series(v0.live[TimeBucket::SixHour], entry.asset_id@), ts / bucket_secs(TimeBucket::SixHour)), entry.volume));
            assert forall|a: Seq<char>| #[trigger] live_view(self.live_1m@).dom().contains(a) implies sorted_idx(live_view(self.live_1m@)[a]) by {
                assert(v0.live[TimeBucket::OneMinute].dom().contains(a));
            }
            assert forall|a: Seq<char>| #[trigger] live_view(self.live_5m@).dom().contains(a) implies sorted_idx(live_view(self.live_5m@)[a]) by {
                assert(v0.live[TimeBucket::FiveMinute].dom().contains(a));
            }
            assert forall|a: Seq<char>| #[trigger] live_view(self.live_15m@).dom().contains(a) implies sorted_idx(live_view(self.live_15m@)[a]) by {
                assert(v0.live[TimeBucket::FifteenMinute].dom().contains(a));
            }
            assert forall|a: Seq<char>| #[trigger] live_view(self.live_1h@).dom().contains(a) implies sorted_idx(live_view(self.live_1h@)[a]) by {
                assert(v0.live[TimeBucket::OneHour].dom().contains(a));
            }
            assert forall|a: Seq<char>| #[trigger] live_view(self.live_6h@).dom().contains(a) implies sorted_idx(live_view(self.live_6h@)[a]) by {
                assert(v0.live[TimeBucket::SixHour].dom().contains(a));
            }
        }
        proof {
            assert(live_shaped(v0));
            assert(store_shaped(v0.live[TimeBucket::OneMinute]));
            assert(store_shaped(v0.live[TimeBucket::FiveMinute]));
            assert(store_shaped(v0.live[TimeBucket::FifteenMinute]));
            assert(store_shaped(v0.live[TimeBucket::OneHour]));
            assert(store_shaped(v0.live[TimeBucket::SixHour]));
            assert(store_shaped(v0.live[TimeBucket::OneDay]));
        }
        record_in_store(&mut self.live_1m, asset, TimeBucket::OneMinute, ts / 60, entry.price, ts, entry.volume);
        record_in_store(&mut self.live_5m, asset, TimeBucket::FiveMinute, ts / 300, entry.price, ts, entry.volume);
        record_in_store(&mut self.live_15m, asset, TimeBucket::FifteenMinute, ts / 900, entry.price, ts, entry.volume);
        record_in_store(&mut self.live_1h, asset, TimeBucket::OneHour, ts / 3600, entry.price, ts, entry.volume);
        record_in_store(&mut self.live_6h, asset, TimeBucket::SixHour, ts / 21600, entry.price, ts, entry.volume);
        let meta = match find_key(&self.asset_metadata, asset) {
            Some(i) => updated_metadata(Some(&self.asset_metadata[i].1), asset, entry.price, ts, entry.volume, now),
            None => updated_metadata(None, asset, entry.price, ts, entry.volume, now),
        };
        upsert(&mut self.asset_metadata, asset, meta);
        remove_key(&mut self.analytics_cache, asset);
        proof {
            let v1 = self@;
            assert forall|bt: TimeBucket| recorded_granularity(bt) implies #[trigger] recorded_store(
                v0.live[bt],
                v1.live[bt],
                entry.asset_id@,
                bt,
                ts / bucket_secs(bt),
                entry.price,
                ts,
                entry.volume,
            ) by {
                self.lemma_view_live(bt);
            }
            self.lemma_view_live(TimeBucket::OneDay);
            assert forall|bt: TimeBucket, a: Seq<char>| #[trigger] v1.live[bt].dom().contains(a) implies sorted_idx(v1.live[bt][a]) by {
                self.lemma_view_live(bt);
                match bt {
                    TimeBucket::OneDay => {
                        assert(v0.live[bt].dom().contains(a));
                    },
                    _ => {},
                }
            }
            assert(v1.metadata =~= v0.metadata.insert(entry.asset_id@, meta));
            assert(v1.medium == v0.medium);
            assert(v1.historical == v0.historical);
            assert forall|a: Seq<char>| #[trigger] v1.medium.dom().contains(a) implies sorted_ws(v1.medium[a]) by {
                assert(v0.medium.dom().contains(a));
            }
            assert forall|a: Seq<char>| #[trigger] v1.historical.dom().contains(a) implies sorted_ws(v1.historical[a]) by {
                assert(v0.historical.dom().contains(a));
            }
            assert(view_ordered(v1));
            assert forall|bt: TimeBucket| #[trigger] store_shaped(v1.live[bt]) by {
                self.lemma_view_live(bt);
            }
            assert(medium_shaped(v0));
            assert(live_shaped(v1));
            assert(cache_consistent(v0));
            assert forall|a: Seq<char>| #[trigger] v1.analytics.dom().contains(a) implies trend_consistent(v1.analytics[a]) by {
                assert(v0.analytics.dom().contains(a));
            }
        }
    }
}

impl PriceHistoryManager {
    /// Store freshly computed analytics of an asset in the cache.
    pub(crate) fn cache_analytics(&mut self, asset_id: &str, a: AnalyticsData)
        requires
            old(self).wf(),
            trend_consistent(a),
        ensures
            final(self).wf(),
            final(self)@ == (HistoryView { analytics: old(self)@.analytics.insert(asset_id@, a), ..old(self)@ }),
    {
        upsert(&mut self.analytics_cache, asset_id, a);
        proof {
            assert forall|bt: TimeBucket| #[trigger] self.store_of(bt) == old(self).store_of(bt) by {}
            assert(self@.live =~= old(self)@.live);
        }
    }
}

impl Default for PriceHistoryManager {
    fn default() -> (r: Self)
        ensures
            r.wf(),
            r@ == empty_history(ArchivalConfig { auto_archive_on_store: true, archival_interval_secs: 3_600 }),
    {
        Self::new()
    }
}

} // verus!
