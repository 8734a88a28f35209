//! The multi-asset price oracle contract: capped per-asset price feeds and
//! histories, a confidence-weighted aggregate with a one-minute cache, deviation
//! alerts and time-weighted averages.
//!
//! The contract's storage is held as plain values: addresses and asset
//! identifiers are strings and the ledger time is passed in as `now`.  The
//! address stamped on an aggregate (a fresh one in the contract) is passed in.

use vstd::prelude::*;
use crate::keyed::{distinct_keys, find_key, lemma_remove, to_map, upsert};

verus! {

/// Deviation of `new` from `old` in basis points of `old`, truncated to `u32` (0
/// when `old` is 0).
pub open spec fn deviation_from(old: u64, new: u64) -> u32 {
    if old == 0 {
        0
    } else {
        let diff = if new > old { new - old } else { old - new };
        (diff * 10_000 / old as int) as u32
    }
}

/// The multi-asset oracle contract's state.
pub struct MultiAssetOracleContract {
    admin: String,
    paused: bool,
    asset_registry: String,
    feeds: Vec<(String, Vec<FeedPrice>)>,
    history: Vec<(String, Vec<FeedPrice>)>,
    alerts: Vec<PriceDeviationAlert>,
    cache: Vec<(String, FeedPrice)>,
}

impl MultiAssetOracleContract {
    /// Deviation of a new price from the old one, in basis points of the old one.
    pub fn calculate_deviation(old_price: u64, new_price: u64) -> (r: u32)
        ensures
            r == deviation_from(old_price, new_price),
    {
        if old_price == 0 {
            return 0;
        }
        let diff: u64 = if new_price > old_price { new_price - old_price } else { old_price - new_price };
        assert((diff as u128) * 10_000 <= u128::MAX) by (nonlinear_arith)
            requires diff <= u64::MAX;
        let q: u128 = (diff as u128) * 10_000 / (old_price as u128);
        #[verifier::truncate]
        let r: u32 = q as u32;
        r
    }
}


/// Submissions kept per asset for aggregation.
pub const MAX_FEED_ENTRIES: usize = 20;
/// History entries kept per asset.
pub const MAX_HISTORY_ENTRIES: usize = 100;
/// Deviation alerts kept.
pub const MAX_DEVIATION_ALERTS: usize = 50;
/// Deviation (basis points) above which an aggregate raises an alert (10%).
pub const CIRCUIT_BREAKER_BPS: u32 = 1000;
/// Seconds an aggregate stays fresh in the cache.
pub const CACHE_TTL: u64 = 60;

/// A price reported for an asset, or an aggregate of several.
#[derive(Debug, PartialEq, Eq)]
pub struct FeedPrice {
    pub asset_id: String,
    pub price: u64,
    pub decimals: u32,
    /// Confidence (0–10 000).
    pub confidence: u32,
    pub timestamp: u64,
    /// Reporting source.
    pub source: String,
    pub price_change_24h: i64,
    pub high_24h: u64,
    pub low_24h: u64,
    pub volume_24h: u64,
}

impl Clone for FeedPrice {
    fn clone(&self) -> (r: Self)
        ensures
            r == *self,
    {
        FeedPrice {
            asset_id: self.asset_id.clone(),
            price: self.price,
            decimals: self.decimals,
            confidence: self.confidence,
            timestamp: self.timestamp,
            source: self.source.clone(),
            price_change_24h: self.price_change_24h,
            high_24h: self.high_24h,
            low_24h: self.low_24h,
            volume_24h: self.volume_24h,
        }
    }
}

/// Severity of a deviation alert.
#[derive(Clone, Copy, Debug, PartialEq, Eq, Structural)]
pub enum AlertSeverity {
    Low,
    Medium,
    High,
    Critical,
}

/// An aggregate that moved too far from the cached one.
#[derive(Debug, PartialEq, Eq)]
pub struct PriceDeviationAlert {
    pub asset_id: String,
    pub expected_price: u64,
    pub reported_price: u64,
    pub deviation_bps: u32,
    pub source: String,
    pub severity: AlertSeverity,
    pub timestamp: u64,
}

impl Clone for PriceDeviationAlert {
    fn clone(&self) -> (r: Self)
        ensures
            r == *self,
    {
        PriceDeviationAlert {
            asset_id: self.asset_id.clone(),
            expected_price: self.expected_price,
            reported_price: self.reported_price,
            deviation_bps: self.deviation_bps,
            source: self.source.clone(),
            severity: self.severity,
            timestamp: self.timestamp,
        }
    }
}

/// Why a call was refused.
#[derive(Clone, Copy, Debug, PartialEq, Eq, Structural)]
pub enum MultiOracleError {
    /// The oracle is paused.
    Paused,
    /// The admin check failed.
    NotAuthorized,
    /// No aggregate could be formed for the asset.
    PriceNotAvailable,
    /// The asset has no price history.
    NoPriceHistory,
    /// No history entry falls in the period.
    NoPriceDataInPeriod,
}

/// A price as a mathematical value.
pub struct FeedRecord {
    pub asset_id: Seq<char>,
    pub price: u64,
    pub decimals: u32,
    pub confidence: u32,
    pub timestamp: u64,
    pub source: Seq<char>,
    pub price_change_24h: i64,
    pub high_24h: u64,
    pub low_24h: u64,
    pub volume_24h: u64,
}

/// The model of a price.
pub open spec fn feed_record(p: FeedPrice) -> FeedRecord {
    FeedRecord {
        asset_id: p.asset_id@,
        price: p.price,
        decimals: p.decimals,
        confidence: p.confidence,
        timestamp: p.timestamp,
        source: p.source@,
        price_change_24h: p.price_change_24h,
        high_24h: p.high_24h,
        low_24h: p.low_24h,
        volume_24h: p.volume_24h,
    }
}

/// The models of a list of prices.
pub open spec fn feed_records(l: Seq<FeedPrice>) -> Seq<FeedRecord> {
    l.map_values(|p: FeedPrice| feed_record(p))
}

/// A deviation alert as a mathematical value.
pub struct AlertRecord {
    pub asset_id: Seq<char>,
    pub expected_price: u64,
    pub reported_price: u64,
    pub deviation_bps: u32,
    pub source: Seq<char>,
    pub severity: AlertSeverity,
    pub timestamp: u64,
}

/// The model of a deviation alert.
pub open spec fn alert_record(a: PriceDeviationAlert) -> AlertRecord {
    AlertRecord {
        asset_id: a.asset_id@,
        expected_price: a.expected_price,
        reported_price: a.reported_price,
        deviation_bps: a.deviation_bps,
        source: a.source@,
        severity: a.severity,
        timestamp: a.timestamp,
    }
}

/// Mathematical model of the oracle's storage.
pub struct MultiOracleView {
    pub admin: Seq<char>,
    pub paused: bool,
    pub asset_registry: Seq<char>,
    /// Latest submissions per asset, oldest first.
    pub feeds: Map<Seq<char>, Seq<FeedRecord>>,
    /// Price history per asset, oldest first.
    pub history: Map<Seq<char>, Seq<FeedRecord>>,
    /// Deviation alerts, oldest first.
    pub alerts: Seq<AlertRecord>,
    /// Latest aggregate per asset.
    pub cache: Map<Seq<char>, FeedRecord>,
}

/// The lists of prices per key, as models.
pub open spec fn feed_map(s: Seq<(String, Vec<FeedPrice>)>) -> Map<Seq<char>, Seq<FeedRecord>> {
    to_map(s).map_values(|l: Vec<FeedPrice>| feed_records(l@))
}

impl View for MultiAssetOracleContract {
    type V = MultiOracleView;

    closed spec fn view(&self) -> MultiOracleView {
        MultiOracleView {
            admin: self.admin@,
            paused: self.paused,
            asset_registry: self.asset_registry@,
            feeds: feed_map(self.feeds@),
            history: feed_map(self.history@),
            alerts: self.alerts@.map_values(|a: PriceDeviationAlert| alert_record(a)),
            cache: to_map(self.cache@).map_values(|p: FeedPrice| feed_record(p)),
        }
    }
}

/// `l` followed by `x`, dropping the oldest entry beyond `cap` entries.
pub open spec fn capped_push<A>(l: Seq<A>, x: A, cap: nat) -> Seq<A> {
    if l.len() + 1 > cap { l.push(x).drop_first() } else { l.push(x) }
}

/// Sum of price times confidence.
pub open spec fn confidence_weighted_sum(ps: Seq<FeedRecord>) -> nat
    decreases ps.len(),
{
    if ps.len() == 0 {
        0
    } else {
        confidence_weighted_sum(ps.drop_last()) + (ps.last().price * ps.last().confidence) as nat
    }
}

/// Sum of the confidences.
pub open spec fn confidence_total(ps: Seq<FeedRecord>) -> nat
    decreases ps.len(),
{
    if ps.len() == 0 {
        0
    } else {
        confidence_total(ps.drop_last()) + ps.last().confidence as nat
    }
}

/// Severity of a deviation.
pub open spec fn deviation_severity(dev: u32) -> AlertSeverity {
    if dev > 2000 {
        AlertSeverity::Critical
    } else if dev > 1000 {
        AlertSeverity::High
    } else if dev > 500 {
        AlertSeverity::Medium
    } else {
        AlertSeverity::Low
    }
}

/// The aggregate record of an asset: confidence-weighted average price, average
/// confidence and the last submission's decimals, stamped `now` by `src`.
pub open spec fn aggregate_record(asset: Seq<char>, ps: Seq<FeedRecord>, now: u64, src: Seq<char>) -> FeedRecord {
    let agg = (confidence_weighted_sum(ps) / confidence_total(ps)) as u64;
    FeedRecord {
        asset_id: asset,
        price: agg,
        decimals: ps.last().decimals,
        confidence: (confidence_total(ps) / ps.len()) as u32,
        timestamp: now,
        source: src,
        price_change_24h: 0,
        high_24h: agg,
        low_24h: agg,
        volume_24h: 0,
    }
}

/// Whether an aggregate can be formed for `asset`.
pub open spec fn aggregable(v: MultiOracleView, asset: Seq<char>) -> bool {
    v.feeds.dom().contains(asset) && v.feeds[asset].len() > 0 && confidence_total(v.feeds[asset]) > 0
}

/// The oracle after aggregating `asset` at `now`: a new aggregate replaces the
/// cached one, with an alert when it deviates by more than 10% from it.
pub open spec fn aggregate_step(v: MultiOracleView, asset: Seq<char>, now: u64, src: Seq<char>) -> MultiOracleView {
    if !aggregable(v, asset) {
        v
    } else {
        let rec = aggregate_record(asset, v.feeds[asset], now, src);
        let alerts = if v.cache.dom().contains(asset) && deviation_from(v.cache[asset].price, rec.price) > CIRCUIT_BREAKER_BPS {
            let dev = deviation_from(v.cache[asset].price, rec.price);
            capped_push(
                v.alerts,
                AlertRecord {
                    asset_id: asset,
                    expected_price: v.cache[asset].price,
                    reported_price: rec.price,
                    deviation_bps: dev,
                    source: src,
                    severity: deviation_severity(dev),
                    timestamp: now,
                },
                MAX_DEVIATION_ALERTS as nat,
            )
        } else {
            v.alerts
        };
        MultiOracleView { alerts, cache: v.cache.insert(asset, rec), ..v }
    }
}

/// Aggregating `asset` stays within the contract's arithmetic.
pub open spec fn aggregate_fits(v: MultiOracleView, asset: Seq<char>) -> bool {
    v.feeds.dom().contains(asset) ==> confidence_total(v.feeds[asset]) <= u32::MAX
}

proof fn lemma_weighted_sum_bound(ps: Seq<FeedRecord>)
    ensures
        confidence_weighted_sum(ps) <= ps.len() * (u64::MAX * u32::MAX),
    decreases ps.len(),
{
    if ps.len() > 0 {
        lemma_weighted_sum_bound(ps.drop_last());
        let x = ps.last();
        assert(x.price * x.confidence <= u64::MAX * u32::MAX) by (nonlinear_arith)
            requires
                x.price <= u64::MAX,
                x.confidence <= u32::MAX,
        ;
        assert((ps.len() - 1) * (u64::MAX * u32::MAX) + u64::MAX * u32::MAX == ps.len() * (u64::MAX * u32::MAX))
            by (nonlinear_arith);
    }
}

proof fn lemma_sums_prefix(ps: Seq<FeedRecord>, k: int)
    requires
        0 <= k <= ps.len(),
    ensures
        confidence_total(ps.take(k)) <= confidence_total(ps),
        confidence_weighted_sum(ps.take(k)) <= confidence_weighted_sum(ps),
    decreases ps.len() - k,
{
    if k == ps.len() {
        assert(ps.take(k) =~= ps);
    } else {
        lemma_sums_prefix(ps, k + 1);
        assert(ps.take(k + 1).drop_last() =~= ps.take(k));
    }
}

impl MultiAssetOracleContract {
    /// One entry per asset in each table, and at most 20 submissions per asset.
    pub closed spec fn wf(&self) -> bool {
        &&& distinct_keys(self.feeds@)
        &&& distinct_keys(self.history@)
        &&& distinct_keys(self.cache@)
        &&& forall|k: Seq<char>| #[trigger] self@.feeds.dom().contains(k) ==> self@.feeds[k].len() <= MAX_FEED_ENTRIES
    }

    /// Set up the oracle with its admin and the asset registry's address.
    pub fn initialize(admin: &str, asset_registry_address: &str) -> (r: Self)
        ensures
            r.wf(),
            r@.admin == admin@,
            !r@.paused,
            r@.asset_registry == asset_registry_address@,
            r@.feeds.is_empty(),
            r@.history.is_empty(),
            r@.alerts.len() == 0,
            r@.cache.is_empty(),
    {
        let r = MultiAssetOracleContract {
            admin: String::from_str(admin),
            paused: false,
            asset_registry: String::from_str(asset_registry_address),
            feeds: Vec::new(),
            history: Vec::new(),
            alerts: Vec::new(),
            cache: Vec::new(),
        };
        proof {
            assert(feed_map(r.feeds@) =~= Map::<Seq<char>, Seq<FeedRecord>>::empty());
            assert(feed_map(r.history@) =~= Map::<Seq<char>, Seq<FeedRecord>>::empty());
            assert(to_map(r.cache@).map_values(|p: FeedPrice| feed_record(p)) =~= Map::<Seq<char>, FeedRecord>::empty());
        }
        r
    }

    /// The admin check: the address the contract runs under must be the admin.
    fn require_admin(&self, contract_address: &str) -> (r: Result<(), MultiOracleError>)
        ensures
            r is Ok <==> contract_address@ == self@.admin,
            r is Err ==> r == Err::<(), MultiOracleError>(MultiOracleError::NotAuthorized),
    {
        let a = String::from_str(contract_address);
        if a == self.admin {
            Ok(())
        } else {
            Err(MultiOracleError::NotAuthorized)
        }
    }

    /// Pause or resume price submissions (admin only).
    fn set_paused(&mut self, contract_address: &str, paused: bool) -> (r: Result<(), MultiOracleError>)
        requires
            old(self).wf(),
        ensures
            final(self).wf(),
            contract_address@ != old(self)@.admin ==> r == Err::<(), MultiOracleError>(MultiOracleError::NotAuthorized)
                && final(self)@ == old(self)@,
            contract_address@ == old(self)@.admin ==> r is Ok && final(self)@ == (MultiOracleView { paused, ..old(self)@ }),
    {
        match self.require_admin(contract_address) {
            Err(e) => return Err(e),
            Ok(()) => {},
        }
        self.paused = paused;
        Ok(())
    }

    /// Pause price submissions (admin only).
    pub fn pause(&mut self, contract_address: &str) -> (r: Result<(), MultiOracleError>)
        requires
            old(self).wf(),
        ensures
            final(self).wf(),
            contract_address@ != old(self)@.admin ==> r == Err::<(), MultiOracleError>(MultiOracleError::NotAuthorized)
                && final(self)@ == old(self)@,
            contract_address@ == old(self)@.admin ==> r is Ok && final(self)@ == (MultiOracleView {
                paused: true,
                ..old(self)@
            }),
    {
        self.set_paused(contract_address, true)
    }

    /// Resume price submissions (admin only).
    pub fn unpause(&mut self, contract_address: &str) -> (r: Result<(), MultiOracleError>)
        requires
            old(self).wf(),
        ensures
            final(self).wf(),
            contract_address@ != old(self)@.admin ==> r == Err::<(), MultiOracleError>(MultiOracleError::NotAuthorized)
                && final(self)@ == old(self)@,
            contract_address@ == old(self)@.admin ==> r is Ok && final(self)@ == (MultiOracleView {
                paused: false,
                ..old(self)@
            }),
    {
        self.set_paused(contract_address, false)
    }

    /// Point the oracle at another asset registry (admin only).
    pub fn update_asset_registry(&mut self, contract_address: &str, new_address: &str) -> (r: Result<(), MultiOracleError>)
        requires
            old(self).wf(),
        ensures
            final(self).wf(),
            contract_address@ != old(self)@.admin ==> r == Err::<(), MultiOracleError>(MultiOracleError::NotAuthorized)
                && final(self)@ == old(self)@,
            contract_address@ == old(self)@.admin ==> r is Ok && final(self)@ == (MultiOracleView {
                asset_registry: new_address@,
                ..old(self)@
            }),
    {
        match self.require_admin(contract_address) {
            Err(e) => return Err(e),
            Ok(()) => {},
        }
        self.asset_registry = String::from_str(new_address);
        Ok(())
    }

    /// The deviation alerts, oldest first.
    pub fn get_deviation_alerts(&self) -> (r: Vec<PriceDeviationAlert>)
        ensures
            r@.map_values(|a: PriceDeviationAlert| alert_record(a)) == self@.alerts,
    {
        let mut out: Vec<PriceDeviationAlert> = Vec::new();
        let mut i: usize = 0;
        while i < self.alerts.len()
            invariant
                i <= self.alerts@.len(),
                out@ == self.alerts@.take(i as int),
            decreases self.alerts@.len() - i,
        {
            out.push(self.alerts[i].clone());
            proof {
                assert(out@ =~= self.alerts@.take(i + 1));
            }
            i = i + 1;
        }
        proof {
            assert(out@ =~= self.alerts@);
        }
        out
    }

    /// Drop every deviation alert (admin only).
    pub fn clear_deviation_alerts(&mut self, contract_address: &str) -> (r: Result<(), MultiOracleError>)
        requires
            old(self).wf(),
        ensures
            final(self).wf(),
            contract_address@ != old(self)@.admin ==> r == Err::<(), MultiOracleError>(MultiOracleError::NotAuthorized)
                && final(self)@ == old(self)@,
            contract_address@ == old(self)@.admin ==> r is Ok && final(self)@ == (MultiOracleView {
                alerts: Seq::empty(),
                ..old(self)@
            }),
    {
        match self.require_admin(contract_address) {
            Err(e) => return Err(e),
            Ok(()) => {},
        }
        self.alerts = Vec::new();
        proof {
            assert(self@.alerts =~= Seq::<AlertRecord>::empty());
        }
        Ok(())
    }

    /// The price history of an asset, oldest first (empty without one).
    pub fn get_price_history(&self, asset_id: &str) -> (r: Vec<FeedPrice>)
        requires
            self.wf(),
        ensures
            feed_records(r@) == if self@.history.dom().contains(asset_id@) {
                self@.history[asset_id@]
            } else {
                Seq::empty()
            },
    {
        match find_key(&self.history, asset_id) {
            Some(i) => {
                let mut out: Vec<FeedPrice> = Vec::new();
                let mut j: usize = 0;
                while j < self.history[i].1.len()
                    invariant
                        i < self.history@.len(),
                        j <= self.history@[i as int].1@.len(),
                        out@ == self.history@[i as int].1@.take(j as int),
                    decreases self.history@[i as int].1@.len() - j,
                {
                    out.push(self.history[i].1[j].clone());
                    proof {
                        assert(out@ =~= self.history@[i as int].1@.take(j + 1));
                    }
                    j = j + 1;
                }
                proof {
                    assert(out@ =~= self.history@[i as int].1@);
                }
                out
            },
            None => {
                let out: Vec<FeedPrice> = Vec::new();
                proof {
                    assert(feed_records(out@) =~= Seq::<FeedRecord>::empty());
                }
                out
            },
        }
    }
}


/// `r` is a price whose model is `rec`.
pub open spec fn returns_record(r: Result<FeedPrice, MultiOracleError>, rec: FeedRecord) -> bool {
    match r {
        Ok(p) => feed_record(p) == rec,
        Err(_) => false,
    }
}

/// The list stored under `k`, or an empty one.
pub open spec fn list_or_empty(m: Map<Seq<char>, Seq<FeedRecord>>, k: Seq<char>) -> Seq<FeedRecord> {
    if m.dom().contains(k) { m[k] } else { Seq::empty() }
}

/// The oracle after storing a submission `rec` for `asset`, before aggregation.
pub open spec fn submission_stored(v: MultiOracleView, asset: Seq<char>, rec: FeedRecord) -> MultiOracleView {
    MultiOracleView {
        feeds: v.feeds.insert(asset, capped_push(list_or_empty(v.feeds, asset), rec, MAX_FEED_ENTRIES as nat)),
        history: v.history.insert(asset, capped_push(list_or_empty(v.history, asset), rec, MAX_HISTORY_ENTRIES as nat)),
        ..v
    }
}

/// Whether the cached aggregate of `asset` is less than a minute old at `now`.
pub open spec fn cache_fresh(v: MultiOracleView, asset: Seq<char>, now: u64) -> bool {
    v.cache.dom().contains(asset) && now - v.cache[asset].timestamp < CACHE_TTL
}

/// Running state of a time-weighted average over a history: weighted sum, total
/// weight, and the last entry taken (time, price, decimals, confidence).
pub struct TwapAcc {
    pub weighted: int,
    pub total: int,
    pub last_ts: u64,
    pub last_price: u64,
    pub decimals: u32,
    pub confidence: u32,
}

/// The time-weighted average state over the entries of `h` at or after `cutoff`:
/// each price is weighted by the time until the next such entry.
pub open spec fn twap_acc(h: Seq<FeedRecord>, cutoff: u64) -> TwapAcc
    decreases h.len(),
{
    if h.len() == 0 {
        TwapAcc { weighted: 0, total: 0, last_ts: 0, last_price: 0, decimals: 6, confidence: 0 }
    } else {
        let prev = twap_acc(h.drop_last(), cutoff);
        let e = h.last();
        if e.timestamp >= cutoff {
            let gap = e.timestamp - prev.last_ts;
            TwapAcc {
                weighted: if prev.last_ts > 0 { prev.weighted + prev.last_price * gap } else { prev.weighted },
                total: if prev.last_ts > 0 { prev.total + gap } else { prev.total },
                last_ts: e.timestamp,
                last_price: e.price,
                decimals: e.decimals,
                confidence: e.confidence,
            }
        } else {
            prev
        }
    }
}

/// The time-weighted average over `h` stays within the contract's arithmetic:
/// entries in the window come in time order and the sums fit.
pub open spec fn twap_fits(h: Seq<FeedRecord>, cutoff: u64) -> bool
    decreases h.len(),
{
    if h.len() == 0 {
        true
    } else {
        let prev = twap_acc(h.drop_last(), cutoff);
        let e = h.last();
        &&& twap_fits(h.drop_last(), cutoff)
        &&& e.timestamp >= cutoff && prev.last_ts > 0 ==> e.timestamp >= prev.last_ts
        &&& twap_acc(h, cutoff).weighted <= u128::MAX
        &&& twap_acc(h, cutoff).total <= u64::MAX
    }
}

proof fn lemma_twap_fits_prefix(h: Seq<FeedRecord>, cutoff: u64, k: int)
    requires
        0 <= k <= h.len(),
        twap_fits(h, cutoff),
    ensures
        twap_fits(h.take(k), cutoff),
    decreases h.len() - k,
{
    if k == h.len() {
        assert(h.take(k) =~= h);
    } else {
        lemma_twap_fits_prefix(h, cutoff, k + 1);
        assert(h.take(k + 1).drop_last() =~= h.take(k));
    }
}

impl MultiAssetOracleContract {
    /// Append `price` to the list stored under `key`, keeping at most `cap` entries.
    fn push_capped(v: &mut Vec<(String, Vec<FeedPrice>)>, key: &str, price: FeedPrice, cap: usize)
        requires
            distinct_keys(old(v)@),
            cap > 0,
        ensures
            distinct_keys(final(v)@),
            feed_map(final(v)@) == feed_map(old(v)@).insert(
                key@,
                capped_push(list_or_empty(feed_map(old(v)@), key@), feed_record(price), cap as nat),
            ),
    {
        let ghost rec = feed_record(price);
        let ghost prev = list_or_empty(feed_map(v@), key@);
        let mut list: Vec<FeedPrice> = match find_key(v, key) {
            Some(i) => {
                proof {
                    lemma_remove(v@, i as int);
                }
                let (_k, l) = v.remove(i);
                l
            },
            None => Vec::new(),
        };
        proof {
            assert(feed_records(list@) =~= prev);
        }
        let ghost before = list@;
        list.push(price);
        proof {
            assert(feed_records(list@) =~= prev.push(rec));
        }
        if list.len() > cap {
            let ghost pushed = list@;
            let _ = list.remove(0);
            proof {
                assert(list@ =~= pushed.drop_first());
                assert(feed_records(list@) =~= prev.push(rec).drop_first());
            }
        }
        let ghost l = list;
        upsert(v, key, list);
        proof {
            assert(feed_map(v@) =~= feed_map(old(v)@).insert(key@, feed_records(l@)));
        }
    }

    /// Aggregate the submissions of an asset into the cache, raising a deviation
    /// alert when the aggregate moves more than 10% from the cached one.
    fn aggregate_price(&mut self, asset_id: &str, now: u64, source: &str)
        requires
            old(self).wf(),
            aggregate_fits(old(self)@, asset_id@),
        ensures
            final(self).wf(),
            final(self)@ == aggregate_step(old(self)@, asset_id@, now, source@),
    {
        let ghost v0 = self@;
        let i = match find_key(&self.feeds, asset_id) {
            Some(i) => i,
            None => return,
        };
        let n = self.feeds[i].1.len();
        let ghost recs = feed_records(self.feeds@[i as int].1@);
        proof {
            assert(recs == v0.feeds[asset_id@]);
        }
        if n == 0 {
            return;
        }
        let mut weighted: u128 = 0;
        let mut total: u32 = 0;
        let mut j: usize = 0;
        proof {
            lemma_weighted_sum_bound(recs);
            assert(v0.feeds.dom().contains(asset_id@));
            assert(recs.len() <= 20);
            assert(recs.len() * (u64::MAX * u32::MAX) <= 20 * (u64::MAX * u32::MAX)) by (nonlinear_arith)
                requires
                    recs.len() <= 20,
            ;
        }
        while j < n
            invariant
                i < self.feeds@.len(),
                n == self.feeds@[i as int].1@.len(),
                recs == feed_records(self.feeds@[i as int].1@),
                j <= n,
                weighted == confidence_weighted_sum(recs.take(j as int)),
                total == confidence_total(recs.take(j as int)),
                confidence_total(recs) <= u32::MAX,
                confidence_weighted_sum(recs) <= 20 * (u64::MAX * u32::MAX),
            decreases n - j,
        {
            proof {
                assert(recs.take(j + 1).drop_last() =~= recs.take(j as int));
                assert(recs.take(j + 1).last() == feed_record(self.feeds@[i as int].1@[j as int]));
                lemma_sums_prefix(recs, j + 1);
            }
            let p = self.feeds[i].1[j].price;
            let c = self.feeds[i].1[j].confidence;
            weighted = weighted + (p as u128) * (c as u128);
            total = total + c;
            j = j + 1;
        }
        proof {
            assert(recs.take(n as int) =~= recs);
        }
        if total == 0 {
            return;
        }
        let q: u128 = weighted / (total as u128);
        let agg: u64 = #[verifier::truncate] (q as u64);
        let avg: u32 = total / (n as u32);
        let decimals = self.feeds[i].1[n - 1].decimals;
        proof {
            assert(recs.last() == feed_record(self.feeds@[i as int].1@[n - 1]));
        }
        match find_key(&self.cache, asset_id) {
            Some(c) => {
                let expected = self.cache[c].1.price;
                let dev = Self::calculate_deviation(expected, agg);
                if dev > CIRCUIT_BREAKER_BPS {
                    let severity = if dev > 2000 {
                        AlertSeverity::Critical
                    } else if dev > 1000 {
                        AlertSeverity::High
                    } else if dev > 500 {
                        AlertSeverity::Medium
                    } else {
                        AlertSeverity::Low
                    };
                    let ghost a0 = self.alerts@;
                    self.alerts.push(
                        PriceDeviationAlert {
                            asset_id: String::from_str(asset_id),
                            expected_price: expected,
                            reported_price: agg,
                            deviation_bps: dev,
                            source: String::from_str(source),
                            severity,
                            timestamp: now,
                        },
                    );
                    let ghost a1 = self.alerts@;
                    if self.alerts.len() > MAX_DEVIATION_ALERTS {
                        let _ = self.alerts.remove(0);
                        proof {
                            assert(self.alerts@ =~= a1.drop_first());
                        }
                    }
                    proof {
                        assert(self@.alerts =~= aggregate_step(v0, asset_id@, now, source@).alerts);
                    }
                }
            },
            None => {},
        }
        let quote = FeedPrice {
            asset_id: String::from_str(asset_id),
            price: agg,
            decimals,
            confidence: avg,
            timestamp: now,
            source: String::from_str(source),
            price_change_24h: 0,
            high_24h: agg,
            low_24h: agg,
            volume_24h: 0,
        };
        let ghost qrec = feed_record(quote);
        upsert(&mut self.cache, asset_id, quote);
        proof {
            assert(qrec == aggregate_record(asset_id@, recs, now, source@));
            assert(self@.cache =~= v0.cache.insert(asset_id@, qrec));
            assert(self@.feeds == v0.feeds);
        }
    }

    /// Submit a price for an asset at `now`: it joins the asset's latest 20
    /// submissions and latest 100 history entries, and the asset is re-aggregated
    /// (the aggregate stamped by `aggregate_source`).
    pub fn submit_price(&mut self, asset_id: &str, price: FeedPrice, now: u64, aggregate_source: &str) -> (r: Result<
        (),
        MultiOracleError,
    >)
        requires
            old(self).wf(),
            !old(self)@.paused ==> aggregate_fits(submission_stored(old(self)@, asset_id@, feed_record(price)), asset_id@),
        ensures
            final(self).wf(),
            old(self)@.paused ==> r == Err::<(), MultiOracleError>(MultiOracleError::Paused) && final(self)@ == old(self)@,
            !old(self)@.paused ==> r is Ok && final(self)@ == aggregate_step(
                submission_stored(old(self)@, asset_id@, feed_record(price)),
                asset_id@,
                now,
                aggregate_source@,
            ),
    {
        if self.paused {
            return Err(MultiOracleError::Paused);
        }
        let ghost v0 = self@;
        let ghost rec = feed_record(price);
        let copy = price.clone();
        Self::push_capped(&mut self.feeds, asset_id, price, MAX_FEED_ENTRIES);
        Self::push_capped(&mut self.history, asset_id, copy, MAX_HISTORY_ENTRIES);
        proof {
            assert(self@ == submission_stored(v0, asset_id@, rec));
            assert forall|k: Seq<char>| #[trigger] self@.feeds.dom().contains(k) implies self@.feeds[k].len()
                <= MAX_FEED_ENTRIES by {
                if k != asset_id@ {
                    assert(v0.feeds.dom().contains(k));
                }
            }
        }
        self.aggregate_price(asset_id, now, aggregate_source);
        Ok(())
    }

    /// The aggregated price of an asset at `now`: the cached aggregate while it is
    /// less than a minute old, else a fresh aggregate (stamped by
    /// `aggregate_source`).
    pub fn get_price(&mut self, asset_id: &str, now: u64, aggregate_source: &str) -> (r: Result<FeedPrice, MultiOracleError>)
        requires
            old(self).wf(),
            old(self)@.cache.dom().contains(asset_id@) ==> old(self)@.cache[asset_id@].timestamp <= now,
            aggregate_fits(old(self)@, asset_id@),
        ensures
            final(self).wf(),
            cache_fresh(old(self)@, asset_id@, now) ==> final(self)@ == old(self)@ && returns_record(
                r,
                old(self)@.cache[asset_id@],
            ),
            !cache_fresh(old(self)@, asset_id@, now) ==> {
                let v1 = aggregate_step(old(self)@, asset_id@, now, aggregate_source@);
                &&& final(self)@ == v1
                &&& v1.cache.dom().contains(asset_id@) ==> returns_record(r, v1.cache[asset_id@])
                &&& !v1.cache.dom().contains(asset_id@) ==> r == Err::<FeedPrice, MultiOracleError>(
                    MultiOracleError::PriceNotAvailable,
                )
            },
    {
        match find_key(&self.cache, asset_id) {
            Some(c) => {
                if now - self.cache[c].1.timestamp < CACHE_TTL {
                    return Ok(self.cache[c].1.clone());
                }
            },
            None => {},
        }
        self.aggregate_price(asset_id, now, aggregate_source);
        match find_key(&self.cache, asset_id) {
            Some(c) => Ok(self.cache[c].1.clone()),
            None => Err(MultiOracleError::PriceNotAvailable),
        }
    }

    /// Time-weighted average price of an asset over the last `period` seconds at
    /// `now`, from its history (stamped by `aggregate_source`).
    pub fn get_twap_price(&self, asset_id: &str, period: u64, now: u64, aggregate_source: &str) -> (r: Result<
        FeedPrice,
        MultiOracleError,
    >)
        requires
            self.wf(),
            self@.history.dom().contains(asset_id@) ==> period <= now && twap_fits(
                self@.history[asset_id@],
                (now - period) as u64,
            ),
        ensures
            !self@.history.dom().contains(asset_id@) ==> r == Err::<FeedPrice, MultiOracleError>(
                MultiOracleError::NoPriceHistory,
            ),
            self@.history.dom().contains(asset_id@) ==> {
                let acc = twap_acc(self@.history[asset_id@], (now - period) as u64);
                &&& acc.total == 0 ==> r == Err::<FeedPrice, MultiOracleError>(MultiOracleError::NoPriceDataInPeriod)
                &&& acc.total > 0 ==> returns_record(r, FeedRecord {
                    asset_id: asset_id@,
                    price: (acc.weighted / acc.total) as u64,
                    decimals: acc.decimals,
                    confidence: acc.confidence,
                    timestamp: now,
                    source: aggregate_source@,
                    price_change_24h: 0,
                    high_24h: (acc.weighted / acc.total) as u64,
                    low_24h: (acc.weighted / acc.total) as u64,
                    volume_24h: 0,
                })
            },
    {
        let i = match find_key(&self.history, asset_id) {
            Some(i) => i,
            None => return Err(MultiOracleError::NoPriceHistory),
        };
        let ghost h = feed_records(self.history@[i as int].1@);
        proof {
            assert(h == self@.history[asset_id@]);
        }
        let cutoff: u64 = now - period;
        let mut weighted: u128 = 0;
        let mut total: u64 = 0;
        let mut last_ts: u64 = 0;
        let mut last_price: u64 = 0;
        let mut decimals: u32 = 6;
        let mut confidence: u32 = 0;
        let n = self.history[i].1.len();
        let mut j: usize = 0;
        while j < n
            invariant
                i < self.history@.len(),
                n == self.history@[i as int].1@.len(),
                h == feed_records(self.history@[i as int].1@),
                j <= n,
                twap_fits(h, cutoff),
                ({
                    let acc = twap_acc(h.take(j as int), cutoff);
                    &&& weighted == acc.weighted
                    &&& total == acc.total
                    &&& last_ts == acc.last_ts
                    &&& last_price == acc.last_price
                    &&& decimals == acc.decimals
                    &&& confidence == acc.confidence
                }),
            decreases n - j,
        {
            proof {
                assert(h.take(j + 1).drop_last() =~= h.take(j as int));
                assert(h.take(j + 1).last() == feed_record(self.history@[i as int].1@[j as int]));
                lemma_twap_fits_prefix(h, cutoff, j + 1);
            }
            let e = &self.history[i].1[j];
            if e.timestamp >= cutoff {
                if last_ts > 0 {
                    let gap: u64 = e.timestamp - last_ts;
                    weighted = weighted + (last_price as u128) * (gap as u128);
                    total = total + gap;
                }
                last_ts = e.timestamp;
                last_price = e.price;
                decimals = e.decimals;
                confidence = e.confidence;
            }
            j = j + 1;
        }
        proof {
            assert(h.take(n as int) =~= h);
        }
        if total == 0 {
            return Err(MultiOracleError::NoPriceDataInPeriod);
        }
        let q: u128 = weighted / (total as u128);
        let twap: u64 = #[verifier::truncate] (q as u64);
        Ok(
            FeedPrice {
                asset_id: String::from_str(asset_id),
                price: twap,
                decimals,
                confidence,
                timestamp: now,
                source: String::from_str(aggregate_source),
                price_change_24h: 0,
                high_24h: twap,
                low_24h: twap,
                volume_24h: 0,
            },
        )
    }
}

} // verus!
