//! Time-weighted and simple averages, volatility and cached analytics.

use vstd::prelude::*;
use super::query::{history_in_range, lemma_sum_close_bound, mean_close, mean_closes, page, sum_close, sum_closes};
use super::{cache_consistent, trend_consistent, HistoryView, PriceHistoryManager};
use crate::keyed::find_key;
use crate::numeric::{is_isqrt, isqrt_u128, lemma_isqrt_unique, sqrt_floor};
use crate::price_history::{
    AnalyticsData, PriceBucket, PriceHistoryError, PriceTrend, TimeBucket, TwapResult,
    MAX_HISTORY_RETENTION,
};

verus! {

/// `a + b`, saturating at `u128::MAX`.
pub open spec fn sat_add128(a: int, b: int) -> u128 {
    if a + b > u128::MAX { u128::MAX } else { (a + b) as u128 }
}

/// `a + b`, saturating at `u64::MAX`.
pub open spec fn sat_add64(a: int, b: int) -> u64 {
    if a + b > u64::MAX { u64::MAX } else { (a + b) as u64 }
}

/// `a + b`, saturating at `u32::MAX`.
pub open spec fn sat_add32(a: int, b: int) -> u32 {
    if a + b > u32::MAX { u32::MAX } else { (a + b) as u32 }
}

/// `a - b`, floored at 0.
pub open spec fn sat_sub(a: u64, b: u64) -> u64 {
    if a >= b { (a - b) as u64 } else { 0 }
}

/// Running state of the time-weighted average over a bucket sequence.
pub struct TwapAcc {
    pub weighted_sum: u128,
    pub total_weight: u64,
    pub data_points: u32,
    pub last_timestamp: u64,
    pub last_price: u64,
}

/// One step of the time-weighted average: the previous close is weighted by the gap
/// between the previous bucket's last timestamp and this bucket's first timestamp.
/// A previous last timestamp of 0 marks the first bucket.  Sums saturate.
pub open spec fn twap_step(a: TwapAcc, b: PriceBucket) -> TwapAcc {
    let w = sat_sub(b.first_timestamp, a.last_timestamp);
    TwapAcc {
        weighted_sum: if a.last_timestamp > 0 { sat_add128(a.weighted_sum as int, a.last_price * w) } else { a.weighted_sum },
        total_weight: if a.last_timestamp > 0 { sat_add64(a.total_weight as int, w as int) } else { a.total_weight },
        data_points: sat_add32(a.data_points as int, b.entry_count as int),
        last_timestamp: b.last_timestamp,
        last_price: b.close,
    }
}

/// The time-weighted average state after a sequence of buckets.
pub open spec fn twap_acc(s: Seq<PriceBucket>) -> TwapAcc
    decreases s.len(),
{
    if s.len() == 0 {
        TwapAcc { weighted_sum: 0, total_weight: 0, data_points: 0, last_timestamp: 0, last_price: 0 }
    } else {
        twap_step(twap_acc(s.drop_last()), s.last())
    }
}

/// Weight of the close of bucket `i - 1` in the time-weighted average over `s`:
/// the gap to bucket `i` (none when bucket `i - 1` ends at time 0).
pub open spec fn twap_weight(s: Seq<PriceBucket>, i: int) -> int {
    if s[i - 1].last_timestamp > 0 {
        sat_sub(s[i].first_timestamp, s[i - 1].last_timestamp) as int
    } else {
        0
    }
}

/// The exact (unsaturated) weighted sum of the closes of `s`.
pub open spec fn exact_weighted(s: Seq<PriceBucket>) -> int
    decreases s.len(),
{
    if s.len() <= 1 {
        0
    } else {
        exact_weighted(s.drop_last()) + s[s.len() - 2].close * twap_weight(s, s.len() - 1)
    }
}

/// The exact (unsaturated) total weight of `s`.
pub open spec fn exact_total(s: Seq<PriceBucket>) -> int
    decreases s.len(),
{
    if s.len() <= 1 {
        0
    } else {
        exact_total(s.drop_last()) + twap_weight(s, s.len() - 1)
    }
}

proof fn lemma_exact_sums(s: Seq<PriceBucket>)
    ensures
        0 <= exact_weighted(s.drop_last()) <= exact_weighted(s) || s.len() == 0,
        0 <= exact_total(s.drop_last()) <= exact_total(s) || s.len() == 0,
        0 <= exact_weighted(s),
        0 <= exact_total(s),
    decreases s.len(),
{
    if s.len() > 0 {
        lemma_exact_sums(s.drop_last());
        if s.len() > 1 {
            assert(s[s.len() - 2].close * twap_weight(s, s.len() - 1) >= 0) by (nonlinear_arith)
                requires s[s.len() - 2].close >= 0, twap_weight(s, s.len() - 1) >= 0;
        }
    }
}

proof fn lemma_twap_acc_exact(s: Seq<PriceBucket>)
    requires
        exact_weighted(s) <= u128::MAX,
        exact_total(s) <= u64::MAX,
    ensures
        twap_acc(s).weighted_sum == exact_weighted(s),
        twap_acc(s).total_weight == exact_total(s),
        s.len() > 0 ==> twap_acc(s).last_timestamp == s.last().last_timestamp && twap_acc(s).last_price == s.last().close,
        s.len() == 0 ==> twap_acc(s).last_timestamp == 0,
    decreases s.len(),
{
    if s.len() > 0 {
        let t = s.drop_last();
        lemma_exact_sums(s);
        lemma_twap_acc_exact(t);
        if s.len() > 1 {
            assert(t.last() == s[s.len() - 2]);
            assert(s.last() == s[s.len() - 1]);
        } else {
            assert(exact_weighted(s) == 0);
        }
    }
}

proof fn lemma_exact_bounds(s: Seq<PriceBucket>, lo: int, hi: int)
    requires
        forall|i: int| 0 <= i < s.len() ==> lo <= #[trigger] s[i].close <= hi,
        0 <= lo,
    ensures
        lo * exact_total(s) <= exact_weighted(s) <= hi * exact_total(s),
    decreases s.len(),
{
    if s.len() > 1 {
        let t = s.drop_last();
        assert forall|i: int| 0 <= i < t.len() implies lo <= #[trigger] t[i].close <= hi by {
            assert(t[i] == s[i]);
        }
        lemma_exact_bounds(t, lo, hi);
        let c = s[s.len() - 2].close as int;
        let w = twap_weight(s, s.len() - 1);
        let et = exact_total(t);
        let ew = exact_weighted(t);
        assert(lo <= c <= hi);
        assert(w >= 0);
        assert(lo * (et + w) <= ew + c * w <= hi * (et + w)) by (nonlinear_arith)
            requires lo * et <= ew <= hi * et, lo <= c <= hi, w >= 0;
    }
}

/// The time-weighted average lies between the lowest and the highest close of the
/// buckets it averages, when its sums do not saturate: every close `c` with
/// `lo <= c <= hi` gives `lo <= weighted sum / total weight <= hi`.
pub proof fn lemma_twap_between_closes(s: Seq<PriceBucket>, lo: u64, hi: u64)
    requires
        forall|i: int| 0 <= i < s.len() ==> lo <= #[trigger] s[i].close <= hi,
        exact_weighted(s) <= u128::MAX,
        exact_total(s) <= u64::MAX,
        twap_acc(s).total_weight > 0,
    ensures
        lo <= twap_acc(s).weighted_sum / (twap_acc(s).total_weight as u128) <= hi,
{
    lemma_twap_acc_exact(s);
    lemma_exact_bounds(s, lo as int, hi as int);
    let ws = exact_weighted(s);
    let tw = exact_total(s);
    assert(lo <= ws / tw <= hi) by (nonlinear_arith)
        requires lo * tw <= ws <= hi * tw, tw > 0, lo >= 0;
}

/// The one-minute history of `asset` over the `period` seconds up to `now`.
pub open spec fn recent_window(v: HistoryView, asset: Seq<char>, period: u64, now: u64) -> Seq<PriceBucket> {
    page(history_in_range(v, asset, TimeBucket::OneMinute, sat_sub(now, period), now), 0, usize::MAX as int)
}

/// Result of the TWAP computation at time `now`.
pub open spec fn twap_outcome(v: HistoryView, asset: Seq<char>, period: u64, now: u64, r: Result<TwapResult, PriceHistoryError>) -> bool {
    let w = recent_window(v, asset, period, now);
    let acc = twap_acc(w);
    if period == 0 || period > MAX_HISTORY_RETENTION {
        r == Err::<TwapResult, PriceHistoryError>(PriceHistoryError::InvalidPeriod)
    } else if w.len() == 0 || acc.total_weight == 0 {
        r == Err::<TwapResult, PriceHistoryError>(PriceHistoryError::InsufficientData)
    } else {
        r matches Ok(t) && t.asset_id@ == asset && t.twap_price == (acc.weighted_sum / acc.total_weight as u128) as u64
            && t.decimals == 6 && t.period == period && t.data_points == acc.data_points && t.calculated_at == now
    }
}

/// A time-weighted average price served by the history lies between the lowest and
/// the highest close of the window it averages, when its sums do not saturate.
pub proof fn lemma_twap_result_between_closes(
    v: HistoryView,
    asset: Seq<char>,
    period: u64,
    now: u64,
    r: Result<TwapResult, PriceHistoryError>,
    lo: u64,
    hi: u64,
)
    requires
        twap_outcome(v, asset, period, now, r),
        r is Ok,
        forall|i: int|
            0 <= i < recent_window(v, asset, period, now).len() ==> lo <= #[trigger] recent_window(
                v,
                asset,
                period,
                now,
            )[i].close <= hi,
        exact_weighted(recent_window(v, asset, period, now)) <= u128::MAX,
        exact_total(recent_window(v, asset, period, now)) <= u64::MAX,
    ensures
        lo <= r->Ok_0.twap_price <= hi,
{
    let w = recent_window(v, asset, period, now);
    lemma_twap_between_closes(w, lo, hi);
}

/// Result of the simple moving average at time `now`.
pub open spec fn sma_outcome(v: HistoryView, asset: Seq<char>, period: u64, now: u64) -> Result<u64, PriceHistoryError> {
    let w = recent_window(v, asset, period, now);
    if w.len() == 0 {
        Err(PriceHistoryError::InsufficientData)
    } else {
        Ok(mean_close(w) as u64)
    }
}

/// Sum of squared deviations of the closes from `mean`, saturating at `u128::MAX`.
pub open spec fn sq_dev_sum(s: Seq<PriceBucket>, mean: int) -> u128
    decreases s.len(),
{
    if s.len() == 0 {
        0
    } else {
        let d = if s.last().close > mean { s.last().close - mean } else { mean - s.last().close };
        sat_add128(sq_dev_sum(s.drop_last(), mean) as int, d * d)
    }
}

/// Volatility in basis points of the mean: the standard deviation of the closes
/// (the floor square root of the variance) times 10 000 over the mean.
pub open spec fn volatility_of(w: Seq<PriceBucket>) -> u32 {
    let n = w.len() as int;
    let mean = sum_close(w) / n;
    let variance = sq_dev_sum(w, mean) as int / n;
    let sd = sqrt_floor(variance);
    if mean > 0 { (sd * 10_000 / mean) as u32 } else { 0 }
}

/// Values in the top four of the `u128` range share their floor square root.
proof fn lemma_sqrt_top(v: int)
    ensures
        u128::MAX - 3 <= v <= u128::MAX ==> sqrt_floor(v) == sqrt_floor(u128::MAX - 3),
{
    let r: int = u64::MAX as int;
    assert(r * r <= u128::MAX - 3 && u128::MAX < (r + 1) * (r + 1)) by (nonlinear_arith)
        requires r == 0xffff_ffff_ffff_ffffint;
    if u128::MAX - 3 <= v <= u128::MAX {
        assert(is_isqrt(v, r));
        assert(is_isqrt(u128::MAX - 3, r));
        assert(is_isqrt(v, sqrt_floor(v)));
        lemma_isqrt_unique(v, r, sqrt_floor(v));
        assert(is_isqrt(u128::MAX - 3, sqrt_floor(u128::MAX - 3)));
        lemma_isqrt_unique(u128::MAX - 3, r, sqrt_floor(u128::MAX - 3));
    }
}

/// Result of the volatility computation at time `now`.
pub open spec fn volatility_outcome(v: HistoryView, asset: Seq<char>, period: u64, now: u64) -> Result<u32, PriceHistoryError> {
    let w = recent_window(v, asset, period, now);
    if w.len() == 0 {
        Err(PriceHistoryError::InsufficientData)
    } else {
        Ok(volatility_of(w))
    }
}

/// The trend that comparing the 1h and 24h averages indicates.
pub open spec fn trend_of(sma_1h: u64, sma_24h: u64) -> PriceTrend {
    if sma_1h > sma_24h {
        PriceTrend::Up
    } else if sma_1h < sma_24h {
        PriceTrend::Down
    } else {
        PriceTrend::Sideways
    }
}

/// Result of computing fresh analytics at time `now`.
pub open spec fn analytics_outcome(v: HistoryView, asset: Seq<char>, now: u64, r: Result<AnalyticsData, PriceHistoryError>) -> bool {
    let s1 = sma_outcome(v, asset, 3600, now);
    let s6 = sma_outcome(v, asset, 21600, now);
    let s24 = sma_outcome(v, asset, 86400, now);
    let s7 = sma_outcome(v, asset, 604800, now);
    let vol = volatility_outcome(v, asset, 86400, now);
    if s1 is Err || s6 is Err || s24 is Err || s7 is Err || vol is Err {
        r == Err::<AnalyticsData, PriceHistoryError>(PriceHistoryError::InsufficientData)
    } else {
        r matches Ok(a) && a.asset_id@ == asset && a.sma_1h == s1->Ok_0 && a.sma_6h == s6->Ok_0 && a.sma_24h == s24->Ok_0
            && a.sma_7d == s7->Ok_0 && a.ema_1h == s1->Ok_0 && a.ema_6h == s6->Ok_0 && a.ema_24h == s24->Ok_0
            && a.volatility_24h == vol->Ok_0 && a.trend == trend_of(s1->Ok_0, s24->Ok_0) && a.last_update == now
    }
}

/// Law: fresh analytics report the trend of their averages — up exactly when the
/// one-hour average is above the 24-hour one, down exactly when it is below, and
/// sideways when they are equal.
pub proof fn lemma_analytics_trend(v: HistoryView, asset: Seq<char>, now: u64, r: Result<AnalyticsData, PriceHistoryError>)
    requires
        analytics_outcome(v, asset, now, r),
        r is Ok,
    ensures
        trend_consistent(r->Ok_0),
        r->Ok_0.sma_1h > r->Ok_0.sma_24h ==> r->Ok_0.trend == PriceTrend::Up,
        r->Ok_0.sma_1h < r->Ok_0.sma_24h ==> r->Ok_0.trend == PriceTrend::Down,
{
}

/// Law: served analytics — cached or fresh — report the trend of their averages,
/// provided every cached record does.
pub proof fn lemma_served_trend(
    v: HistoryView,
    v1: HistoryView,
    asset: Seq<char>,
    now: u64,
    r: Result<AnalyticsData, PriceHistoryError>,
)
    requires
        cache_consistent(v),
        analytics_served(v, v1, asset, now, r),
        r is Ok,
    ensures
        trend_consistent(r->Ok_0),
        cache_consistent(v1),
{
    let fresh = v.analytics.dom().contains(asset) && now >= v.analytics[asset].last_update && now
        - v.analytics[asset].last_update < 300;
    if !fresh {
        lemma_analytics_trend(v, asset, now, r);
        assert forall|a: Seq<char>| #[trigger] v1.analytics.dom().contains(a) implies trend_consistent(v1.analytics[a]) by {
            if a != asset {
                assert(v.analytics.dom().contains(a));
            }
        }
    }
}

/// Serving analytics of `asset` at `now`: a cached result less than five minutes old
/// is returned as is; otherwise fresh analytics are computed and, on success, cached.
pub open spec fn analytics_served(
    v: HistoryView,
    v1: HistoryView,
    asset: Seq<char>,
    now: u64,
    r: Result<AnalyticsData, PriceHistoryError>,
) -> bool {
    let fresh = v.analytics.dom().contains(asset) && now >= v.analytics[asset].last_update && now
        - v.analytics[asset].last_update < 300;
    &&& fresh ==> r == Ok::<AnalyticsData, PriceHistoryError>(v.analytics[asset]) && v1 == v
    &&& !fresh ==> analytics_outcome(v, asset, now, r)
    &&& !fresh && r is Err ==> v1 == v
    &&& !fresh && r is Ok ==> v1 == (HistoryView { analytics: v.analytics.insert(asset, r->Ok_0), ..v })
}

impl PriceHistoryManager {
    /// The one-minute history of `asset` over the `period` seconds up to `now`.
    fn recent_window_at(&self, asset_id: &str, period: u64, now: u64) -> (r: Vec<PriceBucket>)
        requires
            self.wf(),
        ensures
            r@ == recent_window(self@, asset_id@, period, now),
    {
        let start = now.saturating_sub(period);
        match self.get_price_history(asset_id, TimeBucket::OneMinute, start, now, None, None) {
            Ok(v) => v,
            Err(_) => Vec::new(),
        }
    }

    /// Time-weighted average price of `asset` over the `period` seconds up to `now`.
    ///
    /// Each closing price is weighted by the gap until the next bucket starts.
    pub fn calculate_twap_at(&self, asset_id: &str, period: u64, now: u64) -> (r: Result<TwapResult, PriceHistoryError>)
        requires
            self.wf(),
        ensures
            twap_outcome(self@, asset_id@, period, now, r),
    {
        if period == 0 || period > MAX_HISTORY_RETENTION {
            return Err(PriceHistoryError::InvalidPeriod);
        }
        let buckets = self.recent_window_at(asset_id, period, now);
        if buckets.len() == 0 {
            return Err(PriceHistoryError::InsufficientData);
        }
        let mut weighted_sum: u128 = 0;
        let mut total_weight: u64 = 0;
        let mut data_points: u32 = 0;
        let mut last_timestamp: u64 = 0;
        let mut last_price: u64 = 0;
        let mut i: usize = 0;
        while i < buckets.len()
            invariant
                i <= buckets@.len(),
                twap_acc(buckets@.take(i as int)) == (TwapAcc { weighted_sum, total_weight, data_points, last_timestamp, last_price }),
            decreases buckets@.len() - i,
        {
            let b = buckets[i];
            proof {
                assert(buckets@.take(i + 1).drop_last() =~= buckets@.take(i as int));
            }
            if last_timestamp > 0 {
                let w = b.first_timestamp.saturating_sub(last_timestamp);
                proof {
                    assert((last_price as int) * (w as int) <= u128::MAX) by (nonlinear_arith)
                        requires last_price <= u64::MAX, w <= u64::MAX;
                }
                let prod: u128 = (last_price as u128) * (w as u128);
                weighted_sum = weighted_sum.saturating_add(prod);
                total_weight = total_weight.saturating_add(w);
            }
            data_points = data_points.saturating_add(b.entry_count);
            last_timestamp = b.last_timestamp;
            last_price = b.close;
            i = i + 1;
        }
        proof {
            assert(buckets@.take(buckets@.len() as int) =~= buckets@);
        }
        if total_weight == 0 {
            return Err(PriceHistoryError::InsufficientData);
        }
        let q: u128 = weighted_sum / (total_weight as u128);
        #[verifier::truncate]
        let twap_price: u64 = q as u64;
        Ok(TwapResult {
            asset_id: String::from_str(asset_id),
            twap_price,
            decimals: 6,
            period,
            data_points,
            calculated_at: now,
        })
    }

    /// Simple moving average of the closing prices over the `period` seconds up to `now`.
    pub fn calculate_sma_at(&self, asset_id: &str, period: u64, now: u64) -> (r: Result<u64, PriceHistoryError>)
        requires
            self.wf(),
        ensures
            r == sma_outcome(self@, asset_id@, period, now),
    {
        let buckets = self.recent_window_at(asset_id, period, now);
        if buckets.len() == 0 {
            return Err(PriceHistoryError::InsufficientData);
        }
        Ok(mean_closes(&buckets))
    }

    /// Volatility over the `period` seconds up to `now`, in basis points of the mean.
    pub fn calculate_volatility_at(&self, asset_id: &str, period: u64, now: u64) -> (r: Result<u32, PriceHistoryError>)
        requires
            self.wf(),
        ensures
            r == volatility_outcome(self@, asset_id@, period, now),
    {
        let buckets = self.recent_window_at(asset_id, period, now);
        let count = buckets.len();
        if count == 0 {
            return Err(PriceHistoryError::InsufficientData);
        }
        let sum = sum_closes(&buckets);
        let mean: u128 = sum / (count as u128);
        proof {
            lemma_sum_close_bound(buckets@);
        }
        let mut variance_sum: u128 = 0;
        let mut i: usize = 0;
        while i < count
            invariant
                count == buckets@.len(),
                i <= count,
                mean <= u64::MAX,
                variance_sum == sq_dev_sum(buckets@.take(i as int), mean as int),
            decreases count - i,
        {
            let c = buckets[i].close as u128;
            proof {
                assert(buckets@.take(i + 1).drop_last() =~= buckets@.take(i as int));
            }
            let diff: u128 = if c > mean { c - mean } else { mean - c };
            proof {
                assert((diff as int) * (diff as int) <= u128::MAX) by (nonlinear_arith)
                    requires diff <= u64::MAX;
            }
            variance_sum = variance_sum.saturating_add(diff * diff);
            i = i + 1;
        }
        proof {
            assert(buckets@.take(count as int) =~= buckets@);
        }
        let variance: u128 = variance_sum / (count as u128);
        let std_dev: u128 = if variance <= u128::MAX - 3 {
            isqrt_u128(variance)
        } else {
            isqrt_u128(u128::MAX - 3)
        };
        proof {
            lemma_sqrt_top(variance as int);
            lemma_sqrt_top(u128::MAX - 3);
            assert(std_dev == sqrt_floor(variance as int));
            assert(std_dev <= u64::MAX) by (nonlinear_arith)
                requires std_dev * std_dev <= u128::MAX;
        }
        let volatility_bps: u32 = if mean > 0 {
            let q = std_dev * 10_000 / mean;
            #[verifier::truncate]
            let r: u32 = q as u32;
            r
        } else {
            0
        };
        Ok(volatility_bps)
    }

    /// Moving averages, 24h volatility and trend of `asset` at time `now`.
    fn calculate_analytics_at(&self, asset_id: &str, now: u64) -> (r: Result<AnalyticsData, PriceHistoryError>)
        requires
            self.wf(),
        ensures
            analytics_outcome(self@, asset_id@, now, r),
            r matches Ok(a) ==> trend_consistent(a),
    {
        let sma_1h = match self.calculate_sma_at(asset_id, 3600, now) {
            Ok(x) => x,
            Err(e) => return Err(e),
        };
        let sma_6h = match self.calculate_sma_at(asset_id, 21600, now) {
            Ok(x) => x,
            Err(e) => return Err(e),
        };
        let sma_24h = match self.calculate_sma_at(asset_id, 86400, now) {
            Ok(x) => x,
            Err(e) => return Err(e),
        };
        let sma_7d = match self.calculate_sma_at(asset_id, 604800, now) {
            Ok(x) => x,
            Err(e) => return Err(e),
        };
        let volatility_24h = match self.calculate_volatility_at(asset_id, 86400, now) {
            Ok(x) => x,
            Err(e) => return Err(e),
        };
        let trend = if sma_1h > sma_24h {
            PriceTrend::Up
        } else if sma_1h < sma_24h {
            PriceTrend::Down
        } else {
            PriceTrend::Sideways
        };
        Ok(AnalyticsData {
            asset_id: String::from_str(asset_id),
            sma_1h,
            sma_6h,
            sma_24h,
            sma_7d,
            ema_1h: sma_1h,
            ema_6h: sma_6h,
            ema_24h: sma_24h,
            volatility_24h,
            trend,
            last_update: now,
        })
    }

    /// Analytics of `asset` at time `now`: a cached result less than five minutes old
    /// is returned as is; otherwise fresh analytics are computed and cached.
    pub fn get_analytics_at(&mut self, asset_id: &str, now: u64) -> (r: Result<AnalyticsData, PriceHistoryError>)
        requires
            old(self).wf(),
        ensures
            final(self).wf(),
            analytics_served(old(self)@, final(self)@, asset_id@, now, r),
            r matches Ok(a) ==> trend_consistent(a),
    {
        proof {
            assert(cache_consistent(self@));
        }
        match find_key(&self.analytics_cache, asset_id) {
            Some(i) => {
                let last = self.analytics_cache[i].1.last_update;
                if now >= last && now - last < 300 {
                    return Ok(self.analytics_cache[i].1.clone());
                }
            },
            None => {},
        }
        let analytics = match self.calculate_analytics_at(asset_id, now) {
            Ok(a) => a,
            Err(e) => return Err(e),
        };
        self.cache_analytics(asset_id, analytics.clone());
        Ok(analytics)
    }
}

} // verus!
