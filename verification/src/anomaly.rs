//! Statistical anomaly detection on a window of prices: z-score, interquartile
//! fence and moving-average crossover, in integer arithmetic.

use vstd::prelude::*;
use vstd::relations::{sorted_by, total_ordering};
use crate::numeric::{abs_deviation_bps, deviation_bps_spec, isqrt_u128, sqrt_floor};
use crate::oracle::tdiv;

verus! {

/// Which detection method flagged a price as anomalous.
#[derive(Clone, Copy, Debug, PartialEq, Eq, Structural)]
pub enum AnomalyMethod {
    /// Price is more than the threshold number of standard deviations from the mean.
    ZScore,
    /// Price is outside the interquartile fence.
    Iqr,
    /// The short moving average diverges from the long one and the price extends it.
    MovingAverageCrossover,
}

/// Confidence of an anomaly verdict.
#[derive(Clone, Copy, Debug, PartialEq, Eq, Structural)]
pub enum AnomalyConfidence {
    /// Exactly one method flagged the price.
    Low,
    /// Two or more methods flagged the price.
    High,
}

/// The verdict of the detector on one price.
#[derive(Debug)]
pub struct AnomalyResult {
    /// Asset the price belongs to.
    pub asset_id: String,
    /// The price that was tested.
    pub price: u64,
    /// Timestamp of that price.
    pub timestamp: u64,
    /// Whether the price is considered anomalous.
    pub is_anomaly: bool,
    /// Methods that flagged it, in detection order.
    pub methods: Vec<AnomalyMethod>,
    /// Confidence when anomalous.
    pub confidence: Option<AnomalyConfidence>,
    /// Z-score times 100 (315 means 3.15 standard deviations).
    pub z_score_x100: i64,
}

/// Thresholds of the anomaly detector.
#[derive(Clone, Copy, Debug, PartialEq, Eq, Structural)]
pub struct AnomalyConfig {
    /// Z-score threshold times 100.
    pub z_score_threshold_x100: i64,
    /// Interquartile-range multiplier times 100.
    pub iqr_multiplier_x100: u64,
    /// Minimum window size for the statistical methods.
    pub min_window: usize,
    /// Short moving-average period (seconds).
    pub ma_short_period: u64,
    /// Long moving-average period (seconds).
    pub ma_long_period: u64,
    /// Moving-average divergence threshold in basis points.
    pub ma_crossover_threshold_bps: u32,
}

/// The default thresholds: 3 standard deviations, 1.5 interquartile ranges, a
/// window of at least 10 prices, 1h / 24h averages and a 2% divergence.
pub open spec fn default_anomaly_config() -> AnomalyConfig {
    AnomalyConfig {
        z_score_threshold_x100: 300,
        iqr_multiplier_x100: 150,
        min_window: 10,
        ma_short_period: 3_600,
        ma_long_period: 86_400,
        ma_crossover_threshold_bps: 200,
    }
}

impl Default for AnomalyConfig {
    fn default() -> (r: Self)
        ensures
            r == default_anomaly_config(),
    {
        AnomalyConfig {
            z_score_threshold_x100: 300,
            iqr_multiplier_x100: 150,
            min_window: 10,
            ma_short_period: 3_600,
            ma_long_period: 86_400,
            ma_crossover_threshold_bps: 200,
        }
    }
}

/// Sum of a sequence of prices.
pub open spec fn price_sum(s: Seq<u64>) -> int
    decreases s.len(),
{
    if s.len() == 0 {
        0
    } else {
        price_sum(s.drop_last()) + s.last()
    }
}

/// Mean of a sequence of prices, rounded down (0 when empty).
pub open spec fn price_mean(s: Seq<u64>) -> int {
    if s.len() == 0 {
        0
    } else {
        price_sum(s) / (s.len() as int)
    }
}

/// Sum of the squared deviations from `m`, saturating at `u128::MAX`.
pub open spec fn sq_dev_total(s: Seq<u64>, m: int) -> u128
    decreases s.len(),
{
    if s.len() == 0 {
        0
    } else {
        let d = s.last() - m;
        let t = sq_dev_total(s.drop_last(), m) + d * d;
        if t > u128::MAX { u128::MAX } else { t as u128 }
    }
}

/// `x` clamped to the symmetric `i64` range.
pub open spec fn clamp_i64(x: int) -> i64 {
    if x > i64::MAX {
        i64::MAX
    } else if x < -i64::MAX {
        (-i64::MAX) as i64
    } else {
        x as i64
    }
}

/// The z-score of `c` against the window, times 100: its distance from the window
/// mean over the integer standard deviation.  With no spread at all the score is
/// `±i64::MAX / 100` (0 when `c` equals the mean).
pub open spec fn z_score_spec(c: u64, w: Seq<u64>) -> i64 {
    if w.len() == 0 {
        0
    } else {
        let m = price_mean(w);
        let variance = sq_dev_total(w, m) / (w.len() as u128);
        if variance == 0 {
            if c > m {
                92233720368547758
            } else if c < m {
                -92233720368547758i64
            } else {
                0
            }
        } else {
            clamp_i64(tdiv((c - m) * 100, sqrt_floor(variance as int)))
        }
    }
}

/// The ascending order on prices.
pub open spec fn price_leq() -> spec_fn(u64, u64) -> bool {
    |a: u64, b: u64| a <= b
}

/// Whether `c` lies outside the interquartile fence of the window (windows of fewer
/// than four prices flag nothing).
pub open spec fn iqr_spec(c: u64, w: Seq<u64>, multiplier_x100: u64) -> bool {
    let t = w.sort_by(price_leq());
    let n = t.len();
    if n < 4 {
        false
    } else {
        let q1 = t[(n / 4) as int];
        let q3 = t[((3 * n) / 4) as int];
        let fence = (q3 - q1) * multiplier_x100 / 100;
        let lower = if q1 >= fence { q1 - fence } else { 0 };
        c < lower || c > q3 + fence
    }
}

/// The lower interquartile fence of a window of at least four prices: its first
/// quartile (the sorted price at position n/4) less `k/100` times the spread
/// between the quartiles, floored at 0.
pub open spec fn lower_fence(w: Seq<u64>, k: u64) -> int {
    let t = w.sort_by(price_leq());
    let q1 = t[(t.len() / 4) as int] as int;
    let q3 = t[((3 * t.len()) / 4) as int] as int;
    let spread = (q3 - q1) * k / 100;
    if q1 >= spread { q1 - spread } else { 0 }
}

/// The upper interquartile fence of a window of at least four prices: its third
/// quartile (the sorted price at position 3n/4) plus `k/100` times the spread
/// between the quartiles.
pub open spec fn upper_fence(w: Seq<u64>, k: u64) -> int {
    let t = w.sort_by(price_leq());
    let q1 = t[(t.len() / 4) as int] as int;
    let q3 = t[((3 * t.len()) / 4) as int] as int;
    q3 + (q3 - q1) * k / 100
}

/// Law: on a window of at least four prices the interquartile check flags exactly
/// the prices outside the fences — below the lower one as well as above the
/// upper one — and nothing between them.
pub proof fn lemma_iqr_fences(c: u64, w: Seq<u64>, k: u64)
    requires
        w.len() >= 4,
    ensures
        (c as int) < lower_fence(w, k) ==> iqr_spec(c, w, k),
        (c as int) > upper_fence(w, k) ==> iqr_spec(c, w, k),
        lower_fence(w, k) <= c <= upper_fence(w, k) ==> !iqr_spec(c, w, k),
{
    lemma_sorted_len(w);
}

/// Law: detection on a full window of at least four prices lists the interquartile
/// method exactly when the price lies outside the fences, below or above; a price
/// so flagged is anomalous.
pub proof fn lemma_detect_iqr(r: AnomalyResult, cfg: AnomalyConfig, asset: Seq<char>, c: u64, ts: u64, w: Seq<u64>)
    requires
        detected(r, cfg, asset, c, ts, w),
        w.len() >= cfg.min_window,
        w.len() >= 4,
    ensures
        r.methods@.contains(AnomalyMethod::Iqr) <==> ((c as int) < lower_fence(w, cfg.iqr_multiplier_x100) || (c as int)
            > upper_fence(w, cfg.iqr_multiplier_x100)),
        (c as int) < lower_fence(w, cfg.iqr_multiplier_x100) ==> r.is_anomaly,
{
    lemma_iqr_fences(c, w, cfg.iqr_multiplier_x100);
    let z = z_score_spec(c, w);
    let abs_z = if z < 0 { -z } else { z as int };
    let zf = abs_z >= cfg.z_score_threshold_x100;
    let iq = iqr_spec(c, w, cfg.iqr_multiplier_x100);
    let ma = ma_crossover_spec(c, w, cfg.ma_crossover_threshold_bps);
    let a = if zf { seq![AnomalyMethod::ZScore] } else { Seq::<AnomalyMethod>::empty() };
    let b = if iq { seq![AnomalyMethod::Iqr] } else { Seq::<AnomalyMethod>::empty() };
    let d = if ma { seq![AnomalyMethod::MovingAverageCrossover] } else { Seq::<AnomalyMethod>::empty() };
    let m = flagged_methods(zf, iq, ma);
    assert(m == a + b + d);
    if iq {
        assert((a + b + d)[a.len() as int] == AnomalyMethod::Iqr);
        assert(m.contains(AnomalyMethod::Iqr));
    } else {
        assert forall|i: int| 0 <= i < m.len() implies m[i] != AnomalyMethod::Iqr by {
            if i < a.len() {
                assert(m[i] == a[i]);
            } else {
                assert(m[i] == d[i - a.len()]);
            }
        }
    }
}

/// Whether the mean of the last quarter of the window diverges from the window mean
/// by at least the threshold and `c` diverges from the window mean further still.
pub open spec fn ma_crossover_spec(c: u64, w: Seq<u64>, threshold_bps: u32) -> bool {
    let n = w.len();
    let long_mean = price_mean(w);
    if n == 0 || long_mean == 0 {
        false
    } else {
        let short_len = if n / 4 > 1 { n / 4 } else { 1 };
        let short_mean = price_mean(w.subrange(n - short_len, n as int));
        let dev = deviation_bps_spec(short_mean, long_mean) as u32;
        dev >= threshold_bps && (deviation_bps_spec(c as int, long_mean) as u32) > dev
    }
}

/// The methods that flag a price, in detection order.
pub open spec fn flagged_methods(z: bool, iqr: bool, ma: bool) -> Seq<AnomalyMethod> {
    (if z { seq![AnomalyMethod::ZScore] } else { Seq::empty() }) + (if iqr {
        seq![AnomalyMethod::Iqr]
    } else {
        Seq::empty()
    }) + (if ma { seq![AnomalyMethod::MovingAverageCrossover] } else { Seq::empty() })
}

/// `r` is the verdict on price `c` of `asset` at `ts` against the window `w`: the
/// methods only run on windows of at least `min_window` prices.
pub open spec fn detected(
    r: AnomalyResult,
    cfg: AnomalyConfig,
    asset: Seq<char>,
    c: u64,
    ts: u64,
    w: Seq<u64>,
) -> bool {
    let full = w.len() >= cfg.min_window;
    let z = if full { z_score_spec(c, w) } else { 0 };
    let abs_z = if z < 0 { -z } else { z as int };
    let methods = flagged_methods(
        full && abs_z >= cfg.z_score_threshold_x100,
        full && iqr_spec(c, w, cfg.iqr_multiplier_x100),
        full && ma_crossover_spec(c, w, cfg.ma_crossover_threshold_bps),
    );
    &&& r.asset_id@ == asset
    &&& r.price == c
    &&& r.timestamp == ts
    &&& r.methods@ == methods
    &&& r.is_anomaly == (methods.len() > 0)
    &&& r.confidence == if methods.len() >= 2 {
        Some(AnomalyConfidence::High)
    } else if methods.len() == 1 {
        Some(AnomalyConfidence::Low)
    } else {
        None
    }
    &&& r.z_score_x100 == z
}

proof fn lemma_price_sum_bound(s: Seq<u64>)
    ensures
        0 <= price_sum(s) <= s.len() * (u64::MAX as int),
        s.len() > 0 ==> price_mean(s) <= u64::MAX,
    decreases s.len(),
{
    if s.len() > 0 {
        lemma_price_sum_bound(s.drop_last());
        assert(price_sum(s) <= s.len() * (u64::MAX as int)) by (nonlinear_arith)
            requires
                price_sum(s) == price_sum(s.drop_last()) + s.last(),
                price_sum(s.drop_last()) <= (s.len() - 1) * (u64::MAX as int),
                s.last() <= u64::MAX;
        assert(price_sum(s) / (s.len() as int) <= u64::MAX) by (nonlinear_arith)
            requires price_sum(s) <= s.len() * (u64::MAX as int), s.len() > 0, price_sum(s) >= 0;
    }
}

/// Sum of the prices, in 128 bits.
fn sum_prices(s: &[u64]) -> (r: u128)
    ensures
        r == price_sum(s@),
{
    let mut sum: u128 = 0;
    let mut i: usize = 0;
    while i < s.len()
        invariant
            i <= s@.len(),
            sum == price_sum(s@.take(i as int)),
        decreases s@.len() - i,
    {
        proof {
            assert(s@.take(i + 1).drop_last() =~= s@.take(i as int));
            lemma_price_sum_bound(s@.take(i + 1));
            assert((i + 1) * (u64::MAX as int) <= u128::MAX) by (nonlinear_arith)
                requires i + 1 <= usize::MAX;
        }
        sum = sum + s[i] as u128;
        i = i + 1;
    }
    proof {
        assert(s@.take(s@.len() as int) =~= s@);
    }
    sum
}

/// Mean of the prices, rounded down (0 when empty).
pub(crate) fn mean_of(slice: &[u64]) -> (r: u64)
    ensures
        r == price_mean(slice@),
{
    if slice.len() == 0 {
        return 0;
    }
    let sum = sum_prices(slice);
    proof {
        lemma_price_sum_bound(slice@);
    }
    (sum / (slice.len() as u128)) as u64
}

/// The prices in ascending order.
pub(crate) fn sorted_prices(w: &[u64]) -> (r: Vec<u64>)
    ensures
        r@ == w@.sort_by(price_leq()),
{
    let mut t: Vec<u64> = Vec::new();
    proof {
        assert(t@ =~= w@.take(0));
    }
    let mut i: usize = 0;
    while i < w.len()
        invariant
            i <= w@.len(),
            sorted_by(t@, price_leq()),
            t@.to_multiset() == w@.take(i as int).to_multiset(),
        decreases w@.len() - i,
    {
        let x = w[i];
        let mut p: usize = 0;
        while p < t.len() && t[p] <= x
            invariant
                p <= t@.len(),
                forall|k: int| 0 <= k < p ==> t@[k] <= x,
            decreases t@.len() - p,
        {
            p = p + 1;
        }
        let ghost t0 = t@;
        proof {
            assert forall|k: int| p <= k < t0.len() implies t0[k] > x by {
                if k > p {
                    assert(price_leq()(t0[p as int], t0[k]));
                }
            }
        }
        t.insert(p, x);
        proof {
            assert(t@ =~= t0.insert(p as int, x));
            assert forall|a: int, b: int| 0 <= a < b < t@.len() implies #[trigger] price_leq()(t@[a], t@[b]) by {
                if b < p {
                    assert(price_leq()(t0[a], t0[b]));
                } else if a < p && b == p {
                } else if a < p {
                    assert(t@[b] == t0[b - 1]);
                } else if a == p {
                    assert(t@[b] == t0[b - 1]);
                } else {
                    assert(t@[a] == t0[a - 1]);
                    assert(t@[b] == t0[b - 1]);
                    assert(price_leq()(t0[a - 1], t0[b - 1]));
                }
            }
            vstd::seq_lib::to_multiset_insert(t0, p as int, x);
            assert(w@.take(i + 1) =~= w@.take(i as int).push(x));
            vstd::seq_lib::to_multiset_build(w@.take(i as int), x);
        }
        i = i + 1;
    }
    proof {
        assert(w@.take(w@.len() as int) =~= w@);
        w@.lemma_sort_by_ensures(price_leq());
        assert(total_ordering(price_leq()));
        vstd::seq_lib::lemma_sorted_unique(t@, w@.sort_by(price_leq()), price_leq());
    }
    t
}

/// Stateless anomaly detector: it judges a candidate price against a window.
pub struct AnomalyDetector {
    config: AnomalyConfig,
}

impl AnomalyDetector {
    /// The detector's thresholds.
    pub closed spec fn spec_config(&self) -> AnomalyConfig {
        self.config
    }

    /// A detector with the default thresholds.
    pub fn new() -> (r: Self)
        ensures
            r.spec_config() == default_anomaly_config(),
    {
        AnomalyDetector { config: AnomalyConfig::default() }
    }

    /// A detector with custom thresholds.
    pub fn with_config(config: AnomalyConfig) -> (r: Self)
        ensures
            r.spec_config() == config,
    {
        AnomalyDetector { config }
    }

    /// The detector's thresholds.
    pub fn config(&self) -> (r: &AnomalyConfig)
        ensures
            *r == self.spec_config(),
    {
        &self.config
    }

    /// Judge `candidate` (priced at `timestamp`) against `window`, oldest first.  The
    /// candidate is not part of the window.
    pub fn detect(&self, asset_id: &str, candidate: u64, timestamp: u64, window: &[u64]) -> (r: AnomalyResult)
        ensures
            detected(r, self.spec_config(), asset_id@, candidate, timestamp, window@),
    {
        let mut flagged_by: Vec<AnomalyMethod> = Vec::new();
        let full = window.len() >= self.config.min_window;
        let z_score_x100: i64 = if full {
            let z = self.z_score_x100(candidate, window);
            let abs_z: i64 = if z < 0 { -z } else { z };
            if abs_z >= self.config.z_score_threshold_x100 {
                flagged_by.push(AnomalyMethod::ZScore);
            }
            z
        } else {
            0
        };
        let ghost m1 = flagged_by@;
        if full {
            if self.iqr_flagged(candidate, window) {
                flagged_by.push(AnomalyMethod::Iqr);
            }
        }
        let ghost m2 = flagged_by@;
        if full {
            if self.ma_crossover_flagged(candidate, window) {
                flagged_by.push(AnomalyMethod::MovingAverageCrossover);
            }
        }
        proof {
            let z = if full { z_score_spec(candidate, window@) } else { 0 };
            let abs_z = if z < 0 { -z } else { z as int };
            assert(flagged_by@ =~= flagged_methods(
                full && abs_z >= self.config.z_score_threshold_x100,
                full && iqr_spec(candidate, window@, self.config.iqr_multiplier_x100),
                full && ma_crossover_spec(candidate, window@, self.config.ma_crossover_threshold_bps),
            ));
        }
        let n = flagged_by.len();
        let is_anomaly = n > 0;
        let confidence = if n >= 2 {
            Some(AnomalyConfidence::High)
        } else if is_anomaly {
            Some(AnomalyConfidence::Low)
        } else {
            None
        };
        AnomalyResult {
            asset_id: String::from_str(asset_id),
            price: candidate,
            timestamp,
            is_anomaly,
            methods: flagged_by,
            confidence,
            z_score_x100,
        }
    }

    /// Z-score of `candidate` against `window`, times 100.
    pub fn z_score_x100(&self, candidate: u64, window: &[u64]) -> (r: i64)
        ensures
            r == z_score_spec(candidate, window@),
    {
        let n = window.len();
        if n == 0 {
            return 0;
        }
        let sum = sum_prices(window);
        proof {
            lemma_price_sum_bound(window@);
        }
        let mean: u128 = sum / (n as u128);
        let mut total: u128 = 0;
        let mut i: usize = 0;
        while i < n
            invariant
                n == window@.len(),
                i <= n,
                mean <= u64::MAX,
                total == sq_dev_total(window@.take(i as int), mean as int),
            decreases n - i,
        {
            let p = window[i] as u128;
            proof {
                assert(window@.take(i + 1).drop_last() =~= window@.take(i as int));
            }
            let d: u128 = if p >= mean { p - mean } else { mean - p };
            proof {
                assert((d as int) * (d as int) <= u128::MAX) by (nonlinear_arith)
                    requires d <= u64::MAX;
                assert((window@[i as int] - mean) * (window@[i as int] - mean) == (d as int) * (d as int)) by (nonlinear_arith)
                    requires d == if window@[i as int] >= mean { window@[i as int] - mean } else { mean - window@[i as int] };
            }
            total = total.saturating_add(d * d);
            i = i + 1;
        }
        proof {
            assert(window@.take(n as int) =~= window@);
        }
        let variance: u128 = total / (n as u128);
        let c = candidate as u128;
        if variance == 0 {
            return if c > mean {
                92233720368547758
            } else if c < mean {
                -92233720368547758
            } else {
                0
            };
        }
        proof {
            assert(variance <= u128::MAX - 3) by {
                if n >= 2 {
                    vstd::arithmetic::div_mod::lemma_div_is_ordered_by_denominator(total as int, 2, n as int);
                } else {
                    assert(window@.drop_last().len() == 0);
                    assert(price_sum(window@.drop_last()) == 0);
                    assert(window@.last() == window@[0]);
                    assert(price_sum(window@) == window@[0]);
                    assert(sq_dev_total(window@.drop_last(), mean as int) == 0);
                    assert(n == 1);
                    assert(sum == price_sum(window@));
                    assert(mean == sum / 1);
                    assert(mean == window@[0]);
                    assert(total == sq_dev_total(window@, mean as int));
                    assert((window@.last() - mean) * (window@.last() - mean) == 0) by (nonlinear_arith)
                        requires window@.last() == mean;
                    assert(total == 0);
                }
            }
        }
        let std_dev = isqrt_u128(variance);
        proof {
            assert(std_dev >= 1) by {
                if std_dev == 0 {
                    assert((std_dev + 1) * (std_dev + 1) == 1) by (nonlinear_arith)
                        requires std_dev == 0;
                }
            }
            assert(std_dev <= u64::MAX + 1) by {
                if std_dev > u64::MAX + 1 {
                    assert(std_dev * std_dev > u128::MAX) by (nonlinear_arith)
                        requires std_dev > u64::MAX + 1;
                }
            }
        }
        let diff: i128 = if c >= mean { ((c - mean) * 100) as i128 } else { -(((mean - c) * 100) as i128) };
        let q: i128 = diff / (std_dev as i128);
        proof {
            assert(q == tdiv((candidate - mean) * 100, std_dev as int));
        }
        if q > i64::MAX as i128 {
            i64::MAX
        } else if q < -(i64::MAX as i128) {
            -i64::MAX
        } else {
            q as i64
        }
    }

    /// Whether `candidate` lies outside the interquartile fence of `window`.
    pub fn iqr_flagged(&self, candidate: u64, window: &[u64]) -> (r: bool)
        ensures
            r == iqr_spec(candidate, window@, self.spec_config().iqr_multiplier_x100),
            window@.len() >= 4 ==> (r <==> ((candidate as int) < lower_fence(window@, self.spec_config().iqr_multiplier_x100)
                || (candidate as int) > upper_fence(window@, self.spec_config().iqr_multiplier_x100))),
            window@.len() < 4 ==> !r,
    {
        proof {
            lemma_sorted_len(window@);
        }
        let sorted = sorted_prices(window);
        proof {
            lemma_sorted_len(window@);
        }
        let n = sorted.len();
        if n < 4 {
            return false;
        }
        let q1 = sorted[n / 4];
        let q3 = sorted[((3 * (n as u128)) / 4) as usize];
        proof {
            w_sorted_leq(window@, (n / 4) as int, ((3 * n) / 4) as int);
        }
        let iqr = q3 - q1;
        assert((iqr as u128) * (self.config.iqr_multiplier_x100 as u128) <= u128::MAX) by (nonlinear_arith)
            requires iqr <= u64::MAX, self.config.iqr_multiplier_x100 <= u64::MAX;
        let fence: u128 = ((iqr as u128) * (self.config.iqr_multiplier_x100 as u128)) / 100;
        let lower = q1 as u128;
        let upper = q3 as u128 + fence;
        (candidate as u128) < lower.saturating_sub(fence) || (candidate as u128) > upper
    }

    /// Whether the short moving average diverges from the long one by at least the
    /// threshold and `candidate` extends the divergence.
    pub fn ma_crossover_flagged(&self, candidate: u64, window: &[u64]) -> (r: bool)
        ensures
            r == ma_crossover_spec(candidate, window@, self.spec_config().ma_crossover_threshold_bps),
    {
        if window.len() == 0 {
            return false;
        }
        let long_mean = mean_of(window);
        if long_mean == 0 {
            return false;
        }
        let n = window.len();
        let short_len = if n / 4 > 1 { n / 4 } else { 1 };
        let short_window = vstd::slice::slice_subrange(window, n - short_len, n);
        let short_mean = mean_of(short_window);
        let deviation_bps = abs_deviation_bps(short_mean, long_mean);
        if deviation_bps < self.config.ma_crossover_threshold_bps {
            return false;
        }
        let cand_deviation_bps = abs_deviation_bps(candidate, long_mean);
        cand_deviation_bps > deviation_bps
    }
}

pub(crate) proof fn lemma_sorted_len(w: Seq<u64>)
    ensures
        w.sort_by(price_leq()).len() == w.len(),
{
    w.lemma_sort_by_ensures(price_leq());
    vstd::seq_lib::to_multiset_len(w);
    vstd::seq_lib::to_multiset_len(w.sort_by(price_leq()));
}

proof fn w_sorted_leq(w: Seq<u64>, i: int, j: int)
    requires
        0 <= i <= j < w.len(),
    ensures
        w.sort_by(price_leq())[i] <= w.sort_by(price_leq())[j],
        w.sort_by(price_leq()).len() == w.len(),
{
    w.lemma_sort_by_ensures(price_leq());
    vstd::seq_lib::to_multiset_len(w);
    vstd::seq_lib::to_multiset_len(w.sort_by(price_leq()));
    if i < j {
        assert(price_leq()(w.sort_by(price_leq())[i], w.sort_by(price_leq())[j]));
    }
}

impl Default for AnomalyDetector {
    fn default() -> (r: Self)
        ensures
            r.spec_config() == default_anomaly_config(),
    {
        Self::new()
    }
}

} // verus!
