//! Simulated price oracle with sanity checks, and a mock oracle with a
//! virtual clock for scripted price scenarios.
//!
//! Only the admin may publish prices.  A published price must lie within the
//! configured range and, when a previous price exists, must not move further
//! than the circuit-breaker threshold.  Reads reject prices older than the
//! configured maximum age when a current time is supplied.

use vstd::prelude::*;
use crate::keyed::{distinct_keys, find_key, to_map, upsert};
use crate::text::{dec_int, dec_nat, i128_to_dec, u64_to_dec};
use crate::types::{default_sanity, OracleSanityConfig, ProtocolError};

verus! {

/// A timestamped price entry stored by the oracle.
#[derive(Debug, Clone, Copy, PartialEq, Eq)]
pub struct PriceEntry {
    /// The price value.
    pub price: i128,
    /// Unix timestamp (seconds) when this price was recorded.
    pub timestamp: u64,
}

/// Mathematical model of a [`PriceOracleSim`].
pub struct OracleView {
    pub admin: Seq<char>,
    pub prices: Map<Seq<char>, PriceEntry>,
    pub sanity: OracleSanityConfig,
}

/// Absolute move from `old` to `new` in basis points of `|old|`, as computed by the
/// circuit breaker: the product with 10 000 saturates at `u128::MAX` and the quotient
/// saturates at `u64::MAX`.
pub open spec fn deviation_bps(old: int, new: int) -> u64 {
    if old == 0 {
        0
    } else {
        let diff = if new >= old { new - old } else { old - new };
        let scaled = if diff * 10_000 > u128::MAX { u128::MAX as int } else { diff * 10_000 };
        let mag = if old >= 0 { old } else { -old };
        let q = scaled / mag;
        if q > u64::MAX { u64::MAX } else { q as u64 }
    }
}

/// The price lies within the configured range.
pub open spec fn in_range(s: OracleSanityConfig, price: i128) -> bool {
    price >= s.min_price && !(s.max_price > 0 && price > s.max_price)
}

/// The move from the previous price (if any) passes the circuit breaker.
pub open spec fn passes_breaker(s: OracleSanityConfig, prev: Option<PriceEntry>, price: i128) -> bool {
    s.max_price_deviation_bps == 0 || prev is None || deviation_bps(prev->0.price as int, price as int)
        <= s.max_price_deviation_bps as u64
}

/// The price currently stored for an asset.
pub open spec fn stored(v: OracleView, asset: Seq<char>) -> Option<PriceEntry> {
    if v.prices.dom().contains(asset) {
        Some(v.prices[asset])
    } else {
        None
    }
}

/// An update of `asset` to `price` by `caller` passes every check.
pub open spec fn accepts(v: OracleView, caller: Seq<char>, asset: Seq<char>, price: i128) -> bool {
    &&& caller == v.admin
    &&& in_range(v.sanity, price)
    &&& passes_breaker(v.sanity, stored(v, asset), price)
}

/// The oracle after an accepted update.
pub open spec fn after_update(v: OracleView, asset: Seq<char>, price: i128, timestamp: u64) -> OracleView {
    OracleView {
        admin: v.admin,
        prices: v.prices.insert(asset, PriceEntry { price, timestamp }),
        sanity: v.sanity,
    }
}

/// A stored entry is too old to be served at time `now`.
pub open spec fn is_stale(s: OracleSanityConfig, e: PriceEntry, now: u64) -> bool {
    now > 0 && s.max_price_age_secs > 0 && (if now >= e.timestamp {
        now - e.timestamp
    } else {
        0
    }) > s.max_price_age_secs
}

/// Text of the below-minimum diagnostic.
pub open spec fn below_min_text(price: i128, min: i128) -> Seq<char> {
    "price "@ + dec_int(price as int) + " is below minimum "@ + dec_int(min as int)
}

/// Text of the above-maximum diagnostic.
pub open spec fn above_max_text(price: i128, max: i128) -> Seq<char> {
    "price "@ + dec_int(price as int) + " exceeds maximum "@ + dec_int(max as int)
}

/// Text of the circuit-breaker diagnostic.
pub open spec fn breaker_text(dev: u64, max: u32) -> Seq<char> {
    "price deviation "@ + dec_nat(dev as nat) + "bps exceeds circuit-breaker threshold "@ + dec_nat(
        max as nat,
    ) + "bps"@
}

/// Simulated price oracle: an admin, the latest price per asset and sanity limits.
#[derive(Debug)]
pub struct PriceOracleSim {
    admin: String,
    prices: Vec<(String, PriceEntry)>,
    sanity: OracleSanityConfig,
}

impl View for PriceOracleSim {
    type V = OracleView;

    closed spec fn view(&self) -> OracleView {
        OracleView { admin: self.admin@, prices: to_map(self.prices@), sanity: self.sanity }
    }
}

/// |new - old| computed without overflow.
fn abs_diff_i128(old: i128, new: i128) -> (r: u128)
    ensures
        r == (if new >= old { new - old } else { old - new }),
{
    let (hi, lo) = if new >= old { (new, old) } else { (old, new) };
    if lo >= 0 || hi < 0 {
        (hi - lo) as u128
    } else {
        let h: u128 = hi as u128;
        let l: u128 = if lo == i128::MIN {
            170141183460469231731687303715884105728u128
        } else {
            (-lo) as u128
        };
        h + l
    }
}

impl PriceOracleSim {
    /// Well-formedness: one entry per asset.
    pub closed spec fn wf(&self) -> bool {
        distinct_keys(self.prices@)
    }

    /// Create an oracle with the default sanity configuration.
    pub fn new(admin: &str) -> (r: Self)
        ensures
            r.wf(),
            r@.admin == admin@,
            r@.prices == Map::<Seq<char>, PriceEntry>::empty(),
            r@.sanity == default_sanity(),
    {
        Self::with_sanity(admin, OracleSanityConfig::standard())
    }

    /// Create an oracle with a custom sanity configuration.
    pub fn with_sanity(admin: &str, sanity: OracleSanityConfig) -> (r: Self)
        ensures
            r.wf(),
            r@.admin == admin@,
            r@.prices == Map::<Seq<char>, PriceEntry>::empty(),
            r@.sanity == sanity,
    {
        let r = PriceOracleSim { admin: String::from_str(admin), prices: Vec::new(), sanity };
        assert(to_map(r.prices@) =~= Map::<Seq<char>, PriceEntry>::empty());
        r
    }

    /// The admin identifier.
    pub fn admin(&self) -> (r: &str)
        ensures
            r@ == self@.admin,
    {
        self.admin.as_str()
    }

    /// The current sanity configuration.
    pub fn sanity(&self) -> (r: OracleSanityConfig)
        ensures
            r == self@.sanity,
    {
        self.sanity
    }

    /// Replace the sanity configuration (admin only).
    pub fn set_sanity_config(&mut self, caller: &str, sanity: OracleSanityConfig) -> (r: Result<
        (),
        ProtocolError,
    >)
        requires
            old(self).wf(),
        ensures
            final(self).wf(),
            caller@ == old(self)@.admin ==> r is Ok && final(self)@ == (OracleView {
                sanity,
                ..old(self)@
            }),
            caller@ != old(self)@.admin ==> r == Err::<(), ProtocolError>(ProtocolError::Unauthorized)
                && final(self)@ == old(self)@,
    {
        if String::from_str(caller) != self.admin {
            return Err(ProtocolError::Unauthorized);
        }
        self.sanity = sanity;
        Ok(())
    }

    /// Set a price feed for an asset (admin only), with observation timestamp 0.
    pub fn set_price(&mut self, caller: &str, asset: &str, price: i128) -> (r: Result<(), ProtocolError>)
        requires
            old(self).wf(),
        ensures
            final(self).wf(),
            Self::update_outcome(old(self)@, final(self)@, caller@, asset@, price, 0, r),
    {
        self.set_price_at(caller, asset, price, 0)
    }

    /// The outcome of an update request, as `set_price_at` produces it.
    pub open spec fn update_outcome(
        old: OracleView,
        new: OracleView,
        caller: Seq<char>,
        asset: Seq<char>,
        price: i128,
        timestamp: u64,
        r: Result<(), ProtocolError>,
    ) -> bool {
        &&& accepts(old, caller, asset, price) ==> r is Ok && new == after_update(
            old,
            asset,
            price,
            timestamp,
        )
        &&& !accepts(old, caller, asset, price) ==> new == old && r is Err
        &&& caller != old.admin ==> r == Err::<(), ProtocolError>(ProtocolError::Unauthorized)
        &&& caller == old.admin && price < old.sanity.min_price ==> (r matches Err(
            ProtocolError::OracleSanityCheckFailed(a, m),
        ) && a@ == asset && m@ == below_min_text(price, old.sanity.min_price))
        &&& caller == old.admin && price >= old.sanity.min_price && !in_range(old.sanity, price) ==> (
        r matches Err(ProtocolError::OracleSanityCheckFailed(a, m)) && a@ == asset && m@
            == above_max_text(price, old.sanity.max_price))
        &&& caller == old.admin && in_range(old.sanity, price) && !passes_breaker(
            old.sanity,
            stored(old, asset),
            price,
        ) ==> (r matches Err(ProtocolError::OracleSanityCheckFailed(a, m)) && a@ == asset && m@
            == breaker_text(
            deviation_bps(stored(old, asset)->0.price as int, price as int),
            old.sanity.max_price_deviation_bps,
        ))
    }

    /// Set a price feed with an explicit observation timestamp (admin only).
    ///
    /// Rejects prices below `min_price`, above a configured `max_price`, and moves from
    /// the previous price larger than `max_price_deviation_bps` (when configured).
    pub fn set_price_at(&mut self, caller: &str, asset: &str, price: i128, timestamp: u64) -> (r:
        Result<(), ProtocolError>)
        requires
            old(self).wf(),
        ensures
            final(self).wf(),
            Self::update_outcome(old(self)@, final(self)@, caller@, asset@, price, timestamp, r),
    {
        if String::from_str(caller) != self.admin {
            return Err(ProtocolError::Unauthorized);
        }
        if price < self.sanity.min_price {
            let msg = String::from_str("price ").concat(i128_to_dec(price).as_str()).concat(
                " is below minimum ",
            ).concat(i128_to_dec(self.sanity.min_price).as_str());
            return Err(ProtocolError::OracleSanityCheckFailed(String::from_str(asset), msg));
        }
        if self.sanity.max_price > 0 && price > self.sanity.max_price {
            let msg = String::from_str("price ").concat(i128_to_dec(price).as_str()).concat(
                " exceeds maximum ",
            ).concat(i128_to_dec(self.sanity.max_price).as_str());
            return Err(ProtocolError::OracleSanityCheckFailed(String::from_str(asset), msg));
        }
        if self.sanity.max_price_deviation_bps > 0 {
            match find_key(&self.prices, asset) {
                Some(i) => {
                    let prev = self.prices[i].1;
                    let dev = Self::price_deviation_bps(prev.price, price);
                    if dev > self.sanity.max_price_deviation_bps as u64 {
                        let msg = String::from_str("price deviation ").concat(
                            u64_to_dec(dev).as_str(),
                        ).concat("bps exceeds circuit-breaker threshold ").concat(
                            u64_to_dec(self.sanity.max_price_deviation_bps as u64).as_str(),
                        ).concat("bps");
                        return Err(
                            ProtocolError::OracleSanityCheckFailed(String::from_str(asset), msg),
                        );
                    }
                },
                None => {},
            }
        }
        upsert(&mut self.prices, asset, PriceEntry { price, timestamp });
        Ok(())
    }

    /// Read the price of an asset, rejecting it as stale when `now` is non-zero and the
    /// entry is older than `max_price_age_secs`.
    pub fn get_price_at(&self, asset: &str, now: u64) -> (r: Result<i128, ProtocolError>)
        requires
            self.wf(),
        ensures
            !self@.prices.dom().contains(asset@) ==> (r matches Err(ProtocolError::MissingPrice(a))
                && a@ == asset@),
            self@.prices.dom().contains(asset@) && is_stale(self@.sanity, self@.prices[asset@], now)
                ==> (r matches Err(ProtocolError::OraclePriceStale(a)) && a@ == asset@),
            self@.prices.dom().contains(asset@) && !is_stale(self@.sanity, self@.prices[asset@], now)
                ==> r == Ok::<i128, ProtocolError>(self@.prices[asset@].price),
    {
        match find_key(&self.prices, asset) {
            None => Err(ProtocolError::MissingPrice(String::from_str(asset))),
            Some(i) => {
                let entry = self.prices[i].1;
                if now > 0 && self.sanity.max_price_age_secs > 0 {
                    let age = now.saturating_sub(entry.timestamp);
                    if age > self.sanity.max_price_age_secs {
                        return Err(ProtocolError::OraclePriceStale(String::from_str(asset)));
                    }
                }
                Ok(entry.price)
            },
        }
    }

    /// Read the price of an asset without a staleness check.
    pub fn get_price(&self, asset: &str) -> (r: Result<i128, ProtocolError>)
        requires
            self.wf(),
        ensures
            !self@.prices.dom().contains(asset@) ==> (r matches Err(ProtocolError::MissingPrice(a))
                && a@ == asset@),
            self@.prices.dom().contains(asset@) ==> r == Ok::<i128, ProtocolError>(
                self@.prices[asset@].price,
            ),
    {
        self.get_price_at(asset, 0)
    }

    /// Absolute deviation between two prices in basis points of the old price.
    fn price_deviation_bps(old_price: i128, new_price: i128) -> (r: u64)
        ensures
            r == deviation_bps(old_price as int, new_price as int),
    {
        if old_price == 0 {
            return 0;
        }
        let diff = abs_diff_i128(old_price, new_price);
        let mag: u128 = if old_price >= 0 {
            old_price as u128
        } else if old_price == i128::MIN {
            170141183460469231731687303715884105728u128
        } else {
            (-old_price) as u128
        };
        let scaled: u128 = if diff > u128::MAX / 10_000 { u128::MAX } else { diff * 10_000 };
        let q = scaled / mag;
        if q > u64::MAX as u128 {
            u64::MAX
        } else {
            q as u64
        }
    }
}

/// Rust's truncating division of `a` by a positive `b`.
pub open spec fn tdiv(a: int, b: int) -> int {
    if a >= 0 {
        a / b
    } else {
        -((-a) / b)
    }
}

/// Price published at step `k` of a linear trend from `start` to `end` in `steps` steps.
pub open spec fn trend_price(start: i128, end: i128, steps: u32, k: int) -> int {
    start + tdiv((end - start) * k, steps as int)
}

proof fn lemma_trend_bounds(start: i128, end: i128, steps: u32, k: int)
    requires
        steps > 0,
        0 <= k <= steps,
    ensures
        (start <= end ==> start <= trend_price(start, end, steps, k) <= end),
        (end <= start ==> end <= trend_price(start, end, steps, k) <= start),
{
    let d = end - start;
    let n = steps as int;
    if d >= 0 {
        assert(0 <= d * k <= d * n) by (nonlinear_arith)
            requires d >= 0, 0 <= k <= n;
        assert((d * n) / n == d) by (nonlinear_arith) requires n > 0;
        assert(0 <= (d * k) / n <= (d * n) / n) by (nonlinear_arith)
            requires 0 <= d * k <= d * n, n > 0;
    } else {
        assert(0 <= (-d) * k <= (-d) * n) by (nonlinear_arith)
            requires d < 0, 0 <= k <= n;
        assert(((-d) * n) / n == -d) by (nonlinear_arith) requires n > 0;
        assert(0 <= ((-d) * k) / n <= ((-d) * n) / n) by (nonlinear_arith)
            requires 0 <= (-d) * k <= (-d) * n, n > 0;
        assert(-(d * k) == (-d) * k) by (nonlinear_arith);
    }
}

/// Price reached by a crash of `drop_bps` basis points (capped at 10 000) from `start`.
pub open spec fn crash_end(start: i128, drop_bps: u32) -> int {
    let d = if drop_bps > 10_000 { 10_000 } else { drop_bps as int };
    start - tdiv(start * d, 10_000)
}

/// Clock reading after adding `d` to `t`, saturating at `u64::MAX`.
pub open spec fn clock_add(t: int, d: int) -> u64 {
    if t + d > u64::MAX {
        u64::MAX
    } else {
        (t + d) as u64
    }
}

proof fn lemma_clock_add_assoc(t: int, a: int, d: int)
    requires
        0 <= t <= u64::MAX,
        a >= 0,
        d >= 0,
    ensures
        clock_add(clock_add(t, a) as int, d) == clock_add(t, a + d),
{
}

/// Every update of a linear trend passes the oracle's checks.
pub open spec fn trend_accepted(
    v: OracleView,
    caller: Seq<char>,
    asset: Seq<char>,
    start: i128,
    end: i128,
    steps: u32,
) -> bool {
    &&& caller == v.admin
    &&& forall|k: int|
        0 <= k <= steps ==> #[trigger] in_range(v.sanity, trend_price(start, end, steps, k) as i128)
    &&& passes_breaker(v.sanity, stored(v, asset), start)
    &&& forall|k: int|
        1 <= k <= steps ==> (v.sanity.max_price_deviation_bps == 0 || #[trigger] deviation_bps(
            trend_price(start, end, steps, k - 1),
            trend_price(start, end, steps, k),
        ) <= v.sanity.max_price_deviation_bps as u64)
}

/// Mathematical model of a [`MockOracle`].
pub struct MockView {
    pub oracle: OracleView,
    pub now: u64,
}

/// A programmable mock oracle: a [`PriceOracleSim`] driven by a virtual clock.
///
/// Every scenario helper goes through [`PriceOracleSim::set_price_at`], so the
/// configured sanity checks still apply.
#[derive(Debug)]
pub struct MockOracle {
    inner: PriceOracleSim,
    now: u64,
}

impl View for MockOracle {
    type V = MockView;

    closed spec fn view(&self) -> MockView {
        MockView { oracle: self.inner@, now: self.now }
    }
}

impl MockOracle {
    /// Well-formedness of the wrapped oracle.
    pub closed spec fn wf(&self) -> bool {
        self.inner.wf()
    }

    /// Create a mock oracle with default sanity limits and the clock at 0.
    pub fn new(admin: &str) -> (r: Self)
        ensures
            r.wf(),
            r@.oracle.admin == admin@,
            r@.oracle.prices == Map::<Seq<char>, PriceEntry>::empty(),
            r@.oracle.sanity == default_sanity(),
            r@.now == 0,
    {
        MockOracle { inner: PriceOracleSim::new(admin), now: 0 }
    }

    /// Create a mock oracle with custom sanity limits and the clock at 0.
    pub fn with_sanity(admin: &str, sanity: OracleSanityConfig) -> (r: Self)
        ensures
            r.wf(),
            r@.oracle.admin == admin@,
            r@.oracle.prices == Map::<Seq<char>, PriceEntry>::empty(),
            r@.oracle.sanity == sanity,
            r@.now == 0,
    {
        MockOracle { inner: PriceOracleSim::with_sanity(admin, sanity), now: 0 }
    }

    /// The wrapped oracle, for code that consumes a [`PriceOracleSim`].
    pub fn oracle(&self) -> (r: &PriceOracleSim)
        ensures
            r@ == self@.oracle,
            self.wf() ==> r.wf(),
    {
        &self.inner
    }

    /// The current virtual time (seconds).
    pub fn now(&self) -> (r: u64)
        ensures
            r == self@.now,
    {
        self.now
    }

    /// Move the virtual clock forward by `secs`, saturating at `u64::MAX`.
    pub fn advance_time(&mut self, secs: u64)
        requires
            old(self).wf(),
        ensures
            final(self).wf(),
            final(self)@.oracle == old(self)@.oracle,
            final(self)@.now == clock_add(old(self)@.now as int, secs as int),
    {
        self.now = self.now.saturating_add(secs);
    }

    /// Set the virtual clock to an absolute timestamp.
    pub fn set_time(&mut self, timestamp: u64)
        requires
            old(self).wf(),
        ensures
            final(self).wf(),
            final(self)@.oracle == old(self)@.oracle,
            final(self)@.now == timestamp,
    {
        self.now = timestamp;
    }

    /// Publish a price stamped with the current virtual time.
    pub fn set_price(&mut self, caller: &str, asset: &str, price: i128) -> (r: Result<(), ProtocolError>)
        requires
            old(self).wf(),
        ensures
            final(self).wf(),
            final(self)@.now == old(self)@.now,
            PriceOracleSim::update_outcome(
                old(self)@.oracle,
                final(self)@.oracle,
                caller@,
                asset@,
                price,
                old(self)@.now,
                r,
            ),
    {
        let now = self.now;
        self.inner.set_price_at(caller, asset, price, now)
    }

    /// Publish a price at an explicit timestamp without moving the clock.
    pub fn set_price_at(&mut self, caller: &str, asset: &str, price: i128, timestamp: u64) -> (r:
        Result<(), ProtocolError>)
        requires
            old(self).wf(),
        ensures
            final(self).wf(),
            final(self)@.now == old(self)@.now,
            PriceOracleSim::update_outcome(
                old(self)@.oracle,
                final(self)@.oracle,
                caller@,
                asset@,
                price,
                timestamp,
                r,
            ),
    {
        self.inner.set_price_at(caller, asset, price, timestamp)
    }

    /// Read a price, staleness-checked against the virtual clock.
    pub fn get_price(&self, asset: &str) -> (r: Result<i128, ProtocolError>)
        requires
            self.wf(),
        ensures
            !self@.oracle.prices.dom().contains(asset@) ==> (r matches Err(
                ProtocolError::MissingPrice(a),
            ) && a@ == asset@),
            self@.oracle.prices.dom().contains(asset@) && is_stale(
                self@.oracle.sanity,
                self@.oracle.prices[asset@],
                self@.now,
            ) ==> (r matches Err(ProtocolError::OraclePriceStale(a)) && a@ == asset@),
            self@.oracle.prices.dom().contains(asset@) && !is_stale(
                self@.oracle.sanity,
                self@.oracle.prices[asset@],
                self@.now,
            ) ==> r == Ok::<i128, ProtocolError>(self@.oracle.prices[asset@].price),
    {
        self.inner.get_price_at(asset, self.now)
    }

    /// Publish a linear trend from `start_price` to `end_price` in `steps` updates,
    /// `step_duration_secs` apart, leaving the clock at the last update.
    ///
    /// Succeeds exactly when every update of the trend passes the oracle's checks;
    /// then the asset's price is `end_price`, stamped with the final clock reading.
    pub fn simulate_trend(
        &mut self,
        caller: &str,
        asset: &str,
        start_price: i128,
        end_price: i128,
        steps: u32,
        step_duration_secs: u64,
    ) -> (r: Result<(), ProtocolError>)
        requires
            old(self).wf(),
            steps > 0,
            i128::MIN <= (end_price - start_price) * steps <= i128::MAX,
        ensures
            final(self).wf(),
            final(self)@.oracle.admin == old(self)@.oracle.admin,
            final(self)@.oracle.sanity == old(self)@.oracle.sanity,
            final(self)@.oracle.prices.remove(asset@) == old(self)@.oracle.prices.remove(asset@),
            caller@ != old(self)@.oracle.admin ==> r == Err::<(), ProtocolError>(
                ProtocolError::Unauthorized,
            ),
            r is Ok <==> trend_accepted(
                old(self)@.oracle,
                caller@,
                asset@,
                start_price,
                end_price,
                steps,
            ),
            r is Ok ==> {
                &&& final(self)@.now == clock_add(
                    old(self)@.now as int,
                    steps * step_duration_secs,
                )
                &&& final(self)@.oracle.prices == old(self)@.oracle.prices.insert(
                    asset@,
                    PriceEntry { price: end_price, timestamp: final(self)@.now },
                )
            },
    {
        let ghost v0 = self@;
        if String::from_str(caller) != self.inner.admin {
            return Err(ProtocolError::Unauthorized);
        }
        proof {
            assert(i128::MIN <= end_price - start_price <= i128::MAX) by (nonlinear_arith)
                requires
                    i128::MIN <= (end_price - start_price) * steps <= i128::MAX,
                    steps > 0,
            ;
        }
        let diff: i128 = end_price - start_price;
        let mut step: u64 = 0;
        while step <= steps as u64
            invariant
                self.wf(),
                step <= steps + 1,
                v0 == old(self)@,
                diff == end_price - start_price,
                i128::MIN <= diff * steps <= i128::MAX,
                steps > 0,
                v0.oracle.admin == caller@,
                self@.oracle.admin == v0.oracle.admin,
                self@.oracle.sanity == v0.oracle.sanity,
                self@.oracle.prices.remove(asset@) == v0.oracle.prices.remove(asset@),
                step == 0 ==> self@ == v0,
                forall|k: int|
                    0 <= k < step ==> #[trigger] in_range(
                        v0.oracle.sanity,
                        trend_price(start_price, end_price, steps, k) as i128,
                    ),
                step > 0 ==> passes_breaker(v0.oracle.sanity, stored(v0.oracle, asset@), start_price),
                forall|k: int|
                    1 <= k < step ==> (v0.oracle.sanity.max_price_deviation_bps == 0 || #[trigger] deviation_bps(
                        trend_price(start_price, end_price, steps, k - 1),
                        trend_price(start_price, end_price, steps, k),
                    ) <= v0.oracle.sanity.max_price_deviation_bps as u64),
                step > 0 ==> self@.oracle.prices == v0.oracle.prices.insert(
                    asset@,
                    PriceEntry {
                        price: trend_price(start_price, end_price, steps, step - 1) as i128,
                        timestamp: clock_add(v0.now as int, (step - 1) * step_duration_secs),
                    },
                ),
                step <= steps ==> self@.now == clock_add(
                    v0.now as int,
                    step * step_duration_secs,
                ),
                step > steps ==> self@.now == clock_add(
                    v0.now as int,
                    steps * step_duration_secs,
                ),
            decreases steps + 1 - step,
        {
            proof {
                assert(i128::MIN <= diff * step <= i128::MAX) by (nonlinear_arith)
                    requires
                        i128::MIN <= diff * steps <= i128::MAX,
                        0 <= step <= steps,
                ;
                lemma_trend_bounds(start_price, end_price, steps, step as int);
                if step > 0 {
                    lemma_trend_bounds(start_price, end_price, steps, step - 1);
                }
            }
            let price: i128 = start_price + diff * (step as i128) / (steps as i128);
            assert(price == trend_price(start_price, end_price, steps, step as int));
            let ghost before = self@;
            let res = self.set_price(caller, asset, price);
            if res.is_err() {
                proof {
                    assert(self@.oracle == before.oracle);
                    if step == 0 {
                        assert(stored(before.oracle, asset@) == stored(v0.oracle, asset@));
                    } else {
                        assert(stored(before.oracle, asset@) == Some(
                            PriceEntry {
                                price: trend_price(start_price, end_price, steps, step - 1) as i128,
                                timestamp: clock_add(v0.now as int, (step - 1) * step_duration_secs),
                            },
                        ));
                    }
                    assert(!in_range(v0.oracle.sanity, trend_price(start_price, end_price, steps, step as int) as i128)
                        || (step == 0 && !passes_breaker(v0.oracle.sanity, stored(v0.oracle, asset@), start_price))
                        || (step > 0 && !(v0.oracle.sanity.max_price_deviation_bps == 0 || deviation_bps(
                        trend_price(start_price, end_price, steps, step - 1),
                        trend_price(start_price, end_price, steps, step as int),
                    ) <= v0.oracle.sanity.max_price_deviation_bps as u64)));
                }
                return res;
            }
            if step < steps as u64 {
                let ghost t0 = self@.now;
                self.advance_time(step_duration_secs);
                proof {
                    assert(step * step_duration_secs + step_duration_secs == (step + 1) * step_duration_secs)
                        by (nonlinear_arith);
                    assert(step * step_duration_secs >= 0) by (nonlinear_arith) requires step >= 0, step_duration_secs >= 0;
                    lemma_clock_add_assoc(v0.now as int, step * step_duration_secs, step_duration_secs as int);
                    assert(0 * step_duration_secs == 0);
                }
            } else {
                proof {
                    if step > 0 {
                        assert(step == steps);
                    }
                }
            }
            step = step + 1;
        }
        proof {
            assert(trend_price(start_price, end_price, steps, steps as int) == end_price) by (nonlinear_arith)
                requires
                    steps > 0,
                    trend_price(start_price, end_price, steps, steps as int) == start_price + tdiv(
                        (end_price - start_price) * steps,
                        steps as int,
                    ),
            ;
        }
        Ok(())
    }

    /// Publish `base_price`, then `spike_price` one second later, then `base_price`
    /// again after `spike_duration_secs`.
    pub fn simulate_spike(
        &mut self,
        caller: &str,
        asset: &str,
        base_price: i128,
        spike_price: i128,
        spike_duration_secs: u64,
    ) -> (r: Result<(), ProtocolError>)
        requires
            old(self).wf(),
        ensures
            final(self).wf(),
            final(self)@.oracle.admin == old(self)@.oracle.admin,
            final(self)@.oracle.sanity == old(self)@.oracle.sanity,
            final(self)@.oracle.prices.remove(asset@) == old(self)@.oracle.prices.remove(asset@),
            caller@ != old(self)@.oracle.admin ==> r == Err::<(), ProtocolError>(
                ProtocolError::Unauthorized,
            ),
            r is Ok <==> {
                let s = old(self)@.oracle.sanity;
                &&& caller@ == old(self)@.oracle.admin
                &&& in_range(s, base_price)
                &&& in_range(s, spike_price)
                &&& passes_breaker(s, stored(old(self)@.oracle, asset@), base_price)
                &&& passes_breaker(s, Some(PriceEntry { price: base_price, timestamp: 0 }), spike_price)
                &&& passes_breaker(s, Some(PriceEntry { price: spike_price, timestamp: 0 }), base_price)
            },
            r is Ok ==> {
                &&& final(self)@.now == clock_add(
                    clock_add(old(self)@.now as int, 1) as int,
                    spike_duration_secs as int,
                )
                &&& final(self)@.oracle.prices == old(self)@.oracle.prices.insert(
                    asset@,
                    PriceEntry { price: base_price, timestamp: final(self)@.now },
                )
            },
    {
        let ghost v0 = self@;
        let r1 = self.set_price(caller, asset, base_price);
        if r1.is_err() {
            return r1;
        }
        self.advance_time(1);
        let r2 = self.set_price(caller, asset, spike_price);
        if r2.is_err() {
            return r2;
        }
        self.advance_time(spike_duration_secs);
        let r3 = self.set_price(caller, asset, base_price);
        proof {
            assert(self@.oracle.prices.remove(asset@) =~= v0.oracle.prices.remove(asset@));
            if r3 is Ok {
                assert(self@.oracle.prices =~= v0.oracle.prices.insert(
                    asset@,
                    PriceEntry { price: base_price, timestamp: self@.now },
                ));
            }
        }
        r3
    }

    /// Publish a crash of `drop_bps` basis points (capped at 10 000) from
    /// `start_price`, spread over `steps` updates across `total_duration_secs`.
    pub fn simulate_crash(
        &mut self,
        caller: &str,
        asset: &str,
        start_price: i128,
        drop_bps: u32,
        steps: u32,
        total_duration_secs: u64,
    ) -> (r: Result<(), ProtocolError>)
        requires
            old(self).wf(),
            steps > 0,
            i128::MIN <= start_price * 10_000 <= i128::MAX,
            i128::MIN <= (crash_end(start_price, drop_bps) - start_price) * steps <= i128::MAX,
        ensures
            ({
                let end = crash_end(start_price, drop_bps) as i128;
                let dur = total_duration_secs / (steps as u64);
                &&& final(self).wf()
                &&& final(self)@.oracle.admin == old(self)@.oracle.admin
                &&& final(self)@.oracle.sanity == old(self)@.oracle.sanity
                &&& final(self)@.oracle.prices.remove(asset@) == old(self)@.oracle.prices.remove(asset@)
                &&& caller@ != old(self)@.oracle.admin ==> r == Err::<(), ProtocolError>(
                    ProtocolError::Unauthorized,
                )
                &&& r is Ok <==> trend_accepted(old(self)@.oracle, caller@, asset@, start_price, end, steps)
                &&& r is Ok ==> {
                    &&& final(self)@.now == clock_add(old(self)@.now as int, steps * dur)
                    &&& final(self)@.oracle.prices == old(self)@.oracle.prices.insert(
                        asset@,
                        PriceEntry { price: end, timestamp: final(self)@.now },
                    )
                }
            }),
    {
        let d: i128 = if drop_bps > 10_000 { 10_000 } else { drop_bps as i128 };
        proof {
            assert(i128::MIN <= start_price * d <= i128::MAX) by (nonlinear_arith)
                requires
                    i128::MIN <= start_price * 10_000 <= i128::MAX,
                    0 <= d <= 10_000,
            ;
            assert(-(start_price * d) / 10_000 <= start_price || start_price < 0) by (nonlinear_arith)
                requires 0 <= d <= 10_000;
        }
        let cut: i128 = start_price * d / 10_000;
        assert(cut == tdiv(start_price * d, 10_000));
        proof {
            assert(i128::MIN <= start_price - cut <= i128::MAX) by (nonlinear_arith)
                requires
                    cut == tdiv(start_price * d, 10_000),
                    0 <= d <= 10_000,
            ;
        }
        let end_price: i128 = start_price - cut;
        let dur: u64 = total_duration_secs / (steps as u64);
        assert(end_price == crash_end(start_price, drop_bps));
        self.simulate_trend(caller, asset, start_price, end_price, steps, dur)
    }

    /// Advance the clock by `extra_secs` without publishing, so that the last price
    /// may become stale.
    pub fn simulate_staleness(&mut self, extra_secs: u64)
        requires
            old(self).wf(),
        ensures
            final(self).wf(),
            final(self)@.oracle == old(self)@.oracle,
            final(self)@.now == clock_add(old(self)@.now as int, extra_secs as int),
    {
        self.advance_time(extra_secs);
    }
}

impl core::ops::Deref for MockOracle {
    type Target = PriceOracleSim;

    /// A mock oracle is used wherever a [`PriceOracleSim`] is expected.
    fn deref(&self) -> (r: &PriceOracleSim)
        ensures
            r@ == self@.oracle,
    {
        &self.inner
    }
}

/// Errors of the [`PriceOracle`] contract.
#[derive(Clone, Copy, Debug, PartialEq, Eq, Structural)]
pub enum OracleError {
    AlreadyInitialized,
    Unauthorized,
    InvalidAmount,
    MissingPrice,
}

/// Mathematical model of a [`PriceOracle`]'s storage.
pub struct PriceOracleView {
    pub admin: Option<Seq<char>>,
    pub prices: Map<Seq<char>, i128>,
}

/// The price feed contract: an admin and one price per asset.
pub struct PriceOracle {
    admin: Option<String>,
    prices: Vec<(String, i128)>,
}

impl View for PriceOracle {
    type V = PriceOracleView;

    closed spec fn view(&self) -> PriceOracleView {
        PriceOracleView {
            admin: match self.admin {
                Some(a) => Some(a@),
                None => None,
            },
            prices: to_map(self.prices@),
        }
    }
}

impl Default for PriceOracle {
    /// A contract that has not been initialized.
    fn default() -> (r: Self)
        ensures
            r.wf(),
            r@.admin is None,
            r@.prices == Map::<Seq<char>, i128>::empty(),
    {
        let r = PriceOracle { admin: None, prices: Vec::new() };
        proof {
            assert(to_map(r.prices@) =~= Map::<Seq<char>, i128>::empty());
        }
        r
    }
}

impl PriceOracle {
    /// One price per asset.
    pub closed spec fn wf(&self) -> bool {
        distinct_keys(self.prices@)
    }

    /// Set the admin and start with no prices; only once.
    pub fn initialize(&mut self, admin: &str) -> (r: Result<(), OracleError>)
        requires
            old(self).wf(),
        ensures
            final(self).wf(),
            old(self)@.admin is Some ==> r == Err::<(), OracleError>(OracleError::AlreadyInitialized) && final(self)@
                == old(self)@,
            old(self)@.admin is None ==> r is Ok && final(self)@.admin == Some(admin@) && final(self)@.prices
                == Map::<Seq<char>, i128>::empty(),
    {
        if self.admin.is_some() {
            return Err(OracleError::AlreadyInitialized);
        }
        self.admin = Some(String::from_str(admin));
        self.prices = Vec::new();
        proof {
            assert(to_map(self.prices@) =~= Map::<Seq<char>, i128>::empty());
        }
        Ok(())
    }

    /// The admin (the contract must be initialized).
    pub fn admin(&self) -> (r: String)
        requires
            self@.admin is Some,
        ensures
            self@.admin == Some(r@),
    {
        match &self.admin {
            Some(a) => a.clone(),
            None => String::new(),
        }
    }

    /// Publish the price of `asset`: only the admin may, and only a positive
    /// price.
    pub fn set_price(&mut self, caller: &str, asset: &str, price: i128) -> (r: Result<(), OracleError>)
        requires
            old(self).wf(),
            old(self)@.admin is Some,
        ensures
            final(self).wf(),
            old(self)@.admin != Some(caller@) ==> r == Err::<(), OracleError>(OracleError::Unauthorized)
                && final(self)@ == old(self)@,
            old(self)@.admin == Some(caller@) && price <= 0 ==> r == Err::<(), OracleError>(
                OracleError::InvalidAmount,
            ) && final(self)@ == old(self)@,
            old(self)@.admin == Some(caller@) && price > 0 ==> r is Ok && final(self)@ == (PriceOracleView {
                prices: old(self)@.prices.insert(asset@, price),
                ..old(self)@
            }),
    {
        let admin = self.admin();
        let who = String::from_str(caller);
        if admin != who {
            return Err(OracleError::Unauthorized);
        }
        if price <= 0 {
            return Err(OracleError::InvalidAmount);
        }
        upsert(&mut self.prices, asset, price);
        Ok(())
    }

    /// The price of `asset`, if one was published.
    pub fn get_price(&self, asset: &str) -> (r: Result<i128, OracleError>)
        requires
            self.wf(),
        ensures
            self@.prices.dom().contains(asset@) ==> r == Ok::<i128, OracleError>(self@.prices[asset@]),
            !self@.prices.dom().contains(asset@) ==> r == Err::<i128, OracleError>(OracleError::MissingPrice),
    {
        match find_key(&self.prices, asset) {
            Some(i) => Ok(self.prices[i].1),
            None => Err(OracleError::MissingPrice),
        }
    }
}

/// A price with its time and whether it comes from a degraded source.
#[derive(Clone, Copy, Debug, PartialEq, Eq, Structural)]
pub struct PriceData {
    pub price: i128,
    pub timestamp: u64,
    pub is_degraded: bool,
}

/// Whether a price recorded at `timestamp` is older than `threshold_seconds` at
/// the ledger time `now` (a timestamp in the future counts as fresh).
pub fn check_staleness(now: u64, timestamp: u64, threshold_seconds: u64) -> (r: bool)
    ensures
        r == (now > timestamp && now - timestamp > threshold_seconds),
{
    now.saturating_sub(timestamp) > threshold_seconds
}

} // verus!
