//! Health metrics of price feed adapters: success rate, latency percentiles,
//! deviation from consensus and uptime, per adapter.

use vstd::prelude::*;
use crate::anomaly::{lemma_sorted_len, mean_of, price_leq, price_mean, sorted_prices};
use crate::keyed::{distinct_keys, find_key, lemma_push, to_map};

verus! {

/// Below this success rate (basis points) an adapter is unhealthy.
pub const DEMOTION_THRESHOLD_BPS: u32 = 8_000;
/// Number of latency samples kept.
pub const LATENCY_WINDOW: usize = 100;
/// Average deviation from consensus (basis points) above which an adapter is unhealthy.
pub const MAX_ACCEPTABLE_DEVIATION_BPS: u32 = 200;

/// Performance counters of one adapter.
#[derive(Debug)]
pub struct AdapterHealth {
    /// Adapter identifier.
    pub adapter_id: String,
    /// Requests sent to the adapter.
    pub total_requests: u64,
    /// Requests that returned a usable price.
    pub successful_requests: u64,
    /// Success rate in basis points.
    pub success_rate_bps: u32,
    /// Latest response times (milliseconds), oldest first.
    pub latency_samples_ms: Vec<u64>,
    /// Mean response time over the samples.
    pub avg_latency_ms: u64,
    /// 95th-percentile response time.
    pub p95_latency_ms: u64,
    /// 99th-percentile response time.
    pub p99_latency_ms: u64,
    /// Sum of the deviations from consensus of successful requests (basis points).
    pub total_deviation_bps: u64,
    /// Mean deviation from consensus (basis points).
    pub avg_deviation_bps: u32,
    /// Uptime in basis points.
    pub uptime_bps: u32,
    /// Seconds monitored.
    pub monitored_secs: u64,
    /// Seconds the adapter was healthy.
    pub healthy_secs: u64,
    /// Whether the adapter is currently healthy.
    pub is_healthy: bool,
    /// Time of the last successful response.
    pub last_success_ts: u64,
}

/// The latency window after adding one sample: the last `LATENCY_WINDOW` samples.
pub open spec fn window_push(s: Seq<u64>, x: u64) -> Seq<u64> {
    let t = s.push(x);
    if t.len() > LATENCY_WINDOW {
        t.skip(t.len() - LATENCY_WINDOW)
    } else {
        t
    }
}

/// Position of a percentile in `n` sorted samples.
pub open spec fn percentile_index(n: int, pct: int) -> int {
    if n * pct / 100 < n - 1 {
        n * pct / 100
    } else {
        n - 1
    }
}

/// The latency statistics `h` reports for the samples `s`: mean, 95th and 99th
/// percentile (all 0 without samples).
pub open spec fn latency_stats_of(h: AdapterHealth, s: Seq<u64>) -> bool {
    if s.len() == 0 {
        h.avg_latency_ms == 0 && h.p95_latency_ms == 0 && h.p99_latency_ms == 0
    } else {
        let t = s.sort_by(price_leq());
        &&& h.avg_latency_ms == price_mean(s)
        &&& h.p95_latency_ms == t[percentile_index(s.len() as int, 95)]
        &&& h.p99_latency_ms == t[percentile_index(s.len() as int, 99)]
    }
}

/// Success rate of `ok` successes in `total` requests, in basis points.
pub open spec fn rate_bps(ok: u64, total: u64) -> u32 {
    if total == 0 {
        10_000
    } else {
        (ok * 10_000 / total as int) as u32
    }
}

/// `h1` is `h0` after one request that took `latency` ms and succeeded or not, with
/// deviation `dev` from consensus, at time `now`.
pub open spec fn request_recorded(h0: AdapterHealth, h1: AdapterHealth, latency: u64, success: bool, dev: u32, now: u64) -> bool {
    let samples = window_push(h0.latency_samples_ms@, latency);
    let ok = if success { h0.successful_requests + 1 } else { h0.successful_requests as int };
    let dev_total = if success { h0.total_deviation_bps + dev } else { h0.total_deviation_bps as int };
    let avg_dev: u32 = if ok == 0 { 0 } else { (dev_total / ok) as u32 };
    &&& h1.adapter_id == h0.adapter_id
    &&& h1.total_requests == h0.total_requests + 1
    &&& h1.successful_requests == ok
    &&& h1.total_deviation_bps == dev_total
    &&& h1.last_success_ts == if success { now } else { h0.last_success_ts }
    &&& h1.latency_samples_ms@ == samples
    &&& latency_stats_of(h1, samples)
    &&& h1.success_rate_bps == rate_bps(ok as u64, (h0.total_requests + 1) as u64)
    &&& h1.avg_deviation_bps == avg_dev
    &&& h1.is_healthy == (h1.success_rate_bps >= DEMOTION_THRESHOLD_BPS && avg_dev <= MAX_ACCEPTABLE_DEVIATION_BPS)
    &&& h1.uptime_bps == h0.uptime_bps
    &&& h1.monitored_secs == h0.monitored_secs
    &&& h1.healthy_secs == h0.healthy_secs
}

/// Recording a request keeps every counter in range.
pub open spec fn record_fits(h: AdapterHealth, success: bool, dev: u32) -> bool {
    &&& h.total_requests < u64::MAX
    &&& success ==> h.successful_requests < u64::MAX && h.total_deviation_bps + dev <= u64::MAX
}

/// `h1` is `h0` after `elapsed` more seconds of monitoring, healthy or not.
pub open spec fn ticked(h0: AdapterHealth, h1: AdapterHealth, elapsed: u64, was_healthy: bool) -> bool {
    let monitored = h0.monitored_secs + elapsed;
    let healthy = if was_healthy { h0.healthy_secs + elapsed } else { h0.healthy_secs as int };
    &&& h1.monitored_secs == monitored
    &&& h1.healthy_secs == healthy
    &&& h1.uptime_bps == if monitored == 0 { 10_000 } else { (healthy * 10_000 / monitored) as u32 }
    &&& h1.adapter_id == h0.adapter_id
    &&& h1.total_requests == h0.total_requests
    &&& h1.successful_requests == h0.successful_requests
    &&& h1.success_rate_bps == h0.success_rate_bps
    &&& h1.latency_samples_ms@ == h0.latency_samples_ms@
    &&& h1.avg_latency_ms == h0.avg_latency_ms
    &&& h1.p95_latency_ms == h0.p95_latency_ms
    &&& h1.p99_latency_ms == h0.p99_latency_ms
    &&& h1.total_deviation_bps == h0.total_deviation_bps
    &&& h1.avg_deviation_bps == h0.avg_deviation_bps
    &&& h1.is_healthy == h0.is_healthy
    &&& h1.last_success_ts == h0.last_success_ts
}

/// A tick keeps the uptime counters in range.
pub open spec fn tick_fits(h: AdapterHealth, elapsed: u64, was_healthy: bool) -> bool {
    h.monitored_secs + elapsed <= u64::MAX && (was_healthy ==> h.healthy_secs + elapsed <= u64::MAX)
}

/// The counters of an adapter nobody has asked yet.
pub open spec fn fresh_health(h: AdapterHealth, id: Seq<char>) -> bool {
    &&& h.adapter_id@ == id
    &&& h.total_requests == 0
    &&& h.successful_requests == 0
    &&& h.success_rate_bps == 10_000
    &&& h.latency_samples_ms@.len() == 0
    &&& h.avg_latency_ms == 0
    &&& h.p95_latency_ms == 0
    &&& h.p99_latency_ms == 0
    &&& h.total_deviation_bps == 0
    &&& h.avg_deviation_bps == 0
    &&& h.uptime_bps == 10_000
    &&& h.monitored_secs == 0
    &&& h.healthy_secs == 0
    &&& h.is_healthy
    &&& h.last_success_ts == 0
}

impl AdapterHealth {
    /// Counters for an adapter nobody has asked yet: perfect rates, no samples.
    pub fn new(adapter_id: &str) -> (r: Self)
        ensures
            fresh_health(r, adapter_id@),
    {
        AdapterHealth {
            adapter_id: String::from_str(adapter_id),
            total_requests: 0,
            successful_requests: 0,
            success_rate_bps: 10_000,
            latency_samples_ms: Vec::new(),
            avg_latency_ms: 0,
            p95_latency_ms: 0,
            p99_latency_ms: 0,
            total_deviation_bps: 0,
            avg_deviation_bps: 0,
            uptime_bps: 10_000,
            monitored_secs: 0,
            healthy_secs: 0,
            is_healthy: true,
            last_success_ts: 0,
        }
    }

    /// Record one request: its latency, whether it succeeded, its deviation from
    /// consensus (basis points) and the time.  The health flag requires a success
    /// rate of at least 80% and an average deviation of at most 2%.
    pub fn record(&mut self, latency_ms: u64, success: bool, deviation_bps: u32, now_ts: u64)
        requires
            record_fits(*old(self), success, deviation_bps),
        ensures
            request_recorded(*old(self), *final(self), latency_ms, success, deviation_bps, now_ts),
    {
        let ghost h0 = *self;
        self.total_requests = self.total_requests + 1;
        if success {
            self.successful_requests = self.successful_requests + 1;
            self.last_success_ts = now_ts;
            self.total_deviation_bps = self.total_deviation_bps + deviation_bps as u64;
        }
        self.latency_samples_ms.push(latency_ms);
        let ghost pushed = self.latency_samples_ms@;
        let mut dropped: usize = 0;
        if self.latency_samples_ms.len() > LATENCY_WINDOW {
            dropped = self.latency_samples_ms.len() - LATENCY_WINDOW;
        }
        let mut kept: Vec<u64> = Vec::new();
        let mut i: usize = dropped;
        while i < self.latency_samples_ms.len()
            invariant
                dropped <= i <= self.latency_samples_ms@.len(),
                self.latency_samples_ms@ == pushed,
                kept@ == pushed.subrange(dropped as int, i as int),
            decreases self.latency_samples_ms@.len() - i,
        {
            kept.push(self.latency_samples_ms[i]);
            proof {
                assert(kept@ =~= pushed.subrange(dropped as int, i + 1));
            }
            i = i + 1;
        }
        self.latency_samples_ms = kept;
        proof {
            assert(self.latency_samples_ms@ =~= window_push(h0.latency_samples_ms@, latency_ms));
        }
        self.recompute_latency_stats();
        self.success_rate_bps = if self.total_requests == 0 {
            10_000
        } else {
            (((self.successful_requests as u128) * 10_000) / (self.total_requests as u128)) as u32
        };
        self.avg_deviation_bps = if self.successful_requests == 0 {
            0
        } else {
            let q: u64 = self.total_deviation_bps / self.successful_requests;
            #[verifier::truncate]
            let d: u32 = q as u32;
            d
        };
        self.is_healthy = self.success_rate_bps >= DEMOTION_THRESHOLD_BPS && self.avg_deviation_bps
            <= MAX_ACCEPTABLE_DEVIATION_BPS;
    }

    /// Count `elapsed_secs` more seconds of monitoring, healthy or not, and update
    /// the uptime.
    pub fn tick(&mut self, elapsed_secs: u64, was_healthy: bool)
        requires
            tick_fits(*old(self), elapsed_secs, was_healthy),
        ensures
            ticked(*old(self), *final(self), elapsed_secs, was_healthy),
    {
        self.monitored_secs = self.monitored_secs + elapsed_secs;
        if was_healthy {
            self.healthy_secs = self.healthy_secs + elapsed_secs;
        }
        self.uptime_bps = if self.monitored_secs == 0 {
            10_000
        } else {
            let q: u128 = ((self.healthy_secs as u128) * 10_000) / (self.monitored_secs as u128);
            #[verifier::truncate]
            let u: u32 = q as u32;
            u
        };
    }

    fn recompute_latency_stats(&mut self)
        ensures
            latency_stats_of(*final(self), old(self).latency_samples_ms@),
            final(self).latency_samples_ms@ == old(self).latency_samples_ms@,
            final(self).adapter_id == old(self).adapter_id,
            final(self).total_requests == old(self).total_requests,
            final(self).successful_requests == old(self).successful_requests,
            final(self).success_rate_bps == old(self).success_rate_bps,
            final(self).total_deviation_bps == old(self).total_deviation_bps,
            final(self).avg_deviation_bps == old(self).avg_deviation_bps,
            final(self).uptime_bps == old(self).uptime_bps,
            final(self).monitored_secs == old(self).monitored_secs,
            final(self).healthy_secs == old(self).healthy_secs,
            final(self).is_healthy == old(self).is_healthy,
            final(self).last_success_ts == old(self).last_success_ts,
    {
        let n = self.latency_samples_ms.len();
        if n == 0 {
            self.avg_latency_ms = 0;
            self.p95_latency_ms = 0;
            self.p99_latency_ms = 0;
            return;
        }
        let sorted = sorted_prices(self.latency_samples_ms.as_slice());
        proof {
            lemma_sorted_len(self.latency_samples_ms@);
        }
        self.avg_latency_ms = mean_of(self.latency_samples_ms.as_slice());
        let n128 = n as u128;
        let i95 = ((n128 * 95) / 100) as usize;
        let i99 = ((n128 * 99) / 100) as usize;
        let j95 = if i95 < n - 1 { i95 } else { n - 1 };
        let j99 = if i99 < n - 1 { i99 } else { n - 1 };
        self.p95_latency_ms = sorted[j95];
        self.p99_latency_ms = sorted[j99];
    }
}

/// `r` lists the records of table `t` in the order given by `idx`: entry `p`
/// of `r` is the record at table position `idx[p]`, and table position `j` is
/// listed at position `inv[j]` (so `idx` rearranges the table's positions).
pub open spec fn ranks(idx: Seq<int>, inv: Seq<int>, t: Seq<(String, AdapterHealth)>, r: Seq<&AdapterHealth>) -> bool {
    &&& idx.len() == r.len()
    &&& r.len() == t.len()
    &&& inv.len() == t.len()
    &&& forall|p: int| 0 <= p < r.len() ==> 0 <= #[trigger] idx[p] < t.len() && *r[p] == t[idx[p]].1
    &&& forall|j: int| 0 <= j < t.len() ==> 0 <= #[trigger] inv[j] < r.len() && idx[inv[j]] == j
}

/// Health counters of every tracked adapter.
pub struct HealthMonitor {
    health: Vec<(String, AdapterHealth)>,
}

impl View for HealthMonitor {
    type V = Map<Seq<char>, AdapterHealth>;

    closed spec fn view(&self) -> Map<Seq<char>, AdapterHealth> {
        to_map(self.health@)
    }
}

impl HealthMonitor {
    /// One entry per adapter.
    pub closed spec fn wf(&self) -> bool {
        distinct_keys(self.health@)
    }

    /// The tracked adapters with their records, in the order first tracked.
    pub closed spec fn health_table(&self) -> Seq<(String, AdapterHealth)> {
        self.health@
    }

    /// A monitor tracking no adapter.
    pub fn new() -> (r: Self)
        ensures
            r.wf(),
            r@ == Map::<Seq<char>, AdapterHealth>::empty(),
            r.health_table() == Seq::<(String, AdapterHealth)>::empty(),
    {
        let r = HealthMonitor { health: Vec::new() };
        proof {
            assert(to_map(r.health@) =~= Map::<Seq<char>, AdapterHealth>::empty());
        }
        r
    }

    /// Start tracking an adapter; nothing changes when it is tracked already.
    pub fn register(&mut self, adapter_id: &str)
        requires
            old(self).wf(),
        ensures
            final(self).wf(),
            old(self)@.dom().contains(adapter_id@) ==> final(self)@ == old(self)@,
            !old(self)@.dom().contains(adapter_id@) ==> final(self)@ == old(self)@.insert(
                adapter_id@,
                final(self)@[adapter_id@],
            ) && fresh_health(final(self)@[adapter_id@], adapter_id@),
    {
        if find_key(&self.health, adapter_id).is_none() {
            let key = String::from_str(adapter_id);
            let h = AdapterHealth::new(adapter_id);
            proof {
                lemma_push(self.health@, key, h);
            }
            self.health.push((key, h));
        }
    }

    /// Record a request outcome of an adapter, tracking it first if needed.
    pub fn record(&mut self, adapter_id: &str, latency_ms: u64, success: bool, deviation_bps: u32, now_ts: u64)
        requires
            old(self).wf(),
            old(self)@.dom().contains(adapter_id@) ==> record_fits(old(self)@[adapter_id@], success, deviation_bps),
        ensures
            final(self).wf(),
            final(self)@.dom() == old(self)@.dom().insert(adapter_id@),
            forall|a: Seq<char>| #[trigger] old(self)@.dom().contains(a) && a != adapter_id@ ==> final(self)@[a] == old(self)@[a],
            exists|h0: AdapterHealth|
                #[trigger] request_recorded(h0, final(self)@[adapter_id@], latency_ms, success, deviation_bps, now_ts) && (
                if old(self)@.dom().contains(adapter_id@) {
                    h0 == old(self)@[adapter_id@]
                } else {
                    fresh_health(h0, adapter_id@)
                }),
    {
        self.register(adapter_id);
        let ghost s1 = self.health@;
        let i = match find_key(&self.health, adapter_id) {
            Some(i) => i,
            None => {
                proof {
                    assert(false);
                }
                return;
            },
        };
        let (k, mut h) = self.health.remove(i);
        let ghost h0 = h;
        proof {
            assert(h0 == to_map(s1)[adapter_id@]);
        }
        h.record(latency_ms, success, deviation_bps, now_ts);
        let ghost h1 = h;
        proof {
            crate::keyed::lemma_update(s1, i as int, k, h1);
        }
        self.health.insert(i, (k, h));
        proof {
            assert(self.health@ =~= s1.update(i as int, (k, h1)));
            assert(request_recorded(h0, self@[adapter_id@], latency_ms, success, deviation_bps, now_ts));
        }
    }
}

/// One of the first `i` entries is the unhealthy adapter `a`.
pub open spec fn listed_unhealthy(s: Seq<(String, AdapterHealth)>, i: int, a: Seq<char>) -> bool {
    exists|k: int| 0 <= k < i && s[k].0@ == a && !s[k].1.is_healthy
}

/// `a` is one of the identifiers of `r`.
pub open spec fn key_listed(r: Seq<String>, a: Seq<char>) -> bool {
    exists|j: int| 0 <= j < r.len() && r[j]@ == a
}

impl HealthMonitor {
    /// Count `elapsed_secs` more seconds for every adapter, as healthy when it is
    /// currently healthy.
    pub fn tick_all(&mut self, elapsed_secs: u64)
        requires
            old(self).wf(),
            forall|a: Seq<char>| #[trigger] old(self)@.dom().contains(a) ==> tick_fits(old(self)@[a], elapsed_secs, old(self)@[a].is_healthy),
        ensures
            final(self).wf(),
            final(self)@.dom() == old(self)@.dom(),
            forall|a: Seq<char>| #[trigger] old(self)@.dom().contains(a) ==> ticked(old(self)@[a], final(self)@[a], elapsed_secs, old(self)@[a].is_healthy),
    {
        let ghost s0 = self.health@;
        proof {
            assert(old(self)@ == to_map(s0));
        }
        let n = self.health.len();
        let mut i: usize = 0;
        while i < n
            invariant
                n == self.health@.len(),
                n == s0.len(),
                i <= n,
                distinct_keys(s0),
                forall|a: Seq<char>| #[trigger] to_map(s0).dom().contains(a) ==> tick_fits(to_map(s0)[a], elapsed_secs, to_map(s0)[a].is_healthy),
                forall|j: int| 0 <= j < n ==> (#[trigger] self.health@[j]).0 == s0[j].0,
                forall|j: int| 0 <= j < i ==> ticked(s0[j].1, #[trigger] self.health@[j].1, elapsed_secs, s0[j].1.is_healthy),
                forall|j: int| i <= j < n ==> #[trigger] self.health@[j].1 == s0[j].1,
            decreases n - i,
        {
            let ghost cur = self.health@;
            let (k, mut h) = self.health.remove(i);
            proof {
                crate::keyed::lemma_to_map_value(s0, i as int);
                assert(h == s0[i as int].1);
            }
            let was = h.is_healthy;
            h.tick(elapsed_secs, was);
            self.health.insert(i, (k, h));
            proof {
                assert(self.health@ =~= cur.update(i as int, (k, h)));
            }
            i = i + 1;
        }
        proof {
            assert(distinct_keys(self.health@)) by {
                assert forall|x: int, y: int| 0 <= x < n && 0 <= y < n && x != y implies self.health@[x].0@ != self.health@[y].0@ by {
                    assert(self.health@[x].0 == s0[x].0);
                    assert(self.health@[y].0 == s0[y].0);
                }
            }
            assert forall|a: Seq<char>| #[trigger] self@.dom().contains(a) == to_map(s0).dom().contains(a) by {
                crate::keyed::lemma_to_map_dom(self.health@, a);
                crate::keyed::lemma_to_map_dom(s0, a);
                if self@.dom().contains(a) {
                    let j = choose|j: int| 0 <= j < self.health@.len() && self.health@[j].0@ == a;
                    assert(self.health@[j].0 == s0[j].0);
                }
                if to_map(s0).dom().contains(a) {
                    let j = choose|j: int| 0 <= j < s0.len() && s0[j].0@ == a;
                    assert(self.health@[j].0 == s0[j].0);
                }
            }
            assert(self@.dom() =~= to_map(s0).dom());
            assert forall|a: Seq<char>| #[trigger] to_map(s0).dom().contains(a) implies ticked(to_map(s0)[a], self@[a], elapsed_secs, to_map(s0)[a].is_healthy) by {
                crate::keyed::lemma_to_map_dom(s0, a);
                let j = choose|j: int| 0 <= j < s0.len() && s0[j].0@ == a;
                crate::keyed::lemma_to_map_value(s0, j);
                assert(self.health@[j].0 == s0[j].0);
                crate::keyed::lemma_to_map_value(self.health@, j);
            }
        }
    }

    /// The counters of an adapter, if tracked.
    pub fn get(&self, adapter_id: &str) -> (r: Option<&AdapterHealth>)
        requires
            self.wf(),
        ensures
            match r {
                Some(h) => self@.dom().contains(adapter_id@) && *h == self@[adapter_id@],
                None => !self@.dom().contains(adapter_id@),
            },
    {
        match find_key(&self.health, adapter_id) {
            Some(i) => Some(&self.health[i].1),
            None => None,
        }
    }

    /// Identifiers of the adapters currently unhealthy, one per adapter.
    pub fn unhealthy_adapters(&self) -> (r: Vec<String>)
        requires
            self.wf(),
        ensures
            r@.map_values(|s: String| s@).no_duplicates(),
            forall|a: Seq<char>| r@.map_values(|s: String| s@).contains(a) <==> (self@.dom().contains(a) && !self@[a].is_healthy),
    {
        let mut r: Vec<String> = Vec::new();
        let mut i: usize = 0;
        while i < self.health.len()
            invariant
                i <= self.health@.len(),
                distinct_keys(self.health@),
                forall|j: int| 0 <= j < r@.len() ==> #[trigger] listed_unhealthy(self.health@, i as int, r@[j]@),
                forall|k: int| 0 <= k < i && !self.health@[k].1.is_healthy ==> #[trigger] key_listed(r@, self.health@[k].0@),
                r@.map_values(|s: String| s@).no_duplicates(),
            decreases self.health@.len() - i,
        {
            let ghost r0 = r@;
            if !self.health[i].1.is_healthy {
                proof {
                    assert forall|j: int| 0 <= j < r0.len() implies r0[j]@ != self.health@[i as int].0@ by {
                        assert(listed_unhealthy(self.health@, i as int, r0[j]@));
                        let k = choose|k: int| 0 <= k < i && self.health@[k].0@ == r0[j]@ && !self.health@[k].1.is_healthy;
                    }
                }
                r.push(self.health[i].0.clone());
                proof {
                    assert(r@ == r0.push(self.health@[i as int].0));
                    assert(r@.map_values(|s: String| s@) =~= r0.map_values(|s: String| s@).push(self.health@[i as int].0@));
                }
            }
            proof {
                assert forall|j: int| 0 <= j < r@.len() implies #[trigger] listed_unhealthy(self.health@, i + 1, r@[j]@) by {
                    if j < r0.len() {
                        assert(r@[j] == r0[j]);
                        assert(listed_unhealthy(self.health@, i as int, r0[j]@));
                        let k = choose|k: int| 0 <= k < i && self.health@[k].0@ == r0[j]@ && !self.health@[k].1.is_healthy;
                        assert(0 <= k < i + 1 && self.health@[k].0@ == r@[j]@ && !self.health@[k].1.is_healthy);
                    } else {
                        assert(0 <= i < i + 1 && self.health@[i as int].0@ == r@[j]@ && !self.health@[i as int].1.is_healthy);
                    }
                }
                assert forall|k: int| 0 <= k < i + 1 && !self.health@[k].1.is_healthy implies #[trigger] key_listed(r@, self.health@[k].0@) by {
                    if k < i {
                        assert(key_listed(r0, self.health@[k].0@));
                        let j = choose|j: int| 0 <= j < r0.len() && r0[j]@ == self.health@[k].0@;
                        assert(r@[j] == r0[j]);
                    } else {
                        assert(r@[r0.len() as int]@ == self.health@[k].0@);
                    }
                }
            }
            i = i + 1;
        }
        proof {
            let rv = r@.map_values(|s: String| s@);
            assert forall|a: Seq<char>| rv.contains(a) <==> (self@.dom().contains(a) && !self@[a].is_healthy) by {
                crate::keyed::lemma_to_map_dom(self.health@, a);
                if rv.contains(a) {
                    let j = choose|j: int| 0 <= j < rv.len() && rv[j] == a;
                    assert(r@[j]@ == a);
                    assert(listed_unhealthy(self.health@, self.health@.len() as int, r@[j]@));
                    let k = choose|k: int| 0 <= k < self.health@.len() && self.health@[k].0@ == r@[j]@ && !self.health@[k].1.is_healthy;
                    crate::keyed::lemma_to_map_value(self.health@, k);
                }
                if self@.dom().contains(a) && !self@[a].is_healthy {
                    let k = choose|k: int| 0 <= k < self.health@.len() && self.health@[k].0@ == a;
                    crate::keyed::lemma_to_map_value(self.health@, k);
                    assert(key_listed(r@, self.health@[k].0@));
                    let j = choose|j: int| 0 <= j < r@.len() && r@[j]@ == self.health@[k].0@;
                    assert(rv[j] == a);
                }
            }
        }
        r
    }

    /// The health records of all tracked adapters, highest success rate first;
    /// adapters with equal rates keep the order in which they were first
    /// tracked.
    pub fn ranked(&self) -> (r: Vec<&AdapterHealth>)
        requires
            self.wf(),
        ensures
            r@.len() == self.health_table().len(),
            forall|a: int, b: int| 0 <= a < b < r@.len() ==> r@[a].success_rate_bps >= r@[b].success_rate_bps,
            exists|idx: Seq<int>, inv: Seq<int>| #[trigger] ranks(idx, inv, self.health_table(), r@),
    {
        let ghost t = self.health@;
        let mut out: Vec<&AdapterHealth> = Vec::new();
        let ghost mut idx: Seq<int> = Seq::empty();
        let ghost mut pos_of: Seq<int> = Seq::empty();
        let mut i: usize = 0;
        while i < self.health.len()
            invariant
                t == self.health@,
                i <= t.len(),
                out@.len() == i,
                idx.len() == i,
                pos_of.len() == i,
                forall|a: int, b: int| 0 <= a < b < out@.len() ==> out@[a].success_rate_bps >= out@[b].success_rate_bps,
                forall|p: int| 0 <= p < i ==> 0 <= #[trigger] idx[p] < i && *out@[p] == t[idx[p]].1,
                forall|j: int| 0 <= j < i ==> 0 <= #[trigger] pos_of[j] < i && idx[pos_of[j]] == j,
            decreases t.len() - i,
        {
            let h = &self.health[i].1;
            let mut pos: usize = 0;
            while pos < out.len() && out[pos].success_rate_bps >= h.success_rate_bps
                invariant
                    pos <= out@.len(),
                    forall|a: int| 0 <= a < pos ==> out@[a].success_rate_bps >= h.success_rate_bps,
                decreases out@.len() - pos,
            {
                pos = pos + 1;
            }
            let ghost o0 = out@;
            proof {
                if pos < o0.len() {
                    assert forall|b: int| pos <= b < o0.len() implies o0[b].success_rate_bps < h.success_rate_bps by {
                        if b > pos {
                            assert(o0[pos as int].success_rate_bps >= o0[b].success_rate_bps);
                        }
                    }
                }
            }
            out.insert(pos, h);
            proof {
                let p0 = pos as int;
                let idx0 = idx;
                let pos0 = pos_of;
                idx = idx0.insert(p0, i as int);
                pos_of = Seq::new((i + 1) as nat, |j: int| if j == i { p0 } else if pos0[j] >= p0 { pos0[j] + 1 } else { pos0[j] });
                assert(out@ == o0.insert(p0, h));
                assert forall|p: int| 0 <= p < i + 1 implies 0 <= #[trigger] idx[p] < i + 1 && *out@[p] == t[idx[p]].1 by {
                    if p < p0 {
                        assert(idx[p] == idx0[p]);
                    } else if p > p0 {
                        assert(idx[p] == idx0[p - 1]);
                    }
                }
                assert forall|j: int| 0 <= j < i + 1 implies 0 <= #[trigger] pos_of[j] < i + 1 && idx[pos_of[j]] == j by {
                    if j < i {
                        let q = pos0[j];
                        assert(idx0[q] == j);
                        if q >= p0 {
                            assert(idx[q + 1] == idx0[q]);
                        } else {
                            assert(idx[q] == idx0[q]);
                        }
                    }
                }
            }
            i = i + 1;
        }
        proof {
            assert(ranks(idx, pos_of, t, out@));
            assert(ranks(idx, pos_of, self.health_table(), out@));
        }
        out
    }
}

impl Default for HealthMonitor {
    fn default() -> (r: Self)
        ensures
            r.wf(),
            r@.is_empty(),
    {
        Self::new()
    }
}

/// Position of one adapter in the failover chain.
#[derive(Debug)]
pub struct AdapterPriority {
    /// Adapter identifier.
    pub adapter_id: String,
    /// Lower values are tried first.
    pub priority: u32,
    /// Whether the adapter takes part in the chain.
    pub enabled: bool,
}

impl Clone for AdapterPriority {
    fn clone(&self) -> (r: Self)
        ensures
            r == *self,
    {
        AdapterPriority { adapter_id: self.adapter_id.clone(), priority: self.priority, enabled: self.enabled }
    }
}

/// Why an adapter was skipped or failed.
#[derive(Clone, Copy, Debug, PartialEq, Eq, Structural)]
pub enum FailoverReason {
    /// The adapter is disabled.
    Disabled,
    /// The health gate rejected the adapter.
    UnhealthyAdapter,
    /// The adapter returned an error.
    AdapterError,
    /// A manual override is active.
    ManualOverrideActive,
}

/// One decision of the failover engine.
#[derive(Debug)]
pub struct FailoverEvent {
    /// Asset being priced.
    pub asset_id: String,
    /// Adapter that was considered.
    pub adapter_id: String,
    /// Whether the attempt succeeded.
    pub succeeded: bool,
    /// Why it was skipped or failed (none on success).
    pub reason: Option<FailoverReason>,
    /// Time of the decision.
    pub timestamp: u64,
}

impl Clone for FailoverEvent {
    fn clone(&self) -> (r: Self)
        ensures
            r == *self,
    {
        FailoverEvent {
            asset_id: self.asset_id.clone(),
            adapter_id: self.adapter_id.clone(),
            succeeded: self.succeeded,
            reason: self.reason,
            timestamp: self.timestamp,
        }
    }
}

/// The chain is ordered by priority.
pub open spec fn sorted_priority(s: Seq<AdapterPriority>) -> bool {
    forall|i: int, j: int| 0 <= i <= j < s.len() ==> s[i].priority <= s[j].priority
}

/// Every adapter appears once in the chain.
pub open spec fn ids_distinct(s: Seq<AdapterPriority>) -> bool {
    forall|i: int, j: int| 0 <= i < s.len() && 0 <= j < s.len() && i != j ==> s[i].adapter_id@ != s[j].adapter_id@
}

/// Whether an entry belongs to another adapter than `id`.
pub open spec fn not_id(id: Seq<char>) -> spec_fn(AdapterPriority) -> bool {
    |a: AdapterPriority| a.adapter_id@ != id
}

/// The chain without the adapter `id`.
pub open spec fn without_id(s: Seq<AdapterPriority>, id: Seq<char>) -> Seq<AdapterPriority> {
    s.filter(not_id(id))
}

/// `k` splits the chain into priorities at most `p` and priorities above `p`.
pub open spec fn is_split_le(s: Seq<AdapterPriority>, p: u32, k: int) -> bool {
    &&& 0 <= k <= s.len()
    &&& forall|i: int| 0 <= i < k ==> s[i].priority <= p
    &&& forall|i: int| k <= i < s.len() ==> s[i].priority > p
}

/// `k` splits the chain into priorities below `p` and priorities at least `p`.
pub open spec fn is_split_lt(s: Seq<AdapterPriority>, p: u32, k: int) -> bool {
    &&& 0 <= k <= s.len()
    &&& forall|i: int| 0 <= i < k ==> s[i].priority < p
    &&& forall|i: int| k <= i < s.len() ==> s[i].priority >= p
}

/// `e` is the chain entry of a freshly registered adapter.
pub open spec fn fresh_entry(e: AdapterPriority, id: Seq<char>, priority: u32) -> bool {
    e.adapter_id@ == id && e.priority == priority && e.enabled
}

/// Ordered adapter chain with health gating, a manual override and an event log.
pub struct FailoverEngine {
    adapters: Vec<AdapterPriority>,
    /// Health counters of the adapters.
    pub health: HealthMonitor,
    manual_override: Option<String>,
    events: Vec<FailoverEvent>,
}

/// Position of `id` in the chain, if present.
fn position_of(s: &Vec<AdapterPriority>, id: &str) -> (r: Option<usize>)
    requires
        ids_distinct(s@),
    ensures
        match r {
            Some(i) => i < s@.len() && s@[i as int].adapter_id@ == id@,
            None => forall|i: int| 0 <= i < s@.len() ==> s@[i].adapter_id@ != id@,
        },
{
    let key = String::from_str(id);
    let mut i: usize = 0;
    while i < s.len()
        invariant
            i <= s@.len(),
            key@ == id@,
            forall|j: int| 0 <= j < i ==> s@[j].adapter_id@ != id@,
        decreases s@.len() - i,
    {
        if s[i].adapter_id == key {
            return Some(i);
        }
        i = i + 1;
    }
    None
}

/// Insert `e` into a chain ordered by priority at position `k`, where `k` splits
/// the chain around the entry's priority.
proof fn lemma_insert_sorted(s: Seq<AdapterPriority>, e: AdapterPriority, k: int)
    requires
        sorted_priority(s),
        0 <= k <= s.len(),
        forall|i: int| 0 <= i < k ==> s[i].priority <= e.priority,
        forall|i: int| k <= i < s.len() ==> s[i].priority >= e.priority,
    ensures
        sorted_priority(s.insert(k, e)),
{
    let t = s.insert(k, e);
    assert forall|i: int, j: int| 0 <= i <= j < t.len() implies t[i].priority <= t[j].priority by {
        if i < k && j > k {
            assert(t[j] == s[j - 1]);
        } else if i == k && j > k {
            assert(t[j] == s[j - 1]);
        } else if i > k {
            assert(t[i] == s[i - 1]);
            assert(t[j] == s[j - 1]);
        }
    }
}

/// A chain with one entry removed keeps its order and distinct identifiers.
proof fn lemma_without_id(s: Seq<AdapterPriority>, id: Seq<char>)
    requires
        sorted_priority(s),
        ids_distinct(s),
    ensures
        sorted_priority(without_id(s, id)),
        ids_distinct(without_id(s, id)),
        forall|i: int| 0 <= i < without_id(s, id).len() ==> #[trigger] without_id(s, id)[i].adapter_id@ != id,
    decreases s.len(),
{
    reveal_with_fuel(Seq::<_>::filter, 1);
    if s.len() > 0 {
        let d = s.drop_last();
        assert(sorted_priority(d));
        assert(ids_distinct(d));
        lemma_without_id(d, id);
        let fd = without_id(d, id);
        assert forall|i: int| 0 <= i < fd.len() implies fd[i].priority <= s.last().priority && fd[i].adapter_id@ != s.last().adapter_id@ by {
            assert(fd.contains(fd[i]));
            d.lemma_filter_contains_rev(not_id(id), fd[i]);
            let m = choose|m: int| 0 <= m < d.len() && d[m] == fd[i];
            assert(s[m] == d[m]);
        }
    }
}

impl FailoverEngine {
    /// The chain, in order.
    pub closed spec fn chain(&self) -> Seq<AdapterPriority> {
        self.adapters@
    }

    /// The health counters of the adapters.
    pub closed spec fn health_view(&self) -> Map<Seq<char>, AdapterHealth> {
        self.health@
    }

    /// The manual override, if any.
    pub closed spec fn override_id(&self) -> Option<Seq<char>> {
        match self.manual_override {
            Some(s) => Some(s@),
            None => None,
        }
    }

    /// The event log, oldest first.
    pub closed spec fn event_log(&self) -> Seq<FailoverEvent> {
        self.events@
    }

    /// The chain is ordered by priority with one entry per adapter, and the health
    /// monitor is well formed.
    pub closed spec fn wf(&self) -> bool {
        &&& sorted_priority(self.adapters@)
        &&& ids_distinct(self.adapters@)
        &&& self.health.wf()
    }

    /// The chain is always ordered by priority and names each adapter at most once.
    pub proof fn lemma_chain_ordered(&self)
        requires
            self.wf(),
        ensures
            sorted_priority(self.chain()),
            ids_distinct(self.chain()),
    {
    }

    /// An engine without adapters, override or events.
    pub fn new() -> (r: Self)
        ensures
            r.wf(),
            r.chain().len() == 0,
            r.override_id() is None,
            r.event_log().len() == 0,
            r.health_view().is_empty(),
    {
        FailoverEngine { adapters: Vec::new(), health: HealthMonitor::new(), manual_override: None, events: Vec::new() }
    }

    /// Register an adapter with a priority, replacing any earlier entry of it; the
    /// new entry goes after every entry of the same or a lower priority value.
    pub fn register(&mut self, adapter_id: &str, priority: u32)
        requires
            old(self).wf(),
        ensures
            final(self).wf(),
            exists|k: int|
                #[trigger] is_split_le(without_id(old(self).chain(), adapter_id@), priority, k) && final(self).chain()
                    == without_id(old(self).chain(), adapter_id@).insert(k, final(self).chain()[k]) && fresh_entry(
                    final(self).chain()[k],
                    adapter_id@,
                    priority,
                ),
            final(self).override_id() == old(self).override_id(),
            final(self).event_log() == old(self).event_log(),
            old(self).health_view().dom().contains(adapter_id@) ==> final(self).health_view() == old(self).health_view(),
            !old(self).health_view().dom().contains(adapter_id@) ==> final(self).health_view() == old(self).health_view().insert(
                adapter_id@,
                final(self).health_view()[adapter_id@],
            ) && fresh_health(final(self).health_view()[adapter_id@], adapter_id@),
    {
        self.health.register(adapter_id);
        let ghost s0 = self.adapters@;
        let ghost pred = not_id(adapter_id@);
        let key = String::from_str(adapter_id);
        let mut kept: Vec<AdapterPriority> = Vec::new();
        let mut i: usize = 0;
        while i < self.adapters.len()
            invariant
                i <= s0.len(),
                s0 == self.adapters@,
                key@ == adapter_id@,
                pred == not_id(adapter_id@),
                kept@ == s0.take(i as int).filter(pred),
            decreases s0.len() - i,
        {
            proof {
                reveal_with_fuel(Seq::<_>::filter, 1);
                assert(s0.take(i + 1).drop_last() =~= s0.take(i as int));
            }
            if self.adapters[i].adapter_id != key {
                kept.push(self.adapters[i].clone());
            }
            i = i + 1;
        }
        proof {
            assert(s0.take(s0.len() as int) =~= s0);
            assert(kept@ == without_id(s0, adapter_id@));
            lemma_without_id(s0, adapter_id@);
        }
        let mut k: usize = 0;
        while k < kept.len() && kept[k].priority <= priority
            invariant
                k <= kept@.len(),
                forall|j: int| 0 <= j < k ==> kept@[j].priority <= priority,
            decreases kept@.len() - k,
        {
            k = k + 1;
        }
        let ghost w = kept@;
        proof {
            assert forall|j: int| k <= j < w.len() implies w[j].priority > priority by {
                if j > k {
                    assert(w[k as int].priority <= w[j].priority);
                }
            }
            assert(is_split_le(w, priority, k as int));
        }
        let entry = AdapterPriority { adapter_id: key, priority, enabled: true };
        kept.insert(k, entry);
        proof {
            lemma_insert_sorted(w, entry, k as int);
            assert(kept@ =~= w.insert(k as int, entry));
            assert(ids_distinct(kept@)) by {
                assert forall|a: int, b: int| 0 <= a < kept@.len() && 0 <= b < kept@.len() && a != b implies kept@[a].adapter_id@ != kept@[b].adapter_id@ by {
                    if a != k && b != k {
                        let a0 = if a < k { a } else { a - 1 };
                        let b0 = if b < k { b } else { b - 1 };
                        assert(kept@[a] == w[a0]);
                        assert(kept@[b] == w[b0]);
                    } else if a == k {
                        let b0 = if b < k { b } else { b - 1 };
                        assert(kept@[b] == w[b0]);
                        assert(w[b0].adapter_id@ != adapter_id@);
                    } else {
                        let a0 = if a < k { a } else { a - 1 };
                        assert(kept@[a] == w[a0]);
                        assert(w[a0].adapter_id@ != adapter_id@);
                    }
                }
            }
        }
        self.adapters = kept;
        proof {
            assert(old(self).chain() == s0);
            assert(self.chain()[k as int] == entry);
            assert(is_split_le(without_id(old(self).chain(), adapter_id@), priority, k as int) && self.chain()
                == without_id(old(self).chain(), adapter_id@).insert(k as int, self.chain()[k as int]) && fresh_entry(
                self.chain()[k as int],
                adapter_id@,
                priority,
            ));
        }
    }

    /// Enable or disable an adapter of the chain (nothing happens for an unknown one).
    pub fn set_enabled(&mut self, adapter_id: &str, enabled: bool)
        requires
            old(self).wf(),
        ensures
            final(self).wf(),
            final(self).chain().len() == old(self).chain().len(),
            forall|i: int| 0 <= i < old(self).chain().len() ==> #[trigger] final(self).chain()[i] == if old(self).chain()[i].adapter_id@ == adapter_id@ {
                AdapterPriority { enabled, ..old(self).chain()[i] }
            } else {
                old(self).chain()[i]
            },
            final(self).health_view() == old(self).health_view(),
            final(self).override_id() == old(self).override_id(),
            final(self).event_log() == old(self).event_log(),
    {
        match position_of(&self.adapters, adapter_id) {
            Some(i) => {
                let ghost s0 = self.adapters@;
                let mut a = self.adapters.remove(i);
                a.enabled = enabled;
                self.adapters.insert(i, a);
                proof {
                    assert(self.adapters@ =~= s0.update(i as int, a));
                    assert forall|x: int, y: int| 0 <= x < s0.len() && 0 <= y < s0.len() && x != y implies self.adapters@[x].adapter_id@ != self.adapters@[y].adapter_id@ by {
                        assert(self.adapters@[x].adapter_id == s0[x].adapter_id);
                        assert(self.adapters@[y].adapter_id == s0[y].adapter_id);
                    }
                    assert forall|x: int, y: int| 0 <= x <= y < s0.len() implies self.adapters@[x].priority <= self.adapters@[y].priority by {
                        assert(self.adapters@[x].priority == s0[x].priority);
                        assert(self.adapters@[y].priority == s0[y].priority);
                    }
                }
            },
            None => {},
        }
    }

    /// Set the manual override, or clear it with `None`.
    pub fn set_manual_override(&mut self, adapter_id: Option<&str>)
        requires
            old(self).wf(),
        ensures
            final(self).wf(),
            final(self).override_id() == match adapter_id {
                Some(s) => Some(s@),
                None => None::<Seq<char>>,
            },
            final(self).chain() == old(self).chain(),
            final(self).health_view() == old(self).health_view(),
            final(self).event_log() == old(self).event_log(),
    {
        self.manual_override = match adapter_id {
            Some(s) => Some(String::from_str(s)),
            None => None,
        };
    }

    /// The manual override, if any.
    pub fn manual_override(&self) -> (r: Option<&str>)
        ensures
            match r {
                Some(s) => self.override_id() == Some(s@),
                None => self.override_id() is None,
            },
    {
        match &self.manual_override {
            Some(s) => Some(s.as_str()),
            None => None,
        }
    }

    /// Take all events out of the log.
    pub fn drain_events(&mut self) -> (r: Vec<FailoverEvent>)
        requires
            old(self).wf(),
        ensures
            final(self).wf(),
            r@ == old(self).event_log(),
            final(self).event_log().len() == 0,
            final(self).chain() == old(self).chain(),
            final(self).health_view() == old(self).health_view(),
            final(self).override_id() == old(self).override_id(),
    {
        let mut out: Vec<FailoverEvent> = Vec::new();
        std::mem::swap(&mut out, &mut self.events);
        out
    }

    /// The event log, oldest first.
    pub fn events(&self) -> (r: &[FailoverEvent])
        ensures
            r@ == self.event_log(),
    {
        self.events.as_slice()
    }

    /// The chain, ordered by priority.
    pub fn adapters(&self) -> (r: &[AdapterPriority])
        ensures
            r@ == self.chain(),
    {
        self.adapters.as_slice()
    }
}

impl Default for FailoverEngine {
    fn default() -> (r: Self)
        ensures
            r.wf(),
            r.chain().len() == 0,
            r.override_id() is None,
            r.event_log().len() == 0,
    {
        Self::new()
    }
}

/// The chain after giving the adapter at position `i` the priority `p`, kept in
/// stable priority order: it moves before the entries of priority `p` when its
/// priority grows and after them when it shrinks.
pub open spec fn repositioned(s: Seq<AdapterPriority>, new: Seq<AdapterPriority>, i: int, p: u32) -> bool {
    let x = s[i];
    let rest = s.remove(i);
    if p == x.priority {
        new == s
    } else if p > x.priority {
        exists|k: int| #[trigger] is_split_lt(rest, p, k) && new == rest.insert(k, AdapterPriority { priority: p, ..x })
    } else {
        exists|k: int| #[trigger] is_split_le(rest, p, k) && new == rest.insert(k, AdapterPriority { priority: p, ..x })
    }
}

/// Some adapter of the chain has identifier `id`.
pub open spec fn in_chain(s: Seq<AdapterPriority>, id: Seq<char>) -> bool {
    exists|i: int| 0 <= i < s.len() && s[i].adapter_id@ == id
}

/// Every adapter's request counters can take one more request.
pub open spec fn counters_fit(m: Map<Seq<char>, AdapterHealth>) -> bool {
    forall|a: Seq<char>| #[trigger] m.dom().contains(a) ==> m[a].total_requests < u64::MAX && m[a].successful_requests < u64::MAX
}

proof fn lemma_remove_sorted(s: Seq<AdapterPriority>, i: int)
    requires
        sorted_priority(s),
        ids_distinct(s),
        0 <= i < s.len(),
    ensures
        sorted_priority(s.remove(i)),
        ids_distinct(s.remove(i)),
        forall|j: int| 0 <= j < s.remove(i).len() ==> #[trigger] s.remove(i)[j].adapter_id@ != s[i].adapter_id@,
{
    let r = s.remove(i);
    assert forall|a: int, b: int| 0 <= a <= b < r.len() implies r[a].priority <= r[b].priority by {
        let a0 = if a < i { a } else { a + 1 };
        let b0 = if b < i { b } else { b + 1 };
        assert(r[a] == s[a0]);
        assert(r[b] == s[b0]);
    }
    assert forall|a: int, b: int| 0 <= a < r.len() && 0 <= b < r.len() && a != b implies r[a].adapter_id@ != r[b].adapter_id@ by {
        let a0 = if a < i { a } else { a + 1 };
        let b0 = if b < i { b } else { b + 1 };
        assert(r[a] == s[a0]);
        assert(r[b] == s[b0]);
    }
    assert forall|j: int| 0 <= j < r.len() implies #[trigger] r[j].adapter_id@ != s[i].adapter_id@ by {
        let j0 = if j < i { j } else { j + 1 };
        assert(r[j] == s[j0]);
    }
}

proof fn lemma_insert_distinct(s: Seq<AdapterPriority>, k: int, e: AdapterPriority)
    requires
        ids_distinct(s),
        0 <= k <= s.len(),
        forall|j: int| 0 <= j < s.len() ==> #[trigger] s[j].adapter_id@ != e.adapter_id@,
    ensures
        ids_distinct(s.insert(k, e)),
{
    let t = s.insert(k, e);
    assert forall|a: int, b: int| 0 <= a < t.len() && 0 <= b < t.len() && a != b implies t[a].adapter_id@ != t[b].adapter_id@ by {
        if a != k && b != k {
            let a0 = if a < k { a } else { a - 1 };
            let b0 = if b < k { b } else { b - 1 };
            assert(t[a] == s[a0]);
            assert(t[b] == s[b0]);
        } else if a == k {
            let b0 = if b < k { b } else { b - 1 };
            assert(t[b] == s[b0]);
        } else {
            let a0 = if a < k { a } else { a - 1 };
            assert(t[a] == s[a0]);
        }
    }
}

impl FailoverEngine {
    /// Change the priority of an adapter of the chain, keeping the chain in stable
    /// priority order (nothing happens for an unknown adapter).
    pub fn set_priority(&mut self, adapter_id: &str, priority: u32)
        requires
            old(self).wf(),
        ensures
            final(self).wf(),
            !in_chain(old(self).chain(), adapter_id@) ==> final(self).chain() == old(self).chain(),
            forall|i: int|
                0 <= i < old(self).chain().len() && old(self).chain()[i].adapter_id@ == adapter_id@ ==> #[trigger] repositioned(
                    old(self).chain(),
                    final(self).chain(),
                    i,
                    priority,
                ),
            final(self).health_view() == old(self).health_view(),
            final(self).override_id() == old(self).override_id(),
            final(self).event_log() == old(self).event_log(),
    {
        let i = match position_of(&self.adapters, adapter_id) {
            Some(i) => i,
            None => return,
        };
        let ghost s0 = self.adapters@;
        let x = self.adapters.remove(i);
        let ghost rest = self.adapters@;
        proof {
            assert(rest == s0.remove(i as int));
            lemma_remove_sorted(s0, i as int);
            assert forall|j: int| 0 <= j < s0.len() && s0[j].adapter_id@ == adapter_id@ implies j == i by {}
        }
        let q = x.priority;
        if priority == q {
            self.adapters.insert(i, x);
            proof {
                assert(self.adapters@ =~= s0);
            }
            return;
        }
        let mut k: usize = 0;
        if priority > q {
            while k < self.adapters.len() && self.adapters[k].priority < priority
                invariant
                    self.adapters@ == rest,
                    k <= rest.len(),
                    forall|j: int| 0 <= j < k ==> rest[j].priority < priority,
                decreases rest.len() - k,
            {
                k = k + 1;
            }
            proof {
                assert forall|j: int| k <= j < rest.len() implies rest[j].priority >= priority by {
                    if j > k {
                        assert(rest[k as int].priority <= rest[j].priority);
                    }
                }
                assert(is_split_lt(rest, priority, k as int));
            }
        } else {
            while k < self.adapters.len() && self.adapters[k].priority <= priority
                invariant
                    self.adapters@ == rest,
                    k <= rest.len(),
                    forall|j: int| 0 <= j < k ==> rest[j].priority <= priority,
                decreases rest.len() - k,
            {
                k = k + 1;
            }
            proof {
                assert forall|j: int| k <= j < rest.len() implies rest[j].priority > priority by {
                    if j > k {
                        assert(rest[k as int].priority <= rest[j].priority);
                    }
                }
                assert(is_split_le(rest, priority, k as int));
            }
        }
        let moved = AdapterPriority { adapter_id: x.adapter_id, priority, enabled: x.enabled };
        proof {
            assert(moved == (AdapterPriority { priority, ..s0[i as int] }));
        }
        self.adapters.insert(k, moved);
        proof {
            assert(self.adapters@ =~= rest.insert(k as int, moved));
            lemma_insert_sorted(rest, moved, k as int);
            lemma_insert_distinct(rest, k as int, moved);
            assert(s0.remove(i as int) == rest);
            if priority > q {
                assert(is_split_lt(rest, priority, k as int) && priority > s0[i as int].priority && self.adapters@ == rest.insert(
                    k as int,
                    AdapterPriority { priority, ..s0[i as int] },
                ));
            } else {
                assert(is_split_le(rest, priority, k as int) && priority < s0[i as int].priority && self.adapters@ == rest.insert(
                    k as int,
                    AdapterPriority { priority, ..s0[i as int] },
                ));
            }
            assert(repositioned(s0, self.adapters@, i as int, priority));
        }
    }
}

/// Why the chain skips an adapter without asking it: disabled, or failing the
/// health gate (unknown adapters pass); none when it is asked.
pub open spec fn gate_reason(a: AdapterPriority, h: Map<Seq<char>, AdapterHealth>) -> Option<FailoverReason> {
    if !a.enabled {
        Some(FailoverReason::Disabled)
    } else if h.dom().contains(a.adapter_id@) && !h[a.adapter_id@].is_healthy {
        Some(FailoverReason::UnhealthyAdapter)
    } else {
        None
    }
}

/// `ev` records a failed step of the chain at adapter `a`: skipped for the
/// gate's reason, or asked and answering with an error.
pub open spec fn failed_step<F: Fn(&str, &str) -> (Result<u64, String>, u64)>(
    ev: FailoverEvent,
    a: AdapterPriority,
    h: Map<Seq<char>, AdapterHealth>,
    asset: &str,
    now: u64,
    fetch: F,
) -> bool {
    &&& ev.asset_id@ == asset@
    &&& ev.adapter_id@ == a.adapter_id@
    &&& ev.timestamp == now
    &&& !ev.succeeded
    &&& match gate_reason(a, h) {
        Some(x) => ev.reason == Some(x),
        None => ev.reason == Some(FailoverReason::AdapterError) && exists|x: &str, e: String, lat: u64|
            #![trigger call_ensures(fetch, (x, asset), (Err::<u64, String>(e), lat))]
            x@ == a.adapter_id@ && call_ensures(fetch, (x, asset), (Err::<u64, String>(e), lat)),
    }
}

/// `ev` records the successful answer `p` of adapter `id`.
pub open spec fn answered_step<F: Fn(&str, &str) -> (Result<u64, String>, u64)>(
    ev: FailoverEvent,
    id: Seq<char>,
    asset: &str,
    now: u64,
    fetch: F,
    p: u64,
) -> bool {
    &&& ev.asset_id@ == asset@
    &&& ev.adapter_id@ == id
    &&& ev.timestamp == now
    &&& ev.succeeded
    &&& ev.reason is None
    &&& exists|x: &str, lat: u64|
        #![trigger call_ensures(fetch, (x, asset), (Ok::<u64, String>(p), lat))]
        x@ == id && call_ensures(fetch, (x, asset), (Ok::<u64, String>(p), lat))
}

/// A run of the chain `c` (health `h`) for `asset` at `now` whose events are `new`:
/// by priority, each adapter is passed over when disabled or unhealthy and
/// queried otherwise, until one answers; `Ok(p)` is the answer of the first adapter that
/// answered, and `Err` carries the events of the whole chain, all failures.
pub open spec fn chain_run<F: Fn(&str, &str) -> (Result<u64, String>, u64)>(
    c: Seq<AdapterPriority>,
    h: Map<Seq<char>, AdapterHealth>,
    asset: &str,
    now: u64,
    fetch: F,
    new: Seq<FailoverEvent>,
    r: Result<u64, Vec<FailoverEvent>>,
) -> bool {
    match r {
        Ok(p) => {
            &&& 0 < new.len() <= c.len()
            &&& forall|j: int| 0 <= j < new.len() - 1 ==> #[trigger] failed_step(new[j], c[j], h, asset, now, fetch)
            &&& gate_reason(c[new.len() - 1], h) is None
            &&& answered_step(new.last(), c[new.len() - 1].adapter_id@, asset, now, fetch, p)
        },
        Err(evs) => {
            &&& new.len() == c.len()
            &&& forall|j: int| 0 <= j < new.len() ==> #[trigger] failed_step(new[j], c[j], h, asset, now, fetch)
            &&& evs@ == new
        },
    }
}

/// A run with the manual override `o` whose events are `new`: only `o` is asked.
pub open spec fn override_run<F: Fn(&str, &str) -> (Result<u64, String>, u64)>(
    o: Seq<char>,
    asset: &str,
    now: u64,
    fetch: F,
    new: Seq<FailoverEvent>,
    r: Result<u64, Vec<FailoverEvent>>,
) -> bool {
    &&& new.len() == 1
    &&& match r {
        Ok(p) => answered_step(new[0], o, asset, now, fetch, p),
        Err(evs) => {
            &&& evs@ == new
            &&& new[0].asset_id@ == asset@ && new[0].adapter_id@ == o && new[0].timestamp == now && !new[0].succeeded
            &&& new[0].reason == Some(FailoverReason::AdapterError)
            &&& exists|x: &str, e: String, lat: u64|
                #![trigger call_ensures(fetch, (x, asset), (Err::<u64, String>(e), lat))]
                x@ == o && call_ensures(fetch, (x, asset), (Err::<u64, String>(e), lat))
        },
    }
}

/// `new` is the chain `old` with possibly some adapters disabled.
pub open spec fn only_disabled(old: Seq<AdapterPriority>, new: Seq<AdapterPriority>) -> bool {
    &&& new.len() == old.len()
    &&& forall|i: int|
        0 <= i < old.len() ==> #[trigger] new[i].adapter_id == old[i].adapter_id && new[i].priority == old[i].priority
            && (new[i].enabled ==> old[i].enabled)
}

impl FailoverEngine {
    /// Disable every adapter of the chain whose health has dropped.
    fn auto_demote_unhealthy(&mut self)
        requires
            old(self).wf(),
        ensures
            final(self).wf(),
            final(self).chain().len() == old(self).chain().len(),
            forall|i: int|
                0 <= i < old(self).chain().len() ==> #[trigger] final(self).chain()[i] == if old(self).health_view().dom().contains(
                    old(self).chain()[i].adapter_id@,
                ) && !old(self).health_view()[old(self).chain()[i].adapter_id@].is_healthy {
                    AdapterPriority { enabled: false, ..old(self).chain()[i] }
                } else {
                    old(self).chain()[i]
                },
            final(self).health_view() == old(self).health_view(),
            final(self).override_id() == old(self).override_id(),
            final(self).event_log() == old(self).event_log(),
    {
        let ghost s0 = self.adapters@;
        let n = self.adapters.len();
        let mut i: usize = 0;
        while i < n
            invariant
                n == s0.len(),
                n == self.adapters@.len(),
                i <= n,
                self.health.wf(),
                self.health@ == old(self).health@,
                self.manual_override == old(self).manual_override,
                self.events@ == old(self).events@,
                s0 == old(self).adapters@,
                forall|j: int| 0 <= j < i ==> #[trigger] self.adapters@[j] == if self.health@.dom().contains(s0[j].adapter_id@)
                    && !self.health@[s0[j].adapter_id@].is_healthy {
                    AdapterPriority { enabled: false, ..s0[j] }
                } else {
                    s0[j]
                },
                forall|j: int| i <= j < n ==> #[trigger] self.adapters@[j] == s0[j],
            decreases n - i,
        {
            let demote = match self.health.get(self.adapters[i].adapter_id.as_str()) {
                Some(h) => !h.is_healthy,
                None => false,
            };
            if demote {
                let ghost cur = self.adapters@;
                let mut a = self.adapters.remove(i);
                a.enabled = false;
                self.adapters.insert(i, a);
                proof {
                    assert(self.adapters@ =~= cur.update(i as int, a));
                }
            }
            i = i + 1;
        }
        proof {
            assert forall|x: int, y: int| 0 <= x <= y < n implies self.adapters@[x].priority <= self.adapters@[y].priority by {
                assert(self.adapters@[x].priority == s0[x].priority);
                assert(self.adapters@[y].priority == s0[y].priority);
            }
            assert forall|x: int, y: int| 0 <= x < n && 0 <= y < n && x != y implies self.adapters@[x].adapter_id@ != self.adapters@[y].adapter_id@ by {
                assert(self.adapters@[x].adapter_id == s0[x].adapter_id);
                assert(self.adapters@[y].adapter_id == s0[y].adapter_id);
            }
        }
    }

    /// Price `asset_id` through the chain.  With a manual override only that adapter
    /// is asked.  Otherwise adapters are tried in priority order: disabled ones and
    /// ones that fail the health gate are skipped, the others asked through `fetch`
    /// until one answers; every decision is logged and every attempt recorded in the
    /// health counters.  After a success, unhealthy adapters are disabled.  On
    /// failure the events of the failed attempts are returned.
    pub fn fetch<F: Fn(&str, &str) -> (Result<u64, String>, u64)>(&mut self, asset_id: &str, now_ts: u64, fetch: F) -> (r:
        Result<u64, Vec<FailoverEvent>>)
        requires
            old(self).wf(),
            counters_fit(old(self).health_view()),
            forall|x: &str, y: &str| #[trigger] fetch.requires((x, y)),
        ensures
            final(self).wf(),
            only_disabled(old(self).chain(), final(self).chain()),
            final(self).override_id() == old(self).override_id(),
            final(self).event_log().len() > old(self).event_log().len() || (old(self).override_id() is None && r is Err),
            final(self).event_log().take(old(self).event_log().len() as int) == old(self).event_log(),
            r is Ok ==> final(self).event_log().last().succeeded && final(self).event_log().last().reason is None,
            r matches Err(evs) ==> forall|j: int| 0 <= j < evs@.len() ==> !(#[trigger] evs@[j]).succeeded,
            old(self).override_id() matches Some(o) ==> final(self).event_log().len() == old(self).event_log().len() + 1
                && final(self).event_log().last().adapter_id@ == o && final(self).chain() == old(self).chain(),
            old(self).override_id() matches Some(o) ==> override_run(
                o,
                asset_id,
                now_ts,
                fetch,
                final(self).event_log().skip(old(self).event_log().len() as int),
                r,
            ),
            old(self).override_id() is None ==> chain_run(
                old(self).chain(),
                old(self).health_view(),
                asset_id,
                now_ts,
                fetch,
                final(self).event_log().skip(old(self).event_log().len() as int),
                r,
            ),
    {
        let ghost e0 = self.events@;
        match &self.manual_override {
            Some(o) => {
                let override_id = o.clone();
                let id_str = override_id.as_str();
                let (result, latency) = fetch(id_str, asset_id);
                let success = result.is_ok();
                self.health.record(override_id.as_str(), latency, success, 0, now_ts);
                let event = FailoverEvent {
                    asset_id: String::from_str(asset_id),
                    adapter_id: override_id,
                    succeeded: success,
                    reason: if success { None } else { Some(FailoverReason::AdapterError) },
                    timestamp: now_ts,
                };
                self.events.push(event.clone());
                proof {
                    assert(self.events@.take(e0.len() as int) =~= e0);
                    assert(self.events@.skip(e0.len() as int) =~= seq![event]);
                    if result is Ok {
                        assert(call_ensures(fetch, (id_str, asset_id), (Ok::<u64, String>(result->Ok_0), latency)));
                    } else {
                        assert(call_ensures(fetch, (id_str, asset_id), (Err::<u64, String>(result->Err_0), latency)));
                    }
                }
                return match result {
                    Ok(price) => Ok(price),
                    Err(_) => {
                        let mut evs: Vec<FailoverEvent> = Vec::new();
                        evs.push(event);
                        Err(evs)
                    },
                };
            },
            None => {},
        }
        let candidates: Vec<AdapterPriority> = self.adapters.clone();
        proof {
            assert(candidates@ =~= self.adapters@);
        }
        let ghost c = candidates@;
        let ghost h0 = self.health@;
        let mut failed: Vec<FailoverEvent> = Vec::new();
        let mut i: usize = 0;
        while i < candidates.len()
            invariant
                c == candidates@,
                c == old(self).adapters@,
                self.adapters@ == old(self).adapters@,
                self.manual_override == old(self).manual_override,
                old(self).manual_override is None,
                sorted_priority(c),
                ids_distinct(c),
                self.health.wf(),
                i <= c.len(),
                forall|x: &str, y: &str| #[trigger] fetch.requires((x, y)),
                forall|a: Seq<char>|
                    #[trigger] self.health@.dom().contains(a) && !in_chain(c.take(i as int), a) ==> self.health@[a].total_requests
                        < u64::MAX && self.health@[a].successful_requests < u64::MAX,
                e0 == old(self).events@,
                self.events@.len() >= e0.len(),
                self.events@.take(e0.len() as int) == e0,
                i > 0 ==> self.events@.len() > e0.len(),
                forall|j: int| 0 <= j < failed@.len() ==> !(#[trigger] failed@[j]).succeeded,
                self.events@ == e0 + failed@,
                failed@.len() == i,
                forall|j: int| 0 <= j < i ==> #[trigger] failed_step(failed@[j], c[j], old(self).health@, asset_id, now_ts, fetch),
                h0 == old(self).health@,
                forall|a: Seq<char>|
                    #![trigger in_chain(c.take(i as int), a)]
                    !in_chain(c.take(i as int), a) ==> (self.health@.dom().contains(a) == h0.dom().contains(a)) && (
                    h0.dom().contains(a) ==> self.health@[a] == h0[a]),
            decreases c.len() - i,
        {
            let ghost ev_before = self.events@;
            let ghost h_before = self.health@;
            let ghost t0 = c.take(i as int);
            let ghost t1 = c.take(i + 1);
            proof {
                assert forall|a: Seq<char>| in_chain(t1, a) implies in_chain(t0, a) || a == c[i as int].adapter_id@ by {
                    let j = choose|j: int| 0 <= j < t1.len() && t1[j].adapter_id@ == a;
                    if j < i {
                        assert(t0[j] == c[j]);
                        assert(t1[j] == c[j]);
                    }
                }
                assert forall|a: Seq<char>| in_chain(t0, a) implies a != c[i as int].adapter_id@ && in_chain(t1, a) by {
                    let j = choose|j: int| 0 <= j < t0.len() && t0[j].adapter_id@ == a;
                    assert(t0[j] == c[j]);
                    assert(t1[j] == c[j]);
                }
                assert(t1[i as int] == c[i as int]);
                assert(in_chain(t1, c[i as int].adapter_id@));
            }
            let adapter = &candidates[i];
            if !adapter.enabled {
                let ev = FailoverEvent {
                    asset_id: String::from_str(asset_id),
                    adapter_id: adapter.adapter_id.clone(),
                    succeeded: false,
                    reason: Some(FailoverReason::Disabled),
                    timestamp: now_ts,
                };
                self.events.push(ev.clone());
                failed.push(ev);
                proof {
                    assert(failed_step(ev, c[i as int], old(self).health@, asset_id, now_ts, fetch));
                    assert(self.events@ =~= e0 + failed@);
                }
            } else {
                let is_healthy = match self.health.get(adapter.adapter_id.as_str()) {
                    Some(h) => h.is_healthy,
                    None => true,
                };
                if !is_healthy {
                    let ev = FailoverEvent {
                        asset_id: String::from_str(asset_id),
                        adapter_id: adapter.adapter_id.clone(),
                        succeeded: false,
                        reason: Some(FailoverReason::UnhealthyAdapter),
                        timestamp: now_ts,
                    };
                    self.events.push(ev.clone());
                    failed.push(ev);
                    proof {
                        assert(!in_chain(c.take(i as int), c[i as int].adapter_id@));
                        assert(failed_step(ev, c[i as int], old(self).health@, asset_id, now_ts, fetch));
                        assert(self.events@ =~= e0 + failed@);
                    }
                } else {
                    proof {
                        assert(!in_chain(c.take(i as int), c[i as int].adapter_id@));
                        assert(gate_reason(c[i as int], old(self).health@) is None);
                    }
                    let id_str = adapter.adapter_id.as_str();
                    let (result, latency) = fetch(id_str, asset_id);
                    let success = result.is_ok();
                    proof {
                        if h_before.dom().contains(c[i as int].adapter_id@) {
                            assert(!in_chain(c.take(i as int), c[i as int].adapter_id@));
                        }
                    }
                    self.health.record(adapter.adapter_id.as_str(), latency, success, 0, now_ts);
                    let ev = FailoverEvent {
                        asset_id: String::from_str(asset_id),
                        adapter_id: adapter.adapter_id.clone(),
                        succeeded: success,
                        reason: if success { None } else { Some(FailoverReason::AdapterError) },
                        timestamp: now_ts,
                    };
                    self.events.push(ev.clone());
                    if success {
                        proof {
                            assert(self.events@.take(e0.len() as int) =~= e0);
                            assert(self.events@.skip(e0.len() as int) =~= failed@.push(ev));
                            let p = result->Ok_0;
                            assert(call_ensures(fetch, (id_str, asset_id), (Ok::<u64, String>(p), latency)));
                            assert(answered_step(ev, c[i as int].adapter_id@, asset_id, now_ts, fetch, p));
                            let nw = failed@.push(ev);
                            assert forall|j: int| 0 <= j < nw.len() - 1 implies #[trigger] failed_step(nw[j], c[j], old(self).health@, asset_id, now_ts, fetch) by {
                                assert(nw[j] == failed@[j]);
                            }
                        }
                        self.auto_demote_unhealthy();
                        proof {
                            assert(only_disabled(old(self).chain(), self.chain()));
                        }
                        return match result {
                            Ok(price) => Ok(price),
                            Err(_) => Err(failed),
                        };
                    }
                    proof {
                        let e = result->Err_0;
                        assert(call_ensures(fetch, (id_str, asset_id), (Err::<u64, String>(e), latency)));
                        assert(failed_step(ev, c[i as int], old(self).health@, asset_id, now_ts, fetch));
                    }
                    failed.push(ev);
                    proof {
                        assert(self.events@ =~= e0 + failed@);
                    }
                }
            }
            proof {
                assert forall|j: int| 0 <= j < i + 1 implies #[trigger] failed_step(failed@[j], c[j], old(self).health@, asset_id, now_ts, fetch) by {
                }
                assert forall|a: Seq<char>| #![trigger in_chain(t1, a)] !in_chain(t1, a) implies (self.health@.dom().contains(a) == h0.dom().contains(a))
                        && (h0.dom().contains(a) ==> self.health@[a] == h0[a]) by {
                    assert(!in_chain(t0, a));
                    assert(a != c[i as int].adapter_id@);
                    assert(h_before.dom().contains(a) == h0.dom().contains(a));
                    assert(self.health@.dom().contains(a) == h_before.dom().contains(a));
                    if h_before.dom().contains(a) {
                        assert(self.health@[a] == h_before[a]);
                    }
                }
                assert(self.events@.take(e0.len() as int) =~= ev_before.take(e0.len() as int));
                assert forall|a: Seq<char>|
                    #[trigger] self.health@.dom().contains(a) && !in_chain(t1, a) implies self.health@[a].total_requests
                        < u64::MAX && self.health@[a].successful_requests < u64::MAX by {
                    assert(!in_chain(t0, a));
                    assert(a != c[i as int].adapter_id@);
                    assert(h_before.dom().contains(a));
                    assert(self.health@[a] == h_before[a]);
                }
            }
            i = i + 1;
        }
        proof {
            assert(self.chain() == old(self).chain());
            assert(self.events@.skip(e0.len() as int) =~= failed@);
        }
        Err(failed)
    }
}

impl FailoverEngine {
    /// Record a request outcome of an adapter in the health counters.
    pub fn record_health(&mut self, adapter_id: &str, latency_ms: u64, success: bool, deviation_bps: u32, now_ts: u64)
        requires
            old(self).wf(),
            old(self).health_view().dom().contains(adapter_id@) ==> record_fits(
                old(self).health_view()[adapter_id@],
                success,
                deviation_bps,
            ),
        ensures
            final(self).wf(),
            final(self).chain() == old(self).chain(),
            final(self).override_id() == old(self).override_id(),
            final(self).event_log() == old(self).event_log(),
            final(self).health_view().dom() == old(self).health_view().dom().insert(adapter_id@),
            forall|a: Seq<char>| #[trigger] old(self).health_view().dom().contains(a) && a != adapter_id@ ==> final(self).health_view()[a]
                == old(self).health_view()[a],
            exists|h0: AdapterHealth|
                #[trigger] request_recorded(h0, final(self).health_view()[adapter_id@], latency_ms, success, deviation_bps, now_ts)
                    && (if old(self).health_view().dom().contains(adapter_id@) {
                    h0 == old(self).health_view()[adapter_id@]
                } else {
                    fresh_health(h0, adapter_id@)
                }),
    {
        let ghost m0 = self.health@;
        self.health.record(adapter_id, latency_ms, success, deviation_bps, now_ts);
        proof {
            let hb = choose|hb: AdapterHealth|
                #[trigger] request_recorded(hb, self.health@[adapter_id@], latency_ms, success, deviation_bps, now_ts) && (if m0.dom().contains(
                    adapter_id@,
                ) {
                    hb == m0[adapter_id@]
                } else {
                    fresh_health(hb, adapter_id@)
                });
            assert(request_recorded(hb, self.health_view()[adapter_id@], latency_ms, success, deviation_bps, now_ts));
        }
    }

    /// The health counters of the adapters.
    pub fn health_monitor(&self) -> (r: &HealthMonitor)
        ensures
            r@ == self.health_view(),
    {
        &self.health
    }

    /// Whether the health gate lets an adapter through: unknown adapters pass.
    pub fn is_healthy(&self, adapter_id: &str) -> (r: bool)
        requires
            self.wf(),
        ensures
            r == (!self.health_view().dom().contains(adapter_id@) || self.health_view()[adapter_id@].is_healthy),
    {
        match self.health.get(adapter_id) {
            Some(h) => h.is_healthy,
            None => true,
        }
    }
}

} // verus!
