//! Multi-oracle coordination: collects prices from every healthy oracle of the
//! failover chain, takes the median, drops outliers and forms a consensus.

use vstd::prelude::*;
use crate::anomaly::{lemma_sorted_len, price_leq, sorted_prices};
use crate::failover::{
    counters_fit, fresh_entry, fresh_health, is_split_le, without_id, ids_distinct, record_fits, request_recorded, AdapterHealth, AdapterPriority, FailoverEngine, FailoverEvent,
    HealthMonitor, MAX_ACCEPTABLE_DEVIATION_BPS,
};
use crate::numeric::{abs_deviation_bps, deviation_bps_spec};

verus! {

/// The system clock's time.
#[verifier::external_type_specification]
#[verifier::external_body]
pub struct ExSystemTime(std::time::SystemTime);

/// The error of a time before the Unix epoch.
#[verifier::external_type_specification]
#[verifier::external_body]
pub struct ExSystemTimeError(std::time::SystemTimeError);

/// Calls `std::time::SystemTime::now`: the current time of the system clock.
/// Nothing is promised of it; it depends on the machine's clock.
#[verifier::external_body]
fn system_time_now() -> (r: std::time::SystemTime) {
    std::time::SystemTime::now()
}

/// Calls `std::time::SystemTime::duration_since` with the Unix epoch: the time
/// elapsed since the epoch, or an error when `t` is earlier.  Nothing more is
/// promised.
#[verifier::external_body]
fn elapsed_since_epoch(t: &std::time::SystemTime) -> (r: Result<std::time::Duration, std::time::SystemTimeError>) {
    t.duration_since(std::time::UNIX_EPOCH)
}

/// Calls `std::time::Duration::as_secs`: the whole seconds of `d`.  Nothing is
/// promised of the number, as `Duration` is opaque here.
#[verifier::external_body]
fn whole_seconds(d: &std::time::Duration) -> (r: u64) {
    d.as_secs()
}

/// Seconds since the Unix epoch, read from the system clock (0 when the clock is
/// before the epoch).
pub fn unix_now() -> (r: u64) {
    let t = system_time_now();
    match elapsed_since_epoch(&t) {
        Ok(d) => whole_seconds(&d),
        Err(_) => 0,
    }
}

/// Parameters of the coordinator.
#[derive(Clone, Copy, Debug, PartialEq, Eq, Structural)]
pub struct CoordinatorConfig {
    /// Smallest number of agreeing oracles for a consensus.
    pub min_quorum: usize,
    /// Largest deviation from the median (basis points) of a price kept in the consensus.
    pub max_deviation_bps: u32,
    /// Skip unhealthy oracles.
    pub strict_health_gate: bool,
    /// Time after which an oracle attempt counts as failed (milliseconds).
    pub timeout_ms: u64,
}

/// The default parameters: quorum of 2, 2% deviation, lenient health gate, 3 s timeout.
pub open spec fn default_coordinator_config() -> CoordinatorConfig {
    CoordinatorConfig { min_quorum: 2, max_deviation_bps: 200, strict_health_gate: false, timeout_ms: 3_000 }
}

impl Default for CoordinatorConfig {
    fn default() -> (r: Self)
        ensures
            r == default_coordinator_config(),
    {
        CoordinatorConfig {
            min_quorum: 2,
            max_deviation_bps: MAX_ACCEPTABLE_DEVIATION_BPS,
            strict_health_gate: false,
            timeout_ms: 3_000,
        }
    }
}

/// What one oracle contributed to a round.
#[derive(Debug, PartialEq, Eq)]
pub struct OracleContribution {
    /// The oracle.
    pub oracle_id: String,
    /// Its price, if it answered.
    pub price: Option<u64>,
    /// Whether the price is part of the consensus.
    pub included: bool,
    /// Deviation from the median of the answers (basis points).
    pub deviation_bps: u32,
    /// Round-trip time (milliseconds).
    pub latency_ms: u64,
}

impl Clone for OracleContribution {
    fn clone(&self) -> (r: Self)
        ensures
            r == *self,
    {
        OracleContribution {
            oracle_id: self.oracle_id.clone(),
            price: self.price,
            included: self.included,
            deviation_bps: self.deviation_bps,
            latency_ms: self.latency_ms,
        }
    }
}

/// The consensus of a round.
#[derive(Debug)]
pub struct ConsensusResult {
    /// Asset priced.
    pub asset_id: String,
    /// Median of the kept prices.
    pub consensus_price: Option<u64>,
    /// What each oracle contributed.
    pub contributions: Vec<OracleContribution>,
    /// Whether enough oracles agreed.
    pub quorum_reached: bool,
    /// Number of oracles that answered.
    pub responses: usize,
    /// Number of answers dropped as outliers.
    pub excluded: usize,
    /// Time of the round.
    pub timestamp: u64,
}

/// Why a round failed.
#[derive(Clone, Copy, Debug, PartialEq, Eq, Structural)]
pub enum CoordinatorError {
    /// Too few oracles answered or agreed.
    QuorumNotMet { responses: usize, required: usize },
    /// No oracle is registered.
    NoOracles,
}

/// What happened in a round.
#[derive(Debug, PartialEq, Eq)]
pub enum CoordinationEventType {
    ConsensusReached,
    QuorumFailed,
    OracleExcluded { oracle_id: String, deviation_bps: u32 },
    OracleFailedOver { from: String, to: String },
    ManualOverrideApplied { oracle_id: String },
}

/// A coordination event.
#[derive(Debug)]
pub struct CoordinationEvent {
    pub asset_id: String,
    pub event_type: CoordinationEventType,
    pub timestamp: u64,
}

/// The answered prices, in chain order.
pub open spec fn valid_prices(cs: Seq<OracleContribution>) -> Seq<u64>
    decreases cs.len(),
{
    if cs.len() == 0 {
        Seq::empty()
    } else {
        let prev = valid_prices(cs.drop_last());
        match cs.last().price {
            Some(p) => prev.push(p),
            None => prev,
        }
    }
}

/// The median of a non-empty sequence: the middle element in ascending order (the
/// upper one of the two middle elements for an even count).
pub open spec fn median_of(s: Seq<u64>) -> u64 {
    s.sort_by(price_leq())[(s.len() / 2) as int]
}

/// Deviation of `p` from the median, in basis points, truncated to `u32`.
pub open spec fn median_deviation(p: u64, med: u64) -> u32 {
    deviation_bps_spec(p as int, med as int) as u32
}

/// A contribution after the outlier check against the median.
pub open spec fn settled(c: OracleContribution, med: u64, max_dev: u32) -> OracleContribution {
    match c.price {
        Some(p) => OracleContribution {
            deviation_bps: median_deviation(p, med),
            included: median_deviation(p, med) <= max_dev,
            ..c
        },
        None => c,
    }
}

/// The answered prices within `max_dev` of the median, in chain order.
pub open spec fn kept_prices(cs: Seq<OracleContribution>, med: u64, max_dev: u32) -> Seq<u64>
    decreases cs.len(),
{
    if cs.len() == 0 {
        Seq::empty()
    } else {
        let prev = kept_prices(cs.drop_last(), med, max_dev);
        match cs.last().price {
            Some(p) => if median_deviation(p, med) <= max_dev { prev.push(p) } else { prev },
            None => prev,
        }
    }
}

/// Number of answered prices farther than `max_dev` from the median.
pub open spec fn dropped_count(cs: Seq<OracleContribution>, med: u64, max_dev: u32) -> nat
    decreases cs.len(),
{
    if cs.len() == 0 {
        0
    } else {
        let prev = dropped_count(cs.drop_last(), med, max_dev);
        match cs.last().price {
            Some(p) => if median_deviation(p, med) <= max_dev { prev } else { prev + 1 },
            None => prev,
        }
    }
}

/// The result of a round over the contributions `cs`: with too few answers (or
/// none at all) the quorum fails; otherwise answers farther than the allowed deviation from their
/// median are dropped, and the median of the rest is the consensus when enough of
/// them remain.
pub open spec fn consensus_outcome(
    asset: Seq<char>,
    now: u64,
    cfg: CoordinatorConfig,
    cs: Seq<OracleContribution>,
    r: Result<ConsensusResult, CoordinatorError>,
) -> bool {
    let valid = valid_prices(cs);
    if valid.len() < cfg.min_quorum || valid.len() == 0 {
        r == Err::<ConsensusResult, CoordinatorError>(
            CoordinatorError::QuorumNotMet { responses: valid.len() as usize, required: cfg.min_quorum },
        )
    } else {
        let med = median_of(valid);
        let kept = kept_prices(cs, med, cfg.max_deviation_bps);
        if kept.len() >= cfg.min_quorum {
            r matches Ok(res) && res.asset_id@ == asset && res.consensus_price == (if kept.len() == 0 {
                None
            } else {
                Some(median_of(kept))
            }) && res.contributions@ == cs.map_values(|c: OracleContribution| settled(c, med, cfg.max_deviation_bps))
                && res.quorum_reached && res.responses == valid.len() && res.excluded == dropped_count(
                cs,
                med,
                cfg.max_deviation_bps,
            ) && res.timestamp == now
        } else {
            r == Err::<ConsensusResult, CoordinatorError>(
                CoordinatorError::QuorumNotMet { responses: kept.len() as usize, required: cfg.min_quorum },
            )
        }
    }
}

proof fn lemma_valid_prices_len(cs: Seq<OracleContribution>)
    ensures
        valid_prices(cs).len() <= cs.len(),
        kept_prices(cs, 0, 0).len() <= cs.len(),
    decreases cs.len(),
{
    if cs.len() > 0 {
        lemma_valid_prices_len(cs.drop_last());
    }
}

proof fn lemma_kept_len(cs: Seq<OracleContribution>, med: u64, max_dev: u32)
    ensures
        kept_prices(cs, med, max_dev).len() + dropped_count(cs, med, max_dev) == valid_prices(cs).len(),
    decreases cs.len(),
{
    if cs.len() > 0 {
        lemma_kept_len(cs.drop_last(), med, max_dev);
    }
}

/// The answered prices of the contributions.
fn answered_prices(cs: &Vec<OracleContribution>) -> (r: Vec<u64>)
    ensures
        r@ == valid_prices(cs@),
{
    let mut out: Vec<u64> = Vec::new();
    let mut i: usize = 0;
    while i < cs.len()
        invariant
            i <= cs@.len(),
            out@ == valid_prices(cs@.take(i as int)),
        decreases cs@.len() - i,
    {
        proof {
            assert(cs@.take(i + 1).drop_last() =~= cs@.take(i as int));
        }
        match cs[i].price {
            Some(p) => out.push(p),
            None => {},
        }
        i = i + 1;
    }
    proof {
        assert(cs@.take(cs@.len() as int) =~= cs@);
    }
    out
}

/// The median of a non-empty sequence of prices.
fn median(s: &Vec<u64>) -> (r: u64)
    requires
        s@.len() > 0,
    ensures
        r == median_of(s@),
{
    let sorted = sorted_prices(s.as_slice());
    proof {
        lemma_sorted_len(s@);
    }
    sorted[sorted.len() / 2]
}

/// Coordinates a multi-oracle price round over a failover chain.
pub struct OracleFailoverCoordinator {
    /// The failover chain with its health counters.
    pub engine: FailoverEngine,
    config: CoordinatorConfig,
    events: Vec<CoordinationEvent>,
}

impl OracleFailoverCoordinator {
    /// The coordinator's parameters.
    pub closed spec fn spec_config(&self) -> CoordinatorConfig {
        self.config
    }

    /// The failover chain.
    pub closed spec fn chain_engine(&self) -> FailoverEngine {
        self.engine
    }

    /// The coordination events, oldest first.
    pub closed spec fn event_log(&self) -> Seq<CoordinationEvent> {
        self.events@
    }

    /// A coordinator with the default parameters and no oracles.
    pub fn new() -> (r: Self)
        ensures
            r.chain_engine().wf(),
            r.chain_engine().chain().len() == 0,
            r.spec_config() == default_coordinator_config(),
            r.event_log().len() == 0,
    {
        Self::with_config(CoordinatorConfig::default())
    }

    /// A coordinator with the given parameters and no oracles.
    pub fn with_config(config: CoordinatorConfig) -> (r: Self)
        ensures
            r.chain_engine().wf(),
            r.chain_engine().chain().len() == 0,
            r.chain_engine().override_id() is None,
            r.spec_config() == config,
            r.event_log().len() == 0,
    {
        OracleFailoverCoordinator { engine: FailoverEngine::new(), config, events: Vec::new() }
    }

    /// The coordinator's parameters.
    pub fn config(&self) -> (r: &CoordinatorConfig)
        ensures
            *r == self.spec_config(),
    {
        &self.config
    }

    /// The health counters of the oracles.
    pub fn health(&self) -> (r: &HealthMonitor)
        ensures
            r@ == self.chain_engine().health_view(),
    {
        self.engine.health_monitor()
    }
}

/// Every adapter's counters can take `k` more requests, each with a deviation of
/// up to `u32::MAX`.
pub open spec fn health_budget(m: Map<Seq<char>, AdapterHealth>, k: int) -> bool {
    &&& 0 <= k
    &&& k * (u32::MAX as int) <= u64::MAX
    &&& forall|a: Seq<char>|
        #[trigger] m.dom().contains(a) ==> m[a].total_requests + k < u64::MAX && m[a].successful_requests + k < u64::MAX
            && m[a].total_deviation_bps + k * (u32::MAX as int) <= u64::MAX
}

/// Whether the health gate lets oracle `id` through: with a strict gate only
/// oracles whose counters say healthy, or that have no counters yet, are asked.
pub open spec fn passes_gate(h: Map<Seq<char>, AdapterHealth>, id: Seq<char>, strict: bool) -> bool {
    !strict || !h.dom().contains(id) || h[id].is_healthy
}

/// `fetch` was called with oracle `id` and `asset` and answered `price` (none on
/// an error) after `latency` milliseconds.
pub open spec fn fetched<F: Fn(&str, &str) -> (Result<u64, String>, u64)>(
    fetch: F,
    id: Seq<char>,
    asset: &str,
    price: Option<u64>,
    latency: u64,
) -> bool {
    exists|x: &str, out: (Result<u64, String>, u64)|
        #[trigger] call_ensures(fetch, (x, asset), out) && x@ == id && out.1 == latency && price == match out.0 {
            Ok(p) => Some(p),
            Err(_) => None::<u64>,
        }
}

/// The contribution `c` of chain entry `a` before the outlier check: an enabled
/// oracle that passes the health gate is asked, any other contributes nothing.
pub open spec fn gathered_entry<F: Fn(&str, &str) -> (Result<u64, String>, u64)>(
    c: OracleContribution,
    a: AdapterPriority,
    h: Map<Seq<char>, AdapterHealth>,
    strict: bool,
    fetch: F,
    asset: &str,
) -> bool {
    &&& c.oracle_id@ == a.adapter_id@
    &&& c.deviation_bps == 0
    &&& c.included == c.price is Some
    &&& if a.enabled && passes_gate(h, a.adapter_id@, strict) {
        fetched(fetch, a.adapter_id@, asset, c.price, c.latency_ms)
    } else {
        c.price is None && c.latency_ms == 0
    }
}

/// The contributions of a round over the chain `chain`, one per oracle in chain
/// order, given the health counters `h` at the start of the round.
pub open spec fn gathered<F: Fn(&str, &str) -> (Result<u64, String>, u64)>(
    cs: Seq<OracleContribution>,
    chain: Seq<AdapterPriority>,
    h: Map<Seq<char>, AdapterHealth>,
    strict: bool,
    fetch: F,
    asset: &str,
) -> bool {
    &&& cs.len() == chain.len()
    &&& forall|i: int| 0 <= i < cs.len() ==> gathered_entry(#[trigger] cs[i], chain[i], h, strict, fetch, asset)
}

/// The outcome of a round under a manual override `o`: the one oracle is asked;
/// its answer is the consensus, and an error fails the quorum of one.
pub open spec fn override_round<F: Fn(&str, &str) -> (Result<u64, String>, u64)>(
    fetch: F,
    o: Seq<char>,
    asset: &str,
    now: u64,
    r: Result<ConsensusResult, CoordinatorError>,
) -> bool {
    exists|x: &str, out: (Result<u64, String>, u64)|
        #[trigger] call_ensures(fetch, (x, asset), out) && x@ == o && match out.0 {
            Ok(p) => r matches Ok(res) && res.asset_id@ == asset@ && res.consensus_price == Some(p)
                && res.contributions@.len() == 1 && res.contributions@[0].oracle_id@ == o
                && res.contributions@[0].price == Some(p) && res.contributions@[0].included
                && res.contributions@[0].deviation_bps == 0 && res.contributions@[0].latency_ms == out.1
                && res.quorum_reached && res.responses == 1 && res.excluded == 0 && res.timestamp == now,
            Err(_) => r == Err::<ConsensusResult, CoordinatorError>(
                CoordinatorError::QuorumNotMet { responses: 0, required: 1 },
            ),
        }
}

/// The outcome of a round over the whole chain: the contributions gathered from
/// the oracles settle into `r`.
pub open spec fn chain_round<F: Fn(&str, &str) -> (Result<u64, String>, u64)>(
    chain: Seq<AdapterPriority>,
    h: Map<Seq<char>, AdapterHealth>,
    cfg: CoordinatorConfig,
    fetch: F,
    asset: &str,
    now: u64,
    r: Result<ConsensusResult, CoordinatorError>,
) -> bool {
    exists|cs: Seq<OracleContribution>|
        #[trigger] gathered(cs, chain, h, cfg.strict_health_gate, fetch, asset) && consensus_outcome(asset@, now, cfg, cs, r)
}

/// Recording one request in the counters `h0` (giving `h1`) uses up one unit of
/// the budget.
proof fn lemma_budget_after_record(
    h0: Map<Seq<char>, AdapterHealth>,
    h1: Map<Seq<char>, AdapterHealth>,
    id: Seq<char>,
    hb: AdapterHealth,
    latency: u64,
    success: bool,
    dev: u32,
    now: u64,
    k: int,
)
    requires
        health_budget(h0, k),
        k >= 1,
        h1.dom() == h0.dom().insert(id),
        forall|a: Seq<char>| #[trigger] h0.dom().contains(a) && a != id ==> h1[a] == h0[a],
        request_recorded(hb, h1[id], latency, success, dev, now),
        if h0.dom().contains(id) {
            hb == h0[id]
        } else {
            fresh_health(hb, id)
        },
    ensures
        health_budget(h1, k - 1),
{
    assert forall|a: Seq<char>| #[trigger] h1.dom().contains(a) implies h1[a].total_requests + (k - 1) < u64::MAX
        && h1[a].successful_requests + (k - 1) < u64::MAX && h1[a].total_deviation_bps + (k - 1) * (u32::MAX as int)
        <= u64::MAX by {
        if a != id {
            assert(h0.dom().contains(a));
        } else if h0.dom().contains(id) {
            assert(h0.dom().contains(id));
        }
    }
}

impl OracleFailoverCoordinator {
    /// Settle a round over collected contributions: check the quorum, take the
    /// median of the answers, drop the outliers (recording them in the health
    /// counters and the event log) and form the consensus.
    fn settle_round(&mut self, asset_id: &str, now_ts: u64, contributions: Vec<OracleContribution>) -> (r: Result<
        ConsensusResult,
        CoordinatorError,
    >)
        requires
            old(self).engine.wf(),
            health_budget(old(self).engine.health_view(), contributions@.len() as int),
        ensures
            final(self).engine.wf(),
            final(self).engine.chain() == old(self).engine.chain(),
            final(self).engine.override_id() == old(self).engine.override_id(),
            final(self).config == old(self).config,
            final(self).events@.len() > old(self).events@.len(),
            final(self).events@.take(old(self).events@.len() as int) == old(self).events@,
            consensus_outcome(asset_id@, now_ts, old(self).config, contributions@, r),
    {
        let ghost ev0 = self.events@;
        let min_quorum = self.config.min_quorum;
        let max_dev = self.config.max_deviation_bps;
        let valid = answered_prices(&contributions);
        if valid.len() < min_quorum || valid.len() == 0 {
            self.events.push(
                CoordinationEvent {
                    asset_id: String::from_str(asset_id),
                    event_type: CoordinationEventType::QuorumFailed,
                    timestamp: now_ts,
                },
            );
            proof {
                assert(self.events@.take(ev0.len() as int) =~= ev0);
            }
            return Err(CoordinatorError::QuorumNotMet { responses: valid.len(), required: min_quorum });
        }
        let med = median(&valid);
        let ghost cs = contributions@;
        let n = contributions.len();
        let mut settled_cs: Vec<OracleContribution> = Vec::new();
        let mut kept: Vec<u64> = Vec::new();
        let mut excluded: usize = 0;
        let mut j: usize = 0;
        while j < n
            invariant
                n == cs.len(),
                cs == contributions@,
                j <= n,
                self.engine.wf(),
                self.engine.chain() == old(self).engine.chain(),
                self.engine.override_id() == old(self).engine.override_id(),
                self.config == old(self).config,
                max_dev == self.config.max_deviation_bps,
                health_budget(self.engine.health_view(), (n - j) as int),
                settled_cs@ == cs.take(j as int).map_values(|c: OracleContribution| settled(c, med, max_dev)),
                kept@ == kept_prices(cs.take(j as int), med, max_dev),
                excluded == dropped_count(cs.take(j as int), med, max_dev),
                excluded <= j,
                self.events@.len() >= ev0.len(),
                self.events@.take(ev0.len() as int) == ev0,
            decreases n - j,
        {
            let ghost t1 = cs.take(j + 1);
            proof {
                assert(t1.drop_last() =~= cs.take(j as int));
                assert(t1.last() == cs[j as int]);
            }
            let c = contributions[j].clone();
            let ghost ev_before = self.events@;
            match c.price {
                Some(p) => {
                    let dev = abs_deviation_bps(p, med);
                    if dev <= max_dev {
                        kept.push(p);
                        settled_cs.push(
                            OracleContribution {
                                oracle_id: c.oracle_id,
                                price: c.price,
                                included: true,
                                deviation_bps: dev,
                                latency_ms: c.latency_ms,
                            },
                        );
                    } else {
                        excluded = excluded + 1;
                        self.events.push(
                            CoordinationEvent {
                                asset_id: String::from_str(asset_id),
                                event_type: CoordinationEventType::OracleExcluded {
                                    oracle_id: c.oracle_id.clone(),
                                    deviation_bps: dev,
                                },
                                timestamp: now_ts,
                            },
                        );
                        let ghost h0 = self.engine.health_view();
                        self.engine.record_health(c.oracle_id.as_str(), c.latency_ms, true, dev, now_ts);
                        proof {
                            let h1 = self.engine.health_view();
                            let id = c.oracle_id@;
                            let hb = choose|hb: AdapterHealth|
                                #[trigger] request_recorded(hb, h1[id], c.latency_ms, true, dev, now_ts) && (if h0.dom().contains(
                                    id,
                                ) {
                                    hb == h0[id]
                                } else {
                                    fresh_health(hb, id)
                                });
                            lemma_budget_after_record(h0, h1, id, hb, c.latency_ms, true, dev, now_ts, (n - j) as int);
                        }
                        settled_cs.push(
                            OracleContribution {
                                oracle_id: c.oracle_id,
                                price: c.price,
                                included: false,
                                deviation_bps: dev,
                                latency_ms: c.latency_ms,
                            },
                        );
                    }
                },
                None => {
                    settled_cs.push(c);
                },
            }
            proof {
                assert(settled_cs@ =~= t1.map_values(|c: OracleContribution| settled(c, med, max_dev)));
                assert(self.events@.take(ev0.len() as int) =~= ev_before.take(ev0.len() as int));
            }
            j = j + 1;
        }
        proof {
            assert(cs.take(n as int) =~= cs);
            lemma_kept_len(cs, med, max_dev);
        }
        let consensus_price = if kept.len() == 0 { None } else { Some(median(&kept)) };
        let quorum_reached = kept.len() >= min_quorum;
        let ghost ev_mid = self.events@;
        self.events.push(
            CoordinationEvent {
                asset_id: String::from_str(asset_id),
                event_type: if quorum_reached {
                    CoordinationEventType::ConsensusReached
                } else {
                    CoordinationEventType::QuorumFailed
                },
                timestamp: now_ts,
            },
        );
        proof {
            assert(self.events@.take(ev0.len() as int) =~= ev_mid.take(ev0.len() as int));
        }
        if quorum_reached {
            Ok(
                ConsensusResult {
                    asset_id: String::from_str(asset_id),
                    consensus_price,
                    contributions: settled_cs,
                    quorum_reached: true,
                    responses: valid.len(),
                    excluded,
                    timestamp: now_ts,
                },
            )
        } else {
            Err(CoordinatorError::QuorumNotMet { responses: kept.len(), required: min_quorum })
        }
    }
}


impl OracleFailoverCoordinator {
    /// Run a consensus round for `asset_id`.
    ///
    /// `fetch` is called with an oracle and the asset and answers a price or an
    /// error, with its latency.  Without oracles the round fails at once.  Under a
    /// manual override only that oracle is asked.  Otherwise every enabled oracle
    /// that passes the health gate is asked in chain order, each attempt recorded
    /// in the health counters, and the answers settle into a consensus.
    pub fn fetch_consensus<F: Fn(&str, &str) -> (Result<u64, String>, u64)>(
        &mut self,
        asset_id: &str,
        now_ts: u64,
        fetch: F,
    ) -> (r: Result<ConsensusResult, CoordinatorError>)
        requires
            old(self).chain_engine().wf(),
            health_budget(old(self).chain_engine().health_view(), 2 * old(self).chain_engine().chain().len() as int),
            forall|x: &str, y: &str| #[trigger] fetch.requires((x, y)),
        ensures
            final(self).chain_engine().wf(),
            final(self).chain_engine().chain() == old(self).chain_engine().chain(),
            final(self).chain_engine().override_id() == old(self).chain_engine().override_id(),
            final(self).spec_config() == old(self).spec_config(),
            final(self).event_log().take(old(self).event_log().len() as int) == old(self).event_log(),
            old(self).chain_engine().chain().len() == 0 ==> r == Err::<ConsensusResult, CoordinatorError>(
                CoordinatorError::NoOracles,
            ) && final(self).event_log() == old(self).event_log(),
            old(self).chain_engine().chain().len() > 0 ==> match old(self).chain_engine().override_id() {
                Some(o) => override_round(fetch, o, asset_id, now_ts, r),
                None => chain_round(
                    old(self).chain_engine().chain(),
                    old(self).chain_engine().health_view(),
                    old(self).spec_config(),
                    fetch,
                    asset_id,
                    now_ts,
                    r,
                ),
            },
    {
        let ghost h_start = self.engine.health_view();
        let ghost chain = self.engine.chain();
        let ghost ev0 = self.events@;
        let chain_ref = self.engine.adapters();
        let mut oracles: Vec<AdapterPriority> = Vec::new();
        let mut j: usize = 0;
        while j < chain_ref.len()
            invariant
                j <= chain_ref@.len(),
                chain_ref@ == chain,
                oracles@ == chain.take(j as int),
            decreases chain_ref@.len() - j,
        {
            oracles.push(chain_ref[j].clone());
            proof {
                assert(oracles@ =~= chain.take(j + 1));
            }
            j = j + 1;
        }
        proof {
            assert(oracles@ =~= chain);
            self.engine.lemma_chain_ordered();
        }
        if oracles.len() == 0 {
            return Err(CoordinatorError::NoOracles);
        }
        let n = oracles.len();
        match self.engine.manual_override() {
            Some(o) => {
                let override_id = String::from_str(o);
                let (result, latency) = fetch(override_id.as_str(), asset_id);
                let success = result.is_ok();
                proof {
                    if h_start.dom().contains(override_id@) {
                        assert(h_start.dom().contains(override_id@));
                    }
                }
                self.engine.record_health(override_id.as_str(), latency, success, 0, now_ts);
                let price: Option<u64> = match result {
                    Ok(p) => Some(p),
                    Err(_) => None,
                };
                let quorum = price.is_some();
                self.events.push(
                    CoordinationEvent {
                        asset_id: String::from_str(asset_id),
                        event_type: if quorum {
                            CoordinationEventType::ConsensusReached
                        } else {
                            CoordinationEventType::QuorumFailed
                        },
                        timestamp: now_ts,
                    },
                );
                proof {
                    assert(self.events@.take(ev0.len() as int) =~= ev0);
                }
                if quorum {
                    let mut contributions: Vec<OracleContribution> = Vec::new();
                    contributions.push(
                        OracleContribution {
                            oracle_id: override_id,
                            price,
                            included: true,
                            deviation_bps: 0,
                            latency_ms: latency,
                        },
                    );
                    return Ok(
                        ConsensusResult {
                            asset_id: String::from_str(asset_id),
                            consensus_price: price,
                            contributions,
                            quorum_reached: true,
                            responses: 1,
                            excluded: 0,
                            timestamp: now_ts,
                        },
                    );
                } else {
                    return Err(CoordinatorError::QuorumNotMet { responses: 0, required: 1 });
                }
            },
            None => {},
        }
        let strict = self.config.strict_health_gate;
        let mut contributions: Vec<OracleContribution> = Vec::new();
        let mut i: usize = 0;
        while i < n
            invariant
                n == oracles@.len(),
                oracles@ == chain,
                i <= n,
                n > 0,
                ids_distinct(chain),
                self.engine.wf(),
                self.engine.chain() == chain,
                self.engine.override_id() == old(self).engine.override_id(),
                self.config == old(self).config,
                self.events@ == ev0,
                strict == self.config.strict_health_gate,
                forall|x: &str, y: &str| #[trigger] fetch.requires((x, y)),
                health_budget(self.engine.health_view(), 2 * n - i),
                forall|k: int|
                    i <= k < n ==> (self.engine.health_view().dom().contains(#[trigger] chain[k].adapter_id@)
                        == h_start.dom().contains(chain[k].adapter_id@)) && (h_start.dom().contains(chain[k].adapter_id@)
                        ==> self.engine.health_view()[chain[k].adapter_id@] == h_start[chain[k].adapter_id@]),
                contributions@.len() == i,
                forall|k: int|
                    0 <= k < i ==> gathered_entry(#[trigger] contributions@[k], chain[k], h_start, strict, fetch, asset_id),
            decreases n - i,
        {
            let id = oracles[i].adapter_id.as_str();
            let ghost a = chain[i as int];
            if !oracles[i].enabled || (strict && !self.engine.is_healthy(id)) {
                contributions.push(
                    OracleContribution {
                        oracle_id: String::from_str(id),
                        price: None,
                        included: false,
                        deviation_bps: 0,
                        latency_ms: 0,
                    },
                );
                proof {
                    assert(gathered_entry(contributions@[i as int], chain[i as int], h_start, strict, fetch, asset_id));
                }
            } else {
                let (result, latency) = fetch(id, asset_id);
                let success = result.is_ok();
                let ghost h0 = self.engine.health_view();
                proof {
                    if h0.dom().contains(id@) {
                        assert(h0.dom().contains(id@));
                    }
                }
                self.engine.record_health(id, latency, success, 0, now_ts);
                proof {
                    let h1 = self.engine.health_view();
                    let hb = choose|hb: AdapterHealth|
                        #[trigger] request_recorded(hb, h1[id@], latency, success, 0, now_ts) && (if h0.dom().contains(id@) {
                            hb == h0[id@]
                        } else {
                            fresh_health(hb, id@)
                        });
                    lemma_budget_after_record(h0, h1, id@, hb, latency, success, 0, now_ts, (2 * n - i) as int);
                    assert forall|k: int| i + 1 <= k < n implies (h1.dom().contains(#[trigger] chain[k].adapter_id@)
                        == h_start.dom().contains(chain[k].adapter_id@)) && (h_start.dom().contains(chain[k].adapter_id@)
                        ==> h1[chain[k].adapter_id@] == h_start[chain[k].adapter_id@]) by {
                        assert(chain[k].adapter_id@ != chain[i as int].adapter_id@);
                        if h0.dom().contains(chain[k].adapter_id@) {
                            assert(h0.dom().contains(chain[k].adapter_id@));
                        }
                    }
                }
                let price: Option<u64> = match result {
                    Ok(p) => Some(p),
                    Err(_) => None,
                };
                contributions.push(
                    OracleContribution {
                        oracle_id: String::from_str(id),
                        price,
                        included: price.is_some(),
                        deviation_bps: 0,
                        latency_ms: latency,
                    },
                );
                proof {
                    assert(call_ensures(fetch, (id, asset_id), (result, latency)));
                    assert(fetched(fetch, a.adapter_id@, asset_id, price, latency));
                    assert(gathered_entry(contributions@[i as int], chain[i as int], h_start, strict, fetch, asset_id));
                }
            }
            i = i + 1;
        }
        let ghost cs = contributions@;
        proof {
            assert(gathered(cs, chain, h_start, strict, fetch, asset_id));
        }
        let r = self.settle_round(asset_id, now_ts, contributions);
        proof {
            assert(chain_round(chain, h_start, old(self).config, fetch, asset_id, now_ts, r));
        }
        r
    }
}


/// The coordination event that an engine event becomes: a success reads as a
/// consensus, a failure as a failed quorum.
pub open spec fn coordination_of(e: FailoverEvent, c: CoordinationEvent) -> bool {
    &&& c.asset_id@ == e.asset_id@
    &&& c.event_type == if e.succeeded {
        CoordinationEventType::ConsensusReached
    } else {
        CoordinationEventType::QuorumFailed
    }
    &&& c.timestamp == e.timestamp
}

/// The event logged when the manual override is set to `id`.
pub open spec fn override_event(e: CoordinationEvent, id: Seq<char>) -> bool {
    &&& e.asset_id@.len() == 0
    &&& e.event_type matches CoordinationEventType::ManualOverrideApplied { oracle_id: o }
    &&& o@ == id
}

impl OracleFailoverCoordinator {
    /// Register an oracle with the given priority (lower is asked first).
    pub fn register_oracle(&mut self, oracle_id: &str, priority: u32)
        requires
            old(self).chain_engine().wf(),
        ensures
            final(self).chain_engine().wf(),
            exists|k: int|
                #[trigger] is_split_le(without_id(old(self).chain_engine().chain(), oracle_id@), priority, k)
                    && final(self).chain_engine().chain() == without_id(old(self).chain_engine().chain(), oracle_id@).insert(
                    k,
                    final(self).chain_engine().chain()[k],
                ) && fresh_entry(final(self).chain_engine().chain()[k], oracle_id@, priority),
            final(self).chain_engine().override_id() == old(self).chain_engine().override_id(),
            final(self).spec_config() == old(self).spec_config(),
            final(self).event_log() == old(self).event_log(),
    {
        self.engine.register(oracle_id, priority);
    }

    /// Enable or disable an oracle in the chain.
    pub fn set_oracle_enabled(&mut self, oracle_id: &str, enabled: bool)
        requires
            old(self).chain_engine().wf(),
        ensures
            final(self).chain_engine().wf(),
            final(self).chain_engine().chain().len() == old(self).chain_engine().chain().len(),
            forall|i: int|
                0 <= i < old(self).chain_engine().chain().len() ==> #[trigger] final(self).chain_engine().chain()[i]
                    == if old(self).chain_engine().chain()[i].adapter_id@ == oracle_id@ {
                    AdapterPriority { enabled, ..old(self).chain_engine().chain()[i] }
                } else {
                    old(self).chain_engine().chain()[i]
                },
            final(self).chain_engine().health_view() == old(self).chain_engine().health_view(),
            final(self).chain_engine().override_id() == old(self).chain_engine().override_id(),
            final(self).spec_config() == old(self).spec_config(),
            final(self).event_log() == old(self).event_log(),
    {
        self.engine.set_enabled(oracle_id, enabled);
    }

    /// Set or clear the manual override at time `now_ts`: while set, only that
    /// oracle is asked.  Setting one logs an event.
    pub fn set_manual_override_at(&mut self, oracle_id: Option<&str>, now_ts: u64)
        requires
            old(self).chain_engine().wf(),
        ensures
            final(self).chain_engine().wf(),
            final(self).chain_engine().override_id() == match oracle_id {
                Some(s) => Some(s@),
                None => None::<Seq<char>>,
            },
            final(self).chain_engine().chain() == old(self).chain_engine().chain(),
            final(self).chain_engine().health_view() == old(self).chain_engine().health_view(),
            final(self).spec_config() == old(self).spec_config(),
            match oracle_id {
                Some(s) => final(self).event_log().len() == old(self).event_log().len() + 1
                    && final(self).event_log().drop_last() == old(self).event_log()
                    && override_event(final(self).event_log().last(), s@) && final(self).event_log().last().timestamp == now_ts,
                None => final(self).event_log() == old(self).event_log(),
            },
    {
        self.engine.set_manual_override(oracle_id);
        match oracle_id {
            Some(id) => {
                let ghost ev0 = self.events@;
                self.events.push(
                    CoordinationEvent {
                        asset_id: String::new(),
                        event_type: CoordinationEventType::ManualOverrideApplied { oracle_id: String::from_str(id) },
                        timestamp: now_ts,
                    },
                );
                proof {
                    assert(self.events@.drop_last() =~= ev0);
                }
            },
            None => {},
        }
    }

    /// Set or clear the manual override, stamping the event with the system clock.
    pub fn set_manual_override(&mut self, oracle_id: Option<&str>)
        requires
            old(self).chain_engine().wf(),
        ensures
            final(self).chain_engine().wf(),
            final(self).chain_engine().override_id() == match oracle_id {
                Some(s) => Some(s@),
                None => None::<Seq<char>>,
            },
            final(self).chain_engine().chain() == old(self).chain_engine().chain(),
            final(self).chain_engine().health_view() == old(self).chain_engine().health_view(),
            final(self).spec_config() == old(self).spec_config(),
            match oracle_id {
                Some(s) => final(self).event_log().len() == old(self).event_log().len() + 1
                    && final(self).event_log().drop_last() == old(self).event_log()
                    && override_event(final(self).event_log().last(), s@),
                None => final(self).event_log() == old(self).event_log(),
            },
    {
        let now = unix_now();
        self.set_manual_override_at(oracle_id, now);
    }

    /// Take every event out: first the engine's, each read as a consensus or a
    /// failed quorum, then the coordinator's own.
    pub fn drain_events(&mut self) -> (r: Vec<CoordinationEvent>)
        requires
            old(self).chain_engine().wf(),
        ensures
            final(self).chain_engine().wf(),
            final(self).chain_engine().chain() == old(self).chain_engine().chain(),
            final(self).chain_engine().health_view() == old(self).chain_engine().health_view(),
            final(self).chain_engine().override_id() == old(self).chain_engine().override_id(),
            final(self).chain_engine().event_log().len() == 0,
            final(self).spec_config() == old(self).spec_config(),
            final(self).event_log().len() == 0,
            r@.len() == old(self).chain_engine().event_log().len() + old(self).event_log().len(),
            forall|k: int|
                0 <= k < old(self).chain_engine().event_log().len() ==> coordination_of(
                    old(self).chain_engine().event_log()[k],
                    #[trigger] r@[k],
                ),
            r@.skip(old(self).chain_engine().event_log().len() as int) == old(self).event_log(),
    {
        let engine_evs = self.engine.drain_events();
        let mut out: Vec<CoordinationEvent> = Vec::new();
        let mut i: usize = 0;
        while i < engine_evs.len()
            invariant
                i <= engine_evs@.len(),
                out@.len() == i,
                forall|k: int| 0 <= k < i ==> coordination_of(engine_evs@[k], #[trigger] out@[k]),
            decreases engine_evs@.len() - i,
        {
            let ev = &engine_evs[i];
            out.push(
                CoordinationEvent {
                    asset_id: ev.asset_id.clone(),
                    event_type: if ev.succeeded {
                        CoordinationEventType::ConsensusReached
                    } else {
                        CoordinationEventType::QuorumFailed
                    },
                    timestamp: ev.timestamp,
                },
            );
            i = i + 1;
        }
        let mut own: Vec<CoordinationEvent> = Vec::new();
        std::mem::swap(&mut own, &mut self.events);
        let ghost own0 = own@;
        let ghost base = out@;
        let own_len = own.len();
        let mut m: usize = 0;
        while own.len() > 0
            invariant
                m <= own0.len(),
                own0.len() == own_len,
                own@ == own0.skip(m as int),
                out@ == base + own0.take(m as int),
            decreases own@.len(),
        {
            let e = own.remove(0);
            proof {
                assert(own0.skip(m as int)[0] == own0[m as int]);
                assert(own@ =~= own0.skip(m + 1));
                assert(base + own0.take(m + 1) =~= (base + own0.take(m as int)).push(own0[m as int]));
            }
            out.push(e);
            m = m + 1;
        }
        proof {
            assert(own0.take(m as int) =~= own0);
            assert(out@.skip(base.len() as int) =~= own0);
        }
        out
    }
}

impl Default for OracleFailoverCoordinator {
    fn default() -> (r: Self)
        ensures
            r.chain_engine().wf(),
            r.chain_engine().chain().len() == 0,
            r.spec_config() == default_coordinator_config(),
            r.event_log().len() == 0,
    {
        Self::new()
    }
}

} // verus!
