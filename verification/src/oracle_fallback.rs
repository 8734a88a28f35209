//! Fallback between price oracles: a manager that serves the primary oracle's
//! price while fresh, else the secondary's (marked degraded), else the last
//! good price (marked degraded); a reputation manager that penalises missed
//! updates and pauses oracles whose reputation falls too low; and a failover
//! manager that picks the first healthy adapter of an asset's priority list
//! unless a source is set by hand.
//!
//! Ledger time is passed in as `now`; storage that other parties write is set
//! through the `set_*` and `register_*` methods.

use vstd::prelude::*;
use crate::keyed::{distinct_keys, find_key, to_map, upsert};
use crate::oracle::{check_staleness, PriceData};

verus! {

/// Reputation lost per missed update.
pub const MISSED_UPDATE_PENALTY: u32 = 150;
/// Reputation below which an oracle is paused, unless configured otherwise.
pub const DEFAULT_PAUSE_THRESHOLD: u32 = 3000;

/// Whether a price recorded at `timestamp` is stale at `now`.
pub open spec fn stale(now: u64, timestamp: u64, threshold: u64) -> bool {
    now > timestamp && now - timestamp > threshold
}

/// `r` is the error with text `msg`.
pub open spec fn fails_with<T>(r: Result<T, String>, msg: Seq<char>) -> bool {
    r matches Err(e) && e@ == msg
}

// ─── Primary / secondary / last good price ───────────────────────────────────

/// Mathematical model of the fallback manager.
pub struct FallbackView {
    pub primary: Option<PriceData>,
    pub secondary: Option<PriceData>,
    /// Last good price by asset.
    pub last_good: Map<Seq<char>, PriceData>,
}

/// The price manager with a primary and a secondary oracle.
pub struct OracleManagerContract {
    primary: Option<PriceData>,
    secondary: Option<PriceData>,
    last_good: Vec<(String, PriceData)>,
}

impl View for OracleManagerContract {
    type V = FallbackView;

    closed spec fn view(&self) -> FallbackView {
        FallbackView { primary: self.primary, secondary: self.secondary, last_good: to_map(self.last_good@) }
    }
}

/// The outcome of a price request for `asset` at `now`: the price served and
/// whether it becomes the asset's last good price, or none.
pub open spec fn fallback_outcome(v: FallbackView, asset: Seq<char>, threshold: u64, now: u64) -> Option<
    (PriceData, bool),
> {
    if v.primary matches Some(p) && !stale(now, p.timestamp, threshold) {
        Some((v.primary->0, true))
    } else if v.secondary matches Some(s) && !stale(now, s.timestamp, threshold) {
        Some((PriceData { is_degraded: true, ..v.secondary->0 }, true))
    } else if v.last_good.dom().contains(asset) {
        Some((PriceData { is_degraded: true, ..v.last_good[asset] }, false))
    } else {
        None
    }
}

impl OracleManagerContract {
    /// One last good price per asset.
    pub closed spec fn wf(&self) -> bool {
        distinct_keys(self.last_good@)
    }

    /// A manager with no oracle prices and no last good prices.
    pub fn new() -> (r: Self)
        ensures
            r.wf(),
            r@.primary is None,
            r@.secondary is None,
            r@.last_good == Map::<Seq<char>, PriceData>::empty(),
    {
        let r = OracleManagerContract { primary: None, secondary: None, last_good: Vec::new() };
        proof {
            assert(to_map(r.last_good@) =~= Map::<Seq<char>, PriceData>::empty());
        }
        r
    }

    /// Store the primary oracle's price.
    pub fn set_primary_price(&mut self, price: Option<PriceData>)
        ensures
            final(self)@ == (FallbackView { primary: price, ..old(self)@ }),
            final(self).wf() == old(self).wf(),
    {
        self.primary = price;
    }

    /// Store the secondary oracle's price.
    pub fn set_secondary_price(&mut self, price: Option<PriceData>)
        ensures
            final(self)@ == (FallbackView { secondary: price, ..old(self)@ }),
            final(self).wf() == old(self).wf(),
    {
        self.secondary = price;
    }

    /// The price of `asset` at `now`: the primary's while at most `threshold`
    /// old; else the secondary's, marked degraded; either becomes the asset's
    /// last good price.  Otherwise the last good price, marked degraded; with
    /// none, the request fails.
    pub fn get_price(&mut self, asset: &str, threshold: u64, now: u64) -> (r: Result<PriceData, String>)
        requires
            old(self).wf(),
        ensures
            final(self).wf(),
            match fallback_outcome(old(self)@, asset@, threshold, now) {
                Some((p, remember)) => r == Ok::<PriceData, String>(p) && final(self)@ == (if remember {
                    FallbackView { last_good: old(self)@.last_good.insert(asset@, p), ..old(self)@ }
                } else {
                    old(self)@
                }),
                None => fails_with(r, "All oracle sources stale and no last known good price available"@) && final(self)@ == old(self)@,
            },
    {
        match self.primary {
            Some(primary) => {
                if !check_staleness(now, primary.timestamp, threshold) {
                    upsert(&mut self.last_good, asset, primary);
                    return Ok(primary);
                }
            },
            None => {},
        }
        match self.secondary {
            Some(secondary) => {
                if !check_staleness(now, secondary.timestamp, threshold) {
                    let degraded = PriceData { price: secondary.price, timestamp: secondary.timestamp, is_degraded: true };
                    upsert(&mut self.last_good, asset, degraded);
                    return Ok(degraded);
                }
            },
            None => {},
        }
        match find_key(&self.last_good, asset) {
            Some(i) => {
                let mut last = self.last_good[i].1;
                last.is_degraded = true;
                Ok(last)
            },
            None => {
                proof {
                    reveal_strlit("All oracle sources stale and no last known good price available");
                }
                Err(String::from_str("All oracle sources stale and no last known good price available"))
            },
        }
    }
}

// ─── Reputation ──────────────────────────────────────────────────────────────

/// An oracle operator's standing.
#[derive(Clone, Copy, Debug, PartialEq, Eq, Structural)]
pub struct OracleNode {
    pub reputation_score: u32,
    pub missed_updates: u32,
    pub active: bool,
}

/// Mathematical model of the reputation manager.
pub struct ReputationView {
    pub nodes: Map<Seq<char>, OracleNode>,
    pub pause_threshold: Option<u32>,
}

/// Reputation of oracle operators.
pub struct OracleReputationManagerContract {
    nodes: Vec<(String, OracleNode)>,
    pause_threshold: Option<u32>,
}

impl View for OracleReputationManagerContract {
    type V = ReputationView;

    closed spec fn view(&self) -> ReputationView {
        ReputationView { nodes: to_map(self.nodes@), pause_threshold: self.pause_threshold }
    }
}

/// A node after a missed update: one more miss, 150 less reputation (not below
/// 0), paused when below the threshold.
pub open spec fn after_miss(n: OracleNode, threshold: u32) -> OracleNode {
    let score = if n.reputation_score >= MISSED_UPDATE_PENALTY { (n.reputation_score - MISSED_UPDATE_PENALTY) as u32 } else { 0 };
    OracleNode {
        reputation_score: score,
        missed_updates: (n.missed_updates + 1) as u32,
        active: if score < threshold { false } else { n.active },
    }
}

/// The pause threshold in force.
pub open spec fn threshold_of(v: ReputationView) -> u32 {
    match v.pause_threshold {
        Some(t) => t,
        None => DEFAULT_PAUSE_THRESHOLD,
    }
}

impl OracleReputationManagerContract {
    /// One node per operator.
    pub closed spec fn wf(&self) -> bool {
        distinct_keys(self.nodes@)
    }

    /// A manager with no operators and the default threshold.
    pub fn new() -> (r: Self)
        ensures
            r.wf(),
            r@.nodes == Map::<Seq<char>, OracleNode>::empty(),
            r@.pause_threshold is None,
    {
        let r = OracleReputationManagerContract { nodes: Vec::new(), pause_threshold: None };
        proof {
            assert(to_map(r.nodes@) =~= Map::<Seq<char>, OracleNode>::empty());
        }
        r
    }

    /// Store an operator's node.
    pub fn register_node(&mut self, operator: &str, node: OracleNode)
        requires
            old(self).wf(),
        ensures
            final(self).wf(),
            final(self)@ == (ReputationView { nodes: old(self)@.nodes.insert(operator@, node), ..old(self)@ }),
    {
        upsert(&mut self.nodes, operator, node);
    }

    /// Store the pause threshold.
    pub fn set_pause_threshold(&mut self, threshold: u32)
        ensures
            final(self)@ == (ReputationView { pause_threshold: Some(threshold), ..old(self)@ }),
            final(self).wf() == old(self).wf(),
    {
        self.pause_threshold = Some(threshold);
    }

    /// Record that `operator` missed an update.
    pub fn record_missed_update(&mut self, operator: &str) -> (r: Result<(), String>)
        requires
            old(self).wf(),
            old(self)@.nodes.dom().contains(operator@) ==> old(self)@.nodes[operator@].missed_updates < u32::MAX,
        ensures
            final(self).wf(),
            !old(self)@.nodes.dom().contains(operator@) ==> fails_with(r, "Oracle not registered"@) && final(self)@
                == old(self)@,
            old(self)@.nodes.dom().contains(operator@) ==> r is Ok && final(self)@ == (ReputationView {
                nodes: old(self)@.nodes.insert(
                    operator@,
                    after_miss(old(self)@.nodes[operator@], threshold_of(old(self)@)),
                ),
                ..old(self)@
            }),
    {
        let mut node = match find_key(&self.nodes, operator) {
            Some(i) => self.nodes[i].1,
            None => {
                proof {
                    reveal_strlit("Oracle not registered");
                }
                return Err(String::from_str("Oracle not registered"));
            },
        };
        node.missed_updates = node.missed_updates + 1;
        node.reputation_score = node.reputation_score.saturating_sub(MISSED_UPDATE_PENALTY);
        let threshold = match self.pause_threshold {
            Some(t) => t,
            None => DEFAULT_PAUSE_THRESHOLD,
        };
        if node.reputation_score < threshold {
            node.active = false;
        }
        upsert(&mut self.nodes, operator, node);
        Ok(())
    }

    /// Weight of an operator: its reputation while active, else 0.
    pub fn get_oracle_weight(&self, operator: &str) -> (r: Result<u32, String>)
        requires
            self.wf(),
        ensures
            !self@.nodes.dom().contains(operator@) ==> fails_with(r, "Oracle not registered"@),
            self@.nodes.dom().contains(operator@) ==> r == Ok::<u32, String>(
                if self@.nodes[operator@].active { self@.nodes[operator@].reputation_score } else { 0 },
            ),
    {
        match find_key(&self.nodes, operator) {
            Some(i) => {
                let node = self.nodes[i].1;
                if !node.active {
                    return Ok(0);
                }
                Ok(node.reputation_score)
            },
            None => {
                proof {
                    reveal_strlit("Oracle not registered");
                }
                Err(String::from_str("Oracle not registered"))
            },
        }
    }
}

// ─── Failover by priority ────────────────────────────────────────────────────

/// A source in an asset's priority list.
#[derive(Debug, PartialEq, Eq)]
pub struct OracleAdapter {
    pub source_id: String,
    pub priority: u32,
    pub is_healthy: bool,
    pub last_health_check: u64,
}

impl Clone for OracleAdapter {
    fn clone(&self) -> (r: Self)
        ensures
            r == *self,
    {
        OracleAdapter {
            source_id: self.source_id.clone(),
            priority: self.priority,
            is_healthy: self.is_healthy,
            last_health_check: self.last_health_check,
        }
    }
}

/// Mark an adapter unhealthy when its last health check is more than
/// `timeout_seconds` old at `now`; report whether it is healthy.
pub fn perform_health_check(adapter: &mut OracleAdapter, timeout_seconds: u64, now: u64) -> (r: bool)
    ensures
        final(adapter).is_healthy == (old(adapter).is_healthy && !stale(
            now,
            old(adapter).last_health_check,
            timeout_seconds,
        )),
        final(adapter).source_id == old(adapter).source_id,
        final(adapter).priority == old(adapter).priority,
        final(adapter).last_health_check == old(adapter).last_health_check,
        r == final(adapter).is_healthy,
{
    let timed_out = now.saturating_sub(adapter.last_health_check) > timeout_seconds;
    if timed_out {
        adapter.is_healthy = false;
    }
    adapter.is_healthy
}

/// Mathematical model of the failover manager.
pub struct FailoverView {
    pub priority_lists: Map<Seq<char>, Seq<OracleAdapter>>,
    pub overrides: Map<Seq<char>, Seq<char>>,
}

/// Picks the oracle serving each asset.
pub struct OracleFailoverManagerContract {
    priority_lists: Vec<(String, Vec<OracleAdapter>)>,
    overrides: Vec<(String, String)>,
}

impl View for OracleFailoverManagerContract {
    type V = FailoverView;

    closed spec fn view(&self) -> FailoverView {
        FailoverView {
            priority_lists: to_map(self.priority_lists@).map_values(|l: Vec<OracleAdapter>| l@),
            overrides: to_map(self.overrides@).map_values(|s: String| s@),
        }
    }
}

/// Index of the first healthy adapter of a list.
pub open spec fn first_healthy(l: Seq<OracleAdapter>) -> Option<int>
    decreases l.len(),
{
    if l.len() == 0 {
        None
    } else {
        match first_healthy(l.drop_last()) {
            Some(i) => Some(i),
            None => if l.last().is_healthy { Some(l.len() - 1) } else { None },
        }
    }
}

proof fn lemma_first_healthy(l: Seq<OracleAdapter>)
    ensures
        match first_healthy(l) {
            Some(i) => 0 <= i < l.len() && l[i].is_healthy && forall|j: int| 0 <= j < i ==> !(#[trigger] l[j]).is_healthy,
            None => forall|j: int| 0 <= j < l.len() ==> !(#[trigger] l[j]).is_healthy,
        },
    decreases l.len(),
{
    if l.len() > 0 {
        let t = l.drop_last();
        lemma_first_healthy(t);
        assert forall|j: int| 0 <= j < t.len() implies t[j] == l[j] by {}
    }
}

impl OracleFailoverManagerContract {
    /// One list and one override per asset.
    pub closed spec fn wf(&self) -> bool {
        &&& distinct_keys(self.priority_lists@)
        &&& distinct_keys(self.overrides@)
    }

    /// A manager with no lists and no overrides.
    pub fn new() -> (r: Self)
        ensures
            r.wf(),
            r@.priority_lists == Map::<Seq<char>, Seq<OracleAdapter>>::empty(),
            r@.overrides == Map::<Seq<char>, Seq<char>>::empty(),
    {
        let r = OracleFailoverManagerContract { priority_lists: Vec::new(), overrides: Vec::new() };
        proof {
            assert(to_map(r.priority_lists@).map_values(|l: Vec<OracleAdapter>| l@) =~= Map::<
                Seq<char>,
                Seq<OracleAdapter>,
            >::empty());
            assert(to_map(r.overrides@).map_values(|s: String| s@) =~= Map::<Seq<char>, Seq<char>>::empty());
        }
        r
    }

    /// Set the priority list of an asset, in priority order.
    pub fn set_oracle_priority(&mut self, asset: &str, adapters: Vec<OracleAdapter>)
        requires
            old(self).wf(),
        ensures
            final(self).wf(),
            final(self)@ == (FailoverView {
                priority_lists: old(self)@.priority_lists.insert(asset@, adapters@),
                ..old(self)@
            }),
    {
        let ghost l = adapters@;
        let ghost p0 = self.priority_lists@;
        upsert(&mut self.priority_lists, asset, adapters);
        proof {
            assert(to_map(self.priority_lists@).map_values(|x: Vec<OracleAdapter>| x@) =~= to_map(p0).map_values(
                |x: Vec<OracleAdapter>| x@,
            ).insert(asset@, l));
        }
    }

    /// Serve an asset from `source_id`, whatever its list says.
    pub fn set_manual_override(&mut self, asset: &str, source_id: &str)
        requires
            old(self).wf(),
        ensures
            final(self).wf(),
            final(self)@ == (FailoverView { overrides: old(self)@.overrides.insert(asset@, source_id@), ..old(self)@ }),
    {
        let ghost o0 = self.overrides@;
        upsert(&mut self.overrides, asset, String::from_str(source_id));
        proof {
            assert(to_map(self.overrides@).map_values(|s: String| s@) =~= to_map(o0).map_values(|s: String| s@).insert(
                asset@,
                source_id@,
            ));
        }
    }

    /// The source serving an asset: its override if set, else the first healthy
    /// adapter of its priority list.
    pub fn get_active_oracle(&self, asset: &str) -> (r: Result<String, String>)
        requires
            self.wf(),
        ensures
            self@.overrides.dom().contains(asset@) ==> (r matches Ok(s) && s@ == self@.overrides[asset@]),
            !self@.overrides.dom().contains(asset@) && !self@.priority_lists.dom().contains(asset@) ==> fails_with(
                r,
                "No oracle priority list configured for asset"@,
            ),
            !self@.overrides.dom().contains(asset@) && self@.priority_lists.dom().contains(asset@) ==> match first_healthy(
                self@.priority_lists[asset@],
            ) {
                Some(i) => r == Ok::<String, String>(self@.priority_lists[asset@][i].source_id),
                None => fails_with(r, "All prioritized oracle adapters are unhealthy; failover failed"@),
            },
    {
        match find_key(&self.overrides, asset) {
            Some(i) => {
                return Ok(self.overrides[i].1.clone());
            },
            None => {},
        }
        let list = match find_key(&self.priority_lists, asset) {
            Some(i) => &self.priority_lists[i].1,
            None => {
                proof {
                    reveal_strlit("No oracle priority list configured for asset");
                }
                return Err(String::from_str("No oracle priority list configured for asset"));
            },
        };
        proof {
            lemma_first_healthy(list@);
            assert(self@.priority_lists[asset@] == list@);
        }
        let mut k: usize = 0;
        while k < list.len()
            invariant
                k <= list@.len(),
                self@.priority_lists.dom().contains(asset@),
                !self@.overrides.dom().contains(asset@),
                self@.priority_lists[asset@] == list@,
                match first_healthy(list@) {
                    Some(i) => 0 <= i < list@.len() && list@[i].is_healthy && forall|j: int| 0 <= j < i
                        ==> !(#[trigger] list@[j]).is_healthy,
                    None => forall|j: int| 0 <= j < list@.len() ==> !(#[trigger] list@[j]).is_healthy,
                },
                forall|j: int| 0 <= j < k ==> !list@[j].is_healthy,
            decreases list@.len() - k,
        {
            if list[k].is_healthy {
                proof {
                    match first_healthy(list@) {
                        Some(i) => {
                            assert(i == k);
                        },
                        None => {},
                    }
                }
                return Ok(list[k].source_id.clone());
            }
            k = k + 1;
        }
        proof {
            reveal_strlit("All prioritized oracle adapters are unhealthy; failover failed");
        }
        Err(String::from_str("All prioritized oracle adapters are unhealthy; failover failed"))
    }
}

} // verus!
