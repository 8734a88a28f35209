//! The oracle manager contract: registered oracles with weights and reputation,
//! price submissions with aggregation, and heartbeat monitoring.
//!
//! The contract's storage is held as plain values: addresses and symbols are
//! strings, the ledger time is passed in as `now`.  A call that the contract
//! aborts returns an error and leaves the state unchanged.

use vstd::prelude::*;
use crate::keyed::{distinct_keys, find_key, upsert, lemma_push, lemma_to_map_dom, lemma_to_map_value, lemma_update, to_map};

verus! {

/// Minimum number of price sources for an aggregate.
pub const MIN_ORACLES: u32 = 3;
/// Largest tolerated price deviation (5%, basis points).
pub const MAX_PRICE_DEVIATION: u32 = 500;
/// Seconds after which an oracle's data is stale.
pub const ORACLE_TIMEOUT: u64 = 3600;
/// Lowest accepted confidence (70%, basis points).
pub const MIN_CONFIDENCE: u32 = 7000;
/// Reputation of a newly registered oracle.
pub const INITIAL_REPUTATION: u32 = 8000;
/// Largest total weight of the active oracles (100%).
pub const MAX_TOTAL_WEIGHT: u32 = 10_000;

/// A registered oracle.
#[derive(Debug, PartialEq, Eq)]
pub struct OracleInfo {
    /// Oracle address.
    pub address: String,
    /// Oracle name.
    pub name: String,
    /// Weight in aggregation (basis points).
    pub weight: u32,
    /// Reputation score (0–10 000).
    pub reputation: u32,
    /// Accepted submissions.
    pub successful_updates: u64,
    /// Rejected submissions.
    pub failed_updates: u64,
    /// Time of the last accepted submission.
    pub last_update: u64,
    /// Whether the oracle takes part.
    pub active: bool,
}

impl Clone for OracleInfo {
    fn clone(&self) -> (r: Self)
        ensures
            r == *self,
    {
        OracleInfo {
            address: self.address.clone(),
            name: self.name.clone(),
            weight: self.weight,
            reputation: self.reputation,
            successful_updates: self.successful_updates,
            failed_updates: self.failed_updates,
            last_update: self.last_update,
            active: self.active,
        }
    }
}

/// How submitted prices are combined.
#[derive(Clone, Copy, Debug, PartialEq, Eq, Structural)]
pub enum AggregationMethod {
    /// Average weighted by the oracles' weights.
    WeightedAverage,
    /// The middle submission.
    Median,
    /// Average weighted by the submissions' confidence.
    ConfidenceWeighted,
    /// Average weighted by how recent the submissions are.
    TimeWeightedAverage,
}

/// Aggregation parameters.
#[derive(Clone, Copy, Debug, PartialEq, Eq, Structural)]
pub struct AggregationParams {
    /// Minimum number of submissions for an aggregate.
    pub min_oracles: u32,
    /// Largest tolerated deviation (basis points).
    pub max_price_deviation: u32,
    /// Seconds after which an oracle's data is stale.
    pub oracle_timeout: u64,
    /// Lowest accepted confidence (basis points).
    pub min_confidence: u32,
    /// How prices are combined.
    pub aggregation_method: AggregationMethod,
}

/// The parameters of a new manager.
pub open spec fn default_params() -> AggregationParams {
    AggregationParams {
        min_oracles: MIN_ORACLES,
        max_price_deviation: MAX_PRICE_DEVIATION,
        oracle_timeout: ORACLE_TIMEOUT,
        min_confidence: MIN_CONFIDENCE,
        aggregation_method: AggregationMethod::ConfidenceWeighted,
    }
}

/// A price submitted by an oracle, or an aggregate of several.
#[derive(Debug, PartialEq, Eq)]
pub struct OraclePrice {
    /// Asset priced.
    pub asset_id: u32,
    /// Price in USD.
    pub price: u64,
    /// Decimals of the price.
    pub decimals: u32,
    /// Confidence (0–10 000).
    pub confidence: u32,
    /// When the price was observed.
    pub timestamp: u64,
    /// Oracle that submitted it (the aggregate's own address for an aggregate).
    pub source_address: String,
}

impl Clone for OraclePrice {
    fn clone(&self) -> (r: Self)
        ensures
            r == *self,
    {
        OraclePrice {
            asset_id: self.asset_id,
            price: self.price,
            decimals: self.decimals,
            confidence: self.confidence,
            timestamp: self.timestamp,
            source_address: self.source_address.clone(),
        }
    }
}

/// Severity of an alert.
#[derive(Clone, Copy, Debug, PartialEq, Eq, Structural)]
pub enum AlertSeverity {
    Low,
    Medium,
    High,
    Critical,
}

/// A price far from the expected range.
#[derive(Debug)]
pub struct PriceDeviationAlert {
    pub asset_id: u32,
    pub expected_price_min: u64,
    pub expected_price_max: u64,
    pub reported_price: u64,
    pub deviation_bps: u32,
    pub oracle_address: String,
    pub timestamp: u64,
    pub severity: AlertSeverity,
}

/// Heartbeat expectations of an oracle.
#[derive(Debug, PartialEq, Eq)]
pub struct HeartbeatConfig {
    /// Oracle address.
    pub oracle_address: String,
    /// Expected seconds between heartbeats.
    pub interval_seconds: u64,
    /// Misses tolerated before the oracle is flagged.
    pub max_missed: u32,
    /// Whether the oracle is monitored.
    pub enabled: bool,
}

impl Clone for HeartbeatConfig {
    fn clone(&self) -> (r: Self)
        ensures
            r == *self,
    {
        HeartbeatConfig {
            oracle_address: self.oracle_address.clone(),
            interval_seconds: self.interval_seconds,
            max_missed: self.max_missed,
            enabled: self.enabled,
        }
    }
}

/// Heartbeat record of an oracle.
#[derive(Debug, PartialEq, Eq)]
pub struct HeartbeatStatus {
    /// Oracle address.
    pub oracle_address: String,
    /// Time of the last heartbeat.
    pub last_heartbeat: u64,
    /// Intervals missed since the last heartbeat.
    pub missed_count: u32,
    /// Intervals missed over the oracle's lifetime.
    pub total_missed: u32,
    /// Whether the oracle is flagged for missing heartbeats.
    pub flagged: bool,
}

impl Clone for HeartbeatStatus {
    fn clone(&self) -> (r: Self)
        ensures
            r == *self,
    {
        HeartbeatStatus {
            oracle_address: self.oracle_address.clone(),
            last_heartbeat: self.last_heartbeat,
            missed_count: self.missed_count,
            total_missed: self.total_missed,
            flagged: self.flagged,
        }
    }
}

/// Alert about an oracle that missed heartbeats.
#[derive(Debug, PartialEq, Eq)]
pub struct HeartbeatAlert {
    /// The oracle.
    pub oracle_address: String,
    /// Intervals missed since its last heartbeat.
    pub consecutive_misses: u32,
    /// Time of the check.
    pub timestamp: u64,
    /// How serious the misses are.
    pub severity: AlertSeverity,
    /// Whether the oracle's reputation was lowered.
    pub reputation_downgraded: bool,
}

/// Why a call was refused.
#[derive(Clone, Copy, Debug, PartialEq, Eq, Structural)]
pub enum OracleManagerError {
    /// The admin check failed.
    NotAuthorized,
    /// The oracle is registered already.
    OracleAlreadyRegistered,
    /// The active oracles' weights would exceed 100%.
    TotalWeightExceeded,
    /// The submitting oracle is not registered.
    OracleNotRegistered,
    /// The submitting oracle is deactivated.
    OracleNotActive,
    /// The observation time lies in the future.
    FutureTimestamp,
    /// The oracle has been silent for longer than the timeout.
    StaleData,
    /// The confidence is below the minimum.
    ConfidenceTooLow,
    /// No oracle with that address.
    OracleNotFound,
    /// The minimum number of oracles must be at least 2.
    MinOraclesTooLow,
    /// Heartbeat intervals must be positive.
    ZeroHeartbeatInterval,
    /// No price was submitted for the asset.
    NoPriceData,
    /// Fewer submissions than the minimum.
    InsufficientPriceSources,
    /// No submission comes from an active oracle with weight.
    NoActiveOracles,
    /// The submissions' confidences add up to 0.
    NoValidPriceData,
    /// No submission is recent enough.
    NoRecentPriceData,
}

/// Weight that an oracle adds to the active total.
pub open spec fn active_weight(o: OracleInfo) -> int {
    if o.active { o.weight as int } else { 0 }
}

/// Total weight of the active oracles of a table.
pub open spec fn weight_total(s: Seq<(String, OracleInfo)>) -> int
    decreases s.len(),
{
    if s.len() == 0 {
        0
    } else {
        weight_total(s.drop_last()) + active_weight(s.last().1)
    }
}

proof fn lemma_weight_total_nonneg(s: Seq<(String, OracleInfo)>)
    ensures
        weight_total(s) >= 0,
    decreases s.len(),
{
    if s.len() > 0 {
        lemma_weight_total_nonneg(s.drop_last());
    }
}

proof fn lemma_weight_total_update(s: Seq<(String, OracleInfo)>, i: int, e: (String, OracleInfo))
    requires
        0 <= i < s.len(),
    ensures
        weight_total(s.update(i, e)) == weight_total(s) - active_weight(s[i].1) + active_weight(e.1),
    decreases s.len(),
{
    let t = s.update(i, e);
    if i == s.len() - 1 {
        assert(t.drop_last() =~= s.drop_last());
    } else {
        assert(t.drop_last() =~= s.drop_last().update(i, e));
        lemma_weight_total_update(s.drop_last(), i, e);
    }
}

/// Mathematical model of the manager's storage.
pub struct ManagerView {
    pub admin: Seq<char>,
    pub oracles: Map<Seq<char>, OracleInfo>,
    pub params: AggregationParams,
    pub submissions: Seq<OraclePrice>,
    pub heartbeat_configs: Map<Seq<char>, HeartbeatConfig>,
    pub heartbeat_statuses: Map<Seq<char>, HeartbeatStatus>,
}

/// The oracle manager contract's state.
pub struct OracleManagerContract {
    admin: String,
    oracles: Vec<(String, OracleInfo)>,
    params: AggregationParams,
    submissions: Vec<OraclePrice>,
    heartbeat_configs: Vec<(String, HeartbeatConfig)>,
    heartbeat_statuses: Vec<(String, HeartbeatStatus)>,
}

impl View for OracleManagerContract {
    type V = ManagerView;

    closed spec fn view(&self) -> ManagerView {
        ManagerView {
            admin: self.admin@,
            oracles: to_map(self.oracles@),
            params: self.params,
            submissions: self.submissions@,
            heartbeat_configs: to_map(self.heartbeat_configs@),
            heartbeat_statuses: to_map(self.heartbeat_statuses@),
        }
    }
}

impl OracleManagerContract {
    /// The tables have one entry per address, keyed by that address.
    pub closed spec fn wf(&self) -> bool {
        &&& distinct_keys(self.oracles@)
        &&& weight_total(self.oracles@) <= MAX_TOTAL_WEIGHT
        &&& self.params.min_oracles >= 2
        &&& forall|i: int| 0 <= i < self.oracles@.len() ==> (#[trigger] self.oracles@[i]).1.reputation <= 10_000
        &&& distinct_keys(self.heartbeat_configs@)
        &&& distinct_keys(self.heartbeat_statuses@)
        &&& forall|i: int| 0 <= i < self.oracles@.len() ==> (#[trigger] self.oracles@[i]).1.address@ == self.oracles@[i].0@
        &&& forall|k: Seq<char>|
            #[trigger] to_map(self.heartbeat_configs@).dom().contains(k) ==> to_map(self.heartbeat_configs@)[k].oracle_address@
                == k && to_map(self.heartbeat_configs@)[k].interval_seconds > 0
        &&& forall|k: Seq<char>|
            #[trigger] to_map(self.heartbeat_statuses@).dom().contains(k) ==> to_map(self.heartbeat_statuses@)[k].oracle_address@
                == k
    }

    /// Total weight of the active oracles.
    pub closed spec fn total_weight(&self) -> int {
        weight_total(self.oracles@)
    }

    /// Set up the manager with its admin and the default parameters.
    pub fn initialize(admin: &str) -> (r: Self)
        ensures
            r.wf(),
            r@.admin == admin@,
            r@.oracles.is_empty(),
            r@.params == default_params(),
            r@.submissions.len() == 0,
            r@.heartbeat_configs.is_empty(),
            r@.heartbeat_statuses.is_empty(),
            r.total_weight() == 0,
    {
        let r = OracleManagerContract {
            admin: String::from_str(admin),
            oracles: Vec::new(),
            params: AggregationParams {
                min_oracles: MIN_ORACLES,
                max_price_deviation: MAX_PRICE_DEVIATION,
                oracle_timeout: ORACLE_TIMEOUT,
                min_confidence: MIN_CONFIDENCE,
                aggregation_method: AggregationMethod::ConfidenceWeighted,
            },
            submissions: Vec::new(),
            heartbeat_configs: Vec::new(),
            heartbeat_statuses: Vec::new(),
        };
        proof {
            assert(to_map(r.oracles@) =~= Map::<Seq<char>, OracleInfo>::empty());
            assert(to_map(r.heartbeat_configs@) =~= Map::<Seq<char>, HeartbeatConfig>::empty());
            assert(to_map(r.heartbeat_statuses@) =~= Map::<Seq<char>, HeartbeatStatus>::empty());
        }
        r
    }

    /// The admin check: the address the contract runs under must be the admin.
    fn require_admin(&self, contract_address: &str) -> (r: Result<(), OracleManagerError>)
        ensures
            r is Ok <==> contract_address@ == self@.admin,
            r is Err ==> r == Err::<(), OracleManagerError>(OracleManagerError::NotAuthorized),
    {
        let a = String::from_str(contract_address);
        if a == self.admin {
            Ok(())
        } else {
            Err(OracleManagerError::NotAuthorized)
        }
    }

    /// Total weight of the active oracles.
    pub fn calculate_total_weight(&self) -> (r: u32)
        requires
            self.wf(),
        ensures
            r == self.total_weight(),
    {
        let mut total: u32 = 0;
        let mut i: usize = 0;
        while i < self.oracles.len()
            invariant
                i <= self.oracles@.len(),
                total == weight_total(self.oracles@.take(i as int)),
                weight_total(self.oracles@) <= u32::MAX,
            decreases self.oracles@.len() - i,
        {
            proof {
                assert(self.oracles@.take(i + 1).drop_last() =~= self.oracles@.take(i as int));
                lemma_weight_total_prefix(self.oracles@, i + 1);
            }
            if self.oracles[i].1.active {
                total = total + self.oracles[i].1.weight;
            }
            i = i + 1;
        }
        proof {
            assert(self.oracles@.take(self.oracles@.len() as int) =~= self.oracles@);
        }
        total
    }

    /// Register an oracle with a weight; it starts active with a reputation of 80%.
    pub fn register_oracle(&mut self, contract_address: &str, oracle_address: &str, name: &str, weight: u32) -> (r: Result<
        (),
        OracleManagerError,
    >)
        requires
            old(self).wf(),
            weight <= u32::MAX - MAX_TOTAL_WEIGHT,
        ensures
            final(self).wf(),
            contract_address@ != old(self)@.admin ==> r == Err::<(), OracleManagerError>(OracleManagerError::NotAuthorized),
            contract_address@ == old(self)@.admin && old(self)@.oracles.dom().contains(oracle_address@) ==> r == Err::<
                (),
                OracleManagerError,
            >(OracleManagerError::OracleAlreadyRegistered),
            contract_address@ == old(self)@.admin && !old(self)@.oracles.dom().contains(oracle_address@)
                && old(self).total_weight() + weight > MAX_TOTAL_WEIGHT ==> r == Err::<(), OracleManagerError>(
                OracleManagerError::TotalWeightExceeded,
            ),
            contract_address@ == old(self)@.admin && !old(self)@.oracles.dom().contains(oracle_address@) && old(self).total_weight() + weight <= MAX_TOTAL_WEIGHT ==> r is Ok,
            r is Err ==> final(self)@ == old(self)@,
            r is Ok ==> contract_address@ == old(self)@.admin && !old(self)@.oracles.dom().contains(oracle_address@)
                && old(self).total_weight() + weight <= MAX_TOTAL_WEIGHT,
            r is Ok ==> final(self)@ == (ManagerView {
                oracles: old(self)@.oracles.insert(oracle_address@, final(self)@.oracles[oracle_address@]),
                ..old(self)@
            }) && final(self)@.oracles[oracle_address@].address@ == oracle_address@
                && final(self)@.oracles[oracle_address@].name@ == name@
                && final(self)@.oracles[oracle_address@].weight == weight
                && final(self)@.oracles[oracle_address@].reputation == INITIAL_REPUTATION
                && final(self)@.oracles[oracle_address@].successful_updates == 0
                && final(self)@.oracles[oracle_address@].failed_updates == 0
                && final(self)@.oracles[oracle_address@].last_update == 0
                && final(self)@.oracles[oracle_address@].active
                && final(self).total_weight() == old(self).total_weight() + weight,
    {
        match self.require_admin(contract_address) {
            Err(e) => return Err(e),
            Ok(()) => {},
        }
        if find_key(&self.oracles, oracle_address).is_some() {
            return Err(OracleManagerError::OracleAlreadyRegistered);
        }
        let total = self.calculate_total_weight();
        if total + weight > MAX_TOTAL_WEIGHT {
            return Err(OracleManagerError::TotalWeightExceeded);
        }
        let info = OracleInfo {
            address: String::from_str(oracle_address),
            name: String::from_str(name),
            weight,
            reputation: INITIAL_REPUTATION,
            successful_updates: 0,
            failed_updates: 0,
            last_update: 0,
            active: true,
        };
        let key = String::from_str(oracle_address);
        let ghost s0 = self.oracles@;
        proof {
            lemma_push(s0, key, info);
        }
        self.oracles.push((key, info));
        proof {
            assert(self.oracles@.drop_last() =~= s0);
            assert forall|i: int| 0 <= i < self.oracles@.len() implies (#[trigger] self.oracles@[i]).1.address@
                == self.oracles@[i].0@ && self.oracles@[i].1.reputation <= 10_000 by {
                if i < s0.len() {
                    assert(self.oracles@[i] == s0[i]);
                }
            }
        }
        Ok(())
    }
}

proof fn lemma_weight_total_prefix(s: Seq<(String, OracleInfo)>, k: int)
    requires
        0 <= k <= s.len(),
    ensures
        0 <= weight_total(s.take(k)) <= weight_total(s),
    decreases s.len() - k,
{
    lemma_weight_total_nonneg(s.take(k));
    if k < s.len() {
        lemma_weight_total_prefix(s, k + 1);
        assert(s.take(k + 1).drop_last() =~= s.take(k));
    } else {
        assert(s.take(k) =~= s);
    }
}


/// The active oracles of a table, in table order.
pub open spec fn active_infos(s: Seq<(String, OracleInfo)>) -> Seq<OracleInfo>
    decreases s.len(),
{
    if s.len() == 0 {
        Seq::empty()
    } else if s.last().1.active {
        active_infos(s.drop_last()).push(s.last().1)
    } else {
        active_infos(s.drop_last())
    }
}

impl OracleManagerContract {
    /// The oracle table, in registration order.
    pub closed spec fn oracle_table(&self) -> Seq<(String, OracleInfo)> {
        self.oracles@
    }

    /// Change an oracle's weight, keeping the active total within 100%.
    pub fn update_oracle_weight(&mut self, contract_address: &str, oracle_address: &str, new_weight: u32) -> (r: Result<
        (),
        OracleManagerError,
    >)
        requires
            old(self).wf(),
            contract_address@ == old(self)@.admin && old(self)@.oracles.dom().contains(oracle_address@) ==> old(
                self,
            )@.oracles[oracle_address@].weight <= old(self).total_weight() && old(self).total_weight() - old(
                self,
            )@.oracles[oracle_address@].weight + new_weight <= u32::MAX,
        ensures
            final(self).wf(),
            contract_address@ != old(self)@.admin ==> r == Err::<(), OracleManagerError>(OracleManagerError::NotAuthorized),
            contract_address@ == old(self)@.admin && !old(self)@.oracles.dom().contains(oracle_address@) ==> r == Err::<
                (),
                OracleManagerError,
            >(OracleManagerError::OracleNotFound),
            contract_address@ == old(self)@.admin && old(self)@.oracles.dom().contains(oracle_address@) ==> (r is Ok
                <==> old(self).total_weight() - old(self)@.oracles[oracle_address@].weight + new_weight
                <= MAX_TOTAL_WEIGHT),
            r matches Err(e) ==> final(self)@ == old(self)@ && (contract_address@ == old(self)@.admin
                && old(self)@.oracles.dom().contains(oracle_address@) ==> e == OracleManagerError::TotalWeightExceeded),
            r is Ok ==> final(self)@ == (ManagerView {
                oracles: old(self)@.oracles.insert(
                    oracle_address@,
                    OracleInfo { weight: new_weight, ..old(self)@.oracles[oracle_address@] },
                ),
                ..old(self)@
            }),
    {
        match self.require_admin(contract_address) {
            Err(e) => return Err(e),
            Ok(()) => {},
        }
        let i = match find_key(&self.oracles, oracle_address) {
            Some(i) => i,
            None => return Err(OracleManagerError::OracleNotFound),
        };
        let total = self.calculate_total_weight();
        let w = self.oracles[i].1.weight;
        let new_total = total - w + new_weight;
        if new_total > MAX_TOTAL_WEIGHT {
            return Err(OracleManagerError::TotalWeightExceeded);
        }
        let mut info = self.oracles[i].1.clone();
        info.weight = new_weight;
        self.set_oracle_at(i, info);
        Ok(())
    }

    /// Replace the entry at position `i` of the oracle table, keeping its address.
    fn set_oracle_at(&mut self, i: usize, info: OracleInfo)
        requires
            old(self).wf(),
            i < old(self).oracles@.len(),
            info.address@ == old(self).oracles@[i as int].0@,
            info.reputation <= 10_000,
            weight_total(old(self).oracles@) - active_weight(old(self).oracles@[i as int].1) + active_weight(info)
                <= MAX_TOTAL_WEIGHT,
        ensures
            final(self).wf(),
            final(self)@ == (ManagerView {
                oracles: old(self)@.oracles.insert(old(self).oracles@[i as int].0@, info),
                ..old(self)@
            }),
            final(self).total_weight() == old(self).total_weight() - active_weight(old(self).oracles@[i as int].1)
                + active_weight(info),
            final(self).admin == old(self).admin,
            final(self).params == old(self).params,
            final(self).submissions == old(self).submissions,
            final(self).heartbeat_configs == old(self).heartbeat_configs,
            final(self).heartbeat_statuses == old(self).heartbeat_statuses,
    {
        let ghost s0 = self.oracles@;
        let key = self.oracles[i].0.clone();
        proof {
            lemma_update(s0, i as int, key, info);
            lemma_weight_total_update(s0, i as int, (key, info));
        }
        self.oracles.set(i, (key, info));
        proof {
            assert(self.oracles@ == s0.update(i as int, (key, info)));
            assert forall|j: int| 0 <= j < self.oracles@.len() implies (#[trigger] self.oracles@[j]).1.address@
                == self.oracles@[j].0@ && self.oracles@[j].1.reputation <= 10_000 by {
                if j != i {
                    assert(self.oracles@[j] == s0[j]);
                }
            }
        }
    }

    /// Deactivate an oracle.
    pub fn deactivate_oracle(&mut self, contract_address: &str, oracle_address: &str) -> (r: Result<(), OracleManagerError>)
        requires
            old(self).wf(),
        ensures
            final(self).wf(),
            contract_address@ != old(self)@.admin ==> r == Err::<(), OracleManagerError>(OracleManagerError::NotAuthorized),
            contract_address@ == old(self)@.admin && !old(self)@.oracles.dom().contains(oracle_address@) ==> r == Err::<
                (),
                OracleManagerError,
            >(OracleManagerError::OracleNotFound),
            contract_address@ == old(self)@.admin && old(self)@.oracles.dom().contains(oracle_address@) ==> r is Ok,
            r is Err ==> final(self)@ == old(self)@,
            r is Ok ==> contract_address@ == old(self)@.admin && old(self)@.oracles.dom().contains(oracle_address@)
                && final(self)@ == (ManagerView {
                oracles: old(self)@.oracles.insert(
                    oracle_address@,
                    OracleInfo { active: false, ..old(self)@.oracles[oracle_address@] },
                ),
                ..old(self)@
            }),
    {
        match self.require_admin(contract_address) {
            Err(e) => return Err(e),
            Ok(()) => {},
        }
        let i = match find_key(&self.oracles, oracle_address) {
            Some(i) => i,
            None => return Err(OracleManagerError::OracleNotFound),
        };
        let mut info = self.oracles[i].1.clone();
        info.active = false;
        proof {
            lemma_weight_total_nonneg(self.oracles@);
        }
        self.set_oracle_at(i, info);
        Ok(())
    }

    /// Replace the aggregation parameters; at least two oracles must be required.
    pub fn update_aggregation_params(&mut self, contract_address: &str, new_params: AggregationParams) -> (r: Result<
        (),
        OracleManagerError,
    >)
        requires
            old(self).wf(),
        ensures
            final(self).wf(),
            contract_address@ != old(self)@.admin ==> r == Err::<(), OracleManagerError>(OracleManagerError::NotAuthorized),
            contract_address@ == old(self)@.admin && new_params.min_oracles < 2 ==> r == Err::<(), OracleManagerError>(
                OracleManagerError::MinOraclesTooLow,
            ),
            contract_address@ == old(self)@.admin && new_params.min_oracles >= 2 ==> r is Ok,
            r is Err ==> final(self)@ == old(self)@,
            r is Ok ==> contract_address@ == old(self)@.admin && new_params.min_oracles >= 2 && final(self)@ == (ManagerView {
                params: new_params,
                ..old(self)@
            }),
    {
        match self.require_admin(contract_address) {
            Err(e) => return Err(e),
            Ok(()) => {},
        }
        if new_params.min_oracles < 2 {
            return Err(OracleManagerError::MinOraclesTooLow);
        }
        self.params = new_params;
        Ok(())
    }

    /// The aggregation parameters.
    pub fn get_aggregation_params(&self) -> (r: AggregationParams)
        ensures
            r == self@.params,
    {
        self.params
    }

    /// The record of an oracle.
    pub fn get_oracle_info(&self, oracle_address: &str) -> (r: Result<OracleInfo, OracleManagerError>)
        requires
            self.wf(),
        ensures
            self@.oracles.dom().contains(oracle_address@) ==> r == Ok::<OracleInfo, OracleManagerError>(
                self@.oracles[oracle_address@],
            ),
            !self@.oracles.dom().contains(oracle_address@) ==> r == Err::<OracleInfo, OracleManagerError>(
                OracleManagerError::OracleNotFound,
            ),
    {
        match find_key(&self.oracles, oracle_address) {
            Some(i) => Ok(self.oracles[i].1.clone()),
            None => Err(OracleManagerError::OracleNotFound),
        }
    }

    /// The active oracles, in registration order.
    pub fn get_registered_oracles(&self) -> (r: Vec<OracleInfo>)
        ensures
            r@ == active_infos(self.oracle_table()),
    {
        let mut out: Vec<OracleInfo> = Vec::new();
        let mut i: usize = 0;
        while i < self.oracles.len()
            invariant
                i <= self.oracles@.len(),
                out@ == active_infos(self.oracles@.take(i as int)),
            decreases self.oracles@.len() - i,
        {
            proof {
                assert(self.oracles@.take(i + 1).drop_last() =~= self.oracles@.take(i as int));
            }
            if self.oracles[i].1.active {
                out.push(self.oracles[i].1.clone());
            }
            i = i + 1;
        }
        proof {
            assert(self.oracles@.take(self.oracles@.len() as int) =~= self.oracles@);
        }
        out
    }

    /// Price deviation alerts of an asset; the contract keeps none.
    pub fn get_price_alerts(&self, asset_id: u32) -> (r: Vec<PriceDeviationAlert>)
        ensures
            r@.len() == 0,
    {
        Vec::new()
    }
}


/// `a - b`, or 0 when `b` is larger.
pub open spec fn sat_sub_u32(a: u32, b: u32) -> u32 {
    if a >= b { (a - b) as u32 } else { 0 }
}

/// `a + b`, or `u32::MAX` when the sum does not fit.
pub open spec fn sat_add_u32(a: u32, b: u32) -> u32 {
    if a + b > u32::MAX { u32::MAX } else { (a + b) as u32 }
}

/// The status a check starts from: the recorded one, or an empty record.
pub open spec fn base_status(cfg: HeartbeatConfig, st: Map<Seq<char>, HeartbeatStatus>) -> HeartbeatStatus {
    if st.dom().contains(cfg.oracle_address@) {
        st[cfg.oracle_address@]
    } else {
        HeartbeatStatus {
            oracle_address: cfg.oracle_address,
            last_heartbeat: 0,
            missed_count: 0,
            total_missed: 0,
            flagged: false,
        }
    }
}

/// Whole intervals elapsed since the last heartbeat, truncated to `u32`.
pub open spec fn expected_misses(cfg: HeartbeatConfig, s: HeartbeatStatus, now: u64) -> u32 {
    let elapsed: u64 = if now >= s.last_heartbeat { (now - s.last_heartbeat) as u64 } else { 0 };
    ((elapsed / cfg.interval_seconds) as u64) as u32
}

/// Severity of `m` consecutive misses when `max` are tolerated.
pub open spec fn miss_severity(m: u32, max: u32) -> AlertSeverity {
    if m >= max * 2 {
        AlertSeverity::Critical
    } else if m >= max {
        AlertSeverity::High
    } else if m >= max / 2 {
        AlertSeverity::Medium
    } else {
        AlertSeverity::Low
    }
}

/// Reputation lost for `m` consecutive misses when `max` are tolerated: 200 per
/// multiple of `max`, at most 2 000.
pub open spec fn miss_penalty(m: u32, max: u32) -> u32 {
    (200 * (if m / max < 10 { m / max } else { 10 })) as u32
}

/// The check of one enabled oracle: its new status, the new oracle table and the
/// alert, if any interval was missed.
pub open spec fn heartbeat_step(
    cfg: HeartbeatConfig,
    st: Map<Seq<char>, HeartbeatStatus>,
    orc: Map<Seq<char>, OracleInfo>,
    now: u64,
) -> (Map<Seq<char>, HeartbeatStatus>, Map<Seq<char>, OracleInfo>, Option<HeartbeatAlert>) {
    let a = cfg.oracle_address@;
    let s0 = base_status(cfg, st);
    let e = expected_misses(cfg, s0, now);
    if e == 0 {
        (st.insert(a, s0), orc, None)
    } else {
        let s1 = HeartbeatStatus {
            missed_count: e,
            total_missed: sat_add_u32(s0.total_missed, sat_sub_u32(e, s0.missed_count)),
            flagged: e >= cfg.max_missed,
            ..s0
        };
        let down = orc.dom().contains(a) && e >= cfg.max_missed;
        let orc1 = if down {
            orc.insert(a, OracleInfo { reputation: sat_sub_u32(orc[a].reputation, miss_penalty(e, cfg.max_missed)), ..orc[a] })
        } else {
            orc
        };
        (
            st.insert(a, s1),
            orc1,
            Some(
                HeartbeatAlert {
                    oracle_address: cfg.oracle_address,
                    consecutive_misses: e,
                    timestamp: now,
                    severity: miss_severity(e, cfg.max_missed),
                    reputation_downgraded: down,
                },
            ),
        )
    }
}

/// The checks of the configured oracles, in configuration order: statuses, oracle
/// table and alerts after them.
pub open spec fn heartbeat_fold(
    cfgs: Seq<(String, HeartbeatConfig)>,
    st: Map<Seq<char>, HeartbeatStatus>,
    orc: Map<Seq<char>, OracleInfo>,
    now: u64,
) -> (Map<Seq<char>, HeartbeatStatus>, Map<Seq<char>, OracleInfo>, Seq<HeartbeatAlert>)
    decreases cfgs.len(),
{
    if cfgs.len() == 0 {
        (st, orc, Seq::empty())
    } else {
        let prev = heartbeat_fold(cfgs.drop_last(), st, orc, now);
        let cfg = cfgs.last().1;
        if !cfg.enabled {
            prev
        } else {
            let step = heartbeat_step(cfg, prev.0, prev.1, now);
            (step.0, step.1, match step.2 {
                Some(x) => prev.2.push(x),
                None => prev.2,
            })
        }
    }
}

/// The check of one oracle stays within the arithmetic of the contract: with
/// misses, the doubled tolerance fits in `u32`, and a registered oracle has a
/// positive tolerance.
pub open spec fn heartbeat_step_fits(
    cfg: HeartbeatConfig,
    st: Map<Seq<char>, HeartbeatStatus>,
    orc: Map<Seq<char>, OracleInfo>,
    now: u64,
) -> bool {
    cfg.enabled && expected_misses(cfg, base_status(cfg, st), now) > 0 ==> cfg.max_missed * 2 <= u32::MAX && (
    orc.dom().contains(cfg.oracle_address@) ==> cfg.max_missed > 0)
}

/// Every check of the configured oracles stays within the contract's arithmetic.
pub open spec fn heartbeat_fits(
    cfgs: Seq<(String, HeartbeatConfig)>,
    st: Map<Seq<char>, HeartbeatStatus>,
    orc: Map<Seq<char>, OracleInfo>,
    now: u64,
) -> bool
    decreases cfgs.len(),
{
    if cfgs.len() == 0 {
        true
    } else {
        let prev = heartbeat_fold(cfgs.drop_last(), st, orc, now);
        heartbeat_fits(cfgs.drop_last(), st, orc, now) && heartbeat_step_fits(cfgs.last().1, prev.0, prev.1, now)
    }
}

impl OracleManagerContract {
    /// The heartbeat statuses, in the order the oracles were first seen.
    pub closed spec fn status_table(&self) -> Seq<(String, HeartbeatStatus)> {
        self.heartbeat_statuses@
    }

    /// The heartbeat configurations, in the order they were first set.
    pub closed spec fn config_table(&self) -> Seq<(String, HeartbeatConfig)> {
        self.heartbeat_configs@
    }

    /// Monitor an oracle's heartbeat every `interval_seconds`, tolerating
    /// `max_missed` misses; an oracle without a status starts with a heartbeat now.
    pub fn set_heartbeat_config(
        &mut self,
        contract_address: &str,
        oracle_address: &str,
        interval_seconds: u64,
        max_missed: u32,
        now: u64,
    ) -> (r: Result<(), OracleManagerError>)
        requires
            old(self).wf(),
        ensures
            final(self).wf(),
            contract_address@ != old(self)@.admin ==> r == Err::<(), OracleManagerError>(OracleManagerError::NotAuthorized),
            contract_address@ == old(self)@.admin && interval_seconds == 0 ==> r == Err::<(), OracleManagerError>(
                OracleManagerError::ZeroHeartbeatInterval,
            ),
            contract_address@ == old(self)@.admin && interval_seconds > 0 ==> r is Ok,
            r is Err ==> final(self)@ == old(self)@,
            r is Ok ==> contract_address@ == old(self)@.admin && interval_seconds > 0,
            r is Ok ==> {
                let v0 = old(self)@;
                let v1 = final(self)@;
                let a = oracle_address@;
                &&& v1.heartbeat_configs == v0.heartbeat_configs.insert(a, v1.heartbeat_configs[a])
                &&& v1.heartbeat_configs[a].oracle_address@ == a
                &&& v1.heartbeat_configs[a].interval_seconds == interval_seconds
                &&& v1.heartbeat_configs[a].max_missed == max_missed
                &&& v1.heartbeat_configs[a].enabled
                &&& v0.heartbeat_statuses.dom().contains(a) ==> v1.heartbeat_statuses == v0.heartbeat_statuses
                &&& !v0.heartbeat_statuses.dom().contains(a) ==> v1.heartbeat_statuses == v0.heartbeat_statuses.insert(
                    a,
                    v1.heartbeat_statuses[a],
                ) && v1.heartbeat_statuses[a].last_heartbeat == now && v1.heartbeat_statuses[a].missed_count == 0
                    && v1.heartbeat_statuses[a].total_missed == 0 && !v1.heartbeat_statuses[a].flagged
                &&& v1.admin == v0.admin && v1.oracles == v0.oracles && v1.params == v0.params && v1.submissions
                    == v0.submissions
            },
    {
        match self.require_admin(contract_address) {
            Err(e) => return Err(e),
            Ok(()) => {},
        }
        if interval_seconds == 0 {
            return Err(OracleManagerError::ZeroHeartbeatInterval);
        }
        let config = HeartbeatConfig {
            oracle_address: String::from_str(oracle_address),
            interval_seconds,
            max_missed,
            enabled: true,
        };
        upsert(&mut self.heartbeat_configs, oracle_address, config);
        if find_key(&self.heartbeat_statuses, oracle_address).is_none() {
            let status = HeartbeatStatus {
                oracle_address: String::from_str(oracle_address),
                last_heartbeat: now,
                missed_count: 0,
                total_missed: 0,
                flagged: false,
            };
            upsert(&mut self.heartbeat_statuses, oracle_address, status);
        }
        Ok(())
    }

    /// Record a heartbeat of an oracle now: its misses are cleared and it is no
    /// longer flagged.  Returns whether it was flagged.
    pub fn record_heartbeat(&mut self, oracle_address: &str, now: u64) -> (r: bool)
        requires
            old(self).wf(),
        ensures
            final(self).wf(),
            ({
                let v0 = old(self)@;
                let v1 = final(self)@;
                let a = oracle_address@;
                &&& v1.heartbeat_statuses == v0.heartbeat_statuses.insert(a, v1.heartbeat_statuses[a])
                &&& v1.heartbeat_statuses[a].last_heartbeat == now
                &&& v1.heartbeat_statuses[a].missed_count == 0
                &&& !v1.heartbeat_statuses[a].flagged
                &&& v1.heartbeat_statuses[a].total_missed == if v0.heartbeat_statuses.dom().contains(a) {
                    v0.heartbeat_statuses[a].total_missed
                } else {
                    0
                }
                &&& r == (v0.heartbeat_statuses.dom().contains(a) && v0.heartbeat_statuses[a].flagged)
                &&& v1.admin == v0.admin && v1.oracles == v0.oracles && v1.params == v0.params && v1.submissions
                    == v0.submissions && v1.heartbeat_configs == v0.heartbeat_configs
            }),
    {
        let (total_missed, was_flagged) = match find_key(&self.heartbeat_statuses, oracle_address) {
            Some(i) => (self.heartbeat_statuses[i].1.total_missed, self.heartbeat_statuses[i].1.flagged),
            None => (0, false),
        };
        let status = HeartbeatStatus {
            oracle_address: String::from_str(oracle_address),
            last_heartbeat: now,
            missed_count: 0,
            total_missed,
            flagged: false,
        };
        upsert(&mut self.heartbeat_statuses, oracle_address, status);
        was_flagged
    }

    /// The heartbeat status of an oracle.
    pub fn get_heartbeat_status(&self, oracle_address: &str) -> (r: Option<HeartbeatStatus>)
        requires
            self.wf(),
        ensures
            self@.heartbeat_statuses.dom().contains(oracle_address@) ==> r == Some(
                self@.heartbeat_statuses[oracle_address@],
            ),
            !self@.heartbeat_statuses.dom().contains(oracle_address@) ==> r is None,
    {
        match find_key(&self.heartbeat_statuses, oracle_address) {
            Some(i) => Some(self.heartbeat_statuses[i].1.clone()),
            None => None,
        }
    }

    /// The heartbeat configuration of an oracle.
    pub fn get_heartbeat_config(&self, oracle_address: &str) -> (r: Option<HeartbeatConfig>)
        requires
            self.wf(),
        ensures
            self@.heartbeat_configs.dom().contains(oracle_address@) ==> r == Some(
                self@.heartbeat_configs[oracle_address@],
            ),
            !self@.heartbeat_configs.dom().contains(oracle_address@) ==> r is None,
    {
        match find_key(&self.heartbeat_configs, oracle_address) {
            Some(i) => Some(self.heartbeat_configs[i].1.clone()),
            None => None,
        }
    }

    /// Every heartbeat status, in the order the oracles were first seen.
    pub fn get_all_heartbeat_statuses(&self) -> (r: Vec<HeartbeatStatus>)
        ensures
            r@ == self.status_table().map_values(|p: (String, HeartbeatStatus)| p.1),
    {
        let mut out: Vec<HeartbeatStatus> = Vec::new();
        let mut i: usize = 0;
        while i < self.heartbeat_statuses.len()
            invariant
                i <= self.heartbeat_statuses@.len(),
                out@ == self.heartbeat_statuses@.take(i as int).map_values(|p: (String, HeartbeatStatus)| p.1),
            decreases self.heartbeat_statuses@.len() - i,
        {
            out.push(self.heartbeat_statuses[i].1.clone());
            proof {
                assert(out@ =~= self.heartbeat_statuses@.take(i + 1).map_values(|p: (String, HeartbeatStatus)| p.1));
            }
            i = i + 1;
        }
        proof {
            assert(self.heartbeat_statuses@.take(self.heartbeat_statuses@.len() as int) =~= self.heartbeat_statuses@);
        }
        out
    }

    /// Stop monitoring an oracle's heartbeat (nothing happens without a
    /// configuration).
    pub fn disable_heartbeat(&mut self, contract_address: &str, oracle_address: &str) -> (r: Result<(), OracleManagerError>)
        requires
            old(self).wf(),
        ensures
            final(self).wf(),
            contract_address@ != old(self)@.admin ==> r == Err::<(), OracleManagerError>(OracleManagerError::NotAuthorized)
                && final(self)@ == old(self)@,
            contract_address@ == old(self)@.admin ==> r is Ok,
            contract_address@ == old(self)@.admin && !old(self)@.heartbeat_configs.dom().contains(oracle_address@)
                ==> final(self)@ == old(self)@,
            contract_address@ == old(self)@.admin && old(self)@.heartbeat_configs.dom().contains(oracle_address@)
                ==> final(self)@ == (ManagerView {
                heartbeat_configs: old(self)@.heartbeat_configs.insert(
                    oracle_address@,
                    HeartbeatConfig { enabled: false, ..old(self)@.heartbeat_configs[oracle_address@] },
                ),
                ..old(self)@
            }),
    {
        match self.require_admin(contract_address) {
            Err(e) => return Err(e),
            Ok(()) => {},
        }
        match find_key(&self.heartbeat_configs, oracle_address) {
            Some(i) => {
                let mut cfg = self.heartbeat_configs[i].1.clone();
                cfg.enabled = false;
                upsert(&mut self.heartbeat_configs, oracle_address, cfg);
            },
            None => {},
        }
        Ok(())
    }
}


proof fn lemma_heartbeat_fits_prefix(
    cfgs: Seq<(String, HeartbeatConfig)>,
    st: Map<Seq<char>, HeartbeatStatus>,
    orc: Map<Seq<char>, OracleInfo>,
    now: u64,
    k: int,
)
    requires
        0 <= k <= cfgs.len(),
        heartbeat_fits(cfgs, st, orc, now),
    ensures
        heartbeat_fits(cfgs.take(k), st, orc, now),
    decreases cfgs.len() - k,
{
    if k == cfgs.len() {
        assert(cfgs.take(k) =~= cfgs);
    } else {
        lemma_heartbeat_fits_prefix(cfgs, st, orc, now, k + 1);
        assert(cfgs.take(k + 1).drop_last() =~= cfgs.take(k));
    }
}

proof fn lemma_configs_wf(s: Seq<(String, HeartbeatConfig)>, i: int)
    requires
        distinct_keys(s),
        0 <= i < s.len(),
        forall|k: Seq<char>| #[trigger] to_map(s).dom().contains(k) ==> to_map(s)[k].interval_seconds > 0,
    ensures
        s[i].1.interval_seconds > 0,
{
    lemma_to_map_value(s, i);
}

impl OracleManagerContract {
    /// Check the heartbeats of the monitored oracles at time `now`, in
    /// configuration order: each oracle's misses are counted in whole intervals
    /// since its last heartbeat; with misses, an alert is raised, the oracle is
    /// flagged once its tolerance is reached, and a registered oracle loses
    /// reputation.
    pub fn check_heartbeats(&mut self, now: u64) -> (r: Vec<HeartbeatAlert>)
        requires
            old(self).wf(),
            heartbeat_fits(old(self).config_table(), old(self)@.heartbeat_statuses, old(self)@.oracles, now),
        ensures
            final(self).wf(),
            ({
                let f = heartbeat_fold(old(self).config_table(), old(self)@.heartbeat_statuses, old(self)@.oracles, now);
                &&& final(self)@.heartbeat_statuses == f.0
                &&& final(self)@.oracles == f.1
                &&& r@ == f.2
            }),
            final(self)@.admin == old(self)@.admin,
            final(self)@.params == old(self)@.params,
            final(self)@.submissions == old(self)@.submissions,
            final(self)@.heartbeat_configs == old(self)@.heartbeat_configs,
            final(self).config_table() == old(self).config_table(),
    {
        let ghost st0 = self@.heartbeat_statuses;
        let ghost orc0 = self@.oracles;
        let ghost c = self.heartbeat_configs@;
        let mut cfgs: Vec<(String, HeartbeatConfig)> = Vec::new();
        let mut j: usize = 0;
        while j < self.heartbeat_configs.len()
            invariant
                j <= c.len(),
                c == self.heartbeat_configs@,
                cfgs@ == c.take(j as int),
            decreases c.len() - j,
        {
            let k = self.heartbeat_configs[j].0.clone();
            let v = self.heartbeat_configs[j].1.clone();
            cfgs.push((k, v));
            proof {
                assert(cfgs@ =~= c.take(j + 1));
            }
            j = j + 1;
        }
        proof {
            assert(cfgs@ =~= c);
        }
        let mut alerts: Vec<HeartbeatAlert> = Vec::new();
        let mut i: usize = 0;
        while i < cfgs.len()
            invariant
                i <= c.len(),
                cfgs@ == c,
                c == self.heartbeat_configs@,
                self.wf(),
                old(self).wf(),
                distinct_keys(c),
                forall|k: Seq<char>| #[trigger] to_map(c).dom().contains(k) ==> to_map(c)[k].interval_seconds > 0,
                self.admin == old(self).admin,
                self.params == old(self).params,
                self.submissions == old(self).submissions,
                heartbeat_fits(c, st0, orc0, now),
                ({
                    let f = heartbeat_fold(c.take(i as int), st0, orc0, now);
                    &&& self@.heartbeat_statuses == f.0
                    &&& self@.oracles == f.1
                    &&& alerts@ == f.2
                }),
            decreases c.len() - i,
        {
            let ghost t1 = c.take(i + 1);
            let ghost prev = heartbeat_fold(c.take(i as int), st0, orc0, now);
            proof {
                assert(t1.drop_last() =~= c.take(i as int));
                assert(t1.last() == c[i as int]);
                lemma_heartbeat_fits_prefix(c, st0, orc0, now, i + 1);
                lemma_configs_wf(c, i as int);
            }
            let cfg = cfgs[i].1.clone();
            if cfg.enabled {
                let base = match find_key(&self.heartbeat_statuses, cfg.oracle_address.as_str()) {
                    Some(k) => self.heartbeat_statuses[k].1.clone(),
                    None => HeartbeatStatus {
                        oracle_address: cfg.oracle_address.clone(),
                        last_heartbeat: 0,
                        missed_count: 0,
                        total_missed: 0,
                        flagged: false,
                    },
                };
                proof {
                    if prev.0.dom().contains(cfg.oracle_address@) {
                        assert(base == prev.0[cfg.oracle_address@]);
                    }
                }
                let elapsed: u64 = now.saturating_sub(base.last_heartbeat);
                let q: u64 = elapsed / cfg.interval_seconds;
                let expected: u32 = #[verifier::truncate] (q as u32);
                if expected == 0 {
                    upsert(&mut self.heartbeat_statuses, cfg.oracle_address.as_str(), base);
                } else {
                    let new_missed: u32 = expected.saturating_sub(base.missed_count);
                    let max = cfg.max_missed;
                    let severity = if expected >= max * 2 {
                        AlertSeverity::Critical
                    } else if expected >= max {
                        AlertSeverity::High
                    } else if expected >= max / 2 {
                        AlertSeverity::Medium
                    } else {
                        AlertSeverity::Low
                    };
                    let mut downgraded = false;
                    match find_key(&self.oracles, cfg.oracle_address.as_str()) {
                        Some(k) => {
                            if expected >= max {
                                let ratio: u32 = expected / max;
                                let capped: u32 = if ratio < 10 { ratio } else { 10 };
                                let penalty: u32 = 200 * capped;
                                let mut info = self.oracles[k].1.clone();
                                info.reputation = info.reputation.saturating_sub(penalty);
                                self.set_oracle_at(k, info);
                                downgraded = true;
                            }
                        },
                        None => {},
                    }
                    let status = HeartbeatStatus {
                        oracle_address: base.oracle_address,
                        last_heartbeat: base.last_heartbeat,
                        missed_count: expected,
                        total_missed: base.total_missed.saturating_add(new_missed),
                        flagged: expected >= max,
                    };
                    upsert(&mut self.heartbeat_statuses, cfg.oracle_address.as_str(), status);
                    alerts.push(
                        HeartbeatAlert {
                            oracle_address: cfg.oracle_address.clone(),
                            consecutive_misses: expected,
                            timestamp: now,
                            severity,
                            reputation_downgraded: downgraded,
                        },
                    );
                }
            }
            i = i + 1;
        }
        proof {
            assert(c.take(c.len() as int) =~= c);
        }
        alerts
    }
}


/// Sum of `f` over a sequence of prices.
pub open spec fn seq_sum(ps: Seq<OraclePrice>, f: spec_fn(OraclePrice) -> nat) -> nat
    decreases ps.len(),
{
    if ps.len() == 0 {
        0
    } else {
        seq_sum(ps.drop_last(), f) + f(ps.last())
    }
}

proof fn lemma_seq_sum_prefix(ps: Seq<OraclePrice>, f: spec_fn(OraclePrice) -> nat, k: int)
    requires
        0 <= k <= ps.len(),
    ensures
        seq_sum(ps.take(k), f) <= seq_sum(ps, f),
    decreases ps.len() - k,
{
    if k == ps.len() {
        assert(ps.take(k) =~= ps);
    } else {
        lemma_seq_sum_prefix(ps, f, k + 1);
        assert(ps.take(k + 1).drop_last() =~= ps.take(k));
    }
}

/// Weight of the oracle that submitted `p`: its weight when it is registered and
/// active, else 0.
pub open spec fn weight_of(p: OraclePrice, orc: Map<Seq<char>, OracleInfo>) -> nat {
    if orc.dom().contains(p.source_address@) && orc[p.source_address@].active {
        orc[p.source_address@].weight as nat
    } else {
        0
    }
}

/// The weight of a submission's oracle.
pub open spec fn oracle_weight(orc: Map<Seq<char>, OracleInfo>) -> spec_fn(OraclePrice) -> nat {
    |p: OraclePrice| weight_of(p, orc)
}

/// A submission's price times its oracle's weight.
pub open spec fn weighted_price(orc: Map<Seq<char>, OracleInfo>) -> spec_fn(OraclePrice) -> nat {
    |p: OraclePrice| (p.price * weight_of(p, orc)) as nat
}

/// A submission's confidence.
pub open spec fn confidence_of() -> spec_fn(OraclePrice) -> nat {
    |p: OraclePrice| p.confidence as nat
}

/// A submission's price times its confidence.
pub open spec fn confidence_price() -> spec_fn(OraclePrice) -> nat {
    |p: OraclePrice| (p.price * p.confidence) as nat
}

/// How recent a submission is at `now`: the part of the timeout still ahead of it
/// (0 once older than the timeout).
pub open spec fn recency_of(p: OraclePrice, now: u64) -> nat {
    if now - p.timestamp > ORACLE_TIMEOUT {
        0
    } else {
        (ORACLE_TIMEOUT - (now - p.timestamp)) as nat
    }
}

/// A submission's recency.
pub open spec fn recency(now: u64) -> spec_fn(OraclePrice) -> nat {
    |p: OraclePrice| recency_of(p, now)
}

/// A submission's price times its recency.
pub open spec fn recency_price(now: u64) -> spec_fn(OraclePrice) -> nat {
    |p: OraclePrice| (p.price * recency_of(p, now)) as nat
}

/// Average confidence of the submissions (truncating).
pub open spec fn average_confidence(ps: Seq<OraclePrice>) -> u32 {
    (seq_sum(ps, confidence_of()) / ps.len()) as u32
}

/// The aggregate of the submissions `ps` (price and confidence), or why it fails.
pub open spec fn aggregate_spec(
    ps: Seq<OraclePrice>,
    params: AggregationParams,
    orc: Map<Seq<char>, OracleInfo>,
    now: u64,
) -> Result<(u64, u32), OracleManagerError> {
    if ps.len() < params.min_oracles {
        Err(OracleManagerError::InsufficientPriceSources)
    } else {
        match params.aggregation_method {
            AggregationMethod::WeightedAverage => {
                let tw = seq_sum(ps, oracle_weight(orc));
                if tw == 0 {
                    Err(OracleManagerError::NoActiveOracles)
                } else {
                    Ok(((seq_sum(ps, weighted_price(orc)) / tw) as u64, average_confidence(ps)))
                }
            },
            AggregationMethod::Median => Ok((ps[(ps.len() / 2) as int].price, ps[(ps.len() / 2) as int].confidence)),
            AggregationMethod::ConfidenceWeighted => {
                let tc = seq_sum(ps, confidence_of());
                if tc == 0 {
                    Err(OracleManagerError::NoValidPriceData)
                } else {
                    Ok(((seq_sum(ps, confidence_price()) / tc) as u64, (tc / ps.len()) as u32))
                }
            },
            AggregationMethod::TimeWeightedAverage => {
                let tr = seq_sum(ps, recency(now));
                if tr == 0 {
                    Err(OracleManagerError::NoRecentPriceData)
                } else {
                    Ok(((seq_sum(ps, recency_price(now)) / tr) as u64, average_confidence(ps)))
                }
            },
        }
    }
}

/// The aggregation of `ps` stays within the contract's arithmetic: the sums fit
/// their integer types and no submission lies after `now` for the time-weighted
/// method.
pub open spec fn aggregation_fits(
    ps: Seq<OraclePrice>,
    params: AggregationParams,
    orc: Map<Seq<char>, OracleInfo>,
    now: u64,
) -> bool {
    &&& ps.len() <= u32::MAX
    &&& ps.len() >= params.min_oracles ==> match params.aggregation_method {
        AggregationMethod::WeightedAverage => seq_sum(ps, weighted_price(orc)) <= u128::MAX && seq_sum(
            ps,
            oracle_weight(orc),
        ) <= u32::MAX && seq_sum(ps, confidence_of()) <= u32::MAX,
        AggregationMethod::Median => true,
        AggregationMethod::ConfidenceWeighted => seq_sum(ps, confidence_price()) <= u128::MAX && seq_sum(
            ps,
            confidence_of(),
        ) <= u32::MAX,
        AggregationMethod::TimeWeightedAverage => (forall|i: int| 0 <= i < ps.len() ==> (#[trigger] ps[i]).timestamp <= now)
            && seq_sum(ps, recency_price(now)) <= u128::MAX && seq_sum(ps, recency(now)) <= u64::MAX && seq_sum(
            ps,
            confidence_of(),
        ) <= u32::MAX,
    }
}

/// The submissions for one asset.
pub open spec fn for_asset(a: u32) -> spec_fn(OraclePrice) -> bool {
    |p: OraclePrice| p.asset_id == a
}

/// The aggregate price record for `ps` at `now`, stamped with `addr`.
pub open spec fn aggregate_record(ps: Seq<OraclePrice>, pc: (u64, u32), now: u64, addr: Seq<char>, r: OraclePrice) -> bool {
    &&& r.asset_id == ps[0].asset_id
    &&& r.price == pc.0
    &&& r.decimals == 6
    &&& r.confidence == pc.1
    &&& r.timestamp == now
    &&& r.source_address@ == addr
}

impl OracleManagerContract {
    /// Average confidence of non-empty submissions.
    fn calculate_average_confidence(ps: &Vec<OraclePrice>) -> (r: u32)
        requires
            0 < ps@.len() <= u32::MAX,
            seq_sum(ps@, confidence_of()) <= u32::MAX,
        ensures
            r == average_confidence(ps@),
    {
        let mut total: u32 = 0;
        let mut i: usize = 0;
        while i < ps.len()
            invariant
                i <= ps@.len(),
                total == seq_sum(ps@.take(i as int), confidence_of()),
                seq_sum(ps@, confidence_of()) <= u32::MAX,
            decreases ps@.len() - i,
        {
            proof {
                assert(ps@.take(i + 1).drop_last() =~= ps@.take(i as int));
                lemma_seq_sum_prefix(ps@, confidence_of(), i + 1);
            }
            total = total + ps[i].confidence;
            i = i + 1;
        }
        proof {
            assert(ps@.take(ps@.len() as int) =~= ps@);
        }
        total / (ps.len() as u32)
    }

    /// Average of the submissions weighted by their oracles' weights.
    fn weighted_average(&self, ps: &Vec<OraclePrice>) -> (r: Result<(u64, u32), OracleManagerError>)
        requires
            self.wf(),
            0 < ps@.len() <= u32::MAX,
            seq_sum(ps@, weighted_price(self@.oracles)) <= u128::MAX,
            seq_sum(ps@, oracle_weight(self@.oracles)) <= u32::MAX,
            seq_sum(ps@, confidence_of()) <= u32::MAX,
        ensures
            ({
                let tw = seq_sum(ps@, oracle_weight(self@.oracles));
                if tw == 0 {
                    r == Err::<(u64, u32), OracleManagerError>(OracleManagerError::NoActiveOracles)
                } else {
                    r == Ok::<(u64, u32), OracleManagerError>(
                        ((seq_sum(ps@, weighted_price(self@.oracles)) / tw) as u64, average_confidence(ps@)),
                    )
                }
            }),
    {
        let ghost orc = self@.oracles;
        let mut sum: u128 = 0;
        let mut total: u32 = 0;
        let mut i: usize = 0;
        while i < ps.len()
            invariant
                i <= ps@.len(),
                self.wf(),
                orc == self@.oracles,
                sum == seq_sum(ps@.take(i as int), weighted_price(orc)),
                total == seq_sum(ps@.take(i as int), oracle_weight(orc)),
                seq_sum(ps@, weighted_price(orc)) <= u128::MAX,
                seq_sum(ps@, oracle_weight(orc)) <= u32::MAX,
            decreases ps@.len() - i,
        {
            proof {
                assert(ps@.take(i + 1).drop_last() =~= ps@.take(i as int));
                assert(ps@.take(i + 1).last() == ps@[i as int]);
                lemma_seq_sum_prefix(ps@, weighted_price(orc), i + 1);
                lemma_seq_sum_prefix(ps@, oracle_weight(orc), i + 1);
            }
            match find_key(&self.oracles, ps[i].source_address.as_str()) {
                Some(k) => {
                    if self.oracles[k].1.active {
                        let w = self.oracles[k].1.weight;
                        sum = sum + (ps[i].price as u128) * (w as u128);
                        total = total + w;
                    }
                },
                None => {},
            }
            i = i + 1;
        }
        proof {
            assert(ps@.take(ps@.len() as int) =~= ps@);
        }
        if total == 0 {
            return Err(OracleManagerError::NoActiveOracles);
        }
        let q: u128 = sum / (total as u128);
        let avg: u64 = #[verifier::truncate] (q as u64);
        Ok((avg, Self::calculate_average_confidence(ps)))
    }

    /// The middle submission, in submission order.
    fn median_price(ps: &Vec<OraclePrice>) -> (r: (u64, u32))
        requires
            ps@.len() > 0,
        ensures
            r == (ps@[(ps@.len() / 2) as int].price, ps@[(ps@.len() / 2) as int].confidence),
    {
        let m = ps.len() / 2;
        (ps[m].price, ps[m].confidence)
    }

    /// Average of the submissions weighted by their confidence.
    fn confidence_weighted(ps: &Vec<OraclePrice>) -> (r: Result<(u64, u32), OracleManagerError>)
        requires
            0 < ps@.len() <= u32::MAX,
            seq_sum(ps@, confidence_price()) <= u128::MAX,
            seq_sum(ps@, confidence_of()) <= u32::MAX,
        ensures
            ({
                let tc = seq_sum(ps@, confidence_of());
                if tc == 0 {
                    r == Err::<(u64, u32), OracleManagerError>(OracleManagerError::NoValidPriceData)
                } else {
                    r == Ok::<(u64, u32), OracleManagerError>(
                        ((seq_sum(ps@, confidence_price()) / tc) as u64, (tc / ps@.len()) as u32),
                    )
                }
            }),
    {
        let mut sum: u128 = 0;
        let mut total: u32 = 0;
        let mut i: usize = 0;
        while i < ps.len()
            invariant
                i <= ps@.len(),
                sum == seq_sum(ps@.take(i as int), confidence_price()),
                total == seq_sum(ps@.take(i as int), confidence_of()),
                seq_sum(ps@, confidence_price()) <= u128::MAX,
                seq_sum(ps@, confidence_of()) <= u32::MAX,
            decreases ps@.len() - i,
        {
            proof {
                assert(ps@.take(i + 1).drop_last() =~= ps@.take(i as int));
                assert(ps@.take(i + 1).last() == ps@[i as int]);
                lemma_seq_sum_prefix(ps@, confidence_price(), i + 1);
                lemma_seq_sum_prefix(ps@, confidence_of(), i + 1);
            }
            sum = sum + (ps[i].price as u128) * (ps[i].confidence as u128);
            total = total + ps[i].confidence;
            i = i + 1;
        }
        proof {
            assert(ps@.take(ps@.len() as int) =~= ps@);
        }
        if total == 0 {
            return Err(OracleManagerError::NoValidPriceData);
        }
        let q: u128 = sum / (total as u128);
        let avg: u64 = #[verifier::truncate] (q as u64);
        Ok((avg, total / (ps.len() as u32)))
    }

    /// Average of the submissions weighted by how recent they are at `now`.
    fn time_weighted_average(ps: &Vec<OraclePrice>, now: u64) -> (r: Result<(u64, u32), OracleManagerError>)
        requires
            0 < ps@.len() <= u32::MAX,
            forall|i: int| 0 <= i < ps@.len() ==> (#[trigger] ps@[i]).timestamp <= now,
            seq_sum(ps@, recency_price(now)) <= u128::MAX,
            seq_sum(ps@, recency(now)) <= u64::MAX,
            seq_sum(ps@, confidence_of()) <= u32::MAX,
        ensures
            ({
                let tr = seq_sum(ps@, recency(now));
                if tr == 0 {
                    r == Err::<(u64, u32), OracleManagerError>(OracleManagerError::NoRecentPriceData)
                } else {
                    r == Ok::<(u64, u32), OracleManagerError>(
                        ((seq_sum(ps@, recency_price(now)) / tr) as u64, average_confidence(ps@)),
                    )
                }
            }),
    {
        let mut sum: u128 = 0;
        let mut total: u64 = 0;
        let mut i: usize = 0;
        while i < ps.len()
            invariant
                i <= ps@.len(),
                forall|j: int| 0 <= j < ps@.len() ==> (#[trigger] ps@[j]).timestamp <= now,
                sum == seq_sum(ps@.take(i as int), recency_price(now)),
                total == seq_sum(ps@.take(i as int), recency(now)),
                seq_sum(ps@, recency_price(now)) <= u128::MAX,
                seq_sum(ps@, recency(now)) <= u64::MAX,
            decreases ps@.len() - i,
        {
            proof {
                assert(ps@.take(i + 1).drop_last() =~= ps@.take(i as int));
                assert(ps@.take(i + 1).last() == ps@[i as int]);
                lemma_seq_sum_prefix(ps@, recency_price(now), i + 1);
                lemma_seq_sum_prefix(ps@, recency(now), i + 1);
            }
            let age: u64 = now - ps[i].timestamp;
            let factor: u64 = if age > ORACLE_TIMEOUT { 0 } else { ORACLE_TIMEOUT - age };
            sum = sum + (ps[i].price as u128) * (factor as u128);
            total = total + factor;
            i = i + 1;
        }
        proof {
            assert(ps@.take(ps@.len() as int) =~= ps@);
        }
        if total == 0 {
            return Err(OracleManagerError::NoRecentPriceData);
        }
        let q: u128 = sum / (total as u128);
        let avg: u64 = #[verifier::truncate] (q as u64);
        Ok((avg, Self::calculate_average_confidence(ps)))
    }

    /// Combine the submissions `ps` by the configured method.
    fn aggregate_prices(&self, ps: &Vec<OraclePrice>, now: u64) -> (r: Result<(u64, u32), OracleManagerError>)
        requires
            self.wf(),
            aggregation_fits(ps@, self@.params, self@.oracles, now),
        ensures
            r == aggregate_spec(ps@, self@.params, self@.oracles, now),
    {
        if ps.len() < self.params.min_oracles as usize {
            return Err(OracleManagerError::InsufficientPriceSources);
        }
        match self.params.aggregation_method {
            AggregationMethod::WeightedAverage => self.weighted_average(ps),
            AggregationMethod::Median => Ok(Self::median_price(ps)),
            AggregationMethod::ConfidenceWeighted => Self::confidence_weighted(ps),
            AggregationMethod::TimeWeightedAverage => Self::time_weighted_average(ps, now),
        }
    }

    /// The submissions for one asset, in submission order.
    fn prices_of(&self, asset_id: u32) -> (r: Vec<OraclePrice>)
        ensures
            r@ == self@.submissions.filter(for_asset(asset_id)),
    {
        let mut out: Vec<OraclePrice> = Vec::new();
        let mut i: usize = 0;
        while i < self.submissions.len()
            invariant
                i <= self.submissions@.len(),
                out@ == self.submissions@.take(i as int).filter(for_asset(asset_id)),
            decreases self.submissions@.len() - i,
        {
            proof {
                assert(self.submissions@.take(i + 1).drop_last() =~= self.submissions@.take(i as int));
                reveal(Seq::filter);
            }
            if self.submissions[i].asset_id == asset_id {
                out.push(self.submissions[i].clone());
            }
            i = i + 1;
        }
        proof {
            assert(self.submissions@.take(self.submissions@.len() as int) =~= self.submissions@);
        }
        out
    }

    /// The aggregated price of an asset at `now`, stamped with `aggregate_address`.
    pub fn get_aggregated_price(&self, asset_id: u32, now: u64, aggregate_address: &str) -> (r: Result<
        OraclePrice,
        OracleManagerError,
    >)
        requires
            self.wf(),
            aggregation_fits(self@.submissions.filter(for_asset(asset_id)), self@.params, self@.oracles, now),
        ensures
            ({
                let ps = self@.submissions.filter(for_asset(asset_id));
                &&& ps.len() == 0 ==> r == Err::<OraclePrice, OracleManagerError>(OracleManagerError::NoPriceData)
                &&& ps.len() > 0 ==> match aggregate_spec(ps, self@.params, self@.oracles, now) {
                    Ok(pc) => r matches Ok(p) && aggregate_record(ps, pc, now, aggregate_address@, p),
                    Err(e) => r == Err::<OraclePrice, OracleManagerError>(e),
                }
            }),
    {
        let ps = self.prices_of(asset_id);
        if ps.len() == 0 {
            return Err(OracleManagerError::NoPriceData);
        }
        match self.aggregate_prices(&ps, now) {
            Err(e) => Err(e),
            Ok((price, confidence)) => Ok(
                OraclePrice {
                    asset_id: ps[0].asset_id,
                    price,
                    decimals: 6,
                    confidence,
                    timestamp: now,
                    source_address: String::from_str(aggregate_address),
                },
            ),
        }
    }
}


/// Why a submission by oracle `a` is refused before aggregation, if it is.
pub open spec fn submission_refusal(v: ManagerView, a: Seq<char>, confidence: u32, timestamp: u64, now: u64) -> Option<
    OracleManagerError,
> {
    if !v.oracles.dom().contains(a) {
        Some(OracleManagerError::OracleNotRegistered)
    } else if !v.oracles[a].active {
        Some(OracleManagerError::OracleNotActive)
    } else if timestamp > now {
        Some(OracleManagerError::FutureTimestamp)
    } else if now - v.oracles[a].last_update > v.params.oracle_timeout {
        Some(OracleManagerError::StaleData)
    } else if confidence < v.params.min_confidence {
        Some(OracleManagerError::ConfidenceTooLow)
    } else {
        None
    }
}

/// `p` is the record of a submission with these fields, by oracle `a`.
pub open spec fn is_submission(p: OraclePrice, asset_id: u32, price: u64, confidence: u32, timestamp: u64, a: Seq<char>) -> bool {
    &&& p.asset_id == asset_id
    &&& p.price == price
    &&& p.decimals == 6
    &&& p.confidence == confidence
    &&& p.timestamp == timestamp
    &&& p.source_address@ == a
}

/// Reputation after an accepted submission: 500 more for a confidence of 90% or
/// above, at most 10 000.
pub open spec fn rewarded_reputation(rep: u32, confidence: u32) -> u32 {
    let bonus: int = if confidence >= 9000 { 500 } else { 0 };
    if rep + bonus < 10_000 { (rep + bonus) as u32 } else { 10_000 }
}

/// Outcome of an accepted submission `p` by oracle `a`: the asset's submissions
/// with `p` must aggregate; then `p` is stored and the oracle's record updated.
pub open spec fn submission_applied(
    v0: ManagerView,
    v1: ManagerView,
    a: Seq<char>,
    p: OraclePrice,
    now: u64,
    r: Result<(), OracleManagerError>,
) -> bool {
    let ps = v0.submissions.filter(for_asset(p.asset_id)).push(p);
    match aggregate_spec(ps, v0.params, v0.oracles, now) {
        Err(e) => r == Err::<(), OracleManagerError>(e) && v1 == v0,
        Ok(_) => r is Ok && v1 == (ManagerView {
            submissions: v0.submissions.push(p),
            oracles: v0.oracles.insert(
                a,
                OracleInfo {
                    successful_updates: (v0.oracles[a].successful_updates + 1) as u64,
                    last_update: now,
                    reputation: rewarded_reputation(v0.oracles[a].reputation, p.confidence),
                    ..v0.oracles[a]
                },
            ),
            ..v0
        }),
    }
}

/// The outcome of a submission that passed the checks.
pub open spec fn submission_outcome(
    v0: ManagerView,
    v1: ManagerView,
    a: Seq<char>,
    asset_id: u32,
    price: u64,
    confidence: u32,
    timestamp: u64,
    now: u64,
    r: Result<(), OracleManagerError>,
) -> bool {
    exists|p: OraclePrice| #[trigger] is_submission(p, asset_id, price, confidence, timestamp, a) && submission_applied(v0, v1, a, p, now, r)
}

impl OracleManagerContract {
    /// Submit a price observed at `timestamp` by a registered, active oracle at
    /// time `now`.  The oracle must not be silent for longer than the timeout and
    /// the confidence must reach the minimum; the asset's submissions, this one
    /// included, must then aggregate.  On success the oracle's counters and
    /// reputation are updated.
    pub fn submit_price(
        &mut self,
        oracle_address: &str,
        asset_id: u32,
        price: u64,
        confidence: u32,
        timestamp: u64,
        now: u64,
    ) -> (r: Result<(), OracleManagerError>)
        requires
            old(self).wf(),
            old(self)@.oracles.dom().contains(oracle_address@) && old(self)@.oracles[oracle_address@].active && timestamp
                <= now ==> old(self)@.oracles[oracle_address@].last_update <= now,
            submission_refusal(old(self)@, oracle_address@, confidence, timestamp, now) is None ==> {
                &&& old(self)@.oracles[oracle_address@].successful_updates < u64::MAX
                &&& forall|p: OraclePrice|
                    #[trigger] is_submission(p, asset_id, price, confidence, timestamp, oracle_address@) ==> aggregation_fits(
                        old(self)@.submissions.filter(for_asset(asset_id)).push(p),
                        old(self)@.params,
                        old(self)@.oracles,
                        now,
                    )
            },
        ensures
            final(self).wf(),
            match submission_refusal(old(self)@, oracle_address@, confidence, timestamp, now) {
                Some(e) => r == Err::<(), OracleManagerError>(e) && final(self)@ == old(self)@,
                None => submission_outcome(
                    old(self)@,
                    final(self)@,
                    oracle_address@,
                    asset_id,
                    price,
                    confidence,
                    timestamp,
                    now,
                    r,
                ),
            },
    {
        let i = match find_key(&self.oracles, oracle_address) {
            Some(i) => i,
            None => return Err(OracleManagerError::OracleNotRegistered),
        };
        let info = self.oracles[i].1.clone();
        if !info.active {
            return Err(OracleManagerError::OracleNotActive);
        }
        if timestamp > now {
            return Err(OracleManagerError::FutureTimestamp);
        }
        if now - info.last_update > self.params.oracle_timeout {
            return Err(OracleManagerError::StaleData);
        }
        if confidence < self.params.min_confidence {
            return Err(OracleManagerError::ConfidenceTooLow);
        }
        let p = OraclePrice {
            asset_id,
            price,
            decimals: 6,
            confidence,
            timestamp,
            source_address: String::from_str(oracle_address),
        };
        let ghost v0 = self@;
        proof {
            assert(is_submission(p, asset_id, price, confidence, timestamp, oracle_address@));
        }
        let mut ps = self.prices_of(asset_id);
        ps.push(p.clone());
        match self.aggregate_prices(&ps, now) {
            Err(e) => {
                proof {
                    assert(submission_applied(v0, self@, oracle_address@, p, now, Err::<(), OracleManagerError>(e)));
                }
                return Err(e);
            },
            Ok(_) => {},
        }
        let bonus: u32 = if confidence >= 9000 { 500 } else { 0 };
        let rep: u32 = if info.reputation + bonus < 10_000 { info.reputation + bonus } else { 10_000 };
        let new_info = OracleInfo {
            address: info.address,
            name: info.name,
            weight: info.weight,
            reputation: rep,
            successful_updates: info.successful_updates + 1,
            failed_updates: info.failed_updates,
            last_update: now,
            active: info.active,
        };
        proof {
            lemma_weight_total_nonneg(self.oracles@);
        }
        self.set_oracle_at(i, new_info);
        self.submissions.push(p);
        proof {
            assert(submission_applied(v0, self@, oracle_address@, p, now, Ok::<(), OracleManagerError>(())));
        }
        Ok(())
    }
}


impl OracleManagerContract {
    /// The active oracles' weights never add up to more than 100%, and no
    /// reputation exceeds 10 000.
    pub proof fn lemma_weight_and_reputation_bounded(&self)
        requires
            self.wf(),
        ensures
            self.total_weight() <= MAX_TOTAL_WEIGHT,
            forall|a: Seq<char>| #[trigger] self@.oracles.dom().contains(a) ==> self@.oracles[a].reputation <= 10_000,
    {
        assert forall|a: Seq<char>| #[trigger] self@.oracles.dom().contains(a) implies self@.oracles[a].reputation <= 10_000 by {
            lemma_to_map_dom(self.oracles@, a);
            let i = choose|i: int| 0 <= i < self.oracles@.len() && self.oracles@[i].0@ == a;
            lemma_to_map_value(self.oracles@, i);
        }
    }
}

} // verus!
