//! A staked, reputation-weighted price oracle: oracles stake to register,
//! report prices that are aggregated per asset by reputation, can be slashed by
//! the admin or through disputes, and withdraw their stake after an unbonding
//! period.  Also the slashing of oracle nodes on evidence of bad data.
//!
//! Ledger time is passed in as `now`.  Configuration values are kept by name;
//! the named values below are set at initialization.

use vstd::prelude::*;
use crate::idmap::{distinct_ids, find_id, id_map, lemma_id_map_value, lemma_id_update, upsert_id};
use crate::keyed::{distinct_keys, find_key, remove_key, to_map, upsert};

verus! {

/// Minimum stake to register.
pub const MIN_STAKE: u64 = 1_000_000;
/// Reports needed before an asset's price is aggregated.
pub const MIN_ORACLES: u32 = 3;
/// Largest price deviation tolerated (basis points).
pub const MAX_PRICE_DEVIATION: u32 = 500;
/// Oldest report accepted (seconds).
pub const ORACLE_TIMEOUT: u64 = 3600;
/// Lowest confidence accepted (basis points).
pub const MIN_CONFIDENCE: u32 = 7000;
/// Share of the stake slashed (basis points).
pub const SLASH_PERCENTAGE: u32 = 1000;
/// Unbonding period before a withdrawal (seconds).
pub const UNBONDING_PERIOD: u64 = 604_800;
/// Most oracles at a time.
pub const MAX_ORACLES: u32 = 100;
/// Time a dispute is under review (seconds).
pub const DISPUTE_REVIEW_PERIOD: u64 = 172_800;
/// Bond a challenger posts to open a dispute.
pub const DISPUTE_BOND: u64 = 500_000;
/// Reputation of a newly registered oracle (basis points).
pub const INITIAL_REPUTATION: u32 = 8000;
/// Most reports kept per asset, so that the reputation total fits in a `u32`.
pub const MAX_REPORTS_PER_ASSET: usize = 536_870;

/// Errors of the decentralized oracle.
#[derive(Clone, Copy, Debug, PartialEq, Eq, Structural)]
pub enum DecentralizedOracleError {
    AlreadyInitialized,
    Unauthorized,
    InsufficientStake,
    OracleExists,
    OracleNotFound,
    InvalidPrice,
    InsufficientOracles,
    PriceTooOld,
    ConfidenceTooLow,
    MaxOraclesReached,
    NotStaked,
    StillUnbonding,
    ContractPaused,
    InvalidConfig,
    DisputeNotFound,
    DisputeNotPending,
    DisputeReviewActive,
    InvalidBond,
}

/// State of a dispute.
#[derive(Clone, Copy, Debug, PartialEq, Eq, Structural)]
pub enum DisputeStatus {
    Pending,
    ResolvedValid,
    ResolvedInvalid,
}

/// A challenge of an oracle's report.
#[derive(Debug, PartialEq, Eq)]
pub struct DisputeRecord {
    pub oracle: String,
    pub asset_id: u32,
    pub challenger: String,
    pub bond_amount: u64,
    pub start_time: u64,
    pub status: DisputeStatus,
}

/// A dispute as a mathematical value.
pub struct DisputeView {
    pub oracle: Seq<char>,
    pub asset_id: u32,
    pub challenger: Seq<char>,
    pub bond_amount: u64,
    pub start_time: u64,
    pub status: DisputeStatus,
}

/// The model of a dispute.
pub open spec fn dispute_view(d: DisputeRecord) -> DisputeView {
    DisputeView {
        oracle: d.oracle@,
        asset_id: d.asset_id,
        challenger: d.challenger@,
        bond_amount: d.bond_amount,
        start_time: d.start_time,
        status: d.status,
    }
}

impl Clone for DisputeRecord {
    fn clone(&self) -> (r: Self)
        ensures
            dispute_view(r) == dispute_view(*self),
    {
        DisputeRecord {
            oracle: self.oracle.clone(),
            asset_id: self.asset_id,
            challenger: self.challenger.clone(),
            bond_amount: self.bond_amount,
            start_time: self.start_time,
            status: self.status,
        }
    }
}

/// Mathematical model of the oracle's storage.
pub struct DecentralizedOracleView {
    pub admin: Option<Seq<char>>,
    pub paused: bool,
    /// Stake each oracle registered with.
    pub oracles: Map<Seq<char>, u64>,
    /// Current stake of each oracle.
    pub stakes: Map<Seq<char>, u64>,
    /// Reported prices by asset and oracle.
    pub prices: Map<u64, Map<Seq<char>, u64>>,
    /// Aggregated price by asset.
    pub aggregated: Map<u64, u64>,
    pub reputation: Map<Seq<char>, u32>,
    pub slash_count: Map<Seq<char>, u64>,
    pub disputes: Map<u64, DisputeView>,
    pub dispute_count: u64,
    /// Configuration values by name.
    pub config: Map<Seq<char>, u64>,
    /// When each oracle asked to unbond.
    pub unbond_start: Map<Seq<char>, u64>,
}

/// The decentralized oracle and its storage.
pub struct DecentralizedOracle {
    admin: Option<String>,
    paused: bool,
    oracles: Vec<(String, u64)>,
    stakes: Vec<(String, u64)>,
    prices: Vec<(u64, Vec<(String, u64)>)>,
    aggregated: Vec<(u64, u64)>,
    reputation: Vec<(String, u32)>,
    slash_count: Vec<(String, u64)>,
    disputes: Vec<(u64, DisputeRecord)>,
    dispute_count: u64,
    config: Vec<(String, u64)>,
    unbond_start: Vec<(String, u64)>,
}

/// The price tables, as maps.
pub open spec fn price_tables(s: Seq<(u64, Vec<(String, u64)>)>) -> Map<u64, Map<Seq<char>, u64>> {
    id_map(s).map_values(|l: Vec<(String, u64)>| to_map(l@))
}

impl View for DecentralizedOracle {
    type V = DecentralizedOracleView;

    closed spec fn view(&self) -> DecentralizedOracleView {
        DecentralizedOracleView {
            admin: match self.admin {
                Some(a) => Some(a@),
                None => None,
            },
            paused: self.paused,
            oracles: to_map(self.oracles@),
            stakes: to_map(self.stakes@),
            prices: price_tables(self.prices@),
            aggregated: id_map(self.aggregated@),
            reputation: to_map(self.reputation@),
            slash_count: to_map(self.slash_count@),
            disputes: id_map(self.disputes@).map_values(|d: DisputeRecord| dispute_view(d)),
            dispute_count: self.dispute_count,
            config: to_map(self.config@),
            unbond_start: to_map(self.unbond_start@),
        }
    }
}

/// A configuration value (0 when unset).
pub open spec fn cfg(v: DecentralizedOracleView, name: Seq<char>) -> u64 {
    if v.config.dom().contains(name) { v.config[name] } else { 0 }
}

/// Whether the configuration value `name` fits in a `u32`.
pub open spec fn fits_u32(v: DecentralizedOracleView, name: Seq<char>) -> bool {
    cfg(v, name) <= u32::MAX
}

/// The configuration set at initialization.
pub open spec fn default_config() -> Map<Seq<char>, u64> {
    map![
        "MIN_STAKE"@ => MIN_STAKE,
        "MIN_ORACL"@ => MIN_ORACLES as u64,
        "MAX_DEV"@ => MAX_PRICE_DEVIATION as u64,
        "TIMEOUT"@ => ORACLE_TIMEOUT,
        "MIN_CONF"@ => MIN_CONFIDENCE as u64,
        "SLASH_PCT"@ => SLASH_PERCENTAGE as u64,
        "UNBOND"@ => UNBONDING_PERIOD,
        "MAX_ORCL"@ => MAX_ORACLES as u64
    ]
}

/// Reputation-weighted sum of reports and total reputation of the reporting
/// oracles that still have a reputation.
pub open spec fn weighted(entries: Seq<(String, u64)>, rep: Map<Seq<char>, u32>) -> (int, int)
    decreases entries.len(),
{
    if entries.len() == 0 {
        (0, 0)
    } else {
        let (ws, tw) = weighted(entries.drop_last(), rep);
        let e = entries.last();
        if rep.dom().contains(e.0@) {
            (ws + e.1 * rep[e.0@], tw + rep[e.0@])
        } else {
            (ws, tw)
        }
    }
}

/// Sum of the reported prices.
pub open spec fn report_sum(entries: Seq<(String, u64)>) -> int
    decreases entries.len(),
{
    if entries.len() == 0 {
        0
    } else {
        report_sum(entries.drop_last()) + entries.last().1
    }
}

/// The aggregated price of a non-empty set of reports: the reputation-weighted
/// average, or the plain average when no reporter has a reputation.
pub open spec fn aggregate_of(entries: Seq<(String, u64)>, rep: Map<Seq<char>, u32>) -> u64 {
    let (ws, tw) = weighted(entries, rep);
    if tw == 0 {
        (report_sum(entries) / (entries.len() as int)) as u64
    } else {
        (ws / tw) as u64
    }
}

/// The balance-like value stored for `k` (0 when absent).
pub open spec fn value_or_zero(m: Map<Seq<char>, u64>, k: Seq<char>) -> u64 {
    if m.dom().contains(k) { m[k] } else { 0 }
}

proof fn lemma_weighted_bounds(entries: Seq<(String, u64)>, rep: Map<Seq<char>, u32>)
    requires
        forall|k: Seq<char>| rep.dom().contains(k) ==> rep[k] <= INITIAL_REPUTATION,
    ensures
        0 <= weighted(entries, rep).1 <= INITIAL_REPUTATION * entries.len(),
        0 <= weighted(entries, rep).0 <= u64::MAX * weighted(entries, rep).1,
        0 <= report_sum(entries) <= u64::MAX * entries.len(),
    decreases entries.len(),
{
    if entries.len() > 0 {
        lemma_weighted_bounds(entries.drop_last(), rep);
        let e = entries.last();
        if rep.dom().contains(e.0@) {
            let r = rep[e.0@];
            assert(e.1 * r <= u64::MAX * r) by (nonlinear_arith)
                requires
                    e.1 <= u64::MAX,
                    r >= 0,
            ;
            assert(e.1 * r >= 0) by (nonlinear_arith)
                requires
                    e.1 >= 0,
                    r >= 0,
            ;
        }
    }
}

/// The stake after a valid dispute: lowered by the slash share of the stake,
/// computed without overflow and rounded down, not below 0.
pub open spec fn slashed_stake(stake: u64, slash_pct: u64) -> u64 {
    let cut = ((stake as int * slash_pct as int / 10_000) as u64) as int;
    if stake >= cut { (stake - cut) as u64 } else { 0 }
}

/// The contract after dispute `id` was resolved as valid or not.
pub open spec fn resolved(v: DecentralizedOracleView, id: u64, is_valid: bool) -> DecentralizedOracleView {
    let d = v.disputes[id];
    let staked = v.stakes.dom().contains(d.oracle);
    if is_valid {
        DecentralizedOracleView {
            disputes: v.disputes.insert(id, DisputeView { status: DisputeStatus::ResolvedValid, ..d }),
            stakes: if staked {
                v.stakes.insert(d.oracle, slashed_stake(v.stakes[d.oracle], cfg(v, "SLASH_PCT"@)))
            } else {
                v.stakes
            },
            slash_count: if staked {
                v.slash_count.insert(d.oracle, (value_or_zero(v.slash_count, d.oracle) + 1) as u64)
            } else {
                v.slash_count
            },
            ..v
        }
    } else {
        DecentralizedOracleView {
            disputes: v.disputes.insert(id, DisputeView { status: DisputeStatus::ResolvedInvalid, ..d }),
            stakes: if staked {
                v.stakes.insert(
                    d.oracle,
                    if v.stakes[d.oracle] + d.bond_amount > u64::MAX {
                        u64::MAX
                    } else {
                        (v.stakes[d.oracle] + d.bond_amount) as u64
                    },
                )
            } else {
                v.stakes
            },
            ..v
        }
    }
}

impl DecentralizedOracle {
    /// One entry per key in every table, every reputation at most the initial
    /// one, and the registered, staked and reputed oracles the same.
    pub closed spec fn wf(&self) -> bool {
        &&& distinct_keys(self.oracles@)
        &&& distinct_keys(self.stakes@)
        &&& distinct_ids(self.prices@)
        &&& forall|i: int| 0 <= i < self.prices@.len() ==> distinct_keys((#[trigger] self.prices@[i]).1@)
        &&& distinct_ids(self.aggregated@)
        &&& distinct_keys(self.reputation@)
        &&& distinct_keys(self.slash_count@)
        &&& distinct_ids(self.disputes@)
        &&& distinct_keys(self.config@)
        &&& distinct_keys(self.unbond_start@)
        &&& forall|k: Seq<char>| #[trigger] to_map(self.reputation@).dom().contains(k) ==> to_map(
            self.reputation@,
        )[k] <= INITIAL_REPUTATION
    }

    /// The reports stored for an asset, in arrival order.
    pub closed spec fn reports(&self, asset_id: u64) -> Seq<(String, u64)> {
        if id_map(self.prices@).dom().contains(asset_id) {
            id_map(self.prices@)[asset_id]@
        } else {
            Seq::empty()
        }
    }

    /// An oracle that has not been initialized.
    pub fn new() -> (r: Self)
        ensures
            r.wf(),
            r@ == (DecentralizedOracleView {
                admin: None,
                paused: false,
                oracles: Map::empty(),
                stakes: Map::empty(),
                prices: Map::empty(),
                aggregated: Map::empty(),
                reputation: Map::empty(),
                slash_count: Map::empty(),
                disputes: Map::empty(),
                dispute_count: 0,
                config: Map::empty(),
                unbond_start: Map::empty(),
            }),
    {
        let r = DecentralizedOracle {
            admin: None,
            paused: false,
            oracles: Vec::new(),
            stakes: Vec::new(),
            prices: Vec::new(),
            aggregated: Vec::new(),
            reputation: Vec::new(),
            slash_count: Vec::new(),
            disputes: Vec::new(),
            dispute_count: 0,
            config: Vec::new(),
            unbond_start: Vec::new(),
        };
        proof {
            assert(to_map(r.oracles@) =~= Map::<Seq<char>, u64>::empty());
            assert(price_tables(r.prices@) =~= Map::<u64, Map<Seq<char>, u64>>::empty());
            assert(id_map(r.aggregated@) =~= Map::<u64, u64>::empty());
            assert(to_map(r.reputation@) =~= Map::<Seq<char>, u32>::empty());
            assert(id_map(r.disputes@).map_values(|d: DisputeRecord| dispute_view(d)) =~= Map::<u64, DisputeView>::empty());
        }
        r
    }

    /// Set the admin, unpause, clear the tables and set the default
    /// configuration; only once.
    pub fn initialize(&mut self, admin: &str) -> (r: Result<(), DecentralizedOracleError>)
        requires
            old(self).wf(),
        ensures
            final(self).wf(),
            old(self)@.admin is Some ==> r == Err::<(), DecentralizedOracleError>(
                DecentralizedOracleError::AlreadyInitialized,
            ) && final(self)@ == old(self)@,
            old(self)@.admin is None ==> r is Ok && final(self)@ == (DecentralizedOracleView {
                admin: Some(admin@),
                paused: false,
                oracles: Map::empty(),
                stakes: Map::empty(),
                prices: Map::empty(),
                aggregated: Map::empty(),
                reputation: Map::empty(),
                slash_count: Map::empty(),
                disputes: Map::empty(),
                dispute_count: 0,
                config: default_config(),
                ..old(self)@
            }),
    {
        if self.admin.is_some() {
            return Err(DecentralizedOracleError::AlreadyInitialized);
        }
        self.admin = Some(String::from_str(admin));
        self.paused = false;
        self.oracles = Vec::new();
        self.stakes = Vec::new();
        self.prices = Vec::new();
        self.aggregated = Vec::new();
        self.reputation = Vec::new();
        self.slash_count = Vec::new();
        self.disputes = Vec::new();
        self.dispute_count = 0;
        let mut config: Vec<(String, u64)> = Vec::new();
        upsert(&mut config, "MIN_STAKE", MIN_STAKE);
        upsert(&mut config, "MIN_ORACL", MIN_ORACLES as u64);
        upsert(&mut config, "MAX_DEV", MAX_PRICE_DEVIATION as u64);
        upsert(&mut config, "TIMEOUT", ORACLE_TIMEOUT);
        upsert(&mut config, "MIN_CONF", MIN_CONFIDENCE as u64);
        upsert(&mut config, "SLASH_PCT", SLASH_PERCENTAGE as u64);
        upsert(&mut config, "UNBOND", UNBONDING_PERIOD);
        upsert(&mut config, "MAX_ORCL", MAX_ORACLES as u64);
        self.config = config;
        proof {
            assert(to_map(self.oracles@) =~= Map::<Seq<char>, u64>::empty());
            assert(to_map(self.stakes@) =~= Map::<Seq<char>, u64>::empty());
            assert(price_tables(self.prices@) =~= Map::<u64, Map<Seq<char>, u64>>::empty());
            assert(id_map(self.aggregated@) =~= Map::<u64, u64>::empty());
            assert(to_map(self.reputation@) =~= Map::<Seq<char>, u32>::empty());
            assert(to_map(self.slash_count@) =~= Map::<Seq<char>, u64>::empty());
            assert(id_map(self.disputes@).map_values(|d: DisputeRecord| dispute_view(d)) =~= Map::<
                u64,
                DisputeView,
            >::empty());
            assert(to_map(self.config@) =~= default_config());
        }
        Ok(())
    }

    /// A configuration value (0 when unset).
    fn config_value(&self, name: &str) -> (r: u64)
        requires
            self.wf(),
        ensures
            r == cfg(self@, name@),
    {
        match find_key(&self.config, name) {
            Some(i) => self.config[i].1,
            None => 0,
        }
    }

    /// A configuration value, if set.
    pub fn config(&self, name: &str) -> (r: Option<u64>)
        requires
            self.wf(),
        ensures
            self@.config.dom().contains(name@) ==> r == Some(self@.config[name@]),
            !self@.config.dom().contains(name@) ==> r is None,
    {
        match find_key(&self.config, name) {
            Some(i) => Some(self.config[i].1),
            None => None,
        }
    }

    /// Register `oracle` with `stake_amount`: not while paused, with at least the
    /// minimum stake, once, and while fewer than the maximum are registered.  It
    /// starts with the initial reputation.
    pub fn register_oracle(&mut self, oracle: &str, stake_amount: u64) -> (r: Result<(), DecentralizedOracleError>)
        requires
            old(self).wf(),
            old(self)@.admin is Some,
            fits_u32(old(self)@, "MAX_ORCL"@),
        ensures
            final(self).wf(),
            old(self)@.paused ==> r == Err::<(), DecentralizedOracleError>(DecentralizedOracleError::ContractPaused),
            !old(self)@.paused && stake_amount < cfg(old(self)@, "MIN_STAKE"@) ==> r == Err::<
                (),
                DecentralizedOracleError,
            >(DecentralizedOracleError::InsufficientStake),
            !old(self)@.paused && stake_amount >= cfg(old(self)@, "MIN_STAKE"@) && old(self)@.oracles.dom().contains(
                oracle@,
            ) ==> r == Err::<(), DecentralizedOracleError>(DecentralizedOracleError::OracleExists),
            !old(self)@.paused && stake_amount >= cfg(old(self)@, "MIN_STAKE"@) && !old(self)@.oracles.dom().contains(
                oracle@,
            ) && old(self)@.oracles.len() >= cfg(old(self)@, "MAX_ORCL"@) ==> r == Err::<(), DecentralizedOracleError>(
                DecentralizedOracleError::MaxOraclesReached,
            ),
            !old(self)@.paused && stake_amount >= cfg(old(self)@, "MIN_STAKE"@) && !old(self)@.oracles.dom().contains(oracle@) && old(self)@.oracles.len() < cfg(old(self)@, "MAX_ORCL"@) ==> r is Ok,
            r is Err ==> final(self)@ == old(self)@,
            r is Ok ==> !old(self)@.paused && stake_amount >= cfg(old(self)@, "MIN_STAKE"@)
                && !old(self)@.oracles.dom().contains(oracle@) && old(self)@.oracles.len() < cfg(
                old(self)@,
                "MAX_ORCL"@,
            ) && final(self)@ == (DecentralizedOracleView {
                oracles: old(self)@.oracles.insert(oracle@, stake_amount),
                stakes: old(self)@.stakes.insert(oracle@, stake_amount),
                reputation: old(self)@.reputation.insert(oracle@, INITIAL_REPUTATION),
                ..old(self)@
            }),
    {
        if self.paused {
            return Err(DecentralizedOracleError::ContractPaused);
        }
        let min_stake = self.config_value("MIN_STAKE");
        let max_oracles = self.config_value("MAX_ORCL");
        if stake_amount < min_stake {
            return Err(DecentralizedOracleError::InsufficientStake);
        }
        if find_key(&self.oracles, oracle).is_some() {
            return Err(DecentralizedOracleError::OracleExists);
        }
        proof {
            crate::keyed::lemma_to_map_len(self.oracles@);
        }
        if self.oracles.len() as u64 >= max_oracles {
            return Err(DecentralizedOracleError::MaxOraclesReached);
        }
        upsert(&mut self.oracles, oracle, stake_amount);
        upsert(&mut self.stakes, oracle, stake_amount);
        upsert(&mut self.reputation, oracle, INITIAL_REPUTATION);
        Ok(())
    }

    /// The reports stored for `asset_id`, as a copy.
    fn reports_of(&self, asset_id: u64) -> (r: Vec<(String, u64)>)
        requires
            self.wf(),
        ensures
            r@ == self.reports(asset_id),
            distinct_keys(r@),
            to_map(r@) == (if self@.prices.dom().contains(asset_id) {
                self@.prices[asset_id]
            } else {
                Map::<Seq<char>, u64>::empty()
            }),
    {
        match find_id(&self.prices, asset_id) {
            Some(j) => {
                proof {
                    lemma_id_map_value(self.prices@, j as int);
                }
                let src = &self.prices[j].1;
                let mut out: Vec<(String, u64)> = Vec::new();
                let mut i: usize = 0;
                while i < src.len()
                    invariant
                        i <= src@.len(),
                        out@ == src@.take(i as int),
                    decreases src@.len() - i,
                {
                    out.push((src[i].0.clone(), src[i].1));
                    proof {
                        assert(out@ =~= src@.take(i + 1));
                    }
                    i = i + 1;
                }
                proof {
                    assert(out@ =~= src@);
                }
                out
            },
            None => {
                let out: Vec<(String, u64)> = Vec::new();
                proof {
                    assert(to_map(out@) =~= Map::<Seq<char>, u64>::empty());
                }
                out
            },
        }
    }

    /// The aggregated price of a non-empty table of reports under the current
    /// reputations.
    fn aggregate_reports(&self, entries: &Vec<(String, u64)>) -> (r: u64)
        requires
            self.wf(),
            0 < entries@.len() <= MAX_REPORTS_PER_ASSET,
        ensures
            r == aggregate_of(entries@, self@.reputation),
    {
        let ghost rep = self@.reputation;
        let mut weighted_sum: u128 = 0;
        let mut total_weight: u32 = 0;
        let mut plain_sum: u128 = 0;
        let mut i: usize = 0;
        while i < entries.len()
            invariant
                self.wf(),
                rep == self@.reputation,
                i <= entries@.len() <= MAX_REPORTS_PER_ASSET,
                (weighted_sum as int, total_weight as int) == weighted(entries@.take(i as int), rep),
                plain_sum == report_sum(entries@.take(i as int)),
            decreases entries@.len() - i,
        {
            proof {
                assert(entries@.take(i + 1).drop_last() =~= entries@.take(i as int));
                lemma_weighted_bounds(entries@.take(i + 1), rep);
            }
            let (ref oracle, price) = entries[i];
            match find_key(&self.reputation, oracle.as_str()) {
                Some(k) => {
                    let score = self.reputation[k].1;
                    proof {
                        assert(weighted(entries@.take(i + 1), rep).1 <= INITIAL_REPUTATION * (i + 1));
                        assert(INITIAL_REPUTATION * (i + 1) <= INITIAL_REPUTATION * MAX_REPORTS_PER_ASSET) by (
                        nonlinear_arith)
                            requires
                                i + 1 <= MAX_REPORTS_PER_ASSET,
                        ;
                        assert(weighted(entries@.take(i + 1), rep).0 <= u64::MAX * weighted(
                            entries@.take(i + 1),
                            rep,
                        ).1);
                        assert(u64::MAX * weighted(entries@.take(i + 1), rep).1 <= u64::MAX * (INITIAL_REPUTATION
                            * MAX_REPORTS_PER_ASSET)) by (nonlinear_arith)
                            requires
                                weighted(entries@.take(i + 1), rep).1 <= INITIAL_REPUTATION * MAX_REPORTS_PER_ASSET,
                        ;
                    }
                    weighted_sum = weighted_sum + (price as u128) * (score as u128);
                    total_weight = total_weight + score;
                },
                None => {},
            }
            proof {
                assert(report_sum(entries@.take(i + 1)) <= u64::MAX * (i + 1));
                assert(u64::MAX * (i + 1) <= u64::MAX * MAX_REPORTS_PER_ASSET) by (nonlinear_arith)
                    requires
                        i + 1 <= MAX_REPORTS_PER_ASSET,
                ;
            }
            plain_sum = plain_sum + price as u128;
            i = i + 1;
        }
        proof {
            assert(entries@.take(entries@.len() as int) =~= entries@);
        }
        if total_weight == 0 {
            #[verifier::truncate]
            ((plain_sum / (entries.len() as u128)) as u64)
        } else {
            #[verifier::truncate]
            ((weighted_sum / (total_weight as u128)) as u64)
        }
    }

    /// Why a report is refused, if it is.
    pub open spec fn report_refusal(
        v: DecentralizedOracleView,
        oracle: Seq<char>,
        price: u64,
        confidence: u32,
        timestamp: u64,
        now: u64,
    ) -> Option<DecentralizedOracleError> {
        if v.paused {
            Some(DecentralizedOracleError::ContractPaused)
        } else if !v.oracles.dom().contains(oracle) {
            Some(DecentralizedOracleError::OracleNotFound)
        } else if timestamp > now || now - timestamp > cfg(v, "TIMEOUT"@) {
            Some(DecentralizedOracleError::PriceTooOld)
        } else if confidence < cfg(v, "MIN_CONF"@) {
            Some(DecentralizedOracleError::ConfidenceTooLow)
        } else if price == 0 {
            Some(DecentralizedOracleError::InvalidPrice)
        } else {
            None
        }
    }

    /// The reports on `asset_id` (none when there are none).
    pub open spec fn reports_on(v: DecentralizedOracleView, asset_id: u64) -> Map<Seq<char>, u64> {
        if v.prices.dom().contains(asset_id) { v.prices[asset_id] } else { Map::empty() }
    }

    /// Record `oracle`'s report of `price` for `asset_id`, observed at
    /// `timestamp`, at ledger time `now`: it must be registered, the report
    /// fresh (not from the future, at most the timeout old), confident enough and
    /// non-zero.  Once the asset has reports from at least the minimum number of
    /// oracles, its aggregated price is recomputed from all its reports.
    pub fn submit_price(
        &mut self,
        oracle: &str,
        asset_id: u32,
        price: u64,
        confidence: u32,
        timestamp: u64,
        now: u64,
    ) -> (r: Result<(), DecentralizedOracleError>)
        requires
            old(self).wf(),
            old(self)@.admin is Some,
            fits_u32(old(self)@, "MIN_CONF"@),
            fits_u32(old(self)@, "MIN_ORACL"@),
            old(self).reports(asset_id as u64).len() < MAX_REPORTS_PER_ASSET,
        ensures
            final(self).wf(),
            match Self::report_refusal(old(self)@, oracle@, price, confidence, timestamp, now) {
                Some(e) => r == Err::<(), DecentralizedOracleError>(e) && final(self)@ == old(self)@,
                None => {
                    let table = Self::reports_on(old(self)@, asset_id as u64).insert(oracle@, price);
                    &&& r is Ok
                    &&& final(self)@.prices == old(self)@.prices.insert(asset_id as u64, table)
                    &&& to_map(final(self).reports(asset_id as u64)) == table
                    &&& final(self)@.aggregated == (if table.len() >= cfg(old(self)@, "MIN_ORACL"@) {
                        old(self)@.aggregated.insert(
                            asset_id as u64,
                            aggregate_of(final(self).reports(asset_id as u64), old(self)@.reputation),
                        )
                    } else {
                        old(self)@.aggregated
                    })
                    &&& final(self)@ == (DecentralizedOracleView {
                        prices: final(self)@.prices,
                        aggregated: final(self)@.aggregated,
                        ..old(self)@
                    })
                },
            },
    {
        if self.paused {
            return Err(DecentralizedOracleError::ContractPaused);
        }
        if find_key(&self.oracles, oracle).is_none() {
            return Err(DecentralizedOracleError::OracleNotFound);
        }
        let oracle_timeout = self.config_value("TIMEOUT");
        let min_confidence = self.config_value("MIN_CONF");
        if timestamp > now || now - timestamp > oracle_timeout {
            return Err(DecentralizedOracleError::PriceTooOld);
        }
        if (confidence as u64) < min_confidence {
            return Err(DecentralizedOracleError::ConfidenceTooLow);
        }
        if price == 0 {
            return Err(DecentralizedOracleError::InvalidPrice);
        }
        let key = asset_id as u64;
        let mut table = self.reports_of(key);
        let ghost before = table@;
        upsert(&mut table, oracle, price);
        proof {
            crate::keyed::lemma_to_map_len(before);
            crate::keyed::lemma_to_map_finite(before);
            crate::keyed::lemma_to_map_len(table@);
            assert(to_map(table@).dom() =~= to_map(before).dom().insert(oracle@));
            assert(to_map(table@).dom().contains(oracle@));
            assert(table@.len() <= before.len() + 1);
            assert(table@.len() > 0);
        }
        let ghost s1 = self.prices@;
        let ghost new_table = table@;
        let count = table.len();
        let aggregated = if (count as u64) >= self.config_value("MIN_ORACL") {
            Some(self.aggregate_reports(&table))
        } else {
            None
        };
        upsert_id(&mut self.prices, key, table);
        proof {
            assert forall|x: int| 0 <= x < self.prices@.len() implies distinct_keys((#[trigger] self.prices@[x]).1@) by {
                lemma_id_map_value(self.prices@, x);
                if self.prices@[x].0 != key {
                    let k = self.prices@[x].0;
                    assert(id_map(s1).dom().contains(k));
                    crate::idmap::lemma_id_map_dom(s1, k);
                    let y = choose|y: int| 0 <= y < s1.len() && s1[y].0 == k;
                    lemma_id_map_value(s1, y);
                }
            }
            assert(price_tables(self.prices@) =~= price_tables(s1).insert(key, to_map(new_table)));
            assert(self.reports(key) == new_table);
        }
        match aggregated {
            Some(value) => {
                upsert_id(&mut self.aggregated, key, value);
            },
            None => {},
        }
        Ok(())
    }

    /// The aggregated price of an asset, if one has been computed.
    pub fn get_price(&self, asset_id: u32) -> (r: Result<u64, DecentralizedOracleError>)
        requires
            self.wf(),
        ensures
            self@.aggregated.dom().contains(asset_id as u64) ==> r == Ok::<u64, DecentralizedOracleError>(
                self@.aggregated[asset_id as u64],
            ),
            !self@.aggregated.dom().contains(asset_id as u64) ==> r == Err::<u64, DecentralizedOracleError>(
                DecentralizedOracleError::InsufficientOracles,
            ),
    {
        match find_id(&self.aggregated, asset_id as u64) {
            Some(i) => Ok(self.aggregated[i].1),
            None => Err(DecentralizedOracleError::InsufficientOracles),
        }
    }

    /// Current stake of an oracle.
    pub fn get_oracle_stake(&self, oracle: &str) -> (r: Result<u64, DecentralizedOracleError>)
        requires
            self.wf(),
        ensures
            self@.stakes.dom().contains(oracle@) ==> r == Ok::<u64, DecentralizedOracleError>(self@.stakes[oracle@]),
            !self@.stakes.dom().contains(oracle@) ==> r == Err::<u64, DecentralizedOracleError>(
                DecentralizedOracleError::OracleNotFound,
            ),
    {
        match find_key(&self.stakes, oracle) {
            Some(i) => Ok(self.stakes[i].1),
            None => Err(DecentralizedOracleError::OracleNotFound),
        }
    }

    /// Reputation of an oracle.
    pub fn get_oracle_reputation(&self, oracle: &str) -> (r: Result<u32, DecentralizedOracleError>)
        requires
            self.wf(),
        ensures
            self@.reputation.dom().contains(oracle@) ==> r == Ok::<u32, DecentralizedOracleError>(
                self@.reputation[oracle@],
            ),
            !self@.reputation.dom().contains(oracle@) ==> r == Err::<u32, DecentralizedOracleError>(
                DecentralizedOracleError::OracleNotFound,
            ),
    {
        match find_key(&self.reputation, oracle) {
            Some(i) => Ok(self.reputation[i].1),
            None => Err(DecentralizedOracleError::OracleNotFound),
        }
    }

    /// The registered oracles, each once.
    pub fn get_oracle_addresses(&self) -> (r: Vec<String>)
        requires
            self.wf(),
        ensures
            crate::keyed::enumerates(r@.map_values(|s: String| s@), self@.oracles.dom()),
    {
        crate::keyed::keys_of(&self.oracles)
    }

    /// Whether `caller` is the stored admin.
    fn is_admin(&self, caller: &str) -> (r: bool)
        ensures
            r == (self@.admin == Some(caller@)),
    {
        let who = String::from_str(caller);
        match &self.admin {
            Some(a) => *a == who,
            None => false,
        }
    }

    /// Start the unbonding period of a staked oracle at `now`.
    pub fn request_unbond(&mut self, oracle: &str, now: u64) -> (r: Result<(), DecentralizedOracleError>)
        requires
            old(self).wf(),
        ensures
            final(self).wf(),
            !old(self)@.stakes.dom().contains(oracle@) ==> r == Err::<(), DecentralizedOracleError>(
                DecentralizedOracleError::NotStaked,
            ) && final(self)@ == old(self)@,
            old(self)@.stakes.dom().contains(oracle@) ==> r is Ok && final(self)@ == (DecentralizedOracleView {
                unbond_start: old(self)@.unbond_start.insert(oracle@, now),
                ..old(self)@
            }),
    {
        if find_key(&self.stakes, oracle).is_none() {
            return Err(DecentralizedOracleError::NotStaked);
        }
        upsert(&mut self.unbond_start, oracle, now);
        Ok(())
    }

    /// Withdraw an oracle's stake once its unbonding period is over: it leaves the
    /// registered, staked and reputed oracles, and its stake is returned.  An
    /// unbonding that started at time 0 counts as not requested.
    pub fn withdraw_stake(&mut self, oracle: &str, now: u64) -> (r: Result<u64, DecentralizedOracleError>)
        requires
            old(self).wf(),
            old(self)@.stakes.dom().contains(oracle@) ==> value_or_zero(old(self)@.unbond_start, oracle@) <= now,
        ensures
            final(self).wf(),
            !old(self)@.stakes.dom().contains(oracle@) ==> r == Err::<u64, DecentralizedOracleError>(
                DecentralizedOracleError::NotStaked,
            ),
            old(self)@.stakes.dom().contains(oracle@) && value_or_zero(old(self)@.unbond_start, oracle@) == 0 ==> r
                == Err::<u64, DecentralizedOracleError>(DecentralizedOracleError::NotStaked),
            old(self)@.stakes.dom().contains(oracle@) && value_or_zero(old(self)@.unbond_start, oracle@) != 0 && now
                - value_or_zero(old(self)@.unbond_start, oracle@) < cfg(old(self)@, "UNBOND"@) ==> r == Err::<
                u64,
                DecentralizedOracleError,
            >(DecentralizedOracleError::StillUnbonding),
            old(self)@.stakes.dom().contains(oracle@) && value_or_zero(old(self)@.unbond_start, oracle@) != 0 && now - value_or_zero(old(self)@.unbond_start, oracle@) >= cfg(old(self)@, "UNBOND"@) ==> r is Ok,
            r is Err ==> final(self)@ == old(self)@,
            r is Ok ==> old(self)@.stakes.dom().contains(oracle@) && value_or_zero(old(self)@.unbond_start, oracle@)
                != 0 && now - value_or_zero(old(self)@.unbond_start, oracle@) >= cfg(old(self)@, "UNBOND"@) && r
                == Ok::<u64, DecentralizedOracleError>(old(self)@.stakes[oracle@]) && final(self)@ == (
            DecentralizedOracleView {
                oracles: old(self)@.oracles.remove(oracle@),
                stakes: old(self)@.stakes.remove(oracle@),
                reputation: old(self)@.reputation.remove(oracle@),
                ..old(self)@
            }),
    {
        let stake_amount = match find_key(&self.stakes, oracle) {
            Some(i) => self.stakes[i].1,
            None => return Err(DecentralizedOracleError::NotStaked),
        };
        let unbonding = self.config_value("UNBOND");
        let unbond_start = match find_key(&self.unbond_start, oracle) {
            Some(i) => self.unbond_start[i].1,
            None => 0,
        };
        if unbond_start == 0 {
            return Err(DecentralizedOracleError::NotStaked);
        }
        if now - unbond_start < unbonding {
            return Err(DecentralizedOracleError::StillUnbonding);
        }
        remove_key(&mut self.oracles, oracle);
        remove_key(&mut self.stakes, oracle);
        let ghost r0 = self.reputation@;
        remove_key(&mut self.reputation, oracle);
        proof {
            assert forall|k: Seq<char>| #[trigger] to_map(self.reputation@).dom().contains(k) implies to_map(
                self.reputation@,
            )[k] <= INITIAL_REPUTATION by {
                assert(to_map(r0).dom().contains(k));
            }
        }
        Ok(stake_amount)
    }

    /// Slash an oracle (admin only): its stake loses the slash share, its
    /// reputation a tenth (an oracle without one counts as having the initial
    /// reputation), and its slash count grows by one.
    pub fn slash_oracle(&mut self, admin: &str, oracle: &str, reason: &str) -> (r: Result<
        (),
        DecentralizedOracleError,
    >)
        requires
            old(self).wf(),
            old(self)@.admin is Some,
            cfg(old(self)@, "SLASH_PCT"@) <= 10_000,
            old(self)@.stakes.dom().contains(oracle@) ==> old(self)@.stakes[oracle@] * cfg(old(self)@, "SLASH_PCT"@)
                <= u64::MAX,
            value_or_zero(old(self)@.slash_count, oracle@) < u64::MAX,
        ensures
            final(self).wf(),
            old(self)@.admin != Some(admin@) ==> r == Err::<(), DecentralizedOracleError>(
                DecentralizedOracleError::Unauthorized,
            ) && final(self)@ == old(self)@,
            old(self)@.admin == Some(admin@) && !old(self)@.stakes.dom().contains(oracle@) ==> r == Err::<
                (),
                DecentralizedOracleError,
            >(DecentralizedOracleError::OracleNotFound) && final(self)@ == old(self)@,
            old(self)@.admin == Some(admin@) && old(self)@.stakes.dom().contains(oracle@) ==> r is Ok && final(self)@
                == (DecentralizedOracleView {
                stakes: old(self)@.stakes.insert(
                    oracle@,
                    (old(self)@.stakes[oracle@] - old(self)@.stakes[oracle@] * cfg(old(self)@, "SLASH_PCT"@)
                        / 10_000) as u64,
                ),
                reputation: old(self)@.reputation.insert(
                    oracle@,
                    ((if old(self)@.reputation.dom().contains(oracle@) {
                        old(self)@.reputation[oracle@]
                    } else {
                        INITIAL_REPUTATION
                    }) * 9000 / 10_000) as u32,
                ),
                slash_count: old(self)@.slash_count.insert(
                    oracle@,
                    (value_or_zero(old(self)@.slash_count, oracle@) + 1) as u64,
                ),
                ..old(self)@
            }),
    {
        if !self.is_admin(admin) {
            return Err(DecentralizedOracleError::Unauthorized);
        }
        let stake_amount = match find_key(&self.stakes, oracle) {
            Some(i) => self.stakes[i].1,
            None => return Err(DecentralizedOracleError::OracleNotFound),
        };
        let slash_pct = self.config_value("SLASH_PCT");
        proof {
            assert(stake_amount * slash_pct / 10_000 <= stake_amount) by (nonlinear_arith)
                requires
                    slash_pct <= 10_000,
                    stake_amount >= 0,
            ;
        }
        let slash_amount = stake_amount * slash_pct / 10_000;
        upsert(&mut self.stakes, oracle, stake_amount - slash_amount);
        let current_rep: u32 = match find_key(&self.reputation, oracle) {
            Some(i) => self.reputation[i].1,
            None => INITIAL_REPUTATION,
        };
        let ghost r0 = self.reputation@;
        upsert(&mut self.reputation, oracle, current_rep * 9000 / 10_000);
        proof {
            assert forall|k: Seq<char>| #[trigger] to_map(self.reputation@).dom().contains(k) implies to_map(
                self.reputation@,
            )[k] <= INITIAL_REPUTATION by {
                if k != oracle@ {
                    assert(to_map(r0).dom().contains(k));
                }
            }
        }
        let current_count = match find_key(&self.slash_count, oracle) {
            Some(i) => self.slash_count[i].1,
            None => 0,
        };
        upsert(&mut self.slash_count, oracle, current_count + 1);
        Ok(())
    }

    /// Set a named configuration value (admin only).
    pub fn update_config(&mut self, admin: &str, param_name: &str, new_value: u64) -> (r: Result<
        (),
        DecentralizedOracleError,
    >)
        requires
            old(self).wf(),
            old(self)@.admin is Some,
        ensures
            final(self).wf(),
            old(self)@.admin != Some(admin@) ==> r == Err::<(), DecentralizedOracleError>(
                DecentralizedOracleError::Unauthorized,
            ) && final(self)@ == old(self)@,
            old(self)@.admin == Some(admin@) ==> r is Ok && final(self)@ == (DecentralizedOracleView {
                config: old(self)@.config.insert(param_name@, new_value),
                ..old(self)@
            }),
    {
        if !self.is_admin(admin) {
            return Err(DecentralizedOracleError::Unauthorized);
        }
        upsert(&mut self.config, param_name, new_value);
        Ok(())
    }

    /// Stop registrations, reports and disputes (admin only).
    pub fn pause(&mut self, admin: &str) -> (r: Result<(), DecentralizedOracleError>)
        requires
            old(self).wf(),
            old(self)@.admin is Some,
        ensures
            final(self).wf(),
            old(self)@.admin != Some(admin@) ==> r == Err::<(), DecentralizedOracleError>(
                DecentralizedOracleError::Unauthorized,
            ) && final(self)@ == old(self)@,
            old(self)@.admin == Some(admin@) ==> r is Ok && final(self)@ == (DecentralizedOracleView {
                paused: true,
                ..old(self)@
            }),
    {
        if !self.is_admin(admin) {
            return Err(DecentralizedOracleError::Unauthorized);
        }
        self.paused = true;
        Ok(())
    }

    /// Resume (admin only).
    pub fn unpause(&mut self, admin: &str) -> (r: Result<(), DecentralizedOracleError>)
        requires
            old(self).wf(),
            old(self)@.admin is Some,
        ensures
            final(self).wf(),
            old(self)@.admin != Some(admin@) ==> r == Err::<(), DecentralizedOracleError>(
                DecentralizedOracleError::Unauthorized,
            ) && final(self)@ == old(self)@,
            old(self)@.admin == Some(admin@) ==> r is Ok && final(self)@ == (DecentralizedOracleView {
                paused: false,
                ..old(self)@
            }),
    {
        if !self.is_admin(admin) {
            return Err(DecentralizedOracleError::Unauthorized);
        }
        self.paused = false;
        Ok(())
    }

    /// Open a dispute of `oracle`'s report on `asset_id` at `now`, posting
    /// exactly the dispute bond; disputes are numbered from 0.
    pub fn open_dispute(
        &mut self,
        challenger: &str,
        oracle: &str,
        asset_id: u32,
        bond_amount: u64,
        now: u64,
    ) -> (r: Result<u64, DecentralizedOracleError>)
        requires
            old(self).wf(),
            old(self)@.admin is Some,
            old(self)@.dispute_count < u64::MAX,
        ensures
            final(self).wf(),
            old(self)@.paused ==> r == Err::<u64, DecentralizedOracleError>(DecentralizedOracleError::ContractPaused)
                && final(self)@ == old(self)@,
            !old(self)@.paused && bond_amount != DISPUTE_BOND ==> r == Err::<u64, DecentralizedOracleError>(
                DecentralizedOracleError::InvalidBond,
            ) && final(self)@ == old(self)@,
            !old(self)@.paused && bond_amount == DISPUTE_BOND ==> r == Ok::<u64, DecentralizedOracleError>(
                old(self)@.dispute_count,
            ) && final(self)@ == (DecentralizedOracleView {
                disputes: old(self)@.disputes.insert(
                    old(self)@.dispute_count,
                    DisputeView {
                        oracle: oracle@,
                        asset_id,
                        challenger: challenger@,
                        bond_amount,
                        start_time: now,
                        status: DisputeStatus::Pending,
                    },
                ),
                dispute_count: (old(self)@.dispute_count + 1) as u64,
                ..old(self)@
            }),
    {
        if self.paused {
            return Err(DecentralizedOracleError::ContractPaused);
        }
        if bond_amount != DISPUTE_BOND {
            return Err(DecentralizedOracleError::InvalidBond);
        }
        let id = self.dispute_count;
        let record = DisputeRecord {
            oracle: String::from_str(oracle),
            asset_id,
            challenger: String::from_str(challenger),
            bond_amount,
            start_time: now,
            status: DisputeStatus::Pending,
        };
        let ghost rec = dispute_view(record);
        upsert_id(&mut self.disputes, id, record);
        proof {
            assert(id_map(self.disputes@).map_values(|d: DisputeRecord| dispute_view(d)) =~= old(self)@.disputes.insert(
                id,
                rec,
            ));
        }
        self.dispute_count = id + 1;
        Ok(id)
    }

    /// Resolve a pending dispute after its review period (admin only).  A valid
    /// dispute slashes the oracle's stake by the slash share (rounded down,
    /// saturating at 0) and counts a slash; an invalid one adds the forfeited
    /// bond to the oracle's stake (saturating).  Nothing happens to the stake of
    /// an oracle that no longer has one.
    pub fn resolve_dispute(&mut self, admin: &str, dispute_id: u64, is_valid: bool, now: u64) -> (r: Result<
        (),
        DecentralizedOracleError,
    >)
        requires
            old(self).wf(),
            old(self)@.admin is Some,
            old(self)@.disputes.dom().contains(dispute_id) ==> old(self)@.disputes[dispute_id].start_time <= now,
            old(self)@.disputes.dom().contains(dispute_id) ==> value_or_zero(
                old(self)@.slash_count,
                old(self)@.disputes[dispute_id].oracle,
            ) < u64::MAX,
        ensures
            final(self).wf(),
            old(self)@.admin != Some(admin@) ==> r == Err::<(), DecentralizedOracleError>(
                DecentralizedOracleError::Unauthorized,
            ),
            old(self)@.admin == Some(admin@) && !old(self)@.disputes.dom().contains(dispute_id) ==> r == Err::<
                (),
                DecentralizedOracleError,
            >(DecentralizedOracleError::DisputeNotFound),
            old(self)@.admin == Some(admin@) && old(self)@.disputes.dom().contains(dispute_id) && old(
                self,
            )@.disputes[dispute_id].status != DisputeStatus::Pending ==> r == Err::<(), DecentralizedOracleError>(
                DecentralizedOracleError::DisputeNotPending,
            ),
            old(self)@.admin == Some(admin@) && old(self)@.disputes.dom().contains(dispute_id) && old(
                self,
            )@.disputes[dispute_id].status == DisputeStatus::Pending && now - old(self)@.disputes[dispute_id].start_time
                < DISPUTE_REVIEW_PERIOD ==> r == Err::<(), DecentralizedOracleError>(
                DecentralizedOracleError::DisputeReviewActive,
            ),
            old(self)@.admin == Some(admin@) && old(self)@.disputes.dom().contains(dispute_id) && old(self)@.disputes[dispute_id].status == DisputeStatus::Pending && now - old(self)@.disputes[dispute_id].start_time >= DISPUTE_REVIEW_PERIOD ==> r is Ok,
            r is Err ==> final(self)@ == old(self)@,
            r is Ok ==> old(self)@.admin == Some(admin@) && old(self)@.disputes.dom().contains(dispute_id) && old(
                self,
            )@.disputes[dispute_id].status == DisputeStatus::Pending && now - old(self)@.disputes[dispute_id].start_time
                >= DISPUTE_REVIEW_PERIOD && final(self)@ == resolved(old(self)@, dispute_id, is_valid),
    {
        if !self.is_admin(admin) {
            return Err(DecentralizedOracleError::Unauthorized);
        }
        let j = match find_id(&self.disputes, dispute_id) {
            Some(j) => j,
            None => return Err(DecentralizedOracleError::DisputeNotFound),
        };
        proof {
            lemma_id_map_value(self.disputes@, j as int);
        }
        let mut record = self.disputes[j].1.clone();
        if record.status != DisputeStatus::Pending {
            return Err(DecentralizedOracleError::DisputeNotPending);
        }
        if now - record.start_time < DISPUTE_REVIEW_PERIOD {
            return Err(DecentralizedOracleError::DisputeReviewActive);
        }
        if is_valid {
            record.status = DisputeStatus::ResolvedValid;
            match find_key(&self.stakes, record.oracle.as_str()) {
                Some(i) => {
                    let oracle_stake = self.stakes[i].1;
                    let slash_pct = self.config_value("SLASH_PCT");
                    proof {
                        assert((oracle_stake as u128) * (slash_pct as u128) <= u128::MAX) by (nonlinear_arith)
                            requires
                                oracle_stake <= u64::MAX,
                                slash_pct <= u64::MAX,
                        ;
                    }
                    let slash_amount: u64 = #[verifier::truncate]
                    ((oracle_stake as u128 * slash_pct as u128 / 10_000) as u64);
                    upsert(&mut self.stakes, record.oracle.as_str(), oracle_stake.saturating_sub(slash_amount));
                    let current = match find_key(&self.slash_count, record.oracle.as_str()) {
                        Some(k) => self.slash_count[k].1,
                        None => 0,
                    };
                    upsert(&mut self.slash_count, record.oracle.as_str(), current + 1);
                },
                None => {},
            }
        } else {
            record.status = DisputeStatus::ResolvedInvalid;
            match find_key(&self.stakes, record.oracle.as_str()) {
                Some(i) => {
                    let oracle_stake = self.stakes[i].1;
                    upsert(&mut self.stakes, record.oracle.as_str(), oracle_stake.saturating_add(record.bond_amount));
                },
                None => {},
            }
        }
        let ghost rec = dispute_view(record);
        upsert_id(&mut self.disputes, dispute_id, record);
        proof {
            assert(id_map(self.disputes@).map_values(|d: DisputeRecord| dispute_view(d)) =~= old(self)@.disputes.insert(
                dispute_id,
                rec,
            ));
        }
        Ok(())
    }
}

// ─── Slashing of oracle nodes ────────────────────────────────────────────────

/// Deviation above which a report counts as bad data, after initialization
/// (basis points).
pub const DEFAULT_DEVIATION_THRESHOLD: u32 = 1500;

/// An oracle node and its stake.
#[derive(Debug, PartialEq, Eq)]
pub struct OracleNode {
    pub operator: String,
    pub staked_balance: i128,
    pub active: bool,
}

/// Evidence that a node reported a price far from the consensus.
#[derive(Debug, PartialEq, Eq)]
pub struct SlashingEvidence {
    pub node: String,
    pub reported_price: i128,
    pub consensus_price: i128,
    pub deviation_bps: u32,
    /// 1 minor (above the threshold), 2 moderate (above 30%), 3 severe (above 50%).
    pub severity: u32,
    pub challenge_deadline: u64,
    pub executed: bool,
}

/// Evidence as a mathematical value.
pub struct EvidenceView {
    pub node: Seq<char>,
    pub reported_price: i128,
    pub consensus_price: i128,
    pub deviation_bps: u32,
    pub severity: u32,
    pub challenge_deadline: u64,
    pub executed: bool,
}

/// The model of a piece of evidence.
pub open spec fn evidence_view(e: SlashingEvidence) -> EvidenceView {
    EvidenceView {
        node: e.node@,
        reported_price: e.reported_price,
        consensus_price: e.consensus_price,
        deviation_bps: e.deviation_bps,
        severity: e.severity,
        challenge_deadline: e.challenge_deadline,
        executed: e.executed,
    }
}

/// Mathematical model of the slashing contract.
pub struct SlashingView {
    pub threshold: u32,
    pub count: u64,
    pub records: Map<u64, EvidenceView>,
}

/// Slashing of oracle nodes on evidence of bad data, executed after a challenge
/// period.
pub struct OracleSlashingContract {
    threshold: u32,
    count: u64,
    records: Vec<(u64, SlashingEvidence)>,
}

impl View for OracleSlashingContract {
    type V = SlashingView;

    closed spec fn view(&self) -> SlashingView {
        SlashingView {
            threshold: self.threshold,
            count: self.count,
            records: id_map(self.records@).map_values(|e: SlashingEvidence| evidence_view(e)),
        }
    }
}

/// Quotient of `a` by `b` rounded toward zero.
pub open spec fn div_toward_zero(a: int, b: int) -> int {
    if b > 0 {
        a / b
    } else {
        -(a / (-b))
    }
}

/// Absolute difference of two prices.
pub open spec fn price_gap(a: i128, b: i128) -> int {
    if a > b { a - b } else { b - a }
}

/// Deviation of `reported` from `consensus` in basis points, as a `u32` (the
/// quotient is truncated to 32 bits, as a cast does).
pub open spec fn deviation_of(reported: i128, consensus: i128) -> u32 {
    (div_toward_zero(price_gap(reported, consensus) * 10_000, consensus as int)) as u32
}

/// Severity of a deviation above the threshold.
pub open spec fn severity_of(deviation_bps: u32) -> u32 {
    if deviation_bps > 5000 {
        3
    } else if deviation_bps > 3000 {
        2
    } else {
        1
    }
}

impl OracleSlashingContract {
    /// One record per identifier.
    pub closed spec fn wf(&self) -> bool {
        distinct_ids(self.records@)
    }

    /// A contract with the default threshold and no records.
    pub fn new() -> (r: Self)
        ensures
            r.wf(),
            r@ == (SlashingView { threshold: DEFAULT_DEVIATION_THRESHOLD, count: 0, records: Map::empty() }),
    {
        let r = OracleSlashingContract { threshold: DEFAULT_DEVIATION_THRESHOLD, count: 0, records: Vec::new() };
        proof {
            assert(id_map(r.records@).map_values(|e: SlashingEvidence| evidence_view(e)) =~= Map::<
                u64,
                EvidenceView,
            >::empty());
        }
        r
    }

    /// Reset the threshold to its default and the record count to 0 (records
    /// already made stay).
    pub fn initialize(&mut self, admin: &str)
        requires
            old(self).wf(),
        ensures
            final(self).wf(),
            final(self)@ == (SlashingView { threshold: DEFAULT_DEVIATION_THRESHOLD, count: 0, ..old(self)@ }),
    {
        self.threshold = DEFAULT_DEVIATION_THRESHOLD;
        self.count = 0;
    }

    /// Report that `node` reported `reported_price` against a consensus of
    /// `consensus_price`, at `now`: a deviation at most the threshold is refused;
    /// otherwise a record is made, open to challenge for `challenge_duration`,
    /// and its identifier (the count after it) returned.
    pub fn report_bad_data(
        &mut self,
        challenger: &str,
        node: &str,
        reported_price: i128,
        consensus_price: i128,
        challenge_duration: u64,
        now: u64,
    ) -> (r: Result<u64, String>)
        requires
            old(self).wf(),
            consensus_price != 0,
            consensus_price > i128::MIN,
            price_gap(reported_price, consensus_price) * 10_000 <= i128::MAX,
            old(self)@.count < u64::MAX,
            now + challenge_duration <= u64::MAX,
        ensures
            final(self).wf(),
            deviation_of(reported_price, consensus_price) <= old(self)@.threshold ==> fails_with(
                r,
                "Deviation is within acceptable consensus limits"@,
            ) && final(self)@ == old(self)@,
            deviation_of(reported_price, consensus_price) > old(self)@.threshold ==> r == Ok::<u64, String>(
                (old(self)@.count + 1) as u64,
            ) && final(self)@ == (SlashingView {
                count: (old(self)@.count + 1) as u64,
                records: old(self)@.records.insert(
                    (old(self)@.count + 1) as u64,
                    EvidenceView {
                        node: node@,
                        reported_price,
                        consensus_price,
                        deviation_bps: deviation_of(reported_price, consensus_price),
                        severity: severity_of(deviation_of(reported_price, consensus_price)),
                        challenge_deadline: (now + challenge_duration) as u64,
                        executed: false,
                    },
                ),
                ..old(self)@
            }),
    {
        let diff: i128 = if reported_price > consensus_price {
            reported_price - consensus_price
        } else {
            consensus_price - reported_price
        };
        let scaled: i128 = diff * 10_000;
        let quotient: i128 = if consensus_price > 0 {
            scaled / consensus_price
        } else {
            -(scaled / (-consensus_price))
        };
        let deviation_bps: u32 = #[verifier::truncate]
        (quotient as u32);
        if deviation_bps <= self.threshold {
            proof {
                reveal_strlit("Deviation is within acceptable consensus limits");
            }
            return Err(String::from_str("Deviation is within acceptable consensus limits"));
        }
        let severity: u32 = if deviation_bps > 5000 {
            3
        } else if deviation_bps > 3000 {
            2
        } else {
            1
        };
        let id = self.count + 1;
        let evidence = SlashingEvidence {
            node: String::from_str(node),
            reported_price,
            consensus_price,
            deviation_bps,
            severity,
            challenge_deadline: now + challenge_duration,
            executed: false,
        };
        let ghost rec = evidence_view(evidence);
        self.count = id;
        upsert_id(&mut self.records, id, evidence);
        proof {
            assert(id_map(self.records@).map_values(|e: SlashingEvidence| evidence_view(e)) =~= old(self)@.records.insert(
                id,
                rec,
            ));
        }
        Ok(id)
    }

    /// Execute a slashing once its challenge period is over, once.
    pub fn execute_slashing(&mut self, admin: &str, slashing_id: u64, now: u64) -> (r: Result<(), String>)
        requires
            old(self).wf(),
        ensures
            final(self).wf(),
            !old(self)@.records.dom().contains(slashing_id) ==> fails_with(r, "Slashing record not found"@),
            old(self)@.records.dom().contains(slashing_id) && old(self)@.records[slashing_id].executed ==> fails_with(
                r,
                "Slashing already executed"@,
            ),
            old(self)@.records.dom().contains(slashing_id) && !old(self)@.records[slashing_id].executed && now < old(
                self,
            )@.records[slashing_id].challenge_deadline ==> fails_with(r, "Challenge period has not yet elapsed"@),
            old(self)@.records.dom().contains(slashing_id) && !old(self)@.records[slashing_id].executed && now >= old(self)@.records[slashing_id].challenge_deadline ==> r is Ok,
            r is Err ==> final(self)@ == old(self)@,
            r is Ok ==> old(self)@.records.dom().contains(slashing_id) && !old(self)@.records[slashing_id].executed
                && now >= old(self)@.records[slashing_id].challenge_deadline && final(self)@ == (SlashingView {
                records: old(self)@.records.insert(
                    slashing_id,
                    EvidenceView { executed: true, ..old(self)@.records[slashing_id] },
                ),
                ..old(self)@
            }),
    {
        proof {
            reveal_strlit("Slashing record not found");
            reveal_strlit("Slashing already executed");
            reveal_strlit("Challenge period has not yet elapsed");
        }
        let i = match find_id(&self.records, slashing_id) {
            Some(i) => i,
            None => return Err(String::from_str("Slashing record not found")),
        };
        proof {
            lemma_id_map_value(self.records@, i as int);
        }
        if self.records[i].1.executed {
            return Err(String::from_str("Slashing already executed"));
        }
        if now < self.records[i].1.challenge_deadline {
            return Err(String::from_str("Challenge period has not yet elapsed"));
        }
        let ghost s0 = self.records@;
        let (k, mut e) = self.records.remove(i);
        e.executed = true;
        let ghost rec = evidence_view(e);
        self.records.insert(i, (k, e));
        proof {
            assert(self.records@ =~= s0.update(i as int, (k, e)));
            lemma_id_update(s0, i as int, e);
            assert(id_map(self.records@).map_values(|e: SlashingEvidence| evidence_view(e)) =~= old(self)@.records.insert(
                k,
                rec,
            ));
        }
        Ok(())
    }
}

/// `r` is the error with text `msg`.
pub open spec fn fails_with<T>(r: Result<T, String>, msg: Seq<char>) -> bool {
    r matches Err(e) && e@ == msg
}

} // verus!
