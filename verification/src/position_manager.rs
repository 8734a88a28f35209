//! The position manager contract: monitored synthetic positions with risk
//! scores, batch operations, alerts and performance analytics.
//!
//! The contract's storage is held as plain values: addresses and symbols are
//! strings, the ledger time and sequence number are passed in.  Authentication
//! of the calling addresses is left to the host.

use vstd::prelude::*;
use crate::idmap::{distinct_ids, find_id, id_map, lemma_id_map_value, lemma_id_update, upsert_id};
use crate::keyed::{distinct_keys, find_key, get_or_zero, lemma_remove, lemma_to_map_value, to_map, upsert};
use crate::numeric::{isqrt_u64, sqrt_floor};
use crate::oracle::tdiv;

verus! {

/// Weight of the collateral component (50%).
pub const WEIGHT_COLLATERAL: u32 = 5_000;
/// Weight of the volatility component (30%).
pub const WEIGHT_VOLATILITY: u32 = 3_000;
/// Weight of the position-age component (10%).
pub const WEIGHT_AGE: u32 = 1_000;
/// Weight of the market-conditions component (10%).
pub const WEIGHT_MARKET: u32 = 1_000;

/// Breakdown of a composite risk score, every part on a 0–10 000 scale.
#[derive(Clone, Copy, Debug, PartialEq, Eq, Structural)]
pub struct RiskScoreBreakdown {
    /// Final weighted score.
    pub total_score: u32,
    /// Collateral-ratio component (weight 50%).
    pub collateral_component: u32,
    /// Volatility component (weight 30%).
    pub volatility_component: u32,
    /// Age component (weight 10%).
    pub age_component: u32,
    /// Market-condition component (weight 10%).
    pub market_component: u32,
}

/// Collateral risk: 0 at a ratio of 300% or more, 10 000 at 110% or less, linear
/// in between (rounded down).
pub open spec fn collateral_risk(ratio: u32) -> u32 {
    if ratio >= 30_000 {
        0
    } else if ratio <= 11_000 {
        10_000
    } else {
        ((30_000 - ratio) * 10_000 / 19_000) as u32
    }
}

/// The smaller of `x` and 10 000.
pub open spec fn cap_bps(x: int) -> u32 {
    if x > 10_000 { 10_000 } else { x as u32 }
}

/// The risk score of a position: weighted collateral, volatility, age and market
/// components.
pub open spec fn risk_score_spec(ratio: u32, volatility: u32, age_days: u32, market: u32) -> RiskScoreBreakdown {
    let c = collateral_risk(ratio);
    let v = cap_bps(volatility as int);
    let a = cap_bps(age_days * 10_000 / 365);
    let m = cap_bps(market as int);
    let total = (c * 5_000 + v * 3_000 + a * 1_000 + m * 1_000) / 10_000;
    RiskScoreBreakdown {
        total_score: cap_bps(total),
        collateral_component: c,
        volatility_component: v,
        age_component: a,
        market_component: m,
    }
}

/// The position manager contract's state.
pub struct PositionManagerContract {
    admin: String,
    user_positions: Vec<(String, Vec<SyntheticPosition>)>,
    meta: Vec<(u64, PositionMetadata)>,
    alerts: Vec<(u64, Vec<PositionAlert>)>,
    alert_last: Vec<(u64, u64)>,
    analytics: Vec<(u64, PositionAnalytics)>,
}

impl PositionManagerContract {
    /// Composite risk score of a position from its collateral ratio (basis points),
    /// 30-day volatility (basis points), age in days and a market score.
    pub fn compute_risk_score_internal(
        collateral_ratio: u32,
        volatility_30d: u32,
        position_age_days: u32,
        market_score: u32,
    ) -> (r: RiskScoreBreakdown)
        ensures
            r == risk_score_spec(collateral_ratio, volatility_30d, position_age_days, market_score),
            r.total_score <= 10_000,
    {
        let collateral_component: u32 = if collateral_ratio >= 30_000 {
            0
        } else if collateral_ratio <= 11_000 {
            10_000
        } else {
            let range: u32 = 30_000 - 11_000;
            let dist: u32 = 30_000u32 - collateral_ratio;
            assert((dist as int) * 10_000 / 19_000 <= 10_000) by (nonlinear_arith)
                requires dist <= 19_000;
            (dist * 10_000) / range
        };
        let volatility_component: u32 = if volatility_30d < 10_000 { volatility_30d } else { 10_000 };
        let age_raw: u64 = (position_age_days as u64 * 10_000) / 365;
        let age_component: u32 = if age_raw < 10_000 { age_raw as u32 } else { 10_000 };
        let market_component: u32 = if market_score < 10_000 { market_score } else { 10_000 };
        let total: u64 = (collateral_component as u64 * 5_000 + volatility_component as u64 * 3_000
            + age_component as u64 * 1_000 + market_component as u64 * 1_000) / 10_000;
        let total_score: u32 = if total < 10_000 { total as u32 } else { 10_000 };
        RiskScoreBreakdown {
            total_score,
            collateral_component,
            volatility_component,
            age_component,
            market_component,
        }
    }

    /// Integer square root.
    pub fn isqrt(n: u64) -> (r: u64)
        ensures
            r == sqrt_floor(n as int),
            r * r <= n < (r + 1) * (r + 1),
    {
        isqrt_u64(n)
    }
}


/// Largest number of items in one batch.
pub const MAX_BATCH_SIZE: u32 = 20;
/// Seconds within which the same alert is not raised twice.
pub const ALERT_DEDUP_WINDOW: u64 = 3600;
/// Seconds between two monitoring passes over a position.
pub const MONITORING_INTERVAL: u64 = 3600;
/// Smallest synthetic amount of a position (100 USD, 8 decimals).
pub const MIN_POSITION_SIZE: u64 = 100_000_000;
/// Smallest collateral ratio change a rebalance makes (basis points).
pub const REBALANCING_THRESHOLD: u32 = 100;

/// Lifecycle of a position.
#[derive(Clone, Copy, Debug, PartialEq, Eq, Structural)]
pub enum PositionStatus {
    Active,
    Warning,
    Liquidating,
    Closed,
    Frozen,
}

/// A synthetic position of a user.
#[derive(Debug)]
pub struct SyntheticPosition {
    /// Owner.
    pub owner: String,
    /// Synthetic asset.
    pub asset_id: u32,
    /// Synthetic units minted (8 decimals).
    pub synthetic_amount: u64,
    /// Collateral per token, one entry per token.
    pub collateral_deposits: Vec<(String, u64)>,
    /// Debt owed.
    pub debt_amount: u64,
    /// Collateral ratio (basis points).
    pub collateral_ratio: u32,
    /// Creation time.
    pub created_at: u64,
    /// Last change.
    pub last_updated: u64,
    /// Whether the position is being liquidated.
    pub liquidating: bool,
}

/// Monitoring record of a position.
#[derive(Debug, PartialEq, Eq)]
pub struct PositionMetadata {
    pub position_id: u64,
    pub owner: String,
    pub asset_id: u32,
    pub created_at: u64,
    pub last_updated: u64,
    pub status: PositionStatus,
    /// Composite risk score (0–10 000).
    pub risk_score: u32,
}

impl Clone for PositionMetadata {
    fn clone(&self) -> (r: Self)
        ensures
            r == *self,
    {
        PositionMetadata {
            position_id: self.position_id,
            owner: self.owner.clone(),
            asset_id: self.asset_id,
            created_at: self.created_at,
            last_updated: self.last_updated,
            status: self.status,
            risk_score: self.risk_score,
        }
    }
}

/// Kind of a position alert.
#[derive(Clone, Copy, Debug, PartialEq, Eq, Structural)]
pub enum AlertType {
    LowCollateral,
    PriceVolatility,
    LiquidationRisk,
    OracleFailure,
}

/// Urgency of a position alert.
#[derive(Clone, Copy, Debug, PartialEq, Eq, Structural)]
pub enum AlertSeverity {
    Info,
    Warning,
    Critical,
    Emergency,
}

/// An alert about a position.
#[derive(Debug, PartialEq, Eq)]
pub struct PositionAlert {
    pub alert_id: u64,
    pub position_id: u64,
    pub alert_type: AlertType,
    pub severity: AlertSeverity,
    /// Short message.
    pub message: String,
    pub timestamp: u64,
    pub acknowledged: bool,
}

impl Clone for PositionAlert {
    fn clone(&self) -> (r: Self)
        ensures
            r == *self,
    {
        PositionAlert {
            alert_id: self.alert_id,
            position_id: self.position_id,
            alert_type: self.alert_type,
            severity: self.severity,
            message: self.message.clone(),
            timestamp: self.timestamp,
            acknowledged: self.acknowledged,
        }
    }
}

/// A position to close.
#[derive(Debug)]
pub struct BatchCloseItem {
    pub position_id: u64,
    pub owner: String,
}

/// A position to rebalance toward a target collateral ratio.
#[derive(Debug)]
pub struct BatchRebalanceItem {
    pub position_id: u64,
    pub owner: String,
    /// Target collateral ratio (basis points).
    pub target_ratio: u32,
}

/// Collateral to add (positive) or remove (negative).
#[derive(Debug)]
pub struct BatchCollateralItem {
    pub position_id: u64,
    pub owner: String,
    pub collateral_token: String,
    pub delta: i64,
}

/// Outcome of one item of a batch.
#[derive(Debug, PartialEq, Eq)]
pub struct BatchItemResult {
    pub position_id: u64,
    pub success: bool,
    /// "OK" or "ERR".
    pub error_code: String,
}

/// Outcome of a batch.
#[derive(Debug)]
pub struct BatchResult {
    pub total: u32,
    pub succeeded: u32,
    pub failed: u32,
    pub results: Vec<BatchItemResult>,
}

/// Performance analytics of a position.
#[derive(Debug, PartialEq, Eq)]
pub struct PositionAnalytics {
    pub position_id: u64,
    pub owner: String,
    pub asset_id: u32,
    /// Profit or loss (8 decimals).
    pub pnl: i64,
    /// Return on the initial collateral (basis points).
    pub roi_bps: i32,
    /// Largest drawdown seen (basis points).
    pub max_drawdown_bps: u32,
    /// Sharpe ratio times 10 000.
    pub sharpe_ratio_scaled: i32,
    pub entry_price: u64,
    pub current_price: u64,
    pub synthetic_amount: u64,
    pub initial_collateral: u64,
    pub days_held: u32,
    /// Sum of the daily returns (basis points).
    pub daily_returns_sum: i64,
    /// Sum of the squared daily returns.
    pub daily_returns_sq_sum: u64,
    pub daily_return_samples: u32,
    pub last_updated: u64,
}

impl Clone for PositionAnalytics {
    fn clone(&self) -> (r: Self)
        ensures
            r == *self,
    {
        PositionAnalytics {
            position_id: self.position_id,
            owner: self.owner.clone(),
            asset_id: self.asset_id,
            pnl: self.pnl,
            roi_bps: self.roi_bps,
            max_drawdown_bps: self.max_drawdown_bps,
            sharpe_ratio_scaled: self.sharpe_ratio_scaled,
            entry_price: self.entry_price,
            current_price: self.current_price,
            synthetic_amount: self.synthetic_amount,
            initial_collateral: self.initial_collateral,
            days_held: self.days_held,
            daily_returns_sum: self.daily_returns_sum,
            daily_returns_sq_sum: self.daily_returns_sq_sum,
            daily_return_samples: self.daily_return_samples,
            last_updated: self.last_updated,
        }
    }
}

/// Why a call was refused.
#[derive(Clone, Copy, Debug, PartialEq, Eq, Structural)]
pub enum PositionError {
    /// The synthetic amount is below the minimum.
    PositionTooSmall,
    /// More than 20 items in a batch.
    BatchTooLarge,
    /// No position with that identifier.
    PositionNotFound,
    /// The caller does not own the position.
    NotPositionOwner,
    /// The position has no alerts.
    NoAlertsForPosition,
    /// The position has no analytics record.
    AnalyticsNotFound,
    /// The caller is not the admin.
    Unauthorized,
}

/// Mathematical model of the position manager's storage.
pub struct PositionBookView {
    pub admin: Seq<char>,
    /// Each user's positions.
    pub positions: Map<Seq<char>, Seq<PositionRecord>>,
    /// Monitoring records by position.
    pub meta: Map<u64, PositionMetadata>,
    /// Alert history by position.
    pub alerts: Map<u64, Seq<AlertRecord>>,
    /// Last time each (position, alert kind) was raised.
    pub alert_last: Map<u64, u64>,
    /// Analytics by position.
    pub analytics: Map<u64, PositionAnalytics>,
}

/// A synthetic position as a mathematical value.
pub struct PositionRecord {
    pub owner: Seq<char>,
    pub asset_id: u32,
    pub synthetic_amount: u64,
    /// Collateral per token.
    pub deposits: Map<Seq<char>, u64>,
    pub debt_amount: u64,
    pub collateral_ratio: u32,
    pub created_at: u64,
    pub last_updated: u64,
    pub liquidating: bool,
}

/// The model of a position.
pub open spec fn position_record(p: SyntheticPosition) -> PositionRecord {
    PositionRecord {
        owner: p.owner@,
        asset_id: p.asset_id,
        synthetic_amount: p.synthetic_amount,
        deposits: to_map(p.collateral_deposits@),
        debt_amount: p.debt_amount,
        collateral_ratio: p.collateral_ratio,
        created_at: p.created_at,
        last_updated: p.last_updated,
        liquidating: p.liquidating,
    }
}

/// The models of a list of positions.
pub open spec fn position_records(l: Seq<SyntheticPosition>) -> Seq<PositionRecord> {
    l.map_values(|p: SyntheticPosition| position_record(p))
}

/// The positions of each user, as sequences.
pub open spec fn list_map(s: Seq<(String, Vec<SyntheticPosition>)>) -> Map<Seq<char>, Seq<PositionRecord>> {
    to_map(s).map_values(|l: Vec<SyntheticPosition>| position_records(l@))
}

/// An alert as a mathematical value.
pub struct AlertRecord {
    pub alert_id: u64,
    pub position_id: u64,
    pub alert_type: AlertType,
    pub severity: AlertSeverity,
    pub message: Seq<char>,
    pub timestamp: u64,
    pub acknowledged: bool,
}

/// The model of an alert.
pub open spec fn alert_record(a: PositionAlert) -> AlertRecord {
    AlertRecord {
        alert_id: a.alert_id,
        position_id: a.position_id,
        alert_type: a.alert_type,
        severity: a.severity,
        message: a.message@,
        timestamp: a.timestamp,
        acknowledged: a.acknowledged,
    }
}

/// The models of a list of alerts.
pub open spec fn alert_records(l: Seq<PositionAlert>) -> Seq<AlertRecord> {
    l.map_values(|a: PositionAlert| alert_record(a))
}

/// The alerts of each position, as sequences.
pub open spec fn alert_map(s: Seq<(u64, Vec<PositionAlert>)>) -> Map<u64, Seq<AlertRecord>> {
    id_map(s).map_values(|l: Vec<PositionAlert>| alert_records(l@))
}

impl View for PositionManagerContract {
    type V = PositionBookView;

    closed spec fn view(&self) -> PositionBookView {
        PositionBookView {
            admin: self.admin@,
            positions: list_map(self.user_positions@),
            meta: id_map(self.meta@),
            alerts: alert_map(self.alerts@),
            alert_last: id_map(self.alert_last@),
            analytics: id_map(self.analytics@),
        }
    }
}

/// Every position of a list keeps one deposit entry per token.
pub open spec fn list_deposits_distinct(l: Seq<SyntheticPosition>) -> bool {
    forall|i: int| 0 <= i < l.len() ==> distinct_keys((#[trigger] l[i]).collateral_deposits@)
}

/// Every position of the lists keeps one deposit entry per token.
pub open spec fn deposits_distinct(m: Map<Seq<char>, Vec<SyntheticPosition>>) -> bool {
    forall|k: Seq<char>| #[trigger] m.dom().contains(k) ==> list_deposits_distinct(m[k]@)
}

/// The metadata is stored under each position's own identifier.
pub open spec fn meta_keyed(m: Map<u64, PositionMetadata>) -> bool {
    forall|k: u64| #[trigger] m.dom().contains(k) ==> m[k].position_id == k
}

/// The risk score a new position starts with.
pub open spec fn initial_risk(target_ratio: u32) -> u32 {
    risk_score_spec(target_ratio, 3000, 0, 5000).total_score
}

/// `p` is the position opened by `user` with these amounts at `now`.
pub open spec fn opened_position(
    p: PositionRecord,
    user: Seq<char>,
    asset_id: u32,
    token: Seq<char>,
    collateral_amount: u64,
    synthetic_amount: u64,
    target_ratio: u32,
    now: u64,
) -> bool {
    &&& p.owner == user
    &&& p.asset_id == asset_id
    &&& p.synthetic_amount == synthetic_amount
    &&& p.deposits == Map::<Seq<char>, u64>::empty().insert(token, collateral_amount)
    &&& p.debt_amount == synthetic_amount
    &&& p.collateral_ratio == target_ratio
    &&& p.created_at == now
    &&& p.last_updated == now
    &&& !p.liquidating
}

impl PositionManagerContract {
    /// Each table has one entry per key, metadata is keyed by its own identifier
    /// and every position keeps one deposit entry per token.
    pub closed spec fn wf(&self) -> bool {
        &&& distinct_keys(self.user_positions@)
        &&& distinct_ids(self.meta@)
        &&& distinct_ids(self.alerts@)
        &&& distinct_ids(self.alert_last@)
        &&& distinct_ids(self.analytics@)
        &&& meta_keyed(id_map(self.meta@))
        &&& deposits_distinct(to_map(self.user_positions@))
    }

    /// Set up the manager with its admin and empty tables.
    pub fn initialize(admin: &str) -> (r: Self)
        ensures
            r.wf(),
            r@.admin == admin@,
            r@.positions.is_empty(),
            r@.meta.is_empty(),
            r@.alerts.is_empty(),
            r@.alert_last.is_empty(),
            r@.analytics.is_empty(),
    {
        let r = PositionManagerContract {
            admin: String::from_str(admin),
            user_positions: Vec::new(),
            meta: Vec::new(),
            alerts: Vec::new(),
            alert_last: Vec::new(),
            analytics: Vec::new(),
        };
        proof {
            assert(list_map(r.user_positions@) =~= Map::<Seq<char>, Seq<PositionRecord>>::empty());
            assert(id_map(r.meta@) =~= Map::<u64, PositionMetadata>::empty());
            assert(alert_map(r.alerts@) =~= Map::<u64, Seq<AlertRecord>>::empty());
            assert(id_map(r.alert_last@) =~= Map::<u64, u64>::empty());
            assert(id_map(r.analytics@) =~= Map::<u64, PositionAnalytics>::empty());
        }
        r
    }

    /// Take a user's positions out of the table (an empty list when there are none).
    fn take_positions(&mut self, user: &str) -> (r: Vec<SyntheticPosition>)
        requires
            old(self).wf(),
        ensures
            distinct_keys(final(self).user_positions@),
            to_map(final(self).user_positions@) == to_map(old(self).user_positions@).remove(user@),
            old(self)@.positions.dom().contains(user@) ==> r == to_map(old(self).user_positions@)[user@],
            old(self)@.positions.dom().contains(user@) ==> position_records(r@) == old(self)@.positions[user@],
            !old(self)@.positions.dom().contains(user@) ==> r@.len() == 0,
            list_deposits_distinct(r@),
            deposits_distinct(to_map(final(self).user_positions@)),
            final(self).admin == old(self).admin,
            final(self).meta == old(self).meta,
            final(self).alerts == old(self).alerts,
            final(self).alert_last == old(self).alert_last,
            final(self).analytics == old(self).analytics,
    {
        match find_key(&self.user_positions, user) {
            Some(i) => {
                proof {
                    lemma_remove(self.user_positions@, i as int);
                }
                let (_k, l) = self.user_positions.remove(i);
                proof {
                    assert(old(self)@.positions.dom().contains(user@));
                    assert forall|k: Seq<char>| #[trigger] to_map(self.user_positions@).dom().contains(k) implies list_deposits_distinct(
                        to_map(self.user_positions@)[k]@,
                    ) by {
                        assert(to_map(old(self).user_positions@).dom().contains(k));
                    }
                }
                l
            },
            None => {
                proof {
                    assert(to_map(self.user_positions@) =~= to_map(self.user_positions@).remove(user@));
                }
                Vec::new()
            },
        }
    }

    /// Store a user's positions.
    fn put_positions(&mut self, user: &str, list: Vec<SyntheticPosition>)
        requires
            distinct_keys(old(self).user_positions@),
            deposits_distinct(to_map(old(self).user_positions@)),
            list_deposits_distinct(list@),
        ensures
            distinct_keys(final(self).user_positions@),
            deposits_distinct(to_map(final(self).user_positions@)),
            to_map(final(self).user_positions@) == to_map(old(self).user_positions@).insert(user@, list),
            list_map(final(self).user_positions@) == list_map(old(self).user_positions@).insert(
                user@,
                position_records(list@),
            ),
            final(self).admin == old(self).admin,
            final(self).meta == old(self).meta,
            final(self).alerts == old(self).alerts,
            final(self).alert_last == old(self).alert_last,
            final(self).analytics == old(self).analytics,
    {
        let ghost l = list;
        upsert(&mut self.user_positions, user, list);
        proof {
            assert(list_map(self.user_positions@) =~= list_map(old(self).user_positions@).insert(
                user@,
                position_records(l@),
            ));
            assert forall|k: Seq<char>| #[trigger] to_map(self.user_positions@).dom().contains(k) implies list_deposits_distinct(
                to_map(self.user_positions@)[k]@,
            ) by {
                if k != user@ {
                    assert(to_map(old(self).user_positions@).dom().contains(k));
                }
            }
        }
    }

    /// Open a monitored position for `user` at time `now` under the identifier
    /// `position_id` (the ledger sequence number), with its opening risk score
    /// and analytics record; only the admin (`caller`) may.
    pub fn create_monitored_position(
        &mut self,
        caller: &str,
        user: &str,
        asset_id: u32,
        collateral_token: &str,
        collateral_amount: u64,
        synthetic_amount: u64,
        target_ratio: u32,
        entry_price: u64,
        position_id: u64,
        now: u64,
    ) -> (r: Result<u64, PositionError>)
        requires
            old(self).wf(),
        ensures
            final(self).wf(),
            caller@ != old(self)@.admin ==> r == Err::<u64, PositionError>(PositionError::Unauthorized)
                && final(self)@ == old(self)@,
            caller@ == old(self)@.admin && synthetic_amount < MIN_POSITION_SIZE ==> r == Err::<u64, PositionError>(
                PositionError::PositionTooSmall,
            ) && final(self)@ == old(self)@,
            caller@ == old(self)@.admin && synthetic_amount >= MIN_POSITION_SIZE ==> {
                let v0 = old(self)@;
                let v1 = final(self)@;
                let prev = if v0.positions.dom().contains(user@) { v0.positions[user@] } else { Seq::empty() };
                &&& r == Ok::<u64, PositionError>(position_id)
                &&& v1.admin == v0.admin
                &&& v1.alerts == v0.alerts
                &&& v1.alert_last == v0.alert_last
                &&& v1.positions == v0.positions.insert(user@, prev.push(v1.positions[user@].last()))
                &&& opened_position(
                    v1.positions[user@].last(),
                    user@,
                    asset_id,
                    collateral_token@,
                    collateral_amount,
                    synthetic_amount,
                    target_ratio,
                    now,
                )
                &&& v1.meta == v0.meta.insert(position_id, v1.meta[position_id])
                &&& v1.meta[position_id].position_id == position_id
                &&& v1.meta[position_id].owner@ == user@
                &&& v1.meta[position_id].asset_id == asset_id
                &&& v1.meta[position_id].created_at == now
                &&& v1.meta[position_id].last_updated == now
                &&& v1.meta[position_id].status == PositionStatus::Active
                &&& v1.meta[position_id].risk_score == initial_risk(target_ratio)
                &&& v1.analytics == v0.analytics.insert(position_id, v1.analytics[position_id])
                &&& v1.analytics[position_id] == (PositionAnalytics {
                    pnl: 0,
                    roi_bps: 0,
                    max_drawdown_bps: 0,
                    sharpe_ratio_scaled: 0,
                    current_price: entry_price,
                    days_held: 0,
                    daily_returns_sum: 0,
                    daily_returns_sq_sum: 0,
                    daily_return_samples: 0,
                    ..v1.analytics[position_id]
                })
                &&& v1.analytics[position_id].position_id == position_id
                &&& v1.analytics[position_id].owner@ == user@
                &&& v1.analytics[position_id].asset_id == asset_id
                &&& v1.analytics[position_id].entry_price == entry_price
                &&& v1.analytics[position_id].synthetic_amount == synthetic_amount
                &&& v1.analytics[position_id].initial_collateral == collateral_amount
                &&& v1.analytics[position_id].last_updated == now
            },
    {
        let who = String::from_str(caller);
        if who != self.admin {
            return Err(PositionError::Unauthorized);
        }
        if synthetic_amount < MIN_POSITION_SIZE {
            return Err(PositionError::PositionTooSmall);
        }
        let ghost v0 = self@;
        let mut deposits: Vec<(String, u64)> = Vec::new();
        let token = String::from_str(collateral_token);
        deposits.push((token, collateral_amount));
        proof {
            assert(deposits@ == seq![(token, collateral_amount)]);
        }
        let position = SyntheticPosition {
            owner: String::from_str(user),
            asset_id,
            synthetic_amount,
            collateral_deposits: deposits,
            debt_amount: synthetic_amount,
            collateral_ratio: target_ratio,
            created_at: now,
            last_updated: now,
            liquidating: false,
        };
        let ghost pos = position;
        let mut list = self.take_positions(user);
        let ghost l0 = list@;
        list.push(position);
        proof {
            assert(list@ == l0.push(pos));
            assert(distinct_keys(pos.collateral_deposits@));
            assert(list_deposits_distinct(list@)) by {
                assert forall|i: int| 0 <= i < list@.len() implies distinct_keys((#[trigger] list@[i]).collateral_deposits@) by {
                    if i < l0.len() {
                        assert(list@[i] == l0[i]);
                    }
                }
            }
            assert(position_records(l0.push(pos)) =~= position_records(l0).push(position_record(pos)));
        }
        self.put_positions(user, list);
        let risk = Self::compute_risk_score_internal(target_ratio, 3000, 0, 5000).total_score;
        let meta = PositionMetadata {
            position_id,
            owner: String::from_str(user),
            asset_id,
            created_at: now,
            last_updated: now,
            status: PositionStatus::Active,
            risk_score: risk,
        };
        upsert_id(&mut self.meta, position_id, meta);
        let analytics = PositionAnalytics {
            position_id,
            owner: String::from_str(user),
            asset_id,
            pnl: 0,
            roi_bps: 0,
            max_drawdown_bps: 0,
            sharpe_ratio_scaled: 0,
            entry_price,
            current_price: entry_price,
            synthetic_amount,
            initial_collateral: collateral_amount,
            days_held: 0,
            daily_returns_sum: 0,
            daily_returns_sq_sum: 0,
            daily_return_samples: 0,
            last_updated: now,
        };
        upsert_id(&mut self.analytics, position_id, analytics);
        proof {
            assert(meta_keyed(id_map(self.meta@)));
            let rec = position_record(pos);
            let prev = if v0.positions.dom().contains(user@) { v0.positions[user@] } else { Seq::empty() };
            assert(position_records(l0) =~= prev);
            assert(self@.positions =~= v0.positions.insert(user@, prev.push(rec)));
            assert(to_map(pos.collateral_deposits@) =~= Map::<Seq<char>, u64>::empty().insert(
                collateral_token@,
                collateral_amount,
            )) by {
                let d = pos.collateral_deposits@;
                assert(d.len() == 1);
                assert(d.drop_last() =~= Seq::<(String, u64)>::empty());
                assert(to_map(d.drop_last()) =~= Map::<Seq<char>, u64>::empty());
            }
            assert(opened_position(rec, user@, asset_id, collateral_token@, collateral_amount, synthetic_amount, target_ratio, now));
            assert(self@.meta[position_id] == meta);
            assert(self@.analytics[position_id] == analytics);
        }
        Ok(position_id)
    }

    /// Score a position from live inputs, store the score and move the position
    /// to Frozen (from 9 500), Warning (from 8 000) or Active, unless it is closed
    /// or being liquidated.
    pub fn calculate_risk_score(
        &mut self,
        position_id: u64,
        current_ratio: u32,
        volatility_30d: u32,
        position_age_days: u32,
        market_score: u32,
        now: u64,
    ) -> (r: RiskScoreBreakdown)
        requires
            old(self).wf(),
        ensures
            final(self).wf(),
            r == risk_score_spec(current_ratio, volatility_30d, position_age_days, market_score),
            !old(self)@.meta.dom().contains(position_id) ==> final(self)@ == old(self)@,
            old(self)@.meta.dom().contains(position_id) ==> final(self)@ == (PositionBookView {
                meta: old(self)@.meta.insert(position_id, rescored(old(self)@.meta[position_id], r.total_score, now)),
                ..old(self)@
            }),
    {
        let breakdown = Self::compute_risk_score_internal(current_ratio, volatility_30d, position_age_days, market_score);
        match find_id(&self.meta, position_id) {
            Some(i) => {
                let mut m = self.meta[i].1.clone();
                m.risk_score = breakdown.total_score;
                m.last_updated = now;
                if m.status != PositionStatus::Closed && m.status != PositionStatus::Liquidating {
                    m.status = if breakdown.total_score >= 9500 {
                        PositionStatus::Frozen
                    } else if breakdown.total_score >= 8000 {
                        PositionStatus::Warning
                    } else {
                        PositionStatus::Active
                    };
                }
                upsert_id(&mut self.meta, position_id, m);
            },
            None => {},
        }
        breakdown
    }

    /// The stored risk score of a position (10 000 for an unknown one).
    pub fn get_risk_score(&self, position_id: u64) -> (r: u32)
        requires
            self.wf(),
        ensures
            r == if self@.meta.dom().contains(position_id) { self@.meta[position_id].risk_score } else { 10_000 },
    {
        match find_id(&self.meta, position_id) {
            Some(i) => self.meta[i].1.risk_score,
            None => 10_000,
        }
    }

    /// The alert history of a position.
    pub fn get_position_alerts(&self, position_id: u64) -> (r: Vec<PositionAlert>)
        requires
            self.wf(),
        ensures
            alert_records(r@) == if self@.alerts.dom().contains(position_id) { self@.alerts[position_id] } else { Seq::empty() },
    {
        match find_id(&self.alerts, position_id) {
            Some(i) => {
                let mut out: Vec<PositionAlert> = Vec::new();
                let mut j: usize = 0;
                while j < self.alerts[i].1.len()
                    invariant
                        i < self.alerts@.len(),
                        j <= self.alerts@[i as int].1@.len(),
                        out@ == self.alerts@[i as int].1@.take(j as int),
                    decreases self.alerts@[i as int].1@.len() - j,
                {
                    out.push(self.alerts[i].1[j].clone());
                    proof {
                        assert(out@ =~= self.alerts@[i as int].1@.take(j + 1));
                    }
                    j = j + 1;
                }
                proof {
                    assert(out@ =~= self.alerts@[i as int].1@);
                    lemma_id_map_value(self.alerts@, i as int);
                }
                out
            },
            None => {
                let out: Vec<PositionAlert> = Vec::new();
                proof {
                    assert(alert_records(out@) =~= Seq::<AlertRecord>::empty());
                }
                out
            },
        }
    }

    /// The analytics of a position.
    pub fn get_position_analytics(&self, position_id: u64) -> (r: Result<PositionAnalytics, PositionError>)
        requires
            self.wf(),
        ensures
            self@.analytics.dom().contains(position_id) ==> r == Ok::<PositionAnalytics, PositionError>(
                self@.analytics[position_id],
            ),
            !self@.analytics.dom().contains(position_id) ==> r == Err::<PositionAnalytics, PositionError>(
                PositionError::AnalyticsNotFound,
            ),
    {
        match find_id(&self.analytics, position_id) {
            Some(i) => Ok(self.analytics[i].1.clone()),
            None => Err(PositionError::AnalyticsNotFound),
        }
    }
}

/// The monitoring record after a new score at `now`: positions that are neither
/// closed nor being liquidated move to Frozen (from 9 500), Warning (from 8 000)
/// or Active.
pub open spec fn rescored(m: PositionMetadata, score: u32, now: u64) -> PositionMetadata {
    let status = if m.status != PositionStatus::Closed && m.status != PositionStatus::Liquidating {
        if score >= 9500 {
            PositionStatus::Frozen
        } else if score >= 8000 {
            PositionStatus::Warning
        } else {
            PositionStatus::Active
        }
    } else {
        m.status
    };
    PositionMetadata { risk_score: score, last_updated: now, status, ..m }
}


/// Number that tells alert kinds apart in the deduplication key.
pub open spec fn alert_code(t: AlertType) -> u64 {
    match t {
        AlertType::LowCollateral => 0,
        AlertType::PriceVolatility => 1,
        AlertType::LiquidationRisk => 2,
        AlertType::OracleFailure => 3,
    }
}

/// Deduplication key of an alert kind on a position.
pub open spec fn dedup_key(position_id: u64, t: AlertType) -> int {
    position_id * 10 + alert_code(t)
}

/// Whether the same alert was raised less than the deduplication window ago.
pub open spec fn alert_suppressed(v: PositionBookView, position_id: u64, t: AlertType, now: u64) -> bool {
    let k = dedup_key(position_id, t) as u64;
    v.alert_last.dom().contains(k) && now - v.alert_last[k] < ALERT_DEDUP_WINDOW
}

/// The book after raising an alert that is not suppressed.
pub open spec fn alert_raised(v: PositionBookView, rec: AlertRecord, now: u64) -> PositionBookView {
    let id = rec.position_id;
    let prev = if v.alerts.dom().contains(id) { v.alerts[id] } else { Seq::empty() };
    PositionBookView {
        alert_last: v.alert_last.insert(dedup_key(id, rec.alert_type) as u64, now),
        alerts: v.alerts.insert(id, prev.push(rec)),
        ..v
    }
}

/// The alert record raised with these fields, unacknowledged.
pub open spec fn new_alert(
    alert_id: u64,
    position_id: u64,
    t: AlertType,
    severity: AlertSeverity,
    message: Seq<char>,
    now: u64,
) -> AlertRecord {
    AlertRecord { alert_id, position_id, alert_type: t, severity, message, timestamp: now, acknowledged: false }
}

/// Raising an alert stays within the contract's arithmetic: the deduplication
/// key fits in `u64` and no earlier alert lies after `now`.
pub open spec fn alert_fits(v: PositionBookView, position_id: u64, t: AlertType, now: u64) -> bool {
    &&& dedup_key(position_id, t) <= u64::MAX
    &&& v.alert_last.dom().contains(dedup_key(position_id, t) as u64) ==> v.alert_last[dedup_key(position_id, t) as u64] <= now
}

/// An alert marked seen when its identifier is `alert_id`.
pub open spec fn acknowledged_fn(alert_id: u64) -> spec_fn(AlertRecord) -> AlertRecord {
    |a: AlertRecord| if a.alert_id == alert_id { AlertRecord { acknowledged: true, ..a } } else { a }
}

/// The unacknowledged alerts of a list.
pub open spec fn unacknowledged() -> spec_fn(AlertRecord) -> bool {
    |a: AlertRecord| !a.acknowledged
}

/// The outstanding alerts of `user`'s positions, over a metadata table.
pub open spec fn user_alerts(metas: Seq<(u64, PositionMetadata)>, alerts: Map<u64, Seq<AlertRecord>>, user: Seq<char>) -> Seq<AlertRecord>
    decreases metas.len(),
{
    if metas.len() == 0 {
        Seq::empty()
    } else {
        let prev = user_alerts(metas.drop_last(), alerts, user);
        let m = metas.last().1;
        if m.owner@ == user && alerts.dom().contains(m.position_id) {
            prev + alerts[m.position_id].filter(unacknowledged())
        } else {
            prev
        }
    }
}

impl PositionManagerContract {
    /// The metadata table, in creation order.
    pub closed spec fn meta_table(&self) -> Seq<(u64, PositionMetadata)> {
        self.meta@
    }

    /// Raise an alert for a position at `now` under the identifier `alert_id` (the
    /// ledger sequence number).  The same kind of alert on the same position is
    /// not raised twice within the deduplication window: then 0 is returned and
    /// nothing changes.
    pub fn raise_alert(
        &mut self,
        position_id: u64,
        alert_type: AlertType,
        severity: AlertSeverity,
        message: &str,
        alert_id: u64,
        now: u64,
    ) -> (r: u64)
        requires
            old(self).wf(),
            alert_fits(old(self)@, position_id, alert_type, now),
        ensures
            final(self).wf(),
            alert_suppressed(old(self)@, position_id, alert_type, now) ==> r == 0 && final(self)@ == old(self)@,
            !alert_suppressed(old(self)@, position_id, alert_type, now) ==> r == alert_id && final(self)@ == alert_raised(
                old(self)@,
                new_alert(alert_id, position_id, alert_type, severity, message@, now),
                now,
            ),
            final(self).meta_table() == old(self).meta_table(),
    {
        let code: u64 = match alert_type {
            AlertType::LowCollateral => 0,
            AlertType::PriceVolatility => 1,
            AlertType::LiquidationRisk => 2,
            AlertType::OracleFailure => 3,
        };
        let key: u64 = position_id * 10 + code;
        match find_id(&self.alert_last, key) {
            Some(i) => {
                if now - self.alert_last[i].1 < ALERT_DEDUP_WINDOW {
                    return 0;
                }
            },
            None => {},
        }
        let ghost v0 = self@;
        upsert_id(&mut self.alert_last, key, now);
        let alert = PositionAlert {
            alert_id,
            position_id,
            alert_type,
            severity,
            message: String::from_str(message),
            timestamp: now,
            acknowledged: false,
        };
        let ghost rec = alert_record(alert);
        let mut list: Vec<PositionAlert> = match find_id(&self.alerts, position_id) {
            Some(i) => {
                let ghost s0 = self.alerts@;
                let (_k, l) = self.alerts.remove(i);
                proof {
                    lemma_id_map_value(s0, i as int);
                    assert(alert_records(l@) == v0.alerts[position_id]);
                }
                let empty: Vec<PositionAlert> = Vec::new();
                self.alerts.insert(i, (position_id, empty));
                proof {
                    assert(self.alerts@ =~= s0.update(i as int, (position_id, empty)));
                    lemma_id_update(s0, i as int, empty);
                }
                l
            },
            None => Vec::new(),
        };
        let ghost l0 = list@;
        list.push(alert);
        upsert_id(&mut self.alerts, position_id, list);
        proof {
            let prev = if v0.alerts.dom().contains(position_id) { v0.alerts[position_id] } else { Seq::empty() };
            assert(alert_records(l0) =~= prev);
            assert(alert_records(l0.push(alert)) =~= prev.push(rec));
            assert(alert_map(self.alerts@) =~= v0.alerts.insert(position_id, prev.push(rec)));
        }
        alert_id
    }

    /// Mark the alerts with identifier `alert_id` of a position as seen; only the
    /// position's owner may.
    pub fn acknowledge_alert(&mut self, caller: &str, position_id: u64, alert_id: u64) -> (r: Result<(), PositionError>)
        requires
            old(self).wf(),
        ensures
            final(self).wf(),
            ({
                let v0 = old(self)@;
                let v1 = final(self)@;
                &&& !v0.meta.dom().contains(position_id) ==> r == Err::<(), PositionError>(PositionError::PositionNotFound)
                &&& v0.meta.dom().contains(position_id) && v0.meta[position_id].owner@ != caller@ ==> r == Err::<
                    (),
                    PositionError,
                >(PositionError::NotPositionOwner)
                &&& v0.meta.dom().contains(position_id) && v0.meta[position_id].owner@ == caller@
                    && !v0.alerts.dom().contains(position_id) ==> r == Err::<(), PositionError>(
                    PositionError::NoAlertsForPosition,
                )
                &&& r is Err ==> v1 == v0
                &&& r is Ok ==> v0.meta.dom().contains(position_id) && v0.meta[position_id].owner@ == caller@
                    && v0.alerts.dom().contains(position_id) && v1 == (PositionBookView {
                    alerts: v0.alerts.insert(
                        position_id,
                        v0.alerts[position_id].map_values(acknowledged_fn(alert_id)),
                    ),
                    ..v0
                })
            }),
    {
        let mi = match find_id(&self.meta, position_id) {
            Some(i) => i,
            None => return Err(PositionError::PositionNotFound),
        };
        let owner = String::from_str(caller);
        if self.meta[mi].1.owner != owner {
            return Err(PositionError::NotPositionOwner);
        }
        let ai = match find_id(&self.alerts, position_id) {
            Some(i) => i,
            None => return Err(PositionError::NoAlertsForPosition),
        };
        let ghost v0 = self@;
        let ghost s0 = self.alerts@;
        let (_k, l) = self.alerts.remove(ai);
        proof {
            lemma_id_map_value(s0, ai as int);
        }
        let mut updated: Vec<PositionAlert> = Vec::new();
        let mut j: usize = 0;
        while j < l.len()
            invariant
                j <= l@.len(),
                alert_records(updated@) == alert_records(l@.take(j as int)).map_values(acknowledged_fn(alert_id)),
            decreases l@.len() - j,
        {
            let mut a = l[j].clone();
            if a.alert_id == alert_id {
                a.acknowledged = true;
            }
            let ghost ub = updated@;
            updated.push(a);
            proof {
                let t0 = alert_records(l@.take(j as int));
                let x = alert_record(l@[j as int]);
                assert(alert_records(l@.take(j + 1)) =~= t0.push(x));
                assert(t0.push(x).map_values(acknowledged_fn(alert_id)) =~= t0.map_values(acknowledged_fn(alert_id)).push(
                    acknowledged_fn(alert_id)(x),
                ));
                assert(alert_records(updated@) =~= alert_records(ub).push(alert_record(a)));
                assert(alert_record(a) == acknowledged_fn(alert_id)(x));
                assert(alert_records(updated@) =~= alert_records(l@.take(j + 1)).map_values(acknowledged_fn(alert_id)));
            }
            j = j + 1;
        }
        proof {
            assert(l@.take(l@.len() as int) =~= l@);
        }
        self.alerts.insert(ai, (position_id, updated));
        proof {
            assert(self.alerts@ =~= s0.update(ai as int, (position_id, updated)));
            lemma_id_update(s0, ai as int, updated);
            assert(alert_map(self.alerts@) =~= v0.alerts.insert(position_id, alert_records(updated@)));
        }
        Ok(())
    }

    /// The unacknowledged alerts of every position of `user`, position by position
    /// in creation order.
    pub fn get_user_alerts(&self, user: &str) -> (r: Vec<PositionAlert>)
        requires
            self.wf(),
        ensures
            alert_records(r@) == user_alerts(self.meta_table(), self@.alerts, user@),
    {
        let mut out: Vec<PositionAlert> = Vec::new();
        let mut i: usize = 0;
        let u = String::from_str(user);
        while i < self.meta.len()
            invariant
                i <= self.meta@.len(),
                self.wf(),
                u@ == user@,
                alert_records(out@) == user_alerts(self.meta@.take(i as int), self@.alerts, user@),
            decreases self.meta@.len() - i,
        {
            let ghost before = out@;
            proof {
                assert(self.meta@.take(i + 1).drop_last() =~= self.meta@.take(i as int));
            }
            if self.meta[i].1.owner == u {
                match find_id(&self.alerts, self.meta[i].1.position_id) {
                    Some(k) => {
                        proof {
                            lemma_id_map_value(self.alerts@, k as int);
                        }
                        let mut j: usize = 0;
                        while j < self.alerts[k].1.len()
                            invariant
                                k < self.alerts@.len(),
                                j <= self.alerts@[k as int].1@.len(),
                                alert_records(out@) == alert_records(before) + alert_records(
                                    self.alerts@[k as int].1@.take(j as int),
                                ).filter(unacknowledged()),
                            decreases self.alerts@[k as int].1@.len() - j,
                        {
                            proof {
                                let t1 = alert_records(self.alerts@[k as int].1@.take(j + 1));
                                assert(t1.drop_last() =~= alert_records(self.alerts@[k as int].1@.take(j as int)));
                                reveal(Seq::filter);
                            }
                            let ghost ob = out@;
                            proof {
                                let t0 = alert_records(self.alerts@[k as int].1@.take(j as int));
                                let t1 = alert_records(self.alerts@[k as int].1@.take(j + 1));
                                let x = alert_record(self.alerts@[k as int].1@[j as int]);
                                assert(t1 =~= t0.push(x));
                                assert(t1.filter(unacknowledged()) == t0.filter(unacknowledged()) + (if !x.acknowledged {
                                    seq![x]
                                } else {
                                    Seq::empty()
                                }));
                            }
                            if !self.alerts[k].1[j].acknowledged {
                                out.push(self.alerts[k].1[j].clone());
                                proof {
                                    assert(alert_records(out@) =~= alert_records(ob).push(
                                        alert_record(self.alerts@[k as int].1@[j as int]),
                                    ));
                                }
                                proof {
                                    assert(alert_records(out@) =~= alert_records(before) + alert_records(
                                        self.alerts@[k as int].1@.take(j + 1),
                                    ).filter(unacknowledged()));
                                }
                            } else {
                                proof {
                                    assert(alert_records(out@) =~= alert_records(before) + alert_records(
                                        self.alerts@[k as int].1@.take(j + 1),
                                    ).filter(unacknowledged()));
                                }
                            }
                            j = j + 1;
                        }
                        proof {
                            assert(self.alerts@[k as int].1@.take(self.alerts@[k as int].1@.len() as int)
                                =~= self.alerts@[k as int].1@);
                        }
                    },
                    None => {},
                }
            }
            i = i + 1;
        }
        proof {
            assert(self.meta@.take(self.meta@.len() as int) =~= self.meta@);
        }
        out
    }
}


/// Whether a batch item may act on position `id` claimed by `owner`: the position
/// exists, belongs to `owner` and is neither closed nor being liquidated.
pub open spec fn can_act(v: PositionBookView, id: u64, owner: Seq<char>) -> bool {
    &&& v.meta.dom().contains(id)
    &&& v.meta[id].owner@ == owner
    &&& v.meta[id].status != PositionStatus::Closed
    &&& v.meta[id].status != PositionStatus::Liquidating
}

/// Whether a position of a user's list is the one a monitoring record tracks
/// (same asset and owner).
pub open spec fn same_position(p: PositionRecord, m: PositionMetadata) -> bool {
    p.asset_id == m.asset_id && p.owner == m.owner@
}

/// Positions other than the one `m` tracks.
pub open spec fn unrelated_to(m: PositionMetadata) -> spec_fn(PositionRecord) -> bool {
    |p: PositionRecord| !same_position(p, m)
}

/// Analytics after a position is closed at `now`: whole days since the last
/// update, truncated to `u32`.
pub open spec fn days_updated(a: PositionAnalytics, now: u64) -> PositionAnalytics {
    PositionAnalytics { days_held: (((now - a.last_updated) / 86400) as u64) as u32, last_updated: now, ..a }
}

/// Closing position `id` claimed by `owner` at `now`: the book after it and
/// whether it succeeded.
pub open spec fn close_step(v: PositionBookView, id: u64, owner: Seq<char>, now: u64) -> (PositionBookView, bool) {
    if !can_act(v, id, owner) {
        (v, false)
    } else {
        let m = v.meta[id];
        (
            PositionBookView {
                meta: v.meta.insert(id, PositionMetadata { status: PositionStatus::Closed, last_updated: now, ..m }),
                positions: if v.positions.dom().contains(owner) {
                    v.positions.insert(owner, v.positions[owner].filter(unrelated_to(m)))
                } else {
                    v.positions
                },
                analytics: if v.analytics.dom().contains(id) {
                    v.analytics.insert(id, days_updated(v.analytics[id], now))
                } else {
                    v.analytics
                },
                ..v
            },
            true,
        )
    }
}

/// Closing stays within the contract's arithmetic: the analytics were not
/// updated after `now`.
pub open spec fn close_fits(v: PositionBookView, id: u64, owner: Seq<char>, now: u64) -> bool {
    can_act(v, id, owner) && v.analytics.dom().contains(id) ==> v.analytics[id].last_updated <= now
}

/// Number of successes among batch outcomes.
pub open spec fn count_true(s: Seq<bool>) -> nat
    decreases s.len(),
{
    if s.len() == 0 {
        0
    } else {
        count_true(s.drop_last()) + if s.last() { 1nat } else { 0nat }
    }
}

proof fn lemma_count_true_le(s: Seq<bool>)
    ensures
        count_true(s) <= s.len(),
    decreases s.len(),
{
    if s.len() > 0 {
        lemma_count_true_le(s.drop_last());
    }
}

/// `r` reports the outcomes `oks` of the batch items with identifiers `ids`.
pub open spec fn batch_reported(ids: Seq<u64>, oks: Seq<bool>, r: BatchResult) -> bool {
    &&& r.total == ids.len()
    &&& r.results@.len() == ids.len()
    &&& r.succeeded == count_true(oks)
    &&& r.failed == ids.len() - count_true(oks)
    &&& forall|i: int|
        0 <= i < ids.len() ==> (#[trigger] r.results@[i]).position_id == ids[i] && r.results@[i].success == oks[i]
            && r.results@[i].error_code@ == (if oks[i] { "OK"@ } else { "ERR"@ })
}

/// A batch ran: the book is the one after its items and `r` reports their
/// outcomes.
pub open spec fn batch_applied(
    ids: Seq<u64>,
    f: (PositionBookView, Seq<bool>),
    v1: PositionBookView,
    r: Result<BatchResult, PositionError>,
) -> bool {
    match r {
        Ok(res) => v1 == f.0 && batch_reported(ids, f.1, res),
        Err(_) => false,
    }
}

/// The closes of a batch in order: the book after them and their outcomes.
pub open spec fn close_fold(items: Seq<BatchCloseItem>, v: PositionBookView, now: u64) -> (PositionBookView, Seq<bool>)
    decreases items.len(),
{
    if items.len() == 0 {
        (v, Seq::empty())
    } else {
        let prev = close_fold(items.drop_last(), v, now);
        let step = close_step(prev.0, items.last().position_id, items.last().owner@, now);
        (step.0, prev.1.push(step.1))
    }
}

/// Every close of a batch stays within the contract's arithmetic.
pub open spec fn close_all_fit(items: Seq<BatchCloseItem>, v: PositionBookView, now: u64) -> bool
    decreases items.len(),
{
    if items.len() == 0 {
        true
    } else {
        let prev = close_fold(items.drop_last(), v, now);
        close_all_fit(items.drop_last(), v, now) && close_fits(prev.0, items.last().position_id, items.last().owner@, now)
    }
}

proof fn lemma_close_all_fit_prefix(items: Seq<BatchCloseItem>, v: PositionBookView, now: u64, k: int)
    requires
        0 <= k <= items.len(),
        close_all_fit(items, v, now),
    ensures
        close_all_fit(items.take(k), v, now),
    decreases items.len() - k,
{
    if k == items.len() {
        assert(items.take(k) =~= items);
    } else {
        lemma_close_all_fit_prefix(items, v, now, k + 1);
        assert(items.take(k + 1).drop_last() =~= items.take(k));
    }
}

/// The identifiers of batch items.
pub open spec fn close_ids(items: Seq<BatchCloseItem>) -> Seq<u64> {
    items.map_values(|i: BatchCloseItem| i.position_id)
}

impl PositionManagerContract {
    /// Keep the positions of `list` that `m` does not track.
    fn without_position(list: Vec<SyntheticPosition>, m: &PositionMetadata) -> (r: Vec<SyntheticPosition>)
        requires
            list_deposits_distinct(list@),
        ensures
            position_records(r@) == position_records(list@).filter(unrelated_to(*m)),
            list_deposits_distinct(r@),
    {
        let ghost l0 = list@;
        let mut rest = list;
        let mut kept: Vec<SyntheticPosition> = Vec::new();
        let mut j: usize = 0;
        let n = rest.len();
        while j < n
            invariant
                n == l0.len(),
                j <= n,
                rest@ == l0.skip(j as int),
                position_records(kept@) == position_records(l0.take(j as int)).filter(unrelated_to(*m)),
                list_deposits_distinct(l0),
                list_deposits_distinct(kept@),
            decreases n - j,
        {
            let p = rest.remove(0);
            let ghost kb = kept@;
            proof {
                assert(p == l0[j as int]);
                assert(rest@ =~= l0.skip(j + 1));
                let t0 = position_records(l0.take(j as int));
                assert(position_records(l0.take(j + 1)) =~= t0.push(position_record(p)));
                reveal(Seq::filter);
                assert(t0.push(position_record(p)).drop_last() =~= t0);
            }
            if !(p.asset_id == m.asset_id && p.owner == m.owner) {
                kept.push(p);
                proof {
                    assert(position_records(kept@) =~= position_records(kb).push(position_record(p)));
                    assert forall|i: int| 0 <= i < kept@.len() implies distinct_keys((#[trigger] kept@[i]).collateral_deposits@) by {
                        if i < kb.len() {
                            assert(kept@[i] == kb[i]);
                        }
                    }
                }
            }
            j = j + 1;
        }
        proof {
            assert(l0.take(n as int) =~= l0);
        }
        kept
    }

    /// Close one position of a batch.
    fn close_one(&mut self, position_id: u64, owner: &str, now: u64) -> (ok: bool)
        requires
            old(self).wf(),
            close_fits(old(self)@, position_id, owner@, now),
        ensures
            final(self).wf(),
            (final(self)@, ok) == close_step(old(self)@, position_id, owner@, now),
            final(self).meta_table().len() == old(self).meta_table().len(),
    {
        let ghost v0 = self@;
        let i = match find_id(&self.meta, position_id) {
            Some(i) => i,
            None => return false,
        };
        let m = self.meta[i].1.clone();
        let o = String::from_str(owner);
        if m.owner != o || m.status == PositionStatus::Closed || m.status == PositionStatus::Liquidating {
            return false;
        }
        let m2 = PositionMetadata {
            position_id: m.position_id,
            owner: m.owner.clone(),
            asset_id: m.asset_id,
            created_at: m.created_at,
            last_updated: now,
            status: PositionStatus::Closed,
            risk_score: m.risk_score,
        };
        let ghost s0 = self.meta@;
        proof {
            lemma_id_update(s0, i as int, m2);
        }
        self.meta.set(i, (position_id, m2));
        proof {
            assert(meta_keyed(id_map(self.meta@)));
        }
        if find_key(&self.user_positions, owner).is_some() {
            let list = self.take_positions(owner);
            let kept = Self::without_position(list, &m);
            self.put_positions(owner, kept);
        }
        match find_id(&self.analytics, position_id) {
            Some(k) => {
                let mut a = self.analytics[k].1.clone();
                let elapsed: u64 = now - a.last_updated;
                let days: u64 = elapsed / 86400;
                a.days_held = #[verifier::truncate] (days as u32);
                a.last_updated = now;
                upsert_id(&mut self.analytics, position_id, a);
            },
            None => {},
        }
        proof {
            assert(self@.positions =~= close_step(v0, position_id, owner@, now).0.positions);
            assert(self@.meta =~= close_step(v0, position_id, owner@, now).0.meta);
            assert(self@.analytics =~= close_step(v0, position_id, owner@, now).0.analytics);
        }
        true
    }

    /// Close up to 20 positions; each item succeeds or fails on its own.
    pub fn batch_close_positions(&mut self, caller: &str, items: Vec<BatchCloseItem>, now: u64) -> (r: Result<
        BatchResult,
        PositionError,
    >)
        requires
            old(self).wf(),
            close_all_fit(items@, old(self)@, now),
        ensures
            final(self).wf(),
            items@.len() > MAX_BATCH_SIZE ==> r == Err::<BatchResult, PositionError>(PositionError::BatchTooLarge)
                && final(self)@ == old(self)@,
            items@.len() <= MAX_BATCH_SIZE ==> batch_applied(
                close_ids(items@),
                close_fold(items@, old(self)@, now),
                final(self)@,
                r,
            ),
    {
        if items.len() > MAX_BATCH_SIZE as usize {
            return Err(PositionError::BatchTooLarge);
        }
        let ghost v0 = self@;
        let mut results: Vec<BatchItemResult> = Vec::new();
        let mut succeeded: u32 = 0;
        let mut failed: u32 = 0;
        let mut i: usize = 0;
        while i < items.len()
            invariant
                i <= items@.len(),
                items@.len() <= MAX_BATCH_SIZE,
                self.wf(),
                close_all_fit(items@, v0, now),
                self@ == close_fold(items@.take(i as int), v0, now).0,
                results@.len() == i,
                succeeded == count_true(close_fold(items@.take(i as int), v0, now).1),
                failed == i - count_true(close_fold(items@.take(i as int), v0, now).1),
                close_fold(items@.take(i as int), v0, now).1.len() == i,
                forall|j: int|
                    0 <= j < i ==> (#[trigger] results@[j]).position_id == items@[j].position_id && results@[j].success
                        == close_fold(items@.take(i as int), v0, now).1[j] && results@[j].error_code@ == (if close_fold(
                        items@.take(i as int),
                        v0,
                        now,
                    ).1[j] {
                        "OK"@
                    } else {
                        "ERR"@
                    }),
            decreases items@.len() - i,
        {
            let ghost t1 = items@.take(i + 1);
            let ghost prev = close_fold(items@.take(i as int), v0, now);
            proof {
                assert(t1.drop_last() =~= items@.take(i as int));
                lemma_close_all_fit_prefix(items@, v0, now, i + 1);
                lemma_count_true_le(prev.1);
            }
            let ok = self.close_one(items[i].position_id, items[i].owner.as_str(), now);
            let code = if ok { String::from_str("OK") } else { String::from_str("ERR") };
            proof {
                reveal_strlit("OK");
                reveal_strlit("ERR");
            }
            results.push(BatchItemResult { position_id: items[i].position_id, success: ok, error_code: code });
            if ok {
                succeeded = succeeded + 1;
            } else {
                failed = failed + 1;
            }
            proof {
                let next = close_fold(t1, v0, now);
                assert(next.1 == prev.1.push(ok));
                assert(next.1.drop_last() =~= prev.1);
            }
            i = i + 1;
        }
        proof {
            assert(items@.take(items@.len() as int) =~= items@);
        }
        Ok(BatchResult { total: items.len() as u32, succeeded, failed, results })
    }
}


/// Distance between two ratios.
pub open spec fn ratio_gap(a: u32, b: u32) -> int {
    if a > b { a - b } else { b - a }
}

/// Whether a rebalance toward `target` changes position `p` that `m` tracks.
pub open spec fn rebalance_moves(p: PositionRecord, m: PositionMetadata, target: u32) -> bool {
    same_position(p, m) && ratio_gap(p.collateral_ratio, target) >= REBALANCING_THRESHOLD
}

/// A position after a rebalance toward `target` at `now`.
pub open spec fn rebalance_fn(m: PositionMetadata, target: u32, now: u64) -> spec_fn(PositionRecord) -> PositionRecord {
    |p: PositionRecord| if rebalance_moves(p, m, target) {
        PositionRecord { collateral_ratio: target, last_updated: now, ..p }
    } else {
        p
    }
}

/// Risk score after a rebalance to `target`.
pub open spec fn rebalanced_risk(target: u32) -> u32 {
    risk_score_spec(target, 2000, 0, 5000).total_score
}

/// Rebalancing position `id` claimed by `owner` toward `target` at `now`: the
/// book after it and whether it succeeded (some tracked position moved by at
/// least the threshold).
pub open spec fn rebalance_step(v: PositionBookView, id: u64, owner: Seq<char>, target: u32, now: u64) -> (PositionBookView, bool) {
    if !can_act(v, id, owner) || !v.positions.dom().contains(owner) {
        (v, false)
    } else {
        let m = v.meta[id];
        let l = v.positions[owner];
        let v1 = PositionBookView { positions: v.positions.insert(owner, l.map_values(rebalance_fn(m, target, now))), ..v };
        if !(exists|i: int| 0 <= i < l.len() && rebalance_moves(#[trigger] l[i], m, target)) {
            (v1, false)
        } else {
            let risk = rebalanced_risk(target);
            (
                PositionBookView {
                    meta: v.meta.insert(
                        id,
                        PositionMetadata {
                            risk_score: risk,
                            last_updated: now,
                            status: if risk >= 8000 { PositionStatus::Warning } else { m.status },
                            ..m
                        },
                    ),
                    ..v1
                },
                true,
            )
        }
    }
}

/// The rebalances of a batch in order: the book after them and their outcomes.
pub open spec fn rebalance_fold(items: Seq<BatchRebalanceItem>, v: PositionBookView, now: u64) -> (PositionBookView, Seq<bool>)
    decreases items.len(),
{
    if items.len() == 0 {
        (v, Seq::empty())
    } else {
        let prev = rebalance_fold(items.drop_last(), v, now);
        let it = items.last();
        let step = rebalance_step(prev.0, it.position_id, it.owner@, it.target_ratio, now);
        (step.0, prev.1.push(step.1))
    }
}

/// The identifiers of batch items.
pub open spec fn rebalance_ids(items: Seq<BatchRebalanceItem>) -> Seq<u64> {
    items.map_values(|i: BatchRebalanceItem| i.position_id)
}

/// Collateral of `p` in `token` (0 without a deposit).
pub open spec fn deposit_of(p: PositionRecord, token: Seq<char>) -> u64 {
    if p.deposits.dom().contains(token) { p.deposits[token] } else { 0 }
}

/// Whether adding `delta` of `token` changes position `p` that `m` tracks (a
/// removal larger than the deposit does not).
pub open spec fn adjust_moves(p: PositionRecord, m: PositionMetadata, token: Seq<char>, delta: i64) -> bool {
    same_position(p, m) && (delta >= 0 || -delta <= deposit_of(p, token))
}

/// A position after adding `delta` of `token` at `now`.
pub open spec fn adjust_fn(m: PositionMetadata, token: Seq<char>, delta: i64, now: u64) -> spec_fn(PositionRecord) -> PositionRecord {
    |p: PositionRecord| if adjust_moves(p, m, token, delta) {
        PositionRecord {
            deposits: p.deposits.insert(token, (deposit_of(p, token) + delta) as u64),
            last_updated: now,
            ..p
        }
    } else {
        p
    }
}

/// Adjusting the collateral of position `id` claimed by `owner`: the book after
/// it and whether it succeeded (some tracked position changed).
pub open spec fn adjust_step(
    v: PositionBookView,
    id: u64,
    owner: Seq<char>,
    token: Seq<char>,
    delta: i64,
    now: u64,
) -> (PositionBookView, bool) {
    if !can_act(v, id, owner) || !v.positions.dom().contains(owner) {
        (v, false)
    } else {
        let m = v.meta[id];
        let l = v.positions[owner];
        if !(exists|i: int| 0 <= i < l.len() && adjust_moves(#[trigger] l[i], m, token, delta)) {
            (v, false)
        } else {
            (
                PositionBookView {
                    positions: v.positions.insert(owner, l.map_values(adjust_fn(m, token, delta, now))),
                    meta: v.meta.insert(id, PositionMetadata { last_updated: now, ..m }),
                    ..v
                },
                true,
            )
        }
    }
}

/// Adjusting stays within the contract's arithmetic: a removal of `i64::MIN`
/// meets no tracked position and no deposit overflows.
pub open spec fn adjust_fits(v: PositionBookView, id: u64, owner: Seq<char>, token: Seq<char>, delta: i64) -> bool {
    can_act(v, id, owner) && v.positions.dom().contains(owner) ==> forall|i: int|
        0 <= i < v.positions[owner].len() && same_position(#[trigger] v.positions[owner][i], v.meta[id]) ==> delta
            != i64::MIN && (delta >= 0 ==> deposit_of(v.positions[owner][i], token) + delta <= u64::MAX)
}

/// The adjustments of a batch in order: the book after them and their outcomes.
pub open spec fn adjust_fold(items: Seq<BatchCollateralItem>, v: PositionBookView, now: u64) -> (PositionBookView, Seq<bool>)
    decreases items.len(),
{
    if items.len() == 0 {
        (v, Seq::empty())
    } else {
        let prev = adjust_fold(items.drop_last(), v, now);
        let it = items.last();
        let step = adjust_step(prev.0, it.position_id, it.owner@, it.collateral_token@, it.delta, now);
        (step.0, prev.1.push(step.1))
    }
}

/// Every adjustment of a batch stays within the contract's arithmetic.
pub open spec fn adjust_all_fit(items: Seq<BatchCollateralItem>, v: PositionBookView, now: u64) -> bool
    decreases items.len(),
{
    if items.len() == 0 {
        true
    } else {
        let prev = adjust_fold(items.drop_last(), v, now);
        let it = items.last();
        adjust_all_fit(items.drop_last(), v, now) && adjust_fits(prev.0, it.position_id, it.owner@, it.collateral_token@, it.delta)
    }
}

proof fn lemma_adjust_all_fit_prefix(items: Seq<BatchCollateralItem>, v: PositionBookView, now: u64, k: int)
    requires
        0 <= k <= items.len(),
        adjust_all_fit(items, v, now),
    ensures
        adjust_all_fit(items.take(k), v, now),
    decreases items.len() - k,
{
    if k == items.len() {
        assert(items.take(k) =~= items);
    } else {
        lemma_adjust_all_fit_prefix(items, v, now, k + 1);
        assert(items.take(k + 1).drop_last() =~= items.take(k));
    }
}

/// The identifiers of batch items.
pub open spec fn adjust_ids(items: Seq<BatchCollateralItem>) -> Seq<u64> {
    items.map_values(|i: BatchCollateralItem| i.position_id)
}

impl PositionManagerContract {
    /// Rebalance the positions of `list` that `m` tracks toward `target`; returns
    /// the new list and whether any changed.
    fn rebalance_list(list: Vec<SyntheticPosition>, m: &PositionMetadata, target: u32, now: u64) -> (r: (
        Vec<SyntheticPosition>,
        bool,
    ))
        requires
            list_deposits_distinct(list@),
        ensures
            position_records(r.0@) == position_records(list@).map_values(rebalance_fn(*m, target, now)),
            r.1 == exists|i: int|
                0 <= i < list@.len() && rebalance_moves(#[trigger] position_records(list@)[i], *m, target),
            list_deposits_distinct(r.0@),
    {
        let ghost l0 = list@;
        let ghost recs = position_records(l0);
        let mut rest = list;
        let mut out: Vec<SyntheticPosition> = Vec::new();
        let mut changed = false;
        let mut j: usize = 0;
        let n = rest.len();
        while j < n
            invariant
                n == l0.len(),
                recs == position_records(l0),
                j <= n,
                rest@ == l0.skip(j as int),
                position_records(out@) == recs.take(j as int).map_values(rebalance_fn(*m, target, now)),
                changed == exists|i: int| 0 <= i < j && rebalance_moves(#[trigger] recs[i], *m, target),
                list_deposits_distinct(l0),
                list_deposits_distinct(out@),
            decreases n - j,
        {
            let mut p = rest.remove(0);
            let ghost ob = out@;
            proof {
                assert(p == l0[j as int]);
                assert(rest@ =~= l0.skip(j + 1));
                assert(recs[j as int] == position_record(p));
            }
            if p.asset_id == m.asset_id && p.owner == m.owner {
                let current = p.collateral_ratio;
                let delta: u32 = if current > target { current - target } else { target - current };
                if delta >= REBALANCING_THRESHOLD {
                    p.collateral_ratio = target;
                    p.last_updated = now;
                    changed = true;
                }
            }
            out.push(p);
            proof {
                assert(position_records(out@) =~= position_records(ob).push(position_record(p)));
                assert(recs.take(j + 1) =~= recs.take(j as int).push(recs[j as int]));
                assert(recs.take(j + 1).map_values(rebalance_fn(*m, target, now)) =~= recs.take(j as int).map_values(
                    rebalance_fn(*m, target, now),
                ).push(rebalance_fn(*m, target, now)(recs[j as int])));
                assert forall|i: int| 0 <= i < out@.len() implies distinct_keys((#[trigger] out@[i]).collateral_deposits@) by {
                    if i < ob.len() {
                        assert(out@[i] == ob[i]);
                    } else {
                        assert(out@[i].collateral_deposits == l0[j as int].collateral_deposits);
                    }
                }
            }
            j = j + 1;
        }
        proof {
            assert(recs.take(n as int) =~= recs);
        }
        (out, changed)
    }

    /// Rebalance one position of a batch.
    fn rebalance_one(&mut self, position_id: u64, owner: &str, target: u32, now: u64) -> (ok: bool)
        requires
            old(self).wf(),
        ensures
            final(self).wf(),
            (final(self)@, ok) == rebalance_step(old(self)@, position_id, owner@, target, now),
    {
        let ghost v0 = self@;
        let i = match find_id(&self.meta, position_id) {
            Some(i) => i,
            None => return false,
        };
        let m = self.meta[i].1.clone();
        let o = String::from_str(owner);
        if m.owner != o || m.status == PositionStatus::Closed || m.status == PositionStatus::Liquidating {
            return false;
        }
        if find_key(&self.user_positions, owner).is_none() {
            return false;
        }
        let list = self.take_positions(owner);
        let ghost l0 = list@;
        let (new_list, changed) = Self::rebalance_list(list, &m, target, now);
        self.put_positions(owner, new_list);
        proof {
            assert(position_records(l0) == v0.positions[owner@]);
            assert(self@.positions =~= rebalance_step(v0, position_id, owner@, target, now).0.positions);
        }
        if !changed {
            proof {
                assert(self@.meta =~= rebalance_step(v0, position_id, owner@, target, now).0.meta);
            }
            return false;
        }
        let breakdown = Self::compute_risk_score_internal(target, 2000, 0, 5000);
        let risk = breakdown.total_score;
        let m2 = PositionMetadata {
            position_id: m.position_id,
            owner: m.owner.clone(),
            asset_id: m.asset_id,
            created_at: m.created_at,
            last_updated: now,
            status: if risk >= 8000 { PositionStatus::Warning } else { m.status },
            risk_score: risk,
        };
        upsert_id(&mut self.meta, position_id, m2);
        proof {
            assert(meta_keyed(id_map(self.meta@)));
            assert(self@.meta =~= rebalance_step(v0, position_id, owner@, target, now).0.meta);
        }
        true
    }

    /// Rebalance up to 20 positions toward their targets; each item succeeds or
    /// fails on its own.
    pub fn batch_rebalance_positions(&mut self, caller: &str, items: Vec<BatchRebalanceItem>, now: u64) -> (r: Result<
        BatchResult,
        PositionError,
    >)
        requires
            old(self).wf(),
        ensures
            final(self).wf(),
            items@.len() > MAX_BATCH_SIZE ==> r == Err::<BatchResult, PositionError>(PositionError::BatchTooLarge)
                && final(self)@ == old(self)@,
            items@.len() <= MAX_BATCH_SIZE ==> batch_applied(
                rebalance_ids(items@),
                rebalance_fold(items@, old(self)@, now),
                final(self)@,
                r,
            ),
    {
        if items.len() > MAX_BATCH_SIZE as usize {
            return Err(PositionError::BatchTooLarge);
        }
        let ghost v0 = self@;
        let mut results: Vec<BatchItemResult> = Vec::new();
        let mut succeeded: u32 = 0;
        let mut failed: u32 = 0;
        let mut i: usize = 0;
        while i < items.len()
            invariant
                i <= items@.len(),
                items@.len() <= MAX_BATCH_SIZE,
                self.wf(),
                self@ == rebalance_fold(items@.take(i as int), v0, now).0,
                results@.len() == i,
                succeeded == count_true(rebalance_fold(items@.take(i as int), v0, now).1),
                failed == i - count_true(rebalance_fold(items@.take(i as int), v0, now).1),
                rebalance_fold(items@.take(i as int), v0, now).1.len() == i,
                forall|j: int|
                    0 <= j < i ==> (#[trigger] results@[j]).position_id == items@[j].position_id && results@[j].success
                        == rebalance_fold(items@.take(i as int), v0, now).1[j] && results@[j].error_code@ == (
                    if rebalance_fold(items@.take(i as int), v0, now).1[j] {
                        "OK"@
                    } else {
                        "ERR"@
                    }),
            decreases items@.len() - i,
        {
            let ghost t1 = items@.take(i + 1);
            let ghost prev = rebalance_fold(items@.take(i as int), v0, now);
            proof {
                assert(t1.drop_last() =~= items@.take(i as int));
                lemma_count_true_le(prev.1);
            }
            let ok = self.rebalance_one(items[i].position_id, items[i].owner.as_str(), items[i].target_ratio, now);
            let code = if ok { String::from_str("OK") } else { String::from_str("ERR") };
            proof {
                reveal_strlit("OK");
                reveal_strlit("ERR");
            }
            results.push(BatchItemResult { position_id: items[i].position_id, success: ok, error_code: code });
            if ok {
                succeeded = succeeded + 1;
            } else {
                failed = failed + 1;
            }
            proof {
                let next = rebalance_fold(t1, v0, now);
                assert(next.1 == prev.1.push(ok));
                assert(next.1.drop_last() =~= prev.1);
            }
            i = i + 1;
        }
        proof {
            assert(items@.take(items@.len() as int) =~= items@);
        }
        Ok(BatchResult { total: items.len() as u32, succeeded, failed, results })
    }
}


impl PositionManagerContract {
    /// Add `delta` of `token` to the positions of `list` that `m` tracks; returns
    /// the new list and whether any changed.
    fn adjust_list(list: Vec<SyntheticPosition>, m: &PositionMetadata, token: &str, delta: i64, now: u64) -> (r: (
        Vec<SyntheticPosition>,
        bool,
    ))
        requires
            list_deposits_distinct(list@),
            forall|i: int|
                0 <= i < list@.len() && same_position(#[trigger] position_records(list@)[i], *m) ==> delta != i64::MIN && (
                delta >= 0 ==> deposit_of(position_records(list@)[i], token@) + delta <= u64::MAX),
        ensures
            position_records(r.0@) == position_records(list@).map_values(adjust_fn(*m, token@, delta, now)),
            r.1 == exists|i: int|
                0 <= i < list@.len() && adjust_moves(#[trigger] position_records(list@)[i], *m, token@, delta),
            list_deposits_distinct(r.0@),
    {
        let ghost l0 = list@;
        let ghost recs = position_records(l0);
        let mut rest = list;
        let mut out: Vec<SyntheticPosition> = Vec::new();
        let mut changed = false;
        let mut j: usize = 0;
        let n = rest.len();
        while j < n
            invariant
                n == l0.len(),
                recs == position_records(l0),
                j <= n,
                rest@ == l0.skip(j as int),
                position_records(out@) == recs.take(j as int).map_values(adjust_fn(*m, token@, delta, now)),
                changed == exists|i: int| 0 <= i < j && adjust_moves(#[trigger] recs[i], *m, token@, delta),
                list_deposits_distinct(l0),
                list_deposits_distinct(out@),
                forall|i: int|
                    0 <= i < l0.len() && same_position(#[trigger] recs[i], *m) ==> delta != i64::MIN && (delta >= 0
                        ==> deposit_of(recs[i], token@) + delta <= u64::MAX),
            decreases n - j,
        {
            let mut p = rest.remove(0);
            let ghost ob = out@;
            let ghost p0 = p;
            proof {
                assert(p == l0[j as int]);
                assert(rest@ =~= l0.skip(j + 1));
                assert(recs[j as int] == position_record(p));
                assert(distinct_keys(p.collateral_deposits@));
            }
            if p.asset_id == m.asset_id && p.owner == m.owner {
                let current = get_or_zero(&p.collateral_deposits, token);
                if delta < 0 {
                    let remove: u64 = (-delta) as u64;
                    if remove <= current {
                        upsert(&mut p.collateral_deposits, token, current - remove);
                        p.last_updated = now;
                        changed = true;
                    }
                } else {
                    let add: u64 = delta as u64;
                    upsert(&mut p.collateral_deposits, token, current + add);
                    p.last_updated = now;
                    changed = true;
                }
            }
            out.push(p);
            proof {
                assert(position_records(out@) =~= position_records(ob).push(position_record(p)));
                assert(recs.take(j + 1) =~= recs.take(j as int).push(recs[j as int]));
                assert(recs.take(j + 1).map_values(adjust_fn(*m, token@, delta, now)) =~= recs.take(j as int).map_values(
                    adjust_fn(*m, token@, delta, now),
                ).push(adjust_fn(*m, token@, delta, now)(recs[j as int])));
                assert(position_record(p) == adjust_fn(*m, token@, delta, now)(position_record(p0)));
                assert forall|i: int| 0 <= i < out@.len() implies distinct_keys((#[trigger] out@[i]).collateral_deposits@) by {
                    if i < ob.len() {
                        assert(out@[i] == ob[i]);
                    }
                }
            }
            j = j + 1;
        }
        proof {
            assert(recs.take(n as int) =~= recs);
        }
        (out, changed)
    }

    /// Adjust the collateral of one position of a batch.
    fn adjust_one(&mut self, position_id: u64, owner: &str, token: &str, delta: i64, now: u64) -> (ok: bool)
        requires
            old(self).wf(),
            adjust_fits(old(self)@, position_id, owner@, token@, delta),
        ensures
            final(self).wf(),
            (final(self)@, ok) == adjust_step(old(self)@, position_id, owner@, token@, delta, now),
    {
        let ghost v0 = self@;
        let i = match find_id(&self.meta, position_id) {
            Some(i) => i,
            None => return false,
        };
        let m = self.meta[i].1.clone();
        let o = String::from_str(owner);
        if m.owner != o || m.status == PositionStatus::Closed || m.status == PositionStatus::Liquidating {
            return false;
        }
        if find_key(&self.user_positions, owner).is_none() {
            return false;
        }
        let list = self.take_positions(owner);
        let ghost l0 = list@;
        proof {
            assert(position_records(l0) == v0.positions[owner@]);
        }
        let (new_list, changed) = Self::adjust_list(list, &m, token, delta, now);
        if !changed {
            proof {
                assert(position_records(new_list@) =~= position_records(l0));
                assert(to_map(old(self).user_positions@).dom().contains(owner@));
            }
            self.put_positions(owner, new_list);
            proof {
                assert(self@.positions =~= v0.positions);
            }
            return false;
        }
        self.put_positions(owner, new_list);
        let m2 = PositionMetadata {
            position_id: m.position_id,
            owner: m.owner.clone(),
            asset_id: m.asset_id,
            created_at: m.created_at,
            last_updated: now,
            status: m.status,
            risk_score: m.risk_score,
        };
        upsert_id(&mut self.meta, position_id, m2);
        proof {
            assert(meta_keyed(id_map(self.meta@)));
            assert(self@.positions =~= adjust_step(v0, position_id, owner@, token@, delta, now).0.positions);
            assert(self@.meta =~= adjust_step(v0, position_id, owner@, token@, delta, now).0.meta);
        }
        true
    }

    /// Add (positive) or remove (negative) collateral for up to 20 positions; a
    /// removal larger than the deposit fails that item.
    pub fn batch_adjust_collateral(&mut self, caller: &str, items: Vec<BatchCollateralItem>, now: u64) -> (r: Result<
        BatchResult,
        PositionError,
    >)
        requires
            old(self).wf(),
            adjust_all_fit(items@, old(self)@, now),
        ensures
            final(self).wf(),
            items@.len() > MAX_BATCH_SIZE ==> r == Err::<BatchResult, PositionError>(PositionError::BatchTooLarge)
                && final(self)@ == old(self)@,
            items@.len() <= MAX_BATCH_SIZE ==> batch_applied(
                adjust_ids(items@),
                adjust_fold(items@, old(self)@, now),
                final(self)@,
                r,
            ),
    {
        if items.len() > MAX_BATCH_SIZE as usize {
            return Err(PositionError::BatchTooLarge);
        }
        let ghost v0 = self@;
        let mut results: Vec<BatchItemResult> = Vec::new();
        let mut succeeded: u32 = 0;
        let mut failed: u32 = 0;
        let mut i: usize = 0;
        while i < items.len()
            invariant
                i <= items@.len(),
                items@.len() <= MAX_BATCH_SIZE,
                self.wf(),
                adjust_all_fit(items@, v0, now),
                self@ == adjust_fold(items@.take(i as int), v0, now).0,
                results@.len() == i,
                succeeded == count_true(adjust_fold(items@.take(i as int), v0, now).1),
                failed == i - count_true(adjust_fold(items@.take(i as int), v0, now).1),
                adjust_fold(items@.take(i as int), v0, now).1.len() == i,
                forall|j: int|
                    0 <= j < i ==> (#[trigger] results@[j]).position_id == items@[j].position_id && results@[j].success
                        == adjust_fold(items@.take(i as int), v0, now).1[j] && results@[j].error_code@ == (
                    if adjust_fold(items@.take(i as int), v0, now).1[j] {
                        "OK"@
                    } else {
                        "ERR"@
                    }),
            decreases items@.len() - i,
        {
            let ghost t1 = items@.take(i + 1);
            let ghost prev = adjust_fold(items@.take(i as int), v0, now);
            proof {
                assert(t1.drop_last() =~= items@.take(i as int));
                lemma_adjust_all_fit_prefix(items@, v0, now, i + 1);
                lemma_count_true_le(prev.1);
            }
            let ok = self.adjust_one(
                items[i].position_id,
                items[i].owner.as_str(),
                items[i].collateral_token.as_str(),
                items[i].delta,
                now,
            );
            let code = if ok { String::from_str("OK") } else { String::from_str("ERR") };
            proof {
                reveal_strlit("OK");
                reveal_strlit("ERR");
            }
            results.push(BatchItemResult { position_id: items[i].position_id, success: ok, error_code: code });
            if ok {
                succeeded = succeeded + 1;
            } else {
                failed = failed + 1;
            }
            proof {
                let next = adjust_fold(t1, v0, now);
                assert(next.1 == prev.1.push(ok));
                assert(next.1.drop_last() =~= prev.1);
            }
            i = i + 1;
        }
        proof {
            assert(items@.take(items@.len() as int) =~= items@);
        }
        Ok(BatchResult { total: items.len() as u32, succeeded, failed, results })
    }
}


/// The book after raising an alert unless it is suppressed.
pub open spec fn raise_spec(
    v: PositionBookView,
    position_id: u64,
    t: AlertType,
    severity: AlertSeverity,
    message: Seq<char>,
    alert_id: u64,
    now: u64,
) -> PositionBookView {
    if alert_suppressed(v, position_id, t, now) {
        v
    } else {
        alert_raised(v, new_alert(alert_id, position_id, t, severity, message, now), now)
    }
}

/// Collateral ratio of the first position of `l` in asset `asset_id`.
pub open spec fn first_ratio(l: Seq<PositionRecord>, asset_id: u32) -> Option<u32>
    decreases l.len(),
{
    if l.len() == 0 {
        None
    } else if l[0].asset_id == asset_id {
        Some(l[0].collateral_ratio)
    } else {
        first_ratio(l.drop_first(), asset_id)
    }
}

/// The collateral ratio monitoring assumes for `m`: that of the owner's first
/// position in the asset, else 150%.
pub open spec fn monitored_ratio(positions: Map<Seq<char>, Seq<PositionRecord>>, m: PositionMetadata) -> u32 {
    if positions.dom().contains(m.owner@) {
        match first_ratio(positions[m.owner@], m.asset_id) {
            Some(r) => r,
            None => 15_000,
        }
    } else {
        15_000
    }
}

/// Whether monitoring at `now` re-scores `m`: it is open and was not updated
/// within the monitoring interval.
pub open spec fn monitoring_due(m: PositionMetadata, now: u64) -> bool {
    m.status != PositionStatus::Closed && !(now < m.last_updated + MONITORING_INTERVAL)
}

/// Score of `m` in a monitoring pass.
pub open spec fn monitor_score(v: PositionBookView, m: PositionMetadata, vol: u32, market: u32, now: u64) -> u32 {
    risk_score_spec(monitored_ratio(v.positions, m), vol, ((((now - m.created_at) / 86400) as u64) as u32), market).total_score
}

/// The book after the threshold alert of a monitoring pass, and the new status.
pub open spec fn threshold_alert(v: PositionBookView, m: PositionMetadata, t: u32, seq: u64, now: u64) -> (PositionBookView, PositionStatus) {
    let id = m.position_id;
    if t >= 9500 {
        (raise_spec(v, id, AlertType::LiquidationRisk, AlertSeverity::Emergency, "NEAR_LIQ"@, seq, now), PositionStatus::Frozen)
    } else if t >= 8000 {
        (raise_spec(v, id, AlertType::LiquidationRisk, AlertSeverity::Critical, "LIQ_RISK"@, seq, now), PositionStatus::Warning)
    } else if t >= 6000 {
        (raise_spec(v, id, AlertType::LowCollateral, AlertSeverity::Warning, "LOW_COL"@, seq, now), m.status)
    } else {
        (v, PositionStatus::Active)
    }
}

/// One position of a monitoring pass.
pub open spec fn monitor_step(v: PositionBookView, m: PositionMetadata, vol: u32, market: u32, now: u64, seq: u64) -> PositionBookView {
    if !monitoring_due(m, now) {
        v
    } else {
        let t = monitor_score(v, m, vol, market, now);
        let a = threshold_alert(v, m, t, seq, now);
        let v2 = if vol >= 5000 {
            raise_spec(a.0, m.position_id, AlertType::PriceVolatility, AlertSeverity::Warning, "HIGH_VOL"@, seq, now)
        } else {
            a.0
        };
        PositionBookView {
            meta: v2.meta.insert(m.position_id, PositionMetadata { risk_score: t, last_updated: now, status: a.1, ..m }),
            ..v2
        }
    }
}

/// One position of a monitoring pass stays within the contract's arithmetic.
pub open spec fn monitor_step_fits(v: PositionBookView, m: PositionMetadata, vol: u32, market: u32, now: u64, seq: u64) -> bool {
    monitoring_due(m, now) ==> {
        let t = monitor_score(v, m, vol, market, now);
        let a = threshold_alert(v, m, t, seq, now);
        &&& m.created_at <= now
        &&& t >= 9500 ==> alert_fits(v, m.position_id, AlertType::LiquidationRisk, now)
        &&& 8000 <= t < 9500 ==> alert_fits(v, m.position_id, AlertType::LiquidationRisk, now)
        &&& 6000 <= t < 8000 ==> alert_fits(v, m.position_id, AlertType::LowCollateral, now)
        &&& vol >= 5000 ==> alert_fits(a.0, m.position_id, AlertType::PriceVolatility, now)
    }
}

/// A monitoring pass over the records `metas`, in order.
pub open spec fn monitor_fold(
    metas: Seq<(u64, PositionMetadata)>,
    v: PositionBookView,
    vol: u32,
    market: u32,
    now: u64,
    seq: u64,
) -> PositionBookView
    decreases metas.len(),
{
    if metas.len() == 0 {
        v
    } else {
        monitor_step(monitor_fold(metas.drop_last(), v, vol, market, now, seq), metas.last().1, vol, market, now, seq)
    }
}

/// Every step of a monitoring pass stays within the contract's arithmetic.
pub open spec fn monitor_all_fit(
    metas: Seq<(u64, PositionMetadata)>,
    v: PositionBookView,
    vol: u32,
    market: u32,
    now: u64,
    seq: u64,
) -> bool
    decreases metas.len(),
{
    if metas.len() == 0 {
        true
    } else {
        monitor_all_fit(metas.drop_last(), v, vol, market, now, seq) && monitor_step_fits(
            monitor_fold(metas.drop_last(), v, vol, market, now, seq),
            metas.last().1,
            vol,
            market,
            now,
            seq,
        )
    }
}

proof fn lemma_monitor_all_fit_prefix(
    metas: Seq<(u64, PositionMetadata)>,
    v: PositionBookView,
    vol: u32,
    market: u32,
    now: u64,
    seq: u64,
    k: int,
)
    requires
        0 <= k <= metas.len(),
        monitor_all_fit(metas, v, vol, market, now, seq),
    ensures
        monitor_all_fit(metas.take(k), v, vol, market, now, seq),
    decreases metas.len() - k,
{
    if k == metas.len() {
        assert(metas.take(k) =~= metas);
    } else {
        lemma_monitor_all_fit_prefix(metas, v, vol, market, now, seq, k + 1);
        assert(metas.take(k + 1).drop_last() =~= metas.take(k));
    }
}

impl PositionManagerContract {
    /// The collateral ratio monitoring assumes for `m`.
    fn monitored_ratio_of(&self, m: &PositionMetadata) -> (r: u32)
        requires
            self.wf(),
        ensures
            r == monitored_ratio(self@.positions, *m),
    {
        match find_key(&self.user_positions, m.owner.as_str()) {
            Some(k) => {
                let ghost l = position_records(self.user_positions@[k as int].1@);
                proof {
                    assert(l == self@.positions[m.owner@]);
                    assert(l.skip(0) =~= l);
                }
                let mut j: usize = 0;
                while j < self.user_positions[k].1.len()
                    invariant
                        k < self.user_positions@.len(),
                        l == position_records(self.user_positions@[k as int].1@),
                        self@.positions.dom().contains(m.owner@),
                        l == self@.positions[m.owner@],
                        j <= l.len(),
                        first_ratio(l, m.asset_id) == first_ratio(l.skip(j as int), m.asset_id),
                    decreases l.len() - j,
                {
                    proof {
                        assert(l.skip(j as int).drop_first() =~= l.skip(j + 1));
                    }
                    proof {
                        assert(l.skip(j as int)[0] == l[j as int]);
                        assert(l[j as int] == position_record(self.user_positions@[k as int].1@[j as int]));
                    }
                    if self.user_positions[k].1[j].asset_id == m.asset_id {
                        return self.user_positions[k].1[j].collateral_ratio;
                    }
                    j = j + 1;
                }
                15_000
            },
            None => 15_000,
        }
    }

    /// A monitoring pass at `now` over every position not updated within the
    /// monitoring interval, in creation order: each is re-scored from its current
    /// collateral ratio, its age and the given market inputs; high scores freeze or
    /// flag it with an alert, a moderate one raises a low-collateral alert, a low
    /// one makes it active again; high volatility raises an alert too.  Alerts
    /// carry the ledger sequence number `seq_num`.
    pub fn monitor_positions(&mut self, volatility_30d: u32, market_score: u32, now: u64, seq_num: u64)
        requires
            old(self).wf(),
            monitor_all_fit(old(self).meta_table(), old(self)@, volatility_30d, market_score, now, seq_num),
        ensures
            final(self).wf(),
            final(self)@ == monitor_fold(old(self).meta_table(), old(self)@, volatility_30d, market_score, now, seq_num),
    {
        let ghost v0 = self@;
        let ghost c = self.meta@;
        let mut metas: Vec<(u64, PositionMetadata)> = Vec::new();
        let mut j: usize = 0;
        while j < self.meta.len()
            invariant
                j <= c.len(),
                c == self.meta@,
                metas@ == c.take(j as int),
            decreases c.len() - j,
        {
            metas.push((self.meta[j].0, self.meta[j].1.clone()));
            proof {
                assert(metas@ =~= c.take(j + 1));
            }
            j = j + 1;
        }
        proof {
            assert(metas@ =~= c);
        }
        let mut i: usize = 0;
        while i < metas.len()
            invariant
                i <= c.len(),
                metas@ == c,
                self.wf(),
                monitor_all_fit(c, v0, volatility_30d, market_score, now, seq_num),
                self@ == monitor_fold(c.take(i as int), v0, volatility_30d, market_score, now, seq_num),
            decreases c.len() - i,
        {
            let ghost t1 = c.take(i + 1);
            let ghost va = self@;
            proof {
                assert(t1.drop_last() =~= c.take(i as int));
                lemma_monitor_all_fit_prefix(c, v0, volatility_30d, market_score, now, seq_num, i + 1);
            }
            let m = metas[i].1.clone();
            if m.status != PositionStatus::Closed && now.saturating_sub(m.last_updated) >= MONITORING_INTERVAL {
                let ratio = self.monitored_ratio_of(&m);
                let days: u64 = (now - m.created_at) / 86400;
                let age: u32 = #[verifier::truncate] (days as u32);
                let breakdown = Self::compute_risk_score_internal(ratio, volatility_30d, age, market_score);
                let t = breakdown.total_score;
                let id = m.position_id;
                let status = if t >= 9500 {
                    self.raise_alert(id, AlertType::LiquidationRisk, AlertSeverity::Emergency, "NEAR_LIQ", seq_num, now);
                    PositionStatus::Frozen
                } else if t >= 8000 {
                    self.raise_alert(id, AlertType::LiquidationRisk, AlertSeverity::Critical, "LIQ_RISK", seq_num, now);
                    PositionStatus::Warning
                } else if t >= 6000 {
                    self.raise_alert(id, AlertType::LowCollateral, AlertSeverity::Warning, "LOW_COL", seq_num, now);
                    m.status
                } else {
                    PositionStatus::Active
                };
                proof {
                    reveal_strlit("NEAR_LIQ");
                    reveal_strlit("LIQ_RISK");
                    reveal_strlit("LOW_COL");
                    assert(self@ == threshold_alert(va, m, t, seq_num, now).0);
                }
                if volatility_30d >= 5000 {
                    self.raise_alert(id, AlertType::PriceVolatility, AlertSeverity::Warning, "HIGH_VOL", seq_num, now);
                    proof {
                        reveal_strlit("HIGH_VOL");
                    }
                }
                let m2 = PositionMetadata {
                    position_id: m.position_id,
                    owner: m.owner.clone(),
                    asset_id: m.asset_id,
                    created_at: m.created_at,
                    last_updated: now,
                    status,
                    risk_score: t,
                };
                upsert_id(&mut self.meta, id, m2);
                proof {
                    assert(meta_keyed(id_map(self.meta@)));
                    assert(self@ == monitor_step(va, m, volatility_30d, market_score, now, seq_num));
                }
            }
            i = i + 1;
        }
        proof {
            assert(c.take(c.len() as int) =~= c);
        }
    }
}


/// Rust's truncating division of `a` by a non-zero `b` of either sign (with the
/// Euclidean `/` of specifications, a non-negative `a` divided by a negative `b`
/// already rounds toward zero).
pub open spec fn tdiv_signed(a: int, b: int) -> int {
    if a >= 0 { a / b } else { -((-a) / b) }
}

/// Whether `x` fits in `i64`.
pub open spec fn fits_i64(x: int) -> bool {
    i64::MIN <= x <= i64::MAX
}

/// Sharpe ratio (times 10 000) from the return sums after `n >= 2` samples; the
/// previous value stays when the variance or its root is not positive.
pub open spec fn sharpe_after(sum: i64, sq: u64, n: u32, previous: i32) -> i32 {
    let mean = tdiv(sum as int, n as int);
    let variance = tdiv((sq as i64) as int, n as int) - mean * mean;
    if variance > 0 && sqrt_floor(variance) > 0 {
        (tdiv(mean * 10_000, sqrt_floor(variance)) as i64) as i32
    } else {
        previous
    }
}

/// Daily return (basis points) from `previous` to `cp`.
pub open spec fn daily_return(previous: u64, cp: u64) -> int {
    tdiv_signed(((cp as i64) - (previous as i64)) * 10_000, (previous as i64) as int)
}

/// Analytics of a position after a mark price `cp` at `now`: profit and loss,
/// return on collateral, drawdown, daily return statistics and Sharpe ratio.
pub open spec fn analytics_update(a: PositionAnalytics, cp: u64, now: u64) -> PositionAnalytics {
    let pnl = tdiv(((cp as i64) - (a.entry_price as i64)) * (a.synthetic_amount as i64), 100_000_000) as i64;
    let roi: i32 = if a.initial_collateral > 0 {
        (tdiv_signed(pnl * 10_000, (a.initial_collateral as i64) as int) as i64) as i32
    } else {
        a.roi_bps
    };
    let mdd: u32 = if roi < 0 && ((-roi) as i32) as u32 > a.max_drawdown_bps { ((-roi) as i32) as u32 } else { a.max_drawdown_bps };
    let sampled = a.current_price > 0 && a.current_price != cp;
    let daily = daily_return(a.current_price, cp) as i64;
    let sum: i64 = if sampled { (a.daily_returns_sum + daily) as i64 } else { a.daily_returns_sum };
    let sq: u64 = if sampled { (a.daily_returns_sq_sum + ((daily * daily) as i64) as u64) as u64 } else { a.daily_returns_sq_sum };
    let n: u32 = if sampled { (a.daily_return_samples + 1) as u32 } else { a.daily_return_samples };
    let sharpe: i32 = if sampled && n >= 2 { sharpe_after(sum, sq, n, a.sharpe_ratio_scaled) } else { a.sharpe_ratio_scaled };
    PositionAnalytics {
        pnl,
        roi_bps: roi,
        max_drawdown_bps: mdd,
        daily_returns_sum: sum,
        daily_returns_sq_sum: sq,
        daily_return_samples: n,
        sharpe_ratio_scaled: sharpe,
        current_price: cp,
        days_held: (((now - a.last_updated) / 86400) as u64) as u32,
        last_updated: now,
        ..a
    }
}

/// The update of analytics `a` with mark price `cp` at `now` stays within the
/// contract's arithmetic.
pub open spec fn analytics_update_fits(a: PositionAnalytics, cp: u64, now: u64) -> bool {
    let pd = (cp as i64) - (a.entry_price as i64);
    let pnl = tdiv(pd * (a.synthetic_amount as i64), 100_000_000) as i64;
    let roi: i32 = if a.initial_collateral > 0 {
        (tdiv_signed(pnl * 10_000, (a.initial_collateral as i64) as int) as i64) as i32
    } else {
        a.roi_bps
    };
    let sampled = a.current_price > 0 && a.current_price != cp;
    let diff = (cp as i64) - (a.current_price as i64);
    let daily = daily_return(a.current_price, cp) as i64;
    let sum = a.daily_returns_sum + daily;
    let n = a.daily_return_samples + 1;
    let mean = tdiv(sum, n);
    let variance = tdiv(((a.daily_returns_sq_sum + ((daily * daily) as i64) as u64) as i64) as int, n) - mean * mean;
    &&& fits_i64(pd)
    &&& fits_i64(pd * (a.synthetic_amount as i64))
    &&& a.initial_collateral > 0 ==> fits_i64(pnl * 10_000) && fits_i64(
        tdiv_signed(pnl * 10_000, (a.initial_collateral as i64) as int),
    )
    &&& roi != i32::MIN
    &&& sampled ==> {
        &&& fits_i64(diff)
        &&& fits_i64(diff * 10_000)
        &&& fits_i64(daily_return(a.current_price, cp))
        &&& fits_i64(sum)
        &&& fits_i64(daily * daily)
        &&& a.daily_returns_sq_sum + ((daily * daily) as i64) as u64 <= u64::MAX
        &&& a.daily_return_samples < u32::MAX
        &&& n >= 2 ==> fits_i64(mean * mean) && fits_i64(variance) && (variance > 0 && sqrt_floor(variance) > 0
            ==> fits_i64(mean * 10_000))
    }
    &&& a.last_updated <= now
}

/// Analytics of the positions of `user`, over a metadata table.
pub open spec fn user_analytics(metas: Seq<(u64, PositionMetadata)>, analytics: Map<u64, PositionAnalytics>, user: Seq<char>) -> Seq<
    PositionAnalytics,
>
    decreases metas.len(),
{
    if metas.len() == 0 {
        Seq::empty()
    } else {
        let prev = user_analytics(metas.drop_last(), analytics, user);
        let m = metas.last().1;
        if m.owner@ == user && analytics.dom().contains(m.position_id) {
            prev.push(analytics[m.position_id])
        } else {
            prev
        }
    }
}

impl PositionManagerContract {
    /// Update a position's analytics with the mark price `current_price` at `now`.
    pub fn update_analytics(&mut self, position_id: u64, current_price: u64, now: u64) -> (r: Result<(), PositionError>)
        requires
            old(self).wf(),
            old(self)@.analytics.dom().contains(position_id) ==> analytics_update_fits(
                old(self)@.analytics[position_id],
                current_price,
                now,
            ),
        ensures
            final(self).wf(),
            !old(self)@.analytics.dom().contains(position_id) ==> r == Err::<(), PositionError>(
                PositionError::AnalyticsNotFound,
            ) && final(self)@ == old(self)@,
            old(self)@.analytics.dom().contains(position_id) ==> r is Ok && final(self)@ == (PositionBookView {
                analytics: old(self)@.analytics.insert(
                    position_id,
                    analytics_update(old(self)@.analytics[position_id], current_price, now),
                ),
                ..old(self)@
            }),
    {
        let k = match find_id(&self.analytics, position_id) {
            Some(k) => k,
            None => return Err(PositionError::AnalyticsNotFound),
        };
        let mut a = self.analytics[k].1.clone();
        let ghost a0 = a;
        let cp_i: i64 = #[verifier::truncate] (current_price as i64);
        let entry_i: i64 = #[verifier::truncate] (a.entry_price as i64);
        let amount_i: i64 = #[verifier::truncate] (a.synthetic_amount as i64);
        let price_delta: i64 = cp_i - entry_i;
        a.pnl = (price_delta * amount_i) / 100_000_000;
        if a.initial_collateral > 0 {
            let init: u64 = a.initial_collateral;
            let init_i: i64 = #[verifier::truncate] (init as i64);
            assert(init_i != 0) by (bit_vector)
                requires
                    init > 0,
                    init_i == init as i64,
            ;
            let num: i64 = a.pnl * 10_000;
            let q: i64 = num / init_i;
            proof {
                assert(q == tdiv_signed(num as int, init_i as int));
            }
            a.roi_bps = #[verifier::truncate] (q as i32);
        }
        if a.roi_bps < 0 {
            let neg: i32 = -a.roi_bps;
            let drawdown: u32 = #[verifier::truncate] (neg as u32);
            if drawdown > a.max_drawdown_bps {
                a.max_drawdown_bps = drawdown;
            }
        }
        if a.current_price > 0 && a.current_price != current_price {
            let prev: u64 = a.current_price;
            let prev_i: i64 = #[verifier::truncate] (prev as i64);
            assert(prev_i != 0) by (bit_vector)
                requires
                    prev > 0,
                    prev_i == prev as i64,
            ;
            let dnum: i64 = (cp_i - prev_i) * 10_000;
            let daily: i64 = dnum / prev_i;
            proof {
                assert(daily == tdiv_signed(dnum as int, prev_i as int));
            }
            a.daily_returns_sum = a.daily_returns_sum + daily;
            let sq: i64 = daily * daily;
            a.daily_returns_sq_sum = a.daily_returns_sq_sum + #[verifier::truncate] (sq as u64);
            a.daily_return_samples = a.daily_return_samples + 1;
            if a.daily_return_samples >= 2 {
                let n: i64 = a.daily_return_samples as i64;
                let mean: i64 = a.daily_returns_sum / n;
                let mean_sq: i64 = mean * mean;
                let sq_mean: i64 = (#[verifier::truncate] (a.daily_returns_sq_sum as i64)) / n;
                let variance: i64 = sq_mean - mean_sq;
                if variance > 0 {
                    let sd: u64 = isqrt_u64(variance as u64);
                    assert(sd <= variance) by (nonlinear_arith)
                        requires
                            sd * sd <= variance,
                            variance > 0,
                    ;
                    let std_dev: i64 = sd as i64;
                    if std_dev > 0 {
                        let sharpe: i64 = (mean * 10_000) / std_dev;
                        a.sharpe_ratio_scaled = #[verifier::truncate] (sharpe as i32);
                    }
                }
            }
        }
        a.current_price = current_price;
        let days: u64 = (now - a.last_updated) / 86400;
        a.days_held = #[verifier::truncate] (days as u32);
        a.last_updated = now;
        proof {
            assert(a == analytics_update(a0, current_price, now));
        }
        upsert_id(&mut self.analytics, position_id, a);
        Ok(())
    }

    /// Analytics of every position of `user`, in creation order.
    pub fn export_user_analytics(&self, user: &str) -> (r: Vec<PositionAnalytics>)
        requires
            self.wf(),
        ensures
            r@ == user_analytics(self.meta_table(), self@.analytics, user@),
    {
        let mut out: Vec<PositionAnalytics> = Vec::new();
        let u = String::from_str(user);
        let mut i: usize = 0;
        while i < self.meta.len()
            invariant
                i <= self.meta@.len(),
                self.wf(),
                u@ == user@,
                out@ == user_analytics(self.meta@.take(i as int), self@.analytics, user@),
            decreases self.meta@.len() - i,
        {
            proof {
                assert(self.meta@.take(i + 1).drop_last() =~= self.meta@.take(i as int));
            }
            if self.meta[i].1.owner == u {
                match find_id(&self.analytics, self.meta[i].1.position_id) {
                    Some(k) => out.push(self.analytics[k].1.clone()),
                    None => {},
                }
            }
            i = i + 1;
        }
        proof {
            assert(self.meta@.take(self.meta@.len() as int) =~= self.meta@);
        }
        out
    }
}


/// A closed position stays closed: no batch item, monitoring step or alert
/// changes the status of a closed position's record.
pub proof fn lemma_closed_stays_closed(v: PositionBookView, k: u64, id: u64, owner: Seq<char>, target: u32, token: Seq<char>, delta: i64, vol: u32, market: u32, now: u64, seq: u64)
    requires
        v.meta.dom().contains(k),
        v.meta[k].status == PositionStatus::Closed,
        meta_keyed(v.meta),
    ensures
        close_step(v, id, owner, now).0.meta[k].status == PositionStatus::Closed,
        rebalance_step(v, id, owner, target, now).0.meta[k].status == PositionStatus::Closed,
        adjust_step(v, id, owner, token, delta, now).0.meta[k].status == PositionStatus::Closed,
        monitor_step(v, v.meta[k], vol, market, now, seq).meta[k].status == PositionStatus::Closed,
{
}

/// The alert history of a position in a book (empty when it has none).
pub open spec fn alert_history(v: PositionBookView, position_id: u64) -> Seq<AlertRecord> {
    if v.alerts.dom().contains(position_id) { v.alerts[position_id] } else { Seq::empty() }
}

/// Whether `a` is an unacknowledged alert of the given kind, severity and
/// message, raised on `position_id` at `now` under the identifier `alert_id`.
pub open spec fn is_alert(
    a: AlertRecord,
    alert_id: u64,
    position_id: u64,
    t: AlertType,
    severity: AlertSeverity,
    message: Seq<char>,
    now: u64,
) -> bool {
    &&& a.alert_id == alert_id
    &&& a.position_id == position_id
    &&& a.alert_type == t
    &&& a.severity == severity
    &&& a.message == message
    &&& a.timestamp == now
    &&& !a.acknowledged
}

/// The risk bands of a monitoring pass.  When a due position `m` is monitored
/// after the records `pre` (from the book `v0`), it gets the new score `t` and
/// the time `now`, and:
/// - from 9 500 it is frozen, and (unless the same alert was raised within the
///   deduplication window) an Emergency LiquidationRisk alert "NEAR_LIQ" is added
///   to its history;
/// - from 8 000 to 9 499 it is put under warning with a Critical LiquidationRisk
///   alert "LIQ_RISK";
/// - from 6 000 to 7 999 it keeps its status and gets a Warning LowCollateral
///   alert "LOW_COL";
/// - below 6 000 it is active again and gets no threshold alert;
/// - volatility from 5 000 adds a Warning PriceVolatility alert "HIGH_VOL" after
///   the threshold alert (for identifiers whose alert keys fit in `u64`).
pub proof fn lemma_monitor_risk_bands(
    pre: Seq<(u64, PositionMetadata)>,
    v0: PositionBookView,
    k: u64,
    m: PositionMetadata,
    vol: u32,
    market: u32,
    now: u64,
    seq: u64,
)
    requires
        monitoring_due(m, now),
    ensures
        ({
            let v = monitor_fold(pre, v0, vol, market, now, seq);
            let r = monitor_fold(pre.push((k, m)), v0, vol, market, now, seq);
            let id = m.position_id;
            let t = monitor_score(v, m, vol, market, now);
            let h = alert_history(v, id);
            let hr = alert_history(r, id);
            let liq = alert_suppressed(v, id, AlertType::LiquidationRisk, now);
            let low = alert_suppressed(v, id, AlertType::LowCollateral, now);
            &&& r.meta.dom().contains(id)
            &&& r.meta[id].risk_score == t
            &&& r.meta[id].last_updated == now
            &&& t >= 9500 ==> r.meta[id].status == PositionStatus::Frozen
            &&& 8000 <= t < 9500 ==> r.meta[id].status == PositionStatus::Warning
            &&& 6000 <= t < 8000 ==> r.meta[id].status == m.status
            &&& t < 6000 ==> r.meta[id].status == PositionStatus::Active
            &&& t >= 9500 && !liq ==> hr.len() > h.len() && is_alert(
                hr[h.len() as int],
                seq,
                id,
                AlertType::LiquidationRisk,
                AlertSeverity::Emergency,
                "NEAR_LIQ"@,
                now,
            )
            &&& 8000 <= t < 9500 && !liq ==> hr.len() > h.len() && is_alert(
                hr[h.len() as int],
                seq,
                id,
                AlertType::LiquidationRisk,
                AlertSeverity::Critical,
                "LIQ_RISK"@,
                now,
            )
            &&& 6000 <= t < 8000 && !low ==> hr.len() > h.len() && is_alert(
                hr[h.len() as int],
                seq,
                id,
                AlertType::LowCollateral,
                AlertSeverity::Warning,
                "LOW_COL"@,
                now,
            )
            &&& t < 6000 && vol < 5000 ==> hr == h
            &&& vol >= 5000 && id * 10 + 3 <= u64::MAX && !alert_suppressed(v, id, AlertType::PriceVolatility, now)
                ==> hr.len() > 0 && is_alert(
                hr.last(),
                seq,
                id,
                AlertType::PriceVolatility,
                AlertSeverity::Warning,
                "HIGH_VOL"@,
                now,
            )
        }),
{
    assert(pre.push((k, m)).drop_last() =~= pre);
    assert(pre.push((k, m)).last() == (k, m));
}

/// A batch's report adds up: as many successes and failures as items.
pub proof fn lemma_batch_counts(ids: Seq<u64>, oks: Seq<bool>, r: BatchResult)
    requires
        batch_reported(ids, oks, r),
    ensures
        r.succeeded + r.failed == r.total,
        r.succeeded <= r.total,
{
    lemma_count_true_le(oks);
}

} // verus!
