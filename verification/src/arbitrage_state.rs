//! Storage of the arbitrage contract: detected opportunities, their execution
//! and the statistics of each arbitrageur, under the pricing rules of
//! [`crate::arbitrage`].

use vstd::prelude::*;
use crate::arbitrage::{
    assessment_spec, bundle_walk, default_params, mev_cost_fits, opportunity_cost, potential_profit, reward_rate,
    reward_spec, best_route_index, ArbitrageContract, ArbitrageParams, ArbitrageRoute, FlashBundleHop, FlashBundlePlan, MEVConfig, ARBITRAGE_CAPITAL,
    DEFAULT_GAS_PER_HOP, DEFAULT_MEV_BUFFER_BPS, MEV_HISTORY_WINDOW,
};
use crate::idmap::{distinct_ids, find_id, id_map, upsert_id};
use crate::keyed::{distinct_keys, find_key, to_map, upsert};

verus! {

/// Why the arbitrage contract refuses a request.
#[derive(Debug, Clone, Copy, PartialEq, Eq, Structural)]
pub enum ArbitrageError {
    /// The system is paused.
    Paused,
    /// The price difference is below the minimum deviation.
    DeviationTooSmall,
    /// The price difference is above the maximum deviation.
    DeviationTooLarge,
    /// The trade is below the minimum trade amount.
    TradeTooSmall,
    /// No opportunity has that identifier.
    OpportunityNotFound,
    /// The opportunity was already taken.
    OpportunityInvalid,
    /// The opportunity has expired.
    OpportunityExpired,
    /// The caller is not the contract itself.
    NotAuthorized,
    /// The new minimum deviation is 0 or above 1000 basis points.
    InvalidMinimumDeviation,
    /// The new maximum deviation is not above the minimum or above 5000 basis points.
    InvalidMaximumDeviation,
}

/// A detected arbitrage opportunity.
#[derive(Debug)]
pub struct ArbitrageOpportunity {
    pub opportunity_id: u64,
    pub source_token: String,
    pub target_token: String,
    pub price_diff_bps: u32,
    pub potential_profit: u64,
    pub required_capital: u64,
    pub discovered_at: u64,
    pub expires_at: u64,
    /// Whether it can still be executed.
    pub valid: bool,
}

impl Clone for ArbitrageOpportunity {
    fn clone(&self) -> (r: Self)
        ensures
            r == *self,
    {
        ArbitrageOpportunity {
            opportunity_id: self.opportunity_id,
            source_token: self.source_token.clone(),
            target_token: self.target_token.clone(),
            price_diff_bps: self.price_diff_bps,
            potential_profit: self.potential_profit,
            required_capital: self.required_capital,
            discovered_at: self.discovered_at,
            expires_at: self.expires_at,
            valid: self.valid,
        }
    }
}

/// Performance record of an arbitrageur.
#[derive(Debug, Clone, Copy, PartialEq, Eq, Structural)]
pub struct StatsRecord {
    pub total_arbitrages: u32,
    pub total_volume: u64,
    pub total_rewards: u64,
    /// Share of successful arbitrages (basis points).
    pub success_rate: u32,
    pub last_arbitrage: u64,
    pub avg_profit: u64,
}

/// Performance of an arbitrageur, as reported.
#[derive(Debug)]
pub struct ArbitrageurStats {
    pub address: String,
    pub total_arbitrages: u32,
    pub total_volume: u64,
    pub total_rewards: u64,
    pub success_rate: u32,
    pub last_arbitrage: u64,
    pub avg_profit: u64,
}

/// System-wide figures reported by the arbitrage contract.
#[derive(Debug, Clone, Copy, PartialEq, Eq, Structural)]
pub struct SystemStats {
    /// Total volume arbitraged.
    pub total_value_locked: u64,
    pub total_supply: u64,
    /// Arbitrageurs that have arbitraged at least once at a nonzero time.
    pub active_vaults: u32,
    pub average_collateral_ratio: u32,
    pub stability_pool_size: u64,
    pub daily_liquidations: u32,
    pub daily_minting_volume: u64,
    pub daily_redemption_volume: u64,
    pub health_score: u32,
}

/// Total volume of the records of a statistics table.
pub open spec fn volume_sum(s: Seq<(String, StatsRecord)>) -> int
    decreases s.len(),
{
    if s.len() == 0 {
        0
    } else {
        volume_sum(s.drop_last()) + s.last().1.total_volume
    }
}

/// Number of records of a statistics table with a nonzero last arbitrage time.
pub open spec fn active_count(s: Seq<(String, StatsRecord)>) -> int
    decreases s.len(),
{
    if s.len() == 0 {
        0
    } else {
        active_count(s.drop_last()) + if s.last().1.last_arbitrage > 0 { 1int } else { 0int }
    }
}

/// A prefix of a statistics table has at most its total volume.
proof fn lemma_volume_prefix(t: Seq<(String, StatsRecord)>, n: int)
    requires
        0 <= n <= t.len(),
    ensures
        0 <= volume_sum(t.take(n)) <= volume_sum(t),
    decreases t.len() - n,
{
    if n < t.len() {
        lemma_volume_prefix(t, n + 1);
        assert(t.take(n + 1).drop_last() =~= t.take(n));
        lemma_volume_nonneg(t.take(n));
    } else {
        assert(t.take(n) =~= t);
        lemma_volume_nonneg(t);
    }
}

proof fn lemma_volume_nonneg(t: Seq<(String, StatsRecord)>)
    ensures
        volume_sum(t) >= 0,
    decreases t.len(),
{
    if t.len() > 0 {
        lemma_volume_nonneg(t.drop_last());
    }
}

/// Mathematical model of the arbitrage contract's storage.
pub struct ArbitrageView {
    pub admin: Seq<char>,
    pub paused: bool,
    pub stablecoin: Seq<char>,
    pub oracle: Seq<char>,
    pub next_opportunity_id: u64,
    pub total_rewards_paid: u64,
    pub params: ArbitrageParams,
    pub mev_config: MEVConfig,
    pub opportunities: Map<u64, ArbitrageOpportunity>,
    pub stats: Map<Seq<char>, StatsRecord>,
    pub next_bundle_id: u64,
    pub bundles: Map<u64, BundleRecord>,
    /// Routes registered for off-chain execution, in registration order.
    pub routes: Seq<ArbitrageRoute>,
}

/// Mathematical model of a [`FlashBundle`].
pub struct BundleRecord {
    pub bundle_id: u64,
    pub loan_amount: u64,
    pub loan_fee: u64,
    pub hops: Seq<FlashBundleHop>,
    pub expected_profit: i128,
    pub max_gas_cost: u64,
    pub executed: bool,
    pub executed_at: u64,
}

/// The model of a bundle.
pub open spec fn bundle_record(b: FlashBundle) -> BundleRecord {
    BundleRecord {
        bundle_id: b.bundle_id,
        loan_amount: b.loan_amount,
        loan_fee: b.loan_fee,
        hops: b.hops@,
        expected_profit: b.expected_profit,
        max_gas_cost: b.max_gas_cost,
        executed: b.executed,
        executed_at: b.executed_at,
    }
}

/// An executed flash bundle.
#[derive(Debug)]
pub struct FlashBundle {
    pub bundle_id: u64,
    pub loan_amount: u64,
    pub loan_fee: u64,
    pub hops: Vec<FlashBundleHop>,
    pub expected_profit: i128,
    pub max_gas_cost: u64,
    pub executed: bool,
    pub executed_at: u64,
}

/// A copy of the hops of a bundle.
fn copy_hops(hops: &Vec<FlashBundleHop>) -> (r: Vec<FlashBundleHop>)
    ensures
        r@ == hops@,
{
    let mut out: Vec<FlashBundleHop> = Vec::new();
    let mut i: usize = 0;
    while i < hops.len()
        invariant
            i <= hops@.len(),
            out@ == hops@.take(i as int),
        decreases hops@.len() - i,
    {
        let h = &hops[i];
        out.push(
            FlashBundleHop {
                pool: h.pool.clone(),
                token_in: h.token_in.clone(),
                token_out: h.token_out.clone(),
                fee_bps: h.fee_bps,
                min_amount_out: h.min_amount_out,
            },
        );
        proof {
            assert(out@ =~= hops@.take(i + 1));
        }
        i = i + 1;
    }
    proof {
        assert(hops@.take(hops@.len() as int) =~= hops@);
    }
    out
}

impl Clone for FlashBundle {
    fn clone(&self) -> (r: Self)
        ensures
            bundle_record(r) == bundle_record(*self),
    {
        let hops = copy_hops(&self.hops);
        FlashBundle {
            bundle_id: self.bundle_id,
            loan_amount: self.loan_amount,
            loan_fee: self.loan_fee,
            hops,
            expected_profit: self.expected_profit,
            max_gas_cost: self.max_gas_cost,
            executed: self.executed,
            executed_at: self.executed_at,
        }
    }
}

/// What planning a bundle of `hops` borrowing `loan` with minimum profit
/// `min_profit` gives: the figures, or the text of the refusal.
pub open spec fn bundle_outcome(cfg: MEVConfig, loan: u64, hops: Seq<FlashBundleHop>, min_profit: i128) -> Result<
    FlashBundlePlan,
    Seq<char>,
> {
    if hops.len() < 2 {
        Err("Flash bundle requires at least 2 hops"@)
    } else {
        match bundle_walk(loan, hops) {
            None => Err("Hop slippage exceeded minimum output"@),
            Some(left) => {
                let profit = left - (loan + loan * 9 / 10_000);
                if profit < min_profit {
                    Err("Bundle profit below minimum"@)
                } else {
                    Ok(
                        FlashBundlePlan {
                            loan_fee: (loan * 9 / 10_000) as u64,
                            expected_profit: profit as i128,
                            max_gas_cost: (cfg.gas_per_hop * hops.len()) as u64,
                        },
                    )
                }
            },
        }
    }
}

/// The arbitrage contract and its storage.
pub struct ArbitrageState {
    admin: String,
    paused: bool,
    stablecoin: String,
    oracle: String,
    next_opportunity_id: u64,
    total_rewards_paid: u64,
    params: ArbitrageParams,
    mev_config: MEVConfig,
    opportunities: Vec<(u64, ArbitrageOpportunity)>,
    stats: Vec<(String, StatsRecord)>,
    next_bundle_id: u64,
    bundles: Vec<(u64, FlashBundle)>,
    routes: Vec<ArbitrageRoute>,
}

impl View for ArbitrageState {
    type V = ArbitrageView;

    closed spec fn view(&self) -> ArbitrageView {
        ArbitrageView {
            admin: self.admin@,
            paused: self.paused,
            stablecoin: self.stablecoin@,
            oracle: self.oracle@,
            next_opportunity_id: self.next_opportunity_id,
            total_rewards_paid: self.total_rewards_paid,
            params: self.params,
            mev_config: self.mev_config,
            opportunities: id_map(self.opportunities@),
            stats: to_map(self.stats@),
            next_bundle_id: self.next_bundle_id,
            bundles: id_map(self.bundles@).map_values(|b: FlashBundle| bundle_record(b)),
            routes: self.routes@,
        }
    }
}

/// The record of an arbitrageur before its first arbitrage.
pub open spec fn fresh_stats() -> StatsRecord {
    StatsRecord {
        total_arbitrages: 0,
        total_volume: 0,
        total_rewards: 0,
        success_rate: 10_000,
        last_arbitrage: 0,
        avg_profit: 0,
    }
}

/// The record of `a` (a fresh one when there is none).
pub open spec fn stats_of(m: Map<Seq<char>, StatsRecord>, a: Seq<char>) -> StatsRecord {
    if m.dom().contains(a) {
        m[a]
    } else {
        fresh_stats()
    }
}

/// Recording one more arbitrage keeps the counters of `s` in range.
pub open spec fn stats_fit(s: StatsRecord, volume: u64, reward: u64, successful: bool) -> bool {
    &&& s.total_arbitrages < u32::MAX
    &&& s.total_volume + volume <= u64::MAX
    &&& s.total_rewards + reward <= u64::MAX
    &&& successful ==> s.avg_profit * s.total_arbitrages + reward <= u64::MAX
}

/// `s` after one more arbitrage of `volume` earning `reward` at `now`: a success
/// folds the reward into the average profit, a failure lowers the success rate.
pub open spec fn stats_after(s: StatsRecord, volume: u64, reward: u64, successful: bool, now: u64) -> StatsRecord {
    let n = s.total_arbitrages + 1;
    StatsRecord {
        total_arbitrages: n as u32,
        total_volume: (s.total_volume + volume) as u64,
        total_rewards: (s.total_rewards + reward) as u64,
        success_rate: if successful { s.success_rate } else { (s.success_rate * s.total_arbitrages / n) as u32 },
        last_arbitrage: now,
        avg_profit: if successful { ((s.avg_profit * s.total_arbitrages + reward) / n) as u64 } else { s.avg_profit },
    }
}

/// The opportunity detected with identifier `id` for the pair at price difference
/// `diff` at `now`.
pub open spec fn detected(
    o: ArbitrageOpportunity,
    id: u64,
    source: Seq<char>,
    target: Seq<char>,
    diff: u32,
    now: u64,
    p: ArbitrageParams,
) -> bool {
    &&& o.opportunity_id == id
    &&& o.source_token@ == source
    &&& o.target_token@ == target
    &&& o.price_diff_bps == diff
    &&& o.potential_profit == potential_profit(diff)
    &&& o.required_capital == ARBITRAGE_CAPITAL
    &&& o.discovered_at == now
    &&& o.expires_at == now + p.opportunity_expiry
    &&& o.valid
}

/// Whether an opportunity can still be executed at `now`.
pub open spec fn is_active(o: ArbitrageOpportunity, now: u64) -> bool {
    o.valid && now <= o.expires_at
}

impl ArbitrageState {
    /// Every opportunity is stored under its own identifier, below the next one,
    /// and there is one record per arbitrageur.
    pub closed spec fn wf(&self) -> bool {
        &&& distinct_ids(self.opportunities@)
        &&& distinct_keys(self.stats@)
        &&& distinct_ids(self.bundles@)
        &&& forall|i: int|
            0 <= i < self.opportunities@.len() ==> (#[trigger] self.opportunities@[i]).0 == self.opportunities@[i].1.opportunity_id
                && self.opportunities@[i].0 < self.next_opportunity_id
    }

    /// The stored opportunities, in the order they were detected.
    pub closed spec fn opportunity_list(&self) -> Seq<ArbitrageOpportunity> {
        self.opportunities@.map_values(|e: (u64, ArbitrageOpportunity)| e.1)
    }

    /// Set up the contract for `admin` with the stablecoin and oracle it watches:
    /// unpaused, opportunities numbered from 1, no rewards paid, the default
    /// parameters and MEV settings, and no opportunities or statistics.
    pub fn initialize(admin: &str, stablecoin_address: &str, oracle_address: &str) -> (r: Self)
        ensures
            r.wf(),
            r@ == (ArbitrageView {
                admin: admin@,
                paused: false,
                stablecoin: stablecoin_address@,
                oracle: oracle_address@,
                next_opportunity_id: 1,
                total_rewards_paid: 0,
                params: default_params(),
                mev_config: MEVConfig {
                    buffer_bps: DEFAULT_MEV_BUFFER_BPS,
                    gas_per_hop: DEFAULT_GAS_PER_HOP,
                    history_window: MEV_HISTORY_WINDOW,
                    enabled: true,
                },
                opportunities: Map::empty(),
                stats: Map::empty(),
                next_bundle_id: 1,
                bundles: Map::empty(),
                routes: Seq::empty(),
            }),
            r.opportunity_list() == Seq::<ArbitrageOpportunity>::empty(),
    {
        let r = ArbitrageState {
            admin: String::from_str(admin),
            paused: false,
            stablecoin: String::from_str(stablecoin_address),
            oracle: String::from_str(oracle_address),
            next_opportunity_id: 1,
            total_rewards_paid: 0,
            params: ArbitrageContract::default_params(),
            mev_config: ArbitrageContract::default_mev_config(),
            opportunities: Vec::new(),
            stats: Vec::new(),
            next_bundle_id: 1,
            bundles: Vec::new(),
            routes: Vec::new(),
        };
        proof {
            assert(id_map(r.bundles@).map_values(|b: FlashBundle| bundle_record(b)) =~= Map::<u64, BundleRecord>::empty());
            assert(id_map(r.opportunities@) =~= Map::<u64, ArbitrageOpportunity>::empty());
            assert(to_map(r.stats@) =~= Map::<Seq<char>, StatsRecord>::empty());
            assert(r.opportunity_list() =~= Seq::<ArbitrageOpportunity>::empty());
        }
        r
    }

    /// Store a new opportunity under the next identifier.
    fn store_opportunity(&mut self, o: ArbitrageOpportunity)
        requires
            old(self).wf(),
            o.opportunity_id == old(self).next_opportunity_id,
            old(self).next_opportunity_id < u64::MAX,
        ensures
            final(self).wf(),
            final(self)@ == (ArbitrageView {
                next_opportunity_id: (old(self)@.next_opportunity_id + 1) as u64,
                opportunities: old(self)@.opportunities.insert(o.opportunity_id, o),
                ..old(self)@
            }),
            final(self).opportunity_list() == old(self).opportunity_list().push(o),
    {
        let id = o.opportunity_id;
        let ghost s0 = self.opportunities@;
        let ghost ov = o;
        proof {
            assert forall|i: int| 0 <= i < s0.len() implies s0[i].0 != id by {
                assert(s0[i].0 < old(self).next_opportunity_id);
            }
            crate::idmap::lemma_id_map_dom(s0, id);
            crate::idmap::lemma_id_push(s0, id, ov);
        }
        self.opportunities.push((id, o));
        self.next_opportunity_id = self.next_opportunity_id + 1;
        proof {
            assert(self.opportunities@ == s0.push((id, ov)));
            assert(self.opportunity_list() =~= old(self).opportunity_list().push(ov));
        }
    }

    /// Record an arbitrage of `volume` earning `reward` for `arbitrageur` at `now`.
    fn record_arbitrage(&mut self, arbitrageur: &str, volume: u64, reward: u64, successful: bool, now: u64)
        requires
            old(self).wf(),
            stats_fit(stats_of(old(self)@.stats, arbitrageur@), volume, reward, successful),
        ensures
            final(self).wf(),
            final(self)@ == (ArbitrageView {
                stats: old(self)@.stats.insert(
                    arbitrageur@,
                    stats_after(stats_of(old(self)@.stats, arbitrageur@), volume, reward, successful, now),
                ),
                ..old(self)@
            }),
            final(self).opportunity_list() == old(self).opportunity_list(),
    {
        let s = match find_key(&self.stats, arbitrageur) {
            Some(i) => self.stats[i].1,
            None => StatsRecord {
                total_arbitrages: 0,
                total_volume: 0,
                total_rewards: 0,
                success_rate: 10_000,
                last_arbitrage: 0,
                avg_profit: 0,
            },
        };
        let n: u32 = s.total_arbitrages + 1;
        let success_rate: u32 = if successful {
            s.success_rate
        } else {
            assert((s.success_rate as u64) * (s.total_arbitrages as u64) <= u64::MAX) by (nonlinear_arith)
                requires s.success_rate <= u32::MAX, s.total_arbitrages <= u32::MAX;
            let q: u64 = (s.success_rate as u64) * (s.total_arbitrages as u64) / (n as u64);
            assert(q <= s.success_rate) by (nonlinear_arith)
                requires
                    q as int == (s.success_rate as int) * (s.total_arbitrages as int) / (n as int),
                    n as int == s.total_arbitrages as int + 1,
                    s.success_rate >= 0,
                    s.total_arbitrages >= 0,
            ;
            q as u32
        };
        let avg_profit: u64 = if successful {
            (s.avg_profit * (s.total_arbitrages as u64) + reward) / (n as u64)
        } else {
            s.avg_profit
        };
        let rec = StatsRecord {
            total_arbitrages: n,
            total_volume: s.total_volume + volume,
            total_rewards: s.total_rewards + reward,
            success_rate,
            last_arbitrage: now,
            avg_profit,
        };
        upsert(&mut self.stats, arbitrageur, rec);
    }

    /// Record an opportunity between `source_token` and `target_token` at price
    /// difference `price_diff_bps` at `now`: refused while paused and outside the
    /// deviation range; otherwise stored under the next identifier, valid until
    /// the expiry, and that identifier is returned.
    pub fn detect_opportunity(&mut self, source_token: &str, target_token: &str, price_diff_bps: u32, now: u64) -> (r:
        Result<u64, ArbitrageError>)
        requires
            old(self).wf(),
            old(self)@.next_opportunity_id < u64::MAX,
            now + old(self)@.params.opportunity_expiry <= u64::MAX,
        ensures
            final(self).wf(),
            old(self)@.paused ==> r == Err::<u64, ArbitrageError>(ArbitrageError::Paused),
            !old(self)@.paused && price_diff_bps < old(self)@.params.min_deviation_bps ==> r == Err::<u64, ArbitrageError>(
                ArbitrageError::DeviationTooSmall,
            ),
            !old(self)@.paused && price_diff_bps >= old(self)@.params.min_deviation_bps && price_diff_bps
                > old(self)@.params.max_deviation_bps ==> r == Err::<u64, ArbitrageError>(
                ArbitrageError::DeviationTooLarge,
            ),
            r is Err ==> final(self)@ == old(self)@ && final(self).opportunity_list() == old(self).opportunity_list(),
            !old(self)@.paused && old(self)@.params.min_deviation_bps <= price_diff_bps
                <= old(self)@.params.max_deviation_bps ==> {
                let id = old(self)@.next_opportunity_id;
                &&& r == Ok::<u64, ArbitrageError>(id)
                &&& final(self)@ == (ArbitrageView {
                    next_opportunity_id: (id + 1) as u64,
                    opportunities: old(self)@.opportunities.insert(id, final(self)@.opportunities[id]),
                    ..old(self)@
                })
                &&& detected(
                    final(self)@.opportunities[id],
                    id,
                    source_token@,
                    target_token@,
                    price_diff_bps,
                    now,
                    old(self)@.params,
                )
                &&& final(self).opportunity_list() == old(self).opportunity_list().push(final(self)@.opportunities[id])
            },
    {
        if self.paused {
            return Err(ArbitrageError::Paused);
        }
        if price_diff_bps < self.params.min_deviation_bps {
            return Err(ArbitrageError::DeviationTooSmall);
        }
        if price_diff_bps > self.params.max_deviation_bps {
            return Err(ArbitrageError::DeviationTooLarge);
        }
        let id = self.next_opportunity_id;
        let (potential_profit, required_capital) = ArbitrageContract::calculate_arbitrage_metrics(price_diff_bps);
        let o = ArbitrageOpportunity {
            opportunity_id: id,
            source_token: String::from_str(source_token),
            target_token: String::from_str(target_token),
            price_diff_bps,
            potential_profit,
            required_capital,
            discovered_at: now,
            expires_at: now + self.params.opportunity_expiry,
            valid: true,
        };
        self.store_opportunity(o);
        Ok(id)
    }

    /// Execute opportunity `opportunity_id` with a trade of `trade_amount` by
    /// `arbitrageur` at `now`: refused while paused, below the minimum trade, for
    /// an unknown, taken or expired opportunity; otherwise the reward for its
    /// price difference is paid and recorded, the opportunity is taken, and the
    /// reward is returned.
    pub fn execute_arbitrage(&mut self, arbitrageur: &str, opportunity_id: u64, trade_amount: u64, now: u64) -> (r:
        Result<u64, ArbitrageError>)
        requires
            old(self).wf(),
            old(self)@.opportunities.dom().contains(opportunity_id) ==> {
                let diff = old(self)@.opportunities[opportunity_id].price_diff_bps;
                let reward = reward_spec(old(self)@.params, trade_amount, diff);
                &&& reward_rate(old(self)@.params, diff) <= u32::MAX
                &&& trade_amount * reward_rate(old(self)@.params, diff) <= u64::MAX
                &&& old(self)@.total_rewards_paid + reward <= u64::MAX
                &&& stats_fit(stats_of(old(self)@.stats, arbitrageur@), trade_amount, reward, true)
            },
        ensures
            final(self).wf(),
            old(self)@.paused ==> r == Err::<u64, ArbitrageError>(ArbitrageError::Paused),
            !old(self)@.paused && trade_amount < old(self)@.params.min_trade_amount ==> r == Err::<u64, ArbitrageError>(
                ArbitrageError::TradeTooSmall,
            ),
            !old(self)@.paused && trade_amount >= old(self)@.params.min_trade_amount
                && !old(self)@.opportunities.dom().contains(opportunity_id) ==> r == Err::<u64, ArbitrageError>(
                ArbitrageError::OpportunityNotFound,
            ),
            !old(self)@.paused && trade_amount >= old(self)@.params.min_trade_amount && old(self)@.opportunities.dom().contains(
                opportunity_id,
            ) && !old(self)@.opportunities[opportunity_id].valid ==> r == Err::<u64, ArbitrageError>(
                ArbitrageError::OpportunityInvalid,
            ),
            !old(self)@.paused && trade_amount >= old(self)@.params.min_trade_amount && old(self)@.opportunities.dom().contains(
                opportunity_id,
            ) && old(self)@.opportunities[opportunity_id].valid && now > old(self)@.opportunities[opportunity_id].expires_at
                ==> r == Err::<u64, ArbitrageError>(ArbitrageError::OpportunityExpired),
            r is Err ==> final(self)@ == old(self)@,
            !old(self)@.paused && trade_amount >= old(self)@.params.min_trade_amount && old(self)@.opportunities.dom().contains(
                opportunity_id,
            ) && is_active(old(self)@.opportunities[opportunity_id], now) ==> {
                let o = old(self)@.opportunities[opportunity_id];
                let reward = reward_spec(old(self)@.params, trade_amount, o.price_diff_bps);
                &&& r == Ok::<u64, ArbitrageError>(reward)
                &&& final(self)@ == (ArbitrageView {
                    total_rewards_paid: (old(self)@.total_rewards_paid + reward) as u64,
                    opportunities: old(self)@.opportunities.insert(opportunity_id, ArbitrageOpportunity { valid: false, ..o }),
                    stats: old(self)@.stats.insert(
                        arbitrageur@,
                        stats_after(stats_of(old(self)@.stats, arbitrageur@), trade_amount, reward, true, now),
                    ),
                    ..old(self)@
                })
            },
    {
        if self.paused {
            return Err(ArbitrageError::Paused);
        }
        if trade_amount < self.params.min_trade_amount {
            return Err(ArbitrageError::TradeTooSmall);
        }
        let i = match find_id(&self.opportunities, opportunity_id) {
            Some(i) => i,
            None => return Err(ArbitrageError::OpportunityNotFound),
        };
        if !self.opportunities[i].1.valid {
            return Err(ArbitrageError::OpportunityInvalid);
        }
        if now > self.opportunities[i].1.expires_at {
            return Err(ArbitrageError::OpportunityExpired);
        }
        let diff = self.opportunities[i].1.price_diff_bps;
        let reward = ArbitrageContract::calculate_reward(&self.params, trade_amount, diff);
        let mut o = self.opportunities[i].1.clone();
        o.valid = false;
        let ghost s0 = self.opportunities@;
        let ghost ov = o;
        proof {
            crate::idmap::lemma_id_update(s0, i as int, ov);
        }
        self.opportunities.set(i, (opportunity_id, o));
        proof {
            assert(self.opportunities@ == s0.update(i as int, (opportunity_id, ov)));
            assert forall|j: int| 0 <= j < self.opportunities@.len() implies (#[trigger] self.opportunities@[j]).0
                == self.opportunities@[j].1.opportunity_id && self.opportunities@[j].0 < self.next_opportunity_id by {
                if j != i {
                    assert(self.opportunities@[j] == s0[j]);
                }
            }
        }
        self.record_arbitrage(arbitrageur, trade_amount, reward, true, now);
        self.total_rewards_paid = self.total_rewards_paid + reward;
        Ok(reward)
    }

    /// Record a failed arbitrage of `arbitrageur` at `now` (refused while paused).
    pub fn report_failed_arbitrage(&mut self, arbitrageur: &str, now: u64) -> (r: Result<(), ArbitrageError>)
        requires
            old(self).wf(),
            stats_fit(stats_of(old(self)@.stats, arbitrageur@), 0, 0, false),
        ensures
            final(self).wf(),
            old(self)@.paused ==> r == Err::<(), ArbitrageError>(ArbitrageError::Paused) && final(self)@ == old(self)@,
            !old(self)@.paused ==> r is Ok && final(self)@ == (ArbitrageView {
                stats: old(self)@.stats.insert(
                    arbitrageur@,
                    stats_after(stats_of(old(self)@.stats, arbitrageur@), 0, 0, false, now),
                ),
                ..old(self)@
            }),
    {
        if self.paused {
            return Err(ArbitrageError::Paused);
        }
        self.record_arbitrage(arbitrageur, 0, 0, false, now);
        Ok(())
    }

    /// The opportunities still executable at `now`, in the order detected.
    pub fn get_active_opportunities(&self, now: u64) -> (r: Vec<ArbitrageOpportunity>)
        requires
            self.wf(),
        ensures
            r@ == self.opportunity_list().filter(|o: ArbitrageOpportunity| is_active(o, now)),
    {
        let ghost l = self.opportunity_list();
        let ghost f = |o: ArbitrageOpportunity| is_active(o, now);
        let mut out: Vec<ArbitrageOpportunity> = Vec::new();
        let mut i: usize = 0;
        while i < self.opportunities.len()
            invariant
                i <= self.opportunities@.len(),
                l == self.opportunity_list(),
                l.len() == self.opportunities@.len(),
                f == (|o: ArbitrageOpportunity| is_active(o, now)),
                out@ == l.take(i as int).filter(f),
            decreases self.opportunities@.len() - i,
        {
            let o = &self.opportunities[i].1;
            proof {
                assert(l[i as int] == self.opportunities@[i as int].1);
                assert(l.take(i + 1).drop_last() =~= l.take(i as int));
                reveal_with_fuel(Seq::<_>::filter, 1);
            }
            if o.valid && now <= o.expires_at {
                out.push(o.clone());
            }
            i = i + 1;
        }
        proof {
            assert(l.take(l.len() as int) =~= l);
        }
        out
    }

    /// The record of `arbitrageur` (all zeros when it never arbitraged).
    pub fn get_arbitrageur_stats(&self, arbitrageur: &str) -> (r: ArbitrageurStats)
        requires
            self.wf(),
        ensures
            r.address@ == arbitrageur@,
            self@.stats.dom().contains(arbitrageur@) ==> {
                let s = self@.stats[arbitrageur@];
                &&& r.total_arbitrages == s.total_arbitrages
                &&& r.total_volume == s.total_volume
                &&& r.total_rewards == s.total_rewards
                &&& r.success_rate == s.success_rate
                &&& r.last_arbitrage == s.last_arbitrage
                &&& r.avg_profit == s.avg_profit
            },
            !self@.stats.dom().contains(arbitrageur@) ==> r.total_arbitrages == 0 && r.total_volume == 0
                && r.total_rewards == 0 && r.success_rate == 0 && r.last_arbitrage == 0 && r.avg_profit == 0,
    {
        match find_key(&self.stats, arbitrageur) {
            Some(i) => {
                let s = self.stats[i].1;
                ArbitrageurStats {
                    address: String::from_str(arbitrageur),
                    total_arbitrages: s.total_arbitrages,
                    total_volume: s.total_volume,
                    total_rewards: s.total_rewards,
                    success_rate: s.success_rate,
                    last_arbitrage: s.last_arbitrage,
                    avg_profit: s.avg_profit,
                }
            },
            None => ArbitrageurStats {
                address: String::from_str(arbitrageur),
                total_arbitrages: 0,
                total_volume: 0,
                total_rewards: 0,
                success_rate: 0,
                last_arbitrage: 0,
                avg_profit: 0,
            },
        }
    }

    /// The statistics table, one record per arbitrageur.
    pub closed spec fn stats_table(&self) -> Seq<(String, StatsRecord)> {
        self.stats@
    }

    /// System-wide figures: the total arbitraged volume, the number of
    /// arbitrageurs seen active, and fixed figures for the rest.
    pub fn get_system_stats(&self) -> (r: SystemStats)
        requires
            volume_sum(self.stats_table()) <= u64::MAX,
            self.stats_table().len() <= u32::MAX,
        ensures
            r == (SystemStats {
                total_value_locked: volume_sum(self.stats_table()) as u64,
                total_supply: 100_000_000_000,
                active_vaults: active_count(self.stats_table()) as u32,
                average_collateral_ratio: 10_000,
                stability_pool_size: 0,
                daily_liquidations: 0,
                daily_minting_volume: 0,
                daily_redemption_volume: 0,
                health_score: 8500,
            }),
    {
        let ghost t = self.stats@;
        let mut total: u64 = 0;
        let mut active: u32 = 0;
        let mut i: usize = 0;
        while i < self.stats.len()
            invariant
                t == self.stats@,
                i <= t.len(),
                t.len() <= u32::MAX,
                volume_sum(t) <= u64::MAX,
                total == volume_sum(t.take(i as int)),
                active == active_count(t.take(i as int)),
                active <= i,
            decreases t.len() - i,
        {
            proof {
                assert(t.take(i + 1).drop_last() =~= t.take(i as int));
                lemma_volume_prefix(t, i + 1);
            }
            total = total + self.stats[i].1.total_volume;
            if self.stats[i].1.last_arbitrage > 0 {
                active = active + 1;
            }
            i = i + 1;
        }
        proof {
            assert(t.take(t.len() as int) =~= t);
        }
        SystemStats {
            total_value_locked: total,
            total_supply: 100_000_000_000,
            active_vaults: active,
            average_collateral_ratio: 10_000,
            stability_pool_size: 0,
            daily_liquidations: 0,
            daily_minting_volume: 0,
            daily_redemption_volume: 0,
            health_score: 8500,
        }
    }

    /// Total rewards paid so far.
    pub fn total_rewards_paid(&self) -> (r: u64)
        ensures
            r == self@.total_rewards_paid,
    {
        self.total_rewards_paid
    }

    /// The parameters in force.
    pub fn get_params_view(&self) -> (r: ArbitrageParams)
        ensures
            r == self@.params,
    {
        self.params
    }

    /// The MEV settings in force.
    pub fn get_mev_config_view(&self) -> (r: MEVConfig)
        ensures
            r == self@.mev_config,
    {
        self.mev_config
    }

    /// Whether `caller` is the contract itself.
    fn is_admin(&self, caller: &str) -> (r: bool)
        ensures
            r == (caller@ == self@.admin),
    {
        let who = String::from_str(caller);
        who == self.admin
    }

    /// Replace the parameters (only the contract itself): the minimum deviation
    /// 1 to 1000 basis points, the maximum above it and at most 5000.
    pub fn update_params(&mut self, caller: &str, new_params: ArbitrageParams) -> (r: Result<(), ArbitrageError>)
        requires
            old(self).wf(),
        ensures
            final(self).wf(),
            caller@ != old(self)@.admin ==> r == Err::<(), ArbitrageError>(ArbitrageError::NotAuthorized),
            caller@ == old(self)@.admin && (new_params.min_deviation_bps == 0 || new_params.min_deviation_bps > 1000)
                ==> r == Err::<(), ArbitrageError>(ArbitrageError::InvalidMinimumDeviation),
            caller@ == old(self)@.admin && 0 < new_params.min_deviation_bps <= 1000 && (new_params.max_deviation_bps
                <= new_params.min_deviation_bps || new_params.max_deviation_bps > 5000) ==> r == Err::<(), ArbitrageError>(
                ArbitrageError::InvalidMaximumDeviation,
            ),
            r is Err ==> final(self)@ == old(self)@,
            caller@ == old(self)@.admin && 0 < new_params.min_deviation_bps <= 1000 && new_params.min_deviation_bps
                < new_params.max_deviation_bps <= 5000 ==> r is Ok && final(self)@ == (ArbitrageView {
                params: new_params,
                ..old(self)@
            }),
    {
        if !self.is_admin(caller) {
            return Err(ArbitrageError::NotAuthorized);
        }
        if new_params.min_deviation_bps == 0 || new_params.min_deviation_bps > 1000 {
            return Err(ArbitrageError::InvalidMinimumDeviation);
        }
        if new_params.max_deviation_bps <= new_params.min_deviation_bps || new_params.max_deviation_bps > 5000 {
            return Err(ArbitrageError::InvalidMaximumDeviation);
        }
        self.params = new_params;
        Ok(())
    }

    /// Replace the MEV settings (only the contract itself).
    pub fn update_mev_config(&mut self, caller: &str, new_config: MEVConfig) -> (r: Result<(), ArbitrageError>)
        requires
            old(self).wf(),
        ensures
            final(self).wf(),
            caller@ != old(self)@.admin ==> r == Err::<(), ArbitrageError>(ArbitrageError::NotAuthorized)
                && final(self)@ == old(self)@,
            caller@ == old(self)@.admin ==> r is Ok && final(self)@ == (ArbitrageView {
                mev_config: new_config,
                ..old(self)@
            }),
    {
        if !self.is_admin(caller) {
            return Err(ArbitrageError::NotAuthorized);
        }
        self.mev_config = new_config;
        Ok(())
    }

    /// Pause or resume the system (only the contract itself).
    fn set_paused(&mut self, caller: &str, paused: bool) -> (r: Result<(), ArbitrageError>)
        requires
            old(self).wf(),
        ensures
            final(self).wf(),
            caller@ != old(self)@.admin ==> r == Err::<(), ArbitrageError>(ArbitrageError::NotAuthorized)
                && final(self)@ == old(self)@,
            caller@ == old(self)@.admin ==> r is Ok && final(self)@ == (ArbitrageView { paused, ..old(self)@ }),
    {
        if !self.is_admin(caller) {
            return Err(ArbitrageError::NotAuthorized);
        }
        self.paused = paused;
        Ok(())
    }

    /// Pause the system (only the contract itself).
    pub fn pause(&mut self, caller: &str) -> (r: Result<(), ArbitrageError>)
        requires
            old(self).wf(),
        ensures
            final(self).wf(),
            caller@ != old(self)@.admin ==> r == Err::<(), ArbitrageError>(ArbitrageError::NotAuthorized)
                && final(self)@ == old(self)@,
            caller@ == old(self)@.admin ==> r is Ok && final(self)@ == (ArbitrageView { paused: true, ..old(self)@ }),
    {
        self.set_paused(caller, true)
    }

    /// Resume the system (only the contract itself).
    pub fn unpause(&mut self, caller: &str) -> (r: Result<(), ArbitrageError>)
        requires
            old(self).wf(),
        ensures
            final(self).wf(),
            caller@ != old(self)@.admin ==> r == Err::<(), ArbitrageError>(ArbitrageError::NotAuthorized)
                && final(self)@ == old(self)@,
            caller@ == old(self)@.admin ==> r is Ok && final(self)@ == (ArbitrageView { paused: false, ..old(self)@ }),
    {
        self.set_paused(caller, false)
    }

    /// Register a route of 3 to 5 hops for off-chain execution (refused while
    /// paused).
    pub fn register_route(&mut self, route: ArbitrageRoute) -> (r: Result<(), String>)
        requires
            old(self).wf(),
        ensures
            final(self).wf(),
            old(self)@.paused ==> (r matches Err(e) && e@ == "Arbitrage system is paused"@) && final(self)@ == old(self)@,
            !old(self)@.paused && (route.hops@.len() < 3 || route.hops@.len() > 5) ==> (r matches Err(e) && e@
                == "Route must contain between 3 and 5 hops"@) && final(self)@ == old(self)@,
            !old(self)@.paused && 3 <= route.hops@.len() <= 5 ==> r is Ok && final(self)@ == (ArbitrageView {
                routes: old(self)@.routes.push(route),
                ..old(self)@
            }),
    {
        if self.paused {
            proof {
                reveal_strlit("Arbitrage system is paused");
            }
            return Err(String::from_str("Arbitrage system is paused"));
        }
        match ArbitrageContract::validate_route(&route) {
            Err(e) => return Err(e),
            Ok(()) => {},
        }
        self.routes.push(route);
        Ok(())
    }

    /// The best registered route: the first with the highest positive net
    /// profit, if any is profitable.
    pub fn best_route(&self) -> (r: Option<&ArbitrageRoute>)
        ensures
            match best_route_index(self@.routes) {
                Some(i) => r == Some(&self@.routes[i]),
                None => r is None,
            },
    {
        ArbitrageContract::best_route(&self.routes)
    }

    /// Execute an atomic flash bundle for `arbitrageur` at `now`: borrow
    /// `loan_amount`, run it through `hops` and repay, as planned by
    /// [`ArbitrageContract::plan_flash_bundle`].  Refused while paused or when the
    /// plan is refused (with the plan's reason); otherwise the bundle is stored
    /// under the next bundle identifier and returned, and a positive profit is paid
    /// out as a reward and recorded for the arbitrageur.
    pub fn execute_flash_bundle(
        &mut self,
        arbitrageur: &str,
        loan_amount: u64,
        hops: Vec<FlashBundleHop>,
        min_profit: i128,
        now: u64,
    ) -> (r: Result<FlashBundle, String>)
        requires
            old(self).wf(),
            old(self)@.next_bundle_id < u64::MAX,
            loan_amount * 9 <= u64::MAX,
            loan_amount + loan_amount * 9 / 10_000 <= u64::MAX,
            forall|i: int| 0 <= i < hops@.len() ==> loan_amount * (#[trigger] hops@[i]).fee_bps <= u64::MAX,
            old(self)@.mev_config.gas_per_hop * hops@.len() <= u64::MAX,
            match bundle_outcome(old(self)@.mev_config, loan_amount, hops@, min_profit) {
                Ok(plan) => plan.expected_profit > 0 ==> old(self)@.total_rewards_paid + plan.expected_profit <= u64::MAX
                    && stats_fit(stats_of(old(self)@.stats, arbitrageur@), loan_amount, plan.expected_profit as u64, true),
                Err(_) => true,
            },
        ensures
            final(self).wf(),
            old(self)@.paused ==> (r matches Err(e) && e@ == "Arbitrage system is paused"@) && final(self)@ == old(self)@,
            !old(self)@.paused ==> match bundle_outcome(old(self)@.mev_config, loan_amount, hops@, min_profit) {
                Err(msg) => (r matches Err(e) && e@ == msg) && final(self)@ == old(self)@,
                Ok(plan) => {
                    let id = old(self)@.next_bundle_id;
                    let profit = plan.expected_profit;
                    &&& r matches Ok(b)
                    &&& bundle_record(b) == final(self)@.bundles[id]
                    &&& b.bundle_id == id
                    &&& b.loan_amount == loan_amount
                    &&& b.loan_fee == plan.loan_fee
                    &&& b.hops@ == hops@
                    &&& b.expected_profit == profit
                    &&& b.max_gas_cost == plan.max_gas_cost
                    &&& b.executed
                    &&& b.executed_at == now
                    &&& final(self)@ == (ArbitrageView {
                        next_bundle_id: (id + 1) as u64,
                        bundles: old(self)@.bundles.insert(id, bundle_record(b)),
                        total_rewards_paid: if profit > 0 {
                            (old(self)@.total_rewards_paid + profit) as u64
                        } else {
                            old(self)@.total_rewards_paid
                        },
                        stats: if profit > 0 {
                            old(self)@.stats.insert(
                                arbitrageur@,
                                stats_after(stats_of(old(self)@.stats, arbitrageur@), loan_amount, profit as u64, true, now),
                            )
                        } else {
                            old(self)@.stats
                        },
                        ..old(self)@
                    })
                },
            },
    {
        if self.paused {
            proof {
                reveal_strlit("Arbitrage system is paused");
            }
            return Err(String::from_str("Arbitrage system is paused"));
        }
        let plan = match ArbitrageContract::plan_flash_bundle(&self.mev_config, loan_amount, &hops, min_profit) {
            Ok(p) => p,
            Err(e) => {
                proof {
                    reveal_strlit("Flash bundle requires at least 2 hops");
                    reveal_strlit("Hop slippage exceeded minimum output");
                    reveal_strlit("Bundle profit below minimum");
                }
                return Err(e);
            },
        };
        let id = self.next_bundle_id;
        let bundle = FlashBundle {
            bundle_id: id,
            loan_amount,
            loan_fee: plan.loan_fee,
            hops,
            expected_profit: plan.expected_profit,
            max_gas_cost: plan.max_gas_cost,
            executed: true,
            executed_at: now,
        };
        let stored = bundle.clone();
        let ghost b0 = self.bundles@;
        upsert_id(&mut self.bundles, id, stored);
        proof {
            assert(id_map(self.bundles@).map_values(|b: FlashBundle| bundle_record(b)) =~= id_map(b0).map_values(
                |b: FlashBundle| bundle_record(b),
            ).insert(id, bundle_record(bundle)));
        }
        self.next_bundle_id = id + 1;
        let profit = plan.expected_profit;
        if profit > 0 {
            let gain = profit as u64;
            self.total_rewards_paid = self.total_rewards_paid + gain;
            self.record_arbitrage(arbitrageur, loan_amount, gain, true, now);
        }
        Ok(bundle)
    }

    /// The bundle stored under `bundle_id`, if any.
    pub fn get_flash_bundle(&self, bundle_id: u64) -> (r: Option<FlashBundle>)
        requires
            self.wf(),
        ensures
            self@.bundles.dom().contains(bundle_id) ==> (r matches Some(b) && bundle_record(b) == self@.bundles[bundle_id]),
            !self@.bundles.dom().contains(bundle_id) ==> r is None,
    {
        match find_id(&self.bundles, bundle_id) {
            Some(i) => Some(self.bundles[i].1.clone()),
            None => None,
        }
    }

    /// Detect an opportunity at price difference `price_diff_bps` with
    /// `estimated_gas` over `num_hops` hops at block `block` and time `now`,
    /// counting MEV costs: refused while paused; none when the difference is out
    /// of range or nothing is left after gas, MEV cost and a 0.1% fee; otherwise
    /// it is stored like a detected opportunity and its identifier returned.
    pub fn detect_mev_aware_opportunity(
        &mut self,
        source_token: &str,
        target_token: &str,
        price_diff_bps: u32,
        estimated_gas: u64,
        num_hops: u32,
        block: u64,
        now: u64,
    ) -> (r: Result<Option<u64>, ArbitrageError>)
        requires
            old(self).wf(),
            old(self)@.next_opportunity_id < u64::MAX,
            now + old(self)@.params.opportunity_expiry <= u64::MAX,
            mev_cost_fits(ARBITRAGE_CAPITAL, estimated_gas, num_hops, old(self)@.mev_config),
            old(self)@.params.min_deviation_bps <= price_diff_bps <= old(self)@.params.max_deviation_bps ==> opportunity_cost(
                price_diff_bps,
                estimated_gas,
                num_hops,
                old(self)@.mev_config,
                block,
            ) <= u64::MAX,
        ensures
            final(self).wf(),
            old(self)@.paused ==> r == Err::<Option<u64>, ArbitrageError>(ArbitrageError::Paused) && final(self)@ == old(
                self,
            )@,
            !old(self)@.paused && assessment_spec(
                old(self)@.params,
                old(self)@.mev_config,
                price_diff_bps,
                estimated_gas,
                num_hops,
                block,
            ) is None ==> r == Ok::<Option<u64>, ArbitrageError>(None) && final(self)@ == old(self)@,
            !old(self)@.paused && assessment_spec(
                old(self)@.params,
                old(self)@.mev_config,
                price_diff_bps,
                estimated_gas,
                num_hops,
                block,
            ) is Some ==> {
                let id = old(self)@.next_opportunity_id;
                &&& r == Ok::<Option<u64>, ArbitrageError>(Some(id))
                &&& final(self)@ == (ArbitrageView {
                    next_opportunity_id: (id + 1) as u64,
                    opportunities: old(self)@.opportunities.insert(id, final(self)@.opportunities[id]),
                    ..old(self)@
                })
                &&& detected(
                    final(self)@.opportunities[id],
                    id,
                    source_token@,
                    target_token@,
                    price_diff_bps,
                    now,
                    old(self)@.params,
                )
            },
    {
        if self.paused {
            return Err(ArbitrageError::Paused);
        }
        let assessment = ArbitrageContract::assess_mev_opportunity(
            &self.params,
            &self.mev_config,
            price_diff_bps,
            estimated_gas,
            num_hops,
            block,
        );
        match assessment {
            None => Ok(None),
            Some(a) => {
                let id = self.next_opportunity_id;
                let o = ArbitrageOpportunity {
                    opportunity_id: id,
                    source_token: String::from_str(source_token),
                    target_token: String::from_str(target_token),
                    price_diff_bps,
                    potential_profit: a.potential_profit,
                    required_capital: a.required_capital,
                    discovered_at: now,
                    expires_at: now + self.params.opportunity_expiry,
                    valid: true,
                };
                self.store_opportunity(o);
                Ok(Some(id))
            },
        }
    }
}

} // verus!
