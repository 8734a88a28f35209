//! Pricing rules of the arbitrage contract: MEV cost estimates, opportunity
//! metrics, rewards, the MEV-aware assessment of an opportunity, profit
//! simulation, risk evaluation, route selection and the planning of atomic
//! flash-loan bundles.

use vstd::prelude::*;

verus! {

/// Smallest price difference worth arbitraging (basis points).
pub const MIN_DEVIATION_BPS: u32 = 10;
/// Largest price difference considered genuine (basis points).
pub const MAX_DEVIATION_BPS: u32 = 500;
/// Reward rate for small differences (basis points).
pub const BASE_REWARD_RATE_BPS: u32 = 50;
/// Reward rate for large differences (basis points).
pub const MAX_REWARD_RATE_BPS: u32 = 200;
/// Seconds an opportunity stays open.
pub const OPPORTUNITY_EXPIRY: u64 = 1800;
/// Smallest trade (8 decimals).
pub const MIN_TRADE_AMOUNT: u64 = 100_000_000;
/// Largest reward per arbitrage (8 decimals).
pub const MAX_REWARD_PER_ARBITRAGE: u64 = 1_000_000_000;
/// Default safety buffer on MEV costs (basis points).
pub const DEFAULT_MEV_BUFFER_BPS: u32 = 500;
/// Default gas per route hop.
pub const DEFAULT_GAS_PER_HOP: u64 = 50_000;
/// Blocks of MEV history considered.
pub const MEV_HISTORY_WINDOW: u64 = 100;
/// Capital an opportunity is sized for (8 decimals).
pub const ARBITRAGE_CAPITAL: u64 = 1_000_000_000;

/// Parameters of the arbitrage contract.
#[derive(Clone, Copy, Debug, PartialEq, Eq, Structural)]
pub struct ArbitrageParams {
    pub min_deviation_bps: u32,
    pub max_deviation_bps: u32,
    pub base_reward_rate_bps: u32,
    pub max_reward_rate_bps: u32,
    pub opportunity_expiry: u64,
    pub min_trade_amount: u64,
    pub max_reward_per_arbitrage: u64,
}

/// MEV protection settings.
#[derive(Clone, Copy, Debug, PartialEq, Eq, Structural)]
pub struct MEVConfig {
    /// Safety buffer on the estimated MEV cost (basis points).
    pub buffer_bps: u32,
    /// Gas per route hop.
    pub gas_per_hop: u64,
    /// Blocks of history considered.
    pub history_window: u64,
    /// Whether MEV costs are estimated.
    pub enabled: bool,
}

/// Estimated cost of MEV on a trade.
#[derive(Clone, Copy, Debug, PartialEq, Eq, Structural)]
pub struct MEVCost {
    pub sandwich_cost: u64,
    pub frontrun_cost: u64,
    pub total_mev_cost: u64,
    pub buffer_bps: u32,
    pub gas_cost: u64,
    pub estimated_at_block: u64,
}

/// How exposed an opportunity is to MEV.
#[derive(Clone, Copy, Debug, PartialEq, Eq, Structural)]
pub enum MEVRiskLevel {
    Low,
    Medium,
    High,
    Critical,
}

/// An opportunity that remains profitable after MEV costs.
#[derive(Clone, Copy, Debug, PartialEq, Eq, Structural)]
pub struct MevAssessment {
    pub potential_profit: u64,
    pub required_capital: u64,
    pub mev_cost: MEVCost,
    /// Profit left after gas, MEV and a 0.1% fee.
    pub net_profit: i128,
    pub risk_level: MEVRiskLevel,
}

/// The default parameters.
pub open spec fn default_params() -> ArbitrageParams {
    ArbitrageParams {
        min_deviation_bps: MIN_DEVIATION_BPS,
        max_deviation_bps: MAX_DEVIATION_BPS,
        base_reward_rate_bps: BASE_REWARD_RATE_BPS,
        max_reward_rate_bps: MAX_REWARD_RATE_BPS,
        opportunity_expiry: OPPORTUNITY_EXPIRY,
        min_trade_amount: MIN_TRADE_AMOUNT,
        max_reward_per_arbitrage: MAX_REWARD_PER_ARBITRAGE,
    }
}

/// The MEV cost of a trade of `size` with `gas` base gas over `hops` hops at
/// `block`: 0.2% for sandwiching and 0.1% for front-running plus the buffer, and
/// gas per hop (only the gas when estimates are disabled).
pub open spec fn mev_cost_spec(size: u64, gas: u64, hops: u32, cfg: MEVConfig, block: u64) -> MEVCost {
    if !cfg.enabled {
        MEVCost { sandwich_cost: 0, frontrun_cost: 0, total_mev_cost: 0, buffer_bps: 0, gas_cost: gas, estimated_at_block: block }
    } else {
        let sandwich = size * 20 / 10_000;
        let frontrun = size * 10 / 10_000;
        let base = sandwich + frontrun;
        let buffer = base * cfg.buffer_bps / 10_000;
        MEVCost {
            sandwich_cost: sandwich as u64,
            frontrun_cost: frontrun as u64,
            total_mev_cost: (base + buffer) as u64,
            buffer_bps: cfg.buffer_bps,
            gas_cost: (gas + cfg.gas_per_hop * hops) as u64,
            estimated_at_block: block,
        }
    }
}

/// The MEV cost estimate stays within `u64`.
pub open spec fn mev_cost_fits(size: u64, gas: u64, hops: u32, cfg: MEVConfig) -> bool {
    cfg.enabled ==> {
        let base = size * 20 / 10_000 + size * 10 / 10_000;
        &&& size * 20 <= u64::MAX
        &&& base * cfg.buffer_bps <= u64::MAX
        &&& base + base * cfg.buffer_bps / 10_000 <= u64::MAX
        &&& gas + cfg.gas_per_hop * hops <= u64::MAX
    }
}

/// Reward rate for a price difference (basis points).
pub open spec fn reward_rate(p: ArbitrageParams, diff: u32) -> int {
    if diff <= 50 {
        p.base_reward_rate_bps as int
    } else if diff <= 200 {
        p.base_reward_rate_bps + (diff - 50) / 2
    } else {
        p.max_reward_rate_bps as int
    }
}

/// Reward for an arbitrage of `amount` at price difference `diff`, capped.
pub open spec fn reward_spec(p: ArbitrageParams, amount: u64, diff: u32) -> u64 {
    let r = amount * reward_rate(p, diff) / 10_000;
    if r < p.max_reward_per_arbitrage { r as u64 } else { p.max_reward_per_arbitrage }
}

/// Risk level from the MEV cost relative to the profit.
pub open spec fn risk_level_spec(mev: u64, profit: u64) -> MEVRiskLevel {
    if mev > profit / 2 {
        MEVRiskLevel::Critical
    } else if mev > profit / 4 {
        MEVRiskLevel::High
    } else if mev > profit / 10 {
        MEVRiskLevel::Medium
    } else {
        MEVRiskLevel::Low
    }
}

/// Profit of an opportunity at price difference `diff` on the standard capital.
pub open spec fn potential_profit(diff: u32) -> u64 {
    (ARBITRAGE_CAPITAL * diff / 10_000) as u64
}

/// Total cost of an opportunity: gas, MEV cost and a 0.1% fee on the profit.
pub open spec fn opportunity_cost(diff: u32, gas: u64, hops: u32, cfg: MEVConfig, block: u64) -> int {
    gas + mev_cost_spec(ARBITRAGE_CAPITAL, gas, hops, cfg, block).total_mev_cost + potential_profit(diff) / 1000
}

/// The assessment of an opportunity: none when the difference is out of range or
/// nothing is left after costs.
pub open spec fn assessment_spec(p: ArbitrageParams, cfg: MEVConfig, diff: u32, gas: u64, hops: u32, block: u64) -> Option<
    MevAssessment,
> {
    if diff < p.min_deviation_bps || diff > p.max_deviation_bps {
        None
    } else {
        let profit = potential_profit(diff);
        let mev = mev_cost_spec(ARBITRAGE_CAPITAL, gas, hops, cfg, block);
        let net = profit - opportunity_cost(diff, gas, hops, cfg, block);
        if net <= 0 {
            None
        } else {
            Some(
                MevAssessment {
                    potential_profit: profit,
                    required_capital: ARBITRAGE_CAPITAL,
                    mev_cost: mev,
                    net_profit: net as i128,
                    risk_level: risk_level_spec(mev.total_mev_cost, profit),
                },
            )
        }
    }
}

/// The arbitrage contract's pricing rules.
pub struct ArbitrageContract;

impl ArbitrageContract {
    /// The default parameters.
    pub fn default_params() -> (r: ArbitrageParams)
        ensures
            r == default_params(),
    {
        ArbitrageParams {
            min_deviation_bps: MIN_DEVIATION_BPS,
            max_deviation_bps: MAX_DEVIATION_BPS,
            base_reward_rate_bps: BASE_REWARD_RATE_BPS,
            max_reward_rate_bps: MAX_REWARD_RATE_BPS,
            opportunity_expiry: OPPORTUNITY_EXPIRY,
            min_trade_amount: MIN_TRADE_AMOUNT,
            max_reward_per_arbitrage: MAX_REWARD_PER_ARBITRAGE,
        }
    }

    /// The default MEV settings.
    pub fn default_mev_config() -> (r: MEVConfig)
        ensures
            r == (MEVConfig {
                buffer_bps: DEFAULT_MEV_BUFFER_BPS,
                gas_per_hop: DEFAULT_GAS_PER_HOP,
                history_window: MEV_HISTORY_WINDOW,
                enabled: true,
            }),
    {
        MEVConfig {
            buffer_bps: DEFAULT_MEV_BUFFER_BPS,
            gas_per_hop: DEFAULT_GAS_PER_HOP,
            history_window: MEV_HISTORY_WINDOW,
            enabled: true,
        }
    }

    /// Estimate the MEV cost of a trade at `block`.
    pub fn estimate_mev_cost(trade_size: u64, gas_cost: u64, num_hops: u32, mev_config: &MEVConfig, block: u64) -> (r: MEVCost)
        requires
            mev_cost_fits(trade_size, gas_cost, num_hops, *mev_config),
        ensures
            r == mev_cost_spec(trade_size, gas_cost, num_hops, *mev_config, block),
    {
        if !mev_config.enabled {
            return MEVCost {
                sandwich_cost: 0,
                frontrun_cost: 0,
                total_mev_cost: 0,
                buffer_bps: 0,
                gas_cost,
                estimated_at_block: block,
            };
        }
        assert(trade_size * 10 <= trade_size * 20);
        let sandwich_cost = (trade_size * 20) / 10000;
        let frontrun_cost = (trade_size * 10) / 10000;
        let base_mev = sandwich_cost + frontrun_cost;
        let buffer = (base_mev * mev_config.buffer_bps as u64) / 10000;
        let total_mev_cost = base_mev + buffer;
        let total_gas = gas_cost + mev_config.gas_per_hop * num_hops as u64;
        MEVCost {
            sandwich_cost,
            frontrun_cost,
            total_mev_cost,
            buffer_bps: mev_config.buffer_bps,
            gas_cost: total_gas,
            estimated_at_block: block,
        }
    }

    /// Profit and capital of an opportunity at price difference `price_diff_bps`.
    pub fn calculate_arbitrage_metrics(price_diff_bps: u32) -> (r: (u64, u64))
        ensures
            r == (potential_profit(price_diff_bps), ARBITRAGE_CAPITAL),
    {
        assert(ARBITRAGE_CAPITAL * price_diff_bps <= ARBITRAGE_CAPITAL * u32::MAX) by (nonlinear_arith);
        ((ARBITRAGE_CAPITAL * price_diff_bps as u64) / 10000, ARBITRAGE_CAPITAL)
    }

    /// Reward for an arbitrage: the base rate up to 0.5%, rising by one basis point
    /// per two of difference up to 2%, then the maximum rate; capped per
    /// arbitrage.
    pub fn calculate_reward(params: &ArbitrageParams, trade_amount: u64, price_diff_bps: u32) -> (r: u64)
        requires
            reward_rate(*params, price_diff_bps) <= u32::MAX,
            trade_amount * reward_rate(*params, price_diff_bps) <= u64::MAX,
        ensures
            r == reward_spec(*params, trade_amount, price_diff_bps),
    {
        let rate: u32 = if price_diff_bps <= 50 {
            params.base_reward_rate_bps
        } else if price_diff_bps <= 200 {
            params.base_reward_rate_bps + (price_diff_bps - 50) / 2
        } else {
            params.max_reward_rate_bps
        };
        let reward = (trade_amount * rate as u64) / 10000;
        if reward < params.max_reward_per_arbitrage {
            reward
        } else {
            params.max_reward_per_arbitrage
        }
    }

    /// Assess an opportunity at price difference `price_diff_bps` with `estimated_gas`
    /// over `num_hops` hops at `block`: it is kept when the difference is within the
    /// parameters and profit remains after gas, MEV cost and a 0.1% fee.
    pub fn assess_mev_opportunity(
        params: &ArbitrageParams,
        mev_config: &MEVConfig,
        price_diff_bps: u32,
        estimated_gas: u64,
        num_hops: u32,
        block: u64,
    ) -> (r: Option<MevAssessment>)
        requires
            mev_cost_fits(ARBITRAGE_CAPITAL, estimated_gas, num_hops, *mev_config),
            params.min_deviation_bps <= price_diff_bps <= params.max_deviation_bps ==> opportunity_cost(
                price_diff_bps,
                estimated_gas,
                num_hops,
                *mev_config,
                block,
            ) <= u64::MAX,
        ensures
            r == assessment_spec(*params, *mev_config, price_diff_bps, estimated_gas, num_hops, block),
    {
        if price_diff_bps < params.min_deviation_bps || price_diff_bps > params.max_deviation_bps {
            return None;
        }
        let (potential_profit, required_capital) = Self::calculate_arbitrage_metrics(price_diff_bps);
        let mev = Self::estimate_mev_cost(required_capital, estimated_gas, num_hops, mev_config, block);
        let total_cost: u64 = estimated_gas + mev.total_mev_cost + potential_profit / 1000;
        let net_profit: i128 = potential_profit as i128 - total_cost as i128;
        if net_profit <= 0 {
            return None;
        }
        let risk_level = if mev.total_mev_cost > potential_profit / 2 {
            MEVRiskLevel::Critical
        } else if mev.total_mev_cost > potential_profit / 4 {
            MEVRiskLevel::High
        } else if mev.total_mev_cost > potential_profit / 10 {
            MEVRiskLevel::Medium
        } else {
            MEVRiskLevel::Low
        };
        Some(MevAssessment { potential_profit, required_capital, mev_cost: mev, net_profit, risk_level })
    }
}

/// Outcome of a simulated arbitrage.
#[derive(Debug, PartialEq, Eq)]
pub struct ArbitrageSimulation {
    pub success: bool,
    pub gross_profit: u64,
    pub pool_fees: u64,
    pub gas_cost: u64,
    pub protocol_fees: u64,
    pub slippage_estimate: u64,
    pub mev_cost: u64,
    pub net_profit: i128,
    /// `INVALID`, `PROFIT` or `UNPROFIT`.
    pub route_summary: String,
    pub simulated_at: u64,
}

/// A hop of a registered route.
#[derive(Debug, PartialEq, Eq)]
pub struct RouteHop {
    pub pool: String,
    pub token_in: String,
    pub token_out: String,
    pub fee_bps: u32,
    pub liquidity: u64,
}

/// A multi-hop arbitrage route.
#[derive(Debug, PartialEq, Eq)]
pub struct ArbitrageRoute {
    pub hops: Vec<RouteHop>,
    pub input_amount: u64,
    pub output_amount: u64,
    pub gas_cost: u64,
    pub net_profit: i128,
}

/// A swap of a flash bundle.
#[derive(Debug, PartialEq, Eq)]
pub struct FlashBundleHop {
    pub pool: String,
    pub token_in: String,
    pub token_out: String,
    pub fee_bps: u32,
    pub min_amount_out: u64,
}

/// The figures of an executable flash bundle.
#[derive(Clone, Copy, Debug, PartialEq, Eq, Structural)]
pub struct FlashBundlePlan {
    /// Fee of the flash loan (0.09%).
    pub loan_fee: u64,
    /// What is left after the swaps and the repayment.
    pub expected_profit: i128,
    /// Gas of all hops.
    pub max_gas_cost: u64,
}

/// Pool fees taken over `n` hops starting from `amount` at `bps` per hop, and the
/// amount left.
pub open spec fn fee_chain(amount: u64, bps: u32, n: nat) -> (int, u64)
    decreases n,
{
    if n == 0 {
        (0, amount)
    } else {
        let fee = (amount * bps / 10_000) as u64;
        let rest = if amount >= fee { (amount - fee) as u64 } else { 0 };
        let (f, left) = fee_chain(rest, bps, (n - 1) as nat);
        (fee + f, left)
    }
}

proof fn lemma_fee_chain_nonneg(amount: u64, bps: u32, n: nat)
    ensures
        fee_chain(amount, bps, n).0 >= 0,
        fee_chain(amount, bps, n).1 <= amount,
    decreases n,
{
    if n > 0 {
        let fee = (amount * bps / 10_000) as u64;
        let rest = if amount >= fee { (amount - fee) as u64 } else { 0 };
        lemma_fee_chain_nonneg(rest, bps, (n - 1) as nat);
    }
}

/// The simulated outcome of an arbitrage, as figures.
pub open spec fn simulation_figures(
    cfg: MEVConfig,
    trade_amount: u64,
    price_diff_bps: u32,
    num_hops: u32,
    pool_fee_bps: u32,
    slippage_bps: u32,
) -> (u64, u64, u64, u64, u64, u64, int) {
    let gross = (trade_amount * price_diff_bps / 10_000) as u64;
    let pool_fees = fee_chain(trade_amount, pool_fee_bps, num_hops as nat).0 as u64;
    let gas = (cfg.gas_per_hop * num_hops) as u64;
    let protocol = gross / 1000;
    let slippage = (trade_amount * slippage_bps / 10_000) as u64;
    let mev = mev_cost_spec(trade_amount, gas, num_hops, cfg, 0).total_mev_cost;
    let net = gross - (pool_fees + gas + protocol + slippage + mev);
    (gross, pool_fees, gas, protocol, slippage, mev, net)
}

/// Every intermediate figure of a simulation fits in a `u64`.
pub open spec fn simulation_fits(
    cfg: MEVConfig,
    trade_amount: u64,
    price_diff_bps: u32,
    num_hops: u32,
    pool_fee_bps: u32,
    slippage_bps: u32,
) -> bool {
    let f = simulation_figures(cfg, trade_amount, price_diff_bps, num_hops, pool_fee_bps, slippage_bps);
    &&& trade_amount * price_diff_bps <= u64::MAX
    &&& trade_amount * pool_fee_bps <= u64::MAX
    &&& fee_chain(trade_amount, pool_fee_bps, num_hops as nat).0 <= u64::MAX
    &&& cfg.gas_per_hop * num_hops <= u64::MAX
    &&& trade_amount * slippage_bps <= u64::MAX
    &&& mev_cost_fits(trade_amount, f.2, num_hops, cfg)
    &&& f.1 + f.2 + f.3 + f.4 + f.5 <= u64::MAX
}

/// The risk score of an opportunity: a quarter of each factor (rounded down per
/// factor).
pub open spec fn risk_score(volatility: u32, liquidity_depth: u32, time_variance: u32, counterparty_risk: u32) -> int {
    volatility * 25 / 100 + liquidity_depth * 25 / 100 + time_variance * 25 / 100 + counterparty_risk * 25 / 100
}

/// The amount left after the swaps of a bundle starting from `amount`, or none
/// when a swap yields less than its minimum output.
pub open spec fn bundle_walk(amount: u64, hops: Seq<FlashBundleHop>) -> Option<u64>
    decreases hops.len(),
{
    if hops.len() == 0 {
        Some(amount)
    } else {
        let fee = (amount * hops[0].fee_bps / 10_000) as u64;
        let after = if amount >= fee { (amount - fee) as u64 } else { 0 };
        if after < hops[0].min_amount_out {
            None
        } else {
            bundle_walk(after, hops.drop_first())
        }
    }
}

proof fn lemma_bundle_walk_le(amount: u64, hops: Seq<FlashBundleHop>)
    ensures
        bundle_walk(amount, hops) matches Some(x) ==> x <= amount,
    decreases hops.len(),
{
    if hops.len() > 0 {
        let fee = (amount * hops[0].fee_bps / 10_000) as u64;
        let after = if amount >= fee { (amount - fee) as u64 } else { 0 };
        lemma_bundle_walk_le(after, hops.drop_first());
    }
}

/// Index of the best registered route: the first with the highest positive net
/// profit.
pub open spec fn best_route_index(routes: Seq<ArbitrageRoute>) -> Option<int>
    decreases routes.len(),
{
    if routes.len() == 0 {
        None
    } else {
        let prev = best_route_index(routes.drop_last());
        let last = routes.last();
        if last.net_profit > 0 && (match prev {
            Some(i) => last.net_profit > routes[i].net_profit,
            None => true,
        }) {
            Some(routes.len() - 1)
        } else {
            prev
        }
    }
}

proof fn lemma_best_route_in_range(routes: Seq<ArbitrageRoute>)
    ensures
        best_route_index(routes) matches Some(i) ==> 0 <= i < routes.len(),
    decreases routes.len(),
{
    if routes.len() > 0 {
        lemma_best_route_in_range(routes.drop_last());
    }
}

impl ArbitrageContract {
    /// Simulate an arbitrage of `trade_amount` at price difference
    /// `price_diff_bps` over `num_hops` pools charging `pool_fee_bps` each, with
    /// `slippage_bps` of slippage, at time `now`.  A trade below the minimum is
    /// invalid; otherwise the gross profit less pool fees, gas, a 0.1% protocol
    /// fee, slippage and MEV cost decides success.
    pub fn simulate_arbitrage(
        params: &ArbitrageParams,
        mev_config: &MEVConfig,
        trade_amount: u64,
        price_diff_bps: u32,
        num_hops: u32,
        pool_fee_bps: u32,
        slippage_bps: u32,
        now: u64,
    ) -> (r: ArbitrageSimulation)
        requires
            trade_amount >= params.min_trade_amount ==> simulation_fits(
                *mev_config,
                trade_amount,
                price_diff_bps,
                num_hops,
                pool_fee_bps,
                slippage_bps,
            ),
        ensures
            r.simulated_at == now,
            trade_amount < params.min_trade_amount ==> !r.success && r.gross_profit == 0 && r.pool_fees == 0
                && r.gas_cost == 0 && r.protocol_fees == 0 && r.slippage_estimate == 0 && r.mev_cost == 0
                && r.net_profit == 0 && r.route_summary@ == "INVALID"@,
            trade_amount >= params.min_trade_amount ==> {
                let f = simulation_figures(
                    *mev_config,
                    trade_amount,
                    price_diff_bps,
                    num_hops,
                    pool_fee_bps,
                    slippage_bps,
                );
                &&& r.gross_profit == f.0
                &&& r.pool_fees == f.1
                &&& r.gas_cost == f.2
                &&& r.protocol_fees == f.3
                &&& r.slippage_estimate == f.4
                &&& r.mev_cost == f.5
                &&& r.net_profit == f.6
                &&& r.success == (f.6 > 0)
                &&& r.route_summary@ == (if f.6 > 0 { "PROFIT"@ } else { "UNPROFIT"@ })
            },
    {
        proof {
            reveal_strlit("INVALID");
            reveal_strlit("PROFIT");
            reveal_strlit("UNPROFIT");
        }
        if trade_amount < params.min_trade_amount {
            return ArbitrageSimulation {
                success: false,
                gross_profit: 0,
                pool_fees: 0,
                gas_cost: 0,
                protocol_fees: 0,
                slippage_estimate: 0,
                mev_cost: 0,
                net_profit: 0,
                route_summary: String::from_str("INVALID"),
                simulated_at: now,
            };
        }
        let gross_profit = (trade_amount * price_diff_bps as u64) / 10000;
        let mut pool_fees: u64 = 0;
        let mut remaining = trade_amount;
        let mut k: u32 = 0;
        proof {
            lemma_fee_chain_nonneg(trade_amount, pool_fee_bps, num_hops as nat);
        }
        while k < num_hops
            invariant
                k <= num_hops,
                remaining <= trade_amount,
                trade_amount * pool_fee_bps <= u64::MAX,
                fee_chain(trade_amount, pool_fee_bps, num_hops as nat).0 <= u64::MAX,
                fee_chain(trade_amount, pool_fee_bps, num_hops as nat) == (
                    pool_fees + fee_chain(remaining, pool_fee_bps, (num_hops - k) as nat).0,
                    fee_chain(remaining, pool_fee_bps, (num_hops - k) as nat).1,
                ),
            decreases num_hops - k,
        {
            proof {
                assert(remaining * pool_fee_bps <= trade_amount * pool_fee_bps) by (nonlinear_arith)
                    requires
                        remaining <= trade_amount,
                ;
                let fee_s = (remaining * pool_fee_bps / 10_000) as u64;
                let rest_s = if remaining >= fee_s { (remaining - fee_s) as u64 } else { 0 };
                lemma_fee_chain_nonneg(rest_s, pool_fee_bps, (num_hops - k - 1) as nat);
            }
            let fee = (remaining * pool_fee_bps as u64) / 10000;
            pool_fees = pool_fees + fee;
            remaining = remaining.saturating_sub(fee);
            k = k + 1;
        }
        let gas_cost = mev_config.gas_per_hop * num_hops as u64;
        let protocol_fees = gross_profit / 1000;
        let slippage_estimate = (trade_amount * slippage_bps as u64) / 10000;
        let mev = Self::estimate_mev_cost(trade_amount, gas_cost, num_hops, mev_config, 0);
        let total_deductions = pool_fees + gas_cost + protocol_fees + slippage_estimate + mev.total_mev_cost;
        let net_profit = gross_profit as i128 - total_deductions as i128;
        ArbitrageSimulation {
            success: net_profit > 0,
            gross_profit,
            pool_fees,
            gas_cost,
            protocol_fees,
            slippage_estimate,
            mev_cost: mev.total_mev_cost,
            net_profit,
            route_summary: if net_profit > 0 {
                String::from_str("PROFIT")
            } else {
                String::from_str("UNPROFIT")
            },
            simulated_at: now,
        }
    }

    /// Whether an opportunity is viable: its risk score (a quarter of each of
    /// volatility, liquidity depth, time variance and counterparty risk) is at
    /// most 70.
    pub fn evaluate_opportunity(
        id: u64,
        volatility: u32,
        liquidity_depth: u32,
        time_variance: u32,
        counterparty_risk: u32,
    ) -> (r: bool)
        requires
            volatility * 25 <= u32::MAX,
            liquidity_depth * 25 <= u32::MAX,
            time_variance * 25 <= u32::MAX,
            counterparty_risk * 25 <= u32::MAX,
            risk_score(volatility, liquidity_depth, time_variance, counterparty_risk) <= u32::MAX,
        ensures
            r == (risk_score(volatility, liquidity_depth, time_variance, counterparty_risk) <= 70),
    {
        let vol_score = (volatility * 25) / 100;
        let liq_score = (liquidity_depth * 25) / 100;
        let time_score = (time_variance * 25) / 100;
        let cp_score = (counterparty_risk * 25) / 100;
        let aggregate = vol_score + liq_score + time_score + cp_score;
        aggregate <= 70
    }

    /// Check new parameters: the minimum deviation 1 to 1000 basis points, the
    /// maximum above it and at most 5000.
    pub fn validate_params(new_params: &ArbitrageParams) -> (r: Result<(), String>)
        ensures
            (new_params.min_deviation_bps == 0 || new_params.min_deviation_bps > 1000) ==> (r matches Err(e) && e@
                == "Invalid minimum deviation"@),
            0 < new_params.min_deviation_bps <= 1000 && (new_params.max_deviation_bps <= new_params.min_deviation_bps
                || new_params.max_deviation_bps > 5000) ==> (r matches Err(e) && e@ == "Invalid maximum deviation"@),
            r is Ok <==> (0 < new_params.min_deviation_bps <= 1000 && new_params.min_deviation_bps
                < new_params.max_deviation_bps <= 5000),
    {
        if new_params.min_deviation_bps == 0 || new_params.min_deviation_bps > 1000 {
            proof {
                reveal_strlit("Invalid minimum deviation");
            }
            return Err(String::from_str("Invalid minimum deviation"));
        }
        if new_params.max_deviation_bps <= new_params.min_deviation_bps || new_params.max_deviation_bps > 5000 {
            proof {
                reveal_strlit("Invalid maximum deviation");
            }
            return Err(String::from_str("Invalid maximum deviation"));
        }
        Ok(())
    }

    /// Check that a route to register has 3 to 5 hops.
    pub fn validate_route(route: &ArbitrageRoute) -> (r: Result<(), String>)
        ensures
            (route.hops@.len() < 3 || route.hops@.len() > 5) ==> (r matches Err(e) && e@
                == "Route must contain between 3 and 5 hops"@),
            3 <= route.hops@.len() <= 5 ==> r is Ok,
    {
        if route.hops.len() < 3 || route.hops.len() > 5 {
            proof {
                reveal_strlit("Route must contain between 3 and 5 hops");
            }
            return Err(String::from_str("Route must contain between 3 and 5 hops"));
        }
        Ok(())
    }

    /// The best of the registered routes: the first with the highest positive net
    /// profit, if any is profitable.
    pub fn best_route(routes: &Vec<ArbitrageRoute>) -> (r: Option<&ArbitrageRoute>)
        ensures
            match best_route_index(routes@) {
                Some(i) => r == Some(&routes@[i]),
                None => r is None,
            },
    {
        let mut best: Option<usize> = None;
        let mut i: usize = 0;
        while i < routes.len()
            invariant
                i <= routes@.len(),
                match best_route_index(routes@.take(i as int)) {
                    Some(j) => best == Some(j as usize) && 0 <= j < i,
                    None => best is None,
                },
            decreases routes@.len() - i,
        {
            proof {
                assert(routes@.take(i + 1).drop_last() =~= routes@.take(i as int));
                lemma_best_route_in_range(routes@.take(i as int));
            }
            let better = match best {
                Some(j) => routes[i].net_profit > routes[j].net_profit,
                None => true,
            };
            if routes[i].net_profit > 0 && better {
                best = Some(i);
            }
            i = i + 1;
        }
        proof {
            assert(routes@.take(routes@.len() as int) =~= routes@);
        }
        match best {
            Some(j) => Some(&routes[j]),
            None => None,
        }
    }

    /// Plan an atomic flash bundle: borrow `loan_amount` (fee 0.09%), run it
    /// through at least two swaps, each taking its pool fee and having to yield
    /// its minimum output, and repay; the profit must reach `min_profit`.
    pub fn plan_flash_bundle(
        mev_config: &MEVConfig,
        loan_amount: u64,
        hops: &Vec<FlashBundleHop>,
        min_profit: i128,
    ) -> (r: Result<FlashBundlePlan, String>)
        requires
            loan_amount * 9 <= u64::MAX,
            loan_amount + loan_amount * 9 / 10_000 <= u64::MAX,
            forall|i: int| 0 <= i < hops@.len() ==> loan_amount * (#[trigger] hops@[i]).fee_bps <= u64::MAX,
            mev_config.gas_per_hop * hops@.len() <= u64::MAX,
        ensures
            hops@.len() < 2 ==> (r matches Err(e) && e@ == "Flash bundle requires at least 2 hops"@),
            hops@.len() >= 2 ==> match bundle_walk(loan_amount, hops@) {
                None => (r matches Err(e) && e@ == "Hop slippage exceeded minimum output"@),
                Some(left) => {
                    let profit = left - (loan_amount + loan_amount * 9 / 10_000);
                    &&& profit < min_profit ==> (r matches Err(e) && e@ == "Bundle profit below minimum"@)
                    &&& profit >= min_profit ==> r == Ok::<FlashBundlePlan, String>(
                        FlashBundlePlan {
                            loan_fee: (loan_amount * 9 / 10_000) as u64,
                            expected_profit: profit as i128,
                            max_gas_cost: (mev_config.gas_per_hop * hops@.len()) as u64,
                        },
                    )
                },
            },
    {
        proof {
            reveal_strlit("Flash bundle requires at least 2 hops");
            reveal_strlit("Hop slippage exceeded minimum output");
            reveal_strlit("Bundle profit below minimum");
        }
        if hops.len() < 2 {
            return Err(String::from_str("Flash bundle requires at least 2 hops"));
        }
        let loan_fee = (loan_amount * 9) / 10000;
        let total_repayment = loan_amount + loan_fee;
        let mut current_amount = loan_amount;
        let mut total_gas_cost: u64 = 0;
        let mut k: usize = 0;
        proof {
            assert(hops@.subrange(0, hops@.len() as int) =~= hops@);
        }
        while k < hops.len()
            invariant
                2 <= hops@.len(),
                k <= hops@.len(),
                current_amount <= loan_amount,
                total_gas_cost == mev_config.gas_per_hop * k,
                mev_config.gas_per_hop * hops@.len() <= u64::MAX,
                forall|i: int| 0 <= i < hops@.len() ==> loan_amount * (#[trigger] hops@[i]).fee_bps <= u64::MAX,
                bundle_walk(loan_amount, hops@) == bundle_walk(current_amount, hops@.subrange(k as int, hops@.len() as int)),
            decreases hops@.len() - k,
        {
            let fee_bps = hops[k].fee_bps;
            proof {
                assert(current_amount * fee_bps <= loan_amount * hops@[k as int].fee_bps) by (nonlinear_arith)
                    requires
                        current_amount <= loan_amount,
                        fee_bps == hops@[k as int].fee_bps,
                ;
                assert(mev_config.gas_per_hop * (k + 1) <= mev_config.gas_per_hop * hops@.len()) by (nonlinear_arith)
                    requires
                        k + 1 <= hops@.len(),
                ;
                assert(hops@.subrange(k as int, hops@.len() as int).drop_first() =~= hops@.subrange(
                    k + 1,
                    hops@.len() as int,
                ));
                assert(hops@.subrange(k as int, hops@.len() as int)[0] == hops@[k as int]);
                assert(mev_config.gas_per_hop * k + mev_config.gas_per_hop == mev_config.gas_per_hop * (k + 1))
                    by (nonlinear_arith);
            }
            let pool_fee = (current_amount * fee_bps as u64) / 10000;
            let after_fee = current_amount.saturating_sub(pool_fee);
            if after_fee < hops[k].min_amount_out {
                return Err(String::from_str("Hop slippage exceeded minimum output"));
            }
            current_amount = after_fee;
            total_gas_cost = total_gas_cost + mev_config.gas_per_hop;
            k = k + 1;
        }
        proof {
            assert(hops@.subrange(hops@.len() as int, hops@.len() as int) =~= Seq::<FlashBundleHop>::empty());
        }
        let profit = current_amount as i128 - total_repayment as i128;
        if profit < min_profit {
            return Err(String::from_str("Bundle profit below minimum"));
        }
        Ok(FlashBundlePlan { loan_fee, expected_profit: profit, max_gas_cost: total_gas_cost })
    }
}

} // verus!
