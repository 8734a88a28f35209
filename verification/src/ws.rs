//! Decisions of the live price and arbitrage feeds.

use vstd::prelude::*;
use crate::keyed::{distinct_keys, find_key, lists_values, to_map, upsert, values_of};

verus! {

/// An arbitrage opportunity pushed to subscribers.
#[derive(Debug)]
pub struct ArbitrageOpportunityUpdate {
    pub opportunity_id: u64,
    pub asset_pair: String,
    pub potential_profit: u64,
    pub risk_score: u32,
    pub timestamp: u64,
}

/// Filters of an arbitrage subscription; an absent filter accepts everything.
#[derive(Debug)]
pub struct ArbitrageQuery {
    pub asset_pair: Option<String>,
    pub min_profit: Option<u64>,
    pub max_risk: Option<u32>,
}

/// Whether an opportunity passes every filter of the query.
pub open spec fn arbitrage_matches(u: ArbitrageOpportunityUpdate, q: ArbitrageQuery) -> bool {
    &&& (q.asset_pair matches Some(p) ==> p@ == u.asset_pair@)
    &&& (q.min_profit matches Some(m) ==> u.potential_profit >= m)
    &&& (q.max_risk matches Some(m) ==> u.risk_score <= m)
}

/// Whether an opportunity passes every filter of the query.
pub fn matches_arbitrage(update: &ArbitrageOpportunityUpdate, query: &ArbitrageQuery) -> (r: bool)
    ensures
        r == arbitrage_matches(*update, *query),
{
    let pair_ok = match &query.asset_pair {
        Some(p) => *p == update.asset_pair,
        None => true,
    };
    let profit_ok = match query.min_profit {
        Some(m) => update.potential_profit >= m,
        None => true,
    };
    let risk_ok = match query.max_risk {
        Some(m) => update.risk_score <= m,
        None => true,
    };
    pair_ok && profit_ok && risk_ok
}

/// Whether a connection's API key grants unthrottled updates.
pub fn is_premium_key(api_key: Option<&str>) -> (r: bool)
    ensures
        r == (api_key matches Some(k) && k@ == "premium-api-key"@),
{
    match api_key {
        Some(k) => {
            let key = String::from_str(k);
            let premium = String::from_str("premium-api-key");
            key == premium
        },
        None => false,
    }
}

/// Whether a price update goes out now: always for premium connections, otherwise
/// once the throttle interval has passed since the last push.
pub fn should_push(is_premium: bool, elapsed_ms: u64, throttle_ms: u64) -> (r: bool)
    ensures
        r == (is_premium || elapsed_ms >= throttle_ms),
{
    is_premium || elapsed_ms >= throttle_ms
}

impl Clone for ArbitrageOpportunityUpdate {
    fn clone(&self) -> (r: Self)
        ensures
            r == *self,
    {
        ArbitrageOpportunityUpdate {
            opportunity_id: self.opportunity_id,
            asset_pair: self.asset_pair.clone(),
            potential_profit: self.potential_profit,
            risk_score: self.risk_score,
            timestamp: self.timestamp,
        }
    }
}

/// A price update event for a single asset.
#[derive(Debug)]
pub struct PriceUpdate {
    pub asset: String,
    pub price: u64,
    pub decimals: u32,
    pub timestamp: u64,
}

impl Clone for PriceUpdate {
    fn clone(&self) -> (r: Self)
        ensures
            r == *self,
    {
        PriceUpdate { asset: self.asset.clone(), price: self.price, decimals: self.decimals, timestamp: self.timestamp }
    }
}

/// Most recent updates kept for replay to new arbitrage subscribers.
pub const ARBITRAGE_HISTORY_CAP: usize = 10_000;

/// The last known price of every asset, sent to new price subscribers.
pub struct PriceBroadcaster {
    last_prices: Vec<(String, PriceUpdate)>,
}

impl View for PriceBroadcaster {
    type V = Map<Seq<char>, PriceUpdate>;

    closed spec fn view(&self) -> Map<Seq<char>, PriceUpdate> {
        to_map(self.last_prices@)
    }
}

impl PriceBroadcaster {
    /// One price per asset.
    pub closed spec fn wf(&self) -> bool {
        distinct_keys(self.last_prices@)
    }

    /// No price known yet.
    pub fn new() -> (r: Self)
        ensures
            r.wf(),
            r@ == Map::<Seq<char>, PriceUpdate>::empty(),
    {
        let r = PriceBroadcaster { last_prices: Vec::new() };
        proof {
            assert(to_map(r.last_prices@) =~= Map::<Seq<char>, PriceUpdate>::empty());
        }
        r
    }

    /// Record `update` as the latest price of its asset.
    pub fn push(&mut self, update: PriceUpdate)
        requires
            old(self).wf(),
        ensures
            final(self).wf(),
            final(self)@ == old(self)@.insert(update.asset@, update),
    {
        let asset = update.asset.clone();
        upsert(&mut self.last_prices, asset.as_str(), update);
    }

    /// The latest price of `asset`, if known.
    pub fn latest(&self, asset: &str) -> (r: Option<PriceUpdate>)
        requires
            self.wf(),
        ensures
            self@.dom().contains(asset@) ==> r == Some(self@[asset@]),
            !self@.dom().contains(asset@) ==> r is None,
    {
        match find_key(&self.last_prices, asset) {
            Some(i) => Some(self.last_prices[i].1.clone()),
            None => None,
        }
    }

    /// The latest price of every asset, one per asset.
    pub fn snapshot(&self) -> (r: Vec<&PriceUpdate>)
        requires
            self.wf(),
        ensures
            lists_values(r@.map_values(|x: &PriceUpdate| *x), self@),
    {
        values_of(&self.last_prices)
    }

    /// The latest prices of the subscribed `assets` that are known, in the order
    /// asked (the answer to a subscribe message).
    pub fn subscribed_prices(&self, assets: &Vec<String>) -> (r: Vec<PriceUpdate>)
        requires
            self.wf(),
        ensures
            r@ == known_prices(self@, assets@.map_values(|a: String| a@)),
    {
        let ghost names = assets@.map_values(|a: String| a@);
        let mut out: Vec<PriceUpdate> = Vec::new();
        let mut i: usize = 0;
        while i < assets.len()
            invariant
                i <= assets@.len(),
                self.wf(),
                names == assets@.map_values(|a: String| a@),
                out@ == known_prices(self@, names.take(i as int)),
            decreases assets@.len() - i,
        {
            proof {
                assert(names.take(i + 1).drop_last() =~= names.take(i as int));
                assert(names.take(i + 1).last() == assets@[i as int]@);
            }
            match self.latest(assets[i].as_str()) {
                Some(p) => out.push(p),
                None => {},
            }
            i = i + 1;
        }
        proof {
            assert(names.take(assets@.len() as int) =~= names);
        }
        out
    }
}

/// The known prices of the assets `names`, in order, skipping unknown ones.
pub open spec fn known_prices(m: Map<Seq<char>, PriceUpdate>, names: Seq<Seq<char>>) -> Seq<PriceUpdate>
    decreases names.len(),
{
    if names.len() == 0 {
        Seq::empty()
    } else {
        let prev = known_prices(m, names.drop_last());
        if m.dom().contains(names.last()) {
            prev.push(m[names.last()])
        } else {
            prev
        }
    }
}

/// The history after `u` is appended: at most the last 10 000 updates are kept.
pub open spec fn history_after(h: Seq<ArbitrageOpportunityUpdate>, u: ArbitrageOpportunityUpdate) -> Seq<
    ArbitrageOpportunityUpdate,
> {
    let g = h.push(u);
    if g.len() > ARBITRAGE_HISTORY_CAP {
        g.skip(g.len() - ARBITRAGE_HISTORY_CAP)
    } else {
        g
    }
}

/// The recent arbitrage opportunities, replayed to new subscribers.
pub struct ArbitrageBroadcaster {
    history: Vec<ArbitrageOpportunityUpdate>,
}

impl View for ArbitrageBroadcaster {
    type V = Seq<ArbitrageOpportunityUpdate>;

    closed spec fn view(&self) -> Seq<ArbitrageOpportunityUpdate> {
        self.history@
    }
}

impl ArbitrageBroadcaster {
    /// No history yet.
    pub fn new() -> (r: Self)
        ensures
            r@ == Seq::<ArbitrageOpportunityUpdate>::empty(),
    {
        ArbitrageBroadcaster { history: Vec::new() }
    }

    /// Append `update` to the history, dropping the oldest beyond 10 000.
    pub fn push(&mut self, update: ArbitrageOpportunityUpdate)
        requires
            old(self)@.len() <= ARBITRAGE_HISTORY_CAP,
        ensures
            final(self)@ == history_after(old(self)@, update),
            final(self)@.len() <= ARBITRAGE_HISTORY_CAP,
    {
        self.history.push(update);
        if self.history.len() > ARBITRAGE_HISTORY_CAP {
            let ghost g = self.history@;
            let excess = self.history.len() - ARBITRAGE_HISTORY_CAP;
            let mut kept: Vec<ArbitrageOpportunityUpdate> = Vec::new();
            let mut i: usize = excess;
            while i < self.history.len()
                invariant
                    g == self.history@,
                    excess <= i <= g.len(),
                    kept@ == g.subrange(excess as int, i as int),
                decreases g.len() - i,
            {
                kept.push(self.history[i].clone());
                proof {
                    assert(kept@ =~= g.subrange(excess as int, i + 1));
                }
                i = i + 1;
            }
            self.history = kept;
            proof {
                assert(g.subrange(excess as int, g.len() as int) =~= g.skip(excess as int));
            }
        }
    }

    /// The whole history, oldest first.
    pub fn history(&self) -> (r: Vec<ArbitrageOpportunityUpdate>)
        ensures
            r@ == self@,
    {
        let mut out: Vec<ArbitrageOpportunityUpdate> = Vec::new();
        let mut i: usize = 0;
        while i < self.history.len()
            invariant
                i <= self.history@.len(),
                out@ == self.history@.take(i as int),
            decreases self.history@.len() - i,
        {
            out.push(self.history[i].clone());
            proof {
                assert(out@ =~= self.history@.take(i + 1));
            }
            i = i + 1;
        }
        proof {
            assert(self.history@.take(self.history@.len() as int) =~= self.history@);
        }
        out
    }

    /// The history a new subscriber with `query` is sent: the updates that match
    /// it, oldest first.
    pub fn replay(&self, query: &ArbitrageQuery) -> (r: Vec<ArbitrageOpportunityUpdate>)
        ensures
            r@ == self@.filter(|u: ArbitrageOpportunityUpdate| arbitrage_matches(u, *query)),
    {
        let ghost f = |u: ArbitrageOpportunityUpdate| arbitrage_matches(u, *query);
        let mut out: Vec<ArbitrageOpportunityUpdate> = Vec::new();
        let mut i: usize = 0;
        while i < self.history.len()
            invariant
                i <= self.history@.len(),
                f == (|u: ArbitrageOpportunityUpdate| arbitrage_matches(u, *query)),
                out@ == self.history@.take(i as int).filter(f),
            decreases self.history@.len() - i,
        {
            proof {
                assert(self.history@.take(i + 1).drop_last() =~= self.history@.take(i as int));
                reveal_with_fuel(Seq::<_>::filter, 1);
            }
            if matches_arbitrage(&self.history[i], query) {
                out.push(self.history[i].clone());
            }
            i = i + 1;
        }
        proof {
            assert(self.history@.take(self.history@.len() as int) =~= self.history@);
        }
        out
    }
}

} // verus!
