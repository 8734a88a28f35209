//! Oracle adapters: a registry ordering adapters by priority for discovery and
//! failover, and centralized-exchange price adapters with volume weighting,
//! rate limiting, exponential backoff and health reporting.

use vstd::prelude::*;
use crate::asset::AssetPrice;
use crate::keyed::{distinct_keys, find_key, remove_key, to_map, upsert};
use crate::tokens::{names, remove_name, without};

verus! {

/// Highest adapter priority (lower is tried first).
pub const ADAPTER_PRIORITY_HIGH: u32 = 1;
/// Medium adapter priority.
pub const ADAPTER_PRIORITY_MEDIUM: u32 = 5;
/// Lowest adapter priority.
pub const ADAPTER_PRIORITY_LOW: u32 = 10;

/// Health of an oracle adapter.
#[derive(Clone, Copy, Debug, PartialEq, Eq, Structural)]
pub enum AdapterHealth {
    /// Answering normally.
    Healthy,
    /// Answering with recent errors.
    Degraded,
    /// Not answering.
    Offline,
}

/// Configuration of a centralized exchange price adapter.
#[derive(Debug)]
pub struct CexAdapterConfig {
    /// Exchange name.
    pub exchange_name: String,
    /// Base URL of the exchange's ticker API.
    pub api_base_url: String,
    /// Responses with less volume than this are ignored.
    pub min_volume_threshold: u64,
    /// Minimum time between requests (milliseconds).
    pub rate_limit_ms: u64,
    /// Priority of the adapter (lower is tried first).
    pub priority: u32,
}

/// The Binance adapter configuration.
pub fn binance_config() -> (r: CexAdapterConfig)
    ensures
        r.exchange_name@ == "Binance"@,
        r.api_base_url@ == "https://api.binance.com/api/v3/ticker/24hr"@,
        r.min_volume_threshold == 10_000,
        r.rate_limit_ms == 100,
        r.priority == ADAPTER_PRIORITY_HIGH,
{
    CexAdapterConfig {
        exchange_name: String::from_str("Binance"),
        api_base_url: String::from_str("https://api.binance.com/api/v3/ticker/24hr"),
        min_volume_threshold: 10_000,
        rate_limit_ms: 100,
        priority: ADAPTER_PRIORITY_HIGH,
    }
}

/// The Coinbase adapter configuration.
pub fn coinbase_config() -> (r: CexAdapterConfig)
    ensures
        r.exchange_name@ == "Coinbase"@,
        r.api_base_url@ == "https://api.exchange.coinbase.com/products"@,
        r.min_volume_threshold == 5_000,
        r.rate_limit_ms == 150,
        r.priority == ADAPTER_PRIORITY_MEDIUM,
{
    CexAdapterConfig {
        exchange_name: String::from_str("Coinbase"),
        api_base_url: String::from_str("https://api.exchange.coinbase.com/products"),
        min_volume_threshold: 5_000,
        rate_limit_ms: 150,
        priority: ADAPTER_PRIORITY_MEDIUM,
    }
}

/// The Kraken adapter configuration.
pub fn kraken_config() -> (r: CexAdapterConfig)
    ensures
        r.exchange_name@ == "Kraken"@,
        r.api_base_url@ == "https://api.kraken.com/0/public/Ticker"@,
        r.min_volume_threshold == 3_000,
        r.rate_limit_ms == 200,
        r.priority == ADAPTER_PRIORITY_LOW,
{
    CexAdapterConfig {
        exchange_name: String::from_str("Kraken"),
        api_base_url: String::from_str("https://api.kraken.com/0/public/Ticker"),
        min_volume_threshold: 3_000,
        rate_limit_ms: 200,
        priority: ADAPTER_PRIORITY_LOW,
    }
}

/// Saturating sum of the volumes at or above `min` of `(price, volume)` quotes.
pub open spec fn vwap_volume(s: Seq<(u64, u64)>, min: u64) -> u64
    decreases s.len(),
{
    if s.len() == 0 {
        0
    } else {
        let prev = vwap_volume(s.drop_last(), min);
        if s.last().1 >= min {
            if prev + s.last().1 > u64::MAX { u64::MAX } else { (prev + s.last().1) as u64 }
        } else {
            prev
        }
    }
}

/// Saturating sum of `price * volume` over the quotes with volume at or above `min`.
pub open spec fn vwap_weighted(s: Seq<(u64, u64)>, min: u64) -> u128
    decreases s.len(),
{
    if s.len() == 0 {
        0
    } else {
        let prev = vwap_weighted(s.drop_last(), min);
        if s.last().1 >= min {
            let t = prev + s.last().0 * s.last().1;
            if t > u128::MAX { u128::MAX } else { t as u128 }
        } else {
            prev
        }
    }
}

/// Volume-weighted average price of the quotes with enough volume (none when no
/// quote has enough volume).
pub open spec fn vwap_spec(s: Seq<(u64, u64)>, min: u64) -> Option<u64> {
    if vwap_volume(s, min) == 0 {
        None
    } else {
        Some((vwap_weighted(s, min) / (vwap_volume(s, min) as u128)) as u64)
    }
}

/// Exponential backoff after `errors` consecutive errors: 100 ms doubled per error,
/// capped at 10 s.
pub open spec fn backoff_spec(errors: u32) -> u64 {
    if errors >= 7 {
        10_000
    } else {
        (100 * pow2(errors as nat)) as u64
    }
}

/// Two to the power `e`.
pub open spec fn pow2(e: nat) -> nat
    decreases e,
{
    if e == 0 {
        1
    } else {
        2 * pow2((e - 1) as nat)
    }
}

/// Health that a number of consecutive errors indicates.
pub open spec fn health_of_errors(errors: u32) -> AdapterHealth {
    if errors >= 5 {
        AdapterHealth::Offline
    } else if errors > 0 {
        AdapterHealth::Degraded
    } else {
        AdapterHealth::Healthy
    }
}

/// Centralized exchange price adapter.
pub struct CexPriceAdapter {
    /// Exchange configuration.
    pub config: CexAdapterConfig,
    /// Time of the last request (milliseconds).
    pub last_request_time: u64,
    /// Last price received.
    pub last_price: Option<AssetPrice>,
    /// Errors since the last success.
    pub consecutive_errors: u32,
}

impl CexPriceAdapter {
    /// A fresh adapter for the given exchange.
    pub fn new(config: CexAdapterConfig) -> (r: Self)
        ensures
            r.config == config,
            r.last_request_time == 0,
            r.last_price is None,
            r.consecutive_errors == 0,
    {
        CexPriceAdapter { config, last_request_time: 0, last_price: None, consecutive_errors: 0 }
    }

    /// Volume-weighted average of `(price, volume)` quotes, ignoring quotes below the
    /// minimum volume; `None` when no quote is left.
    pub fn compute_vwap(&self, prices: Vec<(u64, u64)>) -> (r: Option<u64>)
        ensures
            r == vwap_spec(prices@, self.config.min_volume_threshold),
    {
        let min = self.config.min_volume_threshold;
        let mut total_volume: u64 = 0;
        let mut weighted_sum: u128 = 0;
        let mut i: usize = 0;
        while i < prices.len()
            invariant
                i <= prices@.len(),
                min == self.config.min_volume_threshold,
                total_volume == vwap_volume(prices@.take(i as int), min),
                weighted_sum == vwap_weighted(prices@.take(i as int), min),
            decreases prices@.len() - i,
        {
            let (price, volume) = prices[i];
            proof {
                assert(prices@.take(i + 1).drop_last() =~= prices@.take(i as int));
                assert((price as int) * (volume as int) <= u128::MAX) by (nonlinear_arith)
                    requires price <= u64::MAX, volume <= u64::MAX;
            }
            if volume >= min {
                total_volume = total_volume.saturating_add(volume);
                weighted_sum = weighted_sum.saturating_add((price as u128) * (volume as u128));
            }
            i = i + 1;
        }
        proof {
            assert(prices@.take(prices@.len() as int) =~= prices@);
        }
        if total_volume == 0 {
            return None;
        }
        let q: u128 = weighted_sum / (total_volume as u128);
        #[verifier::truncate]
        let avg: u64 = q as u64;
        Some(avg)
    }

    /// Whether a request at `current_time` comes too soon after the last one.
    pub fn should_throttle(&self, current_time: u64) -> (r: bool)
        ensures
            r == (current_time < self.last_request_time + self.config.rate_limit_ms),
    {
        (current_time as u128) < (self.last_request_time as u128) + (self.config.rate_limit_ms as u128)
    }

    /// Delay before the next request: 100 ms doubled per consecutive error, capped
    /// at 10 s.
    pub fn backoff_delay(&self) -> (r: u64)
        ensures
            r == backoff_spec(self.consecutive_errors),
    {
        proof {
            reveal_with_fuel(pow2, 8);
        }
        let e = self.consecutive_errors;
        if e >= 7 {
            10_000
        } else if e == 6 {
            6_400
        } else if e == 5 {
            3_200
        } else if e == 4 {
            1_600
        } else if e == 3 {
            800
        } else if e == 2 {
            400
        } else if e == 1 {
            200
        } else {
            100
        }
    }

    /// Record a successful request at `timestamp`.
    pub fn record_success(&mut self, timestamp: u64, price: AssetPrice)
        ensures
            final(self).config == old(self).config,
            final(self).last_request_time == timestamp,
            final(self).last_price == Some(price),
            final(self).consecutive_errors == 0,
    {
        self.last_request_time = timestamp;
        self.last_price = Some(price);
        self.consecutive_errors = 0;
    }

    /// Record a failed request at `timestamp`.
    pub fn record_error(&mut self, timestamp: u64)
        ensures
            final(self).config == old(self).config,
            final(self).last_request_time == timestamp,
            final(self).last_price == old(self).last_price,
            final(self).consecutive_errors == if old(self).consecutive_errors == u32::MAX {
                u32::MAX
            } else {
                (old(self).consecutive_errors + 1) as u32
            },
    {
        self.last_request_time = timestamp;
        self.consecutive_errors = self.consecutive_errors.saturating_add(1);
    }

    /// The last price received (also what the adapter reports as its average).
    pub fn get_price(&self) -> (r: Option<AssetPrice>)
        ensures
            r == self.last_price,
    {
        self.last_price
    }

    /// Whether the last price is more than `max_age_ledgers` older than
    /// `current_ledger` (always stale without a price).
    pub fn is_stale(&self, current_ledger: u64, max_age_ledgers: u32) -> (r: bool)
        ensures
            r == match self.last_price {
                Some(p) => current_ledger - p.timestamp > max_age_ledgers,
                None => true,
            },
    {
        match self.last_price {
            Some(p) => current_ledger.saturating_sub(p.timestamp) > max_age_ledgers as u64,
            None => true,
        }
    }

    /// Name of the exchange.
    pub fn name(&self) -> (r: &str)
        ensures
            r@ == self.config.exchange_name@,
    {
        self.config.exchange_name.as_str()
    }

    /// Health from the count of consecutive errors: offline from 5 on, degraded
    /// after any error, healthy otherwise.
    pub fn health_check(&self) -> (r: AdapterHealth)
        ensures
            r == health_of_errors(self.consecutive_errors),
    {
        if self.consecutive_errors >= 5 {
            AdapterHealth::Offline
        } else if self.consecutive_errors > 0 {
            AdapterHealth::Degraded
        } else {
            AdapterHealth::Healthy
        }
    }
}

/// The price of the first adapter of `s` that is not offline and has a price.
pub open spec fn best_price(s: Seq<CexPriceAdapter>) -> Option<AssetPrice>
    decreases s.len(),
{
    if s.len() == 0 {
        None
    } else if health_of_errors(s[0].consecutive_errors) != AdapterHealth::Offline && s[0].last_price is Some {
        s[0].last_price
    } else {
        best_price(s.drop_first())
    }
}

/// Combines the prices of several exchange adapters.
pub struct MultiExchangeAggregator {
    /// Adapters in priority order.
    pub adapters: Vec<CexPriceAdapter>,
}

impl MultiExchangeAggregator {
    /// An aggregator without adapters.
    pub fn new() -> (r: Self)
        ensures
            r.adapters@.len() == 0,
    {
        MultiExchangeAggregator { adapters: Vec::new() }
    }

    /// An aggregator over Binance, Coinbase and Kraken, in that order.
    pub fn with_defaults() -> (r: Self)
        ensures
            r.adapters@.len() == 3,
            r.adapters@[0].config.exchange_name@ == "Binance"@,
            r.adapters@[1].config.exchange_name@ == "Coinbase"@,
            r.adapters@[2].config.exchange_name@ == "Kraken"@,
            forall|i: int| 0 <= i < 3 ==> r.adapters@[i].consecutive_errors == 0 && r.adapters@[i].last_price is None,
    {
        let mut adapters: Vec<CexPriceAdapter> = Vec::new();
        adapters.push(CexPriceAdapter::new(binance_config()));
        adapters.push(CexPriceAdapter::new(coinbase_config()));
        adapters.push(CexPriceAdapter::new(kraken_config()));
        MultiExchangeAggregator { adapters }
    }

    /// The price of the first adapter, in order, that is not offline and has one.
    pub fn get_best_price(&self) -> (r: Option<AssetPrice>)
        ensures
            r == best_price(self.adapters@),
    {
        proof {
            assert(self.adapters@.skip(0) =~= self.adapters@);
        }
        let mut i: usize = 0;
        while i < self.adapters.len()
            invariant
                i <= self.adapters@.len(),
                best_price(self.adapters@) == best_price(self.adapters@.skip(i as int)),
            decreases self.adapters@.len() - i,
        {
            proof {
                assert(self.adapters@.skip(i as int).drop_first() =~= self.adapters@.skip(i + 1));
            }
            let a = &self.adapters[i];
            if a.health_check() != AdapterHealth::Offline {
                match a.get_price() {
                    Some(p) => return Some(p),
                    None => {},
                }
            }
            i = i + 1;
        }
        None
    }
}

// ─── Adapter registry ────────────────────────────────────────────────────────

/// An adapter known to the registry.
#[derive(Debug, PartialEq, Eq)]
pub struct RegisteredAdapter {
    pub id: String,
    pub name: String,
    /// Lower is tried first.
    pub priority: u32,
    pub is_active: bool,
    pub health: AdapterHealth,
    pub last_price_timestamp: u64,
    /// Times the adapter stopped being healthy.
    pub failover_count: u32,
}

impl Clone for RegisteredAdapter {
    fn clone(&self) -> (r: Self)
        ensures
            r == *self,
    {
        RegisteredAdapter {
            id: self.id.clone(),
            name: self.name.clone(),
            priority: self.priority,
            is_active: self.is_active,
            health: self.health,
            last_price_timestamp: self.last_price_timestamp,
            failover_count: self.failover_count,
        }
    }
}

/// Mathematical model of the registry.
pub struct RegistryModel {
    pub adapters: Map<Seq<char>, RegisteredAdapter>,
    /// Adapter identifiers in the order they are tried.
    pub priority_order: Seq<Seq<char>>,
}

/// Registry of oracle adapters, ordered by priority for failover.
pub struct AdapterRegistry {
    adapters: Vec<(String, RegisteredAdapter)>,
    priority_order: Vec<String>,
}

impl View for AdapterRegistry {
    type V = RegistryModel;

    closed spec fn view(&self) -> RegistryModel {
        RegistryModel { adapters: to_map(self.adapters@), priority_order: names(self.priority_order@) }
    }
}

/// Position at which an adapter of priority `p` enters `order`: before the
/// first listed adapter of a higher priority number, else at the end.
pub open spec fn insertion_point(order: Seq<Seq<char>>, m: Map<Seq<char>, RegisteredAdapter>, p: u32) -> int
    decreases order.len(),
{
    if order.len() == 0 {
        0
    } else if m.dom().contains(order[0]) && m[order[0]].priority > p {
        0
    } else {
        1 + insertion_point(order.drop_first(), m, p)
    }
}

proof fn lemma_insertion_point(order: Seq<Seq<char>>, m: Map<Seq<char>, RegisteredAdapter>, p: u32)
    ensures
        0 <= insertion_point(order, m, p) <= order.len(),
        forall|j: int| 0 <= j < insertion_point(order, m, p) ==> !(m.dom().contains(#[trigger] order[j]) && m[order[j]].priority > p),
        insertion_point(order, m, p) < order.len() ==> m.dom().contains(order[insertion_point(order, m, p)])
            && m[order[insertion_point(order, m, p)]].priority > p,
    decreases order.len(),
{
    if order.len() > 0 {
        let rest = order.drop_first();
        lemma_insertion_point(rest, m, p);
        assert forall|j: int| 0 <= j < insertion_point(order, m, p) implies !(m.dom().contains(
            #[trigger] order[j],
        ) && m[order[j]].priority > p) by {
            if j > 0 {
                assert(rest[j - 1] == order[j]);
            }
        }
        if insertion_point(order, m, p) > 0 && insertion_point(order, m, p) < order.len() {
            assert(rest[insertion_point(order, m, p) - 1] == order[insertion_point(order, m, p)]);
        }
    }
}

/// Whether adapter `a` can serve: active and not offline.
pub open spec fn usable(a: RegisteredAdapter) -> bool {
    a.is_active && a.health != AdapterHealth::Offline
}

/// Index in `order` of the first usable registered adapter.
pub open spec fn first_usable(order: Seq<Seq<char>>, m: Map<Seq<char>, RegisteredAdapter>) -> Option<int>
    decreases order.len(),
{
    if order.len() == 0 {
        None
    } else if m.dom().contains(order[0]) && usable(m[order[0]]) {
        Some(0)
    } else {
        match first_usable(order.drop_first(), m) {
            Some(i) => Some(i + 1),
            None => None,
        }
    }
}

proof fn lemma_first_usable(order: Seq<Seq<char>>, m: Map<Seq<char>, RegisteredAdapter>)
    ensures
        match first_usable(order, m) {
            Some(i) => 0 <= i < order.len() && m.dom().contains(order[i]) && usable(m[order[i]]) && forall|j: int|
                0 <= j < i ==> !(m.dom().contains(#[trigger] order[j]) && usable(m[order[j]])),
            None => forall|j: int| 0 <= j < order.len() ==> !(m.dom().contains(#[trigger] order[j]) && usable(m[order[j]])),
        },
    decreases order.len(),
{
    if order.len() > 0 {
        let rest = order.drop_first();
        lemma_first_usable(rest, m);
        match first_usable(order, m) {
            Some(i) => {
                if i > 0 {
                    assert(rest[i - 1] == order[i]);
                }
                assert forall|j: int| 0 <= j < i implies !(m.dom().contains(#[trigger] order[j]) && usable(
                    m[order[j]],
                )) by {
                    if j > 0 {
                        assert(rest[j - 1] == order[j]);
                    }
                }
            },
            None => {
                assert forall|j: int| 0 <= j < order.len() implies !(m.dom().contains(#[trigger] order[j]) && usable(
                    m[order[j]],
                )) by {
                    if j > 0 {
                        assert(rest[j - 1] == order[j]);
                    }
                }
            },
        }
    }
}

impl AdapterRegistry {
    /// One entry per identifier.
    pub closed spec fn wf(&self) -> bool {
        distinct_keys(self.adapters@)
    }

    /// An empty registry.
    pub fn new() -> (r: Self)
        ensures
            r.wf(),
            r@.adapters == Map::<Seq<char>, RegisteredAdapter>::empty(),
            r@.priority_order == Seq::<Seq<char>>::empty(),
    {
        let r = AdapterRegistry { adapters: Vec::new(), priority_order: Vec::new() };
        proof {
            assert(to_map(r.adapters@) =~= Map::<Seq<char>, RegisteredAdapter>::empty());
            assert(names(r.priority_order@) =~= Seq::<Seq<char>>::empty());
        }
        r
    }

    /// Register (or replace) an adapter and list its identifier before the first
    /// listed adapter of a higher priority number, else last.  A replaced
    /// adapter's identifier is listed once more.
    pub fn register(&mut self, adapter: RegisteredAdapter)
        requires
            old(self).wf(),
        ensures
            final(self).wf(),
            ({
                let m = old(self)@.adapters.insert(adapter.id@, adapter);
                let k = insertion_point(old(self)@.priority_order, m, adapter.priority);
                &&& final(self)@.adapters == m
                &&& final(self)@.priority_order == old(self)@.priority_order.take(k).push(adapter.id@)
                    + old(self)@.priority_order.skip(k)
            }),
    {
        let id = adapter.id.clone();
        let priority = adapter.priority;
        upsert(&mut self.adapters, id.as_str(), adapter);
        let ghost m = self@.adapters;
        let ghost order = self@.priority_order;
        proof {
            lemma_insertion_point(order, m, priority);
        }
        let mut k: usize = 0;
        let mut done = false;
        while !done && k < self.priority_order.len()
            invariant
                self.wf(),
                m == self@.adapters,
                order == self@.priority_order,
                k <= order.len(),
                k <= insertion_point(order, m, priority),
                done ==> k < order.len() && m.dom().contains(order[k as int]) && m[order[k as int]].priority > priority,
                forall|j: int| 0 <= j < insertion_point(order, m, priority) ==> !(m.dom().contains(#[trigger] order[j])
                    && m[order[j]].priority > priority),
                insertion_point(order, m, priority) < order.len() ==> m.dom().contains(
                    order[insertion_point(order, m, priority)],
                ) && m[order[insertion_point(order, m, priority)]].priority > priority,
                insertion_point(order, m, priority) <= order.len(),
            decreases order.len() - k + (if done { 0int } else { 1int }),
        {
            let higher = match find_key(&self.adapters, self.priority_order[k].as_str()) {
                Some(i) => self.adapters[i].1.priority > priority,
                None => false,
            };
            proof {
                assert(order[k as int] == self.priority_order@[k as int]@);
            }
            if higher {
                done = true;
            } else {
                k = k + 1;
            }
        }
        let mut new_order: Vec<String> = Vec::new();
        let mut j: usize = 0;
        while j < k
            invariant
                j <= k <= self.priority_order@.len(),
                names(new_order@) == names(self.priority_order@).take(j as int),
            decreases k - j,
        {
            let ghost before = new_order@;
            new_order.push(self.priority_order[j].clone());
            proof {
                assert(names(new_order@) =~= names(before).push(self.priority_order@[j as int]@));
                assert(names(new_order@) =~= names(self.priority_order@).take(j + 1));
            }
            j = j + 1;
        }
        new_order.push(id);
        let mut j: usize = k;
        while j < self.priority_order.len()
            invariant
                k <= j <= self.priority_order@.len(),
                names(new_order@) == names(self.priority_order@).take(k as int).push(id@) + names(
                    self.priority_order@,
                ).subrange(k as int, j as int),
            decreases self.priority_order@.len() - j,
        {
            let ghost before = new_order@;
            new_order.push(self.priority_order[j].clone());
            proof {
                assert(names(new_order@) =~= names(before).push(self.priority_order@[j as int]@));
                assert(names(new_order@) =~= names(self.priority_order@).take(k as int).push(id@) + names(
                    self.priority_order@,
                ).subrange(k as int, j + 1));
            }
            j = j + 1;
        }
        proof {
            assert(k == insertion_point(order, m, priority));
            assert(names(self.priority_order@).subrange(k as int, self.priority_order@.len() as int) =~= order.skip(
                k as int,
            ));
        }
        self.priority_order = new_order;
    }

    /// Remove an adapter and every listing of it.
    pub fn unregister(&mut self, id: &str)
        requires
            old(self).wf(),
        ensures
            final(self).wf(),
            final(self)@.adapters == old(self)@.adapters.remove(id@),
            final(self)@.priority_order == without(old(self)@.priority_order, id@),
    {
        remove_key(&mut self.adapters, id);
        let (kept, _found) = remove_name(&self.priority_order, id);
        self.priority_order = kept;
    }

    /// The adapter identifiers in the order they are tried.
    pub fn get_ordered_adapters(&self) -> (r: Vec<String>)
        ensures
            names(r@) == self@.priority_order,
    {
        let mut out: Vec<String> = Vec::new();
        let mut i: usize = 0;
        while i < self.priority_order.len()
            invariant
                i <= self.priority_order@.len(),
                names(out@) == names(self.priority_order@).take(i as int),
            decreases self.priority_order@.len() - i,
        {
            let ghost before = out@;
            out.push(self.priority_order[i].clone());
            proof {
                assert(names(out@) =~= names(before).push(self.priority_order@[i as int]@));
                assert(names(out@) =~= names(self.priority_order@).take(i + 1));
            }
            i = i + 1;
        }
        proof {
            assert(names(self.priority_order@).take(self.priority_order@.len() as int) =~= names(self.priority_order@));
        }
        out
    }

    /// The first listed adapter that is registered, active and not offline.
    pub fn find_healthy(&self) -> (r: Option<String>)
        requires
            self.wf(),
        ensures
            match first_usable(self@.priority_order, self@.adapters) {
                Some(i) => r matches Some(id) && id@ == self@.priority_order[i],
                None => r is None,
            },
    {
        proof {
            lemma_first_usable(self@.priority_order, self@.adapters);
        }
        let mut i: usize = 0;
        while i < self.priority_order.len()
            invariant
                self.wf(),
                i <= self.priority_order@.len(),
                forall|j: int| 0 <= j < i ==> !(self@.adapters.dom().contains(#[trigger] self@.priority_order[j])
                    && usable(self@.adapters[self@.priority_order[j]])),
                match first_usable(self@.priority_order, self@.adapters) {
                    Some(f) => 0 <= f < self@.priority_order.len() && self@.adapters.dom().contains(
                        self@.priority_order[f],
                    ) && usable(self@.adapters[self@.priority_order[f]]) && forall|j: int| 0 <= j < f
                        ==> !(self@.adapters.dom().contains(#[trigger] self@.priority_order[j]) && usable(
                        self@.adapters[self@.priority_order[j]],
                    )),
                    None => forall|j: int| 0 <= j < self@.priority_order.len() ==> !(self@.adapters.dom().contains(
                        #[trigger] self@.priority_order[j],
                    ) && usable(self@.adapters[self@.priority_order[j]])),
                },
            decreases self.priority_order@.len() - i,
        {
            proof {
                assert(self@.priority_order[i as int] == self.priority_order@[i as int]@);
            }
            match find_key(&self.adapters, self.priority_order[i].as_str()) {
                Some(k) => {
                    let a = &self.adapters[k].1;
                    if a.is_active && a.health != AdapterHealth::Offline {
                        return Some(self.priority_order[i].clone());
                    }
                },
                None => {},
            }
            i = i + 1;
        }
        None
    }

    /// Set an adapter's health; leaving the healthy state counts a failover.
    pub fn update_health(&mut self, id: &str, health: AdapterHealth)
        requires
            old(self).wf(),
            old(self)@.adapters.dom().contains(id@) ==> old(self)@.adapters[id@].failover_count < u32::MAX,
        ensures
            final(self).wf(),
            final(self)@.priority_order == old(self)@.priority_order,
            !old(self)@.adapters.dom().contains(id@) ==> final(self)@.adapters == old(self)@.adapters,
            old(self)@.adapters.dom().contains(id@) ==> ({
                let a = old(self)@.adapters[id@];
                final(self)@.adapters == old(self)@.adapters.insert(
                    id@,
                    RegisteredAdapter {
                        health,
                        failover_count: if a.health == AdapterHealth::Healthy && health != AdapterHealth::Healthy {
                            (a.failover_count + 1) as u32
                        } else {
                            a.failover_count
                        },
                        ..a
                    },
                )
            }),
    {
        match find_key(&self.adapters, id) {
            Some(i) => {
                let mut a = self.adapters[i].1.clone();
                let was_healthy = a.health == AdapterHealth::Healthy;
                a.health = health;
                if was_healthy && health != AdapterHealth::Healthy {
                    a.failover_count = a.failover_count + 1;
                }
                upsert(&mut self.adapters, id, a);
            },
            None => {},
        }
    }
}

} // verus!
