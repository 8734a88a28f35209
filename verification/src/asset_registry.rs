//! The asset registry contract: registered assets with their metadata, price
//! feed configuration, current price and a bounded price history; approved and
//! registered price sources; a whitelist; cross-chain asset links; and update
//! statistics per asset.
//!
//! Only the contract itself (`contract_address`) administers the registry.
//! Ledger time is passed in as `now`.  A refused call reports the reason and
//! leaves the registry unchanged.

use vstd::prelude::*;
use crate::feed_adapters::{copy_categories, AssetCategory, PriceSourceType};
use crate::governance::clone_strings;
use crate::keyed::{distinct_keys, find_key, remove_key, to_map, upsert};
use crate::manager_contract::AggregationMethod;
use crate::multi_asset_oracle::FeedPrice;

verus! {

/// Most assets registered.
pub const MAX_ASSETS: usize = 1000;
/// Most approved sources per asset.
pub const MAX_SOURCES_PER_ASSET: usize = 10;
/// Most past prices kept per asset.
pub const MAX_PRICE_HISTORY: usize = 100;
/// Shortest time between price updates of a new asset (seconds).
pub const DEFAULT_MIN_UPDATE_INTERVAL: u64 = 300;
/// Largest price deviation of a new asset (basis points).
pub const DEFAULT_MAX_DEVIATION: u32 = 500;
/// Lowest confidence of a new asset (basis points).
pub const DEFAULT_MIN_CONFIDENCE: u32 = 7000;

/// Descriptive data of an asset.
#[derive(Debug, PartialEq, Eq)]
pub struct AssetMetadata {
    pub asset_id: String,
    pub symbol: String,
    pub name: String,
    pub category: AssetCategory,
    pub decimals: u32,
    pub active: bool,
    pub min_update_interval: u64,
    pub max_price_deviation: u32,
    pub min_confidence: u32,
    pub approved_sources: Vec<String>,
    pub registered_at: u64,
    pub last_price_update: u64,
    pub custom_metadata: Vec<(String, String)>,
}

/// Metadata as a mathematical value.
pub struct MetadataRecord {
    pub asset_id: String,
    pub symbol: String,
    pub name: String,
    pub category: AssetCategory,
    pub decimals: u32,
    pub active: bool,
    pub min_update_interval: u64,
    pub max_price_deviation: u32,
    pub min_confidence: u32,
    pub approved_sources: Seq<String>,
    pub registered_at: u64,
    pub last_price_update: u64,
    pub custom_metadata: Seq<(String, String)>,
}

/// The model of metadata.
pub open spec fn metadata_record(m: AssetMetadata) -> MetadataRecord {
    MetadataRecord {
        asset_id: m.asset_id,
        symbol: m.symbol,
        name: m.name,
        category: m.category,
        decimals: m.decimals,
        active: m.active,
        min_update_interval: m.min_update_interval,
        max_price_deviation: m.max_price_deviation,
        min_confidence: m.min_confidence,
        approved_sources: m.approved_sources@,
        registered_at: m.registered_at,
        last_price_update: m.last_price_update,
        custom_metadata: m.custom_metadata@,
    }
}

/// A copy of a list of pairs of strings.
fn copy_pairs(v: &Vec<(String, String)>) -> (r: Vec<(String, String)>)
    ensures
        r@ == v@,
{
    let mut out: Vec<(String, String)> = Vec::new();
    let mut i: usize = 0;
    while i < v.len()
        invariant
            i <= v@.len(),
            out@ == v@.take(i as int),
        decreases v@.len() - i,
    {
        out.push((v[i].0.clone(), v[i].1.clone()));
        proof {
            assert(out@ =~= v@.take(i + 1));
        }
        i = i + 1;
    }
    proof {
        assert(out@ =~= v@);
    }
    out
}

/// A copy of a list of prices.
fn copy_prices(v: &Vec<FeedPrice>) -> (r: Vec<FeedPrice>)
    ensures
        r@ == v@,
{
    let mut out: Vec<FeedPrice> = Vec::new();
    let mut i: usize = 0;
    while i < v.len()
        invariant
            i <= v@.len(),
            out@ == v@.take(i as int),
        decreases v@.len() - i,
    {
        out.push(v[i].clone());
        proof {
            assert(out@ =~= v@.take(i + 1));
        }
        i = i + 1;
    }
    proof {
        assert(out@ =~= v@);
    }
    out
}

impl Clone for AssetMetadata {
    fn clone(&self) -> (r: Self)
        ensures
            metadata_record(r) == metadata_record(*self),
    {
        AssetMetadata {
            asset_id: self.asset_id.clone(),
            symbol: self.symbol.clone(),
            name: self.name.clone(),
            category: self.category,
            decimals: self.decimals,
            active: self.active,
            min_update_interval: self.min_update_interval,
            max_price_deviation: self.max_price_deviation,
            min_confidence: self.min_confidence,
            approved_sources: clone_strings(&self.approved_sources),
            registered_at: self.registered_at,
            last_price_update: self.last_price_update,
            custom_metadata: copy_pairs(&self.custom_metadata),
        }
    }
}

/// How an asset's price feed is aggregated.
#[derive(Debug, PartialEq, Eq)]
pub struct PriceFeedConfig {
    pub asset_id: String,
    pub aggregation_method: AggregationMethod,
    pub min_sources: u32,
    pub max_price_age: u64,
    pub circuit_breaker_threshold: u32,
    pub use_twap: bool,
    pub twap_period: u64,
    pub heartbeat_interval: u64,
}

impl Clone for PriceFeedConfig {
    fn clone(&self) -> (r: Self)
        ensures
            r == *self,
    {
        PriceFeedConfig {
            asset_id: self.asset_id.clone(),
            aggregation_method: self.aggregation_method,
            min_sources: self.min_sources,
            max_price_age: self.max_price_age,
            circuit_breaker_threshold: self.circuit_breaker_threshold,
            use_twap: self.use_twap,
            twap_period: self.twap_period,
            heartbeat_interval: self.heartbeat_interval,
        }
    }
}

/// Everything the registry holds about an asset.
#[derive(Debug, PartialEq, Eq)]
pub struct AssetRegistryEntry {
    pub metadata: AssetMetadata,
    pub price_config: PriceFeedConfig,
    pub current_price: Option<FeedPrice>,
    /// Past prices, oldest first.
    pub price_history: Vec<FeedPrice>,
}

/// An entry as a mathematical value.
pub struct EntryRecord {
    pub metadata: MetadataRecord,
    pub price_config: PriceFeedConfig,
    pub current_price: Option<FeedPrice>,
    pub price_history: Seq<FeedPrice>,
}

/// The model of an entry.
pub open spec fn entry_record(e: AssetRegistryEntry) -> EntryRecord {
    EntryRecord {
        metadata: metadata_record(e.metadata),
        price_config: e.price_config,
        current_price: e.current_price,
        price_history: e.price_history@,
    }
}

impl Clone for AssetRegistryEntry {
    fn clone(&self) -> (r: Self)
        ensures
            entry_record(r) == entry_record(*self),
    {
        AssetRegistryEntry {
            metadata: self.metadata.clone(),
            price_config: self.price_config.clone(),
            current_price: match &self.current_price {
                Some(p) => Some(p.clone()),
                None => None,
            },
            price_history: copy_prices(&self.price_history),
        }
    }
}

/// A registered price source.
#[derive(Debug, PartialEq, Eq)]
pub struct PriceSource {
    pub address: String,
    pub name: String,
    pub source_type: PriceSourceType,
    pub weight: u32,
    pub reputation: u32,
    pub active: bool,
    pub supported_categories: Vec<AssetCategory>,
    pub last_update: u64,
    pub successful_updates: u64,
    pub failed_updates: u64,
}

/// A price source as a mathematical value.
pub struct SourceRecord {
    pub address: String,
    pub name: String,
    pub source_type: PriceSourceType,
    pub weight: u32,
    pub reputation: u32,
    pub active: bool,
    pub supported_categories: Seq<AssetCategory>,
    pub last_update: u64,
    pub successful_updates: u64,
    pub failed_updates: u64,
}

/// The model of a price source.
pub open spec fn source_record(s: PriceSource) -> SourceRecord {
    SourceRecord {
        address: s.address,
        name: s.name,
        source_type: s.source_type,
        weight: s.weight,
        reputation: s.reputation,
        active: s.active,
        supported_categories: s.supported_categories@,
        last_update: s.last_update,
        successful_updates: s.successful_updates,
        failed_updates: s.failed_updates,
    }
}

/// A whitelisted asset.
#[derive(Debug, PartialEq, Eq)]
pub struct WhitelistEntry {
    pub asset_id: String,
    pub added_by: String,
    pub reason: String,
    pub added_at: u64,
    pub active: bool,
}

/// A Stellar asset's counterpart on another chain.
#[derive(Debug, PartialEq, Eq)]
pub struct CrossChainAsset {
    pub stellar_asset: String,
    pub source_chain: String,
    pub source_address: String,
    pub bridge_contract: String,
}

impl Clone for CrossChainAsset {
    fn clone(&self) -> (r: Self)
        ensures
            r == *self,
    {
        CrossChainAsset {
            stellar_asset: self.stellar_asset.clone(),
            source_chain: self.source_chain.clone(),
            source_address: self.source_address.clone(),
            bridge_contract: self.bridge_contract.clone(),
        }
    }
}

/// Update statistics of an asset.
#[derive(Debug, PartialEq, Eq)]
pub struct AssetStats {
    pub asset_id: String,
    pub total_updates: u64,
    pub avg_update_interval: u64,
    pub deviation_alerts: u32,
    pub current_confidence: u32,
    pub avg_confidence: u64,
    pub last_update: u64,
}

impl Clone for AssetStats {
    fn clone(&self) -> (r: Self)
        ensures
            r == *self,
    {
        AssetStats {
            asset_id: self.asset_id.clone(),
            total_updates: self.total_updates,
            avg_update_interval: self.avg_update_interval,
            deviation_alerts: self.deviation_alerts,
            current_confidence: self.current_confidence,
            avg_confidence: self.avg_confidence,
            last_update: self.last_update,
        }
    }
}

/// Mathematical model of the registry.
pub struct AssetRegistryView {
    pub admin: Option<Seq<char>>,
    pub paused: bool,
    pub assets: Map<Seq<char>, EntryRecord>,
    pub price_sources: Map<Seq<char>, SourceRecord>,
    pub whitelist: Map<Seq<char>, WhitelistEntry>,
    pub cross_chain: Map<Seq<char>, CrossChainAsset>,
    pub stats: Map<Seq<char>, AssetStats>,
}

/// The asset registry and its storage.
pub struct AssetRegistryContract {
    admin: Option<String>,
    paused: bool,
    assets: Vec<(String, AssetRegistryEntry)>,
    price_sources: Vec<(String, PriceSource)>,
    whitelist: Vec<(String, WhitelistEntry)>,
    cross_chain: Vec<(String, CrossChainAsset)>,
    stats: Vec<(String, AssetStats)>,
}

impl View for AssetRegistryContract {
    type V = AssetRegistryView;

    closed spec fn view(&self) -> AssetRegistryView {
        AssetRegistryView {
            admin: match self.admin {
                Some(a) => Some(a@),
                None => None,
            },
            paused: self.paused,
            assets: to_map(self.assets@).map_values(|e: AssetRegistryEntry| entry_record(e)),
            price_sources: to_map(self.price_sources@).map_values(|s: PriceSource| source_record(s)),
            whitelist: to_map(self.whitelist@),
            cross_chain: to_map(self.cross_chain@),
            stats: to_map(self.stats@),
        }
    }
}

/// `r` is the error with text `msg`.
pub open spec fn fails_with<T>(r: Result<T, String>, msg: Seq<char>) -> bool {
    r matches Err(e) && e@ == msg
}

/// The history after `current` is pushed: at most the last 100 prices are kept.
pub open spec fn pushed_history(h: Seq<FeedPrice>, current: Option<FeedPrice>) -> Seq<FeedPrice> {
    match current {
        Some(p) => if h.len() + 1 > MAX_PRICE_HISTORY {
            h.push(p).drop_first()
        } else {
            h.push(p)
        },
        None => h,
    }
}

/// Statistics after a price of `confidence` was recorded at `now`: one update
/// more, running averages of the update interval (once there was an update) and
/// of the confidence.
pub open spec fn updated_stats(s: AssetStats, confidence: u32, now: u64) -> AssetStats {
    let n = s.total_updates + 1;
    AssetStats {
        total_updates: n as u64,
        avg_update_interval: if s.last_update > 0 {
            ((s.avg_update_interval * (n - 1) + (now - s.last_update)) / n) as u64
        } else {
            s.avg_update_interval
        },
        current_confidence: confidence,
        avg_confidence: ((s.avg_confidence * (n - 1) + confidence) / n) as u64,
        last_update: now,
        ..s
    }
}

/// Statistics of an asset with no updates.
pub open spec fn fresh_stats(asset_id: String) -> AssetStats {
    AssetStats {
        asset_id,
        total_updates: 0,
        avg_update_interval: 0,
        deviation_alerts: 0,
        current_confidence: 0,
        avg_confidence: 0,
        last_update: 0,
    }
}

/// The registered entries of a table in `category`, in table order.
pub open spec fn in_category(s: Seq<(String, AssetRegistryEntry)>, category: AssetCategory) -> Seq<EntryRecord>
    decreases s.len(),
{
    if s.len() == 0 {
        Seq::empty()
    } else if s.last().1.metadata.category == category {
        in_category(s.drop_last(), category).push(entry_record(s.last().1))
    } else {
        in_category(s.drop_last(), category)
    }
}

/// The statistics of an asset, or fresh ones.
pub open spec fn stats_or_fresh(v: AssetRegistryView, asset_id: Seq<char>, id: String) -> AssetStats {
    if v.stats.dom().contains(asset_id) { v.stats[asset_id] } else { fresh_stats(id) }
}

/// Why an administrative change is refused, if it is.
pub open spec fn admin_refusal(v: AssetRegistryView, caller: Seq<char>, check_paused: bool) -> Option<Seq<char>> {
    if v.admin != Some(caller) {
        Some("Not authorized"@)
    } else if check_paused && v.paused {
        Some("Registry is paused"@)
    } else {
        None
    }
}

impl AssetRegistryContract {
    /// One entry per key in every table.
    pub closed spec fn wf(&self) -> bool {
        &&& distinct_keys(self.assets@)
        &&& distinct_keys(self.price_sources@)
        &&& distinct_keys(self.whitelist@)
        &&& distinct_keys(self.cross_chain@)
        &&& distinct_keys(self.stats@)
    }

    /// The asset table, in registration order.
    pub closed spec fn asset_table(&self) -> Seq<(String, AssetRegistryEntry)> {
        self.assets@
    }

    /// A registry that has not been initialized.
    pub fn new() -> (r: Self)
        ensures
            r.wf(),
            r@ == (AssetRegistryView {
                admin: None,
                paused: false,
                assets: Map::empty(),
                price_sources: Map::empty(),
                whitelist: Map::empty(),
                cross_chain: Map::empty(),
                stats: Map::empty(),
            }),
            r.asset_table() == Seq::<(String, AssetRegistryEntry)>::empty(),
    {
        let r = AssetRegistryContract {
            admin: None,
            paused: false,
            assets: Vec::new(),
            price_sources: Vec::new(),
            whitelist: Vec::new(),
            cross_chain: Vec::new(),
            stats: Vec::new(),
        };
        proof {
            assert(to_map(r.assets@).map_values(|e: AssetRegistryEntry| entry_record(e)) =~= Map::<
                Seq<char>,
                EntryRecord,
            >::empty());
            assert(to_map(r.price_sources@).map_values(|s: PriceSource| source_record(s)) =~= Map::<
                Seq<char>,
                SourceRecord,
            >::empty());
            assert(to_map(r.whitelist@) =~= Map::<Seq<char>, WhitelistEntry>::empty());
            assert(to_map(r.cross_chain@) =~= Map::<Seq<char>, CrossChainAsset>::empty());
            assert(to_map(r.stats@) =~= Map::<Seq<char>, AssetStats>::empty());
        }
        r
    }

    /// Set the admin, unpause and clear every table; only once.
    pub fn initialize(&mut self, admin: &str) -> (r: Result<(), String>)
        requires
            old(self).wf(),
        ensures
            final(self).wf(),
            old(self)@.admin is Some ==> fails_with(r, "Already initialized"@) && final(self)@ == old(self)@,
            old(self)@.admin is None ==> r is Ok && final(self)@ == (AssetRegistryView {
                admin: Some(admin@),
                paused: false,
                assets: Map::empty(),
                price_sources: Map::empty(),
                whitelist: Map::empty(),
                cross_chain: Map::empty(),
                stats: Map::empty(),
            }),
    {
        if self.admin.is_some() {
            proof {
                reveal_strlit("Already initialized");
            }
            return Err(String::from_str("Already initialized"));
        }
        self.admin = Some(String::from_str(admin));
        self.paused = false;
        self.assets = Vec::new();
        self.price_sources = Vec::new();
        self.whitelist = Vec::new();
        self.cross_chain = Vec::new();
        self.stats = Vec::new();
        proof {
            assert(to_map(self.assets@).map_values(|e: AssetRegistryEntry| entry_record(e)) =~= Map::<
                Seq<char>,
                EntryRecord,
            >::empty());
            assert(to_map(self.price_sources@).map_values(|s: PriceSource| source_record(s)) =~= Map::<
                Seq<char>,
                SourceRecord,
            >::empty());
            assert(to_map(self.whitelist@) =~= Map::<Seq<char>, WhitelistEntry>::empty());
            assert(to_map(self.cross_chain@) =~= Map::<Seq<char>, CrossChainAsset>::empty());
            assert(to_map(self.stats@) =~= Map::<Seq<char>, AssetStats>::empty());
        }
        Ok(())
    }

    /// The refusal of an administrative change, if any.
    fn check_admin(&self, caller: &str, check_paused: bool) -> (r: Result<(), String>)
        ensures
            match admin_refusal(self@, caller@, check_paused) {
                Some(msg) => fails_with(r, msg),
                None => r is Ok,
            },
    {
        let who = String::from_str(caller);
        let authorized = match &self.admin {
            Some(a) => *a == who,
            None => false,
        };
        if !authorized {
            proof {
                reveal_strlit("Not authorized");
            }
            return Err(String::from_str("Not authorized"));
        }
        if check_paused && self.paused {
            proof {
                reveal_strlit("Registry is paused");
            }
            return Err(String::from_str("Registry is paused"));
        }
        Ok(())
    }

    /// Store `e` as the entry of `asset_id`.
    fn put_entry(&mut self, asset_id: &str, e: AssetRegistryEntry)
        requires
            old(self).wf(),
        ensures
            final(self).wf(),
            final(self)@ == (AssetRegistryView {
                assets: old(self)@.assets.insert(asset_id@, entry_record(e)),
                ..old(self)@
            }),
    {
        let ghost rec = entry_record(e);
        let ghost a0 = self.assets@;
        upsert(&mut self.assets, asset_id, e);
        proof {
            assert(to_map(self.assets@).map_values(|x: AssetRegistryEntry| entry_record(x)) =~= to_map(a0).map_values(
                |x: AssetRegistryEntry| entry_record(x),
            ).insert(asset_id@, rec));
        }
    }

    /// A copy of the entry of `asset_id`, if registered.
    fn entry_of(&self, asset_id: &str) -> (r: Option<AssetRegistryEntry>)
        requires
            self.wf(),
        ensures
            self@.assets.dom().contains(asset_id@) ==> (r matches Some(e) && entry_record(e)
                == self@.assets[asset_id@]),
            !self@.assets.dom().contains(asset_id@) ==> r is None,
    {
        match find_key(&self.assets, asset_id) {
            Some(i) => Some(self.assets[i].1.clone()),
            None => None,
        }
    }

    /// Register an asset at `now` (only the contract itself, not while paused,
    /// once, at most 1000): active, with the default update rules, no sources,
    /// the default feed configuration, no price, and fresh statistics.
    pub fn register_asset(
        &mut self,
        contract_address: &str,
        asset_id: &str,
        symbol: String,
        name: String,
        category: AssetCategory,
        decimals: u32,
        now: u64,
    ) -> (r: Result<(), String>)
        requires
            old(self).wf(),
        ensures
            final(self).wf(),
            admin_refusal(old(self)@, contract_address@, true) matches Some(msg) ==> fails_with(r, msg),
            admin_refusal(old(self)@, contract_address@, true) is None && old(self)@.assets.dom().contains(asset_id@)
                ==> fails_with(r, "Asset already registered"@),
            admin_refusal(old(self)@, contract_address@, true) is None && !old(self)@.assets.dom().contains(asset_id@)
                && old(self)@.assets.len() >= MAX_ASSETS ==> fails_with(r, "Maximum asset limit reached"@),
            admin_refusal(old(self)@, contract_address@, true) is None && !old(self)@.assets.dom().contains(asset_id@) && old(self)@.assets.len() < MAX_ASSETS ==> r is Ok,
            r is Err ==> final(self)@ == old(self)@,
            r is Ok ==> admin_refusal(old(self)@, contract_address@, true) is None && !old(self)@.assets.dom().contains(asset_id@) && old(self)@.assets.len() < MAX_ASSETS && final(self)@.assets.dom() == old(self)@.assets.dom().insert(asset_id@) && ({
                let e = final(self)@.assets[asset_id@];
                &&& e.metadata.asset_id@ == asset_id@
                &&& e.metadata.symbol == symbol
                &&& e.metadata.name == name
                &&& e.metadata.category == category
                &&& e.metadata.decimals == decimals
                &&& e.metadata.active
                &&& e.metadata.min_update_interval == DEFAULT_MIN_UPDATE_INTERVAL
                &&& e.metadata.max_price_deviation == DEFAULT_MAX_DEVIATION
                &&& e.metadata.min_confidence == DEFAULT_MIN_CONFIDENCE
                &&& e.metadata.approved_sources.len() == 0
                &&& e.metadata.registered_at == now
                &&& e.metadata.last_price_update == 0
                &&& e.metadata.custom_metadata.len() == 0
                &&& e.price_config.asset_id@ == asset_id@
                &&& e.price_config.aggregation_method == AggregationMethod::WeightedAverage
                &&& e.price_config.min_sources == 3
                &&& e.price_config.max_price_age == 3600
                &&& e.price_config.circuit_breaker_threshold == 1000
                &&& !e.price_config.use_twap
                &&& e.price_config.twap_period == 300
                &&& e.price_config.heartbeat_interval == 300
                &&& e.current_price is None
                &&& e.price_history.len() == 0
            }) && (forall|k: Seq<char>| k != asset_id@ && #[trigger] old(self)@.assets.dom().contains(k) ==> final(self)@.assets[k] == old(self)@.assets[k]) && final(self)@.stats.dom().contains(asset_id@) && final(self)@.stats[asset_id@].asset_id@ == asset_id@ && final(self)@.stats[asset_id@].total_updates == 0 && final(self)@.stats[asset_id@].last_update == 0 && final(self)@.stats[asset_id@].avg_confidence == 0 && final(self)@.stats[asset_id@].avg_update_interval == 0 && final(self)@.stats[asset_id@].deviation_alerts == 0 && final(self)@.stats[asset_id@].current_confidence == 0 && final(self)@ == (AssetRegistryView {
                assets: final(self)@.assets,
                stats: final(self)@.stats,
                ..old(self)@
            }),
    {
        match self.check_admin(contract_address, true) {
            Err(e) => return Err(e),
            Ok(()) => {},
        }
        if find_key(&self.assets, asset_id).is_some() {
            proof {
                reveal_strlit("Asset already registered");
            }
            return Err(String::from_str("Asset already registered"));
        }
        proof {
            crate::keyed::lemma_to_map_len(self.assets@);
            assert(self@.assets.dom() =~= to_map(self.assets@).dom());
        }
        if self.assets.len() >= MAX_ASSETS {
            proof {
                reveal_strlit("Maximum asset limit reached");
            }
            return Err(String::from_str("Maximum asset limit reached"));
        }
        let metadata = AssetMetadata {
            asset_id: String::from_str(asset_id),
            symbol,
            name,
            category,
            decimals,
            active: true,
            min_update_interval: DEFAULT_MIN_UPDATE_INTERVAL,
            max_price_deviation: DEFAULT_MAX_DEVIATION,
            min_confidence: DEFAULT_MIN_CONFIDENCE,
            approved_sources: Vec::new(),
            registered_at: now,
            last_price_update: 0,
            custom_metadata: Vec::new(),
        };
        let price_config = PriceFeedConfig {
            asset_id: String::from_str(asset_id),
            aggregation_method: AggregationMethod::WeightedAverage,
            min_sources: 3,
            max_price_age: 3600,
            circuit_breaker_threshold: 1000,
            use_twap: false,
            twap_period: 300,
            heartbeat_interval: 300,
        };
        let entry = AssetRegistryEntry { metadata, price_config, current_price: None, price_history: Vec::new() };
        self.put_entry(asset_id, entry);
        let stats = AssetStats {
            asset_id: String::from_str(asset_id),
            total_updates: 0,
            avg_update_interval: 0,
            deviation_alerts: 0,
            current_confidence: 0,
            avg_confidence: 0,
            last_update: 0,
        };
        upsert(&mut self.stats, asset_id, stats);
        Ok(())
    }

    /// Replace an asset's metadata (only the contract itself, not while paused).
    pub fn update_asset_metadata(&mut self, contract_address: &str, asset_id: &str, metadata: AssetMetadata) -> (r:
        Result<(), String>)
        requires
            old(self).wf(),
        ensures
            final(self).wf(),
            admin_refusal(old(self)@, contract_address@, true) matches Some(msg) ==> fails_with(r, msg),
            admin_refusal(old(self)@, contract_address@, true) is None && !old(self)@.assets.dom().contains(asset_id@)
                ==> fails_with(r, "Asset not registered"@),
            admin_refusal(old(self)@, contract_address@, true) is None && old(self)@.assets.dom().contains(asset_id@) ==> r is Ok,
            r is Err ==> final(self)@ == old(self)@,
            r is Ok ==> admin_refusal(old(self)@, contract_address@, true) is None && old(self)@.assets.dom().contains(
                asset_id@,
            ) && final(self)@ == (AssetRegistryView {
                assets: old(self)@.assets.insert(
                    asset_id@,
                    EntryRecord { metadata: metadata_record(metadata), ..old(self)@.assets[asset_id@] },
                ),
                ..old(self)@
            }),
    {
        match self.check_admin(contract_address, true) {
            Err(e) => return Err(e),
            Ok(()) => {},
        }
        let mut entry = match self.entry_of(asset_id) {
            Some(e) => e,
            None => {
                proof {
                    reveal_strlit("Asset not registered");
                }
                return Err(String::from_str("Asset not registered"));
            },
        };
        entry.metadata = metadata;
        self.put_entry(asset_id, entry);
        Ok(())
    }

    /// Replace an asset's feed configuration (only the contract itself, not while
    /// paused).
    pub fn update_price_config(&mut self, contract_address: &str, asset_id: &str, config: PriceFeedConfig) -> (r:
        Result<(), String>)
        requires
            old(self).wf(),
        ensures
            final(self).wf(),
            admin_refusal(old(self)@, contract_address@, true) matches Some(msg) ==> fails_with(r, msg),
            admin_refusal(old(self)@, contract_address@, true) is None && !old(self)@.assets.dom().contains(asset_id@)
                ==> fails_with(r, "Asset not registered"@),
            admin_refusal(old(self)@, contract_address@, true) is None && old(self)@.assets.dom().contains(asset_id@) ==> r is Ok,
            r is Err ==> final(self)@ == old(self)@,
            r is Ok ==> admin_refusal(old(self)@, contract_address@, true) is None && old(self)@.assets.dom().contains(
                asset_id@,
            ) && final(self)@ == (AssetRegistryView {
                assets: old(self)@.assets.insert(asset_id@, EntryRecord { price_config: config, ..old(self)@.assets[asset_id@] }),
                ..old(self)@
            }),
    {
        match self.check_admin(contract_address, true) {
            Err(e) => return Err(e),
            Ok(()) => {},
        }
        let mut entry = match self.entry_of(asset_id) {
            Some(e) => e,
            None => {
                proof {
                    reveal_strlit("Asset not registered");
                }
                return Err(String::from_str("Asset not registered"));
            },
        };
        entry.price_config = config;
        self.put_entry(asset_id, entry);
        Ok(())
    }

    /// Approve a source for an asset (only the contract itself, not while paused;
    /// at most ten, each once).
    pub fn add_price_source(&mut self, contract_address: &str, asset_id: &str, source_address: &str) -> (r: Result<
        (),
        String,
    >)
        requires
            old(self).wf(),
        ensures
            final(self).wf(),
            admin_refusal(old(self)@, contract_address@, true) matches Some(msg) ==> fails_with(r, msg),
            admin_refusal(old(self)@, contract_address@, true) is None && !old(self)@.assets.dom().contains(asset_id@)
                ==> fails_with(r, "Asset not registered"@),
            admin_refusal(old(self)@, contract_address@, true) is None && old(self)@.assets.dom().contains(asset_id@)
                && old(self)@.assets[asset_id@].metadata.approved_sources.len() >= MAX_SOURCES_PER_ASSET ==> fails_with(
                r,
                "Maximum price sources reached"@,
            ),
            admin_refusal(old(self)@, contract_address@, true) is None && old(self)@.assets.dom().contains(asset_id@)
                && old(self)@.assets[asset_id@].metadata.approved_sources.len() < MAX_SOURCES_PER_ASSET && old(self)@.assets[asset_id@].metadata.approved_sources.map_values(|s: String| s@).contains(source_address@)
                ==> fails_with(r, "Source already approved"@),
            admin_refusal(old(self)@, contract_address@, true) is None && old(self)@.assets.dom().contains(asset_id@) && old(self)@.assets[asset_id@].metadata.approved_sources.len() < MAX_SOURCES_PER_ASSET && !old(self)@.assets[asset_id@].metadata.approved_sources.map_values(|s: String| s@).contains(source_address@) ==> r is Ok,
            r is Err ==> final(self)@ == old(self)@,
            r is Ok ==> admin_refusal(old(self)@, contract_address@, true) is None && old(self)@.assets.dom().contains(
                asset_id@,
            ) && final(self)@.assets.dom() == old(self)@.assets.dom() && final(self)@.assets[asset_id@].metadata.approved_sources.map_values(|s: String| s@) == old(self)@.assets[asset_id@].metadata.approved_sources.map_values(|s: String| s@).push(source_address@) && final(self)@ == (AssetRegistryView {
                assets: old(self)@.assets.insert(
                    asset_id@,
                    EntryRecord {
                        metadata: MetadataRecord {
                            approved_sources: final(self)@.assets[asset_id@].metadata.approved_sources,
                            ..old(self)@.assets[asset_id@].metadata
                        },
                        ..old(self)@.assets[asset_id@]
                    },
                ),
                ..old(self)@
            }),
    {
        match self.check_admin(contract_address, true) {
            Err(e) => return Err(e),
            Ok(()) => {},
        }
        let mut entry = match self.entry_of(asset_id) {
            Some(e) => e,
            None => {
                proof {
                    reveal_strlit("Asset not registered");
                }
                return Err(String::from_str("Asset not registered"));
            },
        };
        if entry.metadata.approved_sources.len() >= MAX_SOURCES_PER_ASSET {
            proof {
                reveal_strlit("Maximum price sources reached");
            }
            return Err(String::from_str("Maximum price sources reached"));
        }
        if crate::tokens::contains_name(&entry.metadata.approved_sources, source_address) {
            proof {
                reveal_strlit("Source already approved");
            }
            return Err(String::from_str("Source already approved"));
        }
        let key = String::from_str(source_address);
        let ghost before = entry.metadata.approved_sources@;
        entry.metadata.approved_sources.push(key);
        proof {
            assert(entry.metadata.approved_sources@.map_values(|s: String| s@) =~= before.map_values(|s: String| s@).push(
                source_address@,
            ));
        }
        self.put_entry(asset_id, entry);
        Ok(())
    }

    /// Withdraw a source's approval for an asset (only the contract itself, not
    /// while paused).
    pub fn remove_price_source(&mut self, contract_address: &str, asset_id: &str, source_address: &str) -> (r: Result<
        (),
        String,
    >)
        requires
            old(self).wf(),
        ensures
            final(self).wf(),
            admin_refusal(old(self)@, contract_address@, true) matches Some(msg) ==> fails_with(r, msg),
            admin_refusal(old(self)@, contract_address@, true) is None && !old(self)@.assets.dom().contains(asset_id@)
                ==> fails_with(r, "Asset not registered"@),
            admin_refusal(old(self)@, contract_address@, true) is None && old(self)@.assets.dom().contains(asset_id@)
                && !old(self)@.assets[asset_id@].metadata.approved_sources.map_values(|s: String| s@).contains(
                source_address@,
            ) ==> fails_with(r, "Source not found"@),
            admin_refusal(old(self)@, contract_address@, true) is None && old(self)@.assets.dom().contains(asset_id@) && old(self)@.assets[asset_id@].metadata.approved_sources.map_values(|s: String| s@).contains(source_address@) ==> r is Ok,
            r is Err ==> final(self)@ == old(self)@,
            r is Ok ==> admin_refusal(old(self)@, contract_address@, true) is None && old(self)@.assets.dom().contains(
                asset_id@,
            ) && old(self)@.assets[asset_id@].metadata.approved_sources.map_values(|s: String| s@).contains(
                source_address@,
            ) && final(self)@.assets[asset_id@].metadata.approved_sources.map_values(|s: String| s@)
                == crate::tokens::without(
                old(self)@.assets[asset_id@].metadata.approved_sources.map_values(|s: String| s@),
                source_address@,
            ) && final(self)@ == (AssetRegistryView {
                assets: old(self)@.assets.insert(
                    asset_id@,
                    EntryRecord {
                        metadata: MetadataRecord {
                            approved_sources: final(self)@.assets[asset_id@].metadata.approved_sources,
                            ..old(self)@.assets[asset_id@].metadata
                        },
                        ..old(self)@.assets[asset_id@]
                    },
                ),
                ..old(self)@
            }),
    {
        match self.check_admin(contract_address, true) {
            Err(e) => return Err(e),
            Ok(()) => {},
        }
        let mut entry = match self.entry_of(asset_id) {
            Some(e) => e,
            None => {
                proof {
                    reveal_strlit("Asset not registered");
                }
                return Err(String::from_str("Asset not registered"));
            },
        };
        let (kept, found) = crate::tokens::remove_name(&entry.metadata.approved_sources, source_address);
        if !found {
            proof {
                reveal_strlit("Source not found");
            }
            return Err(String::from_str("Source not found"));
        }
        entry.metadata.approved_sources = kept;
        self.put_entry(asset_id, entry);
        Ok(())
    }

    /// Register a price source (only the contract itself, not while paused; each
    /// address once, with a weight of 1 to 10 000): active, with reputation 8000
    /// and no updates.
    pub fn register_price_source(
        &mut self,
        contract_address: &str,
        source_address: &str,
        name: String,
        source_type: PriceSourceType,
        weight: u32,
        supported_categories: Vec<AssetCategory>,
    ) -> (r: Result<(), String>)
        requires
            old(self).wf(),
        ensures
            final(self).wf(),
            admin_refusal(old(self)@, contract_address@, true) matches Some(msg) ==> fails_with(r, msg),
            admin_refusal(old(self)@, contract_address@, true) is None && old(self)@.price_sources.dom().contains(
                source_address@,
            ) ==> fails_with(r, "Price source already registered"@),
            admin_refusal(old(self)@, contract_address@, true) is None && !old(self)@.price_sources.dom().contains(
                source_address@,
            ) && (weight == 0 || weight > 10_000) ==> fails_with(r, "Invalid weight"@),
            admin_refusal(old(self)@, contract_address@, true) is None && !old(self)@.price_sources.dom().contains(source_address@) && 0 < weight <= 10_000 ==> r is Ok,
            r is Err ==> final(self)@ == old(self)@,
            r is Ok ==> admin_refusal(old(self)@, contract_address@, true) is None && !old(self)@.price_sources.dom().contains(source_address@) && 0 < weight <= 10_000 && final(self)@.price_sources.dom()
                == old(self)@.price_sources.dom().insert(source_address@) && ({
                let s = final(self)@.price_sources[source_address@];
                &&& s.address@ == source_address@
                &&& s.name == name
                &&& s.source_type == source_type
                &&& s.weight == weight
                &&& s.reputation == 8000
                &&& s.active
                &&& s.supported_categories == supported_categories@
                &&& s.last_update == 0
                &&& s.successful_updates == 0
                &&& s.failed_updates == 0
            }) && (forall|k: Seq<char>| k != source_address@ && #[trigger] old(self)@.price_sources.dom().contains(k)
                ==> final(self)@.price_sources[k] == old(self)@.price_sources[k]) && final(self)@ == (
            AssetRegistryView { price_sources: final(self)@.price_sources, ..old(self)@ }),
    {
        match self.check_admin(contract_address, true) {
            Err(e) => return Err(e),
            Ok(()) => {},
        }
        if find_key(&self.price_sources, source_address).is_some() {
            proof {
                reveal_strlit("Price source already registered");
            }
            return Err(String::from_str("Price source already registered"));
        }
        if weight == 0 || weight > 10_000 {
            proof {
                reveal_strlit("Invalid weight");
            }
            return Err(String::from_str("Invalid weight"));
        }
        let source = PriceSource {
            address: String::from_str(source_address),
            name,
            source_type,
            weight,
            reputation: 8000,
            active: true,
            supported_categories,
            last_update: 0,
            successful_updates: 0,
            failed_updates: 0,
        };
        let ghost rec = source_record(source);
        let ghost s0 = self.price_sources@;
        upsert(&mut self.price_sources, source_address, source);
        proof {
            assert(to_map(self.price_sources@).map_values(|s: PriceSource| source_record(s)) =~= to_map(s0).map_values(
                |s: PriceSource| source_record(s),
            ).insert(source_address@, rec));
        }
        Ok(())
    }

    /// Record a new price of an active asset at `now` (not while paused): once
    /// the asset has had a price update, the minimum interval must have passed.
    /// The previous price joins the history (the last 100 are kept), and the
    /// asset's statistics are updated.
    pub fn update_price(&mut self, asset_id: &str, price: FeedPrice, now: u64) -> (r: Result<(), String>)
        requires
            old(self).wf(),
            old(self)@.assets.dom().contains(asset_id@) ==> old(self)@.assets[asset_id@].metadata.last_price_update
                <= now,
            old(self)@.assets.dom().contains(asset_id@) ==> ({
                let s = stats_or_fresh(old(self)@, asset_id@, old(self)@.assets[asset_id@].metadata.asset_id);
                &&& s.total_updates < u64::MAX
                &&& s.last_update <= now
                &&& s.avg_update_interval * s.total_updates + (now - s.last_update) <= u64::MAX
                &&& s.avg_confidence * s.total_updates + price.confidence <= u64::MAX
            }),
        ensures
            final(self).wf(),
            old(self)@.paused ==> fails_with(r, "Registry is paused"@),
            !old(self)@.paused && !old(self)@.assets.dom().contains(asset_id@) ==> fails_with(
                r,
                "Asset not registered"@,
            ),
            !old(self)@.paused && old(self)@.assets.dom().contains(asset_id@) && !old(self)@.assets[asset_id@].metadata.active ==> fails_with(r, "Asset is not active"@),
            !old(self)@.paused && old(self)@.assets.dom().contains(asset_id@) && old(self)@.assets[asset_id@].metadata.active && old(self)@.assets[asset_id@].metadata.last_price_update > 0 && now
                - old(self)@.assets[asset_id@].metadata.last_price_update < old(self)@.assets[asset_id@].metadata.min_update_interval ==> fails_with(r, "Update interval not met"@),
            !old(self)@.paused && old(self)@.assets.dom().contains(asset_id@) && old(self)@.assets[asset_id@].metadata.active && (old(self)@.assets[asset_id@].metadata.last_price_update > 0 ==> now - old(self)@.assets[asset_id@].metadata.last_price_update >= old(self)@.assets[asset_id@].metadata.min_update_interval) ==> r is Ok,
            r is Err ==> final(self)@ == old(self)@,
            r is Ok ==> !old(self)@.paused && old(self)@.assets.dom().contains(asset_id@) && ({
                let e = old(self)@.assets[asset_id@];
                &&& e.metadata.active
                &&& e.metadata.last_price_update > 0 ==> now - e.metadata.last_price_update
                    >= e.metadata.min_update_interval
                &&& final(self)@ == (AssetRegistryView {
                    assets: old(self)@.assets.insert(
                        asset_id@,
                        EntryRecord {
                            metadata: MetadataRecord { last_price_update: now, ..e.metadata },
                            current_price: Some(price),
                            price_history: pushed_history(e.price_history, e.current_price),
                            ..e
                        },
                    ),
                    stats: old(self)@.stats.insert(
                        asset_id@,
                        updated_stats(stats_or_fresh(old(self)@, asset_id@, e.metadata.asset_id), price.confidence, now),
                    ),
                    ..old(self)@
                })
            }),
    {
        if self.paused {
            proof {
                reveal_strlit("Registry is paused");
            }
            return Err(String::from_str("Registry is paused"));
        }
        let mut entry = match self.entry_of(asset_id) {
            Some(e) => e,
            None => {
                proof {
                    reveal_strlit("Asset not registered");
                }
                return Err(String::from_str("Asset not registered"));
            },
        };
        if !entry.metadata.active {
            proof {
                reveal_strlit("Asset is not active");
            }
            return Err(String::from_str("Asset is not active"));
        }
        if entry.metadata.last_price_update > 0 {
            let elapsed = now - entry.metadata.last_price_update;
            if elapsed < entry.metadata.min_update_interval {
                proof {
                    reveal_strlit("Update interval not met");
                }
                return Err(String::from_str("Update interval not met"));
            }
        }
        let ghost h0 = entry.price_history@;
        let previous = entry.current_price.take();
        match previous {
            Some(p) => {
                entry.price_history.push(p);
                if entry.price_history.len() > MAX_PRICE_HISTORY {
                    let _oldest = entry.price_history.remove(0);
                    proof {
                        assert(entry.price_history@ =~= h0.push(p).drop_first());
                    }
                }
            },
            None => {},
        }
        let confidence = price.confidence;
        entry.current_price = Some(price);
        entry.metadata.last_price_update = now;
        let id_copy = entry.metadata.asset_id.clone();
        self.put_entry(asset_id, entry);
        let mut stats = match find_key(&self.stats, asset_id) {
            Some(i) => self.stats[i].1.clone(),
            None => AssetStats {
                asset_id: id_copy,
                total_updates: 0,
                avg_update_interval: 0,
                deviation_alerts: 0,
                current_confidence: 0,
                avg_confidence: 0,
                last_update: 0,
            },
        };
        let ghost s0 = stats;
        stats.total_updates = stats.total_updates + 1;
        if stats.last_update > 0 {
            let interval = now - stats.last_update;
            proof {
                assert(s0.avg_update_interval * (stats.total_updates - 1) == s0.avg_update_interval * s0.total_updates);
            }
            stats.avg_update_interval = (stats.avg_update_interval * (stats.total_updates - 1) + interval)
                / stats.total_updates;
        }
        stats.current_confidence = confidence;
        stats.avg_confidence = (stats.avg_confidence * (stats.total_updates - 1) + confidence as u64)
            / stats.total_updates;
        stats.last_update = now;
        upsert(&mut self.stats, asset_id, stats);
        Ok(())
    }

    /// The entry of an asset.
    pub fn get_asset(&self, asset_id: &str) -> (r: Result<AssetRegistryEntry, String>)
        requires
            self.wf(),
        ensures
            self@.assets.dom().contains(asset_id@) ==> (r matches Ok(e) && entry_record(e) == self@.assets[asset_id@]),
            !self@.assets.dom().contains(asset_id@) ==> fails_with(r, "Asset not registered"@),
    {
        match self.entry_of(asset_id) {
            Some(e) => Ok(e),
            None => {
                proof {
                    reveal_strlit("Asset not registered");
                }
                Err(String::from_str("Asset not registered"))
            },
        }
    }

    /// Every registered asset, in registration order.
    pub fn get_all_assets(&self) -> (r: Vec<AssetRegistryEntry>)
        ensures
            r@.map_values(|e: AssetRegistryEntry| entry_record(e)) == self.asset_table().map_values(
                |p: (String, AssetRegistryEntry)| entry_record(p.1),
            ),
    {
        let mut out: Vec<AssetRegistryEntry> = Vec::new();
        let mut i: usize = 0;
        while i < self.assets.len()
            invariant
                i <= self.assets@.len(),
                out@.map_values(|e: AssetRegistryEntry| entry_record(e)) == self.assets@.take(i as int).map_values(
                    |p: (String, AssetRegistryEntry)| entry_record(p.1),
                ),
            decreases self.assets@.len() - i,
        {
            let ghost before = out@;
            let c = self.assets[i].1.clone();
            out.push(c);
            proof {
                assert(self.assets@.take(i + 1) =~= self.assets@.take(i as int).push(self.assets@[i as int]));
                assert(out@.map_values(|e: AssetRegistryEntry| entry_record(e)) =~= before.map_values(
                    |e: AssetRegistryEntry| entry_record(e),
                ).push(entry_record(c)));
                assert(out@.map_values(|e: AssetRegistryEntry| entry_record(e)) =~= self.assets@.take(i + 1).map_values(
                    |p: (String, AssetRegistryEntry)| entry_record(p.1),
                ));
            }
            i = i + 1;
        }
        proof {
            assert(self.assets@.take(self.assets@.len() as int) =~= self.assets@);
        }
        out
    }

    /// The assets of a category, in registration order.
    pub fn get_assets_by_category(&self, category: AssetCategory) -> (r: Vec<AssetRegistryEntry>)
        ensures
            r@.map_values(|e: AssetRegistryEntry| entry_record(e)) == in_category(self.asset_table(), category),
    {
        let mut out: Vec<AssetRegistryEntry> = Vec::new();
        let mut i: usize = 0;
        while i < self.assets.len()
            invariant
                i <= self.assets@.len(),
                out@.map_values(|e: AssetRegistryEntry| entry_record(e)) == in_category(
                    self.assets@.take(i as int),
                    category,
                ),
            decreases self.assets@.len() - i,
        {
            proof {
                assert(self.assets@.take(i + 1).drop_last() =~= self.assets@.take(i as int));
            }
            if self.assets[i].1.metadata.category == category {
                let ghost before = out@;
                let c = self.assets[i].1.clone();
                out.push(c);
                proof {
                    assert(out@.map_values(|e: AssetRegistryEntry| entry_record(e)) =~= before.map_values(
                        |e: AssetRegistryEntry| entry_record(e),
                    ).push(entry_record(c)));
                }
            }
            i = i + 1;
        }
        proof {
            assert(self.assets@.take(self.assets@.len() as int) =~= self.assets@);
        }
        out
    }

    /// The current price of an asset.
    pub fn get_price(&self, asset_id: &str) -> (r: Result<FeedPrice, String>)
        requires
            self.wf(),
        ensures
            !self@.assets.dom().contains(asset_id@) ==> fails_with(r, "Asset not registered"@),
            self@.assets.dom().contains(asset_id@) ==> match self@.assets[asset_id@].current_price {
                Some(p) => r == Ok::<FeedPrice, String>(p),
                None => fails_with(r, "No price available"@),
            },
    {
        match self.entry_of(asset_id) {
            Some(e) => match e.current_price {
                Some(p) => Ok(p),
                None => {
                    proof {
                        reveal_strlit("No price available");
                    }
                    Err(String::from_str("No price available"))
                },
            },
            None => {
                proof {
                    reveal_strlit("Asset not registered");
                }
                Err(String::from_str("Asset not registered"))
            },
        }
    }

    /// The past prices of an asset, oldest first.
    pub fn get_price_history(&self, asset_id: &str) -> (r: Result<Vec<FeedPrice>, String>)
        requires
            self.wf(),
        ensures
            self@.assets.dom().contains(asset_id@) ==> (r matches Ok(h) && h@ == self@.assets[asset_id@].price_history),
            !self@.assets.dom().contains(asset_id@) ==> fails_with(r, "Asset not registered"@),
    {
        match self.entry_of(asset_id) {
            Some(e) => Ok(e.price_history),
            None => {
                proof {
                    reveal_strlit("Asset not registered");
                }
                Err(String::from_str("Asset not registered"))
            },
        }
    }

    /// Whitelist an asset at `now` (only the contract itself, not while paused;
    /// once), recording the admin as who added it.
    pub fn whitelist_asset(&mut self, contract_address: &str, asset_id: &str, reason: String, now: u64) -> (r: Result<
        (),
        String,
    >)
        requires
            old(self).wf(),
        ensures
            final(self).wf(),
            admin_refusal(old(self)@, contract_address@, true) matches Some(msg) ==> fails_with(r, msg),
            admin_refusal(old(self)@, contract_address@, true) is None && old(self)@.whitelist.dom().contains(asset_id@)
                ==> fails_with(r, "Asset already whitelisted"@),
            admin_refusal(old(self)@, contract_address@, true) is None && !old(self)@.whitelist.dom().contains(asset_id@) ==> r is Ok,
            r is Err ==> final(self)@ == old(self)@,
            r is Ok ==> admin_refusal(old(self)@, contract_address@, true) is None && !old(self)@.whitelist.dom().contains(
                asset_id@,
            ) && final(self)@.whitelist.dom() == old(self)@.whitelist.dom().insert(asset_id@) && ({
                let w = final(self)@.whitelist[asset_id@];
                &&& w.asset_id@ == asset_id@
                &&& Some(w.added_by@) == old(self)@.admin
                &&& w.reason == reason
                &&& w.added_at == now
                &&& w.active
            }) && (forall|k: Seq<char>| k != asset_id@ && #[trigger] old(self)@.whitelist.dom().contains(k) ==> final(self)@.whitelist[k] == old(self)@.whitelist[k]) && final(self)@ == (AssetRegistryView {
                whitelist: final(self)@.whitelist,
                ..old(self)@
            }),
    {
        match self.check_admin(contract_address, true) {
            Err(e) => return Err(e),
            Ok(()) => {},
        }
        if find_key(&self.whitelist, asset_id).is_some() {
            proof {
                reveal_strlit("Asset already whitelisted");
            }
            return Err(String::from_str("Asset already whitelisted"));
        }
        let added_by = match &self.admin {
            Some(a) => a.clone(),
            None => String::new(),
        };
        let entry = WhitelistEntry { asset_id: String::from_str(asset_id), added_by, reason, added_at: now, active: true };
        upsert(&mut self.whitelist, asset_id, entry);
        Ok(())
    }

    /// Remove an asset from the whitelist (only the contract itself).
    pub fn remove_from_whitelist(&mut self, contract_address: &str, asset_id: &str) -> (r: Result<(), String>)
        requires
            old(self).wf(),
        ensures
            final(self).wf(),
            admin_refusal(old(self)@, contract_address@, false) matches Some(msg) ==> fails_with(r, msg),
            admin_refusal(old(self)@, contract_address@, false) is None && !old(self)@.whitelist.dom().contains(
                asset_id@,
            ) ==> fails_with(r, "Asset not whitelisted"@),
            admin_refusal(old(self)@, contract_address@, false) is None && old(self)@.whitelist.dom().contains(asset_id@) ==> r is Ok,
            r is Err ==> final(self)@ == old(self)@,
            r is Ok ==> old(self)@.whitelist.dom().contains(asset_id@) && final(self)@ == (AssetRegistryView {
                whitelist: old(self)@.whitelist.remove(asset_id@),
                ..old(self)@
            }),
    {
        match self.check_admin(contract_address, false) {
            Err(e) => return Err(e),
            Ok(()) => {},
        }
        if find_key(&self.whitelist, asset_id).is_none() {
            proof {
                reveal_strlit("Asset not whitelisted");
            }
            return Err(String::from_str("Asset not whitelisted"));
        }
        remove_key(&mut self.whitelist, asset_id);
        Ok(())
    }

    /// Whether an asset is whitelisted and active.
    pub fn is_whitelisted(&self, asset_id: &str) -> (r: bool)
        requires
            self.wf(),
        ensures
            r == (self@.whitelist.dom().contains(asset_id@) && self@.whitelist[asset_id@].active),
    {
        match find_key(&self.whitelist, asset_id) {
            Some(i) => self.whitelist[i].1.active,
            None => false,
        }
    }

    /// Link a Stellar asset to its counterpart on another chain (only the
    /// contract itself, not while paused); a new link replaces an old one.
    pub fn register_cross_chain_asset(&mut self, contract_address: &str, asset: CrossChainAsset) -> (r: Result<
        (),
        String,
    >)
        requires
            old(self).wf(),
        ensures
            final(self).wf(),
            admin_refusal(old(self)@, contract_address@, true) matches Some(msg) ==> fails_with(r, msg) && final(self)@ == old(self)@,
            admin_refusal(old(self)@, contract_address@, true) is None ==> r is Ok && final(self)@ == (AssetRegistryView {
                cross_chain: old(self)@.cross_chain.insert(asset.stellar_asset@, asset),
                ..old(self)@
            }),
    {
        match self.check_admin(contract_address, true) {
            Err(e) => return Err(e),
            Ok(()) => {},
        }
        let key = asset.stellar_asset.clone();
        upsert(&mut self.cross_chain, key.as_str(), asset);
        Ok(())
    }

    /// The cross-chain link of a Stellar asset.
    pub fn get_cross_chain_asset(&self, stellar_asset: &str) -> (r: Result<CrossChainAsset, String>)
        requires
            self.wf(),
        ensures
            self@.cross_chain.dom().contains(stellar_asset@) ==> r == Ok::<CrossChainAsset, String>(
                self@.cross_chain[stellar_asset@],
            ),
            !self@.cross_chain.dom().contains(stellar_asset@) ==> fails_with(r, "Cross-chain asset not found"@),
    {
        match find_key(&self.cross_chain, stellar_asset) {
            Some(i) => Ok(self.cross_chain[i].1.clone()),
            None => {
                proof {
                    reveal_strlit("Cross-chain asset not found");
                }
                Err(String::from_str("Cross-chain asset not found"))
            },
        }
    }

    /// Set whether an asset accepts prices (only the contract itself).
    fn set_active(&mut self, contract_address: &str, asset_id: &str, active: bool) -> (r: Result<(), String>)
        requires
            old(self).wf(),
        ensures
            final(self).wf(),
            admin_refusal(old(self)@, contract_address@, false) matches Some(msg) ==> fails_with(r, msg),
            admin_refusal(old(self)@, contract_address@, false) is None && !old(self)@.assets.dom().contains(asset_id@)
                ==> fails_with(r, "Asset not registered"@),
            admin_refusal(old(self)@, contract_address@, false) is None && old(self)@.assets.dom().contains(asset_id@) ==> r is Ok,
            r is Err ==> final(self)@ == old(self)@,
            r is Ok ==> old(self)@.assets.dom().contains(asset_id@) && final(self)@ == (AssetRegistryView {
                assets: old(self)@.assets.insert(
                    asset_id@,
                    EntryRecord {
                        metadata: MetadataRecord { active, ..old(self)@.assets[asset_id@].metadata },
                        ..old(self)@.assets[asset_id@]
                    },
                ),
                ..old(self)@
            }),
    {
        match self.check_admin(contract_address, false) {
            Err(e) => return Err(e),
            Ok(()) => {},
        }
        let mut entry = match self.entry_of(asset_id) {
            Some(e) => e,
            None => {
                proof {
                    reveal_strlit("Asset not registered");
                }
                return Err(String::from_str("Asset not registered"));
            },
        };
        entry.metadata.active = active;
        self.put_entry(asset_id, entry);
        Ok(())
    }

    /// Let an asset accept prices again (only the contract itself).
    pub fn activate_asset(&mut self, contract_address: &str, asset_id: &str) -> (r: Result<(), String>)
        requires
            old(self).wf(),
        ensures
            final(self).wf(),
            admin_refusal(old(self)@, contract_address@, false) matches Some(msg) ==> fails_with(r, msg),
            admin_refusal(old(self)@, contract_address@, false) is None && !old(self)@.assets.dom().contains(asset_id@)
                ==> fails_with(r, "Asset not registered"@),
            admin_refusal(old(self)@, contract_address@, false) is None && old(self)@.assets.dom().contains(asset_id@) ==> r is Ok,
            r is Err ==> final(self)@ == old(self)@,
            r is Ok ==> old(self)@.assets.dom().contains(asset_id@) && final(self)@ == (AssetRegistryView {
                assets: old(self)@.assets.insert(
                    asset_id@,
                    EntryRecord {
                        metadata: MetadataRecord { active: true, ..old(self)@.assets[asset_id@].metadata },
                        ..old(self)@.assets[asset_id@]
                    },
                ),
                ..old(self)@
            }),
    {
        self.set_active(contract_address, asset_id, true)
    }

    /// Stop an asset from accepting prices (only the contract itself).
    pub fn deactivate_asset(&mut self, contract_address: &str, asset_id: &str) -> (r: Result<(), String>)
        requires
            old(self).wf(),
        ensures
            final(self).wf(),
            admin_refusal(old(self)@, contract_address@, false) matches Some(msg) ==> fails_with(r, msg),
            admin_refusal(old(self)@, contract_address@, false) is None && !old(self)@.assets.dom().contains(asset_id@)
                ==> fails_with(r, "Asset not registered"@),
            admin_refusal(old(self)@, contract_address@, false) is None && old(self)@.assets.dom().contains(asset_id@) ==> r is Ok,
            r is Err ==> final(self)@ == old(self)@,
            r is Ok ==> old(self)@.assets.dom().contains(asset_id@) && final(self)@ == (AssetRegistryView {
                assets: old(self)@.assets.insert(
                    asset_id@,
                    EntryRecord {
                        metadata: MetadataRecord { active: false, ..old(self)@.assets[asset_id@].metadata },
                        ..old(self)@.assets[asset_id@]
                    },
                ),
                ..old(self)@
            }),
    {
        self.set_active(contract_address, asset_id, false)
    }

    /// Pause administrative changes and price updates (only the contract itself).
    pub fn pause(&mut self, contract_address: &str) -> (r: Result<(), String>)
        requires
            old(self).wf(),
        ensures
            final(self).wf(),
            admin_refusal(old(self)@, contract_address@, false) matches Some(msg) ==> fails_with(r, msg) && final(self)@ == old(self)@,
            admin_refusal(old(self)@, contract_address@, false) is None ==> r is Ok && final(self)@ == (
            AssetRegistryView { paused: true, ..old(self)@ }),
    {
        match self.check_admin(contract_address, false) {
            Err(e) => return Err(e),
            Ok(()) => {},
        }
        self.paused = true;
        Ok(())
    }

    /// Resume (only the contract itself).
    pub fn unpause(&mut self, contract_address: &str) -> (r: Result<(), String>)
        requires
            old(self).wf(),
        ensures
            final(self).wf(),
            admin_refusal(old(self)@, contract_address@, false) matches Some(msg) ==> fails_with(r, msg) && final(self)@ == old(self)@,
            admin_refusal(old(self)@, contract_address@, false) is None ==> r is Ok && final(self)@ == (
            AssetRegistryView { paused: false, ..old(self)@ }),
    {
        match self.check_admin(contract_address, false) {
            Err(e) => return Err(e),
            Ok(()) => {},
        }
        self.paused = false;
        Ok(())
    }

    /// The update statistics of an asset.
    pub fn get_asset_stats(&self, asset_id: &str) -> (r: Result<AssetStats, String>)
        requires
            self.wf(),
        ensures
            self@.stats.dom().contains(asset_id@) ==> r == Ok::<AssetStats, String>(self@.stats[asset_id@]),
            !self@.stats.dom().contains(asset_id@) ==> fails_with(r, "Asset stats not found"@),
    {
        match find_key(&self.stats, asset_id) {
            Some(i) => Ok(self.stats[i].1.clone()),
            None => {
                proof {
                    reveal_strlit("Asset stats not found");
                }
                Err(String::from_str("Asset stats not found"))
            },
        }
    }
}

} // verus!
