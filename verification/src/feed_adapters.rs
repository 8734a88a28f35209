//! Price feed adapters by asset category: a registry of adapters (each serving
//! some categories, activated or not) and the validation rules of each category
//! (price age, confidence, preferred aggregation).
//!
//! Only the contract itself (`contract_address`) may change the registry.
//! Ledger time is passed in as `now`.

use vstd::prelude::*;
use crate::idmap::{distinct_ids, find_id, id_map, upsert_id};
use crate::keyed::{distinct_keys, find_key, to_map, upsert};
use crate::manager_contract::AggregationMethod;
use crate::multi_asset_oracle::FeedPrice;

verus! {

/// Oldest crypto price accepted (seconds).
pub const MAX_PRICE_AGE_CRYPTO: u64 = 300;
/// Oldest stablecoin price accepted (seconds).
pub const MAX_PRICE_AGE_STABLECOIN: u64 = 60;
/// Oldest real-world-asset price accepted (seconds).
pub const MAX_PRICE_AGE_RWA: u64 = 3600;
/// Oldest forex price accepted (seconds).
pub const MAX_PRICE_AGE_FOREX: u64 = 60;
/// Lowest crypto confidence accepted (basis points).
pub const MIN_CONFIDENCE_CRYPTO: u32 = 7000;
/// Lowest stablecoin confidence accepted (basis points).
pub const MIN_CONFIDENCE_STABLECOIN: u32 = 9000;
/// Lowest real-world-asset confidence accepted (basis points).
pub const MIN_CONFIDENCE_RWA: u32 = 6000;
/// Lowest forex confidence accepted (basis points).
pub const MIN_CONFIDENCE_FOREX: u32 = 8500;

/// Kind of asset a price is for.
#[derive(Clone, Copy, Debug, PartialEq, Eq, Structural)]
pub enum AssetCategory {
    Cryptocurrency,
    Stablecoin,
    RealWorldAsset,
    Forex,
    Native,
    DeFiToken,
    Wrapped,
}

/// Kind of source an adapter reads.
#[derive(Clone, Copy, Debug, PartialEq, Eq, Structural)]
pub enum PriceSourceType {
    Oracle,
    Dex,
    Exchange,
    Aggregator,
    Custom,
}

/// Validation rules of a category.
#[derive(Clone, Copy, Debug, PartialEq, Eq, Structural)]
pub struct CategoryConfig {
    pub category: AssetCategory,
    /// Oldest price accepted (seconds).
    pub max_price_age: u64,
    /// Lowest confidence accepted (basis points).
    pub min_confidence: u32,
    pub preferred_aggregation: AggregationMethod,
    pub min_sources: u32,
    /// Circuit breaker threshold (basis points).
    pub circuit_breaker_threshold: u32,
    pub use_twap: bool,
    /// Default TWAP period (seconds).
    pub twap_period: u64,
}

/// A registered adapter.
#[derive(Debug, PartialEq, Eq)]
pub struct AdapterConfig {
    pub address: String,
    pub name: String,
    pub adapter_type: PriceSourceType,
    pub supported_categories: Vec<AssetCategory>,
    /// Adapter-specific settings, as name and value.
    pub settings: Vec<(String, String)>,
    pub active: bool,
}

/// An adapter as a mathematical value.
pub struct AdapterRecord {
    pub address: Seq<char>,
    pub name: Seq<char>,
    pub adapter_type: PriceSourceType,
    pub supported_categories: Seq<AssetCategory>,
    pub settings: Seq<(Seq<char>, Seq<char>)>,
    pub active: bool,
}

/// The views of a list of settings.
pub open spec fn settings_view(s: Seq<(String, String)>) -> Seq<(Seq<char>, Seq<char>)> {
    s.map_values(|p: (String, String)| (p.0@, p.1@))
}

/// The model of an adapter.
pub open spec fn adapter_record(a: AdapterConfig) -> AdapterRecord {
    AdapterRecord {
        address: a.address@,
        name: a.name@,
        adapter_type: a.adapter_type,
        supported_categories: a.supported_categories@,
        settings: settings_view(a.settings@),
        active: a.active,
    }
}

/// A copy of a list of categories.
pub(crate) fn copy_categories(v: &Vec<AssetCategory>) -> (r: Vec<AssetCategory>)
    ensures
        r@ == v@,
{
    let mut out: Vec<AssetCategory> = Vec::new();
    let mut i: usize = 0;
    while i < v.len()
        invariant
            i <= v@.len(),
            out@ == v@.take(i as int),
        decreases v@.len() - i,
    {
        out.push(v[i]);
        proof {
            assert(out@ =~= v@.take(i + 1));
        }
        i = i + 1;
    }
    proof {
        assert(out@ =~= v@);
    }
    out
}

/// A copy of a list of settings.
fn copy_settings(v: &Vec<(String, String)>) -> (r: Vec<(String, String)>)
    ensures
        settings_view(r@) == settings_view(v@),
{
    let mut out: Vec<(String, String)> = Vec::new();
    let mut i: usize = 0;
    while i < v.len()
        invariant
            i <= v@.len(),
            settings_view(out@) == settings_view(v@.take(i as int)),
        decreases v@.len() - i,
    {
        let ghost before = out@;
        out.push((v[i].0.clone(), v[i].1.clone()));
        proof {
            assert(settings_view(out@) =~= settings_view(before).push((v@[i as int].0@, v@[i as int].1@)));
            assert(settings_view(v@.take(i + 1)) =~= settings_view(v@.take(i as int)).push(
                (v@[i as int].0@, v@[i as int].1@),
            ));
        }
        i = i + 1;
    }
    proof {
        assert(v@.take(v@.len() as int) =~= v@);
    }
    out
}

impl Clone for AdapterConfig {
    fn clone(&self) -> (r: Self)
        ensures
            adapter_record(r) == adapter_record(*self),
    {
        AdapterConfig {
            address: self.address.clone(),
            name: self.name.clone(),
            adapter_type: self.adapter_type,
            supported_categories: copy_categories(&self.supported_categories),
            settings: copy_settings(&self.settings),
            active: self.active,
        }
    }
}

/// Number under which a category's rules are stored.
pub open spec fn category_code(c: AssetCategory) -> u64 {
    match c {
        AssetCategory::Cryptocurrency => 0,
        AssetCategory::Stablecoin => 1,
        AssetCategory::RealWorldAsset => 2,
        AssetCategory::Forex => 3,
        AssetCategory::Native => 4,
        AssetCategory::DeFiToken => 5,
        AssetCategory::Wrapped => 6,
    }
}

/// Number under which a category's rules are stored.
fn code_of(c: AssetCategory) -> (r: u64)
    ensures
        r == category_code(c),
{
    match c {
        AssetCategory::Cryptocurrency => 0,
        AssetCategory::Stablecoin => 1,
        AssetCategory::RealWorldAsset => 2,
        AssetCategory::Forex => 3,
        AssetCategory::Native => 4,
        AssetCategory::DeFiToken => 5,
        AssetCategory::Wrapped => 6,
    }
}

/// The default rules of a category.
pub open spec fn default_category_config(c: AssetCategory) -> CategoryConfig {
    match c {
        AssetCategory::Stablecoin => CategoryConfig {
            category: c,
            max_price_age: MAX_PRICE_AGE_STABLECOIN,
            min_confidence: MIN_CONFIDENCE_STABLECOIN,
            preferred_aggregation: AggregationMethod::Median,
            min_sources: 2,
            circuit_breaker_threshold: 100,
            use_twap: false,
            twap_period: 60,
        },
        AssetCategory::RealWorldAsset => CategoryConfig {
            category: c,
            max_price_age: MAX_PRICE_AGE_RWA,
            min_confidence: MIN_CONFIDENCE_RWA,
            preferred_aggregation: AggregationMethod::ConfidenceWeighted,
            min_sources: 2,
            circuit_breaker_threshold: 500,
            use_twap: false,
            twap_period: 3600,
        },
        AssetCategory::Forex => CategoryConfig {
            category: c,
            max_price_age: MAX_PRICE_AGE_FOREX,
            min_confidence: MIN_CONFIDENCE_FOREX,
            preferred_aggregation: AggregationMethod::TimeWeightedAverage,
            min_sources: 3,
            circuit_breaker_threshold: 200,
            use_twap: true,
            twap_period: 60,
        },
        _ => CategoryConfig {
            category: c,
            max_price_age: MAX_PRICE_AGE_CRYPTO,
            min_confidence: MIN_CONFIDENCE_CRYPTO,
            preferred_aggregation: AggregationMethod::WeightedAverage,
            min_sources: 3,
            circuit_breaker_threshold: if c == AssetCategory::DeFiToken { 1500 } else { 1000 },
            use_twap: true,
            twap_period: 300,
        },
    }
}

/// The default rules of a category.
fn make_default_config(c: AssetCategory) -> (r: CategoryConfig)
    ensures
        r == default_category_config(c),
{
    match c {
        AssetCategory::Stablecoin => CategoryConfig {
            category: c,
            max_price_age: MAX_PRICE_AGE_STABLECOIN,
            min_confidence: MIN_CONFIDENCE_STABLECOIN,
            preferred_aggregation: AggregationMethod::Median,
            min_sources: 2,
            circuit_breaker_threshold: 100,
            use_twap: false,
            twap_period: 60,
        },
        AssetCategory::RealWorldAsset => CategoryConfig {
            category: c,
            max_price_age: MAX_PRICE_AGE_RWA,
            min_confidence: MIN_CONFIDENCE_RWA,
            preferred_aggregation: AggregationMethod::ConfidenceWeighted,
            min_sources: 2,
            circuit_breaker_threshold: 500,
            use_twap: false,
            twap_period: 3600,
        },
        AssetCategory::Forex => CategoryConfig {
            category: c,
            max_price_age: MAX_PRICE_AGE_FOREX,
            min_confidence: MIN_CONFIDENCE_FOREX,
            preferred_aggregation: AggregationMethod::TimeWeightedAverage,
            min_sources: 3,
            circuit_breaker_threshold: 200,
            use_twap: true,
            twap_period: 60,
        },
        _ => CategoryConfig {
            category: c,
            max_price_age: MAX_PRICE_AGE_CRYPTO,
            min_confidence: MIN_CONFIDENCE_CRYPTO,
            preferred_aggregation: AggregationMethod::WeightedAverage,
            min_sources: 3,
            circuit_breaker_threshold: if c == AssetCategory::DeFiToken { 1500 } else { 1000 },
            use_twap: true,
            twap_period: 300,
        },
    }
}

/// The rules of every category after initialization, by category code.
pub open spec fn default_configs() -> Map<u64, CategoryConfig> {
    Map::new(|k: u64| k < 7, |k: u64| default_category_config(category_of_code(k)))
}

/// The category stored under a code below 7.
pub open spec fn category_of_code(k: u64) -> AssetCategory {
    if k == 0 {
        AssetCategory::Cryptocurrency
    } else if k == 1 {
        AssetCategory::Stablecoin
    } else if k == 2 {
        AssetCategory::RealWorldAsset
    } else if k == 3 {
        AssetCategory::Forex
    } else if k == 4 {
        AssetCategory::Native
    } else if k == 5 {
        AssetCategory::DeFiToken
    } else {
        AssetCategory::Wrapped
    }
}

/// Mathematical model of the contract.
pub struct AdaptersView {
    pub admin: Option<Seq<char>>,
    pub adapters: Map<Seq<char>, AdapterRecord>,
    /// Rules by category code.
    pub category_configs: Map<u64, CategoryConfig>,
}

/// The adapter registry and the category rules.
pub struct PriceFeedAdaptersContract {
    admin: Option<String>,
    adapters: Vec<(String, AdapterConfig)>,
    category_configs: Vec<(u64, CategoryConfig)>,
}

impl View for PriceFeedAdaptersContract {
    type V = AdaptersView;

    closed spec fn view(&self) -> AdaptersView {
        AdaptersView {
            admin: match self.admin {
                Some(a) => Some(a@),
                None => None,
            },
            adapters: to_map(self.adapters@).map_values(|a: AdapterConfig| adapter_record(a)),
            category_configs: id_map(self.category_configs@),
        }
    }
}

/// `r` is the error with text `msg`.
pub open spec fn fails_with<T>(r: Result<T, String>, msg: Seq<char>) -> bool {
    r matches Err(e) && e@ == msg
}

/// Whether an adapter serves `category` now: active and listing it.
pub open spec fn serves(a: AdapterRecord, category: AssetCategory) -> bool {
    a.active && a.supported_categories.contains(category)
}

/// The adapters of a table serving `category`, in table order.
pub open spec fn serving(s: Seq<(String, AdapterConfig)>, category: AssetCategory) -> Seq<AdapterRecord>
    decreases s.len(),
{
    if s.len() == 0 {
        Seq::empty()
    } else if serves(adapter_record(s.last().1), category) {
        serving(s.drop_last(), category).push(adapter_record(s.last().1))
    } else {
        serving(s.drop_last(), category)
    }
}

impl PriceFeedAdaptersContract {
    /// One adapter per address and one rule set per category code.
    pub closed spec fn wf(&self) -> bool {
        &&& distinct_keys(self.adapters@)
        &&& distinct_ids(self.category_configs@)
    }

    /// The adapter table, in registration order.
    pub closed spec fn adapter_table(&self) -> Seq<(String, AdapterConfig)> {
        self.adapters@
    }

    /// A contract that has not been initialized.
    pub fn new() -> (r: Self)
        ensures
            r.wf(),
            r@ == (AdaptersView { admin: None, adapters: Map::empty(), category_configs: Map::empty() }),
    {
        let r = PriceFeedAdaptersContract { admin: None, adapters: Vec::new(), category_configs: Vec::new() };
        proof {
            assert(to_map(r.adapters@).map_values(|a: AdapterConfig| adapter_record(a)) =~= Map::<
                Seq<char>,
                AdapterRecord,
            >::empty());
            assert(id_map(r.category_configs@) =~= Map::<u64, CategoryConfig>::empty());
        }
        r
    }

    /// Set the admin, start with no adapters and the default rules of every
    /// category; only once.
    pub fn initialize(&mut self, admin: &str) -> (r: Result<(), String>)
        requires
            old(self).wf(),
        ensures
            final(self).wf(),
            old(self)@.admin is Some ==> fails_with(r, "Already initialized"@) && final(self)@ == old(self)@,
            old(self)@.admin is None ==> r is Ok && final(self)@ == (AdaptersView {
                admin: Some(admin@),
                adapters: Map::empty(),
                category_configs: default_configs(),
            }),
    {
        if self.admin.is_some() {
            proof {
                reveal_strlit("Already initialized");
            }
            return Err(String::from_str("Already initialized"));
        }
        self.admin = Some(String::from_str(admin));
        self.adapters = Vec::new();
        let mut configs: Vec<(u64, CategoryConfig)> = Vec::new();
        upsert_id(&mut configs, 0, make_default_config(AssetCategory::Cryptocurrency));
        upsert_id(&mut configs, 1, make_default_config(AssetCategory::Stablecoin));
        upsert_id(&mut configs, 2, make_default_config(AssetCategory::RealWorldAsset));
        upsert_id(&mut configs, 3, make_default_config(AssetCategory::Forex));
        upsert_id(&mut configs, 4, make_default_config(AssetCategory::Native));
        upsert_id(&mut configs, 5, make_default_config(AssetCategory::DeFiToken));
        upsert_id(&mut configs, 6, make_default_config(AssetCategory::Wrapped));
        self.category_configs = configs;
        proof {
            assert(to_map(self.adapters@).map_values(|a: AdapterConfig| adapter_record(a)) =~= Map::<
                Seq<char>,
                AdapterRecord,
            >::empty());
            assert(id_map(self.category_configs@) =~= default_configs());
        }
        Ok(())
    }

    /// Whether `caller` is the stored admin.
    fn is_admin(&self, caller: &str) -> (r: bool)
        ensures
            r == (self@.admin == Some(caller@)),
    {
        let who = String::from_str(caller);
        match &self.admin {
            Some(a) => *a == who,
            None => false,
        }
    }

    /// Register an active adapter with no settings (only the contract itself;
    /// each address once).
    pub fn register_adapter(
        &mut self,
        contract_address: &str,
        adapter_address: &str,
        name: String,
        adapter_type: PriceSourceType,
        supported_categories: Vec<AssetCategory>,
    ) -> (r: Result<(), String>)
        requires
            old(self).wf(),
            old(self)@.admin is Some,
        ensures
            final(self).wf(),
            old(self)@.admin != Some(contract_address@) ==> fails_with(r, "Not authorized"@),
            old(self)@.admin == Some(contract_address@) && old(self)@.adapters.dom().contains(adapter_address@)
                ==> fails_with(r, "Adapter already registered"@),
            old(self)@.admin == Some(contract_address@) && !old(self)@.adapters.dom().contains(adapter_address@) ==> r is Ok,
            r is Err ==> final(self)@ == old(self)@,
            r is Ok ==> old(self)@.admin == Some(contract_address@) && !old(self)@.adapters.dom().contains(
                adapter_address@,
            ) && final(self)@ == (AdaptersView {
                adapters: old(self)@.adapters.insert(
                    adapter_address@,
                    AdapterRecord {
                        address: adapter_address@,
                        name: name@,
                        adapter_type,
                        supported_categories: supported_categories@,
                        settings: Seq::empty(),
                        active: true,
                    },
                ),
                ..old(self)@
            }),
    {
        proof {
            reveal_strlit("Not authorized");
            reveal_strlit("Adapter already registered");
        }
        if !self.is_admin(contract_address) {
            return Err(String::from_str("Not authorized"));
        }
        if find_key(&self.adapters, adapter_address).is_some() {
            return Err(String::from_str("Adapter already registered"));
        }
        let settings: Vec<(String, String)> = Vec::new();
        let config = AdapterConfig {
            address: String::from_str(adapter_address),
            name,
            adapter_type,
            supported_categories,
            settings,
            active: true,
        };
        let ghost rec = adapter_record(config);
        proof {
            assert(settings_view(settings@) =~= Seq::<(Seq<char>, Seq<char>)>::empty());
        }
        let ghost a0 = self.adapters@;
        upsert(&mut self.adapters, adapter_address, config);
        proof {
            assert(to_map(self.adapters@).map_values(|a: AdapterConfig| adapter_record(a)) =~= to_map(a0).map_values(
                |a: AdapterConfig| adapter_record(a),
            ).insert(adapter_address@, rec));
        }
        Ok(())
    }

    /// Replace the settings and set the activity of a registered adapter, where
    /// given (only the contract itself).
    fn change_adapter(
        &mut self,
        contract_address: &str,
        adapter_address: &str,
        settings: Option<Vec<(String, String)>>,
        active: Option<bool>,
    ) -> (r: Result<(), String>)
        requires
            old(self).wf(),
        ensures
            final(self).wf(),
            old(self)@.admin != Some(contract_address@) ==> fails_with(r, "Not authorized"@),
            old(self)@.admin == Some(contract_address@) && !old(self)@.adapters.dom().contains(adapter_address@)
                ==> fails_with(r, "Adapter not registered"@),
            old(self)@.admin == Some(contract_address@) && old(self)@.adapters.dom().contains(adapter_address@) ==> r is Ok,
            r is Err ==> final(self)@ == old(self)@,
            r is Ok ==> old(self)@.admin == Some(contract_address@) && old(self)@.adapters.dom().contains(
                adapter_address@,
            ) && final(self)@ == (AdaptersView {
                adapters: old(self)@.adapters.insert(
                    adapter_address@,
                    AdapterRecord {
                        settings: match settings {
                            Some(s) => settings_view(s@),
                            None => old(self)@.adapters[adapter_address@].settings,
                        },
                        active: match active {
                            Some(b) => b,
                            None => old(self)@.adapters[adapter_address@].active,
                        },
                        ..old(self)@.adapters[adapter_address@]
                    },
                ),
                ..old(self)@
            }),
    {
        proof {
            reveal_strlit("Not authorized");
            reveal_strlit("Adapter not registered");
        }
        if !self.is_admin(contract_address) {
            return Err(String::from_str("Not authorized"));
        }
        let i = match find_key(&self.adapters, adapter_address) {
            Some(i) => i,
            None => return Err(String::from_str("Adapter not registered")),
        };
        let mut config = self.adapters[i].1.clone();
        match settings {
            Some(s) => {
                config.settings = s;
            },
            None => {},
        }
        match active {
            Some(b) => {
                config.active = b;
            },
            None => {},
        }
        let ghost rec = adapter_record(config);
        let ghost a0 = self.adapters@;
        upsert(&mut self.adapters, adapter_address, config);
        proof {
            assert(to_map(self.adapters@).map_values(|a: AdapterConfig| adapter_record(a)) =~= to_map(a0).map_values(
                |a: AdapterConfig| adapter_record(a),
            ).insert(adapter_address@, rec));
        }
        Ok(())
    }

    /// Replace an adapter's settings (only the contract itself).
    pub fn update_adapter_settings(
        &mut self,
        contract_address: &str,
        adapter_address: &str,
        settings: Vec<(String, String)>,
    ) -> (r: Result<(), String>)
        requires
            old(self).wf(),
        ensures
            final(self).wf(),
            old(self)@.admin != Some(contract_address@) ==> fails_with(r, "Not authorized"@),
            old(self)@.admin == Some(contract_address@) && !old(self)@.adapters.dom().contains(adapter_address@)
                ==> fails_with(r, "Adapter not registered"@),
            old(self)@.admin == Some(contract_address@) && old(self)@.adapters.dom().contains(adapter_address@) ==> r is Ok,
            r is Err ==> final(self)@ == old(self)@,
            r is Ok ==> old(self)@.admin == Some(contract_address@) && old(self)@.adapters.dom().contains(
                adapter_address@,
            ) && final(self)@ == (AdaptersView {
                adapters: old(self)@.adapters.insert(
                    adapter_address@,
                    AdapterRecord { settings: settings_view(settings@), ..old(self)@.adapters[adapter_address@] },
                ),
                ..old(self)@
            }),
    {
        self.change_adapter(contract_address, adapter_address, Some(settings), None)
    }

    /// Activate an adapter (only the contract itself).
    pub fn activate_adapter(&mut self, contract_address: &str, adapter_address: &str) -> (r: Result<(), String>)
        requires
            old(self).wf(),
        ensures
            final(self).wf(),
            old(self)@.admin != Some(contract_address@) ==> fails_with(r, "Not authorized"@),
            old(self)@.admin == Some(contract_address@) && !old(self)@.adapters.dom().contains(adapter_address@)
                ==> fails_with(r, "Adapter not registered"@),
            old(self)@.admin == Some(contract_address@) && old(self)@.adapters.dom().contains(adapter_address@) ==> r is Ok,
            r is Err ==> final(self)@ == old(self)@,
            r is Ok ==> old(self)@.adapters.dom().contains(adapter_address@) && final(self)@ == (AdaptersView {
                adapters: old(self)@.adapters.insert(
                    adapter_address@,
                    AdapterRecord { active: true, ..old(self)@.adapters[adapter_address@] },
                ),
                ..old(self)@
            }),
    {
        self.change_adapter(contract_address, adapter_address, None, Some(true))
    }

    /// Deactivate an adapter (only the contract itself).
    pub fn deactivate_adapter(&mut self, contract_address: &str, adapter_address: &str) -> (r: Result<(), String>)
        requires
            old(self).wf(),
        ensures
            final(self).wf(),
            old(self)@.admin != Some(contract_address@) ==> fails_with(r, "Not authorized"@),
            old(self)@.admin == Some(contract_address@) && !old(self)@.adapters.dom().contains(adapter_address@)
                ==> fails_with(r, "Adapter not registered"@),
            old(self)@.admin == Some(contract_address@) && old(self)@.adapters.dom().contains(adapter_address@) ==> r is Ok,
            r is Err ==> final(self)@ == old(self)@,
            r is Ok ==> old(self)@.adapters.dom().contains(adapter_address@) && final(self)@ == (AdaptersView {
                adapters: old(self)@.adapters.insert(
                    adapter_address@,
                    AdapterRecord { active: false, ..old(self)@.adapters[adapter_address@] },
                ),
                ..old(self)@
            }),
    {
        self.change_adapter(contract_address, adapter_address, None, Some(false))
    }

    /// Replace the rules of a category (only the contract itself).
    pub fn update_category_config(&mut self, contract_address: &str, category: AssetCategory, config: CategoryConfig) -> (r:
        Result<(), String>)
        requires
            old(self).wf(),
        ensures
            final(self).wf(),
            old(self)@.admin != Some(contract_address@) ==> fails_with(r, "Not authorized"@) && final(self)@ == old(self)@,
            old(self)@.admin == Some(contract_address@) ==> r is Ok && final(self)@ == (AdaptersView {
                category_configs: old(self)@.category_configs.insert(category_code(category), config),
                ..old(self)@
            }),
    {
        if !self.is_admin(contract_address) {
            proof {
                reveal_strlit("Not authorized");
            }
            return Err(String::from_str("Not authorized"));
        }
        upsert_id(&mut self.category_configs, code_of(category), config);
        Ok(())
    }

    /// The rules of a category.
    pub fn get_category_config(&self, category: AssetCategory) -> (r: Result<CategoryConfig, String>)
        requires
            self.wf(),
        ensures
            self@.category_configs.dom().contains(category_code(category)) ==> r == Ok::<CategoryConfig, String>(
                self@.category_configs[category_code(category)],
            ),
            !self@.category_configs.dom().contains(category_code(category)) ==> fails_with(
                r,
                "Category config not found"@,
            ),
    {
        match find_id(&self.category_configs, code_of(category)) {
            Some(i) => Ok(self.category_configs[i].1),
            None => {
                proof {
                    reveal_strlit("Category config not found");
                }
                Err(String::from_str("Category config not found"))
            },
        }
    }

    /// A registered adapter.
    pub fn get_adapter_config(&self, adapter_address: &str) -> (r: Result<AdapterConfig, String>)
        requires
            self.wf(),
        ensures
            self@.adapters.dom().contains(adapter_address@) ==> (r matches Ok(a) && adapter_record(a)
                == self@.adapters[adapter_address@]),
            !self@.adapters.dom().contains(adapter_address@) ==> fails_with(r, "Adapter not found"@),
    {
        match find_key(&self.adapters, adapter_address) {
            Some(i) => Ok(self.adapters[i].1.clone()),
            None => {
                proof {
                    reveal_strlit("Adapter not found");
                }
                Err(String::from_str("Adapter not found"))
            },
        }
    }

    /// The active adapters listing `category`, in registration order.
    pub fn get_adapters_for_category(&self, category: AssetCategory) -> (r: Vec<AdapterConfig>)
        ensures
            r@.map_values(|a: AdapterConfig| adapter_record(a)) == serving(self.adapter_table(), category),
    {
        let mut out: Vec<AdapterConfig> = Vec::new();
        let mut i: usize = 0;
        while i < self.adapters.len()
            invariant
                i <= self.adapters@.len(),
                out@.map_values(|a: AdapterConfig| adapter_record(a)) == serving(self.adapters@.take(i as int), category),
            decreases self.adapters@.len() - i,
        {
            proof {
                assert(self.adapters@.take(i + 1).drop_last() =~= self.adapters@.take(i as int));
            }
            let config = &self.adapters[i].1;
            let mut listed = false;
            if config.active {
                let mut j: usize = 0;
                while j < config.supported_categories.len()
                    invariant
                        j <= config.supported_categories@.len(),
                        listed == config.supported_categories@.take(j as int).contains(category),
                    decreases config.supported_categories@.len() - j,
                {
                    proof {
                        assert(config.supported_categories@.take(j + 1) =~= config.supported_categories@.take(
                            j as int,
                        ).push(config.supported_categories@[j as int]));
                    }
                    if config.supported_categories[j] == category {
                        listed = true;
                    }
                    proof {
                        let t0 = config.supported_categories@.take(j as int);
                        let t1 = config.supported_categories@.take(j + 1);
                        let x = config.supported_categories@[j as int];
                        if t1.contains(category) {
                            let k = choose|k: int| 0 <= k < t1.len() && t1[k] == category;
                            if k < j {
                                assert(t0[k] == category);
                            }
                        }
                        if t0.contains(category) {
                            let k = choose|k: int| 0 <= k < t0.len() && t0[k] == category;
                            assert(t1[k] == category);
                        }
                        if x == category {
                            assert(t1[j as int] == category);
                        }
                    }
                    j = j + 1;
                }
                proof {
                    assert(config.supported_categories@.take(config.supported_categories@.len() as int)
                        =~= config.supported_categories@);
                }
            }
            if listed {
                let ghost before = out@;
                let c = config.clone();
                out.push(c);
                proof {
                    assert(out@.map_values(|a: AdapterConfig| adapter_record(a)) =~= before.map_values(
                        |a: AdapterConfig| adapter_record(a),
                    ).push(adapter_record(c)));
                }
            }
            i = i + 1;
        }
        proof {
            assert(self.adapters@.take(self.adapters@.len() as int) =~= self.adapters@);
        }
        out
    }

    /// Whether `price` passes the rules of `category` at `now`: not older than
    /// the category allows and confident enough (false for a category without
    /// rules).
    pub fn validate_price(&self, category: AssetCategory, price: &FeedPrice, now: u64) -> (r: bool)
        requires
            self.wf(),
            self@.category_configs.dom().contains(category_code(category)) ==> price.timestamp <= now,
        ensures
            r == (self@.category_configs.dom().contains(category_code(category)) && now - price.timestamp
                <= self@.category_configs[category_code(category)].max_price_age && price.confidence
                >= self@.category_configs[category_code(category)].min_confidence),
    {
        let config = match find_id(&self.category_configs, code_of(category)) {
            Some(i) => self.category_configs[i].1,
            None => return false,
        };
        if now - price.timestamp > config.max_price_age {
            return false;
        }
        if price.confidence < config.min_confidence {
            return false;
        }
        true
    }

    /// The preferred aggregation of a category (weighted average for one without
    /// rules).
    pub fn get_recommended_aggregation(&self, category: AssetCategory) -> (r: AggregationMethod)
        requires
            self.wf(),
        ensures
            self@.category_configs.dom().contains(category_code(category)) ==> r == self@.category_configs[category_code(
                category,
            )].preferred_aggregation,
            !self@.category_configs.dom().contains(category_code(category)) ==> r == AggregationMethod::WeightedAverage,
    {
        match find_id(&self.category_configs, code_of(category)) {
            Some(i) => self.category_configs[i].1.preferred_aggregation,
            None => AggregationMethod::WeightedAverage,
        }
    }

    /// Every registered adapter, in registration order.
    pub fn get_all_adapters(&self) -> (r: Vec<AdapterConfig>)
        ensures
            r@.map_values(|a: AdapterConfig| adapter_record(a)) == self.adapter_table().map_values(
                |e: (String, AdapterConfig)| adapter_record(e.1),
            ),
    {
        let mut out: Vec<AdapterConfig> = Vec::new();
        let mut i: usize = 0;
        while i < self.adapters.len()
            invariant
                i <= self.adapters@.len(),
                out@.map_values(|a: AdapterConfig| adapter_record(a)) == self.adapters@.take(i as int).map_values(
                    |e: (String, AdapterConfig)| adapter_record(e.1),
                ),
            decreases self.adapters@.len() - i,
        {
            let ghost before = out@;
            let c = self.adapters[i].1.clone();
            out.push(c);
            proof {
                assert(self.adapters@.take(i + 1) =~= self.adapters@.take(i as int).push(self.adapters@[i as int]));
                assert(out@.map_values(|a: AdapterConfig| adapter_record(a)) =~= before.map_values(
                    |a: AdapterConfig| adapter_record(a),
                ).push(adapter_record(c)));
                assert(out@.map_values(|a: AdapterConfig| adapter_record(a)) =~= self.adapters@.take(i + 1).map_values(
                    |e: (String, AdapterConfig)| adapter_record(e.1),
                ));
            }
            i = i + 1;
        }
        proof {
            assert(self.adapters@.take(self.adapters@.len() as int) =~= self.adapters@);
        }
        out
    }

    /// The rules of every category, with their category codes.
    pub fn get_all_category_configs(&self) -> (r: Vec<(u64, CategoryConfig)>)
        requires
            self.wf(),
        ensures
            distinct_ids(r@),
            id_map(r@) == self@.category_configs,
    {
        let mut out: Vec<(u64, CategoryConfig)> = Vec::new();
        let mut i: usize = 0;
        while i < self.category_configs.len()
            invariant
                i <= self.category_configs@.len(),
                out@ == self.category_configs@.take(i as int),
            decreases self.category_configs@.len() - i,
        {
            out.push(self.category_configs[i]);
            proof {
                assert(out@ =~= self.category_configs@.take(i + 1));
            }
            i = i + 1;
        }
        proof {
            assert(out@ =~= self.category_configs@);
        }
        out
    }
}

} // verus!
