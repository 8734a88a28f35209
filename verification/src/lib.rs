//! Verified core of a Stellar DeFi toolkit: asset registry, price oracles,
//! price history analytics, an AMM pool and oracle failover logic.

pub mod anomaly;
pub mod arbitrage;
pub mod arbitrage_state;
pub mod asset;
pub mod asset_registry;
pub mod asset_registry_protocol;
pub mod bucket_series;
pub mod compaction;
pub mod decentralized_oracle;
pub mod escrow;
pub mod failover;
pub mod feed_adapters;
pub mod flash_loan;
pub mod governance;
pub mod governance_v2;
pub mod history_manager;
pub mod idmap;
pub mod keyed;
pub mod liquidity_pool;
pub mod manager_contract;
pub mod multi_asset_oracle;
pub mod numeric;
pub mod oracle;
pub mod oracle_adapter;
pub mod oracle_fallback;
pub mod oracle_manager;
pub mod position_manager;
pub mod price_history;
pub mod text;
pub mod tokens;
pub mod types;
pub mod ws;

