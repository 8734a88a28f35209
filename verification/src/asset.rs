//! Asset records kept by the protocol's asset registry.

use vstd::prelude::*;

verus! {

/// Why an asset was added to or removed from a list.
#[derive(Clone, Copy, Debug, PartialEq, Eq, Structural)]
pub enum ListChangeReason {
    /// Decided by a governance vote.
    GovernanceVote,
    /// A security risk was found.
    SecurityRisk,
    /// Required for regulatory compliance.
    RegulatoryCompliance,
    /// The asset is deprecated.
    Deprecated,
}

/// An entry of the allowlist or the blocklist.
#[derive(Debug, PartialEq, Eq)]
pub struct RegistryListEntry {
    /// The listed asset.
    pub asset_id: String,
    /// Admin that made the change.
    pub changed_by: String,
    /// Why the asset was listed.
    pub reason: ListChangeReason,
    /// When the change was recorded.
    pub recorded_at: u64,
    /// Whether the entry is in force.
    pub active: bool,
}

impl Clone for RegistryListEntry {
    fn clone(&self) -> (r: Self)
        ensures
            r == *self,
    {
        RegistryListEntry {
            asset_id: self.asset_id.clone(),
            changed_by: self.changed_by.clone(),
            reason: self.reason,
            recorded_at: self.recorded_at,
            active: self.active,
        }
    }
}

/// A change of the allowlist or the blocklist.
#[derive(Debug, PartialEq, Eq)]
pub enum ListChangeEvent {
    /// An asset was allowlisted.
    AllowlistAdded { asset_id: String, changed_by: String, reason: ListChangeReason },
    /// An asset left the allowlist.
    AllowlistRemoved { asset_id: String, changed_by: String },
    /// An asset was blocklisted.
    BlocklistAdded { asset_id: String, changed_by: String, reason: ListChangeReason },
    /// An asset left the blocklist.
    BlocklistRemoved { asset_id: String, changed_by: String },
}

/// Token standard of an asset.
#[derive(Clone, Copy, Debug, PartialEq, Eq, Structural)]
pub enum TokenStandard {
    /// The native Stellar asset (XLM).
    StellarNative,
    /// A classic Stellar asset issued by an account.
    StellarClassic,
    /// A SEP-41 token contract.
    Sep41,
    /// A wrapped asset bridged from another chain.
    Wrapped,
}

/// Display name of a token standard.
pub open spec fn standard_name(s: TokenStandard) -> Seq<char> {
    match s {
        TokenStandard::StellarNative => "StellarNative"@,
        TokenStandard::StellarClassic => "StellarClassic"@,
        TokenStandard::Sep41 => "SEP-41"@,
        TokenStandard::Wrapped => "Wrapped"@,
    }
}

impl TokenStandard {
    /// Display name of the standard.
    pub fn name(&self) -> (r: &'static str)
        ensures
            r@ == standard_name(*self),
    {
        match self {
            TokenStandard::StellarNative => "StellarNative",
            TokenStandard::StellarClassic => "StellarClassic",
            TokenStandard::Sep41 => "SEP-41",
            TokenStandard::Wrapped => "Wrapped",
        }
    }
}

/// Metadata of a registered asset.
#[derive(Debug, PartialEq, Eq)]
pub struct ProtocolAssetMetadata {
    /// Canonical asset identifier.
    pub asset_id: String,
    /// Human-readable name.
    pub name: String,
    /// Ticker symbol.
    pub symbol: String,
    /// Number of decimals.
    pub decimals: u32,
    /// Token standard.
    pub standard: TokenStandard,
    /// Contract address (empty for the native asset).
    pub contract_address: String,
    /// When the asset was registered.
    pub registered_at: u64,
    /// When the metadata last changed.
    pub last_updated_at: u64,
    /// Whether the asset is active.
    pub active: bool,
}

impl Clone for ProtocolAssetMetadata {
    fn clone(&self) -> (r: Self)
        ensures
            r == *self,
    {
        ProtocolAssetMetadata {
            asset_id: self.asset_id.clone(),
            name: self.name.clone(),
            symbol: self.symbol.clone(),
            decimals: self.decimals,
            standard: self.standard,
            contract_address: self.contract_address.clone(),
            registered_at: self.registered_at,
            last_updated_at: self.last_updated_at,
            active: self.active,
        }
    }
}

/// Risk parameters of a collateral asset, in basis points.
#[derive(Debug, PartialEq, Eq)]
pub struct AssetRiskParams {
    /// The collateral asset.
    pub asset_id: String,
    /// Maximum loan-to-value ratio.
    pub ltv_bps: u32,
    /// Loan-to-value ratio at which positions are liquidated.
    pub liquidation_threshold_bps: u32,
    /// Penalty charged on liquidation.
    pub liquidation_penalty_bps: u32,
    /// When the parameters last changed.
    pub last_updated_at: u64,
}

/// Risk parameters are consistent: `ltv ≤ liquidation threshold ≤ 100%`.
pub open spec fn risk_params_valid(p: AssetRiskParams) -> bool {
    p.ltv_bps <= p.liquidation_threshold_bps && p.liquidation_threshold_bps <= 10_000
}

impl AssetRiskParams {
    /// Whether `ltv ≤ liquidation threshold ≤ 100%`.
    pub fn is_valid(&self) -> (r: bool)
        ensures
            r == risk_params_valid(*self),
    {
        self.ltv_bps <= self.liquidation_threshold_bps && self.liquidation_threshold_bps <= 10_000
    }
}

impl Clone for AssetRiskParams {
    fn clone(&self) -> (r: Self)
        ensures
            r == *self,
    {
        AssetRiskParams {
            asset_id: self.asset_id.clone(),
            ltv_bps: self.ltv_bps,
            liquidation_threshold_bps: self.liquidation_threshold_bps,
            liquidation_penalty_bps: self.liquidation_penalty_bps,
            last_updated_at: self.last_updated_at,
        }
    }
}

/// Lifecycle of an asset migration.
#[derive(Clone, Copy, Debug, PartialEq, Eq, Structural)]
pub enum MigrationStatus {
    /// Announced, not started.
    Pending,
    /// Snapshots taken, waiting for verification.
    InProgress,
    /// Verified and finalised.
    Completed,
    /// Abandoned before completion.
    Cancelled,
}

/// State of a migration from an old contract to a new one.
#[derive(Debug)]
pub struct MigrationState {
    /// The migrated asset.
    pub asset_id: String,
    /// Contract being replaced.
    pub old_contract: String,
    /// Replacement contract.
    pub new_contract: String,
    /// Holder balances on the old contract, one entry per holder.
    pub balance_snapshot: Vec<(String, u64)>,
    /// Approvals on the old contract: owner -> (spender -> amount).
    pub allowance_snapshot: Vec<(String, Vec<(String, u64)>)>,
    /// Total supply on the old contract at snapshot time.
    pub total_supply_snapshot: u64,
    /// Lifecycle status.
    pub status: MigrationStatus,
    /// Admin that started the migration.
    pub initiated_by: String,
    /// When it started.
    pub initiated_at: u64,
    /// When it completed (0 until then).
    pub completed_at: u64,
    /// Whether the old contract has been paused.
    pub old_contract_paused: bool,
}

/// An event of a migration's lifecycle.
#[derive(Debug, PartialEq, Eq)]
pub enum MigrationEvent {
    /// A migration started.
    Initiated { asset_id: String, old_contract: String, new_contract: String, initiated_by: String },
    /// Balances were verified on the new contract.
    BalancesMigrated { asset_id: String, accounts_migrated: u64, total_supply: u64 },
    /// Allowances were carried over.
    AllowancesMigrated { asset_id: String, allowances_migrated: u64 },
    /// The old contract was paused.
    OldContractPaused { asset_id: String, old_contract: String },
    /// The migration completed.
    Completed { asset_id: String, old_contract: String, new_contract: String },
    /// The migration was cancelled.
    Cancelled { asset_id: String, cancelled_by: String },
}

/// A price reported by a source.
#[derive(Clone, Copy, Debug, PartialEq, Eq, Structural)]
pub struct AssetPrice {
    /// The price, scaled by `10^decimals`.
    pub price: i128,
    /// Number of decimals of `price`.
    pub decimals: u32,
    /// When the price was observed (seconds or ledger sequence, per source).
    pub timestamp: u64,
}

} // verus!
