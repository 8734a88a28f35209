use stellar_defi_toolkit::asset::{
    AssetRiskParams, ListChangeReason, MigrationStatus, ProtocolAssetMetadata, TokenStandard,
};
use stellar_defi_toolkit::asset_registry_protocol::{AssetRegistry, RegistryError};

fn registry() -> AssetRegistry {
    AssetRegistry::new(vec!["admin".to_string()])
}

fn metadata(id: &str, standard: TokenStandard, contract: &str) -> ProtocolAssetMetadata {
    ProtocolAssetMetadata {
        asset_id: id.to_string(),
        name: format!("{} token", id),
        symbol: id.to_string(),
        decimals: 7,
        standard,
        contract_address: contract.to_string(),
        registered_at: 0,
        last_updated_at: 0,
        active: false,
    }
}

#[test]
fn allowlist_then_query() {
    let mut reg = registry();
    assert!(!reg.is_allowed("XLM"));
    reg.allowlist_asset("admin", "XLM", ListChangeReason::GovernanceVote, 10).unwrap();
    assert!(reg.is_allowed("XLM"));
    assert_eq!(
        reg.allowlist_asset("admin", "XLM", ListChangeReason::GovernanceVote, 11),
        Err(RegistryError::AlreadyInList)
    );
}

#[test]
fn non_admin_is_refused_and_nothing_changes() {
    let mut reg = registry();
    assert_eq!(
        reg.allowlist_asset("mallory", "XLM", ListChangeReason::GovernanceVote, 10),
        Err(RegistryError::Unauthorized)
    );
    assert!(!reg.is_allowed("XLM"));
    assert!(reg.events().is_empty());
}

#[test]
fn blocklist_takes_precedence_over_allowlist() {
    let mut reg = registry();
    reg.allowlist_asset("admin", "USDC", ListChangeReason::GovernanceVote, 1).unwrap();
    reg.blocklist_asset("admin", "USDC", ListChangeReason::SecurityRisk, 2).unwrap();
    assert!(reg.is_blocked("USDC"));
    assert!(!reg.is_allowed("USDC"));
    reg.remove_from_blocklist("admin", "USDC").unwrap();
    assert!(!reg.is_blocked("USDC"));
    assert!(reg.is_allowed("USDC"));
}

#[test]
fn removing_an_unlisted_asset_fails() {
    let mut reg = registry();
    assert_eq!(reg.remove_from_allowlist("admin", "BTC"), Err(RegistryError::NotInList));
    assert_eq!(reg.remove_from_blocklist("admin", "BTC"), Err(RegistryError::NotInList));
}

#[test]
fn register_asset_checks_standard_and_duplicates() {
    let mut reg = registry();
    let err = reg.register_asset("admin", metadata("XLM", TokenStandard::StellarNative, "CABC"), 5).unwrap_err();
    assert_eq!(
        err,
        RegistryError::ValidationError("StellarNative assets must not have a contract address".to_string())
    );
    let err = reg.register_asset("admin", metadata("TKN", TokenStandard::Sep41, ""), 5).unwrap_err();
    assert_eq!(err, RegistryError::ValidationError("SEP-41 assets must have a contract address".to_string()));

    reg.register_asset("admin", metadata("XLM", TokenStandard::StellarNative, ""), 5).unwrap();
    assert!(reg.is_registered("XLM"));
    let m = reg.get_asset_metadata("XLM").unwrap();
    assert_eq!(m.registered_at, 5);
    assert_eq!(m.last_updated_at, 5);
    assert!(m.active);
    assert_eq!(
        reg.register_asset("admin", metadata("XLM", TokenStandard::StellarNative, ""), 6),
        Err(RegistryError::AlreadyRegistered)
    );
    assert_eq!(reg.all_assets().len(), 1);
}

#[test]
fn update_metadata_of_unknown_asset_fails() {
    let mut reg = registry();
    assert_eq!(
        reg.update_asset_metadata("admin", metadata("XLM", TokenStandard::StellarNative, ""), 3),
        Err(RegistryError::NotRegistered)
    );
}

#[test]
fn risk_params_are_validated() {
    let mut reg = registry();
    reg.register_asset("admin", metadata("XLM", TokenStandard::StellarNative, ""), 1).unwrap();
    let bad = AssetRiskParams {
        asset_id: "XLM".to_string(),
        ltv_bps: 9_000,
        liquidation_threshold_bps: 8_000,
        liquidation_penalty_bps: 500,
        last_updated_at: 0,
    };
    assert!(!bad.is_valid());
    assert_eq!(reg.set_risk_params("admin", bad, 2), Err(RegistryError::InvalidRiskParams));
    let good = AssetRiskParams {
        asset_id: "XLM".to_string(),
        ltv_bps: 7_000,
        liquidation_threshold_bps: 8_000,
        liquidation_penalty_bps: 500,
        last_updated_at: 0,
    };
    assert!(good.is_valid());
    reg.set_risk_params("admin", good, 3).unwrap();
    assert_eq!(reg.get_risk_params("XLM").unwrap().ltv_bps, 7_000);
    assert_eq!(reg.get_risk_params("XLM").unwrap().last_updated_at, 3);
}

#[test]
fn migration_lifecycle() {
    let mut reg = registry();
    reg.register_asset("admin", metadata("TKN", TokenStandard::Sep41, "COLD"), 1).unwrap();
    let balances = vec![("alice".to_string(), 60u64), ("bob".to_string(), 40u64)];
    let err = reg
        .initiate_migration("admin", "TKN", "COLD", "CNEW", balances.clone(), Vec::new(), 99, 2)
        .unwrap_err();
    assert_eq!(
        err,
        RegistryError::ValidationError("balance snapshot sum (100) does not equal total_supply (99)".to_string())
    );
    reg.initiate_migration("admin", "TKN", "COLD", "CNEW", balances, Vec::new(), 100, 2).unwrap();
    assert_eq!(reg.get_migration_state("TKN").unwrap().status, MigrationStatus::InProgress);
    assert_eq!(
        reg.initiate_migration("admin", "TKN", "COLD", "CNEW", Vec::new(), Vec::new(), 0, 3),
        Err(RegistryError::MigrationAlreadyActive)
    );

    let wrong = vec![("alice".to_string(), 60u64)];
    let err = reg.complete_migration("admin", "TKN", &wrong, 4).unwrap_err();
    assert_eq!(err, RegistryError::ValidationError("balance mismatch for bob: expected 40, got 0".to_string()));

    let right = vec![("bob".to_string(), 40u64), ("alice".to_string(), 60u64)];
    reg.complete_migration("admin", "TKN", &right, 5).unwrap();
    let st = reg.get_migration_state("TKN").unwrap();
    assert_eq!(st.status, MigrationStatus::Completed);
    assert!(st.old_contract_paused);
    assert_eq!(st.completed_at, 5);
    assert_eq!(reg.cancel_migration("admin", "TKN"), Err(RegistryError::MigrationNotInProgress));
}

#[test]
fn migration_requires_registration_and_can_be_cancelled() {
    let mut reg = registry();
    assert_eq!(
        reg.initiate_migration("admin", "TKN", "COLD", "CNEW", Vec::new(), Vec::new(), 0, 1),
        Err(RegistryError::NotRegistered)
    );
    assert_eq!(reg.cancel_migration("admin", "TKN"), Err(RegistryError::NoActiveMigration));
    reg.register_asset("admin", metadata("TKN", TokenStandard::Sep41, "COLD"), 1).unwrap();
    reg.initiate_migration("admin", "TKN", "COLD", "CNEW", Vec::new(), Vec::new(), 0, 2).unwrap();
    reg.cancel_migration("admin", "TKN").unwrap();
    assert_eq!(reg.get_migration_state("TKN").unwrap().status, MigrationStatus::Cancelled);
    // a cancelled migration cannot be cancelled again
    assert_eq!(reg.cancel_migration("admin", "TKN"), Err(RegistryError::MigrationNotInProgress));
    assert_eq!(
        reg.complete_migration("admin", "TKN", &Vec::new(), 3),
        Err(RegistryError::MigrationNotInProgress)
    );
}

#[test]
fn registry_error_messages() {
    assert_eq!(RegistryError::Unauthorized.message(), "caller is not an admin");
    assert_eq!(RegistryError::ValidationError("x".to_string()).message(), "validation error: x");
    assert_eq!(TokenStandard::Sep41.name(), "SEP-41");
}
