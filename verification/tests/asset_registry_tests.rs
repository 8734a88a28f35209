use stellar_defi_toolkit::asset_registry::{AssetRegistryContract, CrossChainAsset};
use stellar_defi_toolkit::feed_adapters::{AssetCategory, PriceSourceType};
use stellar_defi_toolkit::multi_asset_oracle::FeedPrice;

const SELF_ADDRESS: &str = "registry";

fn registry() -> AssetRegistryContract {
    let mut r = AssetRegistryContract::new();
    r.initialize(SELF_ADDRESS).unwrap();
    r.register_asset(SELF_ADDRESS, "XLM", "XLM".to_string(), "Lumen".to_string(), AssetCategory::Native, 7, 10)
        .unwrap();
    r
}

fn price(p: u64, confidence: u32) -> FeedPrice {
    FeedPrice {
        asset_id: "XLM".to_string(),
        price: p,
        decimals: 7,
        confidence,
        timestamp: 0,
        source: "s".to_string(),
        price_change_24h: 0,
        high_24h: p,
        low_24h: p,
        volume_24h: 0,
    }
}

#[test]
fn registration_defaults() {
    let mut r = registry();
    let e = r.get_asset("XLM").unwrap();
    assert!(e.metadata.active);
    assert_eq!(e.metadata.min_update_interval, 300);
    assert_eq!(e.metadata.registered_at, 10);
    assert_eq!(e.price_config.min_sources, 3);
    assert!(e.current_price.is_none());
    assert_eq!(
        r.register_asset(SELF_ADDRESS, "XLM", "X".to_string(), "X".to_string(), AssetCategory::Native, 7, 0),
        Err("Asset already registered".to_string())
    );
    assert_eq!(
        r.register_asset("intruder", "BTC", "B".to_string(), "B".to_string(), AssetCategory::Cryptocurrency, 8, 0),
        Err("Not authorized".to_string())
    );
    assert_eq!(r.get_asset("BTC").unwrap_err(), "Asset not registered");
    assert_eq!(r.get_assets_by_category(AssetCategory::Native).len(), 1);
    assert_eq!(r.get_assets_by_category(AssetCategory::Forex).len(), 0);
    assert_eq!(r.get_all_assets().len(), 1);
    assert_eq!(r.get_asset_stats("XLM").unwrap().total_updates, 0);
}

#[test]
fn price_updates_keep_history_and_stats() {
    let mut r = registry();
    assert_eq!(r.get_price("XLM").unwrap_err(), "No price available");
    r.update_price("XLM", price(100, 9000), 1_000).unwrap();
    assert_eq!(r.update_price("XLM", price(101, 8000), 1_299), Err("Update interval not met".to_string()));
    r.update_price("XLM", price(101, 8000), 1_300).unwrap();
    assert_eq!(r.get_price("XLM").unwrap().price, 101);
    let history = r.get_price_history("XLM").unwrap();
    assert_eq!(history.len(), 1);
    assert_eq!(history[0].price, 100);
    let stats = r.get_asset_stats("XLM").unwrap();
    assert_eq!(stats.total_updates, 2);
    assert_eq!(stats.avg_update_interval, 150);
    assert_eq!(stats.current_confidence, 8000);
    assert_eq!(stats.avg_confidence, 8500);
    r.deactivate_asset(SELF_ADDRESS, "XLM").unwrap();
    assert_eq!(r.update_price("XLM", price(1, 1), 5_000), Err("Asset is not active".to_string()));
    r.activate_asset(SELF_ADDRESS, "XLM").unwrap();
    r.pause(SELF_ADDRESS).unwrap();
    assert_eq!(r.update_price("XLM", price(1, 1), 5_000), Err("Registry is paused".to_string()));
}

#[test]
fn history_keeps_the_last_hundred() {
    let mut r = registry();
    for i in 0..103u64 {
        r.update_price("XLM", price(i, 9000), 1 + 300 * i).unwrap();
    }
    let history = r.get_price_history("XLM").unwrap();
    assert_eq!(history.len(), 100);
    assert_eq!(history[0].price, 2);
    assert_eq!(history[99].price, 101);
}

#[test]
fn sources_whitelist_and_links() {
    let mut r = registry();
    r.add_price_source(SELF_ADDRESS, "XLM", "s1").unwrap();
    assert_eq!(r.add_price_source(SELF_ADDRESS, "XLM", "s1"), Err("Source already approved".to_string()));
    assert_eq!(r.remove_price_source(SELF_ADDRESS, "XLM", "s2"), Err("Source not found".to_string()));
    r.remove_price_source(SELF_ADDRESS, "XLM", "s1").unwrap();
    assert!(r.get_asset("XLM").unwrap().metadata.approved_sources.is_empty());
    for i in 0..10 {
        r.add_price_source(SELF_ADDRESS, "XLM", &format!("s{}", i)).unwrap();
    }
    assert_eq!(r.add_price_source(SELF_ADDRESS, "XLM", "s10"), Err("Maximum price sources reached".to_string()));

    assert_eq!(
        r.register_price_source(SELF_ADDRESS, "p", "P".to_string(), PriceSourceType::Oracle, 0, vec![]),
        Err("Invalid weight".to_string())
    );
    r.register_price_source(SELF_ADDRESS, "p", "P".to_string(), PriceSourceType::Oracle, 5000, vec![]).unwrap();
    assert_eq!(
        r.register_price_source(SELF_ADDRESS, "p", "P".to_string(), PriceSourceType::Oracle, 5000, vec![]),
        Err("Price source already registered".to_string())
    );

    assert!(!r.is_whitelisted("XLM"));
    r.whitelist_asset(SELF_ADDRESS, "XLM", "core".to_string(), 5).unwrap();
    assert!(r.is_whitelisted("XLM"));
    assert_eq!(r.whitelist_asset(SELF_ADDRESS, "XLM", "again".to_string(), 6), Err("Asset already whitelisted".to_string()));
    r.remove_from_whitelist(SELF_ADDRESS, "XLM").unwrap();
    assert_eq!(r.remove_from_whitelist(SELF_ADDRESS, "XLM"), Err("Asset not whitelisted".to_string()));

    let link = CrossChainAsset {
        stellar_asset: "USDC".to_string(),
        source_chain: "ethereum".to_string(),
        source_address: "0xabc".to_string(),
        bridge_contract: "bridge".to_string(),
    };
    r.register_cross_chain_asset(SELF_ADDRESS, link).unwrap();
    assert_eq!(r.get_cross_chain_asset("USDC").unwrap().source_chain, "ethereum");
    assert_eq!(r.get_cross_chain_asset("BTC").unwrap_err(), "Cross-chain asset not found");
    assert_eq!(r.initialize("x"), Err("Already initialized".to_string()));
}
