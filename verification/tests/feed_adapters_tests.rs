use stellar_defi_toolkit::feed_adapters::{AssetCategory, PriceFeedAdaptersContract, PriceSourceType};
use stellar_defi_toolkit::manager_contract::AggregationMethod;
use stellar_defi_toolkit::multi_asset_oracle::FeedPrice;

const SELF_ADDRESS: &str = "adapters";

fn contract() -> PriceFeedAdaptersContract {
    let mut c = PriceFeedAdaptersContract::new();
    c.initialize(SELF_ADDRESS).unwrap();
    c
}

fn price(confidence: u32, timestamp: u64) -> FeedPrice {
    FeedPrice {
        asset_id: "XLM".to_string(),
        price: 1,
        decimals: 7,
        confidence,
        timestamp,
        source: "s".to_string(),
        price_change_24h: 0,
        high_24h: 1,
        low_24h: 1,
        volume_24h: 0,
    }
}

#[test]
fn default_category_rules() {
    let c = contract();
    let stable = c.get_category_config(AssetCategory::Stablecoin).unwrap();
    assert_eq!((stable.max_price_age, stable.min_confidence), (60, 9000));
    assert_eq!(c.get_recommended_aggregation(AssetCategory::Forex), AggregationMethod::TimeWeightedAverage);
    assert_eq!(c.get_category_config(AssetCategory::DeFiToken).unwrap().circuit_breaker_threshold, 1500);
    assert_eq!(c.get_all_category_configs().len(), 7);
    assert!(c.validate_price(AssetCategory::Stablecoin, &price(9000, 940), 1000));
    assert!(!c.validate_price(AssetCategory::Stablecoin, &price(9000, 939), 1000));
    assert!(!c.validate_price(AssetCategory::Stablecoin, &price(8999, 1000), 1000));
    assert!(c.validate_price(AssetCategory::RealWorldAsset, &price(6000, 0), 3600));
}

#[test]
fn adapter_registry() {
    let mut c = contract();
    assert_eq!(c.initialize("x"), Err("Already initialized".to_string()));
    assert_eq!(
        c.register_adapter("intruder", "a1", "One".to_string(), PriceSourceType::Oracle, vec![]),
        Err("Not authorized".to_string())
    );
    c.register_adapter(SELF_ADDRESS, "a1", "One".to_string(), PriceSourceType::Oracle, vec![AssetCategory::Forex])
        .unwrap();
    c.register_adapter(
        SELF_ADDRESS,
        "a2",
        "Two".to_string(),
        PriceSourceType::Dex,
        vec![AssetCategory::Cryptocurrency, AssetCategory::Forex],
    )
    .unwrap();
    assert_eq!(
        c.register_adapter(SELF_ADDRESS, "a1", "Again".to_string(), PriceSourceType::Oracle, vec![]),
        Err("Adapter already registered".to_string())
    );
    assert_eq!(c.get_adapters_for_category(AssetCategory::Forex).len(), 2);
    c.deactivate_adapter(SELF_ADDRESS, "a1").unwrap();
    let forex = c.get_adapters_for_category(AssetCategory::Forex);
    assert_eq!(forex.len(), 1);
    assert_eq!(forex[0].address, "a2");
    assert_eq!(c.get_adapters_for_category(AssetCategory::Wrapped).len(), 0);
    c.activate_adapter(SELF_ADDRESS, "a1").unwrap();
    c.update_adapter_settings(SELF_ADDRESS, "a1", vec![("k".to_string(), "v".to_string())]).unwrap();
    assert_eq!(c.get_adapter_config("a1").unwrap().settings, vec![("k".to_string(), "v".to_string())]);
    assert_eq!(c.activate_adapter(SELF_ADDRESS, "zz"), Err("Adapter not registered".to_string()));
    assert_eq!(c.get_adapter_config("zz").unwrap_err(), "Adapter not found");
    assert_eq!(c.get_all_adapters().len(), 2);
}

#[test]
fn category_rules_can_be_replaced() {
    let mut c = contract();
    let mut cfg = c.get_category_config(AssetCategory::Native).unwrap();
    cfg.preferred_aggregation = AggregationMethod::Median;
    assert_eq!(c.update_category_config("x", AssetCategory::Native, cfg), Err("Not authorized".to_string()));
    c.update_category_config(SELF_ADDRESS, AssetCategory::Native, cfg).unwrap();
    assert_eq!(c.get_recommended_aggregation(AssetCategory::Native), AggregationMethod::Median);
    let fresh = PriceFeedAdaptersContract::new();
    assert_eq!(fresh.get_recommended_aggregation(AssetCategory::Native), AggregationMethod::WeightedAverage);
    assert!(!fresh.validate_price(AssetCategory::Native, &price(10_000, 0), 0));
}
