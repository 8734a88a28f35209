use stellar_defi_toolkit::ws::{ArbitrageBroadcaster, ArbitrageOpportunityUpdate, ArbitrageQuery, PriceBroadcaster, PriceUpdate};

fn price(asset: &str, p: u64, ts: u64) -> PriceUpdate {
    PriceUpdate { asset: asset.to_string(), price: p, decimals: 7, timestamp: ts }
}

fn opp(id: u64, pair: &str, profit: u64, risk: u32) -> ArbitrageOpportunityUpdate {
    ArbitrageOpportunityUpdate {
        opportunity_id: id,
        asset_pair: pair.to_string(),
        potential_profit: profit,
        risk_score: risk,
        timestamp: id,
    }
}

#[test]
fn price_broadcaster_keeps_latest_per_asset() {
    let mut b = PriceBroadcaster::new();
    assert!(b.snapshot().is_empty());
    b.push(price("XLM", 10, 1));
    b.push(price("BTC", 50_000, 2));
    b.push(price("XLM", 12, 3));
    assert_eq!(b.snapshot().len(), 2);
    assert_eq!(b.latest("XLM").unwrap().price, 12);
    assert!(b.latest("ETH").is_none());
    let asked = vec!["ETH".to_string(), "XLM".to_string(), "BTC".to_string()];
    let sent = b.subscribed_prices(&asked);
    assert_eq!(sent.len(), 2);
    assert_eq!(sent[0].asset, "XLM");
    assert_eq!(sent[1].price, 50_000);
}

#[test]
fn arbitrage_history_is_capped_and_filtered() {
    let mut b = ArbitrageBroadcaster::new();
    for i in 0..10_005u64 {
        b.push(opp(i, if i % 2 == 0 { "XLM/USDC" } else { "BTC/USDC" }, i, (i % 10) as u32));
    }
    let h = b.history();
    assert_eq!(h.len(), 10_000);
    assert_eq!(h[0].opportunity_id, 5);
    assert_eq!(h[9_999].opportunity_id, 10_004);
    let q = ArbitrageQuery { asset_pair: Some("XLM/USDC".to_string()), min_profit: Some(10_000), max_risk: Some(2) };
    let replay = b.replay(&q);
    assert!(replay.iter().all(|u| u.asset_pair == "XLM/USDC" && u.potential_profit >= 10_000 && u.risk_score <= 2));
    assert_eq!(replay.len(), 2);
    assert_eq!(replay[0].opportunity_id, 10_000);
}
