use stellar_defi_toolkit::oracle_adapter::{AdapterHealth, AdapterRegistry, RegisteredAdapter};

fn adapter(id: &str, priority: u32) -> RegisteredAdapter {
    RegisteredAdapter {
        id: id.to_string(),
        name: id.to_uppercase(),
        priority,
        is_active: true,
        health: AdapterHealth::Healthy,
        last_price_timestamp: 0,
        failover_count: 0,
    }
}

#[test]
fn registry_orders_by_priority() {
    let mut r = AdapterRegistry::new();
    r.register(adapter("b", 5));
    r.register(adapter("a", 1));
    r.register(adapter("c", 10));
    r.register(adapter("d", 5));
    assert_eq!(r.get_ordered_adapters(), vec!["a", "b", "d", "c"]);
    assert_eq!(r.find_healthy(), Some("a".to_string()));
    r.update_health("a", AdapterHealth::Offline);
    assert_eq!(r.find_healthy(), Some("b".to_string()));
    r.unregister("b");
    assert_eq!(r.get_ordered_adapters(), vec!["a", "d", "c"]);
    assert_eq!(r.find_healthy(), Some("d".to_string()));
}

#[test]
fn re_registering_lists_an_adapter_again() {
    let mut r = AdapterRegistry::new();
    r.register(adapter("a", 5));
    r.register(adapter("a", 1));
    assert_eq!(r.get_ordered_adapters(), vec!["a", "a"]);
    r.unregister("a");
    assert!(r.get_ordered_adapters().is_empty());
    assert_eq!(r.find_healthy(), None);
}

#[test]
fn failovers_are_counted_when_leaving_healthy() {
    let mut r = AdapterRegistry::new();
    let mut inactive = adapter("x", 1);
    inactive.is_active = false;
    r.register(inactive);
    r.register(adapter("y", 2));
    assert_eq!(r.find_healthy(), Some("y".to_string()));
    r.update_health("y", AdapterHealth::Degraded);
    r.update_health("y", AdapterHealth::Offline);
    r.update_health("y", AdapterHealth::Healthy);
    r.update_health("y", AdapterHealth::Offline);
    r.update_health("nobody", AdapterHealth::Offline);
    assert_eq!(r.find_healthy(), None);
}
