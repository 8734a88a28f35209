use stellar_defi_toolkit::tokens::{LpTokenStorage, PausableTokenContract, SorobanTokenContract};

fn setup() -> (PausableTokenContract, String) {
    let mut client = PausableTokenContract::default();
    let admin = "admin".to_string();
    client.initialize(&admin);
    (client, admin)
}

#[test]
fn test_pause_and_unpause() {
    let (mut client, admin) = setup();

    client.pause(&admin).unwrap();
    assert!(client.is_paused());

    client.unpause(&admin).unwrap();
    assert!(!client.is_paused());
}

#[test]
#[should_panic(expected = "transfers are paused")]
fn test_transfer_fails_when_paused() {
    let (mut client, admin) = setup();
    let from = "from";
    let to = "to";

    client.mint(&admin, from, 1000).unwrap();
    client.pause(&admin).unwrap();
    client.transfer(from, to, 100).unwrap();
}

#[test]
fn test_before_hook_allows_transfer() {
    let (mut client, admin) = setup();
    let hook = "hook";
    let from = "from";
    let to = "to";

    client.mint(&admin, from, 1_000).unwrap();
    client.register_before_hook(&admin, hook).unwrap();

    client.transfer(from, to, 400).unwrap();
    assert_eq!(client.balance(from), 600);
    assert_eq!(client.balance(to), 400);
}

#[test]
#[should_panic(expected = "transfer rejected by before_transfer hook")]
fn test_before_hook_blocks_transfer() {
    let (mut client, admin) = setup();
    let hook = "hook";
    let from = "from";
    let to = "to";

    client.mint(&admin, from, 1_000).unwrap();
    client.register_before_hook(&admin, hook).unwrap();
    client.set_before_hook_blocks(&admin, hook, true).unwrap();

    client.transfer(from, to, 200).unwrap();
}

#[test]
fn test_after_hook_does_not_revert() {
    let (mut client, admin) = setup();
    let hook = "hook";
    let from = "from";
    let to = "to";

    client.mint(&admin, from, 1_000).unwrap();
    client.register_after_hook(&admin, hook).unwrap();

    client.transfer(from, to, 300).unwrap();
    assert_eq!(client.balance(from), 700);
    assert_eq!(client.balance(to), 300);
}

#[test]
fn test_unregister_before_hook_allows_transfer() {
    let (mut client, admin) = setup();
    let hook = "hook";
    let from = "from";
    let to = "to";

    client.mint(&admin, from, 1_000).unwrap();
    client.register_before_hook(&admin, hook).unwrap();
    client.set_before_hook_blocks(&admin, hook, true).unwrap();

    client.unregister_before_hook(&admin, hook).unwrap();

    client.transfer(from, to, 100).unwrap();
    assert_eq!(client.balance(to), 100);
}

#[test]
fn pausable_token_refusals_leave_balances() {
    let (mut client, admin) = setup();
    assert_eq!(client.pause("intruder"), Err("unauthorized".to_string()));
    assert_eq!(client.mint(&admin, "a", 0), Err("amount must be positive".to_string()));
    client.mint(&admin, "a", 50).unwrap();
    assert_eq!(client.transfer("a", "b", 0), Err("amount must be positive".to_string()));
    assert_eq!(client.transfer("a", "b", 51), Err("insufficient balance".to_string()));
    assert_eq!(client.balance("a"), 50);
    client.register_after_hook(&admin, "h").unwrap();
    assert_eq!(client.register_after_hook(&admin, "h"), Err("hook already registered".to_string()));
    assert_eq!(client.unregister_before_hook(&admin, "h"), Err("hook not registered".to_string()));
    client.unregister_after_hook(&admin, "h").unwrap();
    for i in 0..10 {
        client.register_before_hook(&admin, &format!("h{}", i)).unwrap();
    }
    assert_eq!(client.register_before_hook(&admin, "h10"), Err("hook limit reached".to_string()));
}

#[test]
fn self_transfer_credits_the_amount_again() {
    let (mut client, admin) = setup();
    client.mint(&admin, "a", 100).unwrap();
    client.transfer("a", "a", 40).unwrap();
    assert_eq!(client.balance("a"), 140);
}

#[test]
fn basic_token_mint_and_transfer() {
    let mut token = SorobanTokenContract::default();
    token.initialize("admin", 1_000);
    assert_eq!(token.balance("admin"), 1_000);
    assert_eq!(token.total_supply(), 1_000);
    token.transfer("admin", "bob", 250).unwrap();
    assert_eq!((token.balance("admin"), token.balance("bob")), (750, 250));
    assert_eq!(token.transfer("bob", "carol", 251), Err("insufficient balance".to_string()));
    assert_eq!(token.transfer("bob", "carol", -1), Err("amount must be positive".to_string()));
    assert_eq!(token.mint("bob", "bob", 5), Err("unauthorized".to_string()));
    token.mint("admin", "carol", 5).unwrap();
    assert_eq!((token.balance("carol"), token.total_supply()), (5, 1_005));
}

#[test]
fn lp_storage_tracks_supply() {
    let mut lp = LpTokenStorage::default();
    lp.mint("alice", 100).unwrap();
    lp.mint("bob", 50).unwrap();
    assert_eq!(lp.total_supply(), 150);
    assert_eq!(lp.burn("alice", 101), Err("insufficient lp balance".to_string()));
    assert_eq!(lp.burn("alice", 0), Err("amount must be positive".to_string()));
    assert_eq!(lp.mint("alice", -3), Err("amount must be positive".to_string()));
    lp.burn("alice", 60).unwrap();
    assert_eq!((lp.balance("alice"), lp.balance("bob"), lp.total_supply()), (40, 50, 90));
}
