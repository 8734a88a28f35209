use stellar_defi_toolkit::escrow::CrossContractEscrowContract;

fn hex(s: &str) -> Vec<u8> {
    (0..s.len()).step_by(2).map(|i| u8::from_str_radix(&s[i..i + 2], 16).unwrap()).collect()
}

// SHA-256 of 32 zero bytes.
const ZERO_DIGEST: &str = "66687aadf862bd776c8fc18b8e9f8e20089714856ee233b3902a591d0d5f2925";

#[test]
fn claim_with_the_preimage() {
    let mut e = CrossContractEscrowContract::new();
    assert_eq!(
        e.create_escrow("s", "r", "T", 1, 0, hex(ZERO_DIGEST), 100, 10),
        Err("Escrow amount must be positive".to_string())
    );
    e.create_escrow("s", "r", "T", 1, 50, hex(ZERO_DIGEST), 100, 10).unwrap();
    assert_eq!(
        e.create_escrow("s", "r", "T", 1, 50, hex(ZERO_DIGEST), 100, 10),
        Err("Escrow ID already exists".to_string())
    );
    let zero = vec![0u8; 32];
    let mut one = vec![0u8; 32];
    one[0] = 1;
    assert_eq!(e.claim("x", 1, &zero, 20), Err("Unauthorized recipient".to_string()));
    assert_eq!(e.claim("r", 1, &one, 20), Err("Invalid secret preimage".to_string()));
    assert_eq!(e.claim("r", 1, &zero, 111), Err("Escrow has expired".to_string()));
    assert_eq!(e.claim("r", 2, &zero, 20), Err("Escrow not found".to_string()));
    e.claim("r", 1, &zero, 110).unwrap();
    assert_eq!(e.get_escrow(1), Some((true, false, 50, 110)));
    assert_eq!(e.claim("r", 1, &zero, 110), Err("Escrow already settled".to_string()));
    assert_eq!(e.refund("s", 1, 500), Err("Escrow already settled".to_string()));
}

#[test]
fn refund_after_expiry() {
    let mut e = CrossContractEscrowContract::new();
    e.create_escrow("s", "r", "T", 7, 5, vec![9u8; 32], 10, 0).unwrap();
    assert_eq!(e.refund("x", 7, 11), Err("Unauthorized sender".to_string()));
    assert_eq!(e.refund("s", 7, 10), Err("Escrow has not yet expired".to_string()));
    e.refund("s", 7, 11).unwrap();
    assert_eq!(e.get_escrow(7), Some((false, true, 5, 10)));
    assert_eq!(e.get_escrow(8), None);
    assert_eq!(e.claim_with_digest("r", 7, &vec![9u8; 32], 5), Err("Escrow already settled".to_string()));
}
