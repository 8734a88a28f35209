use stellar_defi_toolkit::flash_loan::{FlashLoanContract, FlashLoanError, LiquidationParams};

fn setup_test() -> (FlashLoanContract, String) {
    let mut contract = FlashLoanContract::default();
    let admin = "admin".to_string();
    contract.initialize("USDC_TOKEN".to_string(), &admin).unwrap();
    (contract, admin)
}

#[test]
fn flash_loan_test_initialization() {
    let (contract, _admin) = setup_test();
    let info = contract.get_info();
    assert_eq!(info.token, "USDC_TOKEN");
    assert_eq!(info.fee_bps, 9);
}

#[test]
fn test_calculate_fee() {
    let (contract, _) = setup_test();
    let fee = contract.calculate_fee(1000000);
    assert_eq!(fee, 900);
}

#[test]
fn test_flash_loan_success() {
    let (mut contract, _) = setup_test();
    let result = contract.flash_loan("receiver", 100000);
    assert!(result.is_ok());
    assert_eq!(result.unwrap(), 90);
}

#[test]
fn test_flash_loan_zero_fails() {
    let (mut contract, _admin) = setup_test();
    let result = contract.flash_loan("receiver", 0);
    let s = format!("{:?}", result);
    assert!(s.contains("InvalidAmount"), "Expected InvalidAmount in {:?}", result);
}

#[test]
fn test_reentrancy_protection() {
    // A request that arrives while a loan is still executing.
    let (contract, _admin) = setup_test();
    let result = FlashLoanContract::check_loan(true, true, 100000, contract.get_info().fee_bps);
    let s = format!("{:?}", result);
    assert!(s.contains("ReentrancyDetected"), "Expected ReentrancyDetected in {:?}", result);
}

#[test]
fn test_arbitrage_safeguard() {
    let (mut contract, _admin) = setup_test();
    let result = contract.flash_loan("receiver", 2_000_000_000);
    let s = format!("{:?}", result);
    assert!(s.contains("ArbitrageThresholdExceeded"), "Expected ArbitrageThresholdExceeded in {:?}", result);
    assert_eq!(
        FlashLoanContract::arbitrage_safeguard(2_000_000_000),
        Err(FlashLoanError::ArbitrageThresholdExceeded)
    );
    assert_eq!(FlashLoanContract::arbitrage_safeguard(1_000_000_000), Ok(()));
}

#[test]
fn test_pause_resume() {
    let (mut contract, _admin) = setup_test();

    contract.pause().unwrap();

    let result = contract.flash_loan("receiver", 100000);
    let s = format!("{:?}", result);
    assert!(s.contains("NotActive"), "Expected NotActive in {:?}", result);

    contract.resume().unwrap();

    let result = contract.flash_loan("receiver", 100000);
    assert!(result.is_ok());
}

#[test]
fn test_liquidate_with_flash_loan() {
    let (mut contract, _) = setup_test();
    let params = LiquidationParams {
        victim: "victim".to_string(),
        debt_token: "USDC".to_string(),
        collateral_token: "XLM".to_string(),
        debt_to_repay: 50000,
        min_collateral_to_seize: 100000,
    };

    let result = contract.liquidate_with_flash_loan(&params);
    assert!(result.is_ok());
}

#[test]
fn fee_is_zero_when_the_product_overflows() {
    assert_eq!(FlashLoanContract::fee_for(u64::MAX, 2), 0);
    assert_eq!(FlashLoanContract::fee_for(10_000, 1), 1);
    assert_eq!(FlashLoanContract::fee_for(9_999, 1), 0);
}

#[test]
fn admin_operations_and_initialization() {
    let mut fresh = FlashLoanContract::default();
    assert_eq!(fresh.pause(), Err(FlashLoanError::AdminNotSet));
    assert_eq!(fresh.set_fee(5), Err(FlashLoanError::AdminNotSet));
    assert_eq!(fresh.flash_loan("r", 10), Err(FlashLoanError::NotActive));
    let (mut contract, _) = setup_test();
    assert_eq!(contract.initialize("OTHER".to_string(), "x"), Err(FlashLoanError::AlreadyInitialized));
    assert_eq!(contract.set_fee(1001), Err(FlashLoanError::FeeTooHigh));
    contract.set_fee(100).unwrap();
    assert_eq!(contract.calculate_fee(1_000_000), 10_000);
    assert_eq!(contract.get_info().balance, 1_000_000_000);
}
