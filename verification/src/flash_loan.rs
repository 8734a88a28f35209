//! Flash loans: borrowing without collateral, repaid with a fee within the same
//! call, with a reentrancy guard, an arbitrage safeguard and an admin who sets
//! the fee and pauses or resumes lending.

use vstd::prelude::*;

verus! {

/// Largest amount a single flash loan may borrow.
pub const MAX_LOAN_LIMIT: u64 = 1_000_000_000;

/// Errors of the flash loan contract.
#[derive(Clone, Copy, Debug, PartialEq, Eq, Structural)]
pub enum FlashLoanError {
    AlreadyInitialized,
    NotActive,
    ReentrancyDetected,
    InvalidAmount,
    ArbitrageThresholdExceeded,
    NotAdmin,
    FeeTooHigh,
    AdminNotSet,
}

/// Fee on a loan of `amount` at `fee_bps` basis points (0 when the product
/// overflows), rounded down.
pub open spec fn loan_fee(amount: u64, fee_bps: u32) -> u64 {
    if amount * fee_bps > u64::MAX {
        0
    } else {
        (amount * fee_bps / 10_000) as u64
    }
}

/// Fee of a freshly initialized contract (0.09%).
pub const DEFAULT_FEE_BPS: u32 = 9;
/// Highest fee the admin may set (10%).
pub const MAX_FEE_BPS: u32 = 1000;
/// Balance the contract reports as available for loans.
pub const SIMULATED_BALANCE: u64 = 1_000_000_000;

/// What the contract reports about itself.
#[derive(Debug, PartialEq, Eq)]
pub struct FlashLoanInfo {
    pub token: String,
    pub balance: u64,
    pub fee_bps: u32,
}

/// A liquidation to be financed by a flash loan of `debt_to_repay`.
#[derive(Debug, PartialEq, Eq)]
pub struct LiquidationParams {
    pub victim: String,
    pub debt_token: String,
    pub collateral_token: String,
    pub debt_to_repay: u64,
    pub min_collateral_to_seize: u64,
}

/// Mathematical model of the contract's storage.
pub struct FlashLoanView {
    pub token: Option<Seq<char>>,
    pub fee_bps: u32,
    pub is_active: bool,
    pub admin: Option<Seq<char>>,
}

/// The flash loan contract and its storage.  A loan runs to completion inside
/// one call, so a later call never finds a loan in progress.
pub struct FlashLoanContract {
    token: Option<String>,
    fee_bps: u32,
    is_active: bool,
    admin: Option<String>,
}

/// The view of an optional string.
pub open spec fn opt_view(o: Option<String>) -> Option<Seq<char>> {
    match o {
        Some(s) => Some(s@),
        None => None,
    }
}

impl View for FlashLoanContract {
    type V = FlashLoanView;

    closed spec fn view(&self) -> FlashLoanView {
        FlashLoanView {
            token: opt_view(self.token),
            fee_bps: self.fee_bps,
            is_active: self.is_active,
            admin: opt_view(self.admin),
        }
    }
}

impl Default for FlashLoanContract {
    /// A contract that has not been initialized.
    fn default() -> (r: Self)
        ensures
            r.wf(),
            r@ == (FlashLoanView { token: None, fee_bps: DEFAULT_FEE_BPS, is_active: false, admin: None }),
    {
        FlashLoanContract { token: None, fee_bps: DEFAULT_FEE_BPS, is_active: false, admin: None }
    }
}

impl FlashLoanContract {
    /// Lending is only ever active, and an admin only ever set, once a token is.
    pub closed spec fn wf(&self) -> bool {
        &&& self.is_active ==> self.token is Some
        &&& self.admin is Some ==> self.token is Some
    }

    /// Set the token and admin, with the default fee, and activate lending; only
    /// once.
    pub fn initialize(&mut self, token: String, admin: &str) -> (r: Result<(), FlashLoanError>)
        requires
            old(self).wf(),
        ensures
            final(self).wf(),
            old(self)@.admin is Some ==> r == Err::<(), FlashLoanError>(FlashLoanError::AlreadyInitialized)
                && final(self)@ == old(self)@,
            old(self)@.admin is None ==> r is Ok && final(self)@ == (FlashLoanView {
                token: Some(token@),
                fee_bps: DEFAULT_FEE_BPS,
                is_active: true,
                admin: Some(admin@),
            }),
    {
        if self.admin.is_some() {
            return Err(FlashLoanError::AlreadyInitialized);
        }
        self.token = Some(token);
        self.fee_bps = DEFAULT_FEE_BPS;
        self.is_active = true;
        self.admin = Some(String::from_str(admin));
        Ok(())
    }

    /// The token, the simulated balance and the fee.
    pub fn get_info(&self) -> (r: FlashLoanInfo)
        requires
            self@.token is Some,
        ensures
            Some(r.token@) == self@.token,
            r.balance == SIMULATED_BALANCE,
            r.fee_bps == self@.fee_bps,
    {
        let token = match &self.token {
            Some(t) => t.clone(),
            None => String::new(),
        };
        FlashLoanInfo { token, balance: SIMULATED_BALANCE, fee_bps: self.fee_bps }
    }

    /// Fee on a loan of `amount` at the current fee.
    pub fn calculate_fee(&self, amount: u64) -> (r: u64)
        ensures
            r == loan_fee(amount, self@.fee_bps),
    {
        Self::fee_for(amount, self.fee_bps)
    }

    /// Lend `amount` to `receiver` and take it back with the fee in the same call;
    /// the fee is returned and the storage is as before.
    pub fn flash_loan(&mut self, receiver: &str, amount: u64) -> (r: Result<u64, FlashLoanError>)
        requires
            old(self).wf(),
        ensures
            final(self).wf(),
            final(self)@ == old(self)@,
            r == Self::loan_decision(old(self)@.is_active, false, amount, old(self)@.fee_bps),
    {
        Self::check_loan(self.is_active, false, amount, self.fee_bps)
    }

    /// Liquidate a position with a flash loan of its debt, taken by the contract
    /// itself.
    pub fn liquidate_with_flash_loan(&mut self, params: &LiquidationParams) -> (r: Result<(), FlashLoanError>)
        requires
            old(self).wf(),
        ensures
            final(self).wf(),
            final(self)@ == old(self)@,
            match Self::loan_decision(old(self)@.is_active, false, params.debt_to_repay, old(self)@.fee_bps) {
                Ok(_) => r is Ok,
                Err(e) => r == Err::<(), FlashLoanError>(e),
            },
    {
        if !self.is_active {
            return Err(FlashLoanError::NotActive);
        }
        match self.flash_loan("contract", params.debt_to_repay) {
            Ok(_fee) => Ok(()),
            Err(e) => Err(e),
        }
    }

    /// Set the fee (admin only; at most 10%).
    pub fn set_fee(&mut self, fee_bps: u32) -> (r: Result<(), FlashLoanError>)
        requires
            old(self).wf(),
        ensures
            final(self).wf(),
            old(self)@.admin is None ==> r == Err::<(), FlashLoanError>(FlashLoanError::AdminNotSet)
                && final(self)@ == old(self)@,
            old(self)@.admin is Some && fee_bps > MAX_FEE_BPS ==> r == Err::<(), FlashLoanError>(
                FlashLoanError::FeeTooHigh,
            ) && final(self)@ == old(self)@,
            old(self)@.admin is Some && fee_bps <= MAX_FEE_BPS ==> r is Ok && final(self)@ == (FlashLoanView {
                fee_bps,
                ..old(self)@
            }),
    {
        if self.admin.is_none() {
            return Err(FlashLoanError::AdminNotSet);
        }
        if fee_bps > MAX_FEE_BPS {
            return Err(FlashLoanError::FeeTooHigh);
        }
        self.fee_bps = fee_bps;
        Ok(())
    }

    /// Stop lending (admin only).
    pub fn pause(&mut self) -> (r: Result<(), FlashLoanError>)
        requires
            old(self).wf(),
        ensures
            final(self).wf(),
            old(self)@.admin is None ==> r == Err::<(), FlashLoanError>(FlashLoanError::AdminNotSet)
                && final(self)@ == old(self)@,
            old(self)@.admin is Some ==> r is Ok && final(self)@ == (FlashLoanView { is_active: false, ..old(self)@ }),
    {
        if self.admin.is_none() {
            return Err(FlashLoanError::AdminNotSet);
        }
        self.is_active = false;
        Ok(())
    }

    /// Resume lending (admin only).
    pub fn resume(&mut self) -> (r: Result<(), FlashLoanError>)
        requires
            old(self).wf(),
        ensures
            final(self).wf(),
            old(self)@.admin is None ==> r == Err::<(), FlashLoanError>(FlashLoanError::AdminNotSet)
                && final(self)@ == old(self)@,
            old(self)@.admin is Some ==> r is Ok && final(self)@ == (FlashLoanView { is_active: true, ..old(self)@ }),
    {
        if self.admin.is_none() {
            return Err(FlashLoanError::AdminNotSet);
        }
        self.is_active = true;
        Ok(())
    }

    /// Outcome of a loan request: refused when lending is paused, when a loan is
    /// already in progress, for a zero amount or above the arbitrage threshold;
    /// otherwise the fee.
    pub open spec fn loan_decision(is_active: bool, executing: bool, amount: u64, fee_bps: u32) -> Result<
        u64,
        FlashLoanError,
    > {
        if !is_active {
            Err(FlashLoanError::NotActive)
        } else if executing {
            Err(FlashLoanError::ReentrancyDetected)
        } else if amount == 0 {
            Err(FlashLoanError::InvalidAmount)
        } else if amount > MAX_LOAN_LIMIT {
            Err(FlashLoanError::ArbitrageThresholdExceeded)
        } else {
            Ok(loan_fee(amount, fee_bps))
        }
    }

    /// Refuse loans above the arbitrage threshold of one billion units.
    pub fn arbitrage_safeguard(amount: u64) -> (r: Result<(), FlashLoanError>)
        ensures
            amount > MAX_LOAN_LIMIT ==> r == Err::<(), FlashLoanError>(FlashLoanError::ArbitrageThresholdExceeded),
            amount <= MAX_LOAN_LIMIT ==> r == Ok::<(), FlashLoanError>(()),
    {
        if amount > MAX_LOAN_LIMIT {
            return Err(FlashLoanError::ArbitrageThresholdExceeded);
        }
        Ok(())
    }

    /// Fee owed on a loan of `amount` at `fee_bps` basis points.
    pub fn fee_for(amount: u64, fee_bps: u32) -> (r: u64)
        ensures
            r == loan_fee(amount, fee_bps),
    {
        match amount.checked_mul(fee_bps as u64) {
            Some(p) => p / 10_000,
            None => 0,
        }
    }

    /// The decision of a flash loan request: the contract must be active and not
    /// already lending, the amount positive and within the safeguard; the fee is
    /// returned.
    pub fn check_loan(is_active: bool, executing: bool, amount: u64, fee_bps: u32) -> (r: Result<u64, FlashLoanError>)
        ensures
            r == Self::loan_decision(is_active, executing, amount, fee_bps),
    {
        if !is_active {
            return Err(FlashLoanError::NotActive);
        }
        if executing {
            return Err(FlashLoanError::ReentrancyDetected);
        }
        if amount == 0 {
            return Err(FlashLoanError::InvalidAmount);
        }
        match Self::arbitrage_safeguard(amount) {
            Err(e) => return Err(e),
            Ok(()) => {},
        }
        Ok(Self::fee_for(amount, fee_bps))
    }
}

} // verus!
