//! The records that the lending protocol keeps in contract storage.

use soroban_sdk::Address;
use vstd::prelude::*;

verus! {

/// Lifecycle state of a loan.
#[derive(Clone, Copy, Debug, PartialEq, Eq, Structural)]
pub enum LoanStatus {
    Active,
    Repaid,
    Liquidated,
}

/// Reasons for which a lending operation is refused.
#[derive(Clone, Copy, Debug, PartialEq, Eq, Structural)]
pub enum LendingError {
    NotConfigured,
    Disabled,
    LoanTooSmall,
    LtvExceeded,
    InsufficientCollateral,
    ActiveLoanExists,
    InsufficientLiquidity,
    LoanNotActive,
    RepayExceedsDebt,
    LoanNotFound,
    PositionHealthy,
    InvalidDepositAmount,
    WithdrawalExceedsDeposit,
    PoolNotFound,
    InsufficientPoolLiquidity,
}

/// Why a lending transaction aborts: a refusal with its error code, or an
/// arithmetic result that does not fit the 128-bit amounts.
#[derive(Clone, Copy, Debug, PartialEq, Eq, Structural)]
pub enum Failure {
    Rejected(LendingError),
    Overflow,
}

/// Protocol parameters set by the administrator.
#[derive(Clone, Copy, Debug, PartialEq, Eq, Structural)]
pub struct LendingConfig {
    pub collateral_ratio_bps: u32,
    pub liquidation_threshold_bps: u32,
    pub liquidation_penalty_bps: u32,
    pub base_rate_bps: u32,
    pub utilisation_multiplier_bps: u32,
    pub protocol_fee_bps: u32,
    pub min_loan_amount: i128,
    pub max_ltv_bps: u32,
    pub enabled: bool,
}

/// Liquidity pool state of one token.
///
/// `total_deposits` is the liquidity the pool owes its lenders: their
/// deposits plus the interest credited to them and not yet withdrawn.
/// `total_lender_deposits` is the sum of the lenders' own deposit balances,
/// over which interest is shared out; `interest_index` is the interest
/// credited so far per deposited unit, scaled by
/// `INTEREST_INDEX_PRECISION`.
#[derive(Clone, Debug)]
pub struct LendingPool {
    pub token: Address,
    pub total_deposits: i128,
    pub total_borrowed: i128,
    pub total_protocol_fees: i128,
    pub total_interest_paid: i128,
    pub last_accrual: u64,
    pub total_lender_deposits: i128,
    pub interest_index: i128,
}

/// A lender's position in the pool of one token: the deposit balance, the
/// pool's interest index when the lender's interest was last settled, and
/// the interest settled to the lender and not yet withdrawn.
#[derive(Clone, Copy, Debug, PartialEq, Eq, Structural)]
pub struct LenderPosition {
    pub deposit: i128,
    pub interest_index: i128,
    pub unclaimed_interest: i128,
}

/// One loan and its accounting.
#[derive(Clone, Debug)]
pub struct LendingLoan {
    pub loan_id: u64,
    pub borrower: Address,
    pub token: Address,
    pub principal: i128,
    pub collateral: i128,
    pub interest_accrued: i128,
    pub created_at: u64,
    pub last_accrual: u64,
    pub status: LoanStatus,
}

} // verus!
