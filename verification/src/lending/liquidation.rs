//! Liquidation of under-collateralised lending positions.
//!
//! Any caller can liquidate a loan whose health factor has dropped below 1.0.
//! The liquidator repays the full outstanding debt (principal + accrued
//! interest) and receives the whole collateral, which includes the penalty
//! bonus because the collateral ratio was above 100 % when the loan opened.

use vstd::prelude::*;

use super::arith::checked_sum;
use super::loans::{
    accrual_result, accrue_loan_interest, debt_of, fee_split_overflows, health_factor,
    health_result, protocol_fee_of, settle_pool, settled_pool, settlement_overflows,
    split_interest,
};
use super::pool::{load_or_create_pool, pool_or_new};
use super::HEALTH_FACTOR_PRECISION;
use crate::types::{Failure, LendingConfig, LendingError, LendingLoan, LendingPool, LoanStatus};

verus! {

/// What a liquidation writes and moves: the closed loan, the pool, the debt
/// the liquidator pays in and the collateral the liquidator receives.
#[derive(Debug)]
pub struct LoanLiquidated {
    pub loan: LendingLoan,
    pub pool: LendingPool,
    pub debt_repaid: i128,
    pub collateral_seized: i128,
}

/// The outcome of liquidating a stored loan at time `now`.
pub open spec fn liquidate_result(
    config: Option<LendingConfig>,
    stored_loan: Option<LendingLoan>,
    pool: Option<LendingPool>,
    now: u64,
) -> Result<LoanLiquidated, Failure> {
    match stored_loan {
        None => Err(Failure::Rejected(LendingError::LoanNotFound)),
        Some(loan) => if loan.status != LoanStatus::Active {
            Err(Failure::Rejected(LendingError::LoanNotActive))
        } else {
            match accrual_result(loan, pool, config, now) {
                Err(f) => Err(f),
                Ok(accrued) => liquidate_accrued_result(config, accrued, pool, now),
            }
        },
    }
}

/// Liquidation of an active loan whose interest is already brought up to
/// date: refused while its health factor is at least 1.0.
pub open spec fn liquidate_accrued_result(
    config: Option<LendingConfig>,
    loan: LendingLoan,
    pool: Option<LendingPool>,
    now: u64,
) -> Result<LoanLiquidated, Failure> {
    match health_result(loan, config) {
        Err(f) => Err(f),
        Ok(health) => if health >= HEALTH_FACTOR_PRECISION {
            Err(Failure::Rejected(LendingError::PositionHealthy))
        } else {
            match config {
                None => Err(Failure::Rejected(LendingError::NotConfigured)),
                Some(c) => {
                    let interest = loan.interest_accrued as int;
                    let fee = protocol_fee_of(interest, c);
                    let lender_interest = interest - fee;
                    let before = pool_or_new(pool, loan.token, now);
                    if fee_split_overflows(interest, c) {
                        Err(Failure::Overflow)
                    } else if settlement_overflows(
                        before,
                        loan.principal as int,
                        fee,
                        lender_interest,
                    ) {
                        Err(Failure::Overflow)
                    } else {
                        Ok(
                            LoanLiquidated {
                                loan: LendingLoan {
                                    status: LoanStatus::Liquidated,
                                    principal: 0,
                                    interest_accrued: 0,
                                    collateral: 0,
                                    ..loan
                                },
                                pool: settled_pool(
                                    before,
                                    loan.principal as int,
                                    fee,
                                    lender_interest,
                                ),
                                debt_repaid: debt_of(loan) as i128,
                                collateral_seized: loan.collateral,
                            },
                        )
                    }
                },
            }
        },
    }
}

/// Liquidate an under-collateralised loan.
///
/// Steps:
/// 1. Accrue interest to the current timestamp.
/// 2. Verify health factor < 1.0.
/// 3. The liquidator pays in `total_debt`.
/// 4. The full collateral goes to the liquidator.
/// 5. The loan is marked `Liquidated` and the pool updated.
///
/// The caller performs the two transfers, stores the loan and pool, and
/// removes the borrower's active-loan mapping.
pub fn liquidate(
    config: &Option<LendingConfig>,
    stored_loan: Option<LendingLoan>,
    pool: Option<LendingPool>,
    now: u64,
) -> (r: Result<LoanLiquidated, Failure>)
    ensures
        r == liquidate_result(*config, stored_loan, pool, now),
{
    let loan = match stored_loan {
        Some(loan) => loan,
        None => {
            return Err(Failure::Rejected(LendingError::LoanNotFound));
        },
    };
    if loan.status != LoanStatus::Active {
        return Err(Failure::Rejected(LendingError::LoanNotActive));
    }
    // Accrue interest up to now before computing the health factor
    let mut loan = accrue_for_liquidation(loan, &pool, config, now)?;
    // Health factor must be below 1.0
    let hf = health_factor(&loan, config)?;
    if hf >= HEALTH_FACTOR_PRECISION {
        return Err(Failure::Rejected(LendingError::PositionHealthy));
    }
    let total_debt = checked_sum(loan.principal, loan.interest_accrued)?;
    let collateral_seized = loan.collateral;
    // Distribute the interest portion: protocol fee + lender share
    let c = match config {
        Some(c) => c,
        None => {
            return Err(Failure::Rejected(LendingError::NotConfigured));
        },
    };
    let (protocol_fee, lender_interest) = split_interest(loan.interest_accrued, c)?;
    let before = load_or_create_pool(pool, loan.token.clone(), now);
    let updated = settle_pool(before, loan.principal, protocol_fee, lender_interest)?;
    // Mark the loan liquidated
    loan.status = LoanStatus::Liquidated;
    loan.principal = 0;
    loan.interest_accrued = 0;
    loan.collateral = 0;
    Ok(LoanLiquidated { loan, pool: updated, debt_repaid: total_debt, collateral_seized })
}

/// Brings a loan's interest up to `now` before its health is judged.
pub fn accrue_for_liquidation(
    loan: LendingLoan,
    pool: &Option<LendingPool>,
    config: &Option<LendingConfig>,
    now: u64,
) -> (r: Result<LendingLoan, Failure>)
    ensures
        r == accrual_result(loan, *pool, *config, now),
{
    accrue_loan_interest(loan, pool, config, now)
}

} // verus!
