//! Loan lifecycle: open, repay, and interest accrual.
//!
//! Each borrower may have at most one active loan per token.  Collateral is
//! locked in the contract for the duration of the loan and released on full
//! repayment.  Interest accrues continuously using the utilisation-based rate
//! model of the `rates` module.

use soroban_sdk::{Address, Env};
use vstd::prelude::*;

use super::arith::{
    checked_difference, checked_product, checked_sum, fits_i128, lemma_trunc_div_fits, quotient,
    saturate_i128, saturating_sum, scaled_quotient, scaled_quotient_overflows, trunc_div,
};
use super::pool::{lending_enabled, load_or_create_pool, pool_or_new, require_enabled};
use super::rates::{
    accrue_interest, current_rate_bps, interest_of, interest_overflows,
    lemma_partial_product_bound, rate_of, rate_overflows,
};
use super::{BPS_DENOM, HEALTH_FACTOR_PRECISION, INTEREST_INDEX_PRECISION};
use crate::host::{loan_id_list, new_loan_id_list, push_loan_id};
use crate::types::{Failure, LendingConfig, LendingError, LendingLoan, LendingPool, LoanStatus};

verus! {

// ── Specification ────────────────────────────────────────────────────────────

/// Seconds from `last` to `now`, zero when `now` is not later.
pub open spec fn elapsed_since(last: u64, now: u64) -> int {
    if now > last {
        now - last
    } else {
        0
    }
}

/// Deposits of the pool that prices a loan (zero when no pool is stored).
pub open spec fn basis_deposits(pool: Option<LendingPool>) -> int {
    match pool {
        Some(p) => p.total_deposits as int,
        None => 0,
    }
}

/// Borrows of the pool that prices a loan (zero when no pool is stored).
pub open spec fn basis_borrowed(pool: Option<LendingPool>) -> int {
    match pool {
        Some(p) => p.total_borrowed as int,
        None => 0,
    }
}

/// A loan brought up to `now`: unchanged when no time has passed or lending
/// is not configured; else the interest for the elapsed time at the pool's
/// current rate is added (saturating) and the accrual time moves to `now`.
pub open spec fn accrual_result(
    loan: LendingLoan,
    pool: Option<LendingPool>,
    config: Option<LendingConfig>,
    now: u64,
) -> Result<LendingLoan, Failure> {
    let elapsed = elapsed_since(loan.last_accrual, now);
    let deposits = basis_deposits(pool);
    let borrowed = basis_borrowed(pool);
    if elapsed == 0 {
        Ok(loan)
    } else {
        match config {
            None => Ok(loan),
            Some(c) => if rate_overflows(deposits, borrowed) {
                Err(Failure::Overflow)
            } else if interest_overflows(
                loan.principal as int,
                rate_of(deposits, borrowed, c),
                elapsed,
            ) {
                Err(Failure::Overflow)
            } else {
                Ok(
                    LendingLoan {
                        interest_accrued: saturate_i128(
                            loan.interest_accrued + interest_of(
                                loan.principal as int,
                                rate_of(deposits, borrowed, c),
                                elapsed,
                            ),
                        ) as i128,
                        last_accrual: now,
                        ..loan
                    },
                )
            },
        }
    }
}

/// The outstanding debt of a loan: principal plus accrued interest.
pub open spec fn debt_of(loan: LendingLoan) -> int {
    loan.principal + loan.interest_accrued
}

/// The health factor of a loan, scaled by `HEALTH_FACTOR_PRECISION`:
/// `collateral * liquidation_threshold_bps * PRECISION / (debt * BPS_DENOM)`
/// rounded toward zero, and `i128::MAX` when there is no debt or no config.
pub open spec fn health_result(loan: LendingLoan, config: Option<LendingConfig>) -> Result<
    i128,
    Failure,
> {
    let debt = debt_of(loan);
    if !fits_i128(debt) {
        Err(Failure::Overflow)
    } else if debt == 0 {
        Ok(i128::MAX)
    } else {
        match config {
            None => Ok(i128::MAX),
            Some(c) => {
                let weighted = loan.collateral * c.liquidation_threshold_bps;
                let scaled = weighted * HEALTH_FACTOR_PRECISION;
                let denominator = debt * BPS_DENOM;
                if !fits_i128(weighted) || !fits_i128(scaled) || !fits_i128(denominator) {
                    Err(Failure::Overflow)
                } else {
                    Ok(trunc_div(scaled, denominator) as i128)
                }
            },
        }
    }
}

/// What opening a loan writes: the new loan (its id is the new value of the
/// loan counter) and the pool of its token.
#[derive(Debug)]
pub struct LoanOpened {
    pub loan: LendingLoan,
    pub pool: LendingPool,
}

/// Why opening a loan is refused or aborts, checked in the order the
/// protocol checks it; `None` when the loan opens.
pub open spec fn open_loan_failure(
    enabled_flag: Option<bool>,
    config: Option<LendingConfig>,
    has_active_loan: bool,
    pool: Option<LendingPool>,
    loan_counter: Option<u64>,
    loan_amount: i128,
    collateral_amount: i128,
) -> Option<Failure> {
    let deposits = basis_deposits(pool);
    let borrowed = basis_borrowed(pool);
    if !lending_enabled(enabled_flag) {
        Some(Failure::Rejected(LendingError::Disabled))
    } else {
        match config {
            None => Some(Failure::Rejected(LendingError::NotConfigured)),
            Some(c) => if !c.enabled {
                Some(Failure::Rejected(LendingError::Disabled))
            } else if loan_amount < c.min_loan_amount {
                Some(Failure::Rejected(LendingError::LoanTooSmall))
            } else if loan_amount <= 0 || collateral_amount <= 0 {
                Some(Failure::Rejected(LendingError::LoanTooSmall))
            } else if !fits_i128(loan_amount * BPS_DENOM) || !fits_i128(
                collateral_amount * c.max_ltv_bps,
            ) {
                Some(Failure::Overflow)
            } else if loan_amount * BPS_DENOM > collateral_amount * c.max_ltv_bps {
                Some(Failure::Rejected(LendingError::LtvExceeded))
            } else if !fits_i128(collateral_amount * BPS_DENOM) || !fits_i128(
                loan_amount * c.collateral_ratio_bps,
            ) {
                Some(Failure::Overflow)
            } else if collateral_amount * BPS_DENOM < loan_amount * c.collateral_ratio_bps {
                Some(Failure::Rejected(LendingError::InsufficientCollateral))
            } else if has_active_loan {
                Some(Failure::Rejected(LendingError::ActiveLoanExists))
            } else if !fits_i128(deposits - borrowed) {
                Some(Failure::Overflow)
            } else if loan_amount > deposits - borrowed {
                Some(Failure::Rejected(LendingError::InsufficientLiquidity))
            } else if counter_or_zero(loan_counter) == u64::MAX {
                Some(Failure::Overflow)
            } else if !fits_i128(borrowed + loan_amount) {
                Some(Failure::Overflow)
            } else {
                None
            },
        }
    }
}

/// The stored loan counter, zero when unset.
pub open spec fn counter_or_zero(loan_counter: Option<u64>) -> int {
    match loan_counter {
        Some(n) => n as int,
        None => 0,
    }
}

/// The outcome of opening a loan of `loan_amount` against `collateral_amount`.
pub open spec fn open_loan_result(
    enabled_flag: Option<bool>,
    config: Option<LendingConfig>,
    has_active_loan: bool,
    pool: Option<LendingPool>,
    loan_counter: Option<u64>,
    now: u64,
    borrower: Address,
    token: Address,
    loan_amount: i128,
    collateral_amount: i128,
) -> Result<LoanOpened, Failure> {
    match open_loan_failure(
        enabled_flag,
        config,
        has_active_loan,
        pool,
        loan_counter,
        loan_amount,
        collateral_amount,
    ) {
        Some(f) => Err(f),
        None => {
            let before = pool_or_new(pool, token, now);
            Ok(
                LoanOpened {
                    loan: LendingLoan {
                        loan_id: (counter_or_zero(loan_counter) + 1) as u64,
                        borrower,
                        token,
                        principal: loan_amount,
                        collateral: collateral_amount,
                        interest_accrued: 0,
                        created_at: now,
                        last_accrual: now,
                        status: LoanStatus::Active,
                    },
                    pool: LendingPool {
                        total_borrowed: (before.total_borrowed + loan_amount) as i128,
                        ..before
                    },
                },
            )
        },
    }
}

/// The protocol's cut of an interest payment: `protocol_fee_bps` of it,
/// rounded toward zero.
pub open spec fn protocol_fee_of(interest_paid: int, config: LendingConfig) -> int {
    trunc_div(interest_paid * config.protocol_fee_bps, BPS_DENOM as int)
}

/// Whether splitting an interest payment into fee and lender share overflows.
pub open spec fn fee_split_overflows(interest_paid: int, config: LendingConfig) -> bool {
    !fits_i128(interest_paid * config.protocol_fee_bps) || !fits_i128(
        interest_paid - protocol_fee_of(interest_paid, config),
    )
}

/// Whether booking a settlement into a pool overflows.
pub open spec fn settlement_overflows(
    pool: LendingPool,
    principal_paid: int,
    protocol_fee: int,
    lender_interest: int,
) -> bool {
    ||| !fits_i128(pool.total_borrowed - principal_paid)
    ||| !fits_i128(pool.total_protocol_fees + protocol_fee)
    ||| !fits_i128(pool.total_interest_paid + lender_interest)
    ||| !fits_i128(pool.total_deposits + lender_interest)
    ||| pool.total_lender_deposits > 0 && scaled_quotient_overflows(
        lender_interest,
        INTEREST_INDEX_PRECISION as int,
        pool.total_lender_deposits as int,
    )
    ||| !fits_i128(pool.interest_index + index_rise(pool, lender_interest))
}

/// How far the lenders' share of an interest payment raises the pool's
/// interest index: the share per deposited unit, scaled by
/// `INTEREST_INDEX_PRECISION` and rounded toward zero; nothing when no
/// lender holds a deposit.
pub open spec fn index_rise(pool: LendingPool, lender_interest: int) -> int {
    if pool.total_lender_deposits > 0 {
        trunc_div(
            lender_interest * INTEREST_INDEX_PRECISION,
            pool.total_lender_deposits as int,
        )
    } else {
        0
    }
}

/// A pool after a settlement: the principal paid leaves the borrows, the fee
/// goes to the protocol, and the lender share is added both to the interest
/// paid out and to the deposits, and shared out pro-rata to the lenders'
/// deposits by raising the interest index.
pub open spec fn settled_pool(
    pool: LendingPool,
    principal_paid: int,
    protocol_fee: int,
    lender_interest: int,
) -> LendingPool {
    LendingPool {
        total_borrowed: (pool.total_borrowed - principal_paid) as i128,
        total_protocol_fees: (pool.total_protocol_fees + protocol_fee) as i128,
        total_interest_paid: (pool.total_interest_paid + lender_interest) as i128,
        total_deposits: (pool.total_deposits + lender_interest) as i128,
        interest_index: (pool.interest_index + index_rise(pool, lender_interest)) as i128,
        ..pool
    }
}

/// What a repayment writes: the loan and pool, the split of the payment, and
/// whether the loan is now fully repaid (its collateral then goes back to
/// the borrower and its active mapping is removed).
#[derive(Debug)]
pub struct LoanRepaid {
    pub loan: LendingLoan,
    pub pool: LendingPool,
    pub interest_paid: i128,
    pub principal_paid: i128,
    pub fully_repaid: bool,
}

/// The outcome of repaying `repay_amount` toward a stored loan.
pub open spec fn repay_result(
    config: Option<LendingConfig>,
    stored_loan: Option<LendingLoan>,
    pool: Option<LendingPool>,
    now: u64,
    repay_amount: i128,
) -> Result<LoanRepaid, Failure> {
    if repay_amount <= 0 {
        Err(Failure::Rejected(LendingError::LoanTooSmall))
    } else {
        match stored_loan {
            None => Err(Failure::Rejected(LendingError::LoanNotFound)),
            Some(loan) => if loan.status != LoanStatus::Active {
                Err(Failure::Rejected(LendingError::LoanNotActive))
            } else {
                match accrual_result(loan, pool, config, now) {
                    Err(f) => Err(f),
                    Ok(accrued) => repay_accrued_result(config, accrued, pool, now, repay_amount),
                }
            },
        }
    }
}

/// Repayment of an active loan whose interest is already brought up to
/// date: interest is paid first, then principal.
pub open spec fn repay_accrued_result(
    config: Option<LendingConfig>,
    loan: LendingLoan,
    pool: Option<LendingPool>,
    now: u64,
    repay_amount: i128,
) -> Result<LoanRepaid, Failure> {
    let owed = debt_of(loan);
    let covers_interest_only = repay_amount <= loan.interest_accrued;
    let interest_paid: int = if covers_interest_only {
        repay_amount as int
    } else {
        loan.interest_accrued as int
    };
    let principal_paid: int = if covers_interest_only {
        0
    } else {
        repay_amount - loan.interest_accrued
    };
    let principal = loan.principal - principal_paid;
    let interest = loan.interest_accrued - interest_paid;
    if !fits_i128(owed) {
        Err(Failure::Overflow)
    } else if repay_amount > owed {
        Err(Failure::Rejected(LendingError::RepayExceedsDebt))
    } else if !fits_i128(principal_paid) {
        Err(Failure::Overflow)
    } else {
        match config {
            None => Err(Failure::Rejected(LendingError::NotConfigured)),
            Some(c) => {
                let fee = protocol_fee_of(interest_paid, c);
                let lender_interest = interest_paid - fee;
                let before = pool_or_new(pool, loan.token, now);
                let fully_repaid = principal == 0 && interest == 0;
                if fee_split_overflows(interest_paid, c) {
                    Err(Failure::Overflow)
                } else if settlement_overflows(before, principal_paid, fee, lender_interest) {
                    Err(Failure::Overflow)
                } else {
                    Ok(
                        LoanRepaid {
                            loan: LendingLoan {
                                principal: principal as i128,
                                interest_accrued: interest as i128,
                                status: if fully_repaid {
                                    LoanStatus::Repaid
                                } else {
                                    loan.status
                                },
                                ..loan
                            },
                            pool: settled_pool(before, principal_paid, fee, lender_interest),
                            interest_paid: interest_paid as i128,
                            principal_paid: principal_paid as i128,
                            fully_repaid,
                        },
                    )
                }
            },
        }
    }
}

/// The outcome of an explicit accrual on a stored loan: the loan to write
/// back, or nothing to write when the loan is no longer active.
pub open spec fn accrue_result(
    stored_loan: Option<LendingLoan>,
    pool: Option<LendingPool>,
    config: Option<LendingConfig>,
    now: u64,
) -> Result<Option<LendingLoan>, Failure> {
    match stored_loan {
        None => Err(Failure::Rejected(LendingError::LoanNotFound)),
        Some(loan) => if loan.status != LoanStatus::Active {
            Ok(None)
        } else {
            match accrual_result(loan, pool, config, now) {
                Err(f) => Err(f),
                Ok(accrued) => Ok(Some(accrued)),
            }
        },
    }
}

/// The ids held by a stored loan history, empty when none is stored.
pub open spec fn history_of(history: Option<soroban_sdk::Vec<u64>>) -> Seq<u64> {
    match history {
        Some(ids) => loan_id_list(ids),
        None => Seq::empty(),
    }
}

// ── Public API ───────────────────────────────────────────────────────────────

/// Open a new loan: lock `collateral_amount` and borrow `loan_amount` of `token`.
///
/// The borrower must not already have an active loan for this token.
/// Collateral must satisfy the configured LTV and collateral ratio, and the
/// pool must have enough liquidity.  The caller stores the returned loan
/// under its id (which is also the new loan counter), moves the collateral
/// into the contract and the loan amount to the borrower.
pub fn open_loan(
    enabled_flag: Option<bool>,
    config: &Option<LendingConfig>,
    has_active_loan: bool,
    pool: Option<LendingPool>,
    loan_counter: Option<u64>,
    now: u64,
    borrower: Address,
    token: Address,
    loan_amount: i128,
    collateral_amount: i128,
) -> (r: Result<LoanOpened, Failure>)
    ensures
        r == open_loan_result(
            enabled_flag,
            *config,
            has_active_loan,
            pool,
            loan_counter,
            now,
            borrower,
            token,
            loan_amount,
            collateral_amount,
        ),
{
    require_enabled(enabled_flag)?;
    let c = match config {
        Some(c) => c,
        None => {
            return Err(Failure::Rejected(LendingError::NotConfigured));
        },
    };
    if !c.enabled {
        return Err(Failure::Rejected(LendingError::Disabled));
    }
    if loan_amount < c.min_loan_amount {
        return Err(Failure::Rejected(LendingError::LoanTooSmall));
    }
    if loan_amount <= 0 || collateral_amount <= 0 {
        return Err(Failure::Rejected(LendingError::LoanTooSmall));
    }
    // Enforce LTV: loan_amount * BPS_DENOM <= collateral_amount * max_ltv_bps
    let loan_side = checked_product(loan_amount, BPS_DENOM as i128)?;
    let ltv_side = checked_product(collateral_amount, c.max_ltv_bps as i128)?;
    if loan_side > ltv_side {
        return Err(Failure::Rejected(LendingError::LtvExceeded));
    }
    // Enforce collateral ratio: collateral * BPS_DENOM >= loan * collateral_ratio_bps
    let collateral_side = checked_product(collateral_amount, BPS_DENOM as i128)?;
    let ratio_side = checked_product(loan_amount, c.collateral_ratio_bps as i128)?;
    if collateral_side < ratio_side {
        return Err(Failure::Rejected(LendingError::InsufficientCollateral));
    }
    // One active loan per borrower per token
    if has_active_loan {
        return Err(Failure::Rejected(LendingError::ActiveLoanExists));
    }
    // Pool must have enough liquidity
    let mut updated = load_or_create_pool(pool, token.clone(), now);
    let available = checked_difference(updated.total_deposits, updated.total_borrowed)?;
    if loan_amount > available {
        return Err(Failure::Rejected(LendingError::InsufficientLiquidity));
    }
    let loan_id = next_loan_id(loan_counter)?;
    let loan = LendingLoan {
        loan_id,
        borrower,
        token,
        principal: loan_amount,
        collateral: collateral_amount,
        interest_accrued: 0,
        created_at: now,
        last_accrual: now,
        status: LoanStatus::Active,
    };
    updated.total_borrowed = checked_sum(updated.total_borrowed, loan_amount)?;
    Ok(LoanOpened { loan, pool: updated })
}

/// Repay `repay_amount` toward an active loan.
///
/// Interest is accrued first, then the payment is applied: interest first,
/// then principal.  The interest paid is split into the protocol fee and
/// the lenders' share, which stays in the pool as additional deposits and
/// is distributed pro-rata to the lenders' deposits.  If
/// the loan is fully repaid it is marked `Repaid`.
pub fn repay(
    config: &Option<LendingConfig>,
    stored_loan: Option<LendingLoan>,
    pool: Option<LendingPool>,
    now: u64,
    repay_amount: i128,
) -> (r: Result<LoanRepaid, Failure>)
    ensures
        r == repay_result(*config, stored_loan, pool, now, repay_amount),
{
    if repay_amount <= 0 {
        return Err(Failure::Rejected(LendingError::LoanTooSmall));
    }
    let loan = load_loan_or_panic(stored_loan)?;
    if loan.status != LoanStatus::Active {
        return Err(Failure::Rejected(LendingError::LoanNotActive));
    }
    // Accrue interest up to now
    let mut loan = accrue_loan_interest(loan, &pool, config, now)?;
    let total_owed = checked_sum(loan.principal, loan.interest_accrued)?;
    if repay_amount > total_owed {
        return Err(Failure::Rejected(LendingError::RepayExceedsDebt));
    }
    // Apply payment: interest first, then principal
    let interest_paid;
    let principal_paid;
    if repay_amount <= loan.interest_accrued {
        interest_paid = repay_amount;
        principal_paid = 0;
        loan.interest_accrued = loan.interest_accrued - repay_amount;
    } else {
        interest_paid = loan.interest_accrued;
        principal_paid = checked_difference(repay_amount, interest_paid)?;
        loan.interest_accrued = 0;
        loan.principal = loan.principal - principal_paid;
    }
    let c = match config {
        Some(c) => c,
        None => {
            return Err(Failure::Rejected(LendingError::NotConfigured));
        },
    };
    let (protocol_fee, lender_interest) = split_interest(interest_paid, c)?;
    let before = load_or_create_pool(pool, loan.token.clone(), now);
    let updated = settle_pool(before, principal_paid, protocol_fee, lender_interest)?;
    let fully_repaid = loan.principal == 0 && loan.interest_accrued == 0;
    if fully_repaid {
        loan.status = LoanStatus::Repaid;
    }
    Ok(LoanRepaid { loan, pool: updated, interest_paid, principal_paid, fully_repaid })
}

/// Accrue interest on a stored loan without any payment.
///
/// Returns the loan to write back with its interest and accrual time
/// brought up to `now`, or `None` (nothing to write) when the loan is not
/// active.
pub fn accrue(
    stored_loan: Option<LendingLoan>,
    pool: &Option<LendingPool>,
    config: &Option<LendingConfig>,
    now: u64,
) -> (r: Result<Option<LendingLoan>, Failure>)
    ensures
        r == accrue_result(stored_loan, *pool, *config, now),
{
    let loan = load_loan_or_panic(stored_loan)?;
    if loan.status != LoanStatus::Active {
        return Ok(None);
    }
    let accrued = accrue_loan_interest(loan, pool, config, now)?;
    Ok(Some(accrued))
}

/// Computes the health factor of a loan scaled by [`HEALTH_FACTOR_PRECISION`].
///
/// `health = (collateral * liquidation_threshold_bps * PRECISION) / ((principal + interest) * BPS_DENOM)`
///
/// Returns `i128::MAX` when there is no debt or lending is not configured.
pub fn health_factor(loan: &LendingLoan, config: &Option<LendingConfig>) -> (r: Result<
    i128,
    Failure,
>)
    ensures
        r == health_result(*loan, *config),
{
    let total_debt = checked_sum(loan.principal, loan.interest_accrued)?;
    if total_debt == 0 {
        return Ok(i128::MAX);
    }
    let c = match config {
        Some(c) => c,
        None => {
            return Ok(i128::MAX);
        },
    };
    let weighted = checked_product(loan.collateral, c.liquidation_threshold_bps as i128)?;
    let scaled = checked_product(weighted, HEALTH_FACTOR_PRECISION)?;
    let denominator = checked_product(total_debt, BPS_DENOM as i128)?;
    proof {
        lemma_trunc_div_fits(scaled as int, denominator as int);
    }
    Ok(quotient(scaled, denominator))
}

/// Appends `loan_id` to a borrower's loan history (empty when none is
/// stored) and returns the history to store.
pub fn track_borrower_loan(env: &Env, history: Option<soroban_sdk::Vec<u64>>, loan_id: u64) -> (ids:
    soroban_sdk::Vec<u64>)
    ensures
        loan_id_list(ids) == history_of(history).push(loan_id),
{
    let mut ids = match history {
        Some(ids) => ids,
        None => new_loan_id_list(env),
    };
    push_loan_id(&mut ids, loan_id);
    ids
}

// ── Internal helpers ─────────────────────────────────────────────────────────

/// Brings a loan's interest up to `now` at the pool's current rate.
pub fn accrue_loan_interest(
    loan: LendingLoan,
    pool: &Option<LendingPool>,
    config: &Option<LendingConfig>,
    now: u64,
) -> (r: Result<LendingLoan, Failure>)
    ensures
        r == accrual_result(loan, *pool, *config, now),
{
    let elapsed = now.saturating_sub(loan.last_accrual);
    if elapsed == 0 {
        return Ok(loan);
    }
    let (deposits, borrowed) = match pool {
        Some(p) => (p.total_deposits, p.total_borrowed),
        None => (0i128, 0i128),
    };
    let c = match config {
        Some(c) => c,
        None => {
            return Ok(loan);
        },
    };
    if deposits > 0 && borrowed > 0 {
        checked_product(borrowed, BPS_DENOM as i128)?;
    }
    let rate_bps = current_rate_bps(deposits, borrowed, c);
    if loan.principal > 0 && rate_bps != 0 {
        proof {
            lemma_partial_product_bound(loan.principal as int, rate_bps as int, elapsed as int);
        }
        let partial = checked_product(loan.principal, rate_bps as i128)?;
        checked_product(partial, elapsed as i128)?;
    }
    let interest = accrue_interest(loan.principal, rate_bps, elapsed);
    let mut loan = loan;
    loan.interest_accrued = saturating_sum(loan.interest_accrued, interest);
    loan.last_accrual = now;
    Ok(loan)
}

/// The stored loan, or a refusal when there is none.
fn load_loan_or_panic(stored_loan: Option<LendingLoan>) -> (r: Result<LendingLoan, Failure>)
    ensures
        r == (match stored_loan {
            Some(loan) => Ok(loan),
            None => Err(Failure::Rejected(LendingError::LoanNotFound)),
        }),
{
    match stored_loan {
        Some(loan) => Ok(loan),
        None => Err(Failure::Rejected(LendingError::LoanNotFound)),
    }
}

/// The next loan id: one past the stored counter (zero when unset).
fn next_loan_id(loan_counter: Option<u64>) -> (r: Result<u64, Failure>)
    ensures
        r == (if counter_or_zero(loan_counter) == u64::MAX {
            Err(Failure::Overflow)
        } else {
            Ok((counter_or_zero(loan_counter) + 1) as u64)
        }),
{
    let current = match loan_counter {
        Some(n) => n,
        None => 0,
    };
    if current == u64::MAX {
        return Err(Failure::Overflow);
    }
    Ok(current + 1)
}

/// Splits an interest payment into the protocol fee and the lenders' share.
pub(crate) fn split_interest(interest_paid: i128, config: &LendingConfig) -> (r: Result<
    (i128, i128),
    Failure,
>)
    ensures
        fee_split_overflows(interest_paid as int, *config) <==> r is Err,
        r is Err ==> r == Err::<(i128, i128), Failure>(Failure::Overflow),
        r matches Ok(split) ==> split.0 == protocol_fee_of(interest_paid as int, *config)
            && split.1 == interest_paid - split.0,
{
    let weighted = checked_product(interest_paid, config.protocol_fee_bps as i128)?;
    let protocol_fee = quotient(weighted, BPS_DENOM as i128);
    let lender_interest = checked_difference(interest_paid, protocol_fee)?;
    Ok((protocol_fee, lender_interest))
}

/// Books a settlement into a pool.
pub(crate) fn settle_pool(
    pool: LendingPool,
    principal_paid: i128,
    protocol_fee: i128,
    lender_interest: i128,
) -> (r: Result<LendingPool, Failure>)
    ensures
        r == (if settlement_overflows(
            pool,
            principal_paid as int,
            protocol_fee as int,
            lender_interest as int,
        ) {
            Err(Failure::Overflow)
        } else {
            Ok(settled_pool(pool, principal_paid as int, protocol_fee as int, lender_interest as int))
        }),
{
    let mut pool = pool;
    pool.total_borrowed = checked_difference(pool.total_borrowed, principal_paid)?;
    pool.total_protocol_fees = checked_sum(pool.total_protocol_fees, protocol_fee)?;
    pool.total_interest_paid = checked_sum(pool.total_interest_paid, lender_interest)?;
    pool.total_deposits = checked_sum(pool.total_deposits, lender_interest)?;
    let rise = if pool.total_lender_deposits > 0 {
        scaled_quotient(lender_interest, INTEREST_INDEX_PRECISION, pool.total_lender_deposits)?
    } else {
        0
    };
    pool.interest_index = checked_sum(pool.interest_index, rise)?;
    Ok(pool)
}

} // verus!
