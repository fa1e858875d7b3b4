//! What the lending operations promise, stated directly over their inputs
//! and results in the protocol's own terms: the rate and interest formulas,
//! the configured protocol fee, the health-factor rule for liquidation and
//! the conditions under which a loan opens.

use soroban_sdk::Address;
use vstd::arithmetic::div_mod::*;
use vstd::arithmetic::mul::*;
use vstd::prelude::*;

use super::arith::fits_i128;
use super::laws::{
    lemma_accrual_keeps_loan_well_formed, lemma_liquidation_closes_unhealthy_loan,
    lemma_repay_settles_interest_first, lemma_unhealthy_iff_under_threshold, loan_well_formed,
};
use super::liquidation::liquidate_result;
use super::loans::{accrual_result, health_result, open_loan_result, repay_result};
use super::pool::pool_or_new;
use super::{BPS_DENOM, SECONDS_PER_YEAR};
use crate::types::{Failure, LendingConfig, LendingError, LendingLoan, LendingPool, LoanStatus};

verus! {

// ── Interest accrual ────────────────────────────────────────────────────────

/// Accruing a loan at `now` charges interest for the time since its last
/// accrual, and only that: `principal × rate × (now − last_accrual)` over a
/// year of seconds in basis points, rounded down, where the annual rate is
/// the base rate plus the pool's utilisation (borrowed over deposited, at
/// most 100 %) times the utilisation multiplier.  The total saturates at
/// `i128::MAX`, the accrual time moves to `now`, and nothing else on the
/// loan changes.  When `now` is not after the last accrual, nothing is
/// charged.
pub proof fn lemma_accrual_charges_time_since_last_accrual(
    loan: LendingLoan,
    pool: Option<LendingPool>,
    config: LendingConfig,
    now: u64,
)
    requires
        accrual_result(loan, pool, Some(config), now) is Ok,
        loan.principal >= 0,
        loan.interest_accrued >= 0,
    ensures
        ({
            let accrued = accrual_result(loan, pool, Some(config), now)->Ok_0;
            let deposits: int = match pool {
                Some(p) => p.total_deposits as int,
                None => 0,
            };
            let borrowed: int = match pool {
                Some(p) => p.total_borrowed as int,
                None => 0,
            };
            let rate: int = if deposits <= 0 || borrowed <= 0 {
                config.base_rate_bps as int
            } else {
                let utilisation: int = if borrowed * 10_000 / deposits < 10_000 {
                    borrowed * 10_000 / deposits
                } else {
                    10_000
                };
                let r: int = config.base_rate_bps + utilisation * config.utilisation_multiplier_bps
                    / 10_000;
                if r > u32::MAX {
                    u32::MAX as int
                } else {
                    r
                }
            };
            let charged: int = if now > loan.last_accrual {
                loan.principal * rate * (now - loan.last_accrual) / (10_000int * 31_536_000int)
            } else {
                0
            };
            &&& accrued.interest_accrued == if loan.interest_accrued + charged > i128::MAX {
                i128::MAX as int
            } else {
                loan.interest_accrued + charged
            }
            &&& accrued.last_accrual == if now > loan.last_accrual {
                now
            } else {
                loan.last_accrual
            }
            &&& accrued == LendingLoan {
                interest_accrued: accrued.interest_accrued,
                last_accrual: accrued.last_accrual,
                ..loan
            }
        }),
{
    assert(BPS_DENOM as int * SECONDS_PER_YEAR as int == 10_000 * 31_536_000);
    if now > loan.last_accrual {
        let elapsed: int = now - loan.last_accrual;
        lemma_mul_basics(loan.principal as int);
        lemma_mul_basics(elapsed);
        let deposits: int = match pool {
            Some(p) => p.total_deposits as int,
            None => 0,
        };
        let borrowed: int = match pool {
            Some(p) => p.total_borrowed as int,
            None => 0,
        };
        if deposits > 0 && borrowed > 0 {
            lemma_mul_strictly_positive(borrowed, 10_000);
        }
        if loan.principal == 0 {
            assert(loan.principal * super::rates::rate_of(deposits, borrowed, config) * elapsed
                == 0) by (nonlinear_arith)
                requires
                    loan.principal == 0,
            ;
        }
    }
}

/// Accrual never looks at when the loan was created: loans that differ
/// only in their creation time accrue alike.
pub proof fn lemma_accrual_ignores_creation_time(
    loan: LendingLoan,
    pool: Option<LendingPool>,
    config: Option<LendingConfig>,
    now: u64,
    created_at: u64,
)
    ensures
        ({
            let moved = LendingLoan { created_at, ..loan };
            match (accrual_result(moved, pool, config, now), accrual_result(loan, pool, config, now)) {
                (Ok(a), Ok(b)) => a == LendingLoan { created_at, ..b },
                (Err(e), Err(f)) => e == f,
                _ => false,
            }
        }),
{
}

/// Accruing at `t1` and then again at a later `t2` (against the same pool)
/// charges the first period once and the second period once: the second
/// accrual adds the interest for `t2 − t1` only.
pub proof fn lemma_successive_accruals_charge_each_period_once(
    loan: LendingLoan,
    pool: Option<LendingPool>,
    config: LendingConfig,
    t1: u64,
    t2: u64,
)
    requires
        loan.principal >= 0,
        loan.interest_accrued >= 0,
        loan.last_accrual < t1 < t2,
        accrual_result(loan, pool, Some(config), t1) is Ok,
        accrual_result(accrual_result(loan, pool, Some(config), t1)->Ok_0, pool, Some(config), t2)
            is Ok,
    ensures
        ({
            let first = accrual_result(loan, pool, Some(config), t1)->Ok_0;
            let second = accrual_result(first, pool, Some(config), t2)->Ok_0;
            let deposits: int = match pool {
                Some(p) => p.total_deposits as int,
                None => 0,
            };
            let borrowed: int = match pool {
                Some(p) => p.total_borrowed as int,
                None => 0,
            };
            let rate: int = if deposits <= 0 || borrowed <= 0 {
                config.base_rate_bps as int
            } else {
                let utilisation: int = if borrowed * 10_000 / deposits < 10_000 {
                    borrowed * 10_000 / deposits
                } else {
                    10_000
                };
                let r: int = config.base_rate_bps + utilisation * config.utilisation_multiplier_bps
                    / 10_000;
                if r > u32::MAX {
                    u32::MAX as int
                } else {
                    r
                }
            };
            let second_period: int = loan.principal * rate * (t2 - t1) / (10_000int * 31_536_000int);
            &&& first.last_accrual == t1
            &&& second.last_accrual == t2
            &&& first.interest_accrued + second_period <= i128::MAX ==> second.interest_accrued
                == first.interest_accrued + second_period
        }),
{
    lemma_accrual_charges_time_since_last_accrual(loan, pool, config, t1);
    let first = accrual_result(loan, pool, Some(config), t1)->Ok_0;
    lemma_accrual_charges_time_since_last_accrual(first, pool, config, t2);
    assert(first.interest_accrued >= 0) by {
        lemma_accrual_interest_grows(loan, pool, config, t1);
    }
}

/// Accrual never lowers the interest owed on a loan with no negative
/// principal.
proof fn lemma_accrual_interest_grows(
    loan: LendingLoan,
    pool: Option<LendingPool>,
    config: LendingConfig,
    now: u64,
)
    requires
        accrual_result(loan, pool, Some(config), now) is Ok,
        loan.principal >= 0,
        loan.interest_accrued >= 0,
    ensures
        accrual_result(loan, pool, Some(config), now)->Ok_0.interest_accrued
            >= loan.interest_accrued,
{
    let accrued = accrual_result(loan, pool, Some(config), now)->Ok_0;
    if now > loan.last_accrual {
        let deposits = super::loans::basis_deposits(pool);
        let borrowed = super::loans::basis_borrowed(pool);
        let rate = super::rates::rate_of(deposits, borrowed, config);
        let elapsed: int = now - loan.last_accrual;
        if loan.principal > 0 && rate != 0 {
            lemma_mul_nonnegative(loan.principal as int, rate);
            lemma_mul_nonnegative(loan.principal * rate, elapsed);
            lemma_div_pos_is_pos(
                loan.principal * rate * elapsed,
                super::rates::interest_divisor(),
            );
        }
    }
}

// ── Protocol fee ────────────────────────────────────────────────────────────

/// The protocol's cut of an interest payment `x >= 0` at `fee_bps`:
/// `x × fee_bps / 10 000`, rounded down.
proof fn lemma_fee_is_configured_share(x: int, config: LendingConfig)
    requires
        x >= 0,
    ensures
        super::loans::protocol_fee_of(x, config) == x * config.protocol_fee_bps / 10_000,
{
    lemma_mul_nonnegative(x, config.protocol_fee_bps as int);
}

/// A repayment takes the configured protocol fee from the interest it pays:
/// `interest_paid × protocol_fee_bps / 10 000`, rounded down (no fee at
/// 0 bps, a fifth at 2 000 bps).  The fee goes to the protocol; the rest of
/// the interest is added to the pool's deposits and to the interest paid
/// out to lenders.
pub proof fn lemma_repay_takes_configured_fee(
    config: LendingConfig,
    loan: LendingLoan,
    pool: Option<LendingPool>,
    now: u64,
    repay_amount: i128,
)
    requires
        loan_well_formed(loan),
        repay_result(Some(config), Some(loan), pool, now, repay_amount) is Ok,
    ensures
        ({
            let repaid = repay_result(Some(config), Some(loan), pool, now, repay_amount)->Ok_0;
            let before = pool_or_new(pool, loan.token, now);
            let fee: int = repaid.interest_paid * config.protocol_fee_bps / 10_000;
            &&& repaid.interest_paid >= 0
            &&& repaid.pool.total_protocol_fees == before.total_protocol_fees + fee
            &&& repaid.pool.total_deposits == before.total_deposits + repaid.interest_paid - fee
            &&& repaid.pool.total_interest_paid == before.total_interest_paid
                + repaid.interest_paid - fee
        }),
{
    let repaid = repay_result(Some(config), Some(loan), pool, now, repay_amount)->Ok_0;
    lemma_accrual_keeps_loan_well_formed(loan, pool, Some(config), now);
    lemma_repay_settles_interest_first(Some(config), loan, pool, now, repay_amount);
    lemma_fee_is_configured_share(repaid.interest_paid as int, config);
}

// ── Liquidation ─────────────────────────────────────────────────────────────

/// Any loan whose health factor has dropped below 1.0 can be liquidated,
/// and only such a loan.  With the loan's interest brought up to `now` (see
/// [`lemma_accrual_charges_time_since_last_accrual`]), the health factor is
/// below 1.0 exactly when the collateral weighted by the liquidation
/// threshold is less than the debt (principal plus interest).  An active
/// loan is refused as healthy exactly when it is not below 1.0; otherwise
/// the liquidation goes through unless an amount overflows.  A liquidation
/// that goes through repays the whole debt, hands over the whole collateral,
/// closes the loan and takes the configured protocol fee from its interest.
pub proof fn lemma_liquidation_exactly_below_health_one(
    config: LendingConfig,
    loan: LendingLoan,
    pool: Option<LendingPool>,
    now: u64,
)
    requires
        loan_well_formed(loan),
        loan.status == LoanStatus::Active,
        accrual_result(loan, pool, Some(config), now) is Ok,
        ({
            let accrued = accrual_result(loan, pool, Some(config), now)->Ok_0;
            let debt = accrued.principal + accrued.interest_accrued;
            &&& debt > 0
            &&& fits_i128(debt * 10_000)
            &&& fits_i128(accrued.collateral * config.liquidation_threshold_bps * 1_000_000)
        }),
    ensures
        ({
            let accrued = accrual_result(loan, pool, Some(config), now)->Ok_0;
            let debt = accrued.principal + accrued.interest_accrued;
            let unhealthy = accrued.collateral * config.liquidation_threshold_bps < debt * 10_000;
            let result = liquidate_result(Some(config), Some(loan), pool, now);
            let before = pool_or_new(pool, loan.token, now);
            let fee: int = accrued.interest_accrued * config.protocol_fee_bps / 10_000;
            &&& (result == Err::<super::liquidation::LoanLiquidated, Failure>(
                Failure::Rejected(LendingError::PositionHealthy),
            )) <==> !unhealthy
            &&& unhealthy ==> (result is Ok || result == Err::<
                super::liquidation::LoanLiquidated,
                Failure,
            >(Failure::Overflow))
            &&& result matches Ok(l) ==> {
                &&& l.debt_repaid == debt
                &&& l.collateral_seized == loan.collateral
                &&& l.loan.status == LoanStatus::Liquidated
                &&& l.loan.principal == 0 && l.loan.interest_accrued == 0
                    && l.loan.collateral == 0
                &&& l.pool.total_borrowed == before.total_borrowed - loan.principal
                &&& l.pool.total_protocol_fees == before.total_protocol_fees + fee
                &&& l.pool.total_deposits == before.total_deposits + accrued.interest_accrued
                    - fee
            }
        }),
{
    let accrued = accrual_result(loan, pool, Some(config), now)->Ok_0;
    let debt = accrued.principal + accrued.interest_accrued;
    lemma_accrual_keeps_loan_well_formed(loan, pool, Some(config), now);
    let weighted = accrued.collateral * config.liquidation_threshold_bps;
    lemma_mul_nonnegative(accrued.collateral as int, config.liquidation_threshold_bps as int);
    assert(weighted * 1_000_000 == accrued.collateral * config.liquidation_threshold_bps
        * 1_000_000);
    assert(fits_i128(weighted)) by (nonlinear_arith)
        requires
            weighted >= 0,
            fits_i128(weighted * 1_000_000),
    ;
    assert(health_result(accrued, Some(config)) is Ok);
    lemma_unhealthy_iff_under_threshold(accrued, config);
    lemma_fee_is_configured_share(accrued.interest_accrued as int, config);
    let result = liquidate_result(Some(config), Some(loan), pool, now);
    if result is Ok {
        lemma_liquidation_closes_unhealthy_loan(Some(config), loan, pool, now);
    }
}

// ── Opening a loan ──────────────────────────────────────────────────────────

/// A loan request opens when lending is on and configured, the amount is
/// at least the minimum, the loan-to-value ratio is within `max_ltv_bps`
/// (`loan × 10 000 ≤ collateral × max_ltv_bps`), the collateral covers
/// `collateral_ratio_bps` of the loan (`collateral × 10 000 ≥ loan ×
/// collateral_ratio_bps`), the borrower has no active loan in the token,
/// and the amount is at most the pool's free liquidity (deposits less
/// borrows), provided no amount overflows and the loan counter can still
/// move.  The new loan carries the next id, the amount as principal, the
/// collateral, no interest and the current time; the pool's borrows grow by
/// the amount.
pub proof fn lemma_open_loan_within_limits_opens(
    enabled_flag: Option<bool>,
    config: LendingConfig,
    pool: Option<LendingPool>,
    loan_counter: Option<u64>,
    now: u64,
    borrower: Address,
    token: Address,
    loan_amount: i128,
    collateral_amount: i128,
)
    requires
        enabled_flag != Some(false),
        config.enabled,
        loan_amount >= config.min_loan_amount,
        loan_amount > 0,
        collateral_amount > 0,
        fits_i128(loan_amount * 10_000),
        fits_i128(collateral_amount * 10_000),
        fits_i128(collateral_amount * config.max_ltv_bps),
        fits_i128(loan_amount * config.collateral_ratio_bps),
        loan_amount * 10_000 <= collateral_amount * config.max_ltv_bps,
        collateral_amount * 10_000 >= loan_amount * config.collateral_ratio_bps,
        loan_counter != Some(u64::MAX),
        pool matches Some(p) && {
            &&& fits_i128(p.total_deposits - p.total_borrowed)
            &&& loan_amount <= p.total_deposits - p.total_borrowed
            &&& fits_i128(p.total_borrowed + loan_amount)
        },
    ensures
        ({
            let p = pool->Some_0;
            let counter: int = match loan_counter {
                Some(n) => n as int,
                None => 0,
            };
            let result = open_loan_result(
                enabled_flag,
                Some(config),
                false,
                pool,
                loan_counter,
                now,
                borrower,
                token,
                loan_amount,
                collateral_amount,
            );
            &&& result is Ok
            &&& result->Ok_0.loan == LendingLoan {
                loan_id: (counter + 1) as u64,
                borrower,
                token,
                principal: loan_amount,
                collateral: collateral_amount,
                interest_accrued: 0,
                created_at: now,
                last_accrual: now,
                status: LoanStatus::Active,
            }
            &&& result->Ok_0.pool == LendingPool {
                total_borrowed: (p.total_borrowed + loan_amount) as i128,
                ..p
            }
        }),
{
}

/// A request that passes every other check but asks for more than the
/// pool's free liquidity (deposits less borrows) is refused for
/// insufficient liquidity, and one that asks for no more is not.
pub proof fn lemma_open_loan_refused_beyond_free_liquidity(
    enabled_flag: Option<bool>,
    config: LendingConfig,
    pool: LendingPool,
    loan_counter: Option<u64>,
    now: u64,
    borrower: Address,
    token: Address,
    loan_amount: i128,
    collateral_amount: i128,
)
    requires
        enabled_flag != Some(false),
        config.enabled,
        loan_amount >= config.min_loan_amount,
        loan_amount > 0,
        collateral_amount > 0,
        fits_i128(loan_amount * 10_000),
        fits_i128(collateral_amount * 10_000),
        fits_i128(collateral_amount * config.max_ltv_bps),
        fits_i128(loan_amount * config.collateral_ratio_bps),
        loan_amount * 10_000 <= collateral_amount * config.max_ltv_bps,
        collateral_amount * 10_000 >= loan_amount * config.collateral_ratio_bps,
        fits_i128(pool.total_deposits - pool.total_borrowed),
    ensures
        (open_loan_result(
            enabled_flag,
            Some(config),
            false,
            Some(pool),
            loan_counter,
            now,
            borrower,
            token,
            loan_amount,
            collateral_amount,
        ) == Err::<super::loans::LoanOpened, Failure>(
            Failure::Rejected(LendingError::InsufficientLiquidity),
        )) <==> loan_amount > pool.total_deposits - pool.total_borrowed,
{
}

} // verus!
