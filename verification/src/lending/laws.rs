//! Properties that hold across the lending operations: what one operation
//! undoes of another, what every operation keeps, and how the health factor,
//! the liquidation rule and the opening limits fit together.

use soroban_sdk::Address;
use vstd::arithmetic::div_mod::*;
use vstd::arithmetic::mul::*;
use vstd::prelude::*;

use super::arith::{low_u32, trunc_div, trunc_rem};
use super::liquidation::liquidate_result;
use super::loans::{
    accrual_result, accrue_result, basis_borrowed, debt_of, health_result, open_loan_result,
    protocol_fee_of, repay_result, settled_pool, settlement_overflows,
};
use super::pool::{
    deposit_of, deposit_result, earned_of, pool_or_new, position_or_new, utilisation_result,
    withdraw_result,
};
use super::rates::{rate_of, utilisation_of};
use super::{BPS_DENOM, HEALTH_FACTOR_PRECISION, INTEREST_INDEX_PRECISION};
use crate::types::{
    Failure, LenderPosition, LendingConfig, LendingError, LendingLoan, LendingPool, LoanStatus,
};

verus! {

/// A loan record as the protocol keeps it: no negative amounts, and a loan
/// that is no longer active owes nothing.
pub open spec fn loan_well_formed(loan: LendingLoan) -> bool {
    &&& loan.principal >= 0
    &&& loan.collateral >= 0
    &&& loan.interest_accrued >= 0
    &&& loan.status != LoanStatus::Active ==> loan.principal == 0 && loan.interest_accrued == 0
}

// ── Pool ────────────────────────────────────────────────────────────────────

/// Withdrawing what was just deposited pays back the amount together with
/// the interest the lender had earned before the deposit; the lender's
/// deposit balance and the pool's lender deposits return to what they were
/// (a pool that did not exist stays created), and the pool's deposits fall
/// by exactly the interest paid out.  This holds when the lender's balance
/// and earned interest are not negative and the pool covers its borrows
/// and that interest.
pub proof fn lemma_withdraw_undoes_deposit(
    enabled_flag: Option<bool>,
    position: Option<LenderPosition>,
    pool: Option<LendingPool>,
    token: Address,
    now: u64,
    amount: i128,
)
    requires
        deposit_result(enabled_flag, position, pool, token, now, amount) is Ok,
        deposit_of(position) >= 0,
        ({
            let before = pool_or_new(pool, token, now);
            let earned = earned_of(position_or_new(position, before), before);
            &&& 0 <= earned
            &&& 0 <= before.total_borrowed
            &&& before.total_borrowed + earned <= before.total_deposits
        }),
    ensures
        ({
            let before = pool_or_new(pool, token, now);
            let p = position_or_new(position, before);
            let earned = earned_of(p, before);
            let deposited = deposit_result(enabled_flag, position, pool, token, now, amount)->Ok_0;
            let withdrawn = withdraw_result(
                enabled_flag,
                Some(deposited.position),
                Some(deposited.pool),
                amount,
            );
            &&& withdrawn is Ok
            &&& withdrawn->Ok_0.payout == amount + earned
            &&& withdrawn->Ok_0.position.deposit == p.deposit
            &&& withdrawn->Ok_0.position.unclaimed_interest == 0
            &&& withdrawn->Ok_0.pool == LendingPool {
                total_deposits: (before.total_deposits - earned) as i128,
                ..before
            }
        }),
{
    let before = pool_or_new(pool, token, now);
    let deposited = deposit_result(enabled_flag, position, pool, token, now, amount)->Ok_0;
    let held = deposited.position.deposit as int;
    let p = INTEREST_INDEX_PRECISION as int;
    lemma_mul_basics(held);
    lemma_mul_basics(trunc_div(held, p));
    lemma_mul_basics(trunc_rem(held, p));
    assert(earned_of(deposited.position, deposited.pool) == earned_of(
        position_or_new(position, before),
        before,
    ));
}

/// The rate is the base rate plus the reported utilisation's share of the
/// multiplier: `base + utilisation_bps * multiplier / BPS_DENOM`, saturating.
pub proof fn lemma_rate_from_utilisation(pool: LendingPool, config: LendingConfig)
    requires
        pool.total_deposits > 0,
        pool.total_borrowed >= 0,
        utilisation_result(Some(pool)) is Ok,
    ensures
        ({
            let u = utilisation_result(Some(pool))->Ok_0;
            let with_extra = config.base_rate_bps + u * config.utilisation_multiplier_bps
                / BPS_DENOM as int;
            rate_of(pool.total_deposits as int, pool.total_borrowed as int, config) == if with_extra
                > u32::MAX {
                u32::MAX as int
            } else {
                with_extra
            }
        }),
{
    let u = utilisation_of(pool.total_deposits as int, pool.total_borrowed as int);
    lemma_div_pos_is_pos(pool.total_borrowed * BPS_DENOM, pool.total_deposits as int);
    assert(0 <= u <= BPS_DENOM);
    lemma_small_mod(u as nat, 0x1_0000_0000);
    assert(low_u32(u) == u);
    assert(utilisation_result(Some(pool))->Ok_0 == u);
    if pool.total_borrowed == 0 {
        assert(u == 0);
        lemma_mul_basics(config.utilisation_multiplier_bps as int);
    }
}

// ── Loans ───────────────────────────────────────────────────────────────────

/// A loan that opens respects every limit of the configuration: the LTV cap,
/// the collateral ratio, the minimum amount and the pool's free liquidity;
/// it starts active, owing no interest, under the id one past the counter,
/// and its principal is added to the pool's borrows.
pub proof fn lemma_opened_loan_respects_limits(
    enabled_flag: Option<bool>,
    config: Option<LendingConfig>,
    has_active_loan: bool,
    pool: Option<LendingPool>,
    loan_counter: Option<u64>,
    now: u64,
    borrower: Address,
    token: Address,
    loan_amount: i128,
    collateral_amount: i128,
)
    requires
        open_loan_result(
            enabled_flag,
            config,
            has_active_loan,
            pool,
            loan_counter,
            now,
            borrower,
            token,
            loan_amount,
            collateral_amount,
        ) is Ok,
    ensures
        ({
            let opened = open_loan_result(
                enabled_flag,
                config,
                has_active_loan,
                pool,
                loan_counter,
                now,
                borrower,
                token,
                loan_amount,
                collateral_amount,
            )->Ok_0;
            let c = config->Some_0;
            &&& config is Some && c.enabled && !has_active_loan
            &&& opened.loan.principal * BPS_DENOM <= opened.loan.collateral * c.max_ltv_bps
            &&& opened.loan.collateral * BPS_DENOM >= opened.loan.principal
                * c.collateral_ratio_bps
            &&& opened.loan.principal >= c.min_loan_amount
            &&& opened.loan.principal <= super::loans::basis_deposits(pool) - basis_borrowed(pool)
            &&& opened.loan.status == LoanStatus::Active
            &&& opened.loan.interest_accrued == 0
            &&& opened.loan.loan_id == super::loans::counter_or_zero(loan_counter) + 1
            &&& loan_well_formed(opened.loan)
            &&& opened.pool.total_borrowed == basis_borrowed(pool) + opened.loan.principal
        }),
{
}

/// The health factor falls below 1.0 exactly when the collateral, weighted
/// by the liquidation threshold, no longer covers the debt:
/// `collateral * liquidation_threshold_bps < debt * BPS_DENOM`.
pub proof fn lemma_unhealthy_iff_under_threshold(loan: LendingLoan, config: LendingConfig)
    requires
        debt_of(loan) > 0,
        loan.collateral >= 0,
        health_result(loan, Some(config)) is Ok,
    ensures
        (health_result(loan, Some(config))->Ok_0 < HEALTH_FACTOR_PRECISION) <==> (loan.collateral
            * config.liquidation_threshold_bps < debt_of(loan) * BPS_DENOM),
{
    let weighted = loan.collateral * config.liquidation_threshold_bps;
    let x = weighted * HEALTH_FACTOR_PRECISION;
    let y = debt_of(loan) * BPS_DENOM;
    let p = HEALTH_FACTOR_PRECISION as int;
    lemma_mul_nonnegative(loan.collateral as int, config.liquidation_threshold_bps as int);
    lemma_mul_nonnegative(weighted, p);
    lemma_mul_strictly_positive(debt_of(loan), BPS_DENOM as int);
    lemma_below_scaled_quotient(x, y, p);
    assert((weighted * p < y * p) <==> (weighted < y)) by (nonlinear_arith)
        requires
            p > 0,
    ;
}

/// For `x >= 0` and `y > 0`: `x / y < p` exactly when `x < p * y`.
proof fn lemma_below_scaled_quotient(x: int, y: int, p: int)
    requires
        x >= 0,
        y > 0,
        p > 0,
    ensures
        (x / y < p) <==> (x < y * p),
{
    lemma_fundamental_div_mod(x, y);
    lemma_mod_pos_bound(x, y);
    let q = x / y;
    let rem = x % y;
    assert((q < p) <==> (y * q + rem < y * p)) by (nonlinear_arith)
        requires
            y > 0,
            0 <= rem < y,
    {
        if q < p {
            assert(y * q + y <= y * p);
        } else {
            assert(y * q >= y * p);
        }
    }
}

/// When the liquidation threshold and the collateral ratio together reach
/// `BPS_DENOM * BPS_DENOM` (as the defaults 120 % and 150 % do), a loan is
/// healthy the moment it opens, so liquidating it at once is refused.
pub proof fn lemma_fresh_loan_is_healthy(
    enabled_flag: Option<bool>,
    config: Option<LendingConfig>,
    has_active_loan: bool,
    pool: Option<LendingPool>,
    loan_counter: Option<u64>,
    now: u64,
    borrower: Address,
    token: Address,
    loan_amount: i128,
    collateral_amount: i128,
)
    requires
        open_loan_result(
            enabled_flag,
            config,
            has_active_loan,
            pool,
            loan_counter,
            now,
            borrower,
            token,
            loan_amount,
            collateral_amount,
        ) is Ok,
        config is Some,
        config->Some_0.liquidation_threshold_bps * config->Some_0.collateral_ratio_bps
            >= BPS_DENOM * BPS_DENOM,
        health_result(
            open_loan_result(
                enabled_flag,
                config,
                has_active_loan,
                pool,
                loan_counter,
                now,
                borrower,
                token,
                loan_amount,
                collateral_amount,
            )->Ok_0.loan,
            config,
        ) is Ok,
    ensures
        ({
            let opened = open_loan_result(
                enabled_flag,
                config,
                has_active_loan,
                pool,
                loan_counter,
                now,
                borrower,
                token,
                loan_amount,
                collateral_amount,
            )->Ok_0;
            &&& health_result(opened.loan, config)->Ok_0 >= HEALTH_FACTOR_PRECISION
            &&& liquidate_result(config, Some(opened.loan), Some(opened.pool), now) == Err::<
                super::liquidation::LoanLiquidated,
                Failure,
            >(Failure::Rejected(LendingError::PositionHealthy))
        }),
{
    let opened = open_loan_result(
        enabled_flag,
        config,
        has_active_loan,
        pool,
        loan_counter,
        now,
        borrower,
        token,
        loan_amount,
        collateral_amount,
    )->Ok_0;
    let c = config->Some_0;
    let l = loan_amount as int;
    let k = collateral_amount as int;
    let t = c.liquidation_threshold_bps as int;
    let r = c.collateral_ratio_bps as int;
    assert(k * 10000 >= l * r);
    assert(k * t >= l * 10000) by (nonlinear_arith)
        requires
            k * 10000 >= l * r,
            t * r >= 10000 * 10000,
            l > 0,
            k > 0,
            t >= 0,
            r >= 0,
    {
        assert(k * 10000 * t >= l * r * t);
        assert(l * r * t >= l * (10000 * 10000));
    }
    assert(debt_of(opened.loan) == l);
    lemma_unhealthy_iff_under_threshold(opened.loan, c);
    assert(accrual_result(opened.loan, Some(opened.pool), config, now) == Ok::<_, Failure>(
        opened.loan,
    ));
}

/// Accrual never touches principal, collateral or status, never lowers the
/// interest owed, and keeps a well-formed loan well-formed.
pub proof fn lemma_accrual_keeps_loan_well_formed(
    loan: LendingLoan,
    pool: Option<LendingPool>,
    config: Option<LendingConfig>,
    now: u64,
)
    requires
        loan_well_formed(loan),
        loan.status == LoanStatus::Active,
        accrual_result(loan, pool, config, now) is Ok,
    ensures
        ({
            let accrued = accrual_result(loan, pool, config, now)->Ok_0;
            &&& loan_well_formed(accrued)
            &&& accrued.principal == loan.principal
            &&& accrued.collateral == loan.collateral
            &&& accrued.status == loan.status
            &&& accrued.interest_accrued >= loan.interest_accrued
        }),
{
}

/// Accruing twice at the same moment changes nothing the second time.
pub proof fn lemma_accrual_idempotent(
    loan: LendingLoan,
    pool: Option<LendingPool>,
    config: Option<LendingConfig>,
    now: u64,
)
    requires
        accrual_result(loan, pool, config, now) is Ok,
    ensures
        accrual_result(accrual_result(loan, pool, config, now)->Ok_0, pool, config, now)
            == accrual_result(loan, pool, config, now),
{
}

/// An explicit accrual writes nothing for a loan that is not active, and
/// otherwise writes the loan brought up to date.
pub proof fn lemma_accrue_touches_only_active_loans(
    loan: LendingLoan,
    pool: Option<LendingPool>,
    config: Option<LendingConfig>,
    now: u64,
)
    ensures
        loan.status != LoanStatus::Active ==> accrue_result(Some(loan), pool, config, now)
            == Ok::<_, Failure>(None::<LendingLoan>),
        loan.status == LoanStatus::Active && accrual_result(loan, pool, config, now) is Ok
            ==> accrue_result(Some(loan), pool, config, now) == Ok::<_, Failure>(
            Some(accrual_result(loan, pool, config, now)->Ok_0),
        ),
{
}

/// A repayment pays accrued interest first and principal only with what is
/// left; its two parts add up to the payment.  The loan is marked `Repaid`
/// only when the payment equals the whole debt, and always then for a
/// well-formed loan.  The
/// interest paid is split into the protocol fee and the lenders' share,
/// which is added to the pool's deposits; the principal paid leaves the
/// pool's borrows, so the pool's borrows minus the loan's principal are
/// unchanged.  A well-formed loan stays well-formed.
pub proof fn lemma_repay_settles_interest_first(
    config: Option<LendingConfig>,
    loan: LendingLoan,
    pool: Option<LendingPool>,
    now: u64,
    repay_amount: i128,
)
    requires
        repay_result(config, Some(loan), pool, now, repay_amount) is Ok,
    ensures
        ({
            let repaid = repay_result(config, Some(loan), pool, now, repay_amount)->Ok_0;
            let accrued = accrual_result(loan, pool, config, now)->Ok_0;
            let fee = protocol_fee_of(repaid.interest_paid as int, config->Some_0);
            let before = pool_or_new(pool, loan.token, now);
            &&& repaid.interest_paid + repaid.principal_paid == repay_amount
            &&& repaid.interest_paid == if repay_amount <= accrued.interest_accrued {
                repay_amount as int
            } else {
                accrued.interest_accrued as int
            }
            &&& repaid.principal_paid > 0 ==> repaid.loan.interest_accrued == 0
            &&& repaid.loan.principal == accrued.principal - repaid.principal_paid
            &&& repaid.loan.interest_accrued == accrued.interest_accrued - repaid.interest_paid
            &&& repaid.fully_repaid ==> repay_amount == debt_of(accrued)
            &&& loan_well_formed(loan) && repay_amount == debt_of(accrued) ==> repaid.fully_repaid
            &&& repaid.loan.status == if repaid.fully_repaid {
                LoanStatus::Repaid
            } else {
                LoanStatus::Active
            }
            &&& repaid.pool.total_protocol_fees == before.total_protocol_fees + fee
            &&& repaid.pool.total_deposits == before.total_deposits + repaid.interest_paid - fee
            &&& repaid.pool.total_interest_paid == before.total_interest_paid
                + repaid.interest_paid - fee
            &&& repaid.pool.total_borrowed - repaid.loan.principal == before.total_borrowed
                - loan.principal
            &&& loan_well_formed(loan) ==> loan_well_formed(repaid.loan)
        }),
{
    if loan_well_formed(loan) {
        lemma_accrual_keeps_loan_well_formed(loan, pool, config, now);
    }
}

/// A liquidation goes through only for a loan whose health factor, after
/// accrual, is below 1.0.  The liquidator pays in the whole debt and takes
/// the whole collateral; the loan is closed with nothing left on it, its
/// principal leaves the pool's borrows, and its interest is split into the
/// protocol fee and the lenders' share added to the deposits.
pub proof fn lemma_liquidation_closes_unhealthy_loan(
    config: Option<LendingConfig>,
    loan: LendingLoan,
    pool: Option<LendingPool>,
    now: u64,
)
    requires
        liquidate_result(config, Some(loan), pool, now) is Ok,
    ensures
        ({
            let liquidated = liquidate_result(config, Some(loan), pool, now)->Ok_0;
            let accrued = accrual_result(loan, pool, config, now)->Ok_0;
            let fee = protocol_fee_of(accrued.interest_accrued as int, config->Some_0);
            let before = pool_or_new(pool, loan.token, now);
            &&& loan.status == LoanStatus::Active
            &&& health_result(accrued, config)->Ok_0 < HEALTH_FACTOR_PRECISION
            &&& liquidated.debt_repaid == debt_of(accrued)
            &&& liquidated.collateral_seized == accrued.collateral
            &&& liquidated.loan.status == LoanStatus::Liquidated
            &&& liquidated.loan.principal == 0
            &&& liquidated.loan.interest_accrued == 0
            &&& liquidated.loan.collateral == 0
            &&& loan_well_formed(liquidated.loan)
            &&& liquidated.pool.total_borrowed == before.total_borrowed - loan.principal
            &&& liquidated.pool.total_protocol_fees == before.total_protocol_fees + fee
            &&& liquidated.pool.total_deposits == before.total_deposits
                + accrued.interest_accrued - fee
        }),
{
}

// ── Pool borrows and outstanding principal ─────────────────────────────────

/// What a loan adds to its pool's borrows: its principal while it is active.
pub open spec fn outstanding_principal(loan: LendingLoan) -> int {
    if loan.status == LoanStatus::Active {
        loan.principal as int
    } else {
        0
    }
}

/// The principal outstanding across a sequence of loans.
pub open spec fn total_outstanding(loans: Seq<LendingLoan>) -> int
    decreases loans.len(),
{
    if loans.len() == 0 {
        0
    } else {
        total_outstanding(loans.drop_last()) + outstanding_principal(loans.last())
    }
}

proof fn lemma_total_outstanding_push(loans: Seq<LendingLoan>, loan: LendingLoan)
    ensures
        total_outstanding(loans.push(loan)) == total_outstanding(loans) + outstanding_principal(
            loan,
        ),
{
    assert(loans.push(loan).drop_last() =~= loans);
}

proof fn lemma_total_outstanding_update(loans: Seq<LendingLoan>, i: int, loan: LendingLoan)
    requires
        0 <= i < loans.len(),
    ensures
        total_outstanding(loans.update(i, loan)) == total_outstanding(loans)
            - outstanding_principal(loans[i]) + outstanding_principal(loan),
    decreases loans.len(),
{
    let updated = loans.update(i, loan);
    if i == loans.len() - 1 {
        assert(updated.drop_last() =~= loans.drop_last());
    } else {
        lemma_total_outstanding_update(loans.drop_last(), i, loan);
        assert(updated.drop_last() =~= loans.drop_last().update(i, loan));
    }
}

/// A pool's borrows equal the principal outstanding on the loans of its
/// token, and opening a loan keeps them equal once the new loan is counted.
pub proof fn lemma_open_loan_keeps_borrows_matched(
    enabled_flag: Option<bool>,
    config: Option<LendingConfig>,
    has_active_loan: bool,
    pool: Option<LendingPool>,
    loan_counter: Option<u64>,
    now: u64,
    borrower: Address,
    token: Address,
    loan_amount: i128,
    collateral_amount: i128,
    loans: Seq<LendingLoan>,
)
    requires
        open_loan_result(
            enabled_flag,
            config,
            has_active_loan,
            pool,
            loan_counter,
            now,
            borrower,
            token,
            loan_amount,
            collateral_amount,
        ) is Ok,
        basis_borrowed(pool) == total_outstanding(loans),
    ensures
        ({
            let opened = open_loan_result(
                enabled_flag,
                config,
                has_active_loan,
                pool,
                loan_counter,
                now,
                borrower,
                token,
                loan_amount,
                collateral_amount,
            )->Ok_0;
            opened.pool.total_borrowed == total_outstanding(loans.push(opened.loan))
        }),
{
    let opened = open_loan_result(
        enabled_flag,
        config,
        has_active_loan,
        pool,
        loan_counter,
        now,
        borrower,
        token,
        loan_amount,
        collateral_amount,
    )->Ok_0;
    lemma_total_outstanding_push(loans, opened.loan);
}

/// Repaying the loan at position `i` keeps the pool's borrows equal to the
/// principal outstanding once the loan is replaced by its repaid record.
pub proof fn lemma_repay_keeps_borrows_matched(
    config: Option<LendingConfig>,
    pool: Option<LendingPool>,
    now: u64,
    repay_amount: i128,
    loans: Seq<LendingLoan>,
    i: int,
)
    requires
        0 <= i < loans.len(),
        repay_result(config, Some(loans[i]), pool, now, repay_amount) is Ok,
        basis_borrowed(pool) == total_outstanding(loans),
    ensures
        ({
            let repaid = repay_result(config, Some(loans[i]), pool, now, repay_amount)->Ok_0;
            repaid.pool.total_borrowed == total_outstanding(loans.update(i, repaid.loan))
        }),
{
    let repaid = repay_result(config, Some(loans[i]), pool, now, repay_amount)->Ok_0;
    lemma_repay_settles_interest_first(config, loans[i], pool, now, repay_amount);
    lemma_total_outstanding_update(loans, i, repaid.loan);
}

/// Liquidating the loan at position `i` keeps the pool's borrows equal to
/// the principal outstanding once the loan is replaced by its closed record.
pub proof fn lemma_liquidate_keeps_borrows_matched(
    config: Option<LendingConfig>,
    pool: Option<LendingPool>,
    now: u64,
    loans: Seq<LendingLoan>,
    i: int,
)
    requires
        0 <= i < loans.len(),
        liquidate_result(config, Some(loans[i]), pool, now) is Ok,
        basis_borrowed(pool) == total_outstanding(loans),
    ensures
        ({
            let liquidated = liquidate_result(config, Some(loans[i]), pool, now)->Ok_0;
            liquidated.pool.total_borrowed == total_outstanding(
                loans.update(i, liquidated.loan),
            )
        }),
{
    let liquidated = liquidate_result(config, Some(loans[i]), pool, now)->Ok_0;
    lemma_liquidation_closes_unhealthy_loan(config, loans[i], pool, now);
    lemma_total_outstanding_update(loans, i, liquidated.loan);
}

/// Accruing interest on the loan at position `i` leaves the principal
/// outstanding unchanged.
pub proof fn lemma_accrue_keeps_borrows_matched(
    pool: Option<LendingPool>,
    config: Option<LendingConfig>,
    now: u64,
    loans: Seq<LendingLoan>,
    i: int,
)
    requires
        0 <= i < loans.len(),
        accrue_result(Some(loans[i]), pool, config, now) matches Ok(Some(_)),
    ensures
        total_outstanding(
            loans.update(i, accrue_result(Some(loans[i]), pool, config, now)->Ok_0->Some_0),
        ) == total_outstanding(loans),
{
    let accrued = accrue_result(Some(loans[i]), pool, config, now)->Ok_0->Some_0;
    lemma_total_outstanding_update(loans, i, accrued);
}

/// Deposits and withdrawals leave a pool's borrows as they were.
pub proof fn lemma_liquidity_moves_keep_borrows(
    enabled_flag: Option<bool>,
    position: Option<LenderPosition>,
    pool: Option<LendingPool>,
    token: Address,
    now: u64,
    amount: i128,
)
    ensures
        deposit_result(enabled_flag, position, pool, token, now, amount) matches Ok(d)
            ==> d.pool.total_borrowed == basis_borrowed(pool),
        withdraw_result(enabled_flag, position, pool, amount) matches Ok(w)
            ==> w.pool.total_borrowed == basis_borrowed(pool),
{
}

// ── Lender interest ────────────────────────────────────────────────────────

/// A settlement shares the lenders' interest out pro-rata to their deposits.
/// The pool's interest index rises by the share per deposited unit, rounded
/// down; a lender with deposit `d` is entitled to `d` times that rise (in
/// index units), which never exceeds its pro-rata part
/// `d / total_lender_deposits × lender_interest` and falls short of it by
/// less than `d` index units.  Lender deposits are left as they were.
pub proof fn lemma_settlement_shares_interest_pro_rata(
    pool: LendingPool,
    principal_paid: int,
    protocol_fee: int,
    lender_interest: int,
    lender_deposit: int,
)
    requires
        !settlement_overflows(pool, principal_paid, protocol_fee, lender_interest),
        pool.total_lender_deposits > 0,
        lender_interest >= 0,
        lender_deposit >= 0,
    ensures
        ({
            let after = settled_pool(pool, principal_paid, protocol_fee, lender_interest);
            let rise = after.interest_index - pool.interest_index;
            let total = pool.total_lender_deposits as int;
            let p = INTEREST_INDEX_PRECISION as int;
            &&& after.total_lender_deposits == pool.total_lender_deposits
            &&& after.total_deposits == pool.total_deposits + lender_interest
            &&& rise >= 0
            &&& rise * total <= lender_interest * p < (rise + 1) * total
            &&& lender_deposit * rise * total <= lender_deposit * lender_interest * p
            &&& lender_deposit * lender_interest * p <= lender_deposit * (rise + 1) * total
        }),
{
    let after = settled_pool(pool, principal_paid, protocol_fee, lender_interest);
    let total = pool.total_lender_deposits as int;
    let p = INTEREST_INDEX_PRECISION as int;
    let x = lender_interest * p;
    lemma_mul_nonnegative(lender_interest, p);
    lemma_fundamental_div_mod(x, total);
    lemma_mod_pos_bound(x, total);
    lemma_div_pos_is_pos(x, total);
    let rise = x / total;
    assert(after.interest_index - pool.interest_index == rise);
    assert(rise * total <= x < (rise + 1) * total) by (nonlinear_arith)
        requires
            total > 0,
            x == total * rise + x % total,
            0 <= x % total < total,
    ;
    assert(lender_deposit * rise * total <= lender_deposit * x) by (nonlinear_arith)
        requires
            lender_deposit >= 0,
            rise * total <= x,
    ;
    assert(lender_deposit * x <= lender_deposit * (rise + 1) * total) by (nonlinear_arith)
        requires
            lender_deposit >= 0,
            x < (rise + 1) * total,
    ;
    lemma_mul_is_associative(lender_deposit, lender_interest, p);
}

/// A repayment shares the lenders' part of the interest paid, the interest
/// paid less the protocol fee, out pro-rata to the lenders' deposits (see
/// [`lemma_settlement_shares_interest_pro_rata`]): the pool afterwards is the
/// settlement of the principal paid, the fee and that part.
pub proof fn lemma_repay_credits_lenders(
    config: Option<LendingConfig>,
    loan: LendingLoan,
    pool: Option<LendingPool>,
    now: u64,
    repay_amount: i128,
)
    requires
        repay_result(config, Some(loan), pool, now, repay_amount) is Ok,
    ensures
        ({
            let repaid = repay_result(config, Some(loan), pool, now, repay_amount)->Ok_0;
            let fee = protocol_fee_of(repaid.interest_paid as int, config->Some_0);
            let before = pool_or_new(pool, loan.token, now);
            &&& !settlement_overflows(
                before,
                repaid.principal_paid as int,
                fee,
                repaid.interest_paid - fee,
            )
            &&& repaid.pool == settled_pool(
                before,
                repaid.principal_paid as int,
                fee,
                repaid.interest_paid - fee,
            )
        }),
{
}

/// A liquidation shares the lenders' part of the loan's interest, the
/// interest less the protocol fee, out pro-rata to the lenders' deposits
/// (see [`lemma_settlement_shares_interest_pro_rata`]).
pub proof fn lemma_liquidation_credits_lenders(
    config: Option<LendingConfig>,
    loan: LendingLoan,
    pool: Option<LendingPool>,
    now: u64,
)
    requires
        liquidate_result(config, Some(loan), pool, now) is Ok,
    ensures
        ({
            let liquidated = liquidate_result(config, Some(loan), pool, now)->Ok_0;
            let accrued = accrual_result(loan, pool, config, now)->Ok_0;
            let interest = accrued.interest_accrued as int;
            let fee = protocol_fee_of(interest, config->Some_0);
            let before = pool_or_new(pool, loan.token, now);
            &&& !settlement_overflows(before, accrued.principal as int, fee, interest - fee)
            &&& liquidated.pool == settled_pool(
                before,
                accrued.principal as int,
                fee,
                interest - fee,
            )
        }),
{
}

// ── Lender balances ────────────────────────────────────────────────────────

/// One move of a lender in the pool of one token: a deposit or a withdrawal
/// of `amount`, made against whatever pool state and lending switch held at
/// the time (loans, repayments and other lenders change the pool between
/// moves, but never a lender's position).
pub struct LenderMove {
    pub withdrawal: bool,
    pub amount: i128,
    pub enabled_flag: Option<bool>,
    pub pool: Option<LendingPool>,
    pub token: Address,
    pub now: u64,
}

/// The lender's position after one move, or why the move fails.
pub open spec fn move_result(position: Option<LenderPosition>, step: LenderMove) -> Result<
    LenderPosition,
    Failure,
> {
    if step.withdrawal {
        match withdraw_result(step.enabled_flag, position, step.pool, step.amount) {
            Ok(w) => Ok(w.position),
            Err(f) => Err(f),
        }
    } else {
        match deposit_result(
            step.enabled_flag,
            position,
            step.pool,
            step.token,
            step.now,
            step.amount,
        ) {
            Ok(d) => Ok(d.position),
            Err(f) => Err(f),
        }
    }
}

/// The lender's position after a sequence of moves, each made on the
/// position the previous one left; the first failure stops the sequence.
pub open spec fn replay_moves(start: Option<LenderPosition>, moves: Seq<LenderMove>) -> Result<
    Option<LenderPosition>,
    Failure,
>
    decreases moves.len(),
{
    if moves.len() == 0 {
        Ok(start)
    } else {
        match replay_moves(start, moves.drop_last()) {
            Err(f) => Err(f),
            Ok(position) => match move_result(position, moves.last()) {
                Ok(next) => Ok(Some(next)),
                Err(f) => Err(f),
            },
        }
    }
}

/// The amounts deposited minus the amounts withdrawn by a sequence of moves.
pub open spec fn net_deposited(moves: Seq<LenderMove>) -> int
    decreases moves.len(),
{
    if moves.len() == 0 {
        0
    } else {
        net_deposited(moves.drop_last()) + if moves.last().withdrawal {
            -moves.last().amount
        } else {
            moves.last().amount as int
        }
    }
}

/// A lender's deposit balance is what it held at the start plus the amounts
/// it deposited minus the amounts it withdrew, and it never goes below zero:
/// starting from no position (a lender that never deposited has balance
/// zero), the balance is exactly the net amount deposited.
pub proof fn lemma_balance_is_net_deposits(start: Option<LenderPosition>, moves: Seq<LenderMove>)
    requires
        deposit_of(start) >= 0,
        replay_moves(start, moves) is Ok,
    ensures
        deposit_of(replay_moves(start, moves)->Ok_0) == deposit_of(start) + net_deposited(moves),
        deposit_of(replay_moves(start, moves)->Ok_0) >= 0,
    decreases moves.len(),
{
    if moves.len() > 0 {
        lemma_balance_is_net_deposits(start, moves.drop_last());
    }
}

// ── Active loans ───────────────────────────────────────────────────────────

/// The storage key of a (borrower, token) pair, where `key_of` gives the
/// plain key by which storage tells addresses apart (an address's strkey
/// bytes: two handles of one address have the same key).
pub open spec fn pair_key(
    key_of: spec_fn(Address) -> Seq<u8>,
    borrower: Address,
    token: Address,
) -> (Seq<u8>, Seq<u8>) {
    (key_of(borrower), key_of(token))
}

/// The active-loan mapping from (borrower, token) keys to loan ids agrees
/// with the stored loans: every mapped id is an active loan whose borrower
/// and token have that pair's keys, every active loan is the one its pair
/// maps to, every loan is stored under its own id, and no id is above the
/// loan counter.
pub open spec fn active_loans_consistent(
    key_of: spec_fn(Address) -> Seq<u8>,
    active: Map<(Seq<u8>, Seq<u8>), u64>,
    loans: Map<u64, LendingLoan>,
    loan_counter: Option<u64>,
) -> bool {
    &&& forall|pair: (Seq<u8>, Seq<u8>)| #[trigger]
        active.contains_key(pair) ==> {
            let id = active[pair];
            &&& loans.contains_key(id)
            &&& loans[id].status == LoanStatus::Active
            &&& pair_key(key_of, loans[id].borrower, loans[id].token) == pair
        }
    &&& forall|id: u64| #[trigger]
        loans.contains_key(id) && loans[id].status == LoanStatus::Active ==> {
            let pair = pair_key(key_of, loans[id].borrower, loans[id].token);
            active.contains_key(pair) && active[pair] == id
        }
    &&& forall|id: u64| #[trigger] loans.contains_key(id) ==> loans[id].loan_id == id && id
        <= super::loans::counter_or_zero(loan_counter)
}

/// Under a consistent mapping, a borrower has at most one active loan per
/// token: two active loans whose borrowers and tokens have the same keys
/// are one loan.
pub proof fn lemma_one_active_loan_per_pair(
    key_of: spec_fn(Address) -> Seq<u8>,
    active: Map<(Seq<u8>, Seq<u8>), u64>,
    loans: Map<u64, LendingLoan>,
    loan_counter: Option<u64>,
    first: u64,
    second: u64,
)
    requires
        active_loans_consistent(key_of, active, loans, loan_counter),
        loans.contains_key(first),
        loans.contains_key(second),
        loans[first].status == LoanStatus::Active,
        loans[second].status == LoanStatus::Active,
        key_of(loans[first].borrower) == key_of(loans[second].borrower),
        key_of(loans[first].token) == key_of(loans[second].token),
    ensures
        first == second,
{
}

/// Opening a loan, asked with the mapping's answer for the pair, stores the
/// new loan under its id, maps the pair to it and moves the counter to it;
/// the mapping stays consistent.
pub proof fn lemma_open_loan_keeps_active_loans_consistent(
    enabled_flag: Option<bool>,
    config: Option<LendingConfig>,
    pool: Option<LendingPool>,
    loan_counter: Option<u64>,
    now: u64,
    borrower: Address,
    token: Address,
    loan_amount: i128,
    collateral_amount: i128,
    key_of: spec_fn(Address) -> Seq<u8>,
    active: Map<(Seq<u8>, Seq<u8>), u64>,
    loans: Map<u64, LendingLoan>,
)
    requires
        active_loans_consistent(key_of, active, loans, loan_counter),
        open_loan_result(
            enabled_flag,
            config,
            active.contains_key(pair_key(key_of, borrower, token)),
            pool,
            loan_counter,
            now,
            borrower,
            token,
            loan_amount,
            collateral_amount,
        ) is Ok,
    ensures
        ({
            let opened = open_loan_result(
                enabled_flag,
                config,
                active.contains_key(pair_key(key_of, borrower, token)),
                pool,
                loan_counter,
                now,
                borrower,
                token,
                loan_amount,
                collateral_amount,
            )->Ok_0;
            let id = opened.loan.loan_id;
            active_loans_consistent(
                key_of,
                active.insert(pair_key(key_of, borrower, token), id),
                loans.insert(id, opened.loan),
                Some(id),
            )
        }),
{
    let opened = open_loan_result(
        enabled_flag,
        config,
        active.contains_key(pair_key(key_of, borrower, token)),
        pool,
        loan_counter,
        now,
        borrower,
        token,
        loan_amount,
        collateral_amount,
    )->Ok_0;
    let id = opened.loan.loan_id;
    let active2 = active.insert(pair_key(key_of, borrower, token), id);
    let loans2 = loans.insert(id, opened.loan);
    assert(!loans.contains_key(id));
    assert forall|pair: (Seq<u8>, Seq<u8>)| #[trigger] active2.contains_key(pair) implies {
        let i = active2[pair];
        &&& loans2.contains_key(i)
        &&& loans2[i].status == LoanStatus::Active
        &&& pair_key(key_of, loans2[i].borrower, loans2[i].token) == pair
    } by {
        if pair != pair_key(key_of, borrower, token) {
            assert(active.contains_key(pair));
        }
    }
    assert forall|i: u64| #[trigger]
        loans2.contains_key(i) && loans2[i].status == LoanStatus::Active implies {
        let pair = pair_key(key_of, loans2[i].borrower, loans2[i].token);
        active2.contains_key(pair) && active2[pair] == i
    } by {
        if i != id {
            assert(loans.contains_key(i));
            let pair = pair_key(key_of, loans[i].borrower, loans[i].token);
            assert(active.contains_key(pair));
            assert(pair != pair_key(key_of, borrower, token));
        }
    }
    assert forall|i: u64| #[trigger] loans2.contains_key(i) implies loans2[i].loan_id == i && i
        <= super::loans::counter_or_zero(Some(id)) by {
        if i != id {
            assert(loans.contains_key(i));
        }
    }
}

/// Repaying the loan stored under `id` stores the repaid loan back under
/// `id` and, when it is fully repaid, removes its pair from the mapping;
/// the mapping stays consistent.
pub proof fn lemma_repay_keeps_active_loans_consistent(
    config: Option<LendingConfig>,
    pool: Option<LendingPool>,
    now: u64,
    repay_amount: i128,
    key_of: spec_fn(Address) -> Seq<u8>,
    active: Map<(Seq<u8>, Seq<u8>), u64>,
    loans: Map<u64, LendingLoan>,
    loan_counter: Option<u64>,
    id: u64,
)
    requires
        active_loans_consistent(key_of, active, loans, loan_counter),
        loans.contains_key(id),
        repay_result(config, Some(loans[id]), pool, now, repay_amount) is Ok,
    ensures
        ({
            let loan = loans[id];
            let repaid = repay_result(config, Some(loan), pool, now, repay_amount)->Ok_0;
            let active2 = if repaid.fully_repaid {
                active.remove(pair_key(key_of, loan.borrower, loan.token))
            } else {
                active
            };
            active_loans_consistent(key_of, active2, loans.insert(id, repaid.loan), loan_counter)
        }),
{
    let loan = loans[id];
    let repaid = repay_result(config, Some(loan), pool, now, repay_amount)->Ok_0;
    lemma_repay_settles_interest_first(config, loan, pool, now, repay_amount);
    lemma_replace_loan_keeps_consistent(
        key_of,
        active,
        loans,
        loan_counter,
        id,
        repaid.loan,
        repaid.fully_repaid,
    );
}

/// Liquidating the loan stored under `id` stores the closed loan back under
/// `id` and removes its pair from the mapping; the mapping stays consistent.
pub proof fn lemma_liquidate_keeps_active_loans_consistent(
    config: Option<LendingConfig>,
    pool: Option<LendingPool>,
    now: u64,
    key_of: spec_fn(Address) -> Seq<u8>,
    active: Map<(Seq<u8>, Seq<u8>), u64>,
    loans: Map<u64, LendingLoan>,
    loan_counter: Option<u64>,
    id: u64,
)
    requires
        active_loans_consistent(key_of, active, loans, loan_counter),
        loans.contains_key(id),
        liquidate_result(config, Some(loans[id]), pool, now) is Ok,
    ensures
        ({
            let loan = loans[id];
            let liquidated = liquidate_result(config, Some(loan), pool, now)->Ok_0;
            active_loans_consistent(
                key_of,
                active.remove(pair_key(key_of, loan.borrower, loan.token)),
                loans.insert(id, liquidated.loan),
                loan_counter,
            )
        }),
{
    let loan = loans[id];
    let liquidated = liquidate_result(config, Some(loan), pool, now)->Ok_0;
    lemma_replace_loan_keeps_consistent(key_of, active, loans, loan_counter, id, liquidated.loan, true);
}

/// Accruing interest on the loan stored under `id` stores it back under
/// `id`; the mapping is untouched and stays consistent.
pub proof fn lemma_accrue_keeps_active_loans_consistent(
    config: Option<LendingConfig>,
    pool: Option<LendingPool>,
    now: u64,
    key_of: spec_fn(Address) -> Seq<u8>,
    active: Map<(Seq<u8>, Seq<u8>), u64>,
    loans: Map<u64, LendingLoan>,
    loan_counter: Option<u64>,
    id: u64,
)
    requires
        active_loans_consistent(key_of, active, loans, loan_counter),
        loans.contains_key(id),
        accrue_result(Some(loans[id]), pool, config, now) matches Ok(Some(_)),
    ensures
        active_loans_consistent(
            key_of,
            active,
            loans.insert(id, accrue_result(Some(loans[id]), pool, config, now)->Ok_0->Some_0),
            loan_counter,
        ),
{
    let accrued = accrue_result(Some(loans[id]), pool, config, now)->Ok_0->Some_0;
    lemma_replace_loan_keeps_consistent(key_of, active, loans, loan_counter, id, accrued, false);
}

/// Replacing the loan under `id` by a record of the same id, borrower and
/// token keeps the mapping consistent, provided the record is still active
/// and the mapping is kept, or the record is closed and its pair removed.
proof fn lemma_replace_loan_keeps_consistent(
    key_of: spec_fn(Address) -> Seq<u8>,
    active: Map<(Seq<u8>, Seq<u8>), u64>,
    loans: Map<u64, LendingLoan>,
    loan_counter: Option<u64>,
    id: u64,
    replacement: LendingLoan,
    closes: bool,
)
    requires
        active_loans_consistent(key_of, active, loans, loan_counter),
        loans.contains_key(id),
        loans[id].status == LoanStatus::Active,
        replacement.loan_id == loans[id].loan_id,
        replacement.borrower == loans[id].borrower,
        replacement.token == loans[id].token,
        closes <==> replacement.status != LoanStatus::Active,
    ensures
        active_loans_consistent(
            key_of,
            if closes {
                active.remove(pair_key(key_of, loans[id].borrower, loans[id].token))
            } else {
                active
            },
            loans.insert(id, replacement),
            loan_counter,
        ),
{
    let loan = loans[id];
    let key = pair_key(key_of, loan.borrower, loan.token);
    let active2 = if closes {
        active.remove(key)
    } else {
        active
    };
    let loans2 = loans.insert(id, replacement);
    assert(active.contains_key(key) && active[key] == id);
    assert forall|pair: (Seq<u8>, Seq<u8>)| #[trigger] active2.contains_key(pair) implies {
        let i = active2[pair];
        &&& loans2.contains_key(i)
        &&& loans2[i].status == LoanStatus::Active
        &&& pair_key(key_of, loans2[i].borrower, loans2[i].token) == pair
    } by {
        assert(active.contains_key(pair));
        if closes {
            assert(pair != key);
            assert(active[pair] != id);
        }
    }
    assert forall|i: u64| #[trigger]
        loans2.contains_key(i) && loans2[i].status == LoanStatus::Active implies {
        let pair = pair_key(key_of, loans2[i].borrower, loans2[i].token);
        active2.contains_key(pair) && active2[pair] == i
    } by {
        if i != id {
            assert(loans.contains_key(i));
            let pair = pair_key(key_of, loans[i].borrower, loans[i].token);
            assert(active.contains_key(pair) && active[pair] == i);
            if closes {
                assert(pair != key);
            }
        }
    }
    assert forall|i: u64| #[trigger] loans2.contains_key(i) implies loans2[i].loan_id == i && i
        <= super::loans::counter_or_zero(loan_counter) by {
        assert(loans.contains_key(i));
    }
}

/// One call that touches loans, with the state outside the loan book that
/// it was made against (the pool, the configuration, the time).  Deposits
/// and withdrawals leave the loan book alone and need no step of their own.
pub enum LoanStep {
    Open {
        enabled_flag: Option<bool>,
        config: Option<LendingConfig>,
        pool: Option<LendingPool>,
        now: u64,
        borrower: Address,
        token: Address,
        loan_amount: i128,
        collateral_amount: i128,
    },
    Repay { config: Option<LendingConfig>, pool: Option<LendingPool>, now: u64, id: u64, amount: i128 },
    Liquidate { config: Option<LendingConfig>, pool: Option<LendingPool>, now: u64, id: u64 },
    Accrue { config: Option<LendingConfig>, pool: Option<LendingPool>, now: u64, id: u64 },
}

/// The loan book after one step: the active-loan mapping, the stored loans
/// and the loan counter as the call leaves them.  A refused call changes
/// nothing.
pub open spec fn loan_step(
    key_of: spec_fn(Address) -> Seq<u8>,
    book: (Map<(Seq<u8>, Seq<u8>), u64>, Map<u64, LendingLoan>, Option<u64>),
    step: LoanStep,
) -> (Map<(Seq<u8>, Seq<u8>), u64>, Map<u64, LendingLoan>, Option<u64>) {
    let (active, loans, counter) = book;
    match step {
        LoanStep::Open {
            enabled_flag,
            config,
            pool,
            now,
            borrower,
            token,
            loan_amount,
            collateral_amount,
        } => {
            let pair = pair_key(key_of, borrower, token);
            match open_loan_result(
                enabled_flag,
                config,
                active.contains_key(pair),
                pool,
                counter,
                now,
                borrower,
                token,
                loan_amount,
                collateral_amount,
            ) {
                Ok(opened) => (
                    active.insert(pair, opened.loan.loan_id),
                    loans.insert(opened.loan.loan_id, opened.loan),
                    Some(opened.loan.loan_id),
                ),
                Err(_) => book,
            }
        },
        LoanStep::Repay { config, pool, now, id, amount } => {
            if !loans.contains_key(id) {
                book
            } else {
                let loan = loans[id];
                match repay_result(config, Some(loan), pool, now, amount) {
                    Ok(repaid) => (
                        if repaid.fully_repaid {
                            active.remove(pair_key(key_of, loan.borrower, loan.token))
                        } else {
                            active
                        },
                        loans.insert(id, repaid.loan),
                        counter,
                    ),
                    Err(_) => book,
                }
            }
        },
        LoanStep::Liquidate { config, pool, now, id } => {
            if !loans.contains_key(id) {
                book
            } else {
                let loan = loans[id];
                match liquidate_result(config, Some(loan), pool, now) {
                    Ok(liquidated) => (
                        active.remove(pair_key(key_of, loan.borrower, loan.token)),
                        loans.insert(id, liquidated.loan),
                        counter,
                    ),
                    Err(_) => book,
                }
            }
        },
        LoanStep::Accrue { config, pool, now, id } => {
            if !loans.contains_key(id) {
                book
            } else {
                match accrue_result(Some(loans[id]), pool, config, now) {
                    Ok(Some(accrued)) => (active, loans.insert(id, accrued), counter),
                    _ => book,
                }
            }
        },
    }
}

/// The loan book after a sequence of steps, each on the book the previous
/// one left.
pub open spec fn replay_loan_steps(
    key_of: spec_fn(Address) -> Seq<u8>,
    start: (Map<(Seq<u8>, Seq<u8>), u64>, Map<u64, LendingLoan>, Option<u64>),
    steps: Seq<LoanStep>,
) -> (Map<(Seq<u8>, Seq<u8>), u64>, Map<u64, LendingLoan>, Option<u64>)
    decreases steps.len(),
{
    if steps.len() == 0 {
        start
    } else {
        loan_step(key_of, replay_loan_steps(key_of, start, steps.drop_last()), steps.last())
    }
}

/// In every state reached from an empty loan book by opening, repaying,
/// liquidating and accruing loans, the active-loan mapping answers `id` for
/// a (borrower, token) pair exactly when loan `id` is stored, active, and
/// of that borrower and token; so each pair has at most one active loan.
pub proof fn lemma_active_loans_stay_consistent(
    key_of: spec_fn(Address) -> Seq<u8>,
    steps: Seq<LoanStep>,
)
    ensures
        ({
            let (active, loans, counter) = replay_loan_steps(
                key_of,
                (Map::empty(), Map::empty(), None),
                steps,
            );
            &&& active_loans_consistent(key_of, active, loans, counter)
            &&& forall|borrower: Address, token: Address, id: u64|
                #![trigger active.contains_key(pair_key(key_of, borrower, token)), loans[id]]
                (active.contains_key(pair_key(key_of, borrower, token)) && active[pair_key(
                    key_of,
                    borrower,
                    token,
                )] == id) <==> (loans.contains_key(id) && loans[id].status == LoanStatus::Active
                    && key_of(loans[id].borrower) == key_of(borrower) && key_of(loans[id].token)
                    == key_of(token))
        }),
{
    let (active, loans, counter) = replay_loan_steps(
        key_of,
        (Map::empty(), Map::empty(), None),
        steps,
    );
    lemma_replay_keeps_active_loans_consistent(
        key_of,
        (Map::empty(), Map::empty(), None),
        steps,
    );
    assert forall|borrower: Address, token: Address, id: u64|
        (active.contains_key(pair_key(key_of, borrower, token)) && active[pair_key(
            key_of,
            borrower,
            token,
        )] == id) <==> (loans.contains_key(id) && loans[id].status == LoanStatus::Active
            && key_of(loans[id].borrower) == key_of(borrower) && key_of(loans[id].token)
            == key_of(token)) by {
        let pair = pair_key(key_of, borrower, token);
        if loans.contains_key(id) && loans[id].status == LoanStatus::Active {
            assert(pair_key(key_of, loans[id].borrower, loans[id].token) == pair ==> active.contains_key(pair));
        }
    }
}

/// Every step keeps a consistent loan book consistent.
proof fn lemma_replay_keeps_active_loans_consistent(
    key_of: spec_fn(Address) -> Seq<u8>,
    start: (Map<(Seq<u8>, Seq<u8>), u64>, Map<u64, LendingLoan>, Option<u64>),
    steps: Seq<LoanStep>,
)
    requires
        active_loans_consistent(key_of, start.0, start.1, start.2),
    ensures
        ({
            let book = replay_loan_steps(key_of, start, steps);
            active_loans_consistent(key_of, book.0, book.1, book.2)
        }),
    decreases steps.len(),
{
    if steps.len() > 0 {
        lemma_replay_keeps_active_loans_consistent(key_of, start, steps.drop_last());
        let (active, loans, counter) = replay_loan_steps(key_of, start, steps.drop_last());
        match steps.last() {
            LoanStep::Open {
                enabled_flag,
                config,
                pool,
                now,
                borrower,
                token,
                loan_amount,
                collateral_amount,
            } => {
                if open_loan_result(
                    enabled_flag,
                    config,
                    active.contains_key(pair_key(key_of, borrower, token)),
                    pool,
                    counter,
                    now,
                    borrower,
                    token,
                    loan_amount,
                    collateral_amount,
                ) is Ok {
                    lemma_open_loan_keeps_active_loans_consistent(
                        enabled_flag,
                        config,
                        pool,
                        counter,
                        now,
                        borrower,
                        token,
                        loan_amount,
                        collateral_amount,
                        key_of,
                        active,
                        loans,
                    );
                }
            },
            LoanStep::Repay { config, pool, now, id, amount } => {
                if loans.contains_key(id) && repay_result(config, Some(loans[id]), pool, now, amount) is Ok {
                    lemma_repay_keeps_active_loans_consistent(
                        config,
                        pool,
                        now,
                        amount,
                        key_of,
                        active,
                        loans,
                        counter,
                        id,
                    );
                }
            },
            LoanStep::Liquidate { config, pool, now, id } => {
                if loans.contains_key(id) && liquidate_result(config, Some(loans[id]), pool, now) is Ok {
                    lemma_liquidate_keeps_active_loans_consistent(
                        config,
                        pool,
                        now,
                        key_of,
                        active,
                        loans,
                        counter,
                        id,
                    );
                }
            },
            LoanStep::Accrue { config, pool, now, id } => {
                if loans.contains_key(id) && accrue_result(Some(loans[id]), pool, config, now) matches Ok(Some(_)) {
                    lemma_accrue_keeps_active_loans_consistent(
                        config,
                        pool,
                        now,
                        key_of,
                        active,
                        loans,
                        counter,
                        id,
                    );
                }
            },
        }
    }
}

// ── Pool coverage and token lists ──────────────────────────────────────────

/// The protocol's cut of a non-negative interest payment is at most the
/// payment when the fee rate is at most 100 %.
proof fn lemma_fee_within_interest(interest_paid: int, config: LendingConfig)
    requires
        interest_paid >= 0,
        config.protocol_fee_bps <= BPS_DENOM,
    ensures
        0 <= protocol_fee_of(interest_paid, config) <= interest_paid,
{
    let f = config.protocol_fee_bps as int;
    lemma_mul_nonnegative(interest_paid, f);
    lemma_mul_inequality(f, BPS_DENOM as int, interest_paid);
    lemma_mul_is_commutative(f, interest_paid);
    lemma_mul_is_commutative(BPS_DENOM as int, interest_paid);
    lemma_div_pos_is_pos(interest_paid * f, BPS_DENOM as int);
    lemma_div_is_ordered(interest_paid * f, interest_paid * BPS_DENOM, BPS_DENOM as int);
    lemma_div_multiples_vanish(interest_paid, BPS_DENOM as int);
    lemma_mul_is_commutative(interest_paid, BPS_DENOM as int);
}

/// A repayment keeps a pool's deposits covering its borrows: borrows fall
/// by the principal paid and deposits grow by the lenders' share, for a
/// well-formed loan and a protocol fee of at most 100 %.
pub proof fn lemma_repay_keeps_pool_covered(
    config: Option<LendingConfig>,
    loan: LendingLoan,
    pool: Option<LendingPool>,
    now: u64,
    repay_amount: i128,
)
    requires
        repay_result(config, Some(loan), pool, now, repay_amount) is Ok,
        loan_well_formed(loan),
        config is Some ==> config->Some_0.protocol_fee_bps <= BPS_DENOM,
        pool_or_new(pool, loan.token, now).total_borrowed <= pool_or_new(
            pool,
            loan.token,
            now,
        ).total_deposits,
    ensures
        ({
            let repaid = repay_result(config, Some(loan), pool, now, repay_amount)->Ok_0;
            repaid.pool.total_borrowed <= repaid.pool.total_deposits
        }),
{
    let repaid = repay_result(config, Some(loan), pool, now, repay_amount)->Ok_0;
    lemma_accrual_keeps_loan_well_formed(loan, pool, config, now);
    lemma_repay_settles_interest_first(config, loan, pool, now, repay_amount);
    lemma_fee_within_interest(repaid.interest_paid as int, config->Some_0);
}

/// A liquidation keeps a pool's deposits covering its borrows: borrows fall
/// by the loan's principal and deposits grow by the lenders' share, for a
/// well-formed loan and a protocol fee of at most 100 %.
pub proof fn lemma_liquidation_keeps_pool_covered(
    config: Option<LendingConfig>,
    loan: LendingLoan,
    pool: Option<LendingPool>,
    now: u64,
)
    requires
        liquidate_result(config, Some(loan), pool, now) is Ok,
        loan_well_formed(loan),
        config is Some ==> config->Some_0.protocol_fee_bps <= BPS_DENOM,
        pool_or_new(pool, loan.token, now).total_borrowed <= pool_or_new(
            pool,
            loan.token,
            now,
        ).total_deposits,
    ensures
        ({
            let liquidated = liquidate_result(config, Some(loan), pool, now)->Ok_0;
            liquidated.pool.total_borrowed <= liquidated.pool.total_deposits
        }),
{
    let accrued = accrual_result(loan, pool, config, now)->Ok_0;
    lemma_accrual_keeps_loan_well_formed(loan, pool, config, now);
    lemma_liquidation_closes_unhealthy_loan(config, loan, pool, now);
    lemma_fee_within_interest(accrued.interest_accrued as int, config->Some_0);
}

/// A lender's token list, taken by its keys, never holds a token twice:
/// appending a key that is not yet listed (all that `track_lender_token`
/// ever does) leaves every key listed once, the new one included.
pub proof fn lemma_token_keys_stay_unique(keys: Seq<Seq<u8>>, key: Seq<u8>)
    requires
        keys.no_duplicates(),
        !keys.contains(key),
    ensures
        keys.push(key).no_duplicates(),
        keys.push(key).contains(key),
{
    let pushed = keys.push(key);
    assert(pushed[keys.len() as int] == key);
    assert forall|i: int, j: int|
        0 <= i < pushed.len() && 0 <= j < pushed.len() && i != j implies pushed[i]
        != pushed[j] by {
        if i < keys.len() && j < keys.len() {
            assert(pushed[i] == keys[i] && pushed[j] == keys[j]);
        } else if i < keys.len() {
            assert(pushed[i] == keys[i]);
        } else if j < keys.len() {
            assert(pushed[j] == keys[j]);
        }
    }
}

} // verus!
