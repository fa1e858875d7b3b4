use soroban_sdk::{Address, Env};
use tipjar::lending::loans::{accrue, health_factor, open_loan, repay, track_borrower_loan};
use tipjar::lending::pool::{claimable_interest, deposit, utilisation_bps, withdraw};
use tipjar::lending::rates::current_rate_bps;
use tipjar::lending::SECONDS_PER_YEAR;
use tipjar::{Failure, LendingConfig, LendingError, LendingLoan, LendingPool, LoanStatus};

const TOKEN: &str = "CAAQCAIBAEAQCAIBAEAQCAIBAEAQCAIBAEAQCAIBAEAQCAIBAEAQC526";
const BORROWER: &str = "GABAEAQCAIBAEAQCAIBAEAQCAIBAEAQCAIBAEAQCAIBAEAQCAIBAEJXA";

fn token(env: &Env) -> Address {
    Address::from_str(env, TOKEN)
}

fn borrower(env: &Env) -> Address {
    Address::from_str(env, BORROWER)
}

/// The configuration the protocol's own tests use.
fn config() -> LendingConfig {
    LendingConfig {
        collateral_ratio_bps: 15_000,
        liquidation_threshold_bps: 12_000,
        liquidation_penalty_bps: 500,
        base_rate_bps: 500,
        utilisation_multiplier_bps: 2_000,
        protocol_fee_bps: 1_000,
        min_loan_amount: 100,
        max_ltv_bps: 6_667,
        enabled: true,
    }
}

fn pool_with(env: &Env, deposits: i128, borrowed: i128) -> LendingPool {
    LendingPool {
        token: token(env),
        total_deposits: deposits,
        total_borrowed: borrowed,
        total_protocol_fees: 0,
        total_interest_paid: 0,
        last_accrual: 0,
        total_lender_deposits: deposits,
        interest_index: 0,
    }
}

fn funded_pool(env: &Env, amount: i128) -> LendingPool {
    deposit(None, None, None, token(env), 0, amount).unwrap().pool
}

fn open(
    env: &Env,
    pool: LendingPool,
    counter: Option<u64>,
    now: u64,
    loan_amount: i128,
    collateral_amount: i128,
) -> Result<tipjar::lending::loans::LoanOpened, Failure> {
    open_loan(
        None,
        &Some(config()),
        false,
        Some(pool),
        counter,
        now,
        borrower(env),
        token(env),
        loan_amount,
        collateral_amount,
    )
}

fn rejected(e: LendingError) -> Failure {
    Failure::Rejected(e)
}

#[test]
fn test_open_and_repay_loan() {
    let env = Env::default();
    let pool = funded_pool(&env, 50_000);
    // collateral = 15_000, loan = 10_000: ratio = 150 %, LTV = 66.67 %
    let opened = open(&env, pool, None, 100, 10_000, 15_000).unwrap();
    let loan_id = opened.loan.loan_id;
    assert_eq!(opened.loan.principal, 10_000);
    assert_eq!(opened.loan.collateral, 15_000);
    assert!(matches!(opened.loan.status, LoanStatus::Active));
    assert_eq!(opened.pool.total_borrowed, 10_000);

    // Repay the full principal with no time elapsed, so no interest
    let repaid = repay(&Some(config()), Some(opened.loan), Some(opened.pool), 100, 10_000).unwrap();
    assert_eq!(repaid.loan.loan_id, loan_id);
    assert!(matches!(repaid.loan.status, LoanStatus::Repaid));
    assert_eq!(repaid.loan.principal, 0);
    assert!(repaid.fully_repaid);
    assert_eq!(repaid.pool.total_borrowed, 0);
}

#[test]
fn test_interest_accrual_on_repay() {
    let env = Env::default();
    let pool = funded_pool(&env, 50_000);
    let opened = open(&env, pool, None, 0, 10_000, 15_000).unwrap();

    // A year later, at 20 % utilisation the rate is 500 + 2_000 * 2_000 / 10_000 = 900
    // bps, so 900 of interest has accrued; pay 500 of it
    let repaid =
        repay(&Some(config()), Some(opened.loan), Some(opened.pool), SECONDS_PER_YEAR, 500)
            .unwrap();
    assert_eq!(repaid.loan.principal, 10_000);
    assert!(matches!(repaid.loan.status, LoanStatus::Active));
    assert_eq!(repaid.interest_paid, 500);
    assert_eq!(repaid.principal_paid, 0);
    assert_eq!(repaid.loan.interest_accrued, 400);
    assert_eq!(repaid.loan.last_accrual, SECONDS_PER_YEAR);
    // 10 % protocol fee; the rest stays with the lenders
    assert_eq!(repaid.pool.total_protocol_fees, 50);
    assert_eq!(repaid.pool.total_interest_paid, 450);
    assert_eq!(repaid.pool.total_deposits, 50_450);
    assert_eq!(repaid.pool.total_borrowed, 10_000);
    assert!(!repaid.fully_repaid);
}

#[test]
fn repayment_beyond_interest_reduces_principal() {
    let env = Env::default();
    let pool = funded_pool(&env, 50_000);
    let opened = open(&env, pool, None, 0, 10_000, 15_000).unwrap();
    let repaid =
        repay(&Some(config()), Some(opened.loan), Some(opened.pool), SECONDS_PER_YEAR, 2_900)
            .unwrap();
    assert_eq!(repaid.interest_paid, 900);
    assert_eq!(repaid.principal_paid, 2_000);
    assert_eq!(repaid.loan.interest_accrued, 0);
    assert_eq!(repaid.loan.principal, 8_000);
    assert_eq!(repaid.pool.total_borrowed, 8_000);
    assert_eq!(repaid.pool.total_protocol_fees, 90);
    assert_eq!(repaid.pool.total_deposits, 50_810);
    // the pool still covers what is lent out
    assert!(repaid.pool.total_borrowed <= repaid.pool.total_deposits);
}

#[test]
fn repaying_the_whole_debt_with_interest_closes_the_loan() {
    let env = Env::default();
    let pool = funded_pool(&env, 50_000);
    let opened = open(&env, pool, None, 0, 10_000, 15_000).unwrap();
    let repaid =
        repay(&Some(config()), Some(opened.loan), Some(opened.pool), SECONDS_PER_YEAR, 10_900)
            .unwrap();
    assert!(repaid.fully_repaid);
    assert!(matches!(repaid.loan.status, LoanStatus::Repaid));
    assert_eq!(repaid.loan.collateral, 15_000);
}

#[test]
fn repay_refusals() {
    let env = Env::default();
    let pool = funded_pool(&env, 50_000);
    let opened = open(&env, pool, None, 0, 10_000, 15_000).unwrap();
    let c = Some(config());
    assert_eq!(
        repay(&c, Some(opened.loan.clone()), Some(opened.pool.clone()), 0, 0).unwrap_err(),
        rejected(LendingError::LoanTooSmall)
    );
    assert_eq!(
        repay(&c, None, Some(opened.pool.clone()), 0, 10).unwrap_err(),
        rejected(LendingError::LoanNotFound)
    );
    assert_eq!(
        repay(&c, Some(opened.loan.clone()), Some(opened.pool.clone()), 0, 10_001).unwrap_err(),
        rejected(LendingError::RepayExceedsDebt)
    );
    assert_eq!(
        repay(&None, Some(opened.loan.clone()), Some(opened.pool.clone()), 0, 10).unwrap_err(),
        rejected(LendingError::NotConfigured)
    );
    let mut closed = opened.loan.clone();
    closed.status = LoanStatus::Repaid;
    assert_eq!(
        repay(&c, Some(closed), Some(opened.pool.clone()), 0, 10).unwrap_err(),
        rejected(LendingError::LoanNotActive)
    );
    // interest at 500 % over a huge principal overflows 128 bits
    let mut huge = opened.loan.clone();
    huge.principal = i128::MAX / 2;
    assert_eq!(
        repay(&c, Some(huge), Some(opened.pool), SECONDS_PER_YEAR, 10).unwrap_err(),
        Failure::Overflow
    );
}

#[test]
fn test_duplicate_active_loan_panics() {
    let env = Env::default();
    let pool = funded_pool(&env, 50_000);
    let opened = open(&env, pool, None, 0, 10_000, 15_000).unwrap();
    // Second loan for the same borrower and token
    let r = open_loan(
        None,
        &Some(config()),
        true,
        Some(opened.pool),
        Some(opened.loan.loan_id),
        0,
        borrower(&env),
        token(&env),
        5_000,
        8_000,
    );
    assert_eq!(r.unwrap_err(), rejected(LendingError::ActiveLoanExists));
}

#[test]
fn test_ltv_exceeded_panics() {
    let env = Env::default();
    let pool = funded_pool(&env, 50_000);
    // collateral = 10_000, loan = 9_000: LTV = 90 % > 66.67 %
    let r = open(&env, pool, None, 0, 9_000, 10_000);
    assert_eq!(r.unwrap_err(), rejected(LendingError::LtvExceeded));
}

#[test]
fn open_loan_refusals() {
    let env = Env::default();
    let pool = || Some(funded_pool(&env, 50_000));
    let go = |flag: Option<bool>, c: Option<LendingConfig>, active: bool, p: Option<LendingPool>, counter: Option<u64>, loan: i128, coll: i128| {
        open_loan(flag, &c, active, p, counter, 0, borrower(&env), token(&env), loan, coll)
            .unwrap_err()
    };
    let c = Some(config());
    assert_eq!(go(Some(false), c, false, pool(), None, 10_000, 15_000), rejected(LendingError::Disabled));
    assert_eq!(go(None, None, false, pool(), None, 10_000, 15_000), rejected(LendingError::NotConfigured));
    let mut off = config();
    off.enabled = false;
    assert_eq!(go(None, Some(off), false, pool(), None, 10_000, 15_000), rejected(LendingError::Disabled));
    assert_eq!(go(None, c, false, pool(), None, 99, 1_000), rejected(LendingError::LoanTooSmall));
    let mut no_minimum = config();
    no_minimum.min_loan_amount = -5;
    assert_eq!(go(None, Some(no_minimum), false, pool(), None, 0, 1_000), rejected(LendingError::LoanTooSmall));
    assert_eq!(go(None, c, false, pool(), None, 1_000, 0), rejected(LendingError::LoanTooSmall));
    // LTV allows it (10_000 * 10_000 <= 15_001 * 6_667) but the ratio needs 15_000
    let mut loose = config();
    loose.max_ltv_bps = 10_000;
    assert_eq!(go(None, Some(loose), false, pool(), None, 10_000, 14_999), rejected(LendingError::InsufficientCollateral));
    assert_eq!(go(None, c, false, pool(), None, 60_000, 90_000), rejected(LendingError::InsufficientLiquidity));
    assert_eq!(go(None, c, false, None, None, 1_000, 1_500), rejected(LendingError::InsufficientLiquidity));
    assert_eq!(go(None, c, false, pool(), Some(u64::MAX), 1_000, 1_500), Failure::Overflow);
    assert_eq!(go(None, c, false, pool(), None, i128::MAX / 5_000, i128::MAX / 2), Failure::Overflow);
}

#[test]
fn open_loan_records_the_new_loan() {
    let env = Env::default();
    let pool = funded_pool(&env, 50_000);
    let opened = open(&env, pool, Some(41), 777, 1_000, 1_500).unwrap();
    assert_eq!(opened.loan.loan_id, 42);
    assert_eq!(opened.loan.borrower, borrower(&env));
    assert_eq!(opened.loan.token, token(&env));
    assert_eq!(opened.loan.interest_accrued, 0);
    assert_eq!(opened.loan.created_at, 777);
    assert_eq!(opened.loan.last_accrual, 777);
    assert_eq!(opened.pool.total_deposits, 50_000);
    assert_eq!(opened.pool.total_borrowed, 1_000);
}

#[test]
fn utilisation_and_rate_after_a_loan() {
    let env = Env::default();
    let pool = funded_pool(&env, 100_000);
    // No borrows: utilisation 0, rate = base rate
    assert_eq!(utilisation_bps(&Some(pool.clone())), Ok(0));
    assert_eq!(current_rate_bps(pool.total_deposits, pool.total_borrowed, &config()), 500);
    // 50_000 against 60_000 is an LTV of 83 %, above the 66.67 % cap
    assert_eq!(
        open(&env, pool.clone(), None, 0, 50_000, 60_000).unwrap_err(),
        rejected(LendingError::LtvExceeded)
    );
    // Borrow 50_000 against 75_000 (LTV 66.67 %, ratio 150 %)
    let opened = open(&env, pool, None, 0, 50_000, 75_000).unwrap();
    assert_eq!(utilisation_bps(&Some(opened.pool.clone())), Ok(5_000));
    assert_eq!(
        current_rate_bps(opened.pool.total_deposits, opened.pool.total_borrowed, &config()),
        1_500
    );
}

#[test]
fn test_borrower_loan_history() {
    let env = Env::default();
    let pool = funded_pool(&env, 200_000);
    let first = open(&env, pool, None, 0, 10_000, 15_000).unwrap();
    let history = track_borrower_loan(&env, None, first.loan.loan_id);
    // Repay the first loan fully, then open a second one
    let repaid = repay(&Some(config()), Some(first.loan), Some(first.pool), 0, 10_000).unwrap();
    assert!(repaid.fully_repaid);
    let second = open(&env, repaid.pool, Some(repaid.loan.loan_id), 0, 10_000, 15_000).unwrap();
    let history = track_borrower_loan(&env, Some(history), second.loan.loan_id);
    assert_eq!(history.len(), 2);
    assert_eq!(history.get(0).unwrap(), 1);
    assert_eq!(history.get(1).unwrap(), 2);
}

#[test]
fn accrue_brings_interest_up_to_date() {
    let env = Env::default();
    let pool = funded_pool(&env, 50_000);
    let opened = open(&env, pool, None, 0, 10_000, 15_000).unwrap();
    let c = Some(config());
    let p = Some(opened.pool.clone());
    let accrued = accrue(Some(opened.loan.clone()), &p, &c, SECONDS_PER_YEAR).unwrap().unwrap();
    assert_eq!(accrued.interest_accrued, 900);
    assert_eq!(accrued.last_accrual, SECONDS_PER_YEAR);
    assert_eq!(accrued.principal, 10_000);
    // a second accrual at the same moment changes nothing
    let again = accrue(Some(accrued.clone()), &p, &c, SECONDS_PER_YEAR).unwrap().unwrap();
    assert_eq!(again.interest_accrued, 900);
    // without a configuration nothing accrues
    let idle = accrue(Some(opened.loan.clone()), &p, &None, SECONDS_PER_YEAR).unwrap().unwrap();
    assert_eq!(idle.interest_accrued, 0);
    assert_eq!(idle.last_accrual, 0);
    // a clock behind the last accrual gives no elapsed time
    let mut later = opened.loan.clone();
    later.last_accrual = 100;
    let unchanged = accrue(Some(later), &p, &c, 50).unwrap().unwrap();
    assert_eq!(unchanged.interest_accrued, 0);
    assert_eq!(unchanged.last_accrual, 100);
}

#[test]
fn accrue_skips_inactive_and_missing_loans() {
    let env = Env::default();
    let pool = funded_pool(&env, 50_000);
    let opened = open(&env, pool, None, 0, 10_000, 15_000).unwrap();
    let mut repaid: LendingLoan = opened.loan.clone();
    repaid.status = LoanStatus::Repaid;
    let c = Some(config());
    assert!(accrue(Some(repaid), &Some(opened.pool.clone()), &c, 1_000).unwrap().is_none());
    assert_eq!(
        accrue(None, &Some(opened.pool), &c, 1_000).unwrap_err(),
        rejected(LendingError::LoanNotFound)
    );
}

#[test]
fn accrued_interest_saturates() {
    let env = Env::default();
    let pool = funded_pool(&env, 50_000);
    let opened = open(&env, pool, None, 0, 10_000, 15_000).unwrap();
    let mut loan = opened.loan.clone();
    loan.interest_accrued = i128::MAX - 5;
    let accrued = accrue(Some(loan), &Some(opened.pool), &Some(config()), SECONDS_PER_YEAR)
        .unwrap()
        .unwrap();
    assert_eq!(accrued.interest_accrued, i128::MAX);
}

#[test]
fn health_factor_values() {
    let env = Env::default();
    let pool = funded_pool(&env, 50_000);
    let opened = open(&env, pool, None, 0, 10_000, 15_000).unwrap();
    let c = Some(config());
    // 15_000 * 12_000 * 1_000_000 / (10_000 * 10_000) = 1_800_000
    assert_eq!(health_factor(&opened.loan, &c), Ok(1_800_000));
    assert_eq!(health_factor(&opened.loan, &None), Ok(i128::MAX));
    let mut cleared = opened.loan.clone();
    cleared.principal = 0;
    assert_eq!(health_factor(&cleared, &c), Ok(i128::MAX));
    let mut huge = opened.loan.clone();
    huge.collateral = i128::MAX / 1_000;
    assert_eq!(health_factor(&huge, &c), Err(Failure::Overflow));
    let mut unhealthy = opened.loan.clone();
    unhealthy.interest_accrued = 10_000;
    // 15_000 * 12_000 * 1_000_000 / (20_000 * 10_000) = 900_000
    assert_eq!(health_factor(&unhealthy, &c), Ok(900_000));
}

#[test]
fn pool_without_borrows_prices_at_base_rate() {
    let env = Env::default();
    // a loan priced from a pool that does not exist: base rate, 500 bps
    let opened = open(&env, pool_with(&env, 20_000, 0), None, 0, 10_000, 15_000).unwrap();
    let accrued = accrue(Some(opened.loan), &None, &Some(config()), SECONDS_PER_YEAR)
        .unwrap()
        .unwrap();
    assert_eq!(accrued.interest_accrued, 500);
}

#[test]
fn repay_creates_the_pool_of_the_loan_token_when_none_is_stored() {
    let env = Env::default();
    let pool = funded_pool(&env, 50_000);
    let opened = open(&env, pool, None, 0, 10_000, 15_000).unwrap();
    let repaid = repay(&Some(config()), Some(opened.loan), None, 60, 4_000).unwrap();
    assert_eq!(repaid.pool.token, token(&env));
    assert_eq!(repaid.pool.last_accrual, 60);
    assert_eq!(repaid.pool.total_deposits, 0);
    assert_eq!(repaid.pool.total_borrowed, -4_000);
    assert_eq!(repaid.loan.principal, 6_000);
}

#[test]
fn repaid_interest_is_shared_pro_rata_among_lenders() {
    let env = Env::default();
    let first = deposit(None, None, None, token(&env), 0, 30_000).unwrap();
    let second = deposit(None, None, Some(first.pool), token(&env), 0, 20_000).unwrap();
    let opened = open(&env, second.pool, None, 0, 10_000, 15_000).unwrap();
    // a year at 900 bps: 900 of interest; 500 paid, 50 of it as protocol fee
    let repaid =
        repay(&Some(config()), Some(opened.loan), Some(opened.pool), SECONDS_PER_YEAR, 500)
            .unwrap();
    assert_eq!(repaid.pool.interest_index, 9_000_000_000);
    assert_eq!(repaid.pool.total_lender_deposits, 50_000);
    // 30_000 of 50_000 earns 270 of the 450; 20_000 earns 180
    assert_eq!(claimable_interest(&first.position, &repaid.pool), Ok(270));
    assert_eq!(claimable_interest(&second.position, &repaid.pool), Ok(180));
    let out = withdraw(None, Some(first.position), Some(repaid.pool), 30_000).unwrap();
    assert_eq!(out.payout, 30_270);
    assert_eq!(out.pool.total_deposits, 20_180);
    assert_eq!(out.pool.total_lender_deposits, 20_000);
    assert_eq!(claimable_interest(&second.position, &out.pool), Ok(180));
}
