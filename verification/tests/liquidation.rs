use soroban_sdk::{Address, Env};
use tipjar::lending::liquidation::liquidate;
use tipjar::lending::loans::{accrue, health_factor, open_loan};
use tipjar::lending::pool::deposit;
use tipjar::{Failure, LendingConfig, LendingError, LoanStatus};

const TOKEN: &str = "CAAQCAIBAEAQCAIBAEAQCAIBAEAQCAIBAEAQCAIBAEAQCAIBAEAQC526";
const BORROWER: &str = "GABAEAQCAIBAEAQCAIBAEAQCAIBAEAQCAIBAEAQCAIBAEAQCAIBAEJXA";

fn token(env: &Env) -> Address {
    Address::from_str(env, TOKEN)
}

fn borrower(env: &Env) -> Address {
    Address::from_str(env, BORROWER)
}

fn default_config() -> LendingConfig {
    LendingConfig {
        collateral_ratio_bps: 15_000,
        liquidation_threshold_bps: 12_000,
        liquidation_penalty_bps: 500,
        base_rate_bps: 500,
        utilisation_multiplier_bps: 2_000,
        protocol_fee_bps: 1_000,
        min_loan_amount: 100,
        max_ltv_bps: 6_667,
        enabled: true,
    }
}

/// Very high rate, to make a position unhealthy quickly.  The LTV cap is
/// 84 % so that a loan of 10_000 against 12_001 (83.3 %) may open.
fn aggressive_config() -> LendingConfig {
    LendingConfig {
        collateral_ratio_bps: 12_001,
        liquidation_threshold_bps: 12_000,
        liquidation_penalty_bps: 500,
        base_rate_bps: 50_000,
        utilisation_multiplier_bps: 50_000,
        protocol_fee_bps: 1_000,
        min_loan_amount: 1,
        max_ltv_bps: 8_400,
        enabled: true,
    }
}

#[test]
fn liquidation_of_an_unhealthy_position() {
    let env = Env::default();
    let config = Some(aggressive_config());
    let pool = deposit(None, None, None, token(&env), 0, 500_000).unwrap().pool;
    // collateral = 12_001, loan = 10_000: ratio just above 120 %
    let opened = open_loan(
        None,
        &config,
        false,
        Some(pool),
        None,
        0,
        borrower(&env),
        token(&env),
        10_000,
        12_001,
    )
    .unwrap();

    // 90 days later at 510 % a year (2 % utilisation): 12_575 of interest
    let now = 90 * 24 * 3600;
    let pool = Some(opened.pool);
    let loan = accrue(Some(opened.loan), &pool, &config, now).unwrap().unwrap();
    assert_eq!(loan.interest_accrued, 12_575);
    let hf = health_factor(&loan, &config).unwrap();
    assert!(hf < 1_000_000, "health factor should be below 1.0");
    assert_eq!(hf, 637_926);

    let total_debt = loan.principal + loan.interest_accrued;
    let liquidated = liquidate(&config, Some(loan), pool, now).unwrap();
    assert!(matches!(liquidated.loan.status, LoanStatus::Liquidated));
    assert_eq!(liquidated.loan.principal, 0);
    assert_eq!(liquidated.loan.collateral, 0);
    assert_eq!(liquidated.loan.interest_accrued, 0);
    assert_eq!(liquidated.debt_repaid, total_debt);
    assert_eq!(liquidated.collateral_seized, 12_001);
    // principal leaves the borrows; 10 % of the interest goes to the protocol
    assert_eq!(liquidated.pool.total_borrowed, 0);
    assert_eq!(liquidated.pool.total_protocol_fees, 1_257);
    assert_eq!(liquidated.pool.total_interest_paid, 11_318);
    assert_eq!(liquidated.pool.total_deposits, 511_318);
    assert!(liquidated.pool.total_borrowed <= liquidated.pool.total_deposits);
}

#[test]
fn test_liquidate_healthy_position_panics() {
    let env = Env::default();
    let config = Some(default_config());
    let pool = deposit(None, None, None, token(&env), 0, 50_000).unwrap().pool;
    let opened = open_loan(
        None,
        &config,
        false,
        Some(pool),
        None,
        0,
        borrower(&env),
        token(&env),
        10_000,
        15_000,
    )
    .unwrap();
    let r = liquidate(&config, Some(opened.loan), Some(opened.pool), 0);
    assert_eq!(r.unwrap_err(), Failure::Rejected(LendingError::PositionHealthy));
}

#[test]
fn liquidation_accrues_before_judging_health() {
    let env = Env::default();
    let config = Some(aggressive_config());
    let pool = deposit(None, None, None, token(&env), 0, 500_000).unwrap().pool;
    let opened = open_loan(
        None,
        &config,
        false,
        Some(pool),
        None,
        0,
        borrower(&env),
        token(&env),
        10_000,
        12_001,
    )
    .unwrap();
    // healthy at opening, unhealthy once 90 days of interest are counted
    assert_eq!(
        liquidate(&config, Some(opened.loan.clone()), Some(opened.pool.clone()), 0).unwrap_err(),
        Failure::Rejected(LendingError::PositionHealthy)
    );
    let liquidated =
        liquidate(&config, Some(opened.loan), Some(opened.pool), 90 * 24 * 3600).unwrap();
    assert_eq!(liquidated.debt_repaid, 22_575);
}

#[test]
fn liquidation_refusals() {
    let env = Env::default();
    let config = Some(default_config());
    let pool = deposit(None, None, None, token(&env), 0, 50_000).unwrap().pool;
    let opened = open_loan(
        None,
        &config,
        false,
        Some(pool),
        None,
        0,
        borrower(&env),
        token(&env),
        10_000,
        15_000,
    )
    .unwrap();
    assert_eq!(
        liquidate(&config, None, Some(opened.pool.clone()), 0).unwrap_err(),
        Failure::Rejected(LendingError::LoanNotFound)
    );
    let mut closed = opened.loan.clone();
    closed.status = LoanStatus::Liquidated;
    assert_eq!(
        liquidate(&config, Some(closed), Some(opened.pool.clone()), 0).unwrap_err(),
        Failure::Rejected(LendingError::LoanNotActive)
    );
    // without a configuration the health factor is unbounded
    assert_eq!(
        liquidate(&None, Some(opened.loan), Some(opened.pool), 10_000).unwrap_err(),
        Failure::Rejected(LendingError::PositionHealthy)
    );
}
