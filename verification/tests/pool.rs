use soroban_sdk::{Address, Env};
use tipjar::lending::pool::{
    claimable_interest, deposit, holds_key, load_or_create_pool, require_enabled, same_key,
    track_lender_token, utilisation_bps, withdraw,
};
use tipjar::{Failure, LenderPosition, LendingError, LendingPool};

const TOKEN: &str = "CAAQCAIBAEAQCAIBAEAQCAIBAEAQCAIBAEAQCAIBAEAQCAIBAEAQC526";
const OTHER_TOKEN: &str = "CABAEAQCAIBAEAQCAIBAEAQCAIBAEAQCAIBAEAQCAIBAEAQCAIBAFNSZ";

fn token(env: &Env) -> Address {
    Address::from_str(env, TOKEN)
}

fn pool_with(env: &Env, deposits: i128, borrowed: i128) -> LendingPool {
    LendingPool {
        token: token(env),
        total_deposits: deposits,
        total_borrowed: borrowed,
        total_protocol_fees: 0,
        total_interest_paid: 0,
        last_accrual: 7,
        total_lender_deposits: deposits,
        interest_index: 0,
    }
}

fn holding(deposit: i128) -> Option<LenderPosition> {
    Some(LenderPosition { deposit, interest_index: 0, unclaimed_interest: 0 })
}

fn rejected(e: LendingError) -> Failure {
    Failure::Rejected(e)
}

#[test]
fn test_deposit_and_withdraw() {
    let env = Env::default();
    let deposited = deposit(None, None, None, token(&env), 1_000, 5_000).unwrap();
    assert_eq!(deposited.pool.total_deposits, 5_000);
    assert_eq!(deposited.pool.total_borrowed, 0);
    assert_eq!(deposited.position.deposit, 5_000);

    let withdrawn =
        withdraw(None, Some(deposited.position), Some(deposited.pool), 2_000).unwrap();
    assert_eq!(withdrawn.pool.total_deposits, 3_000);
    assert_eq!(withdrawn.position.deposit, 3_000);
}

#[test]
fn test_withdraw_exceeds_deposit_panics() {
    let env = Env::default();
    let deposited = deposit(Some(true), None, None, token(&env), 1_000, 1_000).unwrap();
    let r = withdraw(Some(true), Some(deposited.position), Some(deposited.pool), 1_001);
    assert_eq!(r.unwrap_err(), rejected(LendingError::WithdrawalExceedsDeposit));
}

#[test]
fn deposit_creates_the_pool_at_the_current_time() {
    let env = Env::default();
    let deposited = deposit(None, holding(40), None, token(&env), 1_234, 60).unwrap();
    assert_eq!(deposited.position.deposit, 100);
    assert_eq!(deposited.pool.token, token(&env));
    assert_eq!(deposited.pool.last_accrual, 1_234);
    assert_eq!(deposited.pool.total_protocol_fees, 0);
    assert_eq!(deposited.pool.total_interest_paid, 0);
}

#[test]
fn deposit_adds_to_an_existing_pool() {
    let env = Env::default();
    let deposited = deposit(None, holding(10), Some(pool_with(&env, 500, 200)), token(&env), 99, 25)
        .unwrap();
    assert_eq!(deposited.position.deposit, 35);
    assert_eq!(deposited.pool.total_deposits, 525);
    assert_eq!(deposited.pool.total_borrowed, 200);
    assert_eq!(deposited.pool.last_accrual, 7);
}

#[test]
fn deposit_refusals() {
    let env = Env::default();
    assert_eq!(
        deposit(None, None, None, token(&env), 0, 0).unwrap_err(),
        rejected(LendingError::InvalidDepositAmount)
    );
    assert_eq!(
        deposit(None, None, None, token(&env), 0, -3).unwrap_err(),
        rejected(LendingError::InvalidDepositAmount)
    );
    assert_eq!(
        deposit(Some(false), None, None, token(&env), 0, 10).unwrap_err(),
        rejected(LendingError::Disabled)
    );
    assert_eq!(
        deposit(None, holding(i128::MAX), None, token(&env), 0, 1).unwrap_err(),
        Failure::Overflow
    );
    assert_eq!(
        deposit(None, None, Some(pool_with(&env, i128::MAX, 0)), token(&env), 0, 1).unwrap_err(),
        Failure::Overflow
    );
}

#[test]
fn withdraw_refusals() {
    let env = Env::default();
    assert_eq!(
        withdraw(None, holding(100), Some(pool_with(&env, 100, 0)), 0).unwrap_err(),
        rejected(LendingError::InvalidDepositAmount)
    );
    assert_eq!(
        withdraw(Some(false), holding(100), Some(pool_with(&env, 100, 0)), 10).unwrap_err(),
        rejected(LendingError::Disabled)
    );
    assert_eq!(
        withdraw(None, None, Some(pool_with(&env, 100, 0)), 10).unwrap_err(),
        rejected(LendingError::WithdrawalExceedsDeposit)
    );
    assert_eq!(withdraw(None, holding(100), None, 10).unwrap_err(), rejected(LendingError::PoolNotFound));
    assert_eq!(
        withdraw(None, holding(100), Some(pool_with(&env, 100, 95)), 10).unwrap_err(),
        rejected(LendingError::InsufficientPoolLiquidity)
    );
    assert_eq!(
        withdraw(None, holding(100), Some(pool_with(&env, i128::MAX, -1)), 10).unwrap_err(),
        Failure::Overflow
    );
}

#[test]
fn withdraw_up_to_the_free_liquidity() {
    let env = Env::default();
    let withdrawn = withdraw(None, holding(100), Some(pool_with(&env, 100, 90)), 10).unwrap();
    assert_eq!(withdrawn.pool.total_deposits, 90);
    assert_eq!(withdrawn.pool.total_borrowed, 90);
    assert_eq!(withdrawn.position.deposit, 90);
}

#[test]
fn withdraw_after_deposit_restores_balances() {
    let env = Env::default();
    let before = pool_with(&env, 1_000, 400);
    let deposited = deposit(None, holding(300), Some(before.clone()), token(&env), 5, 250).unwrap();
    let withdrawn =
        withdraw(None, Some(deposited.position), Some(deposited.pool), 250).unwrap();
    assert_eq!(withdrawn.position.deposit, 300);
    assert_eq!(withdrawn.pool.total_deposits, before.total_deposits);
    assert_eq!(withdrawn.pool.total_borrowed, before.total_borrowed);
}

#[test]
fn utilisation_of_pools() {
    let env = Env::default();
    assert_eq!(utilisation_bps(&None), Ok(0));
    assert_eq!(utilisation_bps(&Some(pool_with(&env, 0, 50))), Ok(0));
    assert_eq!(utilisation_bps(&Some(pool_with(&env, 100_000, 0))), Ok(0));
    assert_eq!(utilisation_bps(&Some(pool_with(&env, 100_000, 50_000))), Ok(5_000));
    assert_eq!(utilisation_bps(&Some(pool_with(&env, 100_000, 250_000))), Ok(10_000));
    assert_eq!(utilisation_bps(&Some(pool_with(&env, 3, 1))), Ok(3_333));
    assert_eq!(utilisation_bps(&Some(pool_with(&env, 10, i128::MAX))), Err(Failure::Overflow));
    // a negative borrow total gives what `as u32` leaves of the negative ratio
    assert_eq!(utilisation_bps(&Some(pool_with(&env, 3, -1))), Ok(u32::MAX - 3_332));
}

#[test]
fn lending_switch() {
    assert_eq!(require_enabled(None), Ok(()));
    assert_eq!(require_enabled(Some(true)), Ok(()));
    assert_eq!(require_enabled(Some(false)), Err(rejected(LendingError::Disabled)));
}

#[test]
fn load_or_create_pool_keeps_a_stored_pool() {
    let env = Env::default();
    let stored = pool_with(&env, 10, 4);
    let pool = load_or_create_pool(Some(stored), token(&env), 99);
    assert_eq!(pool.total_deposits, 10);
    assert_eq!(pool.last_accrual, 7);
    let fresh = load_or_create_pool(None, token(&env), 99);
    assert_eq!(fresh.total_deposits, 0);
    assert_eq!(fresh.last_accrual, 99);
}

#[test]
fn withdraw_pays_out_earned_interest() {
    let env = Env::default();
    // the pool has credited 2.5 units of interest per 1_000 deposited
    let mut pool = pool_with(&env, 10_250, 0);
    pool.total_lender_deposits = 10_000;
    pool.interest_index = 2_500_000_000;
    let position = holding(4_000);
    assert_eq!(claimable_interest(&position.unwrap(), &pool), Ok(10));
    let withdrawn = withdraw(None, position, Some(pool), 1_000).unwrap();
    assert_eq!(withdrawn.payout, 1_010);
    assert_eq!(withdrawn.position.deposit, 3_000);
    assert_eq!(withdrawn.position.unclaimed_interest, 0);
    assert_eq!(withdrawn.position.interest_index, 2_500_000_000);
    assert_eq!(withdrawn.pool.total_deposits, 9_240);
    assert_eq!(withdrawn.pool.total_lender_deposits, 9_000);
}

#[test]
fn deposit_settles_earned_interest() {
    let env = Env::default();
    let mut pool = pool_with(&env, 10_250, 0);
    pool.total_lender_deposits = 10_000;
    pool.interest_index = 2_500_000_000;
    let deposited = deposit(None, holding(4_000), Some(pool), token(&env), 0, 500).unwrap();
    assert_eq!(deposited.position.deposit, 4_500);
    assert_eq!(deposited.position.unclaimed_interest, 10);
    assert_eq!(deposited.position.interest_index, 2_500_000_000);
    assert_eq!(deposited.pool.total_lender_deposits, 10_500);
    // a new lender starts at the current index and has earned nothing
    let fresh = deposit(None, None, Some(deposited.pool), token(&env), 0, 100).unwrap();
    assert_eq!(fresh.position.interest_index, 2_500_000_000);
    assert_eq!(claimable_interest(&fresh.position, &fresh.pool), Ok(0));
}

#[test]
fn withdrawal_refused_when_interest_payout_exceeds_liquidity() {
    let env = Env::default();
    let mut pool = pool_with(&env, 1_010, 1_000);
    pool.total_lender_deposits = 1_000;
    pool.interest_index = 10_000_000_000;
    // 5 of deposit plus 10 of interest exceeds the 10 that is free
    assert_eq!(
        withdraw(None, holding(1_000), Some(pool), 5).unwrap_err(),
        rejected(LendingError::InsufficientPoolLiquidity)
    );
}

#[test]
fn lender_token_list_records_each_token_once() {
    let env = Env::default();
    let token_key = TOKEN.as_bytes().to_vec();
    let mut keys: Vec<Vec<u8>> = Vec::new();
    let first = track_lender_token(&env, None, &mut keys, token(&env), &token_key).unwrap();
    assert_eq!(first.len(), 1);
    assert_eq!(first.get(0).unwrap(), token(&env));
    assert_eq!(keys, vec![token_key.clone()]);
    // the same token again, through another handle of the same address:
    // nothing to write, and the keys stay as they were
    let again = Address::from_str(&env, TOKEN);
    assert!(track_lender_token(&env, Some(first.clone()), &mut keys, again, &token_key).is_none());
    assert_eq!(keys, vec![token_key.clone()]);
    let other = Address::from_str(&env, OTHER_TOKEN);
    let other_key = OTHER_TOKEN.as_bytes().to_vec();
    let both = track_lender_token(&env, Some(first), &mut keys, other.clone(), &other_key).unwrap();
    assert_eq!(both.len(), 2);
    assert_eq!(both.get(0).unwrap(), token(&env));
    assert_eq!(both.get(1).unwrap(), other);
    assert_eq!(keys, vec![token_key, other_key]);
}

#[test]
fn lender_token_list_starts_afresh_when_none_is_stored() {
    let env = Env::default();
    let token_key = TOKEN.as_bytes().to_vec();
    // keys left over from elsewhere do not count when no list is stored
    let mut keys: Vec<Vec<u8>> = vec![token_key.clone()];
    let list = track_lender_token(&env, None, &mut keys, token(&env), &token_key).unwrap();
    assert_eq!(list.len(), 1);
    assert_eq!(keys, vec![token_key]);
}

#[test]
fn keys_compare_byte_for_byte() {
    let a = TOKEN.as_bytes().to_vec();
    let b = OTHER_TOKEN.as_bytes().to_vec();
    assert!(same_key(&a, &a.clone()));
    assert!(!same_key(&a, &b));
    assert!(!same_key(&a, &a[..10].to_vec()));
    assert!(holds_key(&vec![b.clone(), a.clone()], &a));
    assert!(!holds_key(&vec![b.clone()], &a));
    assert!(!holds_key(&Vec::new(), &a));
}

#[test]
fn large_deposits_earn_interest_without_overflow() {
    let env = Env::default();
    let big: i128 = 1_000_000_000_000_000_000_000_000_000_000;
    let mut pool = pool_with(&env, big, 0);
    pool.interest_index = 500_000_000_000;
    let position = LenderPosition { deposit: big, interest_index: 0, unclaimed_interest: 0 };
    // deposit × index gain is beyond i128; the interest itself is half the deposit
    assert_eq!(claimable_interest(&position, &pool), Ok(big / 2));
}
