//! Lending pool: lender deposit and withdrawal logic.
//!
//! Lenders deposit tokens into a per-token pool to provide liquidity for
//! borrowers.  Their share is tracked as a raw deposit amount (no LP tokens).
//! Interest earned is distributed pro-rata when borrowers repay: the
//! lenders' share of each interest payment raises the pool's interest index,
//! and each lender earns its deposit times the rise of the index since its
//! interest was last settled.  A withdrawal pays out the earned interest
//! with the amount withdrawn.

use soroban_sdk::{Address, Env};
use vstd::arithmetic::div_mod::*;
use vstd::prelude::*;

use super::arith::{
    checked_difference, checked_product, checked_sum, fits_i128, low_u32, quotient, trunc_div,
    scaled_quotient, scaled_quotient_overflows, truncate_to_u32,
};
use super::laws::lemma_token_keys_stay_unique;
use super::rates::utilisation_of;
use super::{BPS_DENOM, INTEREST_INDEX_PRECISION};
use crate::host::{new_token_list, push_token, token_list};
use crate::types::{Failure, LenderPosition, LendingError, LendingPool};

verus! {

/// Whether lending is switched on, given the stored switch (on when unset).
pub open spec fn lending_enabled(enabled_flag: Option<bool>) -> bool {
    match enabled_flag {
        Some(enabled) => enabled,
        None => true,
    }
}

/// The pool of `token` as stored, or a fresh empty pool started at `now`.
pub open spec fn pool_or_new(stored: Option<LendingPool>, token: Address, now: u64) -> LendingPool {
    match stored {
        Some(pool) => pool,
        None => LendingPool {
            token,
            total_deposits: 0,
            total_borrowed: 0,
            total_protocol_fees: 0,
            total_interest_paid: 0,
            last_accrual: now,
            total_lender_deposits: 0,
            interest_index: 0,
        },
    }
}

/// A lender's position as stored, or a fresh one that starts at the pool's
/// current interest index (so it has earned nothing yet).
pub open spec fn position_or_new(stored: Option<LenderPosition>, pool: LendingPool) -> LenderPosition {
    match stored {
        Some(position) => position,
        None => LenderPosition {
            deposit: 0,
            interest_index: pool.interest_index,
            unclaimed_interest: 0,
        },
    }
}

/// A lender's deposit balance, zero when no position is stored.
pub open spec fn deposit_of(stored: Option<LenderPosition>) -> int {
    match stored {
        Some(position) => position.deposit as int,
        None => 0,
    }
}

/// How far the pool's interest index has moved since the position was
/// last settled.
pub open spec fn index_gain(position: LenderPosition, pool: LendingPool) -> int {
    pool.interest_index - position.interest_index
}

/// The interest a lender has earned and not withdrawn: what was settled to
/// it, plus its deposit times the index gain since, rounded toward zero.
pub open spec fn earned_of(position: LenderPosition, pool: LendingPool) -> int {
    position.unclaimed_interest + trunc_div(
        position.deposit * index_gain(position, pool),
        INTEREST_INDEX_PRECISION as int,
    )
}

/// Whether computing the earned interest overflows `i128`.
pub open spec fn earned_overflows(position: LenderPosition, pool: LendingPool) -> bool {
    ||| !fits_i128(index_gain(position, pool))
    ||| scaled_quotient_overflows(
        position.deposit as int,
        index_gain(position, pool),
        INTEREST_INDEX_PRECISION as int,
    )
    ||| !fits_i128(earned_of(position, pool))
}

/// What a deposit writes: the lender's position (its earned interest
/// settled, its balance raised by the amount) and the new pool state.
#[derive(Debug)]
pub struct Deposited {
    pub position: LenderPosition,
    pub pool: LendingPool,
}

/// What a withdrawal writes and pays: the lender's position, the new pool
/// state, and the payout (the amount withdrawn plus the interest earned).
#[derive(Debug)]
pub struct Withdrawn {
    pub position: LenderPosition,
    pub pool: LendingPool,
    pub payout: i128,
}

/// The outcome of depositing `amount` of `token`.
pub open spec fn deposit_result(
    enabled_flag: Option<bool>,
    position: Option<LenderPosition>,
    pool: Option<LendingPool>,
    token: Address,
    now: u64,
    amount: i128,
) -> Result<Deposited, Failure> {
    let before = pool_or_new(pool, token, now);
    let p = position_or_new(position, before);
    if amount <= 0 {
        Err(Failure::Rejected(LendingError::InvalidDepositAmount))
    } else if !lending_enabled(enabled_flag) {
        Err(Failure::Rejected(LendingError::Disabled))
    } else if earned_overflows(p, before) || !fits_i128(p.deposit + amount) || !fits_i128(
        before.total_deposits + amount,
    ) || !fits_i128(before.total_lender_deposits + amount) {
        Err(Failure::Overflow)
    } else {
        Ok(
            Deposited {
                position: LenderPosition {
                    deposit: (p.deposit + amount) as i128,
                    interest_index: before.interest_index,
                    unclaimed_interest: earned_of(p, before) as i128,
                },
                pool: LendingPool {
                    total_deposits: (before.total_deposits + amount) as i128,
                    total_lender_deposits: (before.total_lender_deposits + amount) as i128,
                    ..before
                },
            },
        )
    }
}

/// The outcome of withdrawing `amount` of a lender's deposit from a pool,
/// together with all the interest the lender has earned.
pub open spec fn withdraw_result(
    enabled_flag: Option<bool>,
    position: Option<LenderPosition>,
    pool: Option<LendingPool>,
    amount: i128,
) -> Result<Withdrawn, Failure> {
    if amount <= 0 {
        Err(Failure::Rejected(LendingError::InvalidDepositAmount))
    } else if !lending_enabled(enabled_flag) {
        Err(Failure::Rejected(LendingError::Disabled))
    } else if amount > deposit_of(position) {
        Err(Failure::Rejected(LendingError::WithdrawalExceedsDeposit))
    } else {
        match pool {
            None => Err(Failure::Rejected(LendingError::PoolNotFound)),
            Some(pl) => {
                let p = position_or_new(position, pl);
                let payout = amount + earned_of(p, pl);
                if earned_overflows(p, pl) || !fits_i128(payout) {
                    Err(Failure::Overflow)
                } else if !fits_i128(pl.total_deposits - pl.total_borrowed) {
                    Err(Failure::Overflow)
                } else if payout > pl.total_deposits - pl.total_borrowed {
                    Err(Failure::Rejected(LendingError::InsufficientPoolLiquidity))
                } else if !fits_i128(pl.total_deposits - payout) || !fits_i128(
                    pl.total_lender_deposits - amount,
                ) {
                    Err(Failure::Overflow)
                } else {
                    Ok(
                        Withdrawn {
                            position: LenderPosition {
                                deposit: (p.deposit - amount) as i128,
                                interest_index: pl.interest_index,
                                unclaimed_interest: 0,
                            },
                            pool: LendingPool {
                                total_deposits: (pl.total_deposits - payout) as i128,
                                total_lender_deposits: (pl.total_lender_deposits - amount) as i128,
                                ..pl
                            },
                            payout: payout as i128,
                        },
                    )
                }
            },
        }
    }
}

/// The tokens held by a stored token list, empty when none is stored.
pub open spec fn tokens_of(stored: Option<soroban_sdk::Vec<Address>>) -> Seq<Address> {
    match stored {
        Some(tokens) => token_list(tokens),
        None => Seq::empty(),
    }
}

/// The utilisation in basis points reported for a pool: zero when there is
/// no pool or no deposits, else `utilisation_of` cut to 32 bits.
pub open spec fn utilisation_result(pool: Option<LendingPool>) -> Result<u32, Failure> {
    match pool {
        None => Ok(0),
        Some(p) => if p.total_deposits <= 0 {
            Ok(0)
        } else if !fits_i128(p.total_borrowed * BPS_DENOM) {
            Err(Failure::Overflow)
        } else {
            Ok(low_u32(utilisation_of(p.total_deposits as int, p.total_borrowed as int)) as u32)
        },
    }
}

/// Deposit `amount` of `token` into the lending pool.
///
/// Settles the interest the lender has earned so far into its position,
/// raises its deposit balance, and creates the pool if it does not yet
/// exist.  The caller moves `amount` from the lender into the contract.
pub fn deposit(
    enabled_flag: Option<bool>,
    position: Option<LenderPosition>,
    pool: Option<LendingPool>,
    token: Address,
    now: u64,
    amount: i128,
) -> (r: Result<Deposited, Failure>)
    ensures
        r == deposit_result(enabled_flag, position, pool, token, now, amount),
{
    if amount <= 0 {
        return Err(Failure::Rejected(LendingError::InvalidDepositAmount));
    }
    require_enabled(enabled_flag)?;
    let mut updated = load_or_create_pool(pool, token, now);
    let current = load_or_create_position(position, &updated);
    let earned = claimable_interest(&current, &updated)?;
    let balance = checked_sum(current.deposit, amount)?;
    updated.total_deposits = checked_sum(updated.total_deposits, amount)?;
    updated.total_lender_deposits = checked_sum(updated.total_lender_deposits, amount)?;
    let settled = LenderPosition {
        deposit: balance,
        interest_index: updated.interest_index,
        unclaimed_interest: earned,
    };
    Ok(Deposited { position: settled, pool: updated })
}

/// Withdraw `amount` of the lender's deposit from the lending pool, paying
/// out with it all the interest the lender has earned.
///
/// Refused when `amount` exceeds the lender's deposit, or when the payout
/// would leave the pool unable to cover outstanding borrows.  The caller
/// moves the payout from the contract back to the lender.
pub fn withdraw(
    enabled_flag: Option<bool>,
    position: Option<LenderPosition>,
    pool: Option<LendingPool>,
    amount: i128,
) -> (r: Result<Withdrawn, Failure>)
    ensures
        r == withdraw_result(enabled_flag, position, pool, amount),
        r matches Ok(w) ==> w.pool.total_deposits >= w.pool.total_borrowed,
{
    if amount <= 0 {
        return Err(Failure::Rejected(LendingError::InvalidDepositAmount));
    }
    require_enabled(enabled_flag)?;
    let balance = match position {
        Some(p) => p.deposit,
        None => 0,
    };
    if amount > balance {
        return Err(Failure::Rejected(LendingError::WithdrawalExceedsDeposit));
    }
    let mut updated = match pool {
        Some(p) => p,
        None => {
            return Err(Failure::Rejected(LendingError::PoolNotFound));
        },
    };
    let current = load_or_create_position(position, &updated);
    let earned = claimable_interest(&current, &updated)?;
    let payout = checked_sum(amount, earned)?;
    // Ensure the pool remains solvent after the withdrawal
    let available = checked_difference(updated.total_deposits, updated.total_borrowed)?;
    if payout > available {
        return Err(Failure::Rejected(LendingError::InsufficientPoolLiquidity));
    }
    updated.total_deposits = checked_difference(updated.total_deposits, payout)?;
    updated.total_lender_deposits = checked_difference(updated.total_lender_deposits, amount)?;
    let settled = LenderPosition {
        deposit: current.deposit - amount,
        interest_index: updated.interest_index,
        unclaimed_interest: 0,
    };
    Ok(Withdrawn { position: settled, pool: updated, payout })
}

/// The interest a lender has earned in a pool and not yet withdrawn.
pub fn claimable_interest(position: &LenderPosition, pool: &LendingPool) -> (r: Result<
    i128,
    Failure,
>)
    ensures
        r == (if earned_overflows(*position, *pool) {
            Err(Failure::Overflow)
        } else {
            Ok(earned_of(*position, *pool) as i128)
        }),
{
    let gain = checked_difference(pool.interest_index, position.interest_index)?;
    let credited = scaled_quotient(position.deposit, gain, INTEREST_INDEX_PRECISION)?;
    checked_sum(position.unclaimed_interest, credited)
}

/// A lender's position as stored, or a fresh one at the pool's index.
pub fn load_or_create_position(stored: Option<LenderPosition>, pool: &LendingPool) -> (position:
    LenderPosition)
    ensures
        position == position_or_new(stored, *pool),
{
    match stored {
        Some(position) => position,
        None => LenderPosition {
            deposit: 0,
            interest_index: pool.interest_index,
            unclaimed_interest: 0,
        },
    }
}

/// The plain keys (an address's strkey bytes) that stand for the addresses
/// of a token list, front to back.
pub open spec fn key_list(keys: Seq<Vec<u8>>) -> Seq<Seq<u8>> {
    keys.map_values(|key: Vec<u8>| key@)
}

/// Whether two keys are equal, byte for byte.
pub fn same_key(a: &Vec<u8>, b: &Vec<u8>) -> (same: bool)
    ensures
        same == (a@ == b@),
{
    if a.len() != b.len() {
        return false;
    }
    let mut i: usize = 0;
    while i < a.len()
        invariant
            a@.len() == b@.len(),
            i <= a@.len(),
            forall|j: int| 0 <= j < i ==> a@[j] == b@[j],
        decreases a@.len() - i,
    {
        if a[i] != b[i] {
            return false;
        }
        i = i + 1;
    }
    assert(a@ =~= b@);
    true
}

/// Whether `key` is among `keys`.
pub fn holds_key(keys: &Vec<Vec<u8>>, key: &Vec<u8>) -> (found: bool)
    ensures
        found == key_list(keys@).contains(key@),
{
    let mut i: usize = 0;
    while i < keys.len()
        invariant
            i <= keys@.len(),
            forall|j: int| 0 <= j < i ==> keys@[j]@ != key@,
        decreases keys@.len() - i,
    {
        if same_key(&keys[i], key) {
            assert(key_list(keys@)[i as int] == key@);
            return true;
        }
        i = i + 1;
    }
    assert forall|j: int| 0 <= j < key_list(keys@).len() implies key_list(keys@)[j] != key@ by {
        assert(key_list(keys@)[j] == keys@[j]@);
    }
    false
}

/// Records `token` in a lender's token list (empty when none is stored), so
/// that each token the lender deposits into is listed once, in the order of
/// first deposit.  Addresses are found by their plain keys: `stored_keys`
/// are the keys of the stored list's addresses, in order, and `key` is that
/// of `token`; when the token is appended, its key is appended to
/// `stored_keys` too, so that they stay the keys of the list.  Returns the
/// list to store, or `None` when the token is already listed and nothing
/// needs writing.  A list whose keys are distinct stays so, and ends up
/// holding the token's key exactly once.
pub fn track_lender_token(
    env: &Env,
    stored: Option<soroban_sdk::Vec<Address>>,
    stored_keys: &mut Vec<Vec<u8>>,
    token: Address,
    key: &Vec<u8>,
) -> (r: Option<soroban_sdk::Vec<Address>>)
    ensures
        r is None <==> (stored is Some && key_list(old(stored_keys)@).contains(key@)),
        r matches Some(t) ==> token_list(t) == tokens_of(stored).push(token),
        key_list(final(stored_keys)@) == (if r is None {
            key_list(old(stored_keys)@)
        } else if stored is Some {
            key_list(old(stored_keys)@).push(key@)
        } else {
            seq![key@]
        }),
        key_list(old(stored_keys)@).no_duplicates() ==> {
            &&& key_list(final(stored_keys)@).no_duplicates()
            &&& key_list(final(stored_keys)@).contains(key@)
        },
{
    let listed = holds_key(stored_keys, key);
    let mut tokens = match stored {
        Some(tokens) => {
            if listed {
                return None;
            }
            tokens
        },
        None => {
            stored_keys.clear();
            new_token_list(env)
        },
    };
    push_token(&mut tokens, token);
    let ghost before = key_list(stored_keys@);
    stored_keys.push(key.clone());
    proof {
        assert(key_list(stored_keys@) =~= before.push(key@));
        if before.no_duplicates() && !before.contains(key@) {
            lemma_token_keys_stay_unique(before, key@);
        }
    }
    Some(tokens)
}

/// Returns the current utilisation ratio of a pool in basis points
/// (0 to 10 000 for a pool whose borrows are not negative).
pub fn utilisation_bps(pool: &Option<LendingPool>) -> (r: Result<u32, Failure>)
    ensures
        r == utilisation_result(*pool),
        r matches Ok(u) ==> (pool matches Some(p) && p.total_borrowed >= 0 ==> u <= BPS_DENOM),
{
    let p = match pool {
        Some(p) => p,
        None => {
            return Ok(0);
        },
    };
    if p.total_deposits <= 0 {
        return Ok(0);
    }
    let scaled = checked_product(p.total_borrowed, BPS_DENOM as i128)?;
    let ratio = quotient(scaled, p.total_deposits);
    let capped = if ratio < BPS_DENOM as i128 {
        ratio
    } else {
        BPS_DENOM as i128
    };
    proof {
        if p.total_borrowed >= 0 {
            lemma_div_pos_is_pos(scaled as int, p.total_deposits as int);
            lemma_small_mod(capped as nat, 0x1_0000_0000);
        }
    }
    Ok(truncate_to_u32(capped))
}

/// Refuses when lending has been switched off.
pub fn require_enabled(enabled_flag: Option<bool>) -> (r: Result<(), Failure>)
    ensures
        r == (if lending_enabled(enabled_flag) {
            Ok(())
        } else {
            Err(Failure::Rejected(LendingError::Disabled))
        }),
{
    let enabled = match enabled_flag {
        Some(enabled) => enabled,
        None => true,
    };
    if !enabled {
        return Err(Failure::Rejected(LendingError::Disabled));
    }
    Ok(())
}

/// The pool of `token` as stored, or a fresh empty pool started at `now`.
pub fn load_or_create_pool(stored: Option<LendingPool>, token: Address, now: u64) -> (pool:
    LendingPool)
    ensures
        pool == pool_or_new(stored, token, now),
{
    match stored {
        Some(pool) => pool,
        None => LendingPool {
            token,
            total_deposits: 0,
            total_borrowed: 0,
            total_protocol_fees: 0,
            total_interest_paid: 0,
            last_accrual: now,
            total_lender_deposits: 0,
            interest_index: 0,
        },
    }
}

} // verus!
