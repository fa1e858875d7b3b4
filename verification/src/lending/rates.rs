//! Interest-rate model for the lending protocol.
//!
//! Uses a utilisation model:
//!
//! ```text
//! rate = base_rate + utilisation * utilisation_multiplier
//! ```
//!
//! where `utilisation = total_borrowed / total_deposits` (clamped to [0, 1]).
//! All rates are expressed in basis points per year.

use vstd::arithmetic::div_mod::*;
use vstd::arithmetic::mul::*;
use vstd::prelude::*;

use super::arith::{fits_i128, trunc_div};
use super::{BPS_DENOM, SECONDS_PER_YEAR};
use crate::types::LendingConfig;

verus! {

/// Utilisation in basis points of a pool with positive deposits:
/// `total_borrowed * BPS_DENOM / total_deposits` rounded toward zero and
/// capped at `BPS_DENOM`.
pub open spec fn utilisation_of(total_deposits: int, total_borrowed: int) -> int {
    let u = trunc_div(total_borrowed * BPS_DENOM, total_deposits);
    if u < BPS_DENOM {
        u
    } else {
        BPS_DENOM as int
    }
}

/// Whether computing the utilisation of a pool with borrows overflows `i128`.
pub open spec fn rate_overflows(total_deposits: int, total_borrowed: int) -> bool {
    total_deposits > 0 && total_borrowed > 0 && !fits_i128(total_borrowed * BPS_DENOM)
}

/// The annual rate in basis points: the base rate when the pool has no
/// deposits or no borrows, else the base rate plus `utilisation / BPS_DENOM`
/// of the multiplier, saturating at `u32::MAX`.
pub open spec fn rate_of(total_deposits: int, total_borrowed: int, config: LendingConfig) -> int {
    if total_deposits <= 0 || total_borrowed <= 0 {
        config.base_rate_bps as int
    } else {
        let extra = utilisation_of(total_deposits, total_borrowed)
            * config.utilisation_multiplier_bps / BPS_DENOM as int;
        if config.base_rate_bps + extra > u32::MAX {
            u32::MAX as int
        } else {
            config.base_rate_bps + extra
        }
    }
}

/// The divisor that turns `principal * rate_bps * seconds` into an amount.
pub open spec fn interest_divisor() -> int {
    BPS_DENOM as int * SECONDS_PER_YEAR as int
}

/// Whether `principal * rate_bps * elapsed_seconds` overflows `i128` where
/// it is computed.
pub open spec fn interest_overflows(principal: int, rate_bps: int, elapsed_seconds: int) -> bool {
    principal > 0 && rate_bps != 0 && elapsed_seconds != 0 && !fits_i128(
        principal * rate_bps * elapsed_seconds,
    )
}

/// Interest on `principal` over `elapsed_seconds` at `rate_bps` per year:
/// `principal * rate_bps * elapsed_seconds / (BPS_DENOM * SECONDS_PER_YEAR)`
/// rounded down, and zero when any of the three is not positive.
pub open spec fn interest_of(principal: int, rate_bps: int, elapsed_seconds: int) -> int {
    if principal <= 0 || rate_bps == 0 || elapsed_seconds == 0 {
        0
    } else {
        principal * rate_bps * elapsed_seconds / interest_divisor()
    }
}

/// Computes the current annual interest rate in basis points for a pool.
///
/// Returns `base_rate_bps` when the pool is empty or has no borrows.
pub fn current_rate_bps(total_deposits: i128, total_borrowed: i128, config: &LendingConfig) -> (r:
    u32)
    requires
        !rate_overflows(total_deposits as int, total_borrowed as int),
    ensures
        r == rate_of(total_deposits as int, total_borrowed as int, *config),
        config.base_rate_bps <= r,
        r <= config.base_rate_bps + config.utilisation_multiplier_bps,
{
    if total_deposits <= 0 || total_borrowed <= 0 {
        return config.base_rate_bps;
    }
    // utilisation in bps (0 to 10 000)

    let ratio = total_borrowed * (BPS_DENOM as i128) / total_deposits;
    proof {
        lemma_div_pos_is_pos(total_borrowed * BPS_DENOM, total_deposits as int);
    }
    let utilisation_bps: u32 = if ratio < BPS_DENOM as i128 {
        ratio as u32
    } else {
        BPS_DENOM
    };
    let multiplier = config.utilisation_multiplier_bps;
    proof {
        lemma_extra_bounded(utilisation_bps as int, multiplier as int);
    }
    // rate = base + utilisation_bps / BPS_DENOM * multiplier
    let extra = (utilisation_bps as u64 * multiplier as u64 / BPS_DENOM as u64) as u32;
    config.base_rate_bps.saturating_add(extra)
}

/// For `0 <= u <= BPS_DENOM`, the share `u / BPS_DENOM` of `m` lies in `[0, m]`.
proof fn lemma_extra_bounded(u: int, m: int)
    requires
        0 <= u <= BPS_DENOM,
        0 <= m <= u32::MAX,
    ensures
        0 <= u * m <= BPS_DENOM * m,
        u * m <= u64::MAX,
        0 <= u * m / BPS_DENOM as int <= m,
{
    lemma_mul_inequality(u, BPS_DENOM as int, m);
    lemma_mul_nonnegative(u, m);
    lemma_div_pos_is_pos(u * m, BPS_DENOM as int);
    lemma_div_is_ordered(u * m, BPS_DENOM * m, BPS_DENOM as int);
    lemma_div_multiples_vanish(m, BPS_DENOM as int);
}

/// Computes the interest accrued on `principal` over `elapsed_seconds` at
/// `rate_bps` per year.
///
/// `interest = principal * rate_bps * elapsed_seconds / (BPS_DENOM * SECONDS_PER_YEAR)`
pub fn accrue_interest(principal: i128, rate_bps: u32, elapsed_seconds: u64) -> (r: i128)
    requires
        !interest_overflows(principal as int, rate_bps as int, elapsed_seconds as int),
    ensures
        r == interest_of(principal as int, rate_bps as int, elapsed_seconds as int),
        r >= 0,
{
    if principal <= 0 || rate_bps == 0 || elapsed_seconds == 0 {
        return 0;
    }
    proof {
        lemma_partial_product_bound(principal as int, rate_bps as int, elapsed_seconds as int);
        lemma_div_pos_is_pos(principal * rate_bps * elapsed_seconds, interest_divisor());
    }
    principal * rate_bps as i128 * elapsed_seconds as i128 / (BPS_DENOM as i128
        * SECONDS_PER_YEAR as i128)
}

/// A positive product only grows when multiplied by a positive integer.
pub proof fn lemma_partial_product_bound(p: int, r: int, t: int)
    requires
        p > 0,
        r > 0,
        t > 0,
    ensures
        0 < p * r <= p * r * t,
        p * r * t > 0,
{
    lemma_mul_strictly_positive(p, r);
    lemma_mul_increases(t, p * r);
    lemma_mul_is_commutative(t, p * r);
}

/// The rate never falls as more of the same pool is borrowed: for fixed
/// deposits, a larger `total_borrowed` gives a rate at least as high.
pub proof fn lemma_rate_monotone_in_borrowed(
    total_deposits: int,
    borrowed_before: int,
    borrowed_after: int,
    config: LendingConfig,
)
    requires
        borrowed_before <= borrowed_after,
    ensures
        rate_of(total_deposits, borrowed_before, config) <= rate_of(
            total_deposits,
            borrowed_after,
            config,
        ),
{
    if total_deposits > 0 && borrowed_after > 0 {
        let m = config.utilisation_multiplier_bps as int;
        let u2 = utilisation_of(total_deposits, borrowed_after);
        lemma_div_pos_is_pos(borrowed_after * BPS_DENOM, total_deposits);
        lemma_extra_bounded(u2, m);
        if borrowed_before > 0 {
            let u1 = utilisation_of(total_deposits, borrowed_before);
            lemma_div_pos_is_pos(borrowed_before * BPS_DENOM, total_deposits);
            lemma_mul_inequality(borrowed_before, borrowed_after, BPS_DENOM as int);
            lemma_div_is_ordered(
                borrowed_before * BPS_DENOM,
                borrowed_after * BPS_DENOM,
                total_deposits,
            );
            lemma_extra_bounded(u1, m);
            lemma_mul_inequality(u1, u2, m);
            lemma_div_is_ordered(u1 * m, u2 * m, BPS_DENOM as int);
        }
    }
}

/// The rate never rises as deposits grow: for fixed borrows, a pool with
/// more deposits is at most as utilised and prices at most as high.
pub proof fn lemma_rate_falls_as_deposits_grow(
    deposits_before: int,
    deposits_after: int,
    total_borrowed: int,
    config: LendingConfig,
)
    requires
        0 < deposits_before <= deposits_after,
    ensures
        rate_of(deposits_after, total_borrowed, config) <= rate_of(
            deposits_before,
            total_borrowed,
            config,
        ),
{
    if total_borrowed > 0 {
        let m = config.utilisation_multiplier_bps as int;
        let scaled = total_borrowed * BPS_DENOM;
        let u1 = utilisation_of(deposits_before, total_borrowed);
        let u2 = utilisation_of(deposits_after, total_borrowed);
        lemma_div_pos_is_pos(scaled, deposits_before);
        lemma_div_pos_is_pos(scaled, deposits_after);
        lemma_div_is_ordered_by_denominator(scaled, deposits_before, deposits_after);
        lemma_extra_bounded(u1, m);
        lemma_extra_bounded(u2, m);
        lemma_mul_inequality(u2, u1, m);
        lemma_div_is_ordered(u2 * m, u1 * m, BPS_DENOM as int);
    }
}

/// Interest never falls as time passes: over a longer period the same
/// principal at the same rate accrues at least as much.
pub proof fn lemma_interest_monotone_in_time(
    principal: int,
    rate_bps: int,
    elapsed_before: int,
    elapsed_after: int,
)
    requires
        rate_bps >= 0,
        0 <= elapsed_before <= elapsed_after,
    ensures
        0 <= interest_of(principal, rate_bps, elapsed_before) <= interest_of(
            principal,
            rate_bps,
            elapsed_after,
        ),
{
    if principal > 0 && rate_bps > 0 && elapsed_after > 0 {
        let pr = principal * rate_bps;
        lemma_mul_strictly_positive(principal, rate_bps);
        lemma_mul_inequality(elapsed_before, elapsed_after, pr);
        lemma_mul_is_commutative(pr, elapsed_before);
        lemma_mul_is_commutative(pr, elapsed_after);
        lemma_mul_nonnegative(pr, elapsed_before);
        lemma_div_pos_is_pos(pr * elapsed_before, interest_divisor());
        lemma_div_is_ordered(pr * elapsed_before, pr * elapsed_after, interest_divisor());
    }
}

/// Accruing in two steps never charges more than accruing once over the
/// whole period: each step rounds down on its own.
pub proof fn lemma_interest_split_never_exceeds_whole(
    principal: int,
    rate_bps: int,
    first_seconds: int,
    second_seconds: int,
)
    requires
        rate_bps >= 0,
        first_seconds >= 0,
        second_seconds >= 0,
    ensures
        interest_of(principal, rate_bps, first_seconds) + interest_of(
            principal,
            rate_bps,
            second_seconds,
        ) <= interest_of(principal, rate_bps, first_seconds + second_seconds),
{
    if principal > 0 && rate_bps > 0 && first_seconds > 0 && second_seconds > 0 {
        let pr = principal * rate_bps;
        let d = interest_divisor();
        let a = pr * first_seconds;
        let b = pr * second_seconds;
        lemma_mul_is_distributive_add(pr, first_seconds, second_seconds);
        lemma_fundamental_div_mod(a, d);
        lemma_fundamental_div_mod(b, d);
        lemma_mod_pos_bound(a, d);
        lemma_mod_pos_bound(b, d);
        lemma_mul_is_distributive_add(d, a / d, b / d);
        lemma_div_is_ordered(d * (a / d + b / d), a + b, d);
        lemma_div_multiples_vanish(a / d + b / d, d);
    }
}

/// Splitting a period in two loses less than one unit of interest: the
/// interest over the whole period is at most one more than the sum of the
/// interest over its two parts.
pub proof fn lemma_interest_split_loses_under_one(
    principal: int,
    rate_bps: int,
    first_seconds: int,
    second_seconds: int,
)
    requires
        rate_bps >= 0,
        first_seconds >= 0,
        second_seconds >= 0,
    ensures
        interest_of(principal, rate_bps, first_seconds + second_seconds) <= interest_of(
            principal,
            rate_bps,
            first_seconds,
        ) + interest_of(principal, rate_bps, second_seconds) + 1,
{
    if principal > 0 && rate_bps > 0 && first_seconds > 0 && second_seconds > 0 {
        let pr = principal * rate_bps;
        let d = interest_divisor();
        let a = pr * first_seconds;
        let b = pr * second_seconds;
        lemma_mul_is_distributive_add(pr, first_seconds, second_seconds);
        lemma_fundamental_div_mod(a, d);
        lemma_fundamental_div_mod(b, d);
        lemma_fundamental_div_mod(a + b, d);
        lemma_mod_pos_bound(a, d);
        lemma_mod_pos_bound(b, d);
        lemma_mul_strictly_positive(principal, rate_bps);
        lemma_mul_strictly_positive(pr, first_seconds);
        lemma_mul_strictly_positive(pr, second_seconds);
        lemma_mod_pos_bound(a + b, d);
        let qa = a / d;
        let qb = b / d;
        let q = (a + b) / d;
        assert(q <= qa + qb + 1) by (nonlinear_arith)
            requires
                d > 0,
                a == d * qa + a % d,
                b == d * qb + b % d,
                a + b == d * q + (a + b) % d,
                0 <= a % d < d,
                0 <= b % d < d,
                0 <= (a + b) % d < d,
        {
            if q >= qa + qb + 2 {
                assert(d * q >= d * (qa + qb + 2));
            }
        }
    }
}

/// Interest never falls as the principal grows (same rate and period).
pub proof fn lemma_interest_monotone_in_principal(
    smaller: int,
    larger: int,
    rate_bps: int,
    elapsed_seconds: int,
)
    requires
        smaller <= larger,
        rate_bps >= 0,
        elapsed_seconds >= 0,
    ensures
        interest_of(smaller, rate_bps, elapsed_seconds) <= interest_of(
            larger,
            rate_bps,
            elapsed_seconds,
        ),
{
    if larger > 0 && rate_bps > 0 && elapsed_seconds > 0 {
        let rt = rate_bps * elapsed_seconds;
        lemma_mul_strictly_positive(rate_bps, elapsed_seconds);
        lemma_mul_is_associative(larger, rate_bps, elapsed_seconds);
        lemma_mul_strictly_positive(larger, rt);
        lemma_div_pos_is_pos(larger * rate_bps * elapsed_seconds, interest_divisor());
        if smaller > 0 {
            lemma_mul_is_associative(smaller, rate_bps, elapsed_seconds);
            lemma_mul_inequality(smaller, larger, rt);
            lemma_div_is_ordered(
                smaller * rate_bps * elapsed_seconds,
                larger * rate_bps * elapsed_seconds,
                interest_divisor(),
            );
        }
    }
}

/// Interest never falls as the rate grows (same principal and period).
pub proof fn lemma_interest_monotone_in_rate(
    principal: int,
    lower_rate: int,
    higher_rate: int,
    elapsed_seconds: int,
)
    requires
        0 <= lower_rate <= higher_rate,
        elapsed_seconds >= 0,
    ensures
        interest_of(principal, lower_rate, elapsed_seconds) <= interest_of(
            principal,
            higher_rate,
            elapsed_seconds,
        ),
{
    if principal > 0 && higher_rate > 0 && elapsed_seconds > 0 {
        lemma_mul_strictly_positive(principal, higher_rate);
        lemma_mul_strictly_positive(principal * higher_rate, elapsed_seconds);
        lemma_div_pos_is_pos(principal * higher_rate * elapsed_seconds, interest_divisor());
        if lower_rate > 0 {
            lemma_mul_inequality(lower_rate, higher_rate, principal);
            lemma_mul_is_commutative(lower_rate, principal);
            lemma_mul_is_commutative(higher_rate, principal);
            lemma_mul_inequality(principal * lower_rate, principal * higher_rate, elapsed_seconds);
            lemma_div_is_ordered(
                principal * lower_rate * elapsed_seconds,
                principal * higher_rate * elapsed_seconds,
                interest_divisor(),
            );
        }
    }
}

/// Over exactly one year a loan accrues `principal * rate_bps / BPS_DENOM`,
/// rounded down: the rate is annual.
pub proof fn lemma_interest_over_one_year(principal: int, rate_bps: int)
    requires
        principal > 0,
        rate_bps > 0,
    ensures
        interest_of(principal, rate_bps, SECONDS_PER_YEAR as int) == principal * rate_bps
            / BPS_DENOM as int,
{
    let y = SECONDS_PER_YEAR as int;
    let b = BPS_DENOM as int;
    lemma_div_denominator(principal * rate_bps * y, y, b);
    lemma_mul_is_commutative(y, b);
    lemma_div_multiples_vanish(principal * rate_bps, y);
    lemma_mul_is_commutative(principal * rate_bps, y);
}

} // verus!
