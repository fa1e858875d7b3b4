//! Checked 128-bit arithmetic of token amounts.
//!
//! Amounts are `i128`; an operation whose exact result does not fit aborts the
//! transaction, which these helpers report as [`Failure::Overflow`].

use vstd::arithmetic::div_mod::*;
use vstd::arithmetic::mul::lemma_mul_nonnegative;
use vstd::prelude::*;

use crate::types::Failure;

verus! {

/// Whether an integer is representable as an `i128`.
pub open spec fn fits_i128(x: int) -> bool {
    i128::MIN <= x <= i128::MAX
}

/// Integer division rounding toward zero, as `i128` division does.
pub open spec fn trunc_div(x: int, d: int) -> int {
    if x == 0 {
        0
    } else if x > 0 && d > 0 {
        x / d
    } else if x < 0 && d < 0 {
        (-x) / (-d)
    } else if x < 0 {
        -((-x) / d)
    } else {
        -(x / (-d))
    }
}

/// `x` clamped to the `i128` range, as `i128::saturating_add` leaves a sum.
pub open spec fn saturate_i128(x: int) -> int {
    if x > i128::MAX {
        i128::MAX as int
    } else if x < i128::MIN {
        i128::MIN as int
    } else {
        x
    }
}

/// The value that an `as u32` cast leaves of an integer: its low 32 bits.
pub open spec fn low_u32(x: int) -> int {
    x % 0x1_0000_0000
}

/// The outcome of an `i128` operation whose exact result is `x`.
pub open spec fn checked(x: int) -> Result<i128, Failure> {
    if fits_i128(x) {
        Ok(x as i128)
    } else {
        Err(Failure::Overflow)
    }
}

pub proof fn lemma_trunc_div_fits(x: int, d: int)
    requires
        fits_i128(x),
        d != 0,
        !(x == i128::MIN && d == -1),
    ensures
        fits_i128(trunc_div(x, d)),
{
    if x > 0 && d > 0 {
        lemma_div_pos_is_pos(x, d);
        lemma_div_nonincreasing(x, d);
    } else if x < 0 && d < 0 {
        lemma_div_pos_is_pos(-x, -d);
        if d == -1 {
            assert((-x) / 1 == -x);
        } else {
            lemma_div_is_ordered_by_denominator(-x, 2, -d);
            assert((-x) / 2 <= i128::MAX) by {
                lemma_div_is_ordered(-x, 0x8000_0000_0000_0000_0000_0000_0000_0000, 2);
            }
        }
    } else if x < 0 {
        lemma_div_pos_is_pos(-x, d);
        lemma_div_nonincreasing(-x, d);
    } else if x > 0 {
        lemma_div_pos_is_pos(x, -d);
        lemma_div_nonincreasing(x, -d);
    }
}

/// What is left of `a` after taking out `d` times its quotient rounded
/// toward zero, as `i128`'s `%` leaves it.
pub open spec fn trunc_rem(a: int, d: int) -> int {
    a - trunc_div(a, d) * d
}

/// Whether computing `a * m / d` (rounded toward zero) as
/// `(a / d) * m + (a % d) * m / d` overflows `i128` at some step.
pub open spec fn scaled_quotient_overflows(a: int, m: int, d: int) -> bool {
    ||| !fits_i128(trunc_div(a, d) * m)
    ||| !fits_i128(trunc_rem(a, d) * m)
    ||| !fits_i128(trunc_div(a * m, d))
}

/// Rounding toward zero is odd: `trunc_div(-x, d) == -trunc_div(x, d)`.
proof fn lemma_trunc_div_negate(x: int, d: int)
    requires
        d > 0,
    ensures
        trunc_div(-x, d) == -trunc_div(x, d),
{
}

/// For `a >= 0`, `m >= 0`: `a * m / d` splits at `a / d`.
proof fn lemma_trunc_div_split_nonneg(a: int, m: int, d: int)
    requires
        d > 0,
        a >= 0,
        m >= 0,
    ensures
        trunc_div(a * m, d) == trunc_div(a, d) * m + trunc_div(trunc_rem(a, d) * m, d),
{
    let q = a / d;
    let r = a % d;
    lemma_fundamental_div_mod(a, d);
    lemma_mod_pos_bound(a, d);
    lemma_div_pos_is_pos(a, d);
    assert(trunc_div(a, d) == q);
    assert(trunc_rem(a, d) == r) by (nonlinear_arith)
        requires
            a == d * q + r,
            trunc_rem(a, d) == a - q * d,
    ;
    assert(a * m == r * m + (q * m) * d) by (nonlinear_arith)
        requires
            a == d * q + r,
    ;
    lemma_mul_nonnegative(r, m);
    lemma_mul_nonnegative(a, m);
    lemma_mul_nonnegative(q, m);
    lemma_hoist_over_denominator(r * m, q * m, d as nat);
    assert(trunc_div(a * m, d) == (a * m) / d);
    assert(trunc_div(r * m, d) == (r * m) / d);
}

/// `a * m / d`, rounded toward zero, splits at `a / d`:
/// `(a / d) * m + (a % d) * m / d`, the remainder being smaller than `d`.
pub proof fn lemma_trunc_div_split(a: int, m: int, d: int)
    requires
        d > 0,
    ensures
        trunc_div(a * m, d) == trunc_div(a, d) * m + trunc_div(trunc_rem(a, d) * m, d),
        -d < trunc_rem(a, d) < d,
        a >= 0 ==> 0 <= trunc_div(a, d) * d <= a,
        a < 0 ==> a <= trunc_div(a, d) * d <= 0,
{
    let b = if a >= 0 { a } else { -a };
    let n = if m >= 0 { m } else { -m };
    lemma_trunc_div_split_nonneg(b, n, d);
    lemma_fundamental_div_mod(b, d);
    lemma_mod_pos_bound(b, d);
    lemma_div_pos_is_pos(b, d);
    let qb = b / d;
    let rb = b % d;
    assert(trunc_div(b, d) == qb);
    assert(0 <= qb * d <= b) by (nonlinear_arith)
        requires
            b == d * qb + rb,
            0 <= rb,
            qb >= 0,
            d > 0,
    ;
    lemma_trunc_div_negate(a, d);
    lemma_trunc_div_negate(b, d);
    assert(trunc_rem(a, d) == if a >= 0 { trunc_rem(b, d) } else { -trunc_rem(b, d) }) by (nonlinear_arith)
        requires
            trunc_rem(a, d) == a - trunc_div(a, d) * d,
            trunc_rem(b, d) == b - trunc_div(b, d) * d,
            b == if a >= 0 { a } else { -a },
            trunc_div(a, d) == if a >= 0 { trunc_div(b, d) } else { -trunc_div(b, d) },
    ;
    assert(trunc_rem(b, d) == rb) by (nonlinear_arith)
        requires
            b == d * qb + rb,
            trunc_rem(b, d) == b - qb * d,
    ;
    assert(trunc_div(b * n, d) == qb * n + trunc_div(rb * n, d));
    let ta = trunc_div(a, d);
    let ra = trunc_rem(a, d);
    if (a >= 0) == (m >= 0) {
        assert(a * m == b * n && ra * m == rb * n && ta * m == qb * n) by (nonlinear_arith)
            requires
                (a == b && m == n && ra == rb && ta == qb) || (a == -b && m == -n && ra == -rb
                    && ta == -qb),
        ;
    } else {
        assert(a * m == -(b * n) && ra * m == -(rb * n) && ta * m == -(qb * n)) by (nonlinear_arith)
            requires
                (a == b && m == -n && ra == rb && ta == qb) || (a == -b && m == n && ra == -rb
                    && ta == -qb),
        ;
        lemma_trunc_div_negate(b * n, d);
        lemma_trunc_div_negate(rb * n, d);
    }
}

/// `a * m / d` rounded toward zero, computed as
/// `(a / d) * m + (a % d) * m / d` so that only a result (or a part of one)
/// that does not fit overflows; or an overflow.
pub fn scaled_quotient(a: i128, m: i128, d: i128) -> (r: Result<i128, Failure>)
    requires
        d > 0,
    ensures
        r == (if scaled_quotient_overflows(a as int, m as int, d as int) {
            Err(Failure::Overflow)
        } else {
            Ok(trunc_div(a * m, d as int) as i128)
        }),
{
    proof {
        lemma_trunc_div_split(a as int, m as int, d as int);
        lemma_trunc_div_fits(a as int, d as int);
    }
    let q = quotient(a, d);
    let rest = a - q * d;
    assert(rest == trunc_rem(a as int, d as int));
    let whole = checked_product(q, m)?;
    let scaled_rest = checked_product(rest, m)?;
    proof {
        lemma_trunc_div_fits(scaled_rest as int, d as int);
    }
    let part = quotient(scaled_rest, d);
    checked_sum(whole, part)
}

/// `a + b`, or an overflow.
pub fn checked_sum(a: i128, b: i128) -> (r: Result<i128, Failure>)
    ensures
        r == checked(a + b),
{
    match a.checked_add(b) {
        Some(v) => Ok(v),
        None => Err(Failure::Overflow),
    }
}

/// `a - b`, or an overflow.
pub fn checked_difference(a: i128, b: i128) -> (r: Result<i128, Failure>)
    ensures
        r == checked(a - b),
{
    match a.checked_sub(b) {
        Some(v) => Ok(v),
        None => Err(Failure::Overflow),
    }
}

/// `a * b`, or an overflow.
pub fn checked_product(a: i128, b: i128) -> (r: Result<i128, Failure>)
    ensures
        r == checked(a * b),
{
    match a.checked_mul(b) {
        Some(v) => Ok(v),
        None => Err(Failure::Overflow),
    }
}

/// `x / d` rounded toward zero.
pub fn quotient(x: i128, d: i128) -> (r: i128)
    requires
        d != 0,
        !(x == i128::MIN && d == -1),
    ensures
        r == trunc_div(x as int, d as int),
{
    proof {
        lemma_trunc_div_fits(x as int, d as int);
    }
    x.checked_div(d).unwrap()
}

/// `a + b` clamped to the `i128` range.
pub fn saturating_sum(a: i128, b: i128) -> (r: i128)
    ensures
        r == saturate_i128(a + b),
{
    match a.checked_add(b) {
        Some(v) => v,
        None => if b > 0 {
            i128::MAX
        } else {
            i128::MIN
        },
    }
}

/// The low 32 bits of `x`, as `x as u32` keeps them.
pub fn truncate_to_u32(x: i128) -> (r: u32)
    ensures
        r == low_u32(x as int),
{
    proof {
        lemma_mod_bound(x as int, 0x1_0000_0000);
    }
    let m = x.checked_rem_euclid(0x1_0000_0000).unwrap();
    m as u32
}

} // verus!
