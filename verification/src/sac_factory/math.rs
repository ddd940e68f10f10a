//! Overflow-safe arithmetic primitives.
//!
//! Every operation reports `Overflow`, `Underflow` or `DivisionByZero`
//! instead of wrapping or truncating silently, so the engines above never
//! compute with a corrupted value.

use vstd::prelude::*;
use vstd::arithmetic::div_mod::{lemma_div_nonincreasing, lemma_div_pos_is_pos};
use super::errors::Error;
use crate::amm::math::{floor_sqrt, is_floor_sqrt};

verus! {

/// Division as the machine performs it on signed integers: the quotient is
/// rounded towards zero.
pub open spec fn trunc_div(a: int, b: int) -> int {
    if a == 0 {
        0
    } else if a > 0 && b > 0 {
        a / b
    } else if a < 0 && b < 0 {
        (a * -1) / (b * -1)
    } else if a < 0 {
        ((a * -1) / b) * -1
    } else {
        (a / (b * -1)) * -1
    }
}

/// A truncating quotient never grows in magnitude, so it stays inside the
/// 128-bit range whenever the dividend does, except for the lone
/// `i128::MIN / -1` case.
pub proof fn lemma_trunc_div_in_range(a: int, b: int)
    requires
        i128::MIN <= a <= i128::MAX,
        i128::MIN <= b <= i128::MAX,
        b != 0,
        !(a == i128::MIN && b == -1),
    ensures
        i128::MIN <= trunc_div(a, b) <= i128::MAX,
{
    if a == 0 {
    } else if a > 0 && b > 0 {
        lemma_div_pos_is_pos(a, b);
        lemma_div_nonincreasing(a, b);
    } else if a < 0 && b < 0 {
        lemma_div_pos_is_pos(a * -1, b * -1);
        if b == -1 {
            lemma_div_nonincreasing(a * -1, 1);
        } else {
            lemma_div_nonincreasing(a * -1, b * -1);
            assert((a * -1) / (b * -1) <= (a * -1) / 2) by {
                vstd::arithmetic::div_mod::lemma_div_is_ordered_by_denominator(a * -1, 2, b * -1);
            }
            assert((a * -1) / 2 <= i128::MAX);
        }
    } else if a < 0 {
        lemma_div_pos_is_pos(a * -1, b);
        lemma_div_nonincreasing(a * -1, b);
    } else {
        lemma_div_pos_is_pos(a, b * -1);
        lemma_div_nonincreasing(a, b * -1);
    }
}

/// Add with overflow protection.
pub fn safe_add(a: i128, b: i128) -> (r: Result<i128, Error>)
    ensures
        i128::MIN <= a + b <= i128::MAX ==> r == Ok::<i128, Error>((a + b) as i128),
        !(i128::MIN <= a + b <= i128::MAX) ==> r == Err::<i128, Error>(Error::Overflow),
{
    match a.checked_add(b) {
        Some(v) => Ok(v),
        None => Err(Error::Overflow),
    }
}

/// Subtract with underflow protection.
pub fn safe_sub(a: i128, b: i128) -> (r: Result<i128, Error>)
    ensures
        i128::MIN <= a - b <= i128::MAX ==> r == Ok::<i128, Error>((a - b) as i128),
        !(i128::MIN <= a - b <= i128::MAX) ==> r == Err::<i128, Error>(Error::Underflow),
{
    match a.checked_sub(b) {
        Some(v) => Ok(v),
        None => Err(Error::Underflow),
    }
}

/// Multiply with overflow protection.
pub fn safe_mul(a: i128, b: i128) -> (r: Result<i128, Error>)
    ensures
        i128::MIN <= a * b <= i128::MAX ==> r == Ok::<i128, Error>((a * b) as i128),
        !(i128::MIN <= a * b <= i128::MAX) ==> r == Err::<i128, Error>(Error::Overflow),
{
    match a.checked_mul(b) {
        Some(v) => Ok(v),
        None => Err(Error::Overflow),
    }
}

/// Divide with a zero check; the quotient is rounded towards zero.
pub fn safe_div(a: i128, b: i128) -> (r: Result<i128, Error>)
    ensures
        b == 0 ==> r == Err::<i128, Error>(Error::DivisionByZero),
        b != 0 && a == i128::MIN && b == -1 ==> r == Err::<i128, Error>(Error::Overflow),
        b != 0 && !(a == i128::MIN && b == -1) ==> r == Ok::<i128, Error>(
            trunc_div(a as int, b as int) as i128,
        ),
{
    if b == 0 {
        return Err(Error::DivisionByZero);
    }
    proof {
        if !(a == i128::MIN && b == -1) {
            lemma_trunc_div_in_range(a as int, b as int);
        }
    }
    match a.checked_div(b) {
        Some(v) => Ok(v),
        None => Err(Error::Overflow),
    }
}

/// Multiply two numbers and divide by a third: `(a * b) / c`, keeping the
/// full intermediate product so no precision is lost to pre-division.
pub fn mul_div(a: i128, b: i128, c: i128) -> (r: Result<i128, Error>)
    ensures
        !(i128::MIN <= a * b <= i128::MAX) ==> r == Err::<i128, Error>(Error::Overflow),
        i128::MIN <= a * b <= i128::MAX && c == 0 ==> r == Err::<i128, Error>(
            Error::DivisionByZero,
        ),
        i128::MIN <= a * b <= i128::MAX && c != 0 && a * b == i128::MIN && c == -1 ==> r == Err::<
            i128,
            Error,
        >(Error::Overflow),
        i128::MIN <= a * b <= i128::MAX && c != 0 && !(a * b == i128::MIN && c == -1) ==> r
            == Ok::<i128, Error>(trunc_div(a * b, c as int) as i128),
{
    let numerator = match safe_mul(a, b) {
        Ok(v) => v,
        Err(e) => {
            return Err(e);
        },
    };
    safe_div(numerator, c)
}

/// The share of `amount` that `bps` basis points name: `amount * bps / 10000`.
pub fn apply_bps(amount: i128, bps: i128) -> (r: Result<i128, Error>)
    ensures
        !(i128::MIN <= amount * bps <= i128::MAX) ==> r == Err::<i128, Error>(Error::Overflow),
        i128::MIN <= amount * bps <= i128::MAX ==> r == Ok::<i128, Error>(
            trunc_div(amount * bps, 10000) as i128,
        ),
{
    mul_div(amount, bps, 10_000)
}

/// Relative price change from `price_before` to `price_after`, in basis
/// points; negative when the price fell.
pub fn calculate_slippage_bps(price_before: i128, price_after: i128) -> (r: Result<i128, Error>)
    ensures
        !(i128::MIN <= price_after - price_before <= i128::MAX) ==> r == Err::<i128, Error>(
            Error::Underflow,
        ),
        i128::MIN <= price_after - price_before <= i128::MAX && !(i128::MIN <= (price_after
            - price_before) * 10000 <= i128::MAX) ==> r == Err::<i128, Error>(Error::Overflow),
        i128::MIN <= (price_after - price_before) * 10000 <= i128::MAX && price_before == 0 ==> r
            == Err::<i128, Error>(Error::DivisionByZero),
        i128::MIN <= (price_after - price_before) * 10000 <= i128::MAX && price_before != 0 && !((
        price_after - price_before) * 10000 == i128::MIN && price_before == -1) ==> r == Ok::<
            i128,
            Error,
        >(trunc_div((price_after - price_before) * 10000, price_before as int) as i128),
{
    let diff = match safe_sub(price_after, price_before) {
        Ok(v) => v,
        Err(e) => {
            return Err(e);
        },
    };
    mul_div(diff, 10_000, price_before)
}

/// Calculate the integer square root with a bounded Newton iteration,
/// rejecting negative input. Used for initial liquidity calculations.
pub fn sqrt(y: i128) -> (r: Result<i128, Error>)
    ensures
        match r {
            Ok(v) => y >= 0 && is_floor_sqrt(y as int, v as int) && v == floor_sqrt(y as int),
            Err(e) => y < 0 && e == Error::InvalidAmount,
        },
{
    if y < 0 {
        return Err(Error::InvalidAmount);
    }
    if y == 0 {
        proof {
            crate::amm::math::lemma_floor_sqrt_unique(0, 0);
        }
        return Ok(0);
    }
    Ok(crate::amm::math::sqrt(y))
}

} // verus!
