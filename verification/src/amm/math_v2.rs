//! Pair pricing math with overflow protection and a configurable fee.
//!
//! Every function returns a typed failure instead of panicking: arithmetic
//! that would leave the 128-bit range reports `Overflow`, and invalid inputs
//! report the specific rejection, so a caller can tell economic rejections
//! from structural faults.

use vstd::prelude::*;
use vstd::arithmetic::div_mod::{
    lemma_div_nonincreasing, lemma_div_pos_is_pos, lemma_mod_multiples_basic,
};
use vstd::arithmetic::mul::lemma_mul_nonnegative;
use super::errors::Error;
use super::math::{amount_in_value, amount_out_value, is_floor_sqrt, quote_value};

verus! {

/// Fee applied when the caller passes no explicit fee, in basis points.
pub const DEFAULT_FEE_BPS: i128 = 30;

pub const FEE_DENOMINATOR: i128 = 10_000;

/// Largest tolerated price impact when the caller passes no explicit
/// ceiling: 500 bps = 5%.
pub const MAX_PRICE_IMPACT_BPS: i128 = 500;

/// The fee a call works with: the explicit one, or the default.
pub open spec fn fee_of(fee_bps: Option<i128>) -> int {
    match fee_bps {
        Some(f) => f as int,
        None => 30,
    }
}

/// The intermediate products of the exact-input formula all fit in 128 bits.
pub open spec fn amount_out_fits(
    amount_in: int,
    reserve_in: int,
    reserve_out: int,
    fee_bps: int,
) -> bool {
    &&& amount_in * (10000 - fee_bps) <= i128::MAX
    &&& amount_in * (10000 - fee_bps) * reserve_out <= i128::MAX
    &&& reserve_in * 10000 <= i128::MAX
    &&& reserve_in * 10000 + amount_in * (10000 - fee_bps) <= i128::MAX
}

/// The intermediate products of the exact-output formula all fit in 128 bits.
pub open spec fn amount_in_fits(
    amount_out: int,
    reserve_in: int,
    reserve_out: int,
    fee_bps: int,
) -> bool {
    &&& reserve_in * amount_out <= i128::MAX
    &&& reserve_in * amount_out * 10000 <= i128::MAX
    &&& (reserve_out - amount_out) * (10000 - fee_bps) <= i128::MAX
}

/// A quotient of a non-negative dividend by a positive divisor is
/// non-negative and no larger than the dividend.
proof fn lemma_div_bounds(n: int, d: int)
    requires
        n >= 0,
        d >= 1,
    ensures
        0 <= n / d <= n,
{
    lemma_div_pos_is_pos(n, d);
    lemma_div_nonincreasing(n, d);
}

/// Calculate the integer square root, rejecting negative input.
pub fn sqrt(y: i128) -> (r: Result<i128, Error>)
    ensures
        match r {
            Ok(v) => y >= 0 && is_floor_sqrt(y as int, v as int),
            Err(e) => y < 0 && e == Error::InvalidAmount,
        },
{
    if y < 0 {
        return Err(Error::InvalidAmount);
    }
    Ok(super::math::sqrt(y))
}

/// Calculate the equivalent amount of token B for `amount_a` of token A at
/// the current reserve ratio, with overflow protection.
pub fn quote(amount_a: i128, reserve_a: i128, reserve_b: i128) -> (r: Result<i128, Error>)
    ensures
        amount_a <= 0 ==> r == Err::<i128, Error>(Error::InsufficientInputAmount),
        amount_a > 0 && (reserve_a <= 0 || reserve_b <= 0) ==> r == Err::<i128, Error>(
            Error::InsufficientLiquidity,
        ),
        amount_a > 0 && reserve_a > 0 && reserve_b > 0 && amount_a * reserve_b > i128::MAX ==> r
            == Err::<i128, Error>(Error::Overflow),
        amount_a > 0 && reserve_a > 0 && reserve_b > 0 && amount_a * reserve_b <= i128::MAX ==> r
            == Ok::<i128, Error>(
            quote_value(amount_a as int, reserve_a as int, reserve_b as int) as i128,
        ),
{
    if amount_a <= 0 {
        return Err(Error::InsufficientInputAmount);
    }
    if reserve_a <= 0 || reserve_b <= 0 {
        return Err(Error::InsufficientLiquidity);
    }

    proof {
        lemma_mul_nonnegative(amount_a as int, reserve_b as int);
    }
    let product = match amount_a.checked_mul(reserve_b) {
        Some(p) => p,
        None => {
            return Err(Error::Overflow);
        },
    };
    proof {
        lemma_div_bounds(product as int, reserve_a as int);
    }
    match product.checked_div(reserve_a) {
        Some(q) => Ok(q),
        None => Err(Error::DivisionByZero),
    }
}

/// Calculate the output amount of an exact-input swap, with overflow
/// protection and a configurable fee.
pub fn get_amount_out(
    amount_in: i128,
    reserve_in: i128,
    reserve_out: i128,
    fee_bps: Option<i128>,
) -> (r: Result<i128, Error>)
    requires
        0 <= fee_of(fee_bps) <= 10000,
    ensures
        amount_in <= 0 ==> r == Err::<i128, Error>(Error::InsufficientInputAmount),
        amount_in > 0 && (reserve_in <= 0 || reserve_out <= 0) ==> r == Err::<i128, Error>(
            Error::InsufficientLiquidity,
        ),
        amount_in > 0 && reserve_in > 0 && reserve_out > 0 && !amount_out_fits(
            amount_in as int,
            reserve_in as int,
            reserve_out as int,
            fee_of(fee_bps),
        ) ==> r == Err::<i128, Error>(Error::Overflow),
        amount_in > 0 && reserve_in > 0 && reserve_out > 0 && amount_out_fits(
            amount_in as int,
            reserve_in as int,
            reserve_out as int,
            fee_of(fee_bps),
        ) ==> r == Ok::<i128, Error>(
            amount_out_value(
                amount_in as int,
                reserve_in as int,
                reserve_out as int,
                fee_of(fee_bps),
            ) as i128,
        ),
{
    if amount_in <= 0 {
        return Err(Error::InsufficientInputAmount);
    }
    if reserve_in <= 0 || reserve_out <= 0 {
        return Err(Error::InsufficientLiquidity);
    }

    let fee = match fee_bps {
        Some(f) => f,
        None => DEFAULT_FEE_BPS,
    };
    let fee_multiplier = FEE_DENOMINATOR - fee;

    proof {
        lemma_mul_nonnegative(amount_in as int, (10000 - fee_of(fee_bps)));
    }
    let amount_in_with_fee = match amount_in.checked_mul(fee_multiplier) {
        Some(v) => v,
        None => {
            return Err(Error::Overflow);
        },
    };
    proof {
        lemma_mul_nonnegative(amount_in_with_fee as int, reserve_out as int);
    }
    let numerator = match amount_in_with_fee.checked_mul(reserve_out) {
        Some(v) => v,
        None => {
            return Err(Error::Overflow);
        },
    };
    let reserve_product = match reserve_in.checked_mul(FEE_DENOMINATOR) {
        Some(v) => v,
        None => {
            return Err(Error::Overflow);
        },
    };
    let denominator = match reserve_product.checked_add(amount_in_with_fee) {
        Some(v) => v,
        None => {
            return Err(Error::Overflow);
        },
    };
    proof {
        lemma_div_bounds(numerator as int, denominator as int);
    }
    match numerator.checked_div(denominator) {
        Some(q) => Ok(q),
        None => Err(Error::DivisionByZero),
    }
}

/// Calculate the input amount an exact-output swap needs, with overflow
/// protection and a configurable fee. The extra unit guarantees the input
/// covers the output.
pub fn get_amount_in(
    amount_out: i128,
    reserve_in: i128,
    reserve_out: i128,
    fee_bps: Option<i128>,
) -> (r: Result<i128, Error>)
    requires
        0 <= fee_of(fee_bps) <= 10000,
    ensures
        amount_out <= 0 ==> r == Err::<i128, Error>(Error::InsufficientOutputAmount),
        amount_out > 0 && (reserve_in <= 0 || reserve_out <= 0) ==> r == Err::<i128, Error>(
            Error::InsufficientLiquidity,
        ),
        amount_out > 0 && reserve_in > 0 && reserve_out > 0 && amount_out >= reserve_out ==> r
            == Err::<i128, Error>(Error::InsufficientReserve),
        amount_out > 0 && reserve_in > 0 && 0 < amount_out < reserve_out && !amount_in_fits(
            amount_out as int,
            reserve_in as int,
            reserve_out as int,
            fee_of(fee_bps),
        ) ==> r == Err::<i128, Error>(Error::Overflow),
        amount_out > 0 && reserve_in > 0 && 0 < amount_out < reserve_out && amount_in_fits(
            amount_out as int,
            reserve_in as int,
            reserve_out as int,
            fee_of(fee_bps),
        ) && fee_of(fee_bps) == 10000 ==> r == Err::<i128, Error>(Error::DivisionByZero),
        amount_out > 0 && reserve_in > 0 && 0 < amount_out < reserve_out && amount_in_fits(
            amount_out as int,
            reserve_in as int,
            reserve_out as int,
            fee_of(fee_bps),
        ) && fee_of(fee_bps) < 10000 ==> r == Ok::<i128, Error>(
            amount_in_value(
                amount_out as int,
                reserve_in as int,
                reserve_out as int,
                fee_of(fee_bps),
            ) as i128,
        ),
{
    if amount_out <= 0 {
        return Err(Error::InsufficientOutputAmount);
    }
    if reserve_in <= 0 || reserve_out <= 0 {
        return Err(Error::InsufficientLiquidity);
    }
    if amount_out >= reserve_out {
        return Err(Error::InsufficientReserve);
    }

    let fee = match fee_bps {
        Some(f) => f,
        None => DEFAULT_FEE_BPS,
    };
    let fee_multiplier = FEE_DENOMINATOR - fee;

    proof {
        lemma_mul_nonnegative(reserve_in as int, amount_out as int);
    }
    let reserve_product = match reserve_in.checked_mul(amount_out) {
        Some(v) => v,
        None => {
            return Err(Error::Overflow);
        },
    };
    proof {
        lemma_mul_nonnegative(reserve_product as int, 10000);
    }
    let numerator = match reserve_product.checked_mul(FEE_DENOMINATOR) {
        Some(v) => v,
        None => {
            return Err(Error::Overflow);
        },
    };
    proof {
        lemma_mul_nonnegative((reserve_out - amount_out) as int, (10000 - fee_of(fee_bps)));
    }
    let denominator = match (reserve_out - amount_out).checked_mul(fee_multiplier) {
        Some(v) => v,
        None => {
            return Err(Error::Overflow);
        },
    };
    proof {
        if fee_of(fee_bps) < 10000 {
            assert(denominator as int >= 1) by (nonlinear_arith)
                requires
                    denominator as int == (reserve_out - amount_out) as int * (10000 - fee_of(
                        fee_bps,
                    )),
                    reserve_out - amount_out >= 1,
                    10000 - fee_of(fee_bps) >= 1,
            ;
            lemma_div_bounds(numerator as int, denominator as int);
        }
    }
    let base_amount = match numerator.checked_div(denominator) {
        Some(q) => q,
        None => {
            return Err(Error::DivisionByZero);
        },
    };
    proof {
        // The quotient never reaches i128::MAX: the dividend is a multiple
        // of 10000 and i128::MAX is not.
        lemma_mod_multiples_basic(reserve_product as int, 10000);
        assert(i128::MAX as int % 10000 == 5727);
        if base_amount as int == i128::MAX {
            assert(numerator as int == i128::MAX);
        }
    }
    match base_amount.checked_add(1) {
        Some(v) => Ok(v),
        None => Err(Error::Overflow),
    }
}

/// Spot price before the trade, fixed-point scaled by 10000.
pub open spec fn old_price_value(reserve_in: int, reserve_out: int) -> int {
    reserve_out * 10000 / reserve_in
}

/// Spot price after the trade, fixed-point scaled by 10000.
pub open spec fn new_price_value(
    amount_in: int,
    reserve_in: int,
    reserve_out: int,
    fee_bps: int,
) -> int {
    (reserve_out - amount_out_value(amount_in, reserve_in, reserve_out, fee_bps)) * 10000 / (
    reserve_in + amount_in)
}

/// Absolute change of the scaled spot price caused by the trade, as a share
/// of the price before, in basis points.
pub open spec fn price_impact_value(
    amount_in: int,
    reserve_in: int,
    reserve_out: int,
    fee_bps: int,
) -> int {
    let old_price = old_price_value(reserve_in, reserve_out);
    let new_price = new_price_value(amount_in, reserve_in, reserve_out, fee_bps);
    let diff = if old_price > new_price {
        old_price - new_price
    } else {
        new_price - old_price
    };
    diff * 10000 / old_price
}

/// The intermediate products of the price-impact formula all fit in 128
/// bits.
pub open spec fn price_impact_fits(
    amount_in: int,
    reserve_in: int,
    reserve_out: int,
    fee_bps: int,
) -> bool {
    let out = amount_out_value(amount_in, reserve_in, reserve_out, fee_bps);
    let old_price = old_price_value(reserve_in, reserve_out);
    let new_price = new_price_value(amount_in, reserve_in, reserve_out, fee_bps);
    let diff = if old_price > new_price {
        old_price - new_price
    } else {
        new_price - old_price
    };
    &&& amount_out_fits(amount_in, reserve_in, reserve_out, fee_bps)
    &&& reserve_in + amount_in <= i128::MAX
    &&& reserve_out * 10000 <= i128::MAX
    &&& (reserve_out - out) * 10000 <= i128::MAX
    &&& diff * 10000 <= i128::MAX
}

/// Calculate the price impact of an exact-input swap at the default fee, in
/// basis points.
pub fn calculate_price_impact(amount_in: i128, reserve_in: i128, reserve_out: i128) -> (r: Result<
    i128,
    Error,
>)
    ensures
        reserve_in == 0 || reserve_out == 0 ==> r == Err::<i128, Error>(
            Error::InsufficientLiquidity,
        ),
        reserve_in != 0 && reserve_out != 0 && amount_in <= 0 ==> r == Err::<i128, Error>(
            Error::InsufficientInputAmount,
        ),
        amount_in > 0 && (reserve_in < 0 || reserve_out < 0) ==> r == Err::<i128, Error>(
            Error::InsufficientLiquidity,
        ),
        amount_in > 0 && reserve_in > 0 && reserve_out > 0 && !price_impact_fits(
            amount_in as int,
            reserve_in as int,
            reserve_out as int,
            30,
        ) ==> r == Err::<i128, Error>(Error::Overflow),
        amount_in > 0 && reserve_in > 0 && reserve_out > 0 && price_impact_fits(
            amount_in as int,
            reserve_in as int,
            reserve_out as int,
            30,
        ) && old_price_value(reserve_in as int, reserve_out as int) == 0 ==> r == Err::<
            i128,
            Error,
        >(Error::DivisionByZero),
        amount_in > 0 && reserve_in > 0 && reserve_out > 0 && price_impact_fits(
            amount_in as int,
            reserve_in as int,
            reserve_out as int,
            30,
        ) && old_price_value(reserve_in as int, reserve_out as int) > 0 ==> r == Ok::<i128, Error>(
            price_impact_value(amount_in as int, reserve_in as int, reserve_out as int, 30) as i128,
        ),
{
    if reserve_in == 0 || reserve_out == 0 {
        return Err(Error::InsufficientLiquidity);
    }

    let amount_out = match get_amount_out(amount_in, reserve_in, reserve_out, None) {
        Ok(v) => v,
        Err(e) => {
            return Err(e);
        },
    };

    proof {
        // The swap can never pay out the whole output reserve.
        let a = amount_in as int;
        let ri = reserve_in as int;
        let ro = reserve_out as int;
        let f = a * 9970;
        assert(f * ro < ro * (ri * 10000 + f)) by (nonlinear_arith)
            requires
                a >= 1,
                ri >= 1,
                ro >= 1,
                f == a * 9970,
        ;
        assert(f * ro / (ri * 10000 + f) < ro) by {
            vstd::arithmetic::div_mod::lemma_multiply_divide_lt(f * ro, ri * 10000 + f, ro);
        }
    }
    let new_reserve_in = match reserve_in.checked_add(amount_in) {
        Some(v) => v,
        None => {
            return Err(Error::Overflow);
        },
    };
    let new_reserve_out = match reserve_out.checked_sub(amount_out) {
        Some(v) => v,
        None => {
            return Err(Error::Underflow);
        },
    };

    let old_price_numerator = match reserve_out.checked_mul(FEE_DENOMINATOR) {
        Some(v) => v,
        None => {
            return Err(Error::Overflow);
        },
    };
    proof {
        lemma_mul_nonnegative(reserve_out as int, 10000);
        lemma_div_bounds(old_price_numerator as int, reserve_in as int);
    }
    let old_price = match old_price_numerator.checked_div(reserve_in) {
        Some(v) => v,
        None => {
            return Err(Error::DivisionByZero);
        },
    };

    proof {
        lemma_mul_nonnegative(new_reserve_out as int, 10000);
    }
    let new_price_numerator = match new_reserve_out.checked_mul(FEE_DENOMINATOR) {
        Some(v) => v,
        None => {
            return Err(Error::Overflow);
        },
    };
    proof {
        lemma_div_bounds(new_price_numerator as int, new_reserve_in as int);
    }
    let new_price = match new_price_numerator.checked_div(new_reserve_in) {
        Some(v) => v,
        None => {
            return Err(Error::DivisionByZero);
        },
    };

    let price_diff = if old_price > new_price {
        match old_price.checked_sub(new_price) {
            Some(v) => v,
            None => {
                return Err(Error::Underflow);
            },
        }
    } else {
        match new_price.checked_sub(old_price) {
            Some(v) => v,
            None => {
                return Err(Error::Underflow);
            },
        }
    };

    proof {
        lemma_mul_nonnegative(price_diff as int, 10000);
    }
    let impact = match price_diff.checked_mul(FEE_DENOMINATOR) {
        Some(v) => v,
        None => {
            return Err(Error::Overflow);
        },
    };
    proof {
        if old_price > 0 {
            lemma_div_bounds(impact as int, old_price as int);
        }
    }
    match impact.checked_div(old_price) {
        Some(v) => Ok(v),
        None => Err(Error::DivisionByZero),
    }
}

/// The ceiling a call works with: the explicit one, or the 500 bps default.
pub open spec fn impact_ceiling_of(max_impact_bps: Option<i128>) -> int {
    match max_impact_bps {
        Some(m) => m as int,
        None => 500,
    }
}

/// Check that the price impact of an exact-input swap stays within the
/// ceiling. Trades whose impact would pass the ceiling are rejected before
/// any state changes.
pub fn validate_price_impact(
    amount_in: i128,
    reserve_in: i128,
    reserve_out: i128,
    max_impact_bps: Option<i128>,
) -> (r: Result<(), Error>)
    ensures
        r == Ok::<(), Error>(()) <==> (amount_in > 0 && reserve_in > 0 && reserve_out > 0
            && price_impact_fits(amount_in as int, reserve_in as int, reserve_out as int, 30)
            && old_price_value(reserve_in as int, reserve_out as int) > 0 && price_impact_value(
            amount_in as int,
            reserve_in as int,
            reserve_out as int,
            30,
        ) <= impact_ceiling_of(max_impact_bps)),
        amount_in > 0 && reserve_in > 0 && reserve_out > 0 && price_impact_fits(
            amount_in as int,
            reserve_in as int,
            reserve_out as int,
            30,
        ) && old_price_value(reserve_in as int, reserve_out as int) > 0 && price_impact_value(
            amount_in as int,
            reserve_in as int,
            reserve_out as int,
            30,
        ) > impact_ceiling_of(max_impact_bps) ==> r == Err::<(), Error>(Error::PriceImpactTooHigh),
{
    let impact = match calculate_price_impact(amount_in, reserve_in, reserve_out) {
        Ok(v) => v,
        Err(e) => {
            return Err(e);
        },
    };
    let max_impact = match max_impact_bps {
        Some(m) => m,
        None => MAX_PRICE_IMPACT_BPS,
    };

    if impact > max_impact {
        return Err(Error::PriceImpactTooHigh);
    }

    Ok(())
}

} // verus!
