//! Pair pricing math, fixed 30 bps fee.
//!
//! The formulas follow the constant-product design: a swap charges the fee on
//! the input amount, and the quoted output keeps `reserve_in * reserve_out`
//! from decreasing.

use vstd::prelude::*;
use vstd::arithmetic::div_mod::{
    lemma_div_is_ordered, lemma_div_is_ordered_by_denominator, lemma_div_multiples_vanish,
    lemma_fundamental_div_mod, lemma_fundamental_div_mod_converse_div,
};
use vstd::arithmetic::mul::lemma_mul_nonnegative;

verus! {

/// Fee charged on every swap, in basis points.
const FEE_BPS: i128 = 30;
const FEE_DENOMINATOR: i128 = 10000;

/// Equivalent amount of token B for `amount_a` of token A at the current
/// reserve ratio, rounded down.
pub open spec fn quote_value(amount_a: int, reserve_a: int, reserve_b: int) -> int {
    amount_a * reserve_b / reserve_a
}

/// Output of an exact-input swap: the fee is taken from the input, then the
/// constant-product formula prices the remainder, rounded down.
pub open spec fn amount_out_value(
    amount_in: int,
    reserve_in: int,
    reserve_out: int,
    fee_bps: int,
) -> int {
    amount_in * (10000 - fee_bps) * reserve_out
        / (reserve_in * 10000 + amount_in * (10000 - fee_bps))
}

/// Input of an exact-output swap: the inverse formula, rounded down and then
/// incremented so the computed input always covers the requested output.
pub open spec fn amount_in_value(
    amount_out: int,
    reserve_in: int,
    reserve_out: int,
    fee_bps: int,
) -> int {
    reserve_in * amount_out * 10000 / ((reserve_out - amount_out) * (10000 - fee_bps)) + 1
}

/// `r` is the integer square root of `y`, rounded down.
pub open spec fn is_floor_sqrt(y: int, r: int) -> bool {
    0 <= r && r * r <= y && y < (r + 1) * (r + 1)
}

/// The integer square root of `y`, rounded down.
pub open spec fn floor_sqrt(y: int) -> int {
    choose|r: int| #[trigger] is_floor_sqrt(y, r)
}

/// The floor square root is unique, so any root found equals `floor_sqrt`.
pub proof fn lemma_floor_sqrt_unique(y: int, r: int)
    requires
        is_floor_sqrt(y, r),
    ensures
        r == floor_sqrt(y),
{
    let w = floor_sqrt(y);
    assert(is_floor_sqrt(y, w));
    assert(r == w) by (nonlinear_arith)
        requires
            is_floor_sqrt(y, r),
            is_floor_sqrt(y, w),
    ;
}

/// Every non-negative integer has a floor square root.
pub proof fn lemma_floor_sqrt_exists(y: int)
    requires
        y >= 0,
    ensures
        exists|r: int| #[trigger] is_floor_sqrt(y, r),
    decreases y,
{
    if y == 0 {
        assert(is_floor_sqrt(0, 0));
    } else {
        lemma_floor_sqrt_exists(y - 1);
        let r = choose|r: int| #[trigger] is_floor_sqrt(y - 1, r);
        if (r + 1) * (r + 1) <= y {
            assert(is_floor_sqrt(y, r + 1)) by (nonlinear_arith)
                requires
                    is_floor_sqrt(y - 1, r),
                    (r + 1) * (r + 1) <= y,
                    y >= 1,
            ;
        } else {
            assert(is_floor_sqrt(y, r));
        }
    }
}

/// Calculate the integer square root with the Babylonian method, seeded with
/// `y / 2 + 1` and iterated until the estimate stops decreasing.
/// Used for the initial liquidity calculation.
pub fn sqrt(y: i128) -> (r: i128)
    requires
        y >= 0,
    ensures
        is_floor_sqrt(y as int, r as int),
        r == floor_sqrt(y as int),
{
    if y < 4 {
        if y == 0 {
            proof {
                lemma_floor_sqrt_unique(0, 0);
            }
            return 0;
        }
        proof {
            lemma_floor_sqrt_unique(y as int, 1);
        }
        return 1;
    }

    proof {
        lemma_floor_sqrt_exists(y as int);
    }
    let ghost s: int = choose|s: int| #[trigger] is_floor_sqrt(y as int, s);

    let mut z: i128 = y;
    let mut x: i128 = y / 2 + 1;

    proof {
        let yi = y as int;
        lemma_fundamental_div_mod(yi, 2);
        // The seed is at least the root, and the root is small.
        assert(s <= yi / 2 + 1 && 2 <= s && s <= yi && 2 * s <= yi
            && s < 0x1_0000_0000_0000_0000) by (nonlinear_arith)
            requires
                is_floor_sqrt(yi, s),
                4 <= yi <= i128::MAX,
                yi == 2 * (yi / 2) + yi % 2,
                0 <= yi % 2 < 2,
        ;
    }

    while x < z
        invariant
            4 <= y <= i128::MAX,
            is_floor_sqrt(y as int, s),
            2 <= s,
            2 * s <= y,
            s <= y,
            s < 0x1_0000_0000_0000_0000,
            1 <= x,
            1 <= z,
            x <= y / 2 + 2,
            s <= x,
            s <= z,
            x >= z ==> z * z <= y,
        decreases z as int,
    {
        proof {
            let yi = y as int;
            let xi = x as int;
            let d = yi / xi;
            assert(yi <= s * s + 2 * s) by (nonlinear_arith)
                requires
                    is_floor_sqrt(yi, s),
            ;
            // The quotient is bounded: y / x <= s + 2.
            assert(s * s + 2 * s <= (s + 2) * xi) by (nonlinear_arith)
                requires
                    0 <= s <= xi,
            ;
            lemma_div_is_ordered(yi, (s + 2) * xi, xi);
            lemma_div_multiples_vanish(s + 2, xi);
            assert((s + 2) * xi == xi * (s + 2)) by (nonlinear_arith);
            assert(d <= s + 2);
            // So the sum y / x + x stays within i128.
            assert(d + xi <= i128::MAX);
            // The next estimate never falls below the root.
            assert(s * s >= (2 * s - xi) * xi) by (nonlinear_arith)
                requires
                    xi >= 1,
                    s >= 0,
            ;
            lemma_div_is_ordered((2 * s - xi) * xi, s * s, xi);
            lemma_div_multiples_vanish(2 * s - xi, xi);
            assert((2 * s - xi) * xi == xi * (2 * s - xi)) by (nonlinear_arith);
            lemma_div_is_ordered(s * s, yi, xi);
            assert(d + xi >= 2 * s);
            lemma_div_is_ordered(2 * s, d + xi, 2);
            lemma_div_multiples_vanish(s, 2);
            assert((d + xi) / 2 >= s);
            // The next estimate keeps the seed's upper bound.
            assert(d + xi <= s + yi / 2 + 4);
            lemma_div_is_ordered(d + xi, s + yi / 2 + 4, 2);
            assert(s + yi / 2 + 4 <= 2 * (yi / 2 + 2));
            lemma_div_is_ordered(s + yi / 2 + 4, 2 * (yi / 2 + 2), 2);
            lemma_div_multiples_vanish(yi / 2 + 2, 2);
            assert((d + xi) / 2 <= yi / 2 + 2);
        }
        z = x;
        x = (y / x + x) / 2;
        proof {
            let zi = z as int;
            let yi = y as int;
            // If the estimate stopped decreasing, it has reached the root.
            if x >= z && z * z > y {
                assert(yi <= zi * (zi - 1) + zi - 1) by (nonlinear_arith)
                    requires
                        yi < zi * zi,
                        zi >= 1,
                ;
                lemma_div_is_ordered(yi, zi * (zi - 1) + zi - 1, zi);
                lemma_fundamental_div_mod(zi * (zi - 1) + (zi - 1), zi);
                lemma_div_multiples_vanish(zi - 1, zi);
                assert((zi * (zi - 1) + (zi - 1)) / zi == zi - 1) by {
                    lemma_fundamental_div_mod_converse_div(zi * (zi - 1) + (zi - 1), zi, zi - 1, zi - 1);
                }
                assert(yi / zi <= zi - 1);
                lemma_div_is_ordered(yi / zi + zi, 2 * (zi - 1) + 1, 2);
                lemma_fundamental_div_mod_converse_div(2 * (zi - 1) + 1, 2, zi - 1, 1);
                assert((yi / zi + zi) / 2 <= zi - 1);
                assert(false);
            }
        }
    }

    proof {
        // At exit x >= z, so z * z <= y; with z >= s that pins z to the root.
        assert(z as int == s) by (nonlinear_arith)
            requires
                is_floor_sqrt(y as int, s),
                s <= z as int,
                z as int * (z as int) <= y as int,
        ;
        lemma_floor_sqrt_unique(y as int, z as int);
    }
    z
}

/// Calculate the equivalent amount of token B for `amount_a` of token A at
/// the current reserve ratio. Used to keep a liquidity deposit balanced.
pub fn quote(amount_a: i128, reserve_a: i128, reserve_b: i128) -> (r: i128)
    requires
        amount_a > 0,
        reserve_a > 0,
        reserve_b > 0,
        amount_a * reserve_b <= i128::MAX,
    ensures
        r == quote_value(amount_a as int, reserve_a as int, reserve_b as int),
{
    proof {
        lemma_mul_nonnegative(amount_a as int, reserve_b as int);
    }
    (amount_a * reserve_b) / reserve_a
}

/// Calculate the output amount of an exact-input swap at the fixed 30 bps
/// fee.
pub fn get_amount_out(amount_in: i128, reserve_in: i128, reserve_out: i128) -> (r: i128)
    requires
        amount_in > 0,
        reserve_in > 0,
        reserve_out > 0,
        amount_in * (10000 - 30) * reserve_out <= i128::MAX,
        reserve_in * 10000 + amount_in * (10000 - 30) <= i128::MAX,
    ensures
        r == amount_out_value(amount_in as int, reserve_in as int, reserve_out as int, 30),
{
    let fee_multiplier = FEE_DENOMINATOR - FEE_BPS;

    proof {
        lemma_mul_nonnegative(amount_in as int, 9970);
        lemma_mul_nonnegative(amount_in as int * 9970, reserve_out as int);
        lemma_mul_nonnegative(reserve_in as int, 10000);
        assert(amount_in * 9970 <= amount_in * 9970 * reserve_out) by (nonlinear_arith)
            requires
                amount_in >= 1,
                reserve_out >= 1,
        ;
    }
    let amount_in_with_fee = amount_in * fee_multiplier;
    let numerator = amount_in_with_fee * reserve_out;
    let denominator = (reserve_in * FEE_DENOMINATOR) + amount_in_with_fee;

    numerator / denominator
}

/// Calculate the input amount an exact-output swap needs at the fixed 30 bps
/// fee. The extra unit guarantees the input covers the output.
pub fn get_amount_in(amount_out: i128, reserve_in: i128, reserve_out: i128) -> (r: i128)
    requires
        amount_out > 0,
        reserve_in > 0,
        reserve_out > 0,
        amount_out < reserve_out,
        reserve_in * amount_out * 10000 <= i128::MAX,
        (reserve_out - amount_out) * (10000 - 30) <= i128::MAX,
    ensures
        r == amount_in_value(amount_out as int, reserve_in as int, reserve_out as int, 30),
{
    let fee_multiplier = FEE_DENOMINATOR - FEE_BPS;

    proof {
        lemma_mul_nonnegative(reserve_in as int, amount_out as int);
        lemma_mul_nonnegative(reserve_in as int * amount_out as int, 10000);
        assert((reserve_out - amount_out) * 9970 >= 9970) by (nonlinear_arith)
            requires
                reserve_out - amount_out >= 1,
        ;
    }
    let numerator = reserve_in * amount_out * FEE_DENOMINATOR;
    let denominator = (reserve_out - amount_out) * fee_multiplier;

    proof {
        let n = numerator as int;
        let d = denominator as int;
        assert(n / d < i128::MAX) by {
            lemma_div_is_ordered_by_denominator(n, 1, d);
            assert(n / 1 == n) by {
                lemma_div_multiples_vanish(n, 1);
            }
            assert(n / d <= n);
            if n / d == i128::MAX {
                assert(n == i128::MAX);
                lemma_div_is_ordered_by_denominator(n, 2, d);
                assert(n / 2 < n) by {
                    lemma_fundamental_div_mod(n, 2);
                }
            }
        }
    }
    (numerator / denominator) + 1
}

} // verus!
