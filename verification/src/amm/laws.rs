//! Laws of the swap formulas: the fee strictly reduces the output against
//! the spot ratio, an exact-output input is never overcharged by more than
//! one unit and always covers the requested output, and a fee-charging swap
//! strictly grows the reserve product.

use vstd::prelude::*;
use vstd::arithmetic::div_mod::{
    lemma_div_by_self, lemma_div_is_ordered, lemma_div_pos_is_pos, lemma_div_multiples_vanish,
    lemma_fundamental_div_mod,
};
use super::math::{amount_in_value, amount_out_value, quote_value};

verus! {

/// An exact-input swap pays out less than the fee-free reserve ratio would:
/// `out * reserve_in < amount_in * reserve_out`, so the output never exceeds
/// the quoted equivalent amount; and the output is positive whenever the
/// scaled input covers the scaled reserve.
pub proof fn lemma_swap_output_bounded(
    amount_in: int,
    reserve_in: int,
    reserve_out: int,
    fee_bps: int,
)
    requires
        amount_in > 0,
        reserve_in > 0,
        reserve_out > 0,
        0 <= fee_bps < 10000,
    ensures
        0 <= amount_out_value(amount_in, reserve_in, reserve_out, fee_bps),
        amount_out_value(amount_in, reserve_in, reserve_out, fee_bps) * reserve_in < amount_in
            * reserve_out,
        amount_out_value(amount_in, reserve_in, reserve_out, fee_bps) <= quote_value(
            amount_in,
            reserve_in,
            reserve_out,
        ),
        amount_in * (10000 - fee_bps) * reserve_out >= reserve_in * 10000 + amount_in * (10000
            - fee_bps) ==> amount_out_value(amount_in, reserve_in, reserve_out, fee_bps) > 0,
{
    let f = 10000 - fee_bps;
    let n = amount_in * f * reserve_out;
    let d = reserve_in * 10000 + amount_in * f;
    let out = amount_out_value(amount_in, reserve_in, reserve_out, fee_bps);

    assert(amount_in * f >= 1 && n >= 1 && d >= 1 && reserve_in * 10000 >= 1) by (nonlinear_arith)
        requires
            amount_in >= 1,
            reserve_in >= 1,
            reserve_out >= 1,
            f >= 1,
            n == amount_in * f * reserve_out,
            d == reserve_in * 10000 + amount_in * f,
    ;
    lemma_div_pos_is_pos(n, d);
    assert(out == n / d);
    assert(out >= 0);

    // The floored quotient times the denominator stays below the numerator.
    lemma_fundamental_div_mod(n, d);
    assert(out * d <= n);

    // Cross-multiplied strict bound against the fee-free ratio.
    assert(out * reserve_in * 10000 < amount_in * reserve_out * 10000) by (nonlinear_arith)
        requires
            out * d <= n,
            n == amount_in * f * reserve_out,
            d == reserve_in * 10000 + amount_in * f,
            amount_in >= 1,
            reserve_in >= 1,
            reserve_out >= 1,
            1 <= f <= 10000,
            out >= 0,
    ;
    assert(out * reserve_in < amount_in * reserve_out) by (nonlinear_arith)
        requires
            out * reserve_in * 10000 < amount_in * reserve_out * 10000,
    ;

    // Hence the output never exceeds the quoted amount.
    assert(out * reserve_in <= amount_in * reserve_out - 1);
    lemma_div_is_ordered(out * reserve_in, amount_in * reserve_out, reserve_in);
    lemma_div_multiples_vanish(out, reserve_in);
    assert(reserve_in * out == out * reserve_in) by (nonlinear_arith);
    assert(out <= quote_value(amount_in, reserve_in, reserve_out));

    // A scaled input at least as large as the scaled reserve buys something.
    if n >= d {
        lemma_div_is_ordered(d, n, d);
        lemma_div_by_self(d);
        assert(out >= 1);
    }
}

/// Pricing an exact-output swap for the output that an exact-input swap just
/// produced never asks for more than one unit above the original input.
pub proof fn lemma_round_trip_input_bound(
    amount_in: int,
    reserve_in: int,
    reserve_out: int,
    fee_bps: int,
)
    requires
        amount_in > 0,
        reserve_in > 0,
        reserve_out > 0,
        0 <= fee_bps < 10000,
        0 < amount_out_value(amount_in, reserve_in, reserve_out, fee_bps) < reserve_out,
    ensures
        amount_in_value(
            amount_out_value(amount_in, reserve_in, reserve_out, fee_bps),
            reserve_in,
            reserve_out,
            fee_bps,
        ) <= amount_in + 1,
{
    let f = 10000 - fee_bps;
    let n = amount_in * f * reserve_out;
    let d = reserve_in * 10000 + amount_in * f;
    let out = amount_out_value(amount_in, reserve_in, reserve_out, fee_bps);
    let k = (reserve_out - out) * f;
    let m = reserve_in * out * 10000;

    assert(d >= 1 && k >= 1) by (nonlinear_arith)
        requires
            amount_in >= 1,
            reserve_in >= 1,
            f >= 1,
            reserve_out - out >= 1,
            d == reserve_in * 10000 + amount_in * f,
            k == (reserve_out - out) * f,
    ;
    lemma_fundamental_div_mod(n, d);
    assert(out * d <= n);

    // Rearranged, the priced input stays at most the original input.
    assert(m <= amount_in * k) by (nonlinear_arith)
        requires
            out * d <= n,
            n == amount_in * f * reserve_out,
            d == reserve_in * 10000 + amount_in * f,
            m == reserve_in * out * 10000,
            k == (reserve_out - out) * f,
    ;
    lemma_div_is_ordered(m, amount_in * k, k);
    lemma_div_multiples_vanish(amount_in, k);
    assert(k * amount_in == amount_in * k) by (nonlinear_arith);
    assert(m / k <= amount_in);
}

/// The input priced by an exact-output swap, fed back through the
/// exact-input formula, always yields at least the requested output.
pub proof fn lemma_amount_in_covers_output(
    amount_out: int,
    reserve_in: int,
    reserve_out: int,
    fee_bps: int,
)
    requires
        amount_out > 0,
        reserve_in > 0,
        reserve_out > amount_out,
        0 <= fee_bps < 10000,
    ensures
        amount_out_value(
            amount_in_value(amount_out, reserve_in, reserve_out, fee_bps),
            reserve_in,
            reserve_out,
            fee_bps,
        ) >= amount_out,
{
    let f = 10000 - fee_bps;
    let y = reserve_in * amount_out * 10000;
    let k = (reserve_out - amount_out) * f;
    let q = y / k;
    let amount_in = amount_in_value(amount_out, reserve_in, reserve_out, fee_bps);

    assert(k >= 1 && y >= 1) by (nonlinear_arith)
        requires
            amount_out >= 1,
            reserve_in >= 1,
            f >= 1,
            reserve_out - amount_out >= 1,
            y == reserve_in * amount_out * 10000,
            k == (reserve_out - amount_out) * f,
    ;
    lemma_fundamental_div_mod(y, k);
    assert(amount_in == q + 1);
    assert(amount_in * k >= y + 1) by (nonlinear_arith)
        requires
            amount_in == q + 1,
            y == k * q + y % k,
            0 <= y % k < k,
    ;

    let n = amount_in * f * reserve_out;
    let d = reserve_in * 10000 + amount_in * f;
    lemma_div_pos_is_pos(y, k);
    assert(d >= 1 && amount_in >= 1) by (nonlinear_arith)
        requires
            reserve_in >= 1,
            amount_in == q + 1,
            q >= 0,
            f >= 1,
            d == reserve_in * 10000 + amount_in * f,
    ;

    // The requested output times the denominator stays below the numerator.
    assert(amount_out * d <= n) by (nonlinear_arith)
        requires
            amount_in * k >= y + 1,
            n == amount_in * f * reserve_out,
            d == reserve_in * 10000 + amount_in * f,
            y == reserve_in * amount_out * 10000,
            k == (reserve_out - amount_out) * f,
    ;
    lemma_div_is_ordered(amount_out * d, n, d);
    lemma_div_multiples_vanish(amount_out, d);
    assert(d * amount_out == amount_out * d) by (nonlinear_arith);
    assert(n / d >= amount_out);
}

/// Any swap that charges a positive fee strictly grows the product of the
/// reserves: the pool keeps the fee.
pub proof fn lemma_k_strictly_increases(
    amount_in: int,
    reserve_in: int,
    reserve_out: int,
    fee_bps: int,
)
    requires
        amount_in > 0,
        reserve_in > 0,
        reserve_out > 0,
        1 <= fee_bps <= 10000,
    ensures
        (reserve_in + amount_in) * (reserve_out - amount_out_value(
            amount_in,
            reserve_in,
            reserve_out,
            fee_bps,
        )) > reserve_in * reserve_out,
{
    let f = 10000 - fee_bps;
    let n = amount_in * f * reserve_out;
    let d = reserve_in * 10000 + amount_in * f;
    let out = amount_out_value(amount_in, reserve_in, reserve_out, fee_bps);

    assert(d >= 1 && n >= 0) by (nonlinear_arith)
        requires
            amount_in >= 1,
            reserve_in >= 1,
            reserve_out >= 1,
            0 <= f <= 9999,
            n == amount_in * f * reserve_out,
            d == reserve_in * 10000 + amount_in * f,
    ;
    lemma_fundamental_div_mod(n, d);
    assert(out * d <= n);

    // Multiplying the claim through by the positive denominator removes the
    // division; the fee term is what makes it strict.
    assert((reserve_in + amount_in) * (reserve_out - out) * d > reserve_in * reserve_out * d)
        by (nonlinear_arith)
        requires
            out * d <= n,
            n == amount_in * f * reserve_out,
            d == reserve_in * 10000 + amount_in * f,
            amount_in >= 1,
            reserve_in >= 1,
            reserve_out >= 1,
            0 <= f <= 9999,
            10000 - f == fee_bps,
            fee_bps >= 1,
    ;
    assert((reserve_in + amount_in) * (reserve_out - out) > reserve_in * reserve_out)
        by (nonlinear_arith)
        requires
            (reserve_in + amount_in) * (reserve_out - out) * d > reserve_in * reserve_out * d,
            d >= 1,
    ;
}

} // verus!
