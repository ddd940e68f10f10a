//! Laws of the bonding curve: a round trip through the curve never pays out
//! more base asset than was spent and repays it exactly from a tight state,
//! and a repeated buy of the same size always receives strictly fewer
//! tokens.

use vstd::prelude::*;
use vstd::arithmetic::div_mod::{
    lemma_div_is_ordered, lemma_div_multiples_vanish, lemma_fundamental_div_mod,
};
use super::bonding_curve::{buy_tokens_value, sell_xlm_value};

verus! {

/// Buying with `xlm_in` and immediately selling back exactly the tokens
/// received never returns more than `xlm_in`; when the reserve product sits
/// exactly at `k` (a fresh curve, or any state a sell left behind) it
/// returns exactly `xlm_in`.
pub proof fn lemma_buy_sell_round_trip(
    xlm_reserve: int,
    tokens_remaining: int,
    k: int,
    xlm_in: int,
)
    requires
        xlm_reserve > 0,
        tokens_remaining > 0,
        k > 0,
        xlm_in > 0,
        xlm_reserve * tokens_remaining <= k,
    ensures
        ({
            let t = buy_tokens_value(xlm_reserve, tokens_remaining, k, xlm_in);
            sell_xlm_value(xlm_reserve + xlm_in, tokens_remaining - t, k, t) <= xlm_in
        }),
        xlm_reserve == k / tokens_remaining ==> ({
            let t = buy_tokens_value(xlm_reserve, tokens_remaining, k, xlm_in);
            sell_xlm_value(xlm_reserve + xlm_in, tokens_remaining - t, k, t) == xlm_in
        }),
{
    let t = buy_tokens_value(xlm_reserve, tokens_remaining, k, xlm_in);
    // Selling the bought tokens brings the token reserve back exactly, so
    // the payout is xlm_reserve + xlm_in - k / tokens_remaining.
    assert(tokens_remaining - t + t == tokens_remaining);
    assert(sell_xlm_value(xlm_reserve + xlm_in, tokens_remaining - t, k, t) == xlm_reserve + xlm_in
        - k / tokens_remaining);
    // The reserve never exceeds k / tokens_remaining.
    assert(xlm_reserve <= k / tokens_remaining) by {
        assert(xlm_reserve * tokens_remaining == tokens_remaining * xlm_reserve)
            by (nonlinear_arith);
        lemma_div_is_ordered(tokens_remaining * xlm_reserve, k, tokens_remaining);
        lemma_div_multiples_vanish(xlm_reserve, tokens_remaining);
    }
}

/// From a fresh curve state, a second buy of the same base-asset amount
/// yields strictly fewer tokens than the first, provided the trade is large
/// enough for the price movement to outweigh rounding:
/// `2 * remaining * xlm_in^2` must reach the product of the two successive
/// post-trade reserves.
pub proof fn lemma_second_buy_strictly_fewer(
    xlm_reserve: int,
    tokens_remaining: int,
    k: int,
    xlm_in: int,
)
    requires
        xlm_reserve > 0,
        tokens_remaining > 0,
        xlm_in > 0,
        k == xlm_reserve * tokens_remaining,
        2 * tokens_remaining * xlm_in * xlm_in >= (xlm_reserve + xlm_in) * (xlm_reserve + 2
            * xlm_in),
    ensures
        buy_tokens_value(xlm_reserve, tokens_remaining, k, xlm_in) >= 1,
        buy_tokens_value(
            xlm_reserve + xlm_in,
            tokens_remaining - buy_tokens_value(xlm_reserve, tokens_remaining, k, xlm_in),
            k,
            xlm_in,
        ) < buy_tokens_value(xlm_reserve, tokens_remaining, k, xlm_in),
{
    let b = xlm_reserve;
    let r = tokens_remaining;
    let x = xlm_in;
    let d1 = b + x;
    let d2 = b + 2 * x;
    let q1 = k / d1;
    let q2 = k / d2;
    let s1 = k % d1;
    let s2 = k % d2;
    lemma_fundamental_div_mod(k, d1);
    lemma_fundamental_div_mod(k, d2);

    let t1 = buy_tokens_value(b, r, k, x);
    assert(t1 == r - q1);

    // The first buy pays out something: t1 * d1 equals r*x + s1 > 0.
    assert(t1 * d1 == r * x + s1) by (nonlinear_arith)
        requires
            t1 == r - q1,
            k == d1 * q1 + s1,
            k == b * r,
            d1 == b + x,
    ;
    assert(t1 >= 1) by (nonlinear_arith)
        requires
            t1 * d1 == r * x + s1,
            r >= 1,
            x >= 1,
            s1 >= 0,
            d1 >= 2,
    ;

    // After the first buy the token reserve is exactly q1, so the second
    // buy pays q1 - q2; the gap to the first, scaled by both denominators,
    // is 2*r*x^2 + 2*s1*d2 - s2*d1, which the size condition keeps positive.
    let t2 = buy_tokens_value(b + x, r - t1, k, x);
    assert(t2 == q1 - q2);
    assert(q1 * (d1 * d2) == (k - s1) * d2) by (nonlinear_arith)
        requires
            k == d1 * q1 + s1,
    ;
    assert(q2 * (d1 * d2) == (k - s2) * d1) by (nonlinear_arith)
        requires
            k == d2 * q2 + s2,
    ;
    assert(d1 * d2 - 2 * (b * d2) + b * d1 == 2 * (x * x)) by (nonlinear_arith)
        requires
            d1 == b + x,
            d2 == b + 2 * x,
    ;
    assert((t1 - t2) * (d1 * d2) == r * (d1 * d2) - 2 * (q1 * (d1 * d2)) + q2 * (d1 * d2))
        by (nonlinear_arith)
        requires
            t1 == r - q1,
            t2 == q1 - q2,
    ;
    assert((k - s1) * d2 == k * d2 - s1 * d2) by (nonlinear_arith);
    assert((k - s2) * d1 == k * d1 - s2 * d1) by (nonlinear_arith);
    assert(k * d2 == r * (b * d2) && k * d1 == r * (b * d1)) by (nonlinear_arith)
        requires
            k == b * r,
    ;
    assert(r * (d1 * d2) - 2 * (r * (b * d2)) + r * (b * d1) == r * (2 * (x * x)))
        by (nonlinear_arith)
        requires
            d1 * d2 - 2 * (b * d2) + b * d1 == 2 * (x * x),
    ;
    assert(2 * (r * (x * x)) == 2 * r * x * x && r * (2 * (x * x)) == 2 * (r * (x * x)))
        by (nonlinear_arith);
    assert(t1 - t2 >= 1) by (nonlinear_arith)
        requires
            (t1 - t2) * (d1 * d2) == 2 * (r * (x * x)) + 2 * (s1 * d2) - s2 * d1,
            2 * (r * (x * x)) >= d1 * d2,
            0 <= s1,
            0 <= s2 < d2,
            d1 >= 2,
            d2 >= 2,
    ;
}

} // verus!
