//! Virtual-reserve constant-product bonding curve.
//!
//! The curve is seeded with a virtual base-asset reserve so the starting
//! price is non-trivial and no division by zero can occur; `k` is fixed at
//! creation and prices every trade: buying removes tokens so that
//! `reserve * remaining` stays at `k` up to rounding, selling is the exact
//! inverse.

use vstd::prelude::*;
use vstd::arithmetic::div_mod::{
    lemma_div_is_ordered, lemma_div_nonincreasing, lemma_div_pos_is_pos,
    lemma_fundamental_div_mod,
};
use super::errors::Error;

verus! {

/// Fixed-point scale: seven decimals.
pub const PRECISION: i128 = 10_000_000;

/// Virtual base-asset reserve a fresh curve starts with: 1000 whole units.
pub const INITIAL_VIRTUAL_RESERVE: i128 = 10_000_000_000;

/// Tokens a buy of `xlm_in` pays out: the token reserve moves to
/// `k / (reserve + xlm_in)` and the difference leaves the curve.
pub open spec fn buy_tokens_value(
    xlm_reserve: int,
    tokens_remaining: int,
    k: int,
    xlm_in: int,
) -> int {
    tokens_remaining - k / (xlm_reserve + xlm_in)
}

/// Base asset a sell of `tokens_in` pays out: the base reserve moves to
/// `k / (remaining + tokens_in)` and the difference leaves the curve.
pub open spec fn sell_xlm_value(
    xlm_reserve: int,
    tokens_remaining: int,
    k: int,
    tokens_in: int,
) -> int {
    xlm_reserve - k / (tokens_remaining + tokens_in)
}

/// Spot price per token, fixed-point scaled.
pub open spec fn curve_price_value(xlm_reserve: int, tokens_remaining: int) -> int {
    xlm_reserve * 10_000_000 / tokens_remaining
}

/// Spot price as the engine reports it: saturated at `i128::MAX` when the
/// curve is empty or the scaled reserve leaves the 128-bit range.
pub open spec fn saturating_price_value(xlm_reserve: int, tokens_remaining: int) -> int {
    if tokens_remaining == 0 {
        i128::MAX as int
    } else if xlm_reserve * 10_000_000 > i128::MAX {
        i128::MAX as int
    } else {
        curve_price_value(xlm_reserve, tokens_remaining)
    }
}

/// Constant-product bonding curve state.
#[derive(Copy, Clone, Debug, Eq, PartialEq)]
pub struct BondingCurve {
    /// Total tokens the curve was seeded with.
    pub total_supply: i128,
    /// Tokens sold out of the curve so far.
    pub tokens_sold: i128,
    /// Tokens still held by the curve.
    pub tokens_remaining: i128,
    /// Base-asset reserve, virtual seed included.
    pub xlm_reserve: i128,
    /// The product constant fixed at creation.
    pub k: i128,
}

impl BondingCurve {
    /// Sold and remaining tokens always partition the supply, the reserves
    /// stay positive, and the reserve product never exceeds `k`.
    pub open spec fn well_formed(self) -> bool {
        &&& self.total_supply > 0
        &&& self.tokens_sold >= 0
        &&& self.tokens_remaining >= 0
        &&& self.tokens_sold + self.tokens_remaining == self.total_supply
        &&& self.xlm_reserve > 0
        &&& self.k >= self.total_supply
        &&& self.xlm_reserve * self.tokens_remaining <= self.k
    }

    /// Create a curve holding `total_supply` tokens against the virtual
    /// base reserve.
    pub fn new(total_supply: i128) -> (r: Result<BondingCurve, Error>)
        ensures
            total_supply <= 0 ==> r == Err::<BondingCurve, Error>(Error::InvalidAmount),
            total_supply > 0 && 10_000_000_000 * total_supply > i128::MAX ==> r == Err::<
                BondingCurve,
                Error,
            >(Error::Overflow),
            total_supply > 0 && 10_000_000_000 * total_supply <= i128::MAX ==> r == Ok::<
                BondingCurve,
                Error,
            >(
                BondingCurve {
                    total_supply,
                    tokens_sold: 0,
                    tokens_remaining: total_supply,
                    xlm_reserve: 10_000_000_000,
                    k: (10_000_000_000 * total_supply) as i128,
                },
            ),
            r matches Ok(c) ==> c.well_formed() && c.xlm_reserve * c.tokens_remaining == c.k,
    {
        if total_supply <= 0 {
            return Err(Error::InvalidAmount);
        }

        let initial_xlm = INITIAL_VIRTUAL_RESERVE;
        proof {
            assert(10_000_000_000 * total_supply >= total_supply) by (nonlinear_arith)
                requires
                    total_supply >= 1,
            ;
        }
        let k = match initial_xlm.checked_mul(total_supply) {
            Some(v) => v,
            None => {
                return Err(Error::Overflow);
            },
        };

        Ok(
            BondingCurve {
                total_supply,
                tokens_sold: 0,
                tokens_remaining: total_supply,
                xlm_reserve: initial_xlm,
                k,
            },
        )
    }

    /// Price a buy: the tokens received for `xlm_in` of the base asset.
    pub fn calculate_buy(&self, xlm_in: i128) -> (r: Result<i128, Error>)
        requires
            self.well_formed(),
        ensures
            xlm_in <= 0 ==> r == Err::<i128, Error>(Error::InvalidAmount),
            xlm_in > 0 && self.xlm_reserve + xlm_in > i128::MAX ==> r == Err::<i128, Error>(
                Error::Overflow,
            ),
            xlm_in > 0 && self.xlm_reserve + xlm_in <= i128::MAX ==> {
                let t = buy_tokens_value(
                    self.xlm_reserve as int,
                    self.tokens_remaining as int,
                    self.k as int,
                    xlm_in as int,
                );
                if t <= 0 {
                    r == Err::<i128, Error>(Error::InsufficientLiquidity)
                } else {
                    r == Ok::<i128, Error>(t as i128)
                }
            },
    {
        if xlm_in <= 0 {
            return Err(Error::InvalidAmount);
        }

        let new_xlm_reserve = match self.xlm_reserve.checked_add(xlm_in) {
            Some(v) => v,
            None => {
                return Err(Error::Overflow);
            },
        };

        proof {
            lemma_div_pos_is_pos(self.k as int, new_xlm_reserve as int);
            lemma_div_nonincreasing(self.k as int, new_xlm_reserve as int);
        }
        let new_token_reserve = match self.k.checked_div(new_xlm_reserve) {
            Some(v) => v,
            None => {
                return Err(Error::DivisionByZero);
            },
        };

        let tokens_out = match self.tokens_remaining.checked_sub(new_token_reserve) {
            Some(v) => v,
            None => {
                return Err(Error::Underflow);
            },
        };

        if tokens_out <= 0 {
            return Err(Error::InsufficientLiquidity);
        }

        Ok(tokens_out)
    }

    /// Price a sell: the base asset received for `tokens_in` tokens. Only
    /// tokens that were sold out of the curve can come back.
    pub fn calculate_sell(&self, tokens_in: i128) -> (r: Result<i128, Error>)
        requires
            self.well_formed(),
        ensures
            tokens_in <= 0 ==> r == Err::<i128, Error>(Error::InvalidAmount),
            tokens_in > 0 && tokens_in > self.tokens_sold ==> r == Err::<i128, Error>(
                Error::InsufficientBalance,
            ),
            0 < tokens_in <= self.tokens_sold ==> {
                let x = sell_xlm_value(
                    self.xlm_reserve as int,
                    self.tokens_remaining as int,
                    self.k as int,
                    tokens_in as int,
                );
                if x <= 0 {
                    r == Err::<i128, Error>(Error::InsufficientLiquidity)
                } else {
                    r == Ok::<i128, Error>(x as i128)
                }
            },
    {
        if tokens_in <= 0 {
            return Err(Error::InvalidAmount);
        }
        if tokens_in > self.tokens_sold {
            return Err(Error::InsufficientBalance);
        }

        let new_token_reserve = match self.tokens_remaining.checked_add(tokens_in) {
            Some(v) => v,
            None => {
                return Err(Error::Overflow);
            },
        };

        proof {
            lemma_div_pos_is_pos(self.k as int, new_token_reserve as int);
            lemma_div_nonincreasing(self.k as int, new_token_reserve as int);
        }
        let new_xlm_reserve = match self.k.checked_div(new_token_reserve) {
            Some(v) => v,
            None => {
                return Err(Error::DivisionByZero);
            },
        };

        let xlm_out = match self.xlm_reserve.checked_sub(new_xlm_reserve) {
            Some(v) => v,
            None => {
                return Err(Error::Underflow);
            },
        };

        if xlm_out <= 0 {
            return Err(Error::InsufficientLiquidity);
        }

        Ok(xlm_out)
    }

    /// Apply the state change of a buy that was priced with
    /// `calculate_buy`. A change that would leave the 128-bit range is
    /// rejected with the state untouched.
    pub fn execute_buy(&mut self, xlm_in: i128, tokens_out: i128) -> (r: Result<(), Error>)
        ensures
            old(self).xlm_reserve + xlm_in > i128::MAX || old(self).xlm_reserve + xlm_in
                < i128::MIN ==> r == Err::<(), Error>(Error::Overflow) && *final(self) == *old(
                self,
            ),
            i128::MIN <= old(self).xlm_reserve + xlm_in <= i128::MAX && !(i128::MIN <= old(
                self,
            ).tokens_remaining - tokens_out <= i128::MAX) ==> r == Err::<(), Error>(
                Error::Underflow,
            ) && *final(self) == *old(self),
            i128::MIN <= old(self).xlm_reserve + xlm_in <= i128::MAX && i128::MIN <= old(
                self,
            ).tokens_remaining - tokens_out <= i128::MAX && !(i128::MIN <= old(self).tokens_sold
                + tokens_out <= i128::MAX) ==> r == Err::<(), Error>(Error::Overflow) && *final(self) == *old(self),
            i128::MIN <= old(self).xlm_reserve + xlm_in <= i128::MAX && i128::MIN <= old(
                self,
            ).tokens_remaining - tokens_out <= i128::MAX && i128::MIN <= old(self).tokens_sold
                + tokens_out <= i128::MAX ==> r == Ok::<(), Error>(()) && *final(self)
                == (BondingCurve {
                xlm_reserve: (old(self).xlm_reserve + xlm_in) as i128,
                tokens_remaining: (old(self).tokens_remaining - tokens_out) as i128,
                tokens_sold: (old(self).tokens_sold + tokens_out) as i128,
                ..*old(self)
            }),
            old(self).well_formed() && xlm_in > 0 && tokens_out > 0 && tokens_out
                == buy_tokens_value(
                old(self).xlm_reserve as int,
                old(self).tokens_remaining as int,
                old(self).k as int,
                xlm_in as int,
            ) && old(self).xlm_reserve + xlm_in <= i128::MAX ==> final(self).well_formed(),
    {
        let xlm_reserve = match self.xlm_reserve.checked_add(xlm_in) {
            Some(v) => v,
            None => {
                return Err(Error::Overflow);
            },
        };
        let tokens_remaining = match self.tokens_remaining.checked_sub(tokens_out) {
            Some(v) => v,
            None => {
                return Err(Error::Underflow);
            },
        };
        let tokens_sold = match self.tokens_sold.checked_add(tokens_out) {
            Some(v) => v,
            None => {
                return Err(Error::Overflow);
            },
        };

        proof {
            let b = old(self).xlm_reserve as int;
            let t = old(self).tokens_remaining as int;
            let k = old(self).k as int;
            let x = xlm_in as int;
            if old(self).well_formed() && xlm_in > 0 && tokens_out > 0 && tokens_out as int
                == buy_tokens_value(b, t, k, x) {
                lemma_fundamental_div_mod(k, b + x);
                assert((b + x) * (k / (b + x)) <= k);
                lemma_div_pos_is_pos(k, b + x);
            }
        }
        self.xlm_reserve = xlm_reserve;
        self.tokens_remaining = tokens_remaining;
        self.tokens_sold = tokens_sold;

        Ok(())
    }

    /// Apply the state change of a sell that was priced with
    /// `calculate_sell`. A change that would leave the 128-bit range is
    /// rejected with the state untouched.
    pub fn execute_sell(&mut self, xlm_out: i128, tokens_in: i128) -> (r: Result<(), Error>)
        ensures
            !(i128::MIN <= old(self).xlm_reserve - xlm_out <= i128::MAX) ==> r == Err::<(), Error>(
                Error::Underflow,
            ) && *final(self) == *old(self),
            i128::MIN <= old(self).xlm_reserve - xlm_out <= i128::MAX && !(i128::MIN <= old(
                self,
            ).tokens_remaining + tokens_in <= i128::MAX) ==> r == Err::<(), Error>(Error::Overflow)
                && *final(self) == *old(self),
            i128::MIN <= old(self).xlm_reserve - xlm_out <= i128::MAX && i128::MIN <= old(
                self,
            ).tokens_remaining + tokens_in <= i128::MAX && !(i128::MIN <= old(self).tokens_sold
                - tokens_in <= i128::MAX) ==> r == Err::<(), Error>(Error::Underflow) && *final(self) == *old(self),
            i128::MIN <= old(self).xlm_reserve - xlm_out <= i128::MAX && i128::MIN <= old(
                self,
            ).tokens_remaining + tokens_in <= i128::MAX && i128::MIN <= old(self).tokens_sold
                - tokens_in <= i128::MAX ==> r == Ok::<(), Error>(()) && *final(self)
                == (BondingCurve {
                xlm_reserve: (old(self).xlm_reserve - xlm_out) as i128,
                tokens_remaining: (old(self).tokens_remaining + tokens_in) as i128,
                tokens_sold: (old(self).tokens_sold - tokens_in) as i128,
                ..*old(self)
            }),
            old(self).well_formed() && 0 < tokens_in <= old(self).tokens_sold && xlm_out
                == sell_xlm_value(
                old(self).xlm_reserve as int,
                old(self).tokens_remaining as int,
                old(self).k as int,
                tokens_in as int,
            ) && xlm_out > 0 ==> final(self).well_formed(),
    {
        let xlm_reserve = match self.xlm_reserve.checked_sub(xlm_out) {
            Some(v) => v,
            None => {
                return Err(Error::Underflow);
            },
        };
        let tokens_remaining = match self.tokens_remaining.checked_add(tokens_in) {
            Some(v) => v,
            None => {
                return Err(Error::Overflow);
            },
        };
        let tokens_sold = match self.tokens_sold.checked_sub(tokens_in) {
            Some(v) => v,
            None => {
                return Err(Error::Underflow);
            },
        };

        proof {
            let b = old(self).xlm_reserve as int;
            let t = old(self).tokens_remaining as int;
            let k = old(self).k as int;
            let n = tokens_in as int;
            if old(self).well_formed() && 0 < tokens_in <= old(self).tokens_sold && xlm_out as int
                == sell_xlm_value(b, t, k, n) && xlm_out > 0 {
                lemma_fundamental_div_mod(k, t + n);
                vstd::arithmetic::div_mod::lemma_mod_bound(k, t + n);
                assert((t + n) * (k / (t + n)) <= k);
                assert((k / (t + n)) * (t + n) <= k) by (nonlinear_arith)
                    requires
                        (t + n) * (k / (t + n)) <= k,
                ;
                assert(k / (t + n) >= 1) by {
                    assert(t + n <= k);
                    lemma_div_is_ordered(t + n, k, t + n);
                    vstd::arithmetic::div_mod::lemma_div_by_self(t + n);
                }
            }
        }
        self.xlm_reserve = xlm_reserve;
        self.tokens_remaining = tokens_remaining;
        self.tokens_sold = tokens_sold;

        Ok(())
    }

    /// Spot price per token, fixed-point scaled; saturates at `i128::MAX`
    /// when the curve is empty or the product leaves the 128-bit range.
    pub fn get_current_price(&self) -> (r: i128)
        requires
            self.well_formed(),
        ensures
            r == saturating_price_value(self.xlm_reserve as int, self.tokens_remaining as int),
    {
        if self.tokens_remaining == 0 {
            return i128::MAX;
        }

        let scaled = match self.xlm_reserve.checked_mul(PRECISION) {
            Some(v) => v,
            None => {
                return i128::MAX;
            },
        };
        proof {
            lemma_div_pos_is_pos(scaled as int, self.tokens_remaining as int);
            lemma_div_nonincreasing(scaled as int, self.tokens_remaining as int);
        }
        match scaled.checked_div(self.tokens_remaining) {
            Some(v) => v,
            None => i128::MAX,
        }
    }

    /// Market capitalization: twice the base reserve, by constant-product
    /// symmetry; saturates at `i128::MAX`.
    pub fn get_market_cap(&self) -> (r: i128)
        ensures
            i128::MIN <= self.xlm_reserve * 2 <= i128::MAX ==> r == self.xlm_reserve * 2,
            !(i128::MIN <= self.xlm_reserve * 2 <= i128::MAX) ==> r == i128::MAX,
    {
        match self.xlm_reserve.checked_mul(2) {
            Some(v) => v,
            None => i128::MAX,
        }
    }
}

} // verus!
