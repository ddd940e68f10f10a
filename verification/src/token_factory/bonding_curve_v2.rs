//! Multi-shape bonding curve with a sell penalty.
//!
//! The spot price is a pluggable function of the circulating supply: linear
//! growth, a truncated-series exponential, or a piecewise sigmoid blend of
//! the two. A sell pays `sell_penalty_bps` less than the spot value, buys
//! are never penalized; the steeper curves carry the higher penalty.

use vstd::prelude::*;
use vstd::arithmetic::div_mod::{lemma_div_nonincreasing, lemma_div_pos_is_pos};
use super::errors::Error;

verus! {

/// Fixed-point scale of the curve arithmetic.
pub const PRECISION: i128 = 1_000_000;

/// Fixed-point scale of prices: seven decimals.
pub const PRICE_PRECISION: i128 = 10_000_000;

/// Curve shapes.
#[derive(Copy, Clone, Debug, PartialEq, Eq)]
pub enum CurveType {
    /// Price grows linearly with supply.
    Linear,
    /// Price grows exponentially with supply.
    Exponential,
    /// Slow start, aggressive middle, slow end.
    Sigmoid,
}

/// A value saturated at the top of the 128-bit range.
pub open spec fn sat_cap(v: int) -> int {
    if v > i128::MAX {
        i128::MAX as int
    } else {
        v
    }
}

/// Linear spot price: the base price plus the scaled supply over `k`.
pub open spec fn price_linear_value(c: int, k: int, base: int) -> int {
    sat_cap(base + sat_cap(c * 1_000_000) / k)
}

/// The scaled exponent argument of the exponential price.
pub open spec fn exp_x_value(c: int, k: int) -> int {
    sat_cap(c * 1_000_000) / k
}

/// The truncated series `1 + x + x^2/2` the exponential price uses, in
/// fixed point.
pub open spec fn exp_series_value(c: int, k: int) -> int {
    let x = exp_x_value(c, k);
    let x_squared = sat_cap(x * x) / 1_000_000;
    1_000_000 + x + x_squared / 2
}

/// Exponential spot price: the base price scaled by the truncated series.
pub open spec fn price_exponential_value(c: int, k: int, base: int) -> int {
    if c == 0 {
        base
    } else {
        sat_cap(base * exp_series_value(c, k)) / 1_000_000
    }
}

/// Sigmoid spot price: half the linear price early, the exponential price
/// in the middle, twice the linear price late.
pub open spec fn price_sigmoid_value(c: int, k: int, base: int, total: int) -> int {
    let midpoint = total / 2;
    if c < midpoint / 2 {
        price_linear_value(c, k, base) / 2
    } else if c < midpoint * 3 / 2 {
        price_exponential_value(c, k, base)
    } else {
        price_linear_value(c, k, base) * 2
    }
}

/// Bonding curve with a pluggable shape.
#[derive(Copy, Clone, Debug, PartialEq, Eq)]
pub struct BondingCurveV2 {
    /// Shape of the price function.
    pub curve_type: CurveType,
    /// Tokens sold so far.
    pub circulating_supply: i128,
    /// Total supply available.
    pub total_supply: i128,
    /// Base price per token, fixed-point scaled.
    pub base_price: i128,
    /// Curve steepness constant.
    pub k: i128,
    /// Base-asset reserve held against the sold tokens.
    pub xlm_reserve: i128,
    /// Discount taken from every sell, in basis points.
    pub sell_penalty_bps: i64,
}

impl BondingCurveV2 {
    /// The numeric fields stay in the ranges the price formulas need.
    pub open spec fn well_formed(self) -> bool {
        &&& self.circulating_supply >= 0
        &&& self.base_price >= 0
        &&& self.k >= 1
        &&& self.xlm_reserve >= 0
        &&& 0 <= self.sell_penalty_bps <= 10000
    }

    /// Spot price of this curve's shape at its current supply.
    pub open spec fn price_value(self) -> int {
        let c = self.circulating_supply as int;
        let k = self.k as int;
        let base = self.base_price as int;
        if c == 0 {
            base
        } else {
            match self.curve_type {
                CurveType::Linear => price_linear_value(c, k, base),
                CurveType::Exponential => price_exponential_value(c, k, base),
                CurveType::Sigmoid => price_sigmoid_value(c, k, base, self.total_supply as int),
            }
        }
    }

    /// The additions and scalings of the price formula fit in 128 bits.
    pub open spec fn price_fits(self) -> bool {
        let c = self.circulating_supply as int;
        let k = self.k as int;
        let base = self.base_price as int;
        let total = self.total_supply as int;
        match self.curve_type {
            CurveType::Linear => true,
            CurveType::Exponential => c > 0 ==> exp_series_value(c, k) <= i128::MAX,
            CurveType::Sigmoid => c > 0 ==> {
                &&& total >= 0
                &&& total / 2 * 3 <= i128::MAX
                &&& (total / 2 / 2 <= c < total / 2 * 3 / 2 ==> exp_series_value(c, k)
                    <= i128::MAX)
                &&& (c >= total / 2 * 3 / 2 ==> price_linear_value(c, k, base) * 2 <= i128::MAX)
            },
        }
    }

    /// Create a linear curve with the default parameters.
    pub fn new_linear(total_supply: i128) -> (r: BondingCurveV2)
        ensures
            r == (BondingCurveV2 {
                curve_type: CurveType::Linear,
                circulating_supply: 0,
                total_supply,
                base_price: 100,
                k: 1_000_000_000,
                xlm_reserve: 0,
                sell_penalty_bps: 200,
            }),
            r.well_formed(),
    {
        BondingCurveV2 {
            curve_type: CurveType::Linear,
            circulating_supply: 0,
            total_supply,
            base_price: 100,
            k: 1_000_000_000,
            xlm_reserve: 0,
            sell_penalty_bps: 200,
        }
    }

    /// Create an exponential curve: a smaller constant for faster growth
    /// and a higher sell penalty against dumps.
    pub fn new_exponential(total_supply: i128) -> (r: BondingCurveV2)
        ensures
            r == (BondingCurveV2 {
                curve_type: CurveType::Exponential,
                circulating_supply: 0,
                total_supply,
                base_price: 100,
                k: 100_000_000,
                xlm_reserve: 0,
                sell_penalty_bps: 300,
            }),
            r.well_formed(),
    {
        BondingCurveV2 {
            curve_type: CurveType::Exponential,
            circulating_supply: 0,
            total_supply,
            base_price: 100,
            k: 100_000_000,
            xlm_reserve: 0,
            sell_penalty_bps: 300,
        }
    }

    /// Create a sigmoid curve with the default parameters.
    pub fn new_sigmoid(total_supply: i128) -> (r: BondingCurveV2)
        ensures
            r == (BondingCurveV2 {
                curve_type: CurveType::Sigmoid,
                circulating_supply: 0,
                total_supply,
                base_price: 100,
                k: 500_000_000,
                xlm_reserve: 0,
                sell_penalty_bps: 200,
            }),
            r.well_formed(),
    {
        BondingCurveV2 {
            curve_type: CurveType::Sigmoid,
            circulating_supply: 0,
            total_supply,
            base_price: 100,
            k: 500_000_000,
            xlm_reserve: 0,
            sell_penalty_bps: 200,
        }
    }

    /// Linear spot price.
    fn price_linear(&self) -> (r: i128)
        requires
            self.well_formed(),
        ensures
            r == price_linear_value(
                self.circulating_supply as int,
                self.k as int,
                self.base_price as int,
            ),
            r >= 0,
    {
        let scaled = match self.circulating_supply.checked_mul(PRECISION) {
            Some(v) => v,
            None => i128::MAX,
        };
        proof {
            lemma_div_pos_is_pos(scaled as int, self.k as int);
            lemma_div_nonincreasing(scaled as int, self.k as int);
        }
        let price_increase = match scaled.checked_div(self.k) {
            Some(v) => v,
            None => 0,
        };

        match self.base_price.checked_add(price_increase) {
            Some(v) => v,
            None => i128::MAX,
        }
    }

    /// Exponential spot price, by the truncated series.
    fn price_exponential(&self) -> (r: i128)
        requires
            self.well_formed(),
            self.circulating_supply > 0 ==> exp_series_value(
                self.circulating_supply as int,
                self.k as int,
            ) <= i128::MAX,
        ensures
            r == price_exponential_value(
                self.circulating_supply as int,
                self.k as int,
                self.base_price as int,
            ),
            r >= 0,
    {
        if self.circulating_supply == 0 {
            return self.base_price;
        }

        let scaled = match self.circulating_supply.checked_mul(PRECISION) {
            Some(v) => v,
            None => i128::MAX,
        };
        proof {
            lemma_div_pos_is_pos(scaled as int, self.k as int);
            lemma_div_nonincreasing(scaled as int, self.k as int);
        }
        let x = match scaled.checked_div(self.k) {
            Some(v) => v,
            None => 0,
        };

        proof {
            assert(x as int * (x as int) >= 0) by (nonlinear_arith)
                requires
                    x >= 0,
            ;
        }
        let x_scaled = match x.checked_mul(x) {
            Some(v) => v,
            None => i128::MAX,
        };
        proof {
            lemma_div_pos_is_pos(x_scaled as int, 1_000_000);
            lemma_div_nonincreasing(x_scaled as int, 1_000_000);
        }
        let x_squared = match x_scaled.checked_div(PRECISION) {
            Some(v) => v,
            None => 0,
        };

        let exp_approx = PRECISION + x + x_squared / 2;

        proof {
            assert(self.base_price as int * (exp_approx as int) >= 0) by (nonlinear_arith)
                requires
                    self.base_price >= 0,
                    exp_approx >= 0,
            ;
        }
        let scaled_price = match self.base_price.checked_mul(exp_approx) {
            Some(v) => v,
            None => i128::MAX,
        };
        proof {
            lemma_div_pos_is_pos(scaled_price as int, 1_000_000);
            lemma_div_nonincreasing(scaled_price as int, 1_000_000);
        }
        match scaled_price.checked_div(PRECISION) {
            Some(v) => v,
            None => i128::MAX,
        }
    }

    /// Sigmoid spot price: a piecewise blend of the other two shapes.
    fn price_sigmoid(&self) -> (r: i128)
        requires
            self.well_formed(),
            self.total_supply >= 0,
            self.total_supply as int / 2 * 3 <= i128::MAX,
            (self.total_supply as int / 2 / 2 <= self.circulating_supply as int)
                && (self.circulating_supply as int) < self.total_supply as int / 2 * 3 / 2
                ==> exp_series_value(self.circulating_supply as int, self.k as int) <= i128::MAX,
            self.circulating_supply as int >= self.total_supply as int / 2 * 3 / 2
                ==> price_linear_value(
                self.circulating_supply as int,
                self.k as int,
                self.base_price as int,
            ) * 2 <= i128::MAX,
        ensures
            r == price_sigmoid_value(
                self.circulating_supply as int,
                self.k as int,
                self.base_price as int,
                self.total_supply as int,
            ),
            r >= 0,
    {
        let midpoint = self.total_supply / 2;

        if self.circulating_supply < midpoint / 2 {
            let p = self.price_linear();
            proof {
                lemma_div_pos_is_pos(p as int, 2);
            }
            p / 2
        } else if self.circulating_supply < midpoint * 3 / 2 {
            self.price_exponential()
        } else {
            self.price_linear() * 2
        }
    }

    /// Spot price per token at the current supply, fixed-point scaled.
    pub fn get_current_price(&self) -> (r: i128)
        requires
            self.well_formed(),
            self.price_fits(),
        ensures
            r == self.price_value(),
            r >= 0,
    {
        if self.circulating_supply == 0 {
            return self.base_price;
        }

        match self.curve_type {
            CurveType::Linear => self.price_linear(),
            CurveType::Exponential => self.price_exponential(),
            CurveType::Sigmoid => self.price_sigmoid(),
        }
    }

    /// Tokens a buy of `xlm_amount` receives at the current spot price.
    pub fn calculate_buy_amount(&self, xlm_amount: i128) -> (r: Result<i128, Error>)
        requires
            self.well_formed(),
            self.price_fits(),
        ensures
            xlm_amount <= 0 ==> r == Err::<i128, Error>(Error::AmountTooSmall),
            xlm_amount > 0 && xlm_amount * 10_000_000 > i128::MAX ==> r == Err::<i128, Error>(
                Error::Overflow,
            ),
            xlm_amount > 0 && xlm_amount * 10_000_000 <= i128::MAX && self.price_value() == 0 ==> r
                == Err::<i128, Error>(Error::DivisionByZero),
            xlm_amount > 0 && xlm_amount * 10_000_000 <= i128::MAX && self.price_value() > 0 ==> ({
                let v = xlm_amount * 10_000_000 / self.price_value();
                0 <= v <= i128::MAX && r == Ok::<i128, Error>(v as i128)
            }),
    {
        if xlm_amount <= 0 {
            return Err(Error::AmountTooSmall);
        }

        let current_price = self.get_current_price();

        let scaled = match xlm_amount.checked_mul(PRICE_PRECISION) {
            Some(v) => v,
            None => {
                return Err(Error::Overflow);
            },
        };
        proof {
            if current_price > 0 {
                lemma_div_pos_is_pos(scaled as int, current_price as int);
                lemma_div_nonincreasing(scaled as int, current_price as int);
            }
        }
        match scaled.checked_div(current_price) {
            Some(v) => Ok(v),
            None => Err(Error::DivisionByZero),
        }
    }

    /// Base asset a sell of `token_amount` receives: the spot value minus
    /// the sell penalty.
    pub fn calculate_sell_amount(&self, token_amount: i128) -> (r: Result<i128, Error>)
        requires
            self.well_formed(),
            self.price_fits(),
        ensures
            token_amount <= 0 ==> r == Err::<i128, Error>(Error::AmountTooSmall),
            token_amount > 0 && token_amount > self.circulating_supply ==> r == Err::<i128, Error>(
                Error::InsufficientBalance,
            ),
            0 < token_amount <= self.circulating_supply && token_amount * self.price_value()
                > i128::MAX ==> r == Err::<i128, Error>(Error::Overflow),
            0 < token_amount <= self.circulating_supply && token_amount * self.price_value()
                <= i128::MAX ==> ({
                let gross = token_amount * self.price_value() / 10_000_000;
                let penalty = gross * self.sell_penalty_bps / 10000;
                0 <= penalty <= gross && gross <= i128::MAX && r == Ok::<i128, Error>(
                    (gross - penalty) as i128,
                )
            }),
    {
        if token_amount <= 0 {
            return Err(Error::AmountTooSmall);
        }
        if token_amount > self.circulating_supply {
            return Err(Error::InsufficientBalance);
        }

        let current_price = self.get_current_price();

        proof {
            assert(token_amount as int * (current_price as int) >= 0) by (nonlinear_arith)
                requires
                    token_amount >= 0,
                    current_price >= 0,
            ;
        }
        let scaled = match token_amount.checked_mul(current_price) {
            Some(v) => v,
            None => {
                return Err(Error::Overflow);
            },
        };
        proof {
            lemma_div_pos_is_pos(scaled as int, 10_000_000);
            lemma_div_nonincreasing(scaled as int, 10_000_000);
        }
        let xlm_before_penalty = match scaled.checked_div(PRICE_PRECISION) {
            Some(v) => v,
            None => {
                return Err(Error::DivisionByZero);
            },
        };

        proof {
            assert(xlm_before_penalty as int * (self.sell_penalty_bps as int) >= 0
                && xlm_before_penalty as int * (self.sell_penalty_bps as int)
                <= xlm_before_penalty as int * 10000) by (nonlinear_arith)
                requires
                    xlm_before_penalty >= 0,
                    0 <= self.sell_penalty_bps <= 10000,
            ;
        }
        let penalty_scaled = match xlm_before_penalty.checked_mul(self.sell_penalty_bps as i128) {
            Some(v) => v,
            None => {
                return Err(Error::Overflow);
            },
        };
        proof {
            lemma_div_pos_is_pos(penalty_scaled as int, 10000);
            lemma_div_nonincreasing(penalty_scaled as int, 10000);
            vstd::arithmetic::div_mod::lemma_div_is_ordered(
                penalty_scaled as int,
                xlm_before_penalty as int * 10000,
                10000,
            );
            vstd::arithmetic::div_mod::lemma_div_multiples_vanish(xlm_before_penalty as int, 10000);
            assert(xlm_before_penalty as int * 10000 == 10000 * (xlm_before_penalty as int))
                by (nonlinear_arith);
        }
        let penalty = match penalty_scaled.checked_div(10_000) {
            Some(v) => v,
            None => {
                return Err(Error::DivisionByZero);
            },
        };

        match xlm_before_penalty.checked_sub(penalty) {
            Some(v) => Ok(v),
            None => Err(Error::Underflow),
        }
    }

    /// Market capitalization: the circulating supply valued at the spot
    /// price.
    pub fn get_market_cap(&self) -> (r: Result<i128, Error>)
        requires
            self.well_formed(),
            self.price_fits(),
        ensures
            self.circulating_supply * self.price_value() > i128::MAX ==> r == Err::<i128, Error>(
                Error::Overflow,
            ),
            self.circulating_supply * self.price_value() <= i128::MAX ==> r == Ok::<i128, Error>(
                (self.circulating_supply * self.price_value() / 10_000_000) as i128,
            ),
    {
        let price = self.get_current_price();

        proof {
            assert(self.circulating_supply as int * (price as int) >= 0) by (nonlinear_arith)
                requires
                    self.circulating_supply >= 0,
                    price >= 0,
            ;
        }
        let scaled = match self.circulating_supply.checked_mul(price) {
            Some(v) => v,
            None => {
                return Err(Error::Overflow);
            },
        };
        proof {
            lemma_div_pos_is_pos(scaled as int, 10_000_000);
            lemma_div_nonincreasing(scaled as int, 10_000_000);
        }
        match scaled.checked_div(PRICE_PRECISION) {
            Some(v) => Ok(v),
            None => Err(Error::DivisionByZero),
        }
    }

    /// Record a settled buy: the tokens join the circulating supply and the
    /// spent base asset joins the reserve. A change that would leave the
    /// 128-bit range is rejected with the state untouched.
    pub fn apply_buy(&mut self, xlm_spent: i128, tokens_received: i128) -> (r: Result<(), Error>)
        ensures
            !(i128::MIN <= old(self).circulating_supply + tokens_received <= i128::MAX) ==> r
                == Err::<(), Error>(Error::Overflow) && *final(self) == *old(self),
            i128::MIN <= old(self).circulating_supply + tokens_received <= i128::MAX && !(i128::MIN
                <= old(self).xlm_reserve + xlm_spent <= i128::MAX) ==> r == Err::<(), Error>(
                Error::Overflow,
            ) && *final(self) == *old(self),
            i128::MIN <= old(self).circulating_supply + tokens_received <= i128::MAX && i128::MIN
                <= old(self).xlm_reserve + xlm_spent <= i128::MAX ==> r == Ok::<(), Error>(())
                && *final(self) == (BondingCurveV2 {
                circulating_supply: (old(self).circulating_supply + tokens_received) as i128,
                xlm_reserve: (old(self).xlm_reserve + xlm_spent) as i128,
                ..*old(self)
            }),
    {
        let circulating_supply = match self.circulating_supply.checked_add(tokens_received) {
            Some(v) => v,
            None => {
                return Err(Error::Overflow);
            },
        };
        let xlm_reserve = match self.xlm_reserve.checked_add(xlm_spent) {
            Some(v) => v,
            None => {
                return Err(Error::Overflow);
            },
        };
        self.circulating_supply = circulating_supply;
        self.xlm_reserve = xlm_reserve;
        Ok(())
    }

    /// Record a settled sell: the tokens leave the circulating supply and
    /// the paid base asset leaves the reserve. A change that would leave
    /// the 128-bit range is rejected with the state untouched.
    pub fn apply_sell(&mut self, xlm_received: i128, tokens_sold: i128) -> (r: Result<(), Error>)
        ensures
            !(i128::MIN <= old(self).circulating_supply - tokens_sold <= i128::MAX) ==> r == Err::<
                (),
                Error,
            >(Error::Underflow) && *final(self) == *old(self),
            i128::MIN <= old(self).circulating_supply - tokens_sold <= i128::MAX && !(i128::MIN
                <= old(self).xlm_reserve - xlm_received <= i128::MAX) ==> r == Err::<(), Error>(
                Error::Underflow,
            ) && *final(self) == *old(self),
            i128::MIN <= old(self).circulating_supply - tokens_sold <= i128::MAX && i128::MIN
                <= old(self).xlm_reserve - xlm_received <= i128::MAX ==> r == Ok::<(), Error>(())
                && *final(self) == (BondingCurveV2 {
                circulating_supply: (old(self).circulating_supply - tokens_sold) as i128,
                xlm_reserve: (old(self).xlm_reserve - xlm_received) as i128,
                ..*old(self)
            }),
    {
        let circulating_supply = match self.circulating_supply.checked_sub(tokens_sold) {
            Some(v) => v,
            None => {
                return Err(Error::Underflow);
            },
        };
        let xlm_reserve = match self.xlm_reserve.checked_sub(xlm_received) {
            Some(v) => v,
            None => {
                return Err(Error::Underflow);
            },
        };
        self.circulating_supply = circulating_supply;
        self.xlm_reserve = xlm_reserve;
        Ok(())
    }
}

} // verus!
