//! Quadratic bonding curve: the spot price grows with the square of the
//! circulating supply, and a sell pays a fixed two-percent discount under
//! the spot price.

use vstd::prelude::*;
use vstd::arithmetic::div_mod::lemma_div_pos_is_pos;
use vstd::arithmetic::mul::lemma_mul_nonnegative;

verus! {

/// Fixed-point scale of prices: seven decimals.
pub const PRICE_PRECISION: i128 = 10_000_000;

/// The supply ratio the price formula squares, scaled by 10000.
pub open spec fn supply_ratio_value(circulating_supply: int, k: int) -> int {
    circulating_supply * 10000 / k
}

/// Spot price of the quadratic curve: the base price times the squared
/// supply ratio.
pub open spec fn quad_price_value(circulating_supply: int, k: int, base_price: int) -> int {
    if circulating_supply == 0 {
        base_price
    } else {
        let ratio = supply_ratio_value(circulating_supply, k);
        base_price * (ratio * ratio / 10000) / 10000
    }
}

/// Average price a buy of `xlm_amount` pays: the spot price plus the
/// price movement the trade itself causes, estimated against the reserve.
pub open spec fn avg_buy_price_value(
    circulating_supply: int,
    k: int,
    base_price: int,
    xlm_reserve: int,
    xlm_amount: int,
) -> int {
    let price = quad_price_value(circulating_supply, k, base_price);
    price + price * xlm_amount / (xlm_reserve + 1)
}

/// Bonding curve with a quadratic price function.
#[derive(Copy, Clone, Debug, Eq, PartialEq)]
pub struct BondingCurve {
    /// Tokens sold so far.
    pub circulating_supply: i128,
    /// Total supply available.
    pub total_supply: i128,
    /// Base price per token, fixed-point scaled.
    pub base_price: i128,
    /// Curve steepness constant.
    pub k: i128,
    /// Base-asset reserve held against the sold tokens.
    pub xlm_reserve: i128,
}

impl BondingCurve {
    /// The numeric fields stay in the ranges the price formulas need.
    pub open spec fn well_formed(self) -> bool {
        &&& self.circulating_supply >= 0
        &&& self.base_price >= 0
        &&& self.k >= 1
        &&& self.xlm_reserve >= 0
    }

    /// The price formula's intermediate products fit in 128 bits.
    pub open spec fn price_fits(self) -> bool {
        let ratio = supply_ratio_value(self.circulating_supply as int, self.k as int);
        &&& self.circulating_supply * 10000 <= i128::MAX
        &&& ratio * ratio <= i128::MAX
        &&& self.base_price * (ratio * ratio / 10000) <= i128::MAX
    }

    /// Create a curve with the default base price and steepness.
    pub fn new(total_supply: i128) -> (r: BondingCurve)
        ensures
            r == (BondingCurve {
                circulating_supply: 0,
                total_supply,
                base_price: 1_000,
                k: 1_000_000,
                xlm_reserve: 0,
            }),
            r.well_formed(),
    {
        BondingCurve {
            circulating_supply: 0,
            total_supply,
            base_price: 1_000,
            k: 1_000_000,
            xlm_reserve: 0,
        }
    }

    /// Spot price per token, fixed-point scaled.
    pub fn get_current_price(&self) -> (r: i128)
        requires
            self.well_formed(),
            self.price_fits(),
        ensures
            r == quad_price_value(
                self.circulating_supply as int,
                self.k as int,
                self.base_price as int,
            ),
            r >= 0,
    {
        if self.circulating_supply == 0 {
            return self.base_price;
        }

        proof {
            let c = self.circulating_supply as int;
            let k = self.k as int;
            let b = self.base_price as int;
            lemma_mul_nonnegative(c, 10000);
            lemma_div_pos_is_pos(c * 10000, k);
            let ratio = c * 10000 / k;
            lemma_mul_nonnegative(ratio, ratio);
            lemma_div_pos_is_pos(ratio * ratio, 10000);
            lemma_mul_nonnegative(b, ratio * ratio / 10000);
            lemma_div_pos_is_pos(b * (ratio * ratio / 10000), 10000);
        }
        let ratio = (self.circulating_supply * 10_000) / self.k;
        let ratio_squared = (ratio * ratio) / 10_000;

        (self.base_price * ratio_squared) / 10_000
    }

    /// Tokens a buy of `xlm_amount` receives: the spent amount divided by
    /// the average price of the trade.
    pub fn calculate_buy_amount(&self, xlm_amount: i128) -> (r: i128)
        requires
            self.well_formed(),
            self.price_fits(),
            xlm_amount >= 0,
            quad_price_value(
                self.circulating_supply as int,
                self.k as int,
                self.base_price as int,
            ) * xlm_amount <= i128::MAX,
            0 < avg_buy_price_value(
                self.circulating_supply as int,
                self.k as int,
                self.base_price as int,
                self.xlm_reserve as int,
                xlm_amount as int,
            ) <= i128::MAX,
            self.xlm_reserve < i128::MAX,
            xlm_amount * 10_000_000 <= i128::MAX,
        ensures
            r == xlm_amount * 10_000_000 / avg_buy_price_value(
                self.circulating_supply as int,
                self.k as int,
                self.base_price as int,
                self.xlm_reserve as int,
                xlm_amount as int,
            ),
    {
        let current_price = self.get_current_price();

        proof {
            lemma_mul_nonnegative(current_price as int, xlm_amount as int);
            lemma_div_pos_is_pos(current_price as int * xlm_amount as int, self.xlm_reserve as int + 1);
            lemma_mul_nonnegative(xlm_amount as int, 10_000_000);
        }
        let avg_price = current_price + (current_price * xlm_amount) / (self.xlm_reserve + 1);

        (xlm_amount * 10_000_000) / avg_price
    }

    /// Base asset a sell of `token_amount` receives, at a two-percent
    /// discount under the spot price.
    pub fn calculate_sell_amount(&self, token_amount: i128) -> (r: i128)
        requires
            self.well_formed(),
            self.price_fits(),
            token_amount >= 0,
            quad_price_value(
                self.circulating_supply as int,
                self.k as int,
                self.base_price as int,
            ) * 98 <= i128::MAX,
            token_amount * (quad_price_value(
                self.circulating_supply as int,
                self.k as int,
                self.base_price as int,
            ) * 98 / 100) <= i128::MAX,
        ensures
            r == token_amount * (quad_price_value(
                self.circulating_supply as int,
                self.k as int,
                self.base_price as int,
            ) * 98 / 100) / 10_000_000,
    {
        let current_price = self.get_current_price();

        proof {
            lemma_mul_nonnegative(current_price as int, 98);
            lemma_div_pos_is_pos(current_price as int * 98, 100);
            lemma_mul_nonnegative(
                token_amount as int,
                current_price as int * 98 / 100,
            );
            lemma_div_pos_is_pos(
                token_amount as int * (current_price as int * 98 / 100),
                10_000_000,
            );
        }
        let sell_price = (current_price * 98) / 100;

        (token_amount * sell_price) / 10_000_000
    }

    /// Record a settled buy: the tokens join the circulating supply and the
    /// spent base asset joins the reserve.
    pub fn apply_buy(&mut self, xlm_spent: i128, tokens_received: i128)
        requires
            old(self).circulating_supply + tokens_received <= i128::MAX,
            old(self).circulating_supply + tokens_received >= i128::MIN,
            old(self).xlm_reserve + xlm_spent <= i128::MAX,
            old(self).xlm_reserve + xlm_spent >= i128::MIN,
        ensures
            *final(self) == (BondingCurve {
                circulating_supply: (old(self).circulating_supply + tokens_received) as i128,
                xlm_reserve: (old(self).xlm_reserve + xlm_spent) as i128,
                ..*old(self)
            }),
    {
        self.circulating_supply = self.circulating_supply + tokens_received;
        self.xlm_reserve = self.xlm_reserve + xlm_spent;
    }

    /// Record a settled sell: the tokens leave the circulating supply and
    /// the paid base asset leaves the reserve.
    pub fn apply_sell(&mut self, xlm_received: i128, tokens_sold: i128)
        requires
            old(self).circulating_supply - tokens_sold <= i128::MAX,
            old(self).circulating_supply - tokens_sold >= i128::MIN,
            old(self).xlm_reserve - xlm_received <= i128::MAX,
            old(self).xlm_reserve - xlm_received >= i128::MIN,
        ensures
            *final(self) == (BondingCurve {
                circulating_supply: (old(self).circulating_supply - tokens_sold) as i128,
                xlm_reserve: (old(self).xlm_reserve - xlm_received) as i128,
                ..*old(self)
            }),
    {
        self.circulating_supply = self.circulating_supply - tokens_sold;
        self.xlm_reserve = self.xlm_reserve - xlm_received;
    }

    /// Market capitalization: the circulating supply valued at the spot
    /// price.
    pub fn get_market_cap(&self) -> (r: i128)
        requires
            self.well_formed(),
            self.price_fits(),
            self.circulating_supply * quad_price_value(
                self.circulating_supply as int,
                self.k as int,
                self.base_price as int,
            ) <= i128::MAX,
        ensures
            r == self.circulating_supply * quad_price_value(
                self.circulating_supply as int,
                self.k as int,
                self.base_price as int,
            ) / 10_000_000,
    {
        let price = self.get_current_price();
        proof {
            lemma_mul_nonnegative(self.circulating_supply as int, price as int);
            lemma_div_pos_is_pos(self.circulating_supply as int * price as int, 10_000_000);
        }
        (self.circulating_supply * price) / 10_000_000
    }
}

} // verus!
