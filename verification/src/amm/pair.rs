//! State transforms of a constant-product pair.
//!
//! Each operation takes the pool snapshot and the trade inputs and returns
//! the new snapshot together with the settlement amounts, or a typed error.
//! The caller persists the snapshot, moves the tokens and handles deadlines
//! and authorization.

use vstd::prelude::*;
use vstd::arithmetic::div_mod::{
    lemma_div_is_ordered, lemma_div_multiples_vanish, lemma_div_pos_is_pos,
    lemma_multiply_divide_lt,
};
use vstd::arithmetic::mul::lemma_mul_nonnegative;
use super::errors::Error;
use super::laws::lemma_k_strictly_increases;
use super::math::{amount_out_value, floor_sqrt, quote_value};
use super::math_v2;
use super::math_v2::amount_out_fits;
use super::validation::MINIMUM_LIQUIDITY;

verus! {

/// Snapshot of a pair: the two reserves, the liquidity-token supply, and
/// the reserve product recorded by the last fee settlement.
#[derive(Copy, Clone, Debug, Eq, PartialEq)]
pub struct PairState {
    pub reserve_0: i128,
    pub reserve_1: i128,
    pub total_supply: i128,
    pub k_last: i128,
}

impl PairState {
    /// Reserves and supply are non-negative, and the pool either holds no
    /// liquidity at all or positive amounts of both tokens.
    pub open spec fn well_formed(self) -> bool {
        &&& self.reserve_0 >= 0
        &&& self.reserve_1 >= 0
        &&& self.total_supply >= 0
        &&& self.total_supply == 0 ==> self.reserve_0 == 0 && self.reserve_1 == 0
        &&& self.total_supply > 0 ==> self.reserve_0 > 0 && self.reserve_1 > 0
    }
}

/// Marker for the pair engine; the operations are associated functions over
/// explicit `PairState` snapshots.
pub struct AMMPair;

/// Amounts actually deposited when liquidity is added to a pool that
/// already holds reserves: the first option keeps the full desired amount
/// of token 0.
pub open spec fn keeps_desired_0(state: PairState, amount_0_desired: int, amount_1_desired: int) -> bool {
    quote_value(amount_0_desired, state.reserve_0 as int, state.reserve_1 as int)
        <= amount_1_desired
}

/// The two amounts a deposit on a live pool settles at.
pub open spec fn deposit_amounts(
    state: PairState,
    amount_0_desired: int,
    amount_1_desired: int,
) -> (int, int) {
    if keeps_desired_0(state, amount_0_desired, amount_1_desired) {
        (
            amount_0_desired,
            quote_value(amount_0_desired, state.reserve_0 as int, state.reserve_1 as int),
        )
    } else {
        (
            quote_value(amount_1_desired, state.reserve_1 as int, state.reserve_0 as int),
            amount_1_desired,
        )
    }
}

/// A deposit on a live pool passes its slippage floors: whichever desired
/// amount is scaled down must stay at or above its floor, and a scaled-down
/// token-0 amount must not exceed what was offered.
pub open spec fn deposit_within_bounds(
    state: PairState,
    amount_0_desired: int,
    amount_1_desired: int,
    amount_0_min: int,
    amount_1_min: int,
) -> bool {
    let (a0, a1) = deposit_amounts(state, amount_0_desired, amount_1_desired);
    if keeps_desired_0(state, amount_0_desired, amount_1_desired) {
        a1 >= amount_1_min
    } else {
        a0 <= amount_0_desired && a0 >= amount_0_min
    }
}

/// The liquidity a deposit on a live pool earns: the smaller proportional
/// share of the two amounts.
pub open spec fn deposit_liquidity(
    state: PairState,
    amount_0_desired: int,
    amount_1_desired: int,
) -> int {
    let (a0, a1) = deposit_amounts(state, amount_0_desired, amount_1_desired);
    vstd::math::min(
        a0 * state.total_supply / state.reserve_0 as int,
        a1 * state.total_supply / state.reserve_1 as int,
    )
}

impl AMMPair {
    /// A freshly initialized pair: no reserves and no liquidity.
    pub fn initialize() -> (r: PairState)
        ensures
            r == (PairState { reserve_0: 0, reserve_1: 0, total_supply: 0, k_last: 0 }),
            r.well_formed(),
    {
        PairState { reserve_0: 0, reserve_1: 0, total_supply: 0, k_last: 0 }
    }

    /// Add liquidity. On the first deposit the desired amounts are taken in
    /// full and `sqrt(amount_0 * amount_1)` liquidity units are created, of
    /// which `MINIMUM_LIQUIDITY` stay locked forever; later deposits are
    /// scaled down to the current reserve ratio and receive a proportional
    /// share of the supply. Returns the new snapshot, the amounts actually
    /// deposited, and the liquidity units created for the sender.
    pub fn add_liquidity(
        state: &PairState,
        amount_0_desired: i128,
        amount_1_desired: i128,
        amount_0_min: i128,
        amount_1_min: i128,
    ) -> (r: Result<(PairState, i128, i128, i128), Error>)
        requires
            state.well_formed(),
            amount_0_desired > 0,
            amount_1_desired > 0,
            amount_0_min >= 0,
            amount_1_min >= 0,
        ensures
            match r {
                Ok((s, a0, a1, liquidity)) => {
                    &&& s.well_formed()
                    &&& a0 > 0
                    &&& a1 >= 0
                    &&& liquidity > 0
                    &&& s.reserve_0 == state.reserve_0 + a0
                    &&& s.reserve_1 == state.reserve_1 + a1
                    &&& s.k_last == state.k_last
                    &&& if state.total_supply == 0 {
                        &&& a0 == amount_0_desired
                        &&& a1 == amount_1_desired
                        &&& liquidity == floor_sqrt(amount_0_desired * amount_1_desired) - 1000
                        &&& s.total_supply == floor_sqrt(amount_0_desired * amount_1_desired)
                    } else {
                        &&& a0 <= amount_0_desired
                        &&& a1 <= amount_1_desired
                        &&& if keeps_desired_0(*state, amount_0_desired as int, amount_1_desired as int) {
                            a0 == amount_0_desired && a1 >= amount_1_min && a1 == quote_value(
                                amount_0_desired as int,
                                state.reserve_0 as int,
                                state.reserve_1 as int,
                            )
                        } else {
                            a1 == amount_1_desired && a0 >= amount_0_min && a0 == quote_value(
                                amount_1_desired as int,
                                state.reserve_1 as int,
                                state.reserve_0 as int,
                            )
                        }
                        &&& liquidity == vstd::math::min(
                            a0 * state.total_supply / state.reserve_0 as int,
                            a1 * state.total_supply / state.reserve_1 as int,
                        )
                        &&& s.total_supply == state.total_supply + liquidity
                    }
                },
                Err(Error::InsufficientLiquidityMinted) => if state.total_supply == 0 {
                    amount_0_desired * amount_1_desired <= i128::MAX && floor_sqrt(
                        amount_0_desired * amount_1_desired,
                    ) <= 1000
                } else {
                    let (a0, a1) = deposit_amounts(
                        *state,
                        amount_0_desired as int,
                        amount_1_desired as int,
                    );
                    &&& deposit_within_bounds(
                        *state,
                        amount_0_desired as int,
                        amount_1_desired as int,
                        amount_0_min as int,
                        amount_1_min as int,
                    )
                    &&& a0 * state.total_supply <= i128::MAX
                    &&& a1 * state.total_supply <= i128::MAX
                    &&& deposit_liquidity(*state, amount_0_desired as int, amount_1_desired as int)
                        <= 0
                },
                Err(Error::InsufficientToken1Amount) => {
                    &&& state.total_supply > 0
                    &&& amount_0_desired * state.reserve_1 <= i128::MAX
                    &&& keeps_desired_0(*state, amount_0_desired as int, amount_1_desired as int)
                    &&& quote_value(
                        amount_0_desired as int,
                        state.reserve_0 as int,
                        state.reserve_1 as int,
                    ) < amount_1_min
                },
                Err(Error::InsufficientToken0Amount) => {
                    let q0 = quote_value(
                        amount_1_desired as int,
                        state.reserve_1 as int,
                        state.reserve_0 as int,
                    );
                    &&& state.total_supply > 0
                    &&& amount_0_desired * state.reserve_1 <= i128::MAX
                    &&& !keeps_desired_0(*state, amount_0_desired as int, amount_1_desired as int)
                    &&& amount_1_desired * state.reserve_0 <= i128::MAX
                    &&& (q0 > amount_0_desired || q0 < amount_0_min)
                },
                Err(Error::Overflow) => if state.total_supply == 0 {
                    amount_0_desired * amount_1_desired > i128::MAX
                } else {
                    let (a0, a1) = deposit_amounts(
                        *state,
                        amount_0_desired as int,
                        amount_1_desired as int,
                    );
                    ||| amount_0_desired * state.reserve_1 > i128::MAX
                    ||| !keeps_desired_0(*state, amount_0_desired as int, amount_1_desired as int)
                        && amount_1_desired * state.reserve_0 > i128::MAX
                    ||| a0 * state.total_supply > i128::MAX
                    ||| a1 * state.total_supply > i128::MAX
                    ||| state.reserve_0 + a0 > i128::MAX
                    ||| state.reserve_1 + a1 > i128::MAX
                    ||| state.total_supply + deposit_liquidity(
                        *state,
                        amount_0_desired as int,
                        amount_1_desired as int,
                    ) > i128::MAX
                },
                Err(_) => false,
            },
            // A first deposit large enough to pass the permanent lock always
            // succeeds.
            state.total_supply == 0 && amount_0_desired * amount_1_desired <= i128::MAX
                && floor_sqrt(amount_0_desired * amount_1_desired) > 1000 ==> r is Ok,
    {
        let (amount_0, amount_1): (i128, i128) = if state.total_supply == 0 {
            (amount_0_desired, amount_1_desired)
        } else {
            let amount_1_optimal = match math_v2::quote(
                amount_0_desired,
                state.reserve_0,
                state.reserve_1,
            ) {
                Ok(v) => v,
                Err(e) => {
                    return Err(e);
                },
            };
            if amount_1_optimal <= amount_1_desired {
                if amount_1_optimal < amount_1_min {
                    return Err(Error::InsufficientToken1Amount);
                }
                (amount_0_desired, amount_1_optimal)
            } else {
                let amount_0_optimal = match math_v2::quote(
                    amount_1_desired,
                    state.reserve_1,
                    state.reserve_0,
                ) {
                    Ok(v) => v,
                    Err(e) => {
                        return Err(e);
                    },
                };
                if amount_0_optimal > amount_0_desired || amount_0_optimal < amount_0_min {
                    return Err(Error::InsufficientToken0Amount);
                }
                (amount_0_optimal, amount_1_desired)
            }
        };

        let mut total_supply = state.total_supply;

        let liquidity: i128 = if state.total_supply == 0 {
            let product = match amount_0.checked_mul(amount_1) {
                Some(v) => v,
                None => {
                    return Err(Error::Overflow);
                },
            };
            proof {
                assert(product >= 1) by (nonlinear_arith)
                    requires
                        product == amount_0 * amount_1,
                        amount_0 >= 1,
                        amount_1 >= 1,
                ;
            }
            let initial_liquidity = super::math::sqrt(product);

            if initial_liquidity <= MINIMUM_LIQUIDITY {
                return Err(Error::InsufficientLiquidityMinted);
            }

            total_supply = MINIMUM_LIQUIDITY;

            initial_liquidity - MINIMUM_LIQUIDITY
        } else {
            proof {
                lemma_div_pos_is_pos(
                    amount_0 as int * state.total_supply as int,
                    state.reserve_0 as int,
                );
                lemma_div_pos_is_pos(
                    amount_1 as int * state.total_supply as int,
                    state.reserve_1 as int,
                );
                assert(amount_0 * state.total_supply >= 0 && amount_1 * state.total_supply >= 0)
                    by (nonlinear_arith)
                    requires
                        amount_0 >= 0,
                        amount_1 >= 0,
                        state.total_supply >= 0,
                ;
            }
            let scaled_0 = match amount_0.checked_mul(state.total_supply) {
                Some(v) => v,
                None => {
                    return Err(Error::Overflow);
                },
            };
            let scaled_1 = match amount_1.checked_mul(state.total_supply) {
                Some(v) => v,
                None => {
                    return Err(Error::Overflow);
                },
            };
            let liquidity_0 = scaled_0 / state.reserve_0;
            let liquidity_1 = scaled_1 / state.reserve_1;

            if liquidity_0 < liquidity_1 {
                liquidity_0
            } else {
                liquidity_1
            }
        };

        if liquidity <= 0 {
            return Err(Error::InsufficientLiquidityMinted);
        }

        let reserve_0 = match state.reserve_0.checked_add(amount_0) {
            Some(v) => v,
            None => {
                return Err(Error::Overflow);
            },
        };
        let reserve_1 = match state.reserve_1.checked_add(amount_1) {
            Some(v) => v,
            None => {
                return Err(Error::Overflow);
            },
        };
        total_supply = match total_supply.checked_add(liquidity) {
            Some(v) => v,
            None => {
                return Err(Error::Overflow);
            },
        };

        proof {
            if state.total_supply > 0 {
                let ts = state.total_supply as int;
                let r0 = state.reserve_0 as int;
                let r1 = state.reserve_1 as int;
                lemma_mul_nonnegative(amount_1 as int, ts);
                lemma_div_pos_is_pos(amount_1 as int * ts, r1);
                if amount_0 <= 0 {
                    assert(amount_0 as int * ts <= 0) by (nonlinear_arith)
                        requires
                            amount_0 <= 0,
                            ts > 0,
                    ;
                    lemma_div_is_ordered(amount_0 as int * ts, 0, r0);
                    vstd::arithmetic::div_mod::lemma_div_of0(r0);
                    assert(liquidity <= 0);
                }
            }
        }
        Ok((
            PairState { reserve_0, reserve_1, total_supply, k_last: state.k_last },
            amount_0,
            amount_1,
            liquidity,
        ))
    }

    /// Remove liquidity: burn `liquidity` units of the sender's balance and
    /// pay out the proportional share of both reserves. Returns the new
    /// snapshot and the two amounts paid out.
    pub fn remove_liquidity(
        state: &PairState,
        sender_balance: i128,
        liquidity: i128,
        amount_0_min: i128,
        amount_1_min: i128,
    ) -> (r: Result<(PairState, i128, i128), Error>)
        requires
            state.well_formed(),
            liquidity > 0,
            0 <= sender_balance <= state.total_supply,
        ensures
            match r {
                Ok((s, a0, a1)) => {
                    &&& s.well_formed()
                    &&& sender_balance >= liquidity
                    &&& a0 == liquidity * state.reserve_0 / (state.total_supply as int)
                    &&& a1 == liquidity * state.reserve_1 / (state.total_supply as int)
                    &&& a0 >= amount_0_min
                    &&& a1 >= amount_1_min
                    &&& s.reserve_0 == state.reserve_0 - a0
                    &&& s.reserve_1 == state.reserve_1 - a1
                    &&& s.total_supply == state.total_supply - liquidity
                    &&& s.k_last == state.k_last
                },
                Err(Error::InsufficientLiquidity) => sender_balance < liquidity,
                Err(Error::InsufficientToken0Amount) => sender_balance >= liquidity && liquidity
                    * state.reserve_0 / (state.total_supply as int) < amount_0_min,
                Err(Error::InsufficientToken1Amount) => sender_balance >= liquidity && liquidity
                    * state.reserve_1 / (state.total_supply as int) < amount_1_min,
                Err(Error::Overflow) => sender_balance >= liquidity && (liquidity * state.reserve_0
                    > i128::MAX || liquidity * state.reserve_1 > i128::MAX),
                Err(_) => false,
            },
    {
        if sender_balance < liquidity {
            return Err(Error::InsufficientLiquidity);
        }

        proof {
            lemma_mul_nonnegative(liquidity as int, state.reserve_0 as int);
            lemma_mul_nonnegative(liquidity as int, state.reserve_1 as int);
        }
        let scaled_0 = match liquidity.checked_mul(state.reserve_0) {
            Some(v) => v,
            None => {
                return Err(Error::Overflow);
            },
        };
        let scaled_1 = match liquidity.checked_mul(state.reserve_1) {
            Some(v) => v,
            None => {
                return Err(Error::Overflow);
            },
        };
        proof {
            lemma_div_pos_is_pos(scaled_0 as int, state.total_supply as int);
            lemma_div_pos_is_pos(scaled_1 as int, state.total_supply as int);
            lemma_payout_bounded(
                liquidity as int,
                state.reserve_0 as int,
                state.total_supply as int,
            );
            lemma_payout_bounded(
                liquidity as int,
                state.reserve_1 as int,
                state.total_supply as int,
            );
        }
        let amount_0 = scaled_0 / state.total_supply;
        let amount_1 = scaled_1 / state.total_supply;

        if amount_0 < amount_0_min {
            return Err(Error::InsufficientToken0Amount);
        }
        if amount_1 < amount_1_min {
            return Err(Error::InsufficientToken1Amount);
        }

        let new_state = PairState {
            reserve_0: state.reserve_0 - amount_0,
            reserve_1: state.reserve_1 - amount_1,
            total_supply: state.total_supply - liquidity,
            k_last: state.k_last,
        };
        Ok((new_state, amount_0, amount_1))
    }

    /// Swap an exact input amount for the other token at the fixed 30 bps
    /// fee. The reserve product before any change is compared against the
    /// product afterwards; a swap that does not strictly grow it is
    /// rejected. Returns the new snapshot and the output amount.
    pub fn swap(
        state: &PairState,
        amount_in: i128,
        amount_out_min: i128,
        token_in_is_0: bool,
    ) -> (r: Result<(PairState, i128), Error>)
        requires
            state.well_formed(),
        ensures
            ({
                let reserve_in = if token_in_is_0 {
                    state.reserve_0 as int
                } else {
                    state.reserve_1 as int
                };
                let reserve_out = if token_in_is_0 {
                    state.reserve_1 as int
                } else {
                    state.reserve_0 as int
                };
                let out = amount_out_value(amount_in as int, reserve_in, reserve_out, 30);
                match r {
                    Ok((s, amount_out)) => {
                        &&& amount_in > 0
                        &&& state.total_supply > 0
                        &&& amount_out == out
                        &&& amount_out >= amount_out_min
                        &&& s.well_formed()
                        &&& s.total_supply == state.total_supply
                        &&& s.k_last == state.k_last
                        &&& if token_in_is_0 {
                            s.reserve_0 == state.reserve_0 + amount_in && s.reserve_1
                                == state.reserve_1 - amount_out
                        } else {
                            s.reserve_1 == state.reserve_1 + amount_in && s.reserve_0
                                == state.reserve_0 - amount_out
                        }
                        &&& s.reserve_0 * s.reserve_1 > state.reserve_0 * state.reserve_1
                    },
                    Err(Error::InsufficientInputAmount) => amount_in <= 0,
                    Err(Error::InsufficientLiquidity) => amount_in > 0 && state.total_supply == 0,
                    Err(Error::Overflow) => amount_in > 0 && state.total_supply > 0 && (reserve_in
                        * reserve_out > i128::MAX || !amount_out_fits(
                        amount_in as int,
                        reserve_in,
                        reserve_out,
                        30,
                    ) || reserve_in + amount_in > i128::MAX || (reserve_in + amount_in) * (
                    reserve_out - out) > i128::MAX),
                    Err(Error::InsufficientOutputAmount) => amount_in > 0 && state.total_supply > 0
                        && out < amount_out_min,
                    Err(_) => false,
                }
            }),
    {
        if amount_in <= 0 {
            return Err(Error::InsufficientInputAmount);
        }

        let (reserve_in, reserve_out) = if token_in_is_0 {
            (state.reserve_0, state.reserve_1)
        } else {
            (state.reserve_1, state.reserve_0)
        };

        if reserve_in <= 0 || reserve_out <= 0 {
            return Err(Error::InsufficientLiquidity);
        }

        // Capture K strictly before any reserve changes.
        let k_old = match reserve_in.checked_mul(reserve_out) {
            Some(v) => v,
            None => {
                return Err(Error::Overflow);
            },
        };

        let amount_out = match math_v2::get_amount_out(amount_in, reserve_in, reserve_out, None) {
            Ok(v) => v,
            Err(e) => {
                return Err(e);
            },
        };

        if amount_out < amount_out_min {
            return Err(Error::InsufficientOutputAmount);
        }

        let new_reserve_in = match reserve_in.checked_add(amount_in) {
            Some(v) => v,
            None => {
                return Err(Error::Overflow);
            },
        };
        proof {
            lemma_k_strictly_increases(amount_in as int, reserve_in as int, reserve_out as int, 30);
            lemma_swap_output_in_range(amount_in as int, reserve_in as int, reserve_out as int);
        }
        let new_reserve_out = reserve_out - amount_out;

        let (reserve_0, reserve_1) = if token_in_is_0 {
            (new_reserve_in, new_reserve_out)
        } else {
            (new_reserve_out, new_reserve_in)
        };

        // The fee keeps the reserve product strictly growing; the check is
        // proved to pass, and kept because the caller relies on it.
        let k_new = match new_reserve_in.checked_mul(new_reserve_out) {
            Some(v) => v,
            None => {
                return Err(Error::Overflow);
            },
        };
        proof {
            assert(k_new > k_old) by (nonlinear_arith)
                requires
                    k_new == (reserve_in + amount_in) * (reserve_out - amount_out),
                    k_old == reserve_in * reserve_out,
                    (reserve_in + amount_in) * (reserve_out - amount_out) > reserve_in
                        * reserve_out,
            ;
        }
        if k_new <= k_old {
            return Err(Error::KInvariantViolated);
        }

        proof {
            assert(reserve_0 as int * reserve_1 as int > state.reserve_0 as int
                * state.reserve_1 as int) by (nonlinear_arith)
                requires
                    k_new > k_old,
                    k_new as int == new_reserve_in as int * new_reserve_out as int,
                    k_old as int == reserve_in as int * reserve_out as int,
                    (reserve_0 == new_reserve_in && reserve_1 == new_reserve_out) || (reserve_0
                        == new_reserve_out && reserve_1 == new_reserve_in),
                    (state.reserve_0 == reserve_in && state.reserve_1 == reserve_out) || (
                    state.reserve_0 == reserve_out && state.reserve_1 == reserve_in),
            ;
        }
        let new_state = PairState {
            reserve_0,
            reserve_1,
            total_supply: state.total_supply,
            k_last: state.k_last,
        };
        Ok((new_state, amount_out))
    }

    /// Price an exact-input swap against the current reserves without
    /// executing it.
    pub fn get_amount_out(state: &PairState, amount_in: i128, token_in_is_0: bool) -> (r: Result<
        i128,
        Error,
    >)
        ensures
            ({
                let reserve_in = if token_in_is_0 {
                    state.reserve_0 as int
                } else {
                    state.reserve_1 as int
                };
                let reserve_out = if token_in_is_0 {
                    state.reserve_1 as int
                } else {
                    state.reserve_0 as int
                };
                &&& (amount_in > 0 && reserve_in > 0 && reserve_out > 0 && amount_out_fits(
                    amount_in as int,
                    reserve_in,
                    reserve_out,
                    30,
                )) ==> r == Ok::<i128, Error>(
                    amount_out_value(amount_in as int, reserve_in, reserve_out, 30) as i128,
                )
                &&& amount_in <= 0 ==> r == Err::<i128, Error>(Error::InsufficientInputAmount)
                &&& amount_in > 0 && (reserve_in <= 0 || reserve_out <= 0) ==> r == Err::<
                    i128,
                    Error,
                >(Error::InsufficientLiquidity)
                &&& (amount_in > 0 && reserve_in > 0 && reserve_out > 0 && !amount_out_fits(
                    amount_in as int,
                    reserve_in,
                    reserve_out,
                    30,
                )) ==> r == Err::<i128, Error>(Error::Overflow)
            }),
    {
        let (reserve_in, reserve_out) = if token_in_is_0 {
            (state.reserve_0, state.reserve_1)
        } else {
            (state.reserve_1, state.reserve_0)
        };
        math_v2::get_amount_out(amount_in, reserve_in, reserve_out, None)
    }

    /// Price an exact-output swap against the current reserves without
    /// executing it.
    pub fn get_amount_in(state: &PairState, amount_out: i128, token_out_is_0: bool) -> (r: Result<
        i128,
        Error,
    >)
        ensures
            ({
                let reserve_in = if token_out_is_0 {
                    state.reserve_1 as int
                } else {
                    state.reserve_0 as int
                };
                let reserve_out = if token_out_is_0 {
                    state.reserve_0 as int
                } else {
                    state.reserve_1 as int
                };
                &&& (amount_out > 0 && reserve_in > 0 && 0 < amount_out < reserve_out
                    && math_v2::amount_in_fits(amount_out as int, reserve_in, reserve_out, 30))
                    ==> r == Ok::<i128, Error>(
                    super::math::amount_in_value(amount_out as int, reserve_in, reserve_out, 30) as i128,
                )
                &&& amount_out <= 0 ==> r == Err::<i128, Error>(Error::InsufficientOutputAmount)
                &&& amount_out > 0 && (reserve_in <= 0 || reserve_out <= 0) ==> r == Err::<
                    i128,
                    Error,
                >(Error::InsufficientLiquidity)
                &&& amount_out > 0 && reserve_in > 0 && reserve_out > 0 && amount_out
                    >= reserve_out ==> r == Err::<i128, Error>(Error::InsufficientReserve)
                &&& (amount_out > 0 && reserve_in > 0 && 0 < amount_out < reserve_out
                    && !math_v2::amount_in_fits(amount_out as int, reserve_in, reserve_out, 30))
                    ==> r == Err::<i128, Error>(Error::Overflow)
            }),
    {
        let (reserve_in, reserve_out) = if token_out_is_0 {
            (state.reserve_1, state.reserve_0)
        } else {
            (state.reserve_0, state.reserve_1)
        };
        math_v2::get_amount_in(amount_out, reserve_in, reserve_out, None)
    }
}

/// A proportional payout never exceeds the reserve, pays the whole reserve
/// exactly when the whole supply is burned, and leaves a positive reserve
/// when it is not.
proof fn lemma_payout_bounded(liquidity: int, reserve: int, total_supply: int)
    requires
        0 < liquidity <= total_supply,
        reserve >= 0,
    ensures
        liquidity * reserve / total_supply <= reserve,
        liquidity == total_supply ==> liquidity * reserve / total_supply == reserve,
        liquidity < total_supply && reserve > 0 ==> liquidity * reserve / total_supply < reserve,
{
    assert(liquidity * reserve <= total_supply * reserve) by (nonlinear_arith)
        requires
            0 < liquidity <= total_supply,
            reserve >= 0,
    ;
    lemma_div_is_ordered(liquidity * reserve, total_supply * reserve, total_supply);
    lemma_div_multiples_vanish(reserve, total_supply);
    if liquidity == total_supply {
        assert(liquidity * reserve == total_supply * reserve);
    }
    if liquidity < total_supply && reserve > 0 {
        assert(liquidity * reserve < total_supply * reserve) by (nonlinear_arith)
            requires
                0 < liquidity < total_supply,
                reserve > 0,
        ;
        lemma_multiply_divide_lt(liquidity * reserve, total_supply, reserve);
    }
}

/// A swap's output is positive only below the output reserve, so the new
/// reserves stay positive.
proof fn lemma_swap_output_in_range(amount_in: int, reserve_in: int, reserve_out: int)
    requires
        amount_in > 0,
        reserve_in > 0,
        reserve_out > 0,
    ensures
        0 <= amount_out_value(amount_in, reserve_in, reserve_out, 30) < reserve_out,
{
    let f = amount_in * 9970;
    let n = f * reserve_out;
    let d = reserve_in * 10000 + f;
    assert(f >= 1 && n >= 0 && d >= 1 && n < reserve_out * d) by (nonlinear_arith)
        requires
            amount_in >= 1,
            reserve_in >= 1,
            reserve_out >= 1,
            f == amount_in * 9970,
            n == f * reserve_out,
            d == reserve_in * 10000 + f,
    ;
    lemma_div_pos_is_pos(n, d);
    lemma_multiply_divide_lt(n, d, reserve_out);
}

} // verus!
