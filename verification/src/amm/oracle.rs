//! Time-weighted average price oracle.
//!
//! A fixed-depth ring of cumulative price observations. The cumulative
//! totals only grow with elapsed time, never with trade size, so a single
//! instant cannot move an average taken over a longer window by much.

use vstd::prelude::*;
use vstd::arithmetic::div_mod::{lemma_div_nonincreasing, lemma_div_pos_is_pos};
use super::errors::Error;

verus! {

/// Number of observations the ring holds.
pub const OBSERVATION_BUFFER_SIZE: u32 = 8;

/// Fixed-point scale of the instantaneous prices.
pub const PRECISION: i128 = 1_000_000_000;

/// A cumulative price observation: the integral of each spot price over
/// time up to `timestamp`, fixed-point scaled.
#[derive(Copy, Clone, Debug, Eq, PartialEq)]
pub struct PriceObservation {
    pub timestamp: u64,
    pub price_0_cumulative: i128,
    pub price_1_cumulative: i128,
}

/// The ring of observations plus the newest observation and the slot the
/// next write goes to.
#[derive(Clone, Debug)]
pub struct Oracle {
    pub last_observation: PriceObservation,
    pub observations: Vec<PriceObservation>,
    pub index: u32,
}

/// A buffered observation is consistent with the newest one: it is no newer
/// and its cumulative totals are no larger.
pub open spec fn obs_consistent(o: PriceObservation, last: PriceObservation) -> bool {
    &&& o.timestamp <= last.timestamp
    &&& 0 <= o.price_0_cumulative <= last.price_0_cumulative
    &&& 0 <= o.price_1_cumulative <= last.price_1_cumulative
}

/// Instantaneous price of one reserve in terms of the other, fixed-point
/// scaled.
pub open spec fn spot_price_value(reserve_num: int, reserve_den: int) -> int {
    reserve_num * 1_000_000_000 / reserve_den
}

/// The observation `update` writes for a tick at `timestamp` with the given
/// reserves.
pub open spec fn next_observation(
    last: PriceObservation,
    timestamp: u64,
    reserve_0: int,
    reserve_1: int,
) -> PriceObservation {
    let price_0 = if reserve_0 > 0 {
        spot_price_value(reserve_1, reserve_0)
    } else {
        0
    };
    let price_1 = if reserve_1 > 0 {
        spot_price_value(reserve_0, reserve_1)
    } else {
        0
    };
    let elapsed = timestamp - last.timestamp;
    PriceObservation {
        timestamp,
        price_0_cumulative: (last.price_0_cumulative + price_0 * elapsed) as i128,
        price_1_cumulative: (last.price_1_cumulative + price_1 * elapsed) as i128,
    }
}

/// The intermediate products of `update` all fit in 128 bits.
pub open spec fn update_fits(
    last: PriceObservation,
    timestamp: u64,
    reserve_0: int,
    reserve_1: int,
) -> bool {
    let price_0 = if reserve_0 > 0 {
        spot_price_value(reserve_1, reserve_0)
    } else {
        0
    };
    let price_1 = if reserve_1 > 0 {
        spot_price_value(reserve_0, reserve_1)
    } else {
        0
    };
    let elapsed = timestamp - last.timestamp;
    &&& reserve_0 > 0 ==> reserve_1 * 1_000_000_000 <= i128::MAX
    &&& reserve_1 > 0 ==> reserve_0 * 1_000_000_000 <= i128::MAX
    &&& price_0 * elapsed <= i128::MAX
    &&& price_1 * elapsed <= i128::MAX
    &&& last.price_0_cumulative + price_0 * elapsed <= i128::MAX
    &&& last.price_1_cumulative + price_1 * elapsed <= i128::MAX
}

/// A slot holds a real observation old enough for the requested window.
pub open spec fn slot_usable(o: PriceObservation, target: u64) -> bool {
    0 < o.timestamp <= target
}

/// The usable observation with the largest timestamp among the first `n`
/// slots, scanned in slot order.
pub open spec fn best_slot_upto(s: Seq<PriceObservation>, target: u64, n: int) -> Option<
    PriceObservation,
>
    decreases n,
{
    if n <= 0 {
        None
    } else {
        let prev = best_slot_upto(s, target, n - 1);
        let o = s[n - 1];
        if slot_usable(o, target) {
            match prev {
                None => Some(o),
                Some(p) => if o.timestamp > p.timestamp {
                    Some(o)
                } else {
                    Some(p)
                },
            }
        } else {
            prev
        }
    }
}

impl Oracle {
    /// The ring is full-sized, the write cursor is in range, and every slot
    /// is consistent with the newest observation.
    pub open spec fn well_formed(self) -> bool {
        &&& self.observations@.len() == 8
        &&& self.index < 8
        &&& self.last_observation.price_0_cumulative >= 0
        &&& self.last_observation.price_1_cumulative >= 0
        &&& forall|i: int|
            0 <= i < 8 ==> obs_consistent(#[trigger] self.observations@[i], self.last_observation)
    }

    /// Create an oracle with an empty history.
    pub fn new() -> (r: Oracle)
        ensures
            r.well_formed(),
            r.last_observation == (PriceObservation {
                timestamp: 0,
                price_0_cumulative: 0,
                price_1_cumulative: 0,
            }),
            r.index == 0,
            forall|i: int| 0 <= i < 8 ==> (#[trigger] r.observations@[i]).timestamp == 0,
    {
        let empty_observation = PriceObservation {
            timestamp: 0,
            price_0_cumulative: 0,
            price_1_cumulative: 0,
        };

        let mut observations: Vec<PriceObservation> = Vec::new();
        observations.push(empty_observation);
        observations.push(empty_observation);
        observations.push(empty_observation);
        observations.push(empty_observation);
        observations.push(empty_observation);
        observations.push(empty_observation);
        observations.push(empty_observation);
        observations.push(empty_observation);

        Oracle { last_observation: empty_observation, observations, index: 0 }
    }

    /// Fold a new tick into the cumulative totals and the ring. A tick whose
    /// timestamp has not advanced past the newest observation changes
    /// nothing, so repeated calls within one tick cannot inflate the
    /// integral.
    pub fn update(&mut self, timestamp: u64, reserve_0: i128, reserve_1: i128) -> (r: Result<
        (),
        Error,
    >)
        requires
            old(self).well_formed(),
            reserve_0 >= 0,
            reserve_1 >= 0,
        ensures
            final(self).well_formed(),
            timestamp <= old(self).last_observation.timestamp ==> r == Ok::<(), Error>(()) && *final(self)
                == *old(self),
            timestamp > old(self).last_observation.timestamp && !update_fits(
                old(self).last_observation,
                timestamp,
                reserve_0 as int,
                reserve_1 as int,
            ) ==> r == Err::<(), Error>(Error::Overflow) && *final(self) == *old(self),
            timestamp > old(self).last_observation.timestamp && update_fits(
                old(self).last_observation,
                timestamp,
                reserve_0 as int,
                reserve_1 as int,
            ) ==> {
                let written = next_observation(
                    old(self).last_observation,
                    timestamp,
                    reserve_0 as int,
                    reserve_1 as int,
                );
                &&& r == Ok::<(), Error>(())
                &&& final(self).last_observation == written
                &&& final(self).observations@ == old(self).observations@.update(
                    old(self).index as int,
                    written,
                )
                &&& final(self).index == (old(self).index + 1) % 8
            },
    {
        if timestamp <= self.last_observation.timestamp {
            return Ok(());
        }

        let time_elapsed = timestamp - self.last_observation.timestamp;

        let price_0: i128 = if reserve_0 > 0 {
            let scaled = match reserve_1.checked_mul(PRECISION) {
                Some(v) => v,
                None => {
                    return Err(Error::Overflow);
                },
            };
            proof {
                lemma_div_pos_is_pos(scaled as int, reserve_0 as int);
                lemma_div_nonincreasing(scaled as int, reserve_0 as int);
            }
            scaled / reserve_0
        } else {
            0
        };

        let price_1: i128 = if reserve_1 > 0 {
            let scaled = match reserve_0.checked_mul(PRECISION) {
                Some(v) => v,
                None => {
                    return Err(Error::Overflow);
                },
            };
            proof {
                lemma_div_pos_is_pos(scaled as int, reserve_1 as int);
                lemma_div_nonincreasing(scaled as int, reserve_1 as int);
            }
            scaled / reserve_1
        } else {
            0
        };

        let price_0_delta = match price_0.checked_mul(time_elapsed as i128) {
            Some(v) => v,
            None => {
                return Err(Error::Overflow);
            },
        };
        let price_1_delta = match price_1.checked_mul(time_elapsed as i128) {
            Some(v) => v,
            None => {
                return Err(Error::Overflow);
            },
        };

        let price_0_cumulative = match self.last_observation.price_0_cumulative.checked_add(
            price_0_delta,
        ) {
            Some(v) => v,
            None => {
                return Err(Error::Overflow);
            },
        };
        let price_1_cumulative = match self.last_observation.price_1_cumulative.checked_add(
            price_1_delta,
        ) {
            Some(v) => v,
            None => {
                return Err(Error::Overflow);
            },
        };

        let new_observation = PriceObservation { timestamp, price_0_cumulative, price_1_cumulative };

        let slot = self.index as usize;
        self.observations.set(slot, new_observation);
        self.index = (self.index + 1) % OBSERVATION_BUFFER_SIZE;
        self.last_observation = new_observation;

        proof {
            assert(forall|i: int|
                0 <= i < 8 ==> obs_consistent(
                    #[trigger] self.observations@[i],
                    self.last_observation,
                ));
        }
        Ok(())
    }

    /// Time-weighted average of the first price over the window that ends at
    /// the newest observation and starts `seconds_ago` before it. Fails when
    /// the ring holds no observation old enough for the window.
    pub fn get_twap(&self, seconds_ago: u64) -> (r: Result<i128, Error>)
        requires
            self.well_formed(),
        ensures
            seconds_ago == 0 ==> r == Err::<i128, Error>(Error::InvalidAmount),
            seconds_ago > 0 && self.last_observation.timestamp < seconds_ago ==> r == Err::<
                i128,
                Error,
            >(Error::OracleWindowUnavailable),
            seconds_ago > 0 && self.last_observation.timestamp >= seconds_ago ==> {
                let target = (self.last_observation.timestamp - seconds_ago) as u64;
                match best_slot_upto(self.observations@, target, 8) {
                    None => r == Err::<i128, Error>(Error::OracleWindowUnavailable),
                    Some(b) => r == Ok::<i128, Error>(
                        ((self.last_observation.price_0_cumulative - b.price_0_cumulative) as int / (
                        self.last_observation.timestamp - b.timestamp)) as i128,
                    ),
                }
            },
    {
        if seconds_ago == 0 {
            return Err(Error::InvalidAmount);
        }
        if self.last_observation.timestamp < seconds_ago {
            return Err(Error::OracleWindowUnavailable);
        }
        let target = self.last_observation.timestamp - seconds_ago;

        let ghost s = self.observations@;
        let mut found = false;
        let mut best_timestamp: u64 = 0;
        let mut best_cumulative: i128 = 0;
        let mut i: usize = 0;
        while i < 8
            invariant
                i <= 8,
                s == self.observations@,
                s.len() == 8,
                self.well_formed(),
                match best_slot_upto(s, target, i as int) {
                    None => !found,
                    Some(b) => found && b.timestamp == best_timestamp && b.price_0_cumulative
                        == best_cumulative && slot_usable(b, target) && exists|j: int|
                        0 <= j < i && s[j] == b,
                },
            decreases 8 - i,
        {
            let o = &self.observations[i];
            if o.timestamp > 0 && o.timestamp <= target && (!found || o.timestamp
                > best_timestamp) {
                found = true;
                best_timestamp = o.timestamp;
                best_cumulative = o.price_0_cumulative;
            }
            i = i + 1;
        }

        if !found {
            return Err(Error::OracleWindowUnavailable);
        }

        let time_elapsed = self.last_observation.timestamp - best_timestamp;
        let delta = self.last_observation.price_0_cumulative - best_cumulative;
        proof {
            lemma_div_pos_is_pos(delta as int, time_elapsed as int);
            lemma_div_nonincreasing(delta as int, time_elapsed as int);
        }
        Ok(delta / (time_elapsed as i128))
    }

    /// Instantaneous price of the second reserve in terms of the first,
    /// fixed-point scaled.
    pub fn get_spot_price(&self, reserve_0: i128, reserve_1: i128) -> (r: Result<i128, Error>)
        requires
            reserve_0 >= 0,
            reserve_1 >= 0,
        ensures
            reserve_0 == 0 ==> r == Err::<i128, Error>(Error::InsufficientLiquidity),
            reserve_0 > 0 && reserve_1 * 1_000_000_000 > i128::MAX ==> r == Err::<i128, Error>(
                Error::Overflow,
            ),
            reserve_0 > 0 && reserve_1 * 1_000_000_000 <= i128::MAX ==> r == Ok::<i128, Error>(
                spot_price_value(reserve_1 as int, reserve_0 as int) as i128,
            ),
    {
        if reserve_0 == 0 {
            return Err(Error::InsufficientLiquidity);
        }

        let scaled = match reserve_1.checked_mul(PRECISION) {
            Some(v) => v,
            None => {
                return Err(Error::Overflow);
            },
        };
        proof {
            lemma_div_pos_is_pos(scaled as int, reserve_0 as int);
            lemma_div_nonincreasing(scaled as int, reserve_0 as int);
        }
        match scaled.checked_div(reserve_0) {
            Some(v) => Ok(v),
            None => Err(Error::DivisionByZero),
        }
    }
}

} // verus!
