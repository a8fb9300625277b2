//! Positions and their arithmetic: profit and loss, funding, borrowing,
//! the liquidation price and the liquidation test.

use vstd::prelude::*;
use crate::error::Error;
use crate::math::{
    fits_i128,
    fits_u128,
    mul_div_signed,
    mul_i128,
    mul_u128,
    signed,
    sub_i128,
    trunc_div,
};
use crate::principal::Principal;

verus! {

/// The maintenance margin, in basis points of the size.
pub const MAINTENANCE_MARGIN_BPS: u128 = 100;

/// The keeper's part of the liquidation fee, in basis points.
pub const KEEPER_SHARE_BPS: u128 = 6_000;

/// The denominator of the borrow rate: the rate is in ten-millionths of the
/// size per second.
pub const BORROW_SCALE: i128 = 10_000_000;

/// One open leveraged trade.
#[derive(Clone, Copy, Debug, PartialEq, Eq, Structural)]
pub struct Position {
    /// The owner.
    pub trader: Principal,
    /// The market traded.
    pub market_id: u32,
    /// What the trader put up.
    pub collateral: u128,
    /// The notional: collateral times leverage when it opened.
    pub size: u128,
    /// Long or short.
    pub is_long: bool,
    /// The price at which it opened, averaged over increases.
    pub entry_price: u128,
    /// What longs had been charged when it was last touched.
    pub entry_funding_long: i128,
    /// What shorts had been charged when it was last touched.
    pub entry_funding_short: i128,
    /// When it was last touched.
    pub last_interaction: u64,
    /// The price at which only the maintenance margin is left.
    pub liquidation_price: u128,
}

/// The gain from the move of the price alone: the move in favour of the
/// position, times the size, over the entry price.
pub open spec fn price_pnl(is_long: bool, entry_price: int, current_price: int, size: int) -> int {
    let change = if is_long {
        current_price - entry_price
    } else {
        entry_price - current_price
    };
    trunc_div(change * size, entry_price)
}

/// What a position of `size` owes for a rise of `delta` in an accumulator:
/// the rise in hours, times the size, in basis points.
pub open spec fn funding_charge(delta: int, size: int) -> int {
    trunc_div(trunc_div(delta, 3_600) * size, 10_000)
}

/// What a position owes in funding: a long what longs were charged since
/// its snapshot; a short what shorts were charged, less what longs were.
pub open spec fn funding_payment(
    is_long: bool,
    size: int,
    delta_long: int,
    delta_short: int,
) -> int {
    if is_long {
        funding_charge(delta_long, size)
    } else {
        funding_charge(delta_short, size) - funding_charge(delta_long, size)
    }
}

/// What a position of `size` owes for the liquidity it reserved over
/// `elapsed` seconds.
pub open spec fn borrowing_fee(rate: int, elapsed: int, size: int) -> int {
    trunc_div(rate * elapsed * size, BORROW_SCALE as int)
}

/// The collateral in basis points of the size.
pub open spec fn collateral_ratio_bps(collateral: int, size: int) -> int {
    collateral * 10_000 / size
}

/// The price at which only the maintenance margin is left: for a long the
/// entry price lowered by the collateral ratio less the margin, for a short
/// raised by it. Never under zero.
pub open spec fn liquidation_price(entry_price: int, collateral: int, size: int, is_long: bool)
    -> int {
    let ratio = collateral_ratio_bps(collateral, size);
    if is_long {
        if ratio >= 10_000 + MAINTENANCE_MARGIN_BPS {
            0
        } else {
            entry_price * (10_000 - ratio + MAINTENANCE_MARGIN_BPS) / 10_000
        }
    } else {
        entry_price * (10_000 + ratio - MAINTENANCE_MARGIN_BPS) / 10_000
    }
}

/// The maintenance margin of a position of `size`.
pub open spec fn maintenance_margin(size: int) -> int {
    size * MAINTENANCE_MARGIN_BPS / 10_000
}

/// The liquidation price, or why it has no value.
pub open spec fn liquidation_price_result(
    entry_price: u128,
    collateral: u128,
    size: u128,
    is_long: bool,
) -> Result<u128, Error> {
    let ratio = collateral_ratio_bps(collateral as int, size as int);
    if size == 0 {
        Err(Error::DivisionByZero)
    } else if !fits_u128(collateral * 10_000) || !fits_u128(ratio + 10_000) || (!is_long
        && !fits_u128(entry_price * (10_000 + ratio - 100))) || (is_long && ratio < 10_100
        && !fits_u128(entry_price * (10_000 - ratio + 100))) {
        Err(Error::Overflow)
    } else {
        Ok(liquidation_price(entry_price as int, collateral as int, size as int, is_long) as u128)
    }
}

/// The liquidation price of a position with these terms.
pub fn compute_liquidation_price(entry_price: u128, collateral: u128, size: u128, is_long: bool)
    -> (r: Result<u128, Error>)
    ensures
        r == liquidation_price_result(entry_price, collateral, size, is_long),
{
    if size == 0 {
        return Err(Error::DivisionByZero);
    }
    let ratio = mul_u128(collateral, 10_000)? / size;
    if ratio > u128::MAX - 10_000 {
        return Err(Error::Overflow);
    }
    if is_long {
        if ratio >= 10_100 {
            Ok(0)
        } else {
            Ok(mul_u128(entry_price, 10_100 - ratio)? / 10_000)
        }
    } else {
        Ok(mul_u128(entry_price, 9_900 + ratio)? / 10_000)
    }
}

impl Position {
    /// The position has a size, collateral and an entry price that fit a
    /// token amount, and its liquidation price is that of its terms.
    pub open spec fn wf(self) -> bool {
        &&& 0 < self.size <= i128::MAX
        &&& 0 < self.collateral <= i128::MAX
        &&& 0 < self.entry_price <= i128::MAX
        &&& liquidation_price_result(self.entry_price, self.collateral, self.size, self.is_long)
            == Ok::<u128, Error>(self.liquidation_price)
    }

    /// The rise of the long accumulator since the snapshot.
    pub open spec fn delta_long(self, cumulative_long: i128) -> int {
        cumulative_long - self.entry_funding_long
    }

    /// The rise of the short accumulator since the snapshot.
    pub open spec fn delta_short(self, cumulative_short: i128) -> int {
        cumulative_short - self.entry_funding_short
    }

    /// The seconds since the position was last touched.
    pub open spec fn elapsed(self, now: u64) -> int {
        if now >= self.last_interaction {
            now - self.last_interaction
        } else {
            0
        }
    }

    /// The profit or loss of the position: the gain from the price, less
    /// funding, less the borrowing fee.
    pub open spec fn spec_pnl(
        self,
        current_price: i128,
        cumulative_long: i128,
        cumulative_short: i128,
        borrow_rate: i128,
        now: u64,
    ) -> int {
        price_pnl(self.is_long, self.entry_price as int, current_price as int, self.size as int)
            - funding_payment(
            self.is_long,
            self.size as int,
            self.delta_long(cumulative_long),
            self.delta_short(cumulative_short),
        ) - borrowing_fee(borrow_rate as int, self.elapsed(now), self.size as int)
    }

    /// Whether every step of the profit and loss stays within the machine's
    /// numbers.
    pub open spec fn spec_pnl_fits(
        self,
        current_price: i128,
        cumulative_long: i128,
        cumulative_short: i128,
        borrow_rate: i128,
        now: u64,
    ) -> bool {
        let size = self.size as int;
        let entry = self.entry_price as int;
        let change = if self.is_long {
            current_price - entry
        } else {
            entry - current_price
        };
        let delta_long = self.delta_long(cumulative_long);
        let delta_short = self.delta_short(cumulative_short);
        &&& fits_i128(size)
        &&& fits_i128(entry)
        &&& fits_i128(change)
        &&& fits_i128(change * size)
        &&& fits_i128(delta_long)
        &&& fits_i128(trunc_div(delta_long, 3_600) * size)
        &&& !self.is_long ==> fits_i128(delta_short) && fits_i128(
            trunc_div(delta_short, 3_600) * size,
        ) && fits_i128(funding_charge(delta_short, size) - funding_charge(delta_long, size))
        &&& fits_i128(borrow_rate * self.elapsed(now))
        &&& fits_i128(borrow_rate * self.elapsed(now) * size)
        &&& fits_i128(
            price_pnl(self.is_long, entry, current_price as int, size) - funding_payment(
                self.is_long,
                size,
                delta_long,
                delta_short,
            ),
        )
        &&& fits_i128(
            self.spec_pnl(current_price, cumulative_long, cumulative_short, borrow_rate, now),
        )
    }

    /// The profit or loss, or why it has no value.
    pub open spec fn pnl_result(
        self,
        current_price: i128,
        cumulative_long: i128,
        cumulative_short: i128,
        borrow_rate: i128,
        now: u64,
    ) -> Result<i128, Error> {
        if self.entry_price == 0 {
            Err(Error::DivisionByZero)
        } else if !self.spec_pnl_fits(
            current_price,
            cumulative_long,
            cumulative_short,
            borrow_rate,
            now,
        ) {
            Err(Error::Overflow)
        } else {
            Ok(
                self.spec_pnl(current_price, cumulative_long, cumulative_short, borrow_rate, now)
                    as i128,
            )
        }
    }

    /// What a rise of `delta` in an accumulator costs this position.
    fn charge(delta: i128, size: i128) -> (r: Result<i128, Error>)
        ensures
            r == (if fits_i128(trunc_div(delta as int, 3_600) * size) {
                Ok::<i128, Error>(funding_charge(delta as int, size as int) as i128)
            } else {
                Err(Error::Overflow)
            }),
    {
        let hours = delta / 3_600;
        mul_div_signed(hours, size, 10_000)
    }

    /// The profit or loss of the position at `current_price`, with the
    /// accumulators of its market at `cumulative_long` and
    /// `cumulative_short`, at time `now`.
    pub fn pnl_at(
        &self,
        current_price: i128,
        cumulative_long: i128,
        cumulative_short: i128,
        borrow_rate: i128,
        now: u64,
    ) -> (r: Result<i128, Error>)
        ensures
            r == self.pnl_result(current_price, cumulative_long, cumulative_short, borrow_rate, now),
    {
        if self.entry_price == 0 {
            return Err(Error::DivisionByZero);
        }
        let size = signed(self.size)?;
        let entry = signed(self.entry_price)?;
        let change = if self.is_long {
            sub_i128(current_price, entry)?
        } else {
            sub_i128(entry, current_price)?
        };
        let gain = mul_div_signed(change, size, entry)?;
        let delta_long = sub_i128(cumulative_long, self.entry_funding_long)?;
        let charge_long = Position::charge(delta_long, size)?;
        let funding = if self.is_long {
            charge_long
        } else {
            let delta_short = sub_i128(cumulative_short, self.entry_funding_short)?;
            let charge_short = Position::charge(delta_short, size)?;
            sub_i128(charge_short, charge_long)?
        };
        let elapsed: u64 = if now >= self.last_interaction {
            now - self.last_interaction
        } else {
            0
        };
        let rate_time = mul_i128(borrow_rate, elapsed as i128)?;
        let fee = mul_div_signed(rate_time, size, BORROW_SCALE)?;
        let after_funding = sub_i128(gain, funding)?;
        sub_i128(after_funding, fee)
    }
}

} // verus!
