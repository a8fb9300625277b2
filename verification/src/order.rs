//! Conditional orders: when one triggers, and at which prices it may
//! execute.

use vstd::prelude::*;
use crate::principal::Principal;

verus! {

/// The close percentage that closes all of a position, in basis points.
pub const FULL_CLOSE_BPS: u32 = 10_000;

/// What an order does when it executes.
#[derive(Clone, Copy, Debug, PartialEq, Eq, Structural)]
pub enum OrderKind {
    /// Opens a position once the price is as good as the trigger.
    Limit,
    /// Closes a position, or part of it, once the price is as bad as the
    /// trigger.
    StopLoss,
    /// Closes a position, or part of it, once the price is as good as the
    /// trigger.
    TakeProfit,
}

/// A conditional instruction, waiting to execute.
#[derive(Clone, Copy, Debug, PartialEq, Eq, Structural)]
pub struct Order {
    /// The order's identifier.
    pub order_id: u64,
    /// What the order does.
    pub kind: OrderKind,
    /// Who placed it.
    pub trader: Principal,
    /// The market it watches.
    pub market_id: u32,
    /// The position it closes; zero for a limit order.
    pub position_id: u64,
    /// The price at which it triggers.
    pub trigger_price: i128,
    /// The worst price at which it may execute; zero for none.
    pub acceptable_price: i128,
    /// The collateral in escrow; zero but for a limit order.
    pub collateral: u128,
    /// The size it opens or closes.
    pub size: u128,
    /// The leverage of the position it opens; zero but for a limit order.
    pub leverage: u32,
    /// The side of the position it opens or closes.
    pub is_long: bool,
    /// The part of the position it closes, in basis points; zero for a
    /// limit order.
    pub close_percentage: u32,
    /// The fee in escrow for whoever executes it.
    pub execution_fee: u128,
    /// The last moment at which it may execute; zero for never expiring.
    pub expiration: u64,
    /// When it was placed.
    pub created_at: u64,
}

/// Whether `price` has reached `trigger`: a limit order and a stop-loss of
/// a long wait for the price to fall to it, a take-profit of a long for the
/// price to rise to it, and a short the other way round.
pub open spec fn spec_trigger_met(kind: OrderKind, is_long: bool, price: i128, trigger: i128)
    -> bool {
    match kind {
        OrderKind::Limit | OrderKind::StopLoss => if is_long {
            price <= trigger
        } else {
            price >= trigger
        },
        OrderKind::TakeProfit => if is_long {
            price >= trigger
        } else {
            price <= trigger
        },
    }
}

/// Whether `price` is no worse than `acceptable`: buying, which opens a
/// long or closes a short, no higher; selling no lower. An acceptable price
/// of zero accepts every price.
pub open spec fn spec_price_acceptable(
    kind: OrderKind,
    is_long: bool,
    price: i128,
    acceptable: i128,
) -> bool {
    let buying = match kind {
        OrderKind::Limit => is_long,
        OrderKind::StopLoss | OrderKind::TakeProfit => !is_long,
    };
    acceptable == 0 || (if buying {
        price <= acceptable
    } else {
        price >= acceptable
    })
}

/// Whether `price` has reached `trigger`.
pub fn trigger_met(kind: OrderKind, is_long: bool, price: i128, trigger: i128) -> (r: bool)
    ensures
        r == spec_trigger_met(kind, is_long, price, trigger),
{
    match kind {
        OrderKind::Limit | OrderKind::StopLoss => if is_long {
            price <= trigger
        } else {
            price >= trigger
        },
        OrderKind::TakeProfit => if is_long {
            price >= trigger
        } else {
            price <= trigger
        },
    }
}

/// Whether `price` is no worse than `acceptable`.
pub fn price_acceptable(kind: OrderKind, is_long: bool, price: i128, acceptable: i128) -> (r: bool)
    ensures
        r == spec_price_acceptable(kind, is_long, price, acceptable),
{
    if acceptable == 0 {
        return true;
    }
    let buying = match kind {
        OrderKind::Limit => is_long,
        OrderKind::StopLoss | OrderKind::TakeProfit => !is_long,
    };
    if buying {
        price <= acceptable
    } else {
        price >= acceptable
    }
}

impl Order {
    /// Whether the order's last moment has passed at `now`.
    pub open spec fn spec_expired(self, now: u64) -> bool {
        self.expiration != 0 && now > self.expiration
    }

    /// Whether the order's last moment has passed at `now`.
    pub fn expired(&self, now: u64) -> (r: bool)
        ensures
            r == self.spec_expired(now),
    {
        self.expiration != 0 && now > self.expiration
    }

    /// What is in escrow for the order: the fee, and for a limit order the
    /// collateral.
    pub open spec fn spec_escrow(self) -> int {
        match self.kind {
            OrderKind::Limit => self.execution_fee + self.collateral,
            _ => self.execution_fee as int,
        }
    }

    /// A limit order has no position and nothing to close; the others have
    /// a position and a part of it to close. What is in escrow fits a token
    /// amount.
    pub open spec fn wf(self) -> bool {
        &&& self.order_id >= 1
        &&& self.trigger_price > 0
        &&& self.spec_escrow() <= i128::MAX
        &&& match self.kind {
            OrderKind::Limit => self.position_id == 0 && self.collateral > 0
                && self.close_percentage == 0,
            _ => self.position_id >= 1 && 0 < self.close_percentage <= FULL_CLOSE_BPS
                && self.collateral == 0,
        }
    }
}

} // verus!
