//! The order subsystem: placing, cancelling and executing conditional
//! orders.
//!
//! What an order has in escrow sits in the position manager's own account
//! until the order executes, is cancelled, expires, or loses its position.

use vstd::prelude::*;
use crate::config::ConfigManager;
use crate::error::Error;
use crate::manager::{
    ids_up_to,
    order_size,
    rescaled,
    validate_leverage,
    validate_position_size,
    PositionManager,
};
use crate::market::MarketManager;
use crate::math::{fits_i128, fits_u128, mul_u128};
use crate::oracle::OracleIntegrator;
use crate::order::{
    price_acceptable,
    spec_price_acceptable,
    spec_trigger_met,
    trigger_met,
    Order,
    OrderKind,
    FULL_CLOSE_BPS,
};
use crate::pool::LiquidityPool;
use crate::principal::Principal;
use crate::token::{moved, FaucetToken};
use crate::venue::{
    books_agree,
    escrow_covered,
    escrow_of,
    lemma_escrow_sum_agrees,
    lemma_escrow_sum_differs_at,
    lemma_other_changes_keep_books,
};

verus! {

broadcast use vstd::std_specs::hash::group_hash_axioms;

/// Which orders to list.
#[derive(Clone, Copy, Debug, PartialEq, Eq, Structural)]
pub enum OrderFilter {
    /// The orders that this trader placed.
    Trader(Principal),
    /// The orders that close this position.
    Position(u64),
    /// The orders that watch this market.
    Market(u32),
}

/// Whether `order` is one of those that `filter` lists.
pub open spec fn spec_selects(filter: OrderFilter, order: Order) -> bool {
    match filter {
        OrderFilter::Trader(t) => order.trader == t,
        OrderFilter::Position(p) => order.position_id == p,
        OrderFilter::Market(m) => order.market_id == m,
    }
}

/// Whether `order` is one of those that `filter` lists.
fn selects(filter: OrderFilter, order: &Order) -> (r: bool)
    ensures
        r == spec_selects(filter, *order),
{
    match filter {
        OrderFilter::Trader(t) => order.trader.id == t.id,
        OrderFilter::Position(p) => order.position_id == p,
        OrderFilter::Market(m) => order.market_id == m,
    }
}

impl PositionManager {
    /// The order under `order_id`, or that there is none.
    pub open spec fn spec_order(&self, order_id: u64) -> Result<Order, Error> {
        if self.orders@.contains_key(order_id) {
            Ok(self.orders@[order_id])
        } else {
            Err(Error::OrderNotFound)
        }
    }

    /// The order under `order_id`.
    pub fn get_order(&self, order_id: u64) -> (r: Result<Order, Error>)
        requires
            self.wf(),
        ensures
            r == self.spec_order(order_id),
            r.is_ok() ==> r.unwrap().wf() && r.unwrap().order_id == order_id,
    {
        match self.orders.get(&order_id) {
            Some(o) => Ok(*o),
            None => Err(Error::OrderNotFound),
        }
    }

    /// Whether `id` is a waiting order that `filter` lists.
    pub open spec fn listed(&self, filter: OrderFilter) -> spec_fn(u64) -> bool {
        |id: u64| self.orders@.contains_key(id) && spec_selects(filter, self.orders@[id])
    }

    /// The waiting orders that `filter` lists, in the order in which they
    /// were placed.
    pub open spec fn spec_orders(&self, filter: OrderFilter) -> Seq<u64> {
        ids_up_to(self.last_order_id as nat, self.listed(filter))
    }

    /// The waiting orders that `filter` lists, in the order in which they
    /// were placed.
    pub fn get_orders(&self, filter: OrderFilter) -> (r: Vec<u64>)
        ensures
            r@ == self.spec_orders(filter),
    {
        let mut out: Vec<u64> = Vec::new();
        let mut i: u64 = 0;
        while i < self.last_order_id
            invariant
                i <= self.last_order_id,
                out@ == ids_up_to(i as nat, self.listed(filter)),
            decreases self.last_order_id - i,
        {
            i = i + 1;
            match self.orders.get(&i) {
                Some(o) => {
                    if selects(filter, o) {
                        out.push(i);
                    }
                },
                None => {},
            }
        }
        out
    }

    /// The waiting orders of `trader`, in the order in which they were
    /// placed.
    pub fn get_user_orders(&self, trader: Principal) -> (r: Vec<u64>)
        ensures
            r@ == self.spec_orders(OrderFilter::Trader(trader)),
    {
        self.get_orders(OrderFilter::Trader(trader))
    }

    /// The waiting orders that close a position, in the order in which they
    /// were placed.
    pub fn get_position_orders(&self, position_id: u64) -> (r: Vec<u64>)
        ensures
            r@ == self.spec_orders(OrderFilter::Position(position_id)),
    {
        self.get_orders(OrderFilter::Position(position_id))
    }

    /// The waiting orders that watch a market, in the order in which they
    /// were placed.
    pub fn get_market_orders(&self, market_id: u32) -> (r: Vec<u64>)
        ensures
            r@ == self.spec_orders(OrderFilter::Market(market_id)),
    {
        self.get_orders(OrderFilter::Market(market_id))
    }

    /// `self` is `before` with `order` placed under the next identifier.
    pub open spec fn is_placing_of(&self, before: &PositionManager, order: Order) -> bool {
        &&& self.same_roles(before)
        &&& self.last_position_id == before.last_position_id
        &&& self.positions@ == before.positions@
        &&& self.last_order_id == before.last_order_id + 1
        &&& self.orders@ == before.orders@.insert(self.last_order_id, order)
    }

    /// `self` is `before` without the order `order_id`.
    pub open spec fn is_removal_of(&self, before: &PositionManager, order_id: u64) -> bool {
        &&& self.same_roles(before)
        &&& self.last_position_id == before.last_position_id
        &&& self.positions@ == before.positions@
        &&& self.last_order_id == before.last_order_id
        &&& self.orders@ == before.orders@.remove(order_id)
    }

    /// Puts `order` on the book and takes `escrow` from its trader.
    fn place(&mut self, token: &mut FaucetToken, order: Order, escrow: u128)
        requires
            old(self).wf(),
            old(token).wf(),
            order.wf(),
            old(self).closes_its_position(order),
            order.order_id == old(self).last_order_id + 1,
            escrow == order.spec_escrow(),
            old(token).balance_of(order.trader) >= escrow,
        ensures
            final(self).wf(),
            final(token).wf(),
            final(self).is_placing_of(old(self), order),
            final(token).has_balances(
                old(token),
                moved(old(token).balances(), order.trader, old(self).address, escrow as int),
            ),
            escrow_covered(old(self), old(token)) && order.trader != old(self).address
                ==> escrow_covered(final(self), final(token)),
    {
        if escrow > 0 {
            let moved_ok = token.transfer(order.trader, self.address, escrow as i128);
            assert(moved_ok.is_ok());
        }
        self.orders.insert(order.order_id, order);
        self.last_order_id = order.order_id;
        proof {
            lemma_escrow_sum_agrees(
                old(self).orders@,
                self.orders@,
                old(self).last_order_id as nat,
            );
        }
    }

    /// The limit order that `trader` places, or why none is placed.
    pub open spec fn limit_order_result(
        &self,
        config: &ConfigManager,
        token: &FaucetToken,
        now: u64,
        trader: Principal,
        market_id: u32,
        trigger_price: i128,
        acceptable_price: i128,
        collateral: u128,
        leverage: u32,
        is_long: bool,
        execution_fee: u128,
        expiration: u64,
    ) -> Result<Order, Error> {
        let size = collateral * leverage;
        let id = self.last_order_id + 1;
        if trigger_price <= 0 {
            Err(Error::InvalidTriggerPrice)
        } else if acceptable_price < 0 {
            Err(Error::InvalidAcceptablePrice)
        } else if collateral == 0 {
            Err(Error::ZeroCollateral)
        } else if leverage == 0 {
            Err(Error::ZeroLeverage)
        } else if leverage < config.parameters.min_leverage {
            Err(Error::LeverageTooLow)
        } else if leverage > config.parameters.max_leverage {
            Err(Error::LeverageTooHigh)
        } else if execution_fee < config.parameters.min_execution_fee {
            Err(Error::ExecutionFeeTooLow)
        } else if !fits_u128(size) {
            Err(Error::Overflow)
        } else if size < config.parameters.min_position_size {
            Err(Error::PositionSizeTooSmall)
        } else if expiration != 0 && expiration <= now {
            Err(Error::ExpirationInPast)
        } else if id > u64::MAX || !fits_i128(execution_fee + collateral) {
            Err(Error::Overflow)
        } else if token.balance_of(trader) < execution_fee + collateral {
            Err(Error::InsufficientBalance)
        } else {
            Ok(
                Order {
                    order_id: id as u64,
                    kind: OrderKind::Limit,
                    trader,
                    market_id,
                    position_id: 0,
                    trigger_price,
                    acceptable_price,
                    collateral,
                    size: size as u128,
                    leverage,
                    is_long,
                    close_percentage: 0,
                    execution_fee,
                    expiration,
                    created_at: now,
                },
            )
        }
    }

    /// Places an order to open a position once the price is as good as
    /// `trigger_price`. The execution fee and the collateral go into
    /// escrow.
    pub fn create_limit_order(
        &mut self,
        config: &ConfigManager,
        token: &mut FaucetToken,
        now: u64,
        trader: Principal,
        market_id: u32,
        trigger_price: i128,
        acceptable_price: i128,
        collateral: u128,
        leverage: u32,
        is_long: bool,
        execution_fee: u128,
        expiration: u64,
    ) -> (r: Result<u64, Error>)
        requires
            old(self).wf(),
            old(token).wf(),
        ensures
            final(self).wf(),
            final(token).wf(),
            escrow_covered(old(self), old(token)) && trader != old(self).address
                ==> escrow_covered(final(self), final(token)),
            r.is_ok() <==> old(self).limit_order_result(
                config,
                old(token),
                now,
                trader,
                market_id,
                trigger_price,
                acceptable_price,
                collateral,
                leverage,
                is_long,
                execution_fee,
                expiration,
            ).is_ok(),
            r.is_err() ==> r.err() == old(self).limit_order_result(
                config,
                old(token),
                now,
                trader,
                market_id,
                trigger_price,
                acceptable_price,
                collateral,
                leverage,
                is_long,
                execution_fee,
                expiration,
            ).err() && *final(self) == *old(self) && *final(token) == *old(token),
            r.is_ok() ==> {
                let o = old(self).limit_order_result(
                    config,
                    old(token),
                    now,
                    trader,
                    market_id,
                    trigger_price,
                    acceptable_price,
                    collateral,
                    leverage,
                    is_long,
                    execution_fee,
                    expiration,
                ).unwrap();
                &&& r.unwrap() == o.order_id
                &&& final(self).is_placing_of(old(self), o)
                &&& final(token).has_balances(
                    old(token),
                    moved(
                        old(token).balances(),
                        trader,
                        old(self).address,
                        execution_fee + collateral,
                    ),
                )
            },
    {
        if trigger_price <= 0 {
            return Err(Error::InvalidTriggerPrice);
        }
        if acceptable_price < 0 {
            return Err(Error::InvalidAcceptablePrice);
        }
        if collateral == 0 {
            return Err(Error::ZeroCollateral);
        }
        if leverage == 0 {
            return Err(Error::ZeroLeverage);
        }
        validate_leverage(config, leverage)?;
        let min_fee = config.min_execution_fee();
        if min_fee > 0 && execution_fee < min_fee as u128 {
            return Err(Error::ExecutionFeeTooLow);
        }
        let size = mul_u128(collateral, leverage as u128)?;
        validate_position_size(config, size)?;
        if expiration != 0 && expiration <= now {
            return Err(Error::ExpirationInPast);
        }
        if self.last_order_id == u64::MAX {
            return Err(Error::Overflow);
        }
        let limit: u128 = i128::MAX as u128;
        if execution_fee > limit || collateral > limit - execution_fee {
            return Err(Error::Overflow);
        }
        let escrow: u128 = execution_fee + collateral;
        if (token.balance(trader) as u128) < escrow {
            return Err(Error::InsufficientBalance);
        }
        let id = self.last_order_id + 1;
        let order = Order {
            order_id: id,
            kind: OrderKind::Limit,
            trader,
            market_id,
            position_id: 0,
            trigger_price,
            acceptable_price,
            collateral,
            size,
            leverage,
            is_long,
            close_percentage: 0,
            execution_fee,
            expiration,
            created_at: now,
        };
        self.place(token, order, escrow);
        Ok(id)
    }

    /// Why `trigger_price` is no trigger for an order of `kind` on a
    /// position of this side that liquidates at `liquidation_price`, while
    /// the price is `price`; `None` where it is one.
    ///
    /// A stop-loss lies strictly between the liquidation price and the
    /// price, a take-profit strictly beyond the price in the position's
    /// favour.
    pub open spec fn trigger_fault(
        kind: OrderKind,
        is_long: bool,
        trigger_price: i128,
        price: i128,
        liquidation_price: u128,
    ) -> Option<Error> {
        match kind {
            OrderKind::StopLoss => if is_long {
                if trigger_price >= price {
                    Some(Error::StopLossNotBelowPrice)
                } else if trigger_price <= liquidation_price {
                    Some(Error::StopLossNotAboveLiquidation)
                } else {
                    None
                }
            } else {
                if trigger_price <= price {
                    Some(Error::StopLossNotAbovePrice)
                } else if trigger_price >= liquidation_price {
                    Some(Error::StopLossNotBelowLiquidation)
                } else {
                    None
                }
            },
            OrderKind::TakeProfit => if is_long {
                if trigger_price <= price {
                    Some(Error::TakeProfitNotAbovePrice)
                } else {
                    None
                }
            } else {
                if trigger_price >= price {
                    Some(Error::TakeProfitNotBelowPrice)
                } else {
                    None
                }
            },
            OrderKind::Limit => None,
        }
    }

    /// Why `trigger_price` is no trigger, if it is none.
    fn check_trigger(
        kind: OrderKind,
        is_long: bool,
        trigger_price: i128,
        price: i128,
        liquidation_price: u128,
    ) -> (r: Option<Error>)
        requires
            trigger_price > 0,
        ensures
            r == PositionManager::trigger_fault(
                kind,
                is_long,
                trigger_price,
                price,
                liquidation_price,
            ),
    {
        let trigger = trigger_price as u128;
        match kind {
            OrderKind::StopLoss => if is_long {
                if trigger_price >= price {
                    Some(Error::StopLossNotBelowPrice)
                } else if trigger <= liquidation_price {
                    Some(Error::StopLossNotAboveLiquidation)
                } else {
                    None
                }
            } else {
                if trigger_price <= price {
                    Some(Error::StopLossNotAbovePrice)
                } else if trigger >= liquidation_price {
                    Some(Error::StopLossNotBelowLiquidation)
                } else {
                    None
                }
            },
            OrderKind::TakeProfit => if is_long {
                if trigger_price <= price {
                    Some(Error::TakeProfitNotAbovePrice)
                } else {
                    None
                }
            } else {
                if trigger_price >= price {
                    Some(Error::TakeProfitNotBelowPrice)
                } else {
                    None
                }
            },
            OrderKind::Limit => None,
        }
    }

    /// The order that `trader` places to close a position, or why none is
    /// placed.
    pub open spec fn closing_order_result(
        &self,
        config: &ConfigManager,
        oracle: &OracleIntegrator,
        token: &FaucetToken,
        now: u64,
        kind: OrderKind,
        trader: Principal,
        position_id: u64,
        trigger_price: i128,
        acceptable_price: i128,
        close_percentage: u32,
        execution_fee: u128,
        expiration: u64,
    ) -> Result<Order, Error> {
        if !self.positions@.contains_key(position_id) {
            Err(Error::PositionNotFound)
        } else {
            let p = self.positions@[position_id];
            let id = self.last_order_id + 1;
            let fault = PositionManager::trigger_fault(
                kind,
                p.is_long,
                trigger_price,
                oracle.spec_price(p.market_id),
                p.liquidation_price,
            );
            if p.trader != trader {
                Err(Error::NotPositionOwner)
            } else if close_percentage == 0 || close_percentage > FULL_CLOSE_BPS {
                Err(Error::InvalidClosePercentage)
            } else if trigger_price <= 0 {
                Err(Error::InvalidTriggerPrice)
            } else if acceptable_price < 0 {
                Err(Error::InvalidAcceptablePrice)
            } else if execution_fee < config.parameters.min_execution_fee {
                Err(Error::ExecutionFeeTooLow)
            } else if fault.is_some() {
                Err(fault.unwrap())
            } else if expiration != 0 && expiration <= now {
                Err(Error::ExpirationInPast)
            } else if id > u64::MAX || !fits_i128(execution_fee as int) || !fits_u128(
                p.size * close_percentage,
            ) {
                Err(Error::Overflow)
            } else if token.balance_of(trader) < execution_fee {
                Err(Error::InsufficientBalance)
            } else {
                Ok(
                    Order {
                        order_id: id as u64,
                        kind,
                        trader,
                        market_id: p.market_id,
                        position_id,
                        trigger_price,
                        acceptable_price,
                        collateral: 0,
                        size: order_size(p.size, close_percentage),
                        leverage: 0,
                        is_long: p.is_long,
                        close_percentage,
                        execution_fee,
                        expiration,
                        created_at: now,
                    },
                )
            }
        }
    }

    /// Places a stop-loss or a take-profit.
    fn create_closing_order(
        &mut self,
        config: &ConfigManager,
        oracle: &OracleIntegrator,
        token: &mut FaucetToken,
        now: u64,
        kind: OrderKind,
        trader: Principal,
        position_id: u64,
        trigger_price: i128,
        acceptable_price: i128,
        close_percentage: u32,
        execution_fee: u128,
        expiration: u64,
    ) -> (r: Result<u64, Error>)
        requires
            old(self).wf(),
            oracle.wf(),
            old(token).wf(),
            kind != OrderKind::Limit,
        ensures
            final(self).wf(),
            final(token).wf(),
            escrow_covered(old(self), old(token)) && trader != old(self).address
                ==> escrow_covered(final(self), final(token)),
            r.is_ok() <==> old(self).closing_order_result(
                config,
                oracle,
                old(token),
                now,
                kind,
                trader,
                position_id,
                trigger_price,
                acceptable_price,
                close_percentage,
                execution_fee,
                expiration,
            ).is_ok(),
            r.is_err() ==> r.err() == old(self).closing_order_result(
                config,
                oracle,
                old(token),
                now,
                kind,
                trader,
                position_id,
                trigger_price,
                acceptable_price,
                close_percentage,
                execution_fee,
                expiration,
            ).err() && *final(self) == *old(self) && *final(token) == *old(token),
            r.is_ok() ==> {
                let o = old(self).closing_order_result(
                    config,
                    oracle,
                    old(token),
                    now,
                    kind,
                    trader,
                    position_id,
                    trigger_price,
                    acceptable_price,
                    close_percentage,
                    execution_fee,
                    expiration,
                ).unwrap();
                &&& r.unwrap() == o.order_id
                &&& final(self).is_placing_of(old(self), o)
                &&& final(token).has_balances(
                    old(token),
                    moved(old(token).balances(), trader, old(self).address, execution_fee as int),
                )
            },
    {
        let p = self.get_position(position_id)?;
        if p.trader.id != trader.id {
            return Err(Error::NotPositionOwner);
        }
        if close_percentage == 0 || close_percentage > FULL_CLOSE_BPS {
            return Err(Error::InvalidClosePercentage);
        }
        if trigger_price <= 0 {
            return Err(Error::InvalidTriggerPrice);
        }
        if acceptable_price < 0 {
            return Err(Error::InvalidAcceptablePrice);
        }
        let min_fee = config.min_execution_fee();
        if min_fee > 0 && execution_fee < min_fee as u128 {
            return Err(Error::ExecutionFeeTooLow);
        }
        let price = oracle.get_price(p.market_id);
        match PositionManager::check_trigger(
            kind,
            p.is_long,
            trigger_price,
            price,
            p.liquidation_price,
        ) {
            Some(e) => {
                return Err(e);
            },
            None => {},
        }
        if expiration != 0 && expiration <= now {
            return Err(Error::ExpirationInPast);
        }
        if self.last_order_id == u64::MAX || execution_fee > i128::MAX as u128 {
            return Err(Error::Overflow);
        }
        let size = mul_u128(p.size, close_percentage as u128)? / 10_000;
        if (token.balance(trader) as u128) < execution_fee {
            return Err(Error::InsufficientBalance);
        }
        let id = self.last_order_id + 1;
        let order = Order {
            order_id: id,
            kind,
            trader,
            market_id: p.market_id,
            position_id,
            trigger_price,
            acceptable_price,
            collateral: 0,
            size,
            leverage: 0,
            is_long: p.is_long,
            close_percentage,
            execution_fee,
            expiration,
            created_at: now,
        };
        self.place(token, order, execution_fee);
        Ok(id)
    }

    /// Places an order to close `close_percentage` of a position once the
    /// price has fallen against it to `trigger_price`, which lies strictly
    /// between the position's liquidation price and the price now. The
    /// execution fee goes into escrow.
    pub fn create_stop_loss(
        &mut self,
        config: &ConfigManager,
        oracle: &OracleIntegrator,
        token: &mut FaucetToken,
        now: u64,
        trader: Principal,
        position_id: u64,
        trigger_price: i128,
        acceptable_price: i128,
        close_percentage: u32,
        execution_fee: u128,
        expiration: u64,
    ) -> (r: Result<u64, Error>)
        requires
            old(self).wf(),
            oracle.wf(),
            old(token).wf(),
        ensures
            final(self).wf(),
            final(token).wf(),
            escrow_covered(old(self), old(token)) && trader != old(self).address
                ==> escrow_covered(final(self), final(token)),
            r.is_ok() <==> old(self).closing_order_result(
                config,
                oracle,
                old(token),
                now,
                OrderKind::StopLoss,
                trader,
                position_id,
                trigger_price,
                acceptable_price,
                close_percentage,
                execution_fee,
                expiration,
            ).is_ok(),
            r.is_err() ==> r.err() == old(self).closing_order_result(
                config,
                oracle,
                old(token),
                now,
                OrderKind::StopLoss,
                trader,
                position_id,
                trigger_price,
                acceptable_price,
                close_percentage,
                execution_fee,
                expiration,
            ).err() && *final(self) == *old(self) && *final(token) == *old(token),
            r.is_ok() ==> {
                let o = old(self).closing_order_result(
                    config,
                    oracle,
                    old(token),
                    now,
                    OrderKind::StopLoss,
                    trader,
                    position_id,
                    trigger_price,
                    acceptable_price,
                    close_percentage,
                    execution_fee,
                    expiration,
                ).unwrap();
                &&& r.unwrap() == o.order_id
                &&& final(self).is_placing_of(old(self), o)
                &&& final(token).has_balances(
                    old(token),
                    moved(old(token).balances(), trader, old(self).address, execution_fee as int),
                )
            },
    {
        self.create_closing_order(
            config,
            oracle,
            token,
            now,
            OrderKind::StopLoss,
            trader,
            position_id,
            trigger_price,
            acceptable_price,
            close_percentage,
            execution_fee,
            expiration,
        )
    }

    /// Places an order to close `close_percentage` of a position once the
    /// price has moved in its favour to `trigger_price`, which lies
    /// strictly beyond the price now. The execution fee goes into escrow.
    pub fn create_take_profit(
        &mut self,
        config: &ConfigManager,
        oracle: &OracleIntegrator,
        token: &mut FaucetToken,
        now: u64,
        trader: Principal,
        position_id: u64,
        trigger_price: i128,
        acceptable_price: i128,
        close_percentage: u32,
        execution_fee: u128,
        expiration: u64,
    ) -> (r: Result<u64, Error>)
        requires
            old(self).wf(),
            oracle.wf(),
            old(token).wf(),
        ensures
            final(self).wf(),
            final(token).wf(),
            escrow_covered(old(self), old(token)) && trader != old(self).address
                ==> escrow_covered(final(self), final(token)),
            r.is_ok() <==> old(self).closing_order_result(
                config,
                oracle,
                old(token),
                now,
                OrderKind::TakeProfit,
                trader,
                position_id,
                trigger_price,
                acceptable_price,
                close_percentage,
                execution_fee,
                expiration,
            ).is_ok(),
            r.is_err() ==> r.err() == old(self).closing_order_result(
                config,
                oracle,
                old(token),
                now,
                OrderKind::TakeProfit,
                trader,
                position_id,
                trigger_price,
                acceptable_price,
                close_percentage,
                execution_fee,
                expiration,
            ).err() && *final(self) == *old(self) && *final(token) == *old(token),
            r.is_ok() ==> {
                let o = old(self).closing_order_result(
                    config,
                    oracle,
                    old(token),
                    now,
                    OrderKind::TakeProfit,
                    trader,
                    position_id,
                    trigger_price,
                    acceptable_price,
                    close_percentage,
                    execution_fee,
                    expiration,
                ).unwrap();
                &&& r.unwrap() == o.order_id
                &&& final(self).is_placing_of(old(self), o)
                &&& final(token).has_balances(
                    old(token),
                    moved(old(token).balances(), trader, old(self).address, execution_fee as int),
                )
            },
    {
        self.create_closing_order(
            config,
            oracle,
            token,
            now,
            OrderKind::TakeProfit,
            trader,
            position_id,
            trigger_price,
            acceptable_price,
            close_percentage,
            execution_fee,
            expiration,
        )
    }

    /// Takes an order off the book and pays its escrow back to its trader.
    fn refund(&mut self, token: &mut FaucetToken, order: Order)
        requires
            old(self).wf(),
            old(token).wf(),
            old(self).orders@.contains_key(order.order_id),
            old(self).orders@[order.order_id] == order,
            old(token).balance_of(old(self).address) >= order.spec_escrow(),
        ensures
            final(self).wf(),
            final(token).wf(),
            final(self).is_removal_of(old(self), order.order_id),
            final(token).has_balances(
                old(token),
                moved(
                    old(token).balances(),
                    old(self).address,
                    order.trader,
                    order.spec_escrow(),
                ),
            ),
            escrow_covered(old(self), old(token)) ==> escrow_covered(final(self), final(token)),
    {
        let escrow: u128 = match order.kind {
            OrderKind::Limit => order.execution_fee + order.collateral,
            _ => order.execution_fee,
        };
        if escrow > 0 {
            let moved_ok = token.transfer(self.address, order.trader, escrow as i128);
            assert(moved_ok.is_ok());
        }
        self.orders.remove(&order.order_id);
        proof {
            lemma_escrow_sum_differs_at(
                old(self).orders@,
                self.orders@,
                self.last_order_id as nat,
                order.order_id,
            );
        }
    }

    /// Why `trader` cannot cancel an order, if it cannot.
    pub open spec fn cancel_check(&self, token: &FaucetToken, trader: Principal, order_id: u64)
        -> Result<(), Error> {
        if !self.orders@.contains_key(order_id) {
            Err(Error::OrderNotFound)
        } else if self.orders@[order_id].trader != trader {
            Err(Error::NotOrderOwner)
        } else if token.balance_of(self.address) < self.orders@[order_id].spec_escrow() {
            Err(Error::InsufficientBalance)
        } else {
            Ok(())
        }
    }

    /// Cancels an order of `trader` and pays back all it has in escrow: the
    /// fee, and for a limit order the collateral.
    pub fn cancel_order(&mut self, token: &mut FaucetToken, trader: Principal, order_id: u64) -> (r:
        Result<(), Error>)
        requires
            old(self).wf(),
            old(token).wf(),
        ensures
            final(self).wf(),
            final(token).wf(),
            escrow_covered(old(self), old(token)) ==> escrow_covered(final(self), final(token)),
            r == old(self).cancel_check(old(token), trader, order_id),
            r.is_err() ==> *final(self) == *old(self) && *final(token) == *old(token),
            r.is_ok() ==> final(self).is_removal_of(old(self), order_id) && final(token).has_balances(
                old(token),
                moved(
                    old(token).balances(),
                    old(self).address,
                    trader,
                    old(self).orders@[order_id].spec_escrow(),
                ),
            ),
    {
        let o = self.get_order(order_id)?;
        if o.trader.id != trader.id {
            return Err(Error::NotOrderOwner);
        }
        let escrow: u128 = match o.kind {
            OrderKind::Limit => o.execution_fee + o.collateral,
            _ => o.execution_fee,
        };
        if (token.balance(self.address) as u128) < escrow {
            return Err(Error::InsufficientBalance);
        }
        self.refund(token, o);
        Ok(())
    }

    /// Why an order cannot be removed as expired, if it cannot.
    pub open spec fn expiry_check(&self, token: &FaucetToken, now: u64, order_id: u64) -> Result<
        (),
        Error,
    > {
        if !self.orders@.contains_key(order_id) {
            Err(Error::OrderNotFound)
        } else if !self.orders@[order_id].spec_expired(now) {
            Err(Error::OrderNotExpired)
        } else if token.balance_of(self.address) < self.orders@[order_id].spec_escrow() {
            Err(Error::InsufficientBalance)
        } else {
            Ok(())
        }
    }

    /// Removes an order whose last moment has passed and pays back all it
    /// has in escrow to its trader. Anyone may ask.
    pub fn cancel_expired_order(&mut self, token: &mut FaucetToken, now: u64, order_id: u64) -> (r:
        Result<(), Error>)
        requires
            old(self).wf(),
            old(token).wf(),
        ensures
            final(self).wf(),
            final(token).wf(),
            escrow_covered(old(self), old(token)) ==> escrow_covered(final(self), final(token)),
            r == old(self).expiry_check(old(token), now, order_id),
            r.is_err() ==> *final(self) == *old(self) && *final(token) == *old(token),
            r.is_ok() ==> final(self).is_removal_of(old(self), order_id) && final(token).has_balances(
                old(token),
                moved(
                    old(token).balances(),
                    old(self).address,
                    old(self).orders@[order_id].trader,
                    old(self).orders@[order_id].spec_escrow(),
                ),
            ),
    {
        let o = self.get_order(order_id)?;
        if !o.expired(now) {
            return Err(Error::OrderNotExpired);
        }
        let escrow: u128 = match o.kind {
            OrderKind::Limit => o.execution_fee + o.collateral,
            _ => o.execution_fee,
        };
        if (token.balance(self.address) as u128) < escrow {
            return Err(Error::InsufficientBalance);
        }
        self.refund(token, o);
        Ok(())
    }

    /// The order that may execute now, or why it may not: it must exist and
    /// not be expired, its market must not be paused, the price must have
    /// reached its trigger and be no worse than its acceptable price.
    pub open spec fn execution_check(
        &self,
        oracle: &OracleIntegrator,
        markets: &MarketManager,
        now: u64,
        order_id: u64,
    ) -> Result<Order, Error> {
        if !self.orders@.contains_key(order_id) {
            Err(Error::OrderNotFound)
        } else {
            let o = self.orders@[order_id];
            let price = oracle.spec_price(o.market_id);
            if o.spec_expired(now) {
                Err(Error::OrderExpired)
            } else if !markets.markets@.contains_key(o.market_id) {
                Err(Error::MarketNotFound)
            } else if markets.markets@[o.market_id].is_paused {
                Err(Error::MarketPaused)
            } else if !spec_trigger_met(o.kind, o.is_long, price, o.trigger_price) {
                Err(Error::TriggerNotMet)
            } else if !spec_price_acceptable(o.kind, o.is_long, price, o.acceptable_price) {
                Err(Error::SlippageExceeded)
            } else {
                Ok(o)
            }
        }
    }

    /// Checks that an order may execute now.
    fn check_execution(
        &self,
        oracle: &OracleIntegrator,
        markets: &MarketManager,
        now: u64,
        order_id: u64,
    ) -> (r: Result<Order, Error>)
        requires
            self.wf(),
            oracle.wf(),
            markets.wf(),
        ensures
            r == self.execution_check(oracle, markets, now, order_id),
            r.is_ok() ==> r.unwrap().wf() && r.unwrap().order_id == order_id,
    {
        let o = self.get_order(order_id)?;
        if o.expired(now) {
            return Err(Error::OrderExpired);
        }
        let m = markets.get_market(o.market_id)?;
        if m.is_paused {
            return Err(Error::MarketPaused);
        }
        let price = oracle.get_price(o.market_id);
        if !trigger_met(o.kind, o.is_long, price, o.trigger_price) {
            return Err(Error::TriggerNotMet);
        }
        if !price_acceptable(o.kind, o.is_long, price, o.acceptable_price) {
            return Err(Error::SlippageExceeded);
        }
        Ok(o)
    }

    /// Whether an order may execute now, and the position it closes is
    /// still open.
    pub open spec fn spec_can_execute_order(
        &self,
        oracle: &OracleIntegrator,
        markets: &MarketManager,
        now: u64,
        order_id: u64,
    ) -> bool {
        match self.execution_check(oracle, markets, now, order_id) {
            Err(_) => false,
            Ok(o) => o.kind == OrderKind::Limit || self.positions@.contains_key(o.position_id),
        }
    }

    /// Whether an order may execute now.
    pub fn can_execute_order(
        &self,
        oracle: &OracleIntegrator,
        markets: &MarketManager,
        now: u64,
        order_id: u64,
    ) -> (r: bool)
        requires
            self.wf(),
            oracle.wf(),
            markets.wf(),
        ensures
            r == self.spec_can_execute_order(oracle, markets, now, order_id),
    {
        match self.check_execution(oracle, markets, now, order_id) {
            Err(_) => false,
            Ok(o) => match o.kind {
                OrderKind::Limit => true,
                _ => self.positions.contains_key(&o.position_id),
            },
        }
    }

    /// What executing an order returns, or why it does not execute: the
    /// identifier of the position that a limit order opens, the profit or
    /// loss that a stop-loss or take-profit realizes.
    pub open spec fn execute_result(
        &self,
        config: &ConfigManager,
        oracle: &OracleIntegrator,
        markets: &MarketManager,
        pool: &LiquidityPool,
        token: &FaucetToken,
        now: u64,
        keeper: Principal,
        order_id: u64,
    ) -> Result<i128, Error> {
        match self.execution_check(oracle, markets, now, order_id) {
            Err(e) => Err(e),
            Ok(o) => match o.kind {
                OrderKind::Limit => {
                    if token.balance_of(self.address) < o.execution_fee + o.collateral {
                        Err(Error::InsufficientBalance)
                    } else {
                        match self.open_result(
                            config,
                            oracle,
                            markets,
                            pool,
                            token,
                            now,
                            o.trader,
                            self.address,
                            o.market_id,
                            o.collateral,
                            o.leverage,
                            o.is_long,
                        ) {
                            Err(e) => Err(e),
                            Ok(_) => Ok((self.last_position_id + 1) as i128),
                        }
                    }
                },
                _ => {
                    if o.close_percentage == FULL_CLOSE_BPS {
                        self.close_result(
                            config,
                            oracle,
                            markets,
                            pool,
                            token,
                            now,
                            o.position_id,
                            order_id,
                            keeper,
                        )
                    } else if !self.positions@.contains_key(o.position_id) {
                        Err(Error::PositionNotFound)
                    } else if !fits_u128(
                        self.positions@[o.position_id].size * o.close_percentage,
                    ) {
                        Err(Error::Overflow)
                    } else {
                        match self.reduce_result(
                            config,
                            oracle,
                            markets,
                            pool,
                            token,
                            now,
                            o.position_id,
                            0,
                            order_size(self.positions@[o.position_id].size, o.close_percentage),
                            order_id,
                        ) {
                            Err(e) => Err(e),
                            Ok(reduction) => Ok(reduction.realized),
                        }
                    }
                },
            },
        }
    }

    /// Whether the components are what executing a limit order leaves: its
    /// position opened with the collateral out of escrow, its fee paid to
    /// the keeper, the order gone.
    pub open spec fn limit_executed(
        &self,
        config: &ConfigManager,
        oracle: &OracleIntegrator,
        markets: &MarketManager,
        pool: &LiquidityPool,
        token: &FaucetToken,
        now: u64,
        keeper: Principal,
        order_id: u64,
        after: &PositionManager,
        markets_after: &MarketManager,
        pool_after: &LiquidityPool,
        token_after: &FaucetToken,
    ) -> bool {
        let o = self.orders@[order_id];
        let p = self.open_result(
            config,
            oracle,
            markets,
            pool,
            token,
            now,
            o.trader,
            self.address,
            o.market_id,
            o.collateral,
            o.leverage,
            o.is_long,
        ).unwrap();
        let m = markets.markets@[o.market_id];
        let id = (self.last_position_id + 1) as u64;
        &&& after.same_roles(self)
        &&& after.last_order_id == self.last_order_id
        &&& after.orders@ == self.orders@.remove(order_id)
        &&& after.last_position_id == id
        &&& after.positions@ == self.positions@.insert(id, p)
        &&& markets_after.is_update_of(
            markets,
            m.spec_with_open_interest(
                o.is_long,
                (m.spec_open_interest(o.is_long) + p.size) as u128,
            ),
        )
        &&& pool_after.is_position_change_of(
            pool,
            id,
            (pool.collateral_of(id) + o.collateral) as u128,
            (pool.reserved_liquidity + p.size) as u128,
        )
        &&& token_after.has_balances(
            token,
            moved(
                moved(token.balances(), self.address, pool.address, o.collateral as int),
                self.address,
                keeper,
                o.execution_fee as int,
            ),
        )
    }

    /// Whether the components are what executing an order that closes all
    /// of its position leaves: the position closed, the order's fee paid to
    /// the keeper, the fees of the position's other orders refunded.
    pub open spec fn full_close_executed(
        &self,
        markets: &MarketManager,
        pool: &LiquidityPool,
        token: &FaucetToken,
        keeper: Principal,
        order_id: u64,
        pnl: i128,
        after: &PositionManager,
        markets_after: &MarketManager,
        pool_after: &LiquidityPool,
        token_after: &FaucetToken,
    ) -> bool {
        let o = self.orders@[order_id];
        let p = self.positions@[o.position_id];
        let m = markets.markets@[p.market_id];
        &&& after.is_retirement_of(self, o.position_id)
        &&& markets_after.is_update_of(
            markets,
            m.spec_with_open_interest(p.is_long, (m.spec_open_interest(p.is_long) - p.size) as u128),
        )
        &&& pool_after.is_position_change_of(
            pool,
            o.position_id,
            0,
            (pool.reserved_liquidity - p.size) as u128,
        )
        &&& token_after.has_balances(
            token,
            self.balances_after_retire(
                pool,
                token,
                o.position_id,
                PositionManager::close_settlement(p, pnl, order_id, keeper),
            ),
        )
    }

    /// Whether the components are what executing an order that closes part
    /// of its position leaves: the position reduced by that part, the
    /// order's fee paid to the keeper, the order gone and the position's
    /// other orders set to its new size.
    pub open spec fn partial_close_executed(
        &self,
        config: &ConfigManager,
        oracle: &OracleIntegrator,
        markets: &MarketManager,
        pool: &LiquidityPool,
        token: &FaucetToken,
        now: u64,
        keeper: Principal,
        order_id: u64,
        after: &PositionManager,
        markets_after: &MarketManager,
        pool_after: &LiquidityPool,
        token_after: &FaucetToken,
    ) -> bool {
        let o = self.orders@[order_id];
        let p = self.positions@[o.position_id];
        let m = markets.markets@[p.market_id];
        let part = order_size(p.size, o.close_percentage);
        let next = self.reduce_result(
            config,
            oracle,
            markets,
            pool,
            token,
            now,
            o.position_id,
            0,
            part,
            order_id,
        ).unwrap();
        &&& after.is_change_of(
            self,
            o.position_id,
            next.position,
            rescaled(self.orders@.remove(order_id), o.position_id, next.position.size),
        )
        &&& markets_after.is_update_of(
            markets,
            m.spec_with_open_interest(p.is_long, (m.spec_open_interest(p.is_long) - part) as u128),
        )
        &&& pool_after.is_position_change_of(
            pool,
            o.position_id,
            next.position.collateral,
            (pool.reserved_liquidity - part) as u128,
        )
        &&& token_after.has_balances(
            token,
            self.balances_after_reduce(
                pool,
                token,
                o.position_id,
                0,
                next.realized,
                order_id,
                keeper,
            ),
        )
    }

    /// Executes an order whose trigger the price has reached, and pays its
    /// execution fee to `keeper`.
    ///
    /// A limit order opens its position with the collateral out of escrow
    /// and returns the position's identifier. A stop-loss or take-profit
    /// closes its part of its position and returns the profit or loss that
    /// was realized: all of the position by the way every position closes,
    /// a part by the way a position is reduced.
    #[verifier::rlimit(50)]
    pub fn execute_order(
        &mut self,
        config: &ConfigManager,
        oracle: &OracleIntegrator,
        markets: &mut MarketManager,
        pool: &mut LiquidityPool,
        token: &mut FaucetToken,
        now: u64,
        keeper: Principal,
        order_id: u64,
    ) -> (r: Result<i128, Error>)
        requires
            old(self).wf(),
            oracle.wf(),
            old(markets).wf(),
            old(pool).wf(),
            old(token).wf(),
        ensures
            final(self).wf(),
            final(markets).wf(),
            final(pool).wf(),
            final(token).wf(),
            books_agree(old(self), old(markets), old(pool)) ==> books_agree(
                final(self),
                final(markets),
                final(pool),
            ),
            escrow_covered(old(self), old(token)) && old(pool).address != old(self).address
                ==> escrow_covered(final(self), final(token)),
            r == old(self).execute_result(
                config,
                oracle,
                old(markets),
                old(pool),
                old(token),
                now,
                keeper,
                order_id,
            ),
            r.is_err() ==> {
                &&& *final(self) == *old(self)
                &&& *final(markets) == *old(markets)
                &&& *final(pool) == *old(pool)
                &&& *final(token) == *old(token)
            },
            r.is_ok() ==> match old(self).orders@[order_id].kind {
                OrderKind::Limit => old(self).limit_executed(
                    config,
                    oracle,
                    old(markets),
                    old(pool),
                    old(token),
                    now,
                    keeper,
                    order_id,
                    final(self),
                    final(markets),
                    final(pool),
                    final(token),
                ),
                _ => if old(self).orders@[order_id].close_percentage == FULL_CLOSE_BPS {
                    old(self).full_close_executed(
                        old(markets),
                        old(pool),
                        old(token),
                        keeper,
                        order_id,
                        r.unwrap(),
                        final(self),
                        final(markets),
                        final(pool),
                        final(token),
                    )
                } else {
                    old(self).partial_close_executed(
                        config,
                        oracle,
                        old(markets),
                        old(pool),
                        old(token),
                        now,
                        keeper,
                        order_id,
                        final(self),
                        final(markets),
                        final(pool),
                        final(token),
                    )
                },
            },
    {
        let o = self.check_execution(oracle, markets, now, order_id)?;
        match o.kind {
            OrderKind::Limit => {
                let escrow: u128 = o.execution_fee + o.collateral;
                if (token.balance(self.address) as u128) < escrow {
                    return Err(Error::InsufficientBalance);
                }
                let id = self.open_for(
                    config,
                    oracle,
                    markets,
                    pool,
                    token,
                    now,
                    o.trader,
                    self.address,
                    o.market_id,
                    o.collateral,
                    o.leverage,
                    o.is_long,
                )?;
                let ghost b1 = moved(
                    old(token).balances(),
                    self.address,
                    pool.address,
                    o.collateral as int,
                );
                assert(forall|q: Principal| #[trigger] token.balance_of(q) == b1(q));
                if o.execution_fee > 0 {
                    let paid = token.transfer(self.address, keeper, o.execution_fee as i128);
                    assert(paid.is_ok());
                }
                let ghost opened = *self;
                self.orders.remove(&order_id);
                proof {
                    if books_agree(old(self), old(markets), old(pool)) {
                        lemma_other_changes_keep_books(&opened, markets, pool, self, markets, pool);
                    }
                    lemma_escrow_sum_differs_at(
                        old(self).orders@,
                        self.orders@,
                        self.last_order_id as nat,
                        order_id,
                    );
                }
                Ok(id as i128)
            },
            _ => {
                if o.close_percentage == FULL_CLOSE_BPS {
                    self.close_with(
                        config,
                        oracle,
                        markets,
                        pool,
                        token,
                        now,
                        o.position_id,
                        order_id,
                        keeper,
                    )
                } else {
                    let p = self.get_position(o.position_id)?;
                    let part = mul_u128(p.size, o.close_percentage as u128)? / 10_000;
                    self.reduce(
                        config,
                        oracle,
                        markets,
                        pool,
                        token,
                        now,
                        o.position_id,
                        0,
                        part,
                        order_id,
                        keeper,
                    )
                }
            },
        }
    }
}

} // verus!
