//! The position manager: opening, changing, closing and liquidating
//! positions against the markets, the pool and the token ledger.

use vstd::prelude::*;
use std::collections::HashMap;
use crate::config::ConfigManager;
use crate::error::Error;
use crate::market::MarketManager;
use crate::math::{add_u128, checked_u128, fits_i128, fits_u128, mul_u128};
use crate::oracle::OracleIntegrator;
use crate::order::{Order, OrderKind};
use crate::pool::LiquidityPool;
use crate::position::{
    compute_liquidation_price,
    liquidation_price_result,
    maintenance_margin,
    Position,
    KEEPER_SHARE_BPS,
    MAINTENANCE_MARGIN_BPS,
};
use crate::principal::Principal;
use crate::token::{moved, FaucetToken};
use crate::venue::{
    books_agree,
    escrow_covered,
    lemma_escrow_sum_without_attached,
    lemma_opening_keeps_books,
    lemma_retirement_keeps_books,
};

verus! {

broadcast use vstd::std_specs::hash::group_hash_axioms;

/// Why `leverage` is none to open a position with, if it is none.
pub open spec fn leverage_check(config: &ConfigManager, leverage: u32) -> Result<(), Error> {
    if leverage < config.parameters.min_leverage {
        Err(Error::LeverageTooLow)
    } else if leverage > config.parameters.max_leverage {
        Err(Error::LeverageTooHigh)
    } else {
        Ok(())
    }
}

/// Checks that `leverage` lies within the configured bounds.
pub fn validate_leverage(config: &ConfigManager, leverage: u32) -> (r: Result<(), Error>)
    ensures
        r == leverage_check(config, leverage),
{
    if (leverage as i128) < config.min_leverage() {
        return Err(Error::LeverageTooLow);
    }
    if (leverage as i128) > config.max_leverage() {
        return Err(Error::LeverageTooHigh);
    }
    Ok(())
}

/// Why `size` is none for a position, if it is none.
pub open spec fn position_size_check(config: &ConfigManager, size: u128) -> Result<(), Error> {
    if size < config.parameters.min_position_size {
        Err(Error::PositionSizeTooSmall)
    } else {
        Ok(())
    }
}

/// Checks that `size` is no less than the configured minimum.
pub fn validate_position_size(config: &ConfigManager, size: u128) -> (r: Result<(), Error>)
    ensures
        r == position_size_check(config, size),
{
    let min_size = config.min_position_size();
    if min_size > 0 && size < min_size as u128 {
        return Err(Error::PositionSizeTooSmall);
    }
    Ok(())
}

/// The identifiers from 1 to `n` for which `keep` holds, in rising order.
pub open spec fn ids_up_to(n: nat, keep: spec_fn(u64) -> bool) -> Seq<u64>
    decreases n,
{
    if n == 0 {
        Seq::empty()
    } else if keep(n as u64) {
        ids_up_to((n - 1) as nat, keep).push(n as u64)
    } else {
        ids_up_to((n - 1) as nat, keep)
    }
}

/// The orders that close the position `position_id`.
pub open spec fn attached(orders: Map<u64, Order>, position_id: u64) -> Set<u64> {
    Set::new(|o: u64| orders.contains_key(o) && orders[o].position_id == position_id)
}

/// The execution fees in escrow for the orders with identifiers up to `n`
/// that close the position `position_id`, but for the order `executing`.
pub open spec fn refund_total(
    orders: Map<u64, Order>,
    position_id: u64,
    executing: u64,
    n: nat,
) -> int
    decreases n,
{
    if n == 0 {
        0
    } else {
        let o = n as u64;
        refund_total(orders, position_id, executing, (n - 1) as nat) + (if orders.contains_key(o)
            && orders[o].position_id == position_id && o != executing {
            orders[o].execution_fee as int
        } else {
            0
        })
    }
}

/// The fees of more orders are no less.
pub proof fn lemma_refund_total_monotone(
    orders: Map<u64, Order>,
    position_id: u64,
    executing: u64,
    i: nat,
    n: nat,
)
    requires
        i <= n,
    ensures
        0 <= refund_total(orders, position_id, executing, i) <= refund_total(
            orders,
            position_id,
            executing,
            n,
        ),
    decreases n,
{
    if i < n {
        lemma_refund_total_monotone(orders, position_id, executing, i, (n - 1) as nat);
    } else if n > 0 {
        lemma_refund_total_monotone(orders, position_id, executing, (n - 1) as nat, (n - 1) as nat);
    }
}

/// What the keeper earns for a liquidation: six tenths of the liquidation
/// fee on the size, but no more than the collateral that is held.
pub open spec fn keeper_reward(size: int, fee_bps: int, collateral_held: int) -> int {
    let total_fee = size * fee_bps / 10_000;
    let reward = total_fee * KEEPER_SHARE_BPS / 10_000;
    if reward > collateral_held {
        collateral_held
    } else {
        reward
    }
}

/// What a closing position pays back out of its collateral: all of it
/// after a gain, what the loss has left of it otherwise.
pub open spec fn returned_collateral(collateral: int, pnl: int) -> int {
    if pnl >= 0 {
        collateral
    } else if collateral + pnl > 0 {
        collateral + pnl
    } else {
        0
    }
}

/// The size that an order closing `close_percentage` of a position of
/// `position_size` closes.
pub open spec fn order_size(position_size: u128, close_percentage: u32) -> u128 {
    (position_size * close_percentage / 10_000) as u128
}

/// The orders after those that close the position `position_id` were set to
/// their part of its new size.
pub open spec fn rescaled(orders: Map<u64, Order>, position_id: u64, new_size: u128) -> Map<
    u64,
    Order,
> {
    Map::new(
        |o: u64| orders.contains_key(o),
        |o: u64|
            if orders[o].position_id == position_id {
                Order { size: order_size(new_size, orders[o].close_percentage), ..orders[o] }
            } else {
                orders[o]
            },
    )
}

/// A position after it was reduced, and what the reduction realized.
pub struct Reduction {
    /// The position that is left.
    pub position: Position,
    /// The part of the profit or loss that was realized.
    pub realized: i128,
}

/// Whether `order`, if it closes a position, closes one of `positions`, of
/// its own trader, market and side.
pub open spec fn closes_one_of(positions: Map<u64, Position>, order: Order) -> bool {
    order.kind != OrderKind::Limit ==> {
        &&& positions.contains_key(order.position_id)
        &&& positions[order.position_id].trader == order.trader
        &&& positions[order.position_id].market_id == order.market_id
        &&& positions[order.position_id].is_long == order.is_long
    }
}

/// One open position on record.
#[derive(Clone, Copy, Debug, PartialEq, Eq, Structural)]
pub struct PositionRecord {
    /// The position's identifier.
    pub position_id: u64,
    /// The position.
    pub position: Position,
}

/// The positions that `records` hold, a later record replacing an earlier
/// one under the same identifier.
pub open spec fn position_map(records: Seq<PositionRecord>) -> Map<u64, Position>
    decreases records.len(),
{
    if records.len() == 0 {
        Map::empty()
    } else {
        position_map(records.drop_last()).insert(
            records.last().position_id,
            records.last().position,
        )
    }
}

/// The orders that `records` hold, each under its own identifier, a later
/// record replacing an earlier one.
pub open spec fn order_map(records: Seq<Order>) -> Map<u64, Order>
    decreases records.len(),
{
    if records.len() == 0 {
        Map::empty()
    } else {
        order_map(records.drop_last()).insert(records.last().order_id, records.last())
    }
}

/// Who is who around a position manager, and the identifiers it gave out
/// last.
#[derive(Clone, Copy, Debug, PartialEq, Eq, Structural)]
pub struct ManagerRoles {
    /// The manager's own account in the token ledger.
    pub address: Principal,
    /// The administrator, once initialized.
    pub admin: Option<Principal>,
    /// The parameter store the manager was pointed at.
    pub config_manager: Option<Principal>,
    /// The identifier of the position opened last.
    pub last_position_id: u64,
    /// The identifier of the order placed last.
    pub last_order_id: u64,
}

/// How a position is settled when it leaves the book.
pub struct Settlement {
    /// The order that is executing, whose fee goes to the keeper; zero for
    /// none.
    pub executing: u64,
    /// Who executes or liquidates.
    pub keeper: Principal,
    /// Who receives what is paid out of the collateral.
    pub recipient: Principal,
    /// What is paid out of the collateral; the rest stays with the pool.
    pub collateral_part: u128,
    /// What the pool pays the trader on top.
    pub gain: i128,
}

/// All positions and orders, and the account that holds what orders have in
/// escrow.
pub struct PositionManager {
    /// The manager's own account in the token ledger, and the name under
    /// which it calls the markets and the pool.
    pub address: Principal,
    /// The administrator, once initialized.
    pub admin: Option<Principal>,
    /// The parameter store this manager was pointed at.
    pub config_manager: Option<Principal>,
    /// The identifier of the position opened last; the first is 1.
    pub last_position_id: u64,
    /// The identifier of the order placed last; the first is 1.
    pub last_order_id: u64,
    /// The open positions, by identifier.
    pub positions: HashMap<u64, Position>,
    /// The waiting orders, by identifier.
    pub orders: HashMap<u64, Order>,
}

impl PositionManager {
    /// Every position and order is well formed and has an identifier that
    /// was given out; an order is kept under its own identifier, and one
    /// that closes a position closes an open one of its own trader.
    pub open spec fn wf(&self) -> bool {
        &&& forall|id: u64| #[trigger]
            self.positions@.contains_key(id) ==> 1 <= id <= self.last_position_id
                && self.positions@[id].wf()
        &&& forall|id: u64| #[trigger]
            self.orders@.contains_key(id) ==> 1 <= id <= self.last_order_id
                && self.orders@[id].order_id == id && self.orders@[id].wf()
                && self.closes_its_position(self.orders@[id])
    }

    /// An order that closes a position closes an open one, of its own
    /// trader, market and side.
    pub open spec fn closes_its_position(&self, order: Order) -> bool {
        closes_one_of(self.positions@, order)
    }

    /// Who is who is as in `other`.
    pub open spec fn same_roles(&self, other: &PositionManager) -> bool {
        &&& self.address == other.address
        &&& self.admin == other.admin
        &&& self.config_manager == other.config_manager
    }

    /// The position under `position_id`, or that there is none.
    pub open spec fn spec_position(&self, position_id: u64) -> Result<Position, Error> {
        if self.positions@.contains_key(position_id) {
            Ok(self.positions@[position_id])
        } else {
            Err(Error::PositionNotFound)
        }
    }

    /// A manager with the account `address`, without positions or orders,
    /// that has not been initialized.
    pub fn new(address: Principal) -> (m: PositionManager)
        ensures
            m.wf(),
            m.address == address,
            m.admin.is_none(),
            m.config_manager.is_none(),
            m.last_position_id == 0,
            m.last_order_id == 0,
            m.positions@ == Map::<u64, Position>::empty(),
            m.orders@ == Map::<u64, Order>::empty(),
    {
        PositionManager {
            address,
            admin: None,
            config_manager: None,
            last_position_id: 0,
            last_order_id: 0,
            positions: HashMap::new(),
            orders: HashMap::new(),
        }
    }

    /// The manager with these roles, positions and orders, or `None` where
    /// a position or an order is not well formed or has an identifier that
    /// was not given out yet.
    pub fn restore(roles: ManagerRoles, positions: Vec<PositionRecord>, orders: Vec<Order>) -> (r:
        Option<PositionManager>)
        ensures
            r.is_some() <==> {
                &&& forall|i: int|
                    0 <= i < positions@.len() ==> 1 <= (#[trigger] positions@[i]).position_id
                        <= roles.last_position_id && positions@[i].position.wf()
                &&& forall|i: int|
                    0 <= i < orders@.len() ==> (#[trigger] orders@[i]).order_id
                        <= roles.last_order_id && orders@[i].wf() && closes_one_of(
                        position_map(positions@),
                        orders@[i],
                    )
            },
            r.is_some() ==> {
                let m = r.unwrap();
                &&& m.wf()
                &&& m.address == roles.address
                &&& m.admin == roles.admin
                &&& m.config_manager == roles.config_manager
                &&& m.last_position_id == roles.last_position_id
                &&& m.last_order_id == roles.last_order_id
                &&& m.positions@ == position_map(positions@)
                &&& m.orders@ == order_map(orders@)
            },
    {
        let mut manager = PositionManager {
            address: roles.address,
            admin: roles.admin,
            config_manager: roles.config_manager,
            last_position_id: roles.last_position_id,
            last_order_id: roles.last_order_id,
            positions: HashMap::new(),
            orders: HashMap::new(),
        };
        let limit: u128 = i128::MAX as u128;
        let mut i: usize = 0;
        while i < positions.len()
            invariant
                i <= positions@.len(),
                limit == i128::MAX,
                manager.wf(),
                manager.address == roles.address,
                manager.admin == roles.admin,
                manager.config_manager == roles.config_manager,
                manager.last_position_id == roles.last_position_id,
                manager.last_order_id == roles.last_order_id,
                manager.orders@ == Map::<u64, Order>::empty(),
                manager.positions@ == position_map(positions@.take(i as int)),
                forall|j: int|
                    0 <= j < i ==> 1 <= (#[trigger] positions@[j]).position_id
                        <= roles.last_position_id && positions@[j].position.wf(),
            decreases positions@.len() - i,
        {
            let record = positions[i];
            let p = record.position;
            let sound = 1 <= record.position_id && record.position_id <= roles.last_position_id
                && 0 < p.size && p.size <= limit && 0 < p.collateral && p.collateral <= limit && 0
                < p.entry_price && p.entry_price <= limit;
            if !sound {
                return None;
            }
            match compute_liquidation_price(p.entry_price, p.collateral, p.size, p.is_long) {
                Ok(price) => {
                    if price != p.liquidation_price {
                        return None;
                    }
                },
                Err(_) => {
                    return None;
                },
            }
            proof {
                let t = positions@.take(i + 1);
                assert(t.drop_last() =~= positions@.take(i as int));
                assert(t.last() == record);
            }
            manager.positions.insert(record.position_id, p);
            i = i + 1;
        }
        assert(positions@.take(positions@.len() as int) =~= positions@);
        let mut k: usize = 0;
        while k < orders.len()
            invariant
                k <= orders@.len(),
                limit == i128::MAX,
                manager.wf(),
                manager.address == roles.address,
                manager.admin == roles.admin,
                manager.config_manager == roles.config_manager,
                manager.last_position_id == roles.last_position_id,
                manager.last_order_id == roles.last_order_id,
                manager.positions@ == position_map(positions@),
                manager.orders@ == order_map(orders@.take(k as int)),
                forall|j: int|
                    0 <= j < k ==> (#[trigger] orders@[j]).order_id <= roles.last_order_id
                        && orders@[j].wf() && closes_one_of(position_map(positions@), orders@[j]),
            decreases orders@.len() - k,
        {
            let o = orders[k];
            let kind_sound = match o.kind {
                OrderKind::Limit => o.position_id == 0 && o.collateral > 0 && o.close_percentage
                    == 0 && o.execution_fee <= limit && o.collateral <= limit - o.execution_fee,
                _ => o.position_id >= 1 && 0 < o.close_percentage && o.close_percentage <= 10_000
                    && o.collateral == 0 && o.execution_fee <= limit,
            };
            let sound = 1 <= o.order_id && o.order_id <= roles.last_order_id && o.trigger_price > 0
                && kind_sound;
            if !sound {
                return None;
            }
            let attached_soundly = match o.kind {
                OrderKind::Limit => true,
                _ => match manager.positions.get(&o.position_id) {
                    Some(p) => p.trader.id == o.trader.id && p.market_id == o.market_id
                        && p.is_long == o.is_long,
                    None => false,
                },
            };
            if !attached_soundly {
                return None;
            }
            proof {
                let t = orders@.take(k + 1);
                assert(t.drop_last() =~= orders@.take(k as int));
                assert(t.last() == o);
            }
            manager.orders.insert(o.order_id, o);
            k = k + 1;
        }
        assert(orders@.take(orders@.len() as int) =~= orders@);
        Some(manager)
    }

    /// Names the administrator and the parameter store, once.
    pub fn initialize(&mut self, admin: Principal, config_manager: Principal) -> (r: Result<
        (),
        Error,
    >)
        ensures
            r == (if old(self).admin.is_some() {
                Err::<(), Error>(Error::AlreadyInitialized)
            } else {
                Ok(())
            }),
            r.is_err() ==> *final(self) == *old(self),
            r.is_ok() ==> *final(self) == (PositionManager {
                admin: Some(admin),
                config_manager: Some(config_manager),
                ..*old(self)
            }),
    {
        if self.admin.is_some() {
            return Err(Error::AlreadyInitialized);
        }
        self.admin = Some(admin);
        self.config_manager = Some(config_manager);
        Ok(())
    }

    /// The position under `position_id`.
    pub fn get_position(&self, position_id: u64) -> (r: Result<Position, Error>)
        requires
            self.wf(),
        ensures
            r == self.spec_position(position_id),
            r.is_ok() ==> r.unwrap().wf(),
    {
        match self.positions.get(&position_id) {
            Some(p) => Ok(*p),
            None => Err(Error::PositionNotFound),
        }
    }

    /// The position that opens for `trader`, paid for by `payer`, or why
    /// none opens.
    pub open spec fn open_result(
        &self,
        config: &ConfigManager,
        oracle: &OracleIntegrator,
        markets: &MarketManager,
        pool: &LiquidityPool,
        token: &FaucetToken,
        now: u64,
        trader: Principal,
        payer: Principal,
        market_id: u32,
        collateral: u128,
        leverage: u32,
        is_long: bool,
    ) -> Result<Position, Error> {
        let size = collateral * leverage;
        let price = oracle.spec_price(market_id);
        let balance = token.balance_of(pool.address);
        let id = self.last_position_id + 1;
        let reserved = pool.reserved_liquidity + size;
        if collateral == 0 {
            Err(Error::ZeroCollateral)
        } else if leverage == 0 {
            Err(Error::ZeroLeverage)
        } else if leverage < config.parameters.min_leverage {
            Err(Error::LeverageTooLow)
        } else if leverage > config.parameters.max_leverage {
            Err(Error::LeverageTooHigh)
        } else if !fits_u128(size) {
            Err(Error::Overflow)
        } else if size < config.parameters.min_position_size {
            Err(Error::PositionSizeTooSmall)
        } else if !markets.spec_can_open_position(market_id, is_long, size as u128) {
            Err(Error::MarketRejected)
        } else if balance == 0 {
            Err(Error::DivisionByZero)
        } else if !fits_u128(reserved) || !fits_u128(reserved * 10_000) {
            Err(Error::Overflow)
        } else if reserved * 10_000 / balance > config.parameters.max_utilization_ratio {
            Err(Error::UtilizationExceeded)
        } else if pool.position_manager_check(self.address).is_err() {
            Err(pool.position_manager_check(self.address).unwrap_err())
        } else if markets.position_manager_check(self.address).is_err() {
            Err(markets.position_manager_check(self.address).unwrap_err())
        } else if id > u64::MAX || !fits_i128(size) || !fits_i128(collateral as int) || !fits_u128(
            pool.collateral_of(id as u64) + collateral,
        ) || liquidation_price_result(price as u128, collateral, size as u128, is_long).is_err() {
            Err(Error::Overflow)
        } else if token.balance_of(payer) < collateral {
            Err(Error::InsufficientBalance)
        } else {
            Ok(
                Position {
                    trader,
                    market_id,
                    collateral,
                    size: size as u128,
                    is_long,
                    entry_price: price as u128,
                    entry_funding_long: markets.markets@[market_id].cumulative_funding_long,
                    entry_funding_short: markets.markets@[market_id].cumulative_funding_short,
                    last_interaction: now,
                    liquidation_price: liquidation_price_result(
                        price as u128,
                        collateral,
                        size as u128,
                        is_long,
                    ).unwrap(),
                },
            )
        }
    }

    /// `self` is `before` with `position` opened under the next identifier.
    pub open spec fn is_opening_of(&self, before: &PositionManager, position: Position) -> bool {
        &&& self.same_roles(before)
        &&& self.last_order_id == before.last_order_id
        &&& self.orders@ == before.orders@
        &&& self.last_position_id == before.last_position_id + 1
        &&& self.positions@ == before.positions@.insert(self.last_position_id, position)
    }

    /// Opens a position for `trader` with collateral that `payer` holds.
    #[verifier::rlimit(50)]
    pub(crate) fn open_for(
        &mut self,
        config: &ConfigManager,
        oracle: &OracleIntegrator,
        markets: &mut MarketManager,
        pool: &mut LiquidityPool,
        token: &mut FaucetToken,
        now: u64,
        trader: Principal,
        payer: Principal,
        market_id: u32,
        collateral: u128,
        leverage: u32,
        is_long: bool,
    ) -> (r: Result<u64, Error>)
        requires
            old(self).wf(),
            oracle.wf(),
            old(markets).wf(),
            old(pool).wf(),
            old(token).wf(),
        ensures
            final(self).wf(),
            final(markets).wf(),
            final(pool).wf(),
            final(token).wf(),
            books_agree(old(self), old(markets), old(pool)) ==> books_agree(
                final(self),
                final(markets),
                final(pool),
            ),
            escrow_covered(old(self), old(token)) && payer != old(self).address
                ==> escrow_covered(final(self), final(token)),
            r.is_ok() <==> old(self).open_result(
                config,
                oracle,
                old(markets),
                old(pool),
                old(token),
                now,
                trader,
                payer,
                market_id,
                collateral,
                leverage,
                is_long,
            ).is_ok(),
            r.is_err() ==> {
                &&& r.err() == old(self).open_result(
                    config,
                    oracle,
                    old(markets),
                    old(pool),
                    old(token),
                    now,
                    trader,
                    payer,
                    market_id,
                    collateral,
                    leverage,
                    is_long,
                ).err()
                &&& *final(self) == *old(self)
                &&& *final(markets) == *old(markets)
                &&& *final(pool) == *old(pool)
                &&& *final(token) == *old(token)
            },
            r.is_ok() ==> {
                let p = old(self).open_result(
                    config,
                    oracle,
                    old(markets),
                    old(pool),
                    old(token),
                    now,
                    trader,
                    payer,
                    market_id,
                    collateral,
                    leverage,
                    is_long,
                ).unwrap();
                let m = old(markets).markets@[market_id];
                &&& r.unwrap() == old(self).last_position_id + 1
                &&& final(self).is_opening_of(old(self), p)
                &&& final(markets).is_update_of(
                    old(markets),
                    m.spec_with_open_interest(
                        is_long,
                        (m.spec_open_interest(is_long) + p.size) as u128,
                    ),
                )
                &&& final(pool).is_position_change_of(
                    old(pool),
                    r.unwrap(),
                    (old(pool).collateral_of(r.unwrap()) + collateral) as u128,
                    (old(pool).reserved_liquidity + p.size) as u128,
                )
                &&& final(token).has_balances(
                    old(token),
                    moved(old(token).balances(), payer, old(pool).address, collateral as int),
                )
            },
    {
        if collateral == 0 {
            return Err(Error::ZeroCollateral);
        }
        if leverage == 0 {
            return Err(Error::ZeroLeverage);
        }
        validate_leverage(config, leverage)?;
        let size = mul_u128(collateral, leverage as u128)?;
        assert(collateral * leverage > 0) by (nonlinear_arith)
            requires
                collateral > 0,
                leverage > 0,
        ;
        validate_position_size(config, size)?;
        let price = oracle.get_price(market_id);
        if !markets.can_open_position(market_id, is_long, size) {
            return Err(Error::MarketRejected);
        }
        let market = markets.get_market(market_id)?;
        let balance = token.balance(pool.address);
        if balance == 0 {
            return Err(Error::DivisionByZero);
        }
        let reserved = add_u128(pool.get_reserved_liquidity(), size)?;
        let utilization = mul_u128(reserved, 10_000)? / (balance as u128);
        let ceiling = config.max_utilization_ratio();
        if ceiling < 0 || utilization > ceiling as u128 {
            return Err(Error::UtilizationExceeded);
        }
        pool.require_position_manager(self.address)?;
        markets.require_position_manager(self.address)?;
        if self.last_position_id == u64::MAX {
            return Err(Error::Overflow);
        }
        let id = self.last_position_id + 1;
        if size > i128::MAX as u128 || collateral > i128::MAX as u128 {
            return Err(Error::Overflow);
        }
        let held = pool.get_position_collateral(id);
        if held > u128::MAX - collateral {
            return Err(Error::Overflow);
        }
        let liquidation = compute_liquidation_price(price as u128, collateral, size, is_long)?;
        if token.balance(payer) < collateral as i128 {
            return Err(Error::InsufficientBalance);
        }
        let position = Position {
            trader,
            market_id,
            collateral,
            size,
            is_long,
            entry_price: price as u128,
            entry_funding_long: market.cumulative_funding_long,
            entry_funding_short: market.cumulative_funding_short,
            last_interaction: now,
            liquidation_price: liquidation,
        };
        assert(self.open_result(
            config,
            oracle,
            markets,
            pool,
            token,
            now,
            trader,
            payer,
            market_id,
            collateral,
            leverage,
            is_long,
        ) == Ok::<Position, Error>(position));
        let deposited = pool.deposit_position_collateral(
            token,
            self.address,
            id,
            payer,
            collateral,
        );
        assert(deposited.is_ok());
        let reserved_ok = pool.reserve_liquidity(self.address, id, size);
        assert(reserved_ok.is_ok());
        let counted = markets.update_open_interest(self.address, market_id, is_long, size as i128);
        assert(counted.is_ok());
        self.positions.insert(id, position);
        self.last_position_id = id;
        proof {
            if books_agree(old(self), old(markets), old(pool)) {
                lemma_opening_keeps_books(
                    old(self),
                    old(markets),
                    old(pool),
                    self,
                    markets,
                    pool,
                    position,
                );
            }
        }
        Ok(id)
    }

    /// Opens a position of `collateral` times `leverage` for `trader`.
    ///
    /// The market must accept the size, and the pool must stay under its
    /// utilization ceiling. The collateral moves into the pool, the size is
    /// reserved there and added to the open interest of the chosen side.
    pub fn open_position(
        &mut self,
        config: &ConfigManager,
        oracle: &OracleIntegrator,
        markets: &mut MarketManager,
        pool: &mut LiquidityPool,
        token: &mut FaucetToken,
        now: u64,
        trader: Principal,
        market_id: u32,
        collateral: u128,
        leverage: u32,
        is_long: bool,
    ) -> (r: Result<u64, Error>)
        requires
            old(self).wf(),
            oracle.wf(),
            old(markets).wf(),
            old(pool).wf(),
            old(token).wf(),
        ensures
            final(self).wf(),
            final(markets).wf(),
            final(pool).wf(),
            final(token).wf(),
            books_agree(old(self), old(markets), old(pool)) ==> books_agree(
                final(self),
                final(markets),
                final(pool),
            ),
            escrow_covered(old(self), old(token)) && trader != old(self).address
                ==> escrow_covered(final(self), final(token)),
            r.is_ok() <==> old(self).open_result(
                config,
                oracle,
                old(markets),
                old(pool),
                old(token),
                now,
                trader,
                trader,
                market_id,
                collateral,
                leverage,
                is_long,
            ).is_ok(),
            r.is_err() ==> {
                &&& r.err() == old(self).open_result(
                    config,
                    oracle,
                    old(markets),
                    old(pool),
                    old(token),
                    now,
                    trader,
                    trader,
                    market_id,
                    collateral,
                    leverage,
                    is_long,
                ).err()
                &&& *final(self) == *old(self)
                &&& *final(markets) == *old(markets)
                &&& *final(pool) == *old(pool)
                &&& *final(token) == *old(token)
            },
            r.is_ok() ==> {
                let p = old(self).open_result(
                    config,
                    oracle,
                    old(markets),
                    old(pool),
                    old(token),
                    now,
                    trader,
                    trader,
                    market_id,
                    collateral,
                    leverage,
                    is_long,
                ).unwrap();
                let m = old(markets).markets@[market_id];
                &&& r.unwrap() == old(self).last_position_id + 1
                &&& final(self).is_opening_of(old(self), p)
                &&& final(markets).is_update_of(
                    old(markets),
                    m.spec_with_open_interest(
                        is_long,
                        (m.spec_open_interest(is_long) + p.size) as u128,
                    ),
                )
                &&& final(pool).is_position_change_of(
                    old(pool),
                    r.unwrap(),
                    (old(pool).collateral_of(r.unwrap()) + collateral) as u128,
                    (old(pool).reserved_liquidity + p.size) as u128,
                )
                &&& final(token).has_balances(
                    old(token),
                    moved(old(token).balances(), trader, old(pool).address, collateral as int),
                )
            },
    {
        self.open_for(
            config,
            oracle,
            markets,
            pool,
            token,
            now,
            trader,
            trader,
            market_id,
            collateral,
            leverage,
            is_long,
        )
    }

    /// Whether `id` is an open position of `trader`.
    pub open spec fn owned_by(&self, trader: Principal) -> spec_fn(u64) -> bool {
        |id: u64| self.positions@.contains_key(id) && self.positions@[id].trader == trader
    }

    /// The open positions of `trader`, in the order in which they opened.
    pub open spec fn spec_user_open_positions(&self, trader: Principal) -> Seq<u64> {
        ids_up_to(self.last_position_id as nat, self.owned_by(trader))
    }

    /// The open positions of `trader`, in the order in which they opened.
    pub fn get_user_open_positions(&self, trader: Principal) -> (r: Vec<u64>)
        ensures
            r@ == self.spec_user_open_positions(trader),
    {
        let mut out: Vec<u64> = Vec::new();
        let mut i: u64 = 0;
        while i < self.last_position_id
            invariant
                i <= self.last_position_id,
                out@ == ids_up_to(i as nat, self.owned_by(trader)),
            decreases self.last_position_id - i,
        {
            i = i + 1;
            match self.positions.get(&i) {
                Some(p) => {
                    if p.trader.id == trader.id {
                        out.push(i);
                    }
                },
                None => {},
            }
        }
        out
    }

    /// The execution fees in escrow for the orders that close a position,
    /// but for the order `executing`.
    pub open spec fn spec_refunds(&self, position_id: u64, executing: u64) -> int {
        refund_total(self.orders@, position_id, executing, self.last_order_id as nat)
    }

    /// The execution fees in escrow for the orders that close a position,
    /// but for the order `executing`.
    pub(crate) fn refunds_for(&self, position_id: u64, executing: u64) -> (r: Result<u128, Error>)
        ensures
            r == checked_u128(self.spec_refunds(position_id, executing)),
    {
        let mut total: u128 = 0;
        let mut i: u64 = 0;
        while i < self.last_order_id
            invariant
                i <= self.last_order_id,
                total == refund_total(self.orders@, position_id, executing, i as nat),
            decreases self.last_order_id - i,
        {
            i = i + 1;
            match self.orders.get(&i) {
                Some(o) => {
                    if o.position_id == position_id && i != executing {
                        match total.checked_add(o.execution_fee) {
                            Some(t) => {
                                total = t;
                            },
                            None => {
                                proof {
                                    lemma_refund_total_monotone(
                                        self.orders@,
                                        position_id,
                                        executing,
                                        i as nat,
                                        self.last_order_id as nat,
                                    );
                                }
                                return Err(Error::Overflow);
                            },
                        }
                    }
                },
                None => {},
            }
        }
        Ok(total)
    }

    /// Forgets every order that closes the position `position_id`.
    pub(crate) fn remove_attached(&mut self, position_id: u64)
        requires
            old(self).wf(),
        ensures
            final(self).wf(),
            final(self).orders@ == old(self).orders@.remove_keys(
                attached(old(self).orders@, position_id),
            ),
            *final(self) == (PositionManager { orders: final(self).orders, ..*old(self) }),
    {
        let ghost before = self.orders@;
        let mut i: u64 = 0;
        while i < self.last_order_id
            invariant
                i <= self.last_order_id,
                self.wf(),
                *self == (PositionManager { orders: self.orders, ..*old(self) }),
                self.orders@ == before.remove_keys(
                    Set::new(
                        |o: u64| o <= i && before.contains_key(o) && before[o].position_id
                            == position_id,
                    ),
                ),
            decreases self.last_order_id - i,
        {
            i = i + 1;
            let matches = match self.orders.get(&i) {
                Some(o) => o.position_id == position_id,
                None => false,
            };
            if matches {
                self.orders.remove(&i);
            }
            assert(self.orders@ =~= before.remove_keys(
                Set::new(
                    |o: u64| o <= i && before.contains_key(o) && before[o].position_id
                        == position_id,
                ),
            ));
        }
        assert(self.orders@ =~= before.remove_keys(attached(before, position_id)));
    }

    /// The fee of the order that is executing, zero for none.
    pub open spec fn executing_fee(&self, executing: u64) -> int {
        if executing != 0 && self.orders@.contains_key(executing) {
            self.orders@[executing].execution_fee as int
        } else {
            0
        }
    }

    /// Why a position cannot leave the book with the settlement `s`, if it
    /// cannot.
    pub open spec fn retire_result(
        &self,
        markets: &MarketManager,
        pool: &LiquidityPool,
        token: &FaucetToken,
        position_id: u64,
        s: Settlement,
    ) -> Result<(), Error> {
        if !self.positions@.contains_key(position_id) {
            Err(Error::PositionNotFound)
        } else {
            let p = self.positions@[position_id];
            let refunds = self.spec_refunds(position_id, s.executing);
            let fee = self.executing_fee(s.executing);
            let from_manager = refunds + fee;
            let from_pool = s.collateral_part + s.gain;
            if !markets.markets@.contains_key(p.market_id) {
                Err(Error::MarketNotFound)
            } else if pool.position_manager_check(self.address).is_err() {
                pool.position_manager_check(self.address)
            } else if markets.position_manager_check(self.address).is_err() {
                markets.position_manager_check(self.address)
            } else if s.executing != 0 && !attached(self.orders@, position_id).contains(
                s.executing,
            ) {
                Err(Error::OrderNotFound)
            } else if pool.reserved_liquidity < p.size {
                Err(Error::InsufficientReserved)
            } else if markets.markets@[p.market_id].spec_open_interest(p.is_long) < p.size {
                Err(Error::OpenInterestUnderflow)
            } else if pool.collateral_of(position_id) < s.collateral_part {
                Err(Error::InsufficientCollateral)
            } else if !fits_i128(from_manager) || !fits_i128(from_pool) || !fits_i128(
                from_manager + from_pool,
            ) {
                Err(Error::Overflow)
            } else if token.balance_of(pool.address) < from_pool + (if pool.address
                == self.address {
                from_manager
            } else {
                0
            }) {
                Err(Error::InsufficientLiquidity)
            } else if token.balance_of(self.address) < from_manager {
                Err(Error::InsufficientBalance)
            } else {
                Ok(())
            }
        }
    }

    /// The balances after a position has left the book with the settlement
    /// `s`: the fees of its other orders back to the trader, the fee of the
    /// executing order to the keeper, the collateral part to its recipient,
    /// the gain to the trader.
    pub open spec fn balances_after_retire(
        &self,
        pool: &LiquidityPool,
        token: &FaucetToken,
        position_id: u64,
        s: Settlement,
    ) -> spec_fn(Principal) -> int {
        let p = self.positions@[position_id];
        moved(
            moved(
                moved(
                    moved(
                        token.balances(),
                        self.address,
                        p.trader,
                        self.spec_refunds(position_id, s.executing),
                    ),
                    self.address,
                    s.keeper,
                    self.executing_fee(s.executing),
                ),
                pool.address,
                s.recipient,
                s.collateral_part as int,
            ),
            pool.address,
            p.trader,
            s.gain as int,
        )
    }

    /// `self` is `before` without the position `position_id` and the orders
    /// that close it.
    pub open spec fn is_retirement_of(&self, before: &PositionManager, position_id: u64) -> bool {
        &&& self.same_roles(before)
        &&& self.last_position_id == before.last_position_id
        &&& self.last_order_id == before.last_order_id
        &&& self.positions@ == before.positions@.remove(position_id)
        &&& self.orders@ == before.orders@.remove_keys(attached(before.orders@, position_id))
    }

    /// Takes a position off the book: refunds the orders that close it,
    /// pays the settlement, releases what was reserved for it and takes its
    /// size off the open interest.
    #[verifier::rlimit(50)]
    pub(crate) fn retire(
        &mut self,
        markets: &mut MarketManager,
        pool: &mut LiquidityPool,
        token: &mut FaucetToken,
        position_id: u64,
        s: Settlement,
    ) -> (r: Result<(), Error>)
        requires
            old(self).wf(),
            old(markets).wf(),
            old(pool).wf(),
            old(token).wf(),
            s.gain >= 0,
        ensures
            final(self).wf(),
            final(markets).wf(),
            final(pool).wf(),
            final(token).wf(),
            books_agree(old(self), old(markets), old(pool)) ==> books_agree(
                final(self),
                final(markets),
                final(pool),
            ),
            escrow_covered(old(self), old(token)) && old(pool).address != old(self).address
                ==> escrow_covered(final(self), final(token)),
            r == old(self).retire_result(old(markets), old(pool), old(token), position_id, s),
            r.is_err() ==> {
                &&& *final(self) == *old(self)
                &&& *final(markets) == *old(markets)
                &&& *final(pool) == *old(pool)
                &&& *final(token) == *old(token)
            },
            r.is_ok() ==> {
                let p = old(self).positions@[position_id];
                let m = old(markets).markets@[p.market_id];
                &&& final(self).is_retirement_of(old(self), position_id)
                &&& final(markets).is_update_of(
                    old(markets),
                    m.spec_with_open_interest(
                        p.is_long,
                        (m.spec_open_interest(p.is_long) - p.size) as u128,
                    ),
                )
                &&& final(pool).is_position_change_of(
                    old(pool),
                    position_id,
                    0,
                    (old(pool).reserved_liquidity - p.size) as u128,
                )
                &&& final(token).has_balances(
                    old(token),
                    old(self).balances_after_retire(old(pool), old(token), position_id, s),
                )
            },
    {
        let p = self.get_position(position_id)?;
        let m = markets.get_market(p.market_id)?;
        pool.require_position_manager(self.address)?;
        markets.require_position_manager(self.address)?;
        let fee: u128 = if s.executing != 0 {
            match self.orders.get(&s.executing) {
                Some(o) => {
                    if o.position_id != position_id {
                        return Err(Error::OrderNotFound);
                    }
                    o.execution_fee
                },
                None => {
                    return Err(Error::OrderNotFound);
                },
            }
        } else {
            0
        };
        if pool.get_reserved_liquidity() < p.size {
            return Err(Error::InsufficientReserved);
        }
        let open_interest = if p.is_long {
            m.long_open_interest
        } else {
            m.short_open_interest
        };
        if open_interest < p.size {
            return Err(Error::OpenInterestUnderflow);
        }
        if pool.get_position_collateral(position_id) < s.collateral_part {
            return Err(Error::InsufficientCollateral);
        }
        proof {
            lemma_refund_total_monotone(
                self.orders@,
                position_id,
                s.executing,
                0,
                self.last_order_id as nat,
            );
        }
        let refunds = self.refunds_for(position_id, s.executing)?;
        let limit: u128 = i128::MAX as u128;
        if refunds > limit || fee > limit - refunds {
            return Err(Error::Overflow);
        }
        let from_manager: u128 = refunds + fee;
        if s.collateral_part > limit || (s.gain as u128) > limit - s.collateral_part {
            return Err(Error::Overflow);
        }
        let from_pool: u128 = s.collateral_part + s.gain as u128;
        if from_pool > limit - from_manager {
            return Err(Error::Overflow);
        }
        let pool_needs: u128 = if pool.address.id == self.address.id {
            from_pool + from_manager
        } else {
            from_pool
        };
        if (token.balance(pool.address) as u128) < pool_needs {
            return Err(Error::InsufficientLiquidity);
        }
        if (token.balance(self.address) as u128) < from_manager {
            return Err(Error::InsufficientBalance);
        }
        assert(self.retire_result(markets, pool, token, position_id, s) == Ok::<(), Error>(()));
        let ghost b0 = token.balances();
        if refunds > 0 {
            let moved_ok = token.transfer(self.address, p.trader, refunds as i128);
            assert(moved_ok.is_ok());
        }
        let ghost b1 = moved(b0, self.address, p.trader, refunds as int);
        assert(forall|q: Principal| #[trigger] token.balance_of(q) == b1(q));
        if fee > 0 {
            let moved_ok = token.transfer(self.address, s.keeper, fee as i128);
            assert(moved_ok.is_ok());
        }
        let ghost b2 = moved(b1, self.address, s.keeper, fee as int);
        assert(forall|q: Principal| #[trigger] token.balance_of(q) == b2(q));
        if s.collateral_part > 0 {
            let paid = pool.withdraw_position_collateral(
                token,
                self.address,
                position_id,
                s.recipient,
                s.collateral_part,
            );
            assert(paid.is_ok());
        }
        let ghost b3 = moved(b2, pool.address, s.recipient, s.collateral_part as int);
        assert(forall|q: Principal| #[trigger] token.balance_of(q) == b3(q));
        let settled = pool.settle_trader_pnl(token, self.address, p.trader, s.gain);
        assert(settled.is_ok());
        let cleared = pool.record_position_collateral(self.address, position_id, 0);
        assert(cleared.is_ok());
        let released = pool.release_liquidity(self.address, position_id, p.size);
        assert(released.is_ok());
        let counted = markets.update_open_interest(
            self.address,
            p.market_id,
            p.is_long,
            -(p.size as i128),
        );
        assert(counted.is_ok());
        self.remove_attached(position_id);
        self.positions.remove(&position_id);
        assert(final(pool).position_collateral@ =~= old(pool).collateral_after_record(
            position_id,
            0,
        ));
        proof {
            if books_agree(old(self), old(markets), old(pool)) {
                lemma_retirement_keeps_books(
                    old(self),
                    old(markets),
                    old(pool),
                    self,
                    markets,
                    pool,
                    position_id,
                );
            }
            lemma_escrow_sum_without_attached(
                old(self).orders@,
                old(self).last_order_id as nat,
                position_id,
                s.executing,
            );
        }
        Ok(())
    }

    /// The profit or loss of a position at the oracle's price, or why it
    /// has no value.
    pub open spec fn pnl_result(
        &self,
        config: &ConfigManager,
        oracle: &OracleIntegrator,
        markets: &MarketManager,
        position_id: u64,
        now: u64,
    ) -> Result<i128, Error> {
        if !self.positions@.contains_key(position_id) {
            Err(Error::PositionNotFound)
        } else {
            let p = self.positions@[position_id];
            if !markets.markets@.contains_key(p.market_id) {
                Err(Error::MarketNotFound)
            } else {
                let m = markets.markets@[p.market_id];
                p.pnl_result(
                    oracle.spec_price(p.market_id),
                    m.cumulative_funding_long,
                    m.cumulative_funding_short,
                    config.parameters.borrow_rate_per_second,
                    now,
                )
            }
        }
    }

    /// The profit or loss that a position would realize if it closed now.
    pub fn calculate_pnl(
        &self,
        config: &ConfigManager,
        oracle: &OracleIntegrator,
        markets: &MarketManager,
        position_id: u64,
        now: u64,
    ) -> (r: Result<i128, Error>)
        requires
            self.wf(),
            oracle.wf(),
            markets.wf(),
        ensures
            r == self.pnl_result(config, oracle, markets, position_id, now),
    {
        let p = self.get_position(position_id)?;
        let m = markets.get_market(p.market_id)?;
        p.pnl_at(
            oracle.get_price(p.market_id),
            m.cumulative_funding_long,
            m.cumulative_funding_short,
            config.borrow_rate_per_second(),
            now,
        )
    }

    /// How a position that closes with `pnl` is settled: the trader gets
    /// the collateral back and the gain on top, or what the loss has left
    /// of the collateral.
    pub open spec fn close_settlement(p: Position, pnl: i128, executing: u64, keeper: Principal)
        -> Settlement {
        Settlement {
            executing,
            keeper,
            recipient: p.trader,
            collateral_part: returned_collateral(p.collateral as int, pnl as int) as u128,
            gain: if pnl > 0 {
                pnl
            } else {
                0
            },
        }
    }

    /// What a position realizes when it closes, or why it cannot close.
    pub open spec fn close_result(
        &self,
        config: &ConfigManager,
        oracle: &OracleIntegrator,
        markets: &MarketManager,
        pool: &LiquidityPool,
        token: &FaucetToken,
        now: u64,
        position_id: u64,
        executing: u64,
        keeper: Principal,
    ) -> Result<i128, Error> {
        match self.pnl_result(config, oracle, markets, position_id, now) {
            Err(e) => Err(e),
            Ok(pnl) => match self.retire_result(
                markets,
                pool,
                token,
                position_id,
                PositionManager::close_settlement(
                    self.positions@[position_id],
                    pnl,
                    executing,
                    keeper,
                ),
            ) {
                Err(e) => Err(e),
                Ok(()) => Ok(pnl),
            },
        }
    }

    /// Closes a position at the oracle's price, whoever asks.
    pub(crate) fn close_with(
        &mut self,
        config: &ConfigManager,
        oracle: &OracleIntegrator,
        markets: &mut MarketManager,
        pool: &mut LiquidityPool,
        token: &mut FaucetToken,
        now: u64,
        position_id: u64,
        executing: u64,
        keeper: Principal,
    ) -> (r: Result<i128, Error>)
        requires
            old(self).wf(),
            oracle.wf(),
            old(markets).wf(),
            old(pool).wf(),
            old(token).wf(),
        ensures
            final(self).wf(),
            final(markets).wf(),
            final(pool).wf(),
            final(token).wf(),
            books_agree(old(self), old(markets), old(pool)) ==> books_agree(
                final(self),
                final(markets),
                final(pool),
            ),
            escrow_covered(old(self), old(token)) && old(pool).address != old(self).address
                ==> escrow_covered(final(self), final(token)),
            r == old(self).close_result(
                config,
                oracle,
                old(markets),
                old(pool),
                old(token),
                now,
                position_id,
                executing,
                keeper,
            ),
            r.is_err() ==> {
                &&& *final(self) == *old(self)
                &&& *final(markets) == *old(markets)
                &&& *final(pool) == *old(pool)
                &&& *final(token) == *old(token)
            },
            r.is_ok() ==> {
                let p = old(self).positions@[position_id];
                let m = old(markets).markets@[p.market_id];
                &&& final(self).is_retirement_of(old(self), position_id)
                &&& final(markets).is_update_of(
                    old(markets),
                    m.spec_with_open_interest(
                        p.is_long,
                        (m.spec_open_interest(p.is_long) - p.size) as u128,
                    ),
                )
                &&& final(pool).is_position_change_of(
                    old(pool),
                    position_id,
                    0,
                    (old(pool).reserved_liquidity - p.size) as u128,
                )
                &&& final(token).has_balances(
                    old(token),
                    old(self).balances_after_retire(
                        old(pool),
                        old(token),
                        position_id,
                        PositionManager::close_settlement(p, r.unwrap(), executing, keeper),
                    ),
                )
            },
    {
        let pnl = self.calculate_pnl(config, oracle, markets, position_id, now)?;
        let p = self.get_position(position_id)?;
        let part: u128 = if pnl >= 0 {
            p.collateral
        } else {
            let left: i128 = p.collateral as i128 + pnl;
            if left > 0 {
                left as u128
            } else {
                0
            }
        };
        let gain: i128 = if pnl > 0 {
            pnl
        } else {
            0
        };
        let s = Settlement { executing, keeper, recipient: p.trader, collateral_part: part, gain };
        self.retire(markets, pool, token, position_id, s)?;
        Ok(pnl)
    }

    /// What `trader` realizes by closing a position, or why it cannot.
    pub open spec fn close_position_result(
        &self,
        config: &ConfigManager,
        oracle: &OracleIntegrator,
        markets: &MarketManager,
        pool: &LiquidityPool,
        token: &FaucetToken,
        now: u64,
        trader: Principal,
        position_id: u64,
    ) -> Result<i128, Error> {
        if !self.positions@.contains_key(position_id) {
            Err(Error::PositionNotFound)
        } else if self.positions@[position_id].trader != trader {
            Err(Error::NotPositionOwner)
        } else {
            self.close_result(config, oracle, markets, pool, token, now, position_id, 0, trader)
        }
    }

    /// Closes a position of `trader` at the oracle's price and returns what
    /// it realized.
    ///
    /// Every order that closes the position is cancelled and its fee
    /// refunded. After a gain the trader gets the collateral back and the
    /// gain from the pool; after a loss what the loss has left of the
    /// collateral, and the pool pays nothing. The size is released in the
    /// pool and taken off the open interest.
    pub fn close_position(
        &mut self,
        config: &ConfigManager,
        oracle: &OracleIntegrator,
        markets: &mut MarketManager,
        pool: &mut LiquidityPool,
        token: &mut FaucetToken,
        now: u64,
        trader: Principal,
        position_id: u64,
    ) -> (r: Result<i128, Error>)
        requires
            old(self).wf(),
            oracle.wf(),
            old(markets).wf(),
            old(pool).wf(),
            old(token).wf(),
        ensures
            final(self).wf(),
            final(markets).wf(),
            final(pool).wf(),
            final(token).wf(),
            books_agree(old(self), old(markets), old(pool)) ==> books_agree(
                final(self),
                final(markets),
                final(pool),
            ),
            escrow_covered(old(self), old(token)) && old(pool).address != old(self).address
                ==> escrow_covered(final(self), final(token)),
            r == old(self).close_position_result(
                config,
                oracle,
                old(markets),
                old(pool),
                old(token),
                now,
                trader,
                position_id,
            ),
            r.is_err() ==> {
                &&& *final(self) == *old(self)
                &&& *final(markets) == *old(markets)
                &&& *final(pool) == *old(pool)
                &&& *final(token) == *old(token)
            },
            r.is_ok() ==> {
                let p = old(self).positions@[position_id];
                let m = old(markets).markets@[p.market_id];
                &&& final(self).is_retirement_of(old(self), position_id)
                &&& final(markets).is_update_of(
                    old(markets),
                    m.spec_with_open_interest(
                        p.is_long,
                        (m.spec_open_interest(p.is_long) - p.size) as u128,
                    ),
                )
                &&& final(pool).is_position_change_of(
                    old(pool),
                    position_id,
                    0,
                    (old(pool).reserved_liquidity - p.size) as u128,
                )
                &&& final(token).has_balances(
                    old(token),
                    old(self).balances_after_retire(
                        old(pool),
                        old(token),
                        position_id,
                        PositionManager::close_settlement(p, r.unwrap(), 0, trader),
                    ),
                )
            },
    {
        let p = self.get_position(position_id)?;
        if p.trader.id != trader.id {
            return Err(Error::NotPositionOwner);
        }
        self.close_with(config, oracle, markets, pool, token, now, position_id, 0, trader)
    }

    /// How a liquidation is settled: the keeper's reward out of the
    /// collateral, the rest of it to the pool, nothing to the trader.
    pub open spec fn liquidation_settlement(keeper: Principal, reward: u128) -> Settlement {
        Settlement { executing: 0, keeper, recipient: keeper, collateral_part: reward, gain: 0 }
    }

    /// What `keeper` earns by liquidating a position, or why it cannot.
    ///
    /// A position can be liquidated exactly when its collateral and its
    /// profit or loss together are no more than its maintenance margin.
    pub open spec fn liquidation_result(
        &self,
        config: &ConfigManager,
        oracle: &OracleIntegrator,
        markets: &MarketManager,
        pool: &LiquidityPool,
        token: &FaucetToken,
        now: u64,
        keeper: Principal,
        position_id: u64,
    ) -> Result<u128, Error> {
        match self.pnl_result(config, oracle, markets, position_id, now) {
            Err(e) => Err(e),
            Ok(pnl) => {
                let p = self.positions@[position_id];
                let fee_bps = config.parameters.liquidation_fee_bps;
                let reward = keeper_reward(
                    p.size as int,
                    fee_bps as int,
                    pool.collateral_of(position_id) as int,
                );
                if !fits_u128(p.size * MAINTENANCE_MARGIN_BPS) {
                    Err(Error::Overflow)
                } else if p.collateral + pnl > maintenance_margin(p.size as int) {
                    Err(Error::NotLiquidatable)
                } else if fee_bps < 0 {
                    Err(Error::InvalidAmount)
                } else if !fits_u128(p.size * fee_bps) || !fits_u128(
                    (p.size * fee_bps / 10_000) * KEEPER_SHARE_BPS,
                ) {
                    Err(Error::Overflow)
                } else {
                    match self.retire_result(
                        markets,
                        pool,
                        token,
                        position_id,
                        PositionManager::liquidation_settlement(keeper, reward as u128),
                    ) {
                        Err(e) => Err(e),
                        Ok(()) => Ok(reward as u128),
                    }
                }
            },
        }
    }

    /// Liquidates a position whose collateral and profit or loss together
    /// are no more than its maintenance margin, and returns the keeper's
    /// reward.
    ///
    /// The reward comes out of the collateral; the rest of the collateral
    /// stays with the pool. Every order that closes the position is
    /// cancelled and its fee refunded.
    pub fn liquidate_position(
        &mut self,
        config: &ConfigManager,
        oracle: &OracleIntegrator,
        markets: &mut MarketManager,
        pool: &mut LiquidityPool,
        token: &mut FaucetToken,
        now: u64,
        keeper: Principal,
        position_id: u64,
    ) -> (r: Result<u128, Error>)
        requires
            old(self).wf(),
            oracle.wf(),
            old(markets).wf(),
            old(pool).wf(),
            old(token).wf(),
        ensures
            final(self).wf(),
            final(markets).wf(),
            final(pool).wf(),
            final(token).wf(),
            books_agree(old(self), old(markets), old(pool)) ==> books_agree(
                final(self),
                final(markets),
                final(pool),
            ),
            escrow_covered(old(self), old(token)) && old(pool).address != old(self).address
                ==> escrow_covered(final(self), final(token)),
            r == old(self).liquidation_result(
                config,
                oracle,
                old(markets),
                old(pool),
                old(token),
                now,
                keeper,
                position_id,
            ),
            r.is_err() ==> {
                &&& *final(self) == *old(self)
                &&& *final(markets) == *old(markets)
                &&& *final(pool) == *old(pool)
                &&& *final(token) == *old(token)
            },
            r.is_ok() ==> {
                let p = old(self).positions@[position_id];
                let m = old(markets).markets@[p.market_id];
                &&& final(self).is_retirement_of(old(self), position_id)
                &&& final(markets).is_update_of(
                    old(markets),
                    m.spec_with_open_interest(
                        p.is_long,
                        (m.spec_open_interest(p.is_long) - p.size) as u128,
                    ),
                )
                &&& final(pool).is_position_change_of(
                    old(pool),
                    position_id,
                    0,
                    (old(pool).reserved_liquidity - p.size) as u128,
                )
                &&& final(token).has_balances(
                    old(token),
                    old(self).balances_after_retire(
                        old(pool),
                        old(token),
                        position_id,
                        PositionManager::liquidation_settlement(keeper, r.unwrap()),
                    ),
                )
            },
    {
        let pnl = self.calculate_pnl(config, oracle, markets, position_id, now)?;
        let p = self.get_position(position_id)?;
        let margin = mul_u128(p.size, MAINTENANCE_MARGIN_BPS)? / 10_000;
        let healthy = match (p.collateral as i128).checked_add(pnl) {
            None => true,
            Some(remaining) => remaining > 0 && remaining as u128 > margin,
        };
        if healthy {
            return Err(Error::NotLiquidatable);
        }
        let fee_bps = config.liquidation_fee_bps();
        if fee_bps < 0 {
            return Err(Error::InvalidAmount);
        }
        let total_fee = mul_u128(p.size, fee_bps as u128)? / 10_000;
        let share = mul_u128(total_fee, KEEPER_SHARE_BPS)? / 10_000;
        let held = pool.get_position_collateral(position_id);
        let reward = if share > held {
            held
        } else {
            share
        };
        let s = Settlement {
            executing: 0,
            keeper,
            recipient: keeper,
            collateral_part: reward,
            gain: 0,
        };
        self.retire(markets, pool, token, position_id, s)?;
        Ok(reward)
    }

    /// Sets every order that closes the position `position_id` to its part
    /// of the position's new size.
    pub(crate) fn rescale_attached(&mut self, position_id: u64, new_size: u128)
        requires
            old(self).wf(),
            position_id >= 1,
            new_size * 10_000 <= u128::MAX,
        ensures
            final(self).wf(),
            final(self).orders@ == rescaled(old(self).orders@, position_id, new_size),
            *final(self) == (PositionManager { orders: final(self).orders, ..*old(self) }),
    {
        let ghost before = self.orders@;
        let mut i: u64 = 0;
        while i < self.last_order_id
            invariant
                i <= self.last_order_id,
                self.wf(),
                position_id >= 1,
                new_size * 10_000 <= u128::MAX,
                *self == (PositionManager { orders: self.orders, ..*old(self) }),
                self.orders@ == Map::new(
                    |o: u64| before.contains_key(o),
                    |o: u64|
                        if o <= i && before[o].position_id == position_id {
                            Order {
                                size: order_size(new_size, before[o].close_percentage),
                                ..before[o]
                            }
                        } else {
                            before[o]
                        },
                ),
            decreases self.last_order_id - i,
        {
            i = i + 1;
            let found = match self.orders.get(&i) {
                Some(o) => {
                    if o.position_id == position_id {
                        Some(*o)
                    } else {
                        None
                    }
                },
                None => None,
            };
            match found {
                Some(o) => {
                    assert(before.contains_key(i) && before[i] == o);
                    assert(new_size * o.close_percentage <= new_size * 10_000)
                        by (nonlinear_arith)
                        requires
                            o.close_percentage <= 10_000,
                            new_size >= 0,
                    ;
                    let size = new_size * (o.close_percentage as u128) / 10_000;
                    let mut next = o;
                    next.size = size;
                    self.orders.insert(i, next);
                },
                None => {},
            }
            assert(self.orders@ =~= Map::new(
                |o: u64| before.contains_key(o),
                |o: u64|
                    if o <= i && before[o].position_id == position_id {
                        Order {
                            size: order_size(new_size, before[o].close_percentage),
                            ..before[o]
                        }
                    } else {
                        before[o]
                    },
            ));
        }
        assert(self.orders@ =~= rescaled(before, position_id, new_size));
    }
}

} // verus!
