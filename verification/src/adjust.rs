//! Changing an open position: more collateral or size, less collateral or
//! size.

use vstd::prelude::*;
use crate::config::ConfigManager;
use crate::error::Error;
use crate::manager::{attached, rescaled, validate_position_size, PositionManager, Reduction};
use crate::market::MarketManager;
use crate::math::{add_u128, fits_i128, fits_u128, mul_div_signed, mul_u128, trunc_div};
use crate::oracle::OracleIntegrator;
use crate::pool::LiquidityPool;
use crate::position::{
    compute_liquidation_price,
    liquidation_price_result,
    Position,
    MAINTENANCE_MARGIN_BPS,
};
use crate::principal::Principal;
use crate::token::{moved, FaucetToken};
use crate::venue::{
    books_agree,
    escrow_covered,
    lemma_change_keeps_books,
    lemma_reduction_keeps_escrow,
};

verus! {

broadcast use vstd::std_specs::hash::group_hash_axioms;

/// The entry price of a position of `size` entered at `entry_price` after
/// `added` more was entered at `price`: the average, weighted by size.
pub open spec fn average_entry_price(size: int, entry_price: int, added: int, price: int) -> int {
    if added == 0 {
        entry_price
    } else {
        (size * entry_price + added * price) / (size + added)
    }
}

/// Whether the average is a price and every step to it stays within the
/// machine's numbers.
pub open spec fn average_fits(size: int, entry_price: int, added: int, price: int) -> bool {
    &&& added > 0 ==> fits_u128(size * entry_price) && fits_u128(added * price) && fits_u128(
        size * entry_price + added * price,
    )
    &&& 0 < average_entry_price(size, entry_price, added, price) <= i128::MAX
}

/// Whether `size` is more than `max_leverage` times `collateral`.
pub open spec fn over_leveraged(size: int, collateral: int, max_leverage: int) -> bool {
    size > max_leverage * collateral
}

/// Whether `size` is more than `max_leverage` times `collateral`.
fn is_over_leveraged(size: u128, collateral: u128, max_leverage: i128) -> (r: bool)
    requires
        0 < size <= i128::MAX,
        collateral <= i128::MAX,
    ensures
        r == over_leveraged(size as int, collateral as int, max_leverage as int),
{
    if max_leverage <= 0 {
        assert(max_leverage * collateral <= 0) by (nonlinear_arith)
            requires
                max_leverage <= 0,
                collateral >= 0,
        ;
        true
    } else {
        match max_leverage.checked_mul(collateral as i128) {
            Some(most) => size as i128 > most,
            None => {
                assert(max_leverage * collateral >= 0) by (nonlinear_arith)
                    requires
                        max_leverage > 0,
                        collateral >= 0,
                ;
                false
            },
        }
    }
}

impl PositionManager {
    /// The position after `trader` added to it, or why nothing is added.
    pub open spec fn increase_result(
        &self,
        config: &ConfigManager,
        oracle: &OracleIntegrator,
        markets: &MarketManager,
        pool: &LiquidityPool,
        token: &FaucetToken,
        now: u64,
        trader: Principal,
        position_id: u64,
        additional_collateral: i128,
        additional_size: i128,
    ) -> Result<Position, Error> {
        if !self.positions@.contains_key(position_id) {
            Err(Error::PositionNotFound)
        } else {
            let p = self.positions@[position_id];
            let price = oracle.spec_price(p.market_id);
            let collateral = p.collateral + additional_collateral;
            let size = p.size + additional_size;
            let entry = average_entry_price(
                p.size as int,
                p.entry_price as int,
                additional_size as int,
                price as int,
            );
            if p.trader != trader {
                Err(Error::NotPositionOwner)
            } else if additional_collateral < 0 || additional_size < 0 || (additional_collateral
                == 0 && additional_size == 0) {
                Err(Error::InvalidAmount)
            } else if !markets.markets@.contains_key(p.market_id) {
                Err(Error::MarketNotFound)
            } else if additional_size > 0 && !markets.markets@[p.market_id].spec_accepts(
                p.is_long,
                additional_size as u128,
            ) {
                Err(Error::MarketRejected)
            } else if pool.position_manager_check(self.address).is_err() {
                Err(pool.position_manager_check(self.address).unwrap_err())
            } else if markets.position_manager_check(self.address).is_err() {
                Err(markets.position_manager_check(self.address).unwrap_err())
            } else if !fits_i128(collateral) || !fits_i128(size) || !average_fits(
                p.size as int,
                p.entry_price as int,
                additional_size as int,
                price as int,
            ) || !fits_u128(pool.reserved_liquidity + additional_size) || !fits_u128(
                pool.collateral_of(position_id) + additional_collateral,
            ) || liquidation_price_result(
                entry as u128,
                collateral as u128,
                size as u128,
                p.is_long,
            ).is_err() {
                Err(Error::Overflow)
            } else if additional_size > 0 && over_leveraged(
                size,
                collateral,
                config.parameters.max_leverage as int,
            ) {
                Err(Error::LeverageTooHigh)
            } else if token.balance_of(trader) < additional_collateral {
                Err(Error::InsufficientBalance)
            } else {
                Ok(
                    Position {
                        collateral: collateral as u128,
                        size: size as u128,
                        entry_price: entry as u128,
                        entry_funding_long: markets.markets@[p.market_id].cumulative_funding_long,
                        entry_funding_short: markets.markets@[p.market_id].cumulative_funding_short,
                        last_interaction: now,
                        liquidation_price: liquidation_price_result(
                            entry as u128,
                            collateral as u128,
                            size as u128,
                            p.is_long,
                        ).unwrap(),
                        ..p
                    },
                )
            }
        }
    }

    /// `self` is `before` with `position` under `position_id` and the
    /// orders `orders`.
    pub open spec fn is_change_of(
        &self,
        before: &PositionManager,
        position_id: u64,
        position: Position,
        orders: Map<u64, crate::order::Order>,
    ) -> bool {
        &&& self.same_roles(before)
        &&& self.last_position_id == before.last_position_id
        &&& self.last_order_id == before.last_order_id
        &&& self.positions@ == before.positions@.insert(position_id, position)
        &&& self.orders@ == orders
    }

    /// Adds collateral, size or both to a position of `trader`.
    ///
    /// Size is added at the oracle's price, and the entry price becomes the
    /// average weighted by size; the market must accept the added size, and
    /// the position must stay within the largest leverage. The added
    /// collateral moves into the pool and the added size is reserved there.
    /// The funding snapshots and the time of the last touch are renewed,
    /// and the liquidation price is computed anew.
    #[verifier::rlimit(50)]
    pub fn increase_position(
        &mut self,
        config: &ConfigManager,
        oracle: &OracleIntegrator,
        markets: &mut MarketManager,
        pool: &mut LiquidityPool,
        token: &mut FaucetToken,
        now: u64,
        trader: Principal,
        position_id: u64,
        additional_collateral: i128,
        additional_size: i128,
    ) -> (r: Result<(), Error>)
        requires
            old(self).wf(),
            oracle.wf(),
            old(markets).wf(),
            old(pool).wf(),
            old(token).wf(),
        ensures
            final(self).wf(),
            final(markets).wf(),
            final(pool).wf(),
            final(token).wf(),
            books_agree(old(self), old(markets), old(pool)) ==> books_agree(
                final(self),
                final(markets),
                final(pool),
            ),
            escrow_covered(old(self), old(token)) && trader != old(self).address
                ==> escrow_covered(final(self), final(token)),
            r.is_ok() <==> old(self).increase_result(
                config,
                oracle,
                old(markets),
                old(pool),
                old(token),
                now,
                trader,
                position_id,
                additional_collateral,
                additional_size,
            ).is_ok(),
            r.is_err() ==> {
                &&& r.err() == old(self).increase_result(
                    config,
                    oracle,
                    old(markets),
                    old(pool),
                    old(token),
                    now,
                    trader,
                    position_id,
                    additional_collateral,
                    additional_size,
                ).err()
                &&& *final(self) == *old(self)
                &&& *final(markets) == *old(markets)
                &&& *final(pool) == *old(pool)
                &&& *final(token) == *old(token)
            },
            r.is_ok() ==> {
                let p = old(self).positions@[position_id];
                let next = old(self).increase_result(
                    config,
                    oracle,
                    old(markets),
                    old(pool),
                    old(token),
                    now,
                    trader,
                    position_id,
                    additional_collateral,
                    additional_size,
                ).unwrap();
                let m = old(markets).markets@[p.market_id];
                &&& final(self).is_change_of(old(self), position_id, next, old(self).orders@)
                &&& final(markets).is_update_of(
                    old(markets),
                    m.spec_with_open_interest(
                        p.is_long,
                        (m.spec_open_interest(p.is_long) + additional_size) as u128,
                    ),
                )
                &&& final(pool).is_position_change_of(
                    old(pool),
                    position_id,
                    (old(pool).collateral_of(position_id) + additional_collateral) as u128,
                    (old(pool).reserved_liquidity + additional_size) as u128,
                )
                &&& final(token).has_balances(
                    old(token),
                    moved(
                        old(token).balances(),
                        trader,
                        old(pool).address,
                        additional_collateral as int,
                    ),
                )
            },
    {
        let p = self.get_position(position_id)?;
        if p.trader.id != trader.id {
            return Err(Error::NotPositionOwner);
        }
        if additional_collateral < 0 || additional_size < 0 || (additional_collateral == 0
            && additional_size == 0) {
            return Err(Error::InvalidAmount);
        }
        let add_collateral = additional_collateral as u128;
        let add_size = additional_size as u128;
        let m = markets.get_market(p.market_id)?;
        let ghost open_interest_before = m.spec_open_interest(p.is_long);
        if add_size > 0 && !markets.can_open_position(p.market_id, p.is_long, add_size) {
            return Err(Error::MarketRejected);
        }
        pool.require_position_manager(self.address)?;
        markets.require_position_manager(self.address)?;
        let limit: u128 = i128::MAX as u128;
        let collateral: u128 = p.collateral + add_collateral;
        let size: u128 = p.size + add_size;
        if collateral > limit || size > limit {
            return Err(Error::Overflow);
        }
        let price = oracle.get_price(p.market_id);
        let entry: u128 = if add_size == 0 {
            p.entry_price
        } else {
            let old_value = mul_u128(p.size, p.entry_price)?;
            let new_value = mul_u128(add_size, price as u128)?;
            add_u128(old_value, new_value)? / size
        };
        if entry == 0 || entry > limit {
            return Err(Error::Overflow);
        }
        let reserved = add_u128(pool.get_reserved_liquidity(), add_size)?;
        let held = add_u128(pool.get_position_collateral(position_id), add_collateral)?;
        let liquidation = compute_liquidation_price(entry, collateral, size, p.is_long)?;
        if add_size > 0 && is_over_leveraged(size, collateral, config.max_leverage()) {
            return Err(Error::LeverageTooHigh);
        }
        if token.balance(trader) < additional_collateral {
            return Err(Error::InsufficientBalance);
        }
        let mut next = p;
        next.collateral = collateral;
        next.size = size;
        next.entry_price = entry;
        next.entry_funding_long = m.cumulative_funding_long;
        next.entry_funding_short = m.cumulative_funding_short;
        next.last_interaction = now;
        next.liquidation_price = liquidation;
        assert(self.increase_result(
            config,
            oracle,
            markets,
            pool,
            token,
            now,
            trader,
            position_id,
            additional_collateral,
            additional_size,
        ) == Ok::<Position, Error>(next));
        if add_collateral > 0 {
            let deposited = pool.deposit_position_collateral(
                token,
                self.address,
                position_id,
                trader,
                add_collateral,
            );
            assert(deposited.is_ok());
        }
        let reserved_ok = pool.reserve_liquidity(self.address, position_id, add_size);
        assert(reserved_ok.is_ok());
        let counted = markets.update_open_interest(
            self.address,
            p.market_id,
            p.is_long,
            additional_size,
        );
        assert(counted.is_ok());
        self.positions.insert(position_id, next);
        assert(final(pool).position_collateral@ =~= old(pool).collateral_after_record(
            position_id,
            held,
        ));
        proof {
            if books_agree(old(self), old(markets), old(pool)) {
                lemma_change_keeps_books(
                    old(self),
                    old(markets),
                    old(pool),
                    self,
                    markets,
                    pool,
                    position_id,
                    next,
                    (open_interest_before + add_size) as u128,
                    reserved,
                );
            }
        }
        Ok(())
    }

    /// The position after it was reduced and what that realized, or why it
    /// cannot be reduced.
    ///
    /// The part of the profit or loss that goes with the size taken off is
    /// realized at once: a gain is paid by the pool, a loss comes out of the
    /// collateral, which it must not use up. What is left must keep the
    /// maintenance margin and the smallest size.
    pub open spec fn reduce_result(
        &self,
        config: &ConfigManager,
        oracle: &OracleIntegrator,
        markets: &MarketManager,
        pool: &LiquidityPool,
        token: &FaucetToken,
        now: u64,
        position_id: u64,
        remove_collateral: u128,
        reduce_size: u128,
        executing: u64,
    ) -> Result<Reduction, Error> {
        match self.pnl_result(config, oracle, markets, position_id, now) {
            Err(e) => Err(e),
            Ok(pnl) => {
                let p = self.positions@[position_id];
                let m = markets.markets@[p.market_id];
                let realized = trunc_div(pnl * reduce_size, p.size as int);
                let after_pnl = if realized < 0 {
                    p.collateral + realized
                } else {
                    p.collateral as int
                };
                let collateral = after_pnl - remove_collateral;
                let size = p.size - reduce_size;
                let gain = if realized > 0 {
                    realized
                } else {
                    0
                };
                let payout = remove_collateral + gain;
                let fee = self.executing_fee(executing);
                if reduce_size >= p.size {
                    Err(Error::InvalidAmount)
                } else if pool.position_manager_check(self.address).is_err() {
                    Err(pool.position_manager_check(self.address).unwrap_err())
                } else if markets.position_manager_check(self.address).is_err() {
                    Err(markets.position_manager_check(self.address).unwrap_err())
                } else if executing != 0 && !attached(self.orders@, position_id).contains(
                    executing,
                ) {
                    Err(Error::OrderNotFound)
                } else if !fits_i128(pnl * reduce_size) {
                    Err(Error::Overflow)
                } else if after_pnl <= 0 {
                    Err(Error::CollateralExhausted)
                } else if collateral <= 0 {
                    Err(Error::MarginTooLow)
                } else if !fits_u128(collateral * 10_000) {
                    Err(Error::Overflow)
                } else if collateral * 10_000 / size < MAINTENANCE_MARGIN_BPS {
                    Err(Error::MarginTooLow)
                } else if remove_collateral > 0 && over_leveraged(
                    size,
                    collateral,
                    config.parameters.max_leverage as int,
                ) {
                    Err(Error::LeverageTooHigh)
                } else if size < config.parameters.min_position_size {
                    Err(Error::PositionSizeTooSmall)
                } else if pool.reserved_liquidity < reduce_size {
                    Err(Error::InsufficientReserved)
                } else if m.spec_open_interest(p.is_long) < reduce_size {
                    Err(Error::OpenInterestUnderflow)
                } else if pool.collateral_of(position_id) < remove_collateral {
                    Err(Error::InsufficientCollateral)
                } else if !fits_i128(payout) || !fits_i128(payout + fee) || !fits_u128(
                    size * 10_000,
                ) || liquidation_price_result(
                    p.entry_price,
                    collateral as u128,
                    size as u128,
                    p.is_long,
                ).is_err() {
                    Err(Error::Overflow)
                } else if token.balance_of(pool.address) < payout + (if pool.address
                    == self.address {
                    fee
                } else {
                    0
                }) {
                    Err(Error::InsufficientLiquidity)
                } else if token.balance_of(self.address) < fee {
                    Err(Error::InsufficientBalance)
                } else {
                    Ok(
                        Reduction {
                            position: Position {
                                collateral: collateral as u128,
                                size: size as u128,
                                entry_funding_long: m.cumulative_funding_long,
                                entry_funding_short: m.cumulative_funding_short,
                                last_interaction: now,
                                liquidation_price: liquidation_price_result(
                                    p.entry_price,
                                    collateral as u128,
                                    size as u128,
                                    p.is_long,
                                ).unwrap(),
                                ..p
                            },
                            realized: realized as i128,
                        },
                    )
                }
            },
        }
    }

    /// The balances after a position was reduced: the fee of the executing
    /// order to the keeper, the collateral taken out and the gain realized
    /// to the trader.
    pub open spec fn balances_after_reduce(
        &self,
        pool: &LiquidityPool,
        token: &FaucetToken,
        position_id: u64,
        remove_collateral: u128,
        realized: i128,
        executing: u64,
        keeper: Principal,
    ) -> spec_fn(Principal) -> int {
        let p = self.positions@[position_id];
        moved(
            moved(
                moved(token.balances(), self.address, keeper, self.executing_fee(executing)),
                pool.address,
                p.trader,
                remove_collateral as int,
            ),
            pool.address,
            p.trader,
            if realized > 0 {
                realized as int
            } else {
                0
            },
        )
    }

    /// Reduces a position, whoever asks.
    #[verifier::rlimit(50)]
    pub(crate) fn reduce(
        &mut self,
        config: &ConfigManager,
        oracle: &OracleIntegrator,
        markets: &mut MarketManager,
        pool: &mut LiquidityPool,
        token: &mut FaucetToken,
        now: u64,
        position_id: u64,
        remove_collateral: u128,
        reduce_size: u128,
        executing: u64,
        keeper: Principal,
    ) -> (r: Result<i128, Error>)
        requires
            old(self).wf(),
            oracle.wf(),
            old(markets).wf(),
            old(pool).wf(),
            old(token).wf(),
        ensures
            final(self).wf(),
            final(markets).wf(),
            final(pool).wf(),
            final(token).wf(),
            books_agree(old(self), old(markets), old(pool)) ==> books_agree(
                final(self),
                final(markets),
                final(pool),
            ),
            escrow_covered(old(self), old(token)) && old(pool).address != old(self).address
                ==> escrow_covered(final(self), final(token)),
            r.is_ok() <==> old(self).reduce_result(
                config,
                oracle,
                old(markets),
                old(pool),
                old(token),
                now,
                position_id,
                remove_collateral,
                reduce_size,
                executing,
            ).is_ok(),
            r.is_err() ==> {
                &&& r.err() == old(self).reduce_result(
                    config,
                    oracle,
                    old(markets),
                    old(pool),
                    old(token),
                    now,
                    position_id,
                    remove_collateral,
                    reduce_size,
                    executing,
                ).err()
                &&& *final(self) == *old(self)
                &&& *final(markets) == *old(markets)
                &&& *final(pool) == *old(pool)
                &&& *final(token) == *old(token)
            },
            r.is_ok() ==> {
                let p = old(self).positions@[position_id];
                let m = old(markets).markets@[p.market_id];
                let next = old(self).reduce_result(
                    config,
                    oracle,
                    old(markets),
                    old(pool),
                    old(token),
                    now,
                    position_id,
                    remove_collateral,
                    reduce_size,
                    executing,
                ).unwrap();
                &&& r.unwrap() == next.realized
                &&& final(self).is_change_of(
                    old(self),
                    position_id,
                    next.position,
                    rescaled(old(self).orders@.remove(executing), position_id, next.position.size),
                )
                &&& final(markets).is_update_of(
                    old(markets),
                    m.spec_with_open_interest(
                        p.is_long,
                        (m.spec_open_interest(p.is_long) - reduce_size) as u128,
                    ),
                )
                &&& final(pool).is_position_change_of(
                    old(pool),
                    position_id,
                    next.position.collateral,
                    (old(pool).reserved_liquidity - reduce_size) as u128,
                )
                &&& final(token).has_balances(
                    old(token),
                    old(self).balances_after_reduce(
                        old(pool),
                        old(token),
                        position_id,
                        remove_collateral,
                        next.realized,
                        executing,
                        keeper,
                    ),
                )
            },
    {
        let pnl = self.calculate_pnl(config, oracle, markets, position_id, now)?;
        let p = self.get_position(position_id)?;
        let m = markets.get_market(p.market_id)?;
        if reduce_size >= p.size {
            return Err(Error::InvalidAmount);
        }
        pool.require_position_manager(self.address)?;
        markets.require_position_manager(self.address)?;
        let fee: u128 = if executing != 0 {
            match self.orders.get(&executing) {
                Some(o) => {
                    if o.position_id != position_id {
                        return Err(Error::OrderNotFound);
                    }
                    o.execution_fee
                },
                None => {
                    return Err(Error::OrderNotFound);
                },
            }
        } else {
            0
        };
        let realized = mul_div_signed(pnl, reduce_size as i128, p.size as i128)?;
        let after_pnl: i128 = if realized < 0 {
            p.collateral as i128 + realized
        } else {
            p.collateral as i128
        };
        if after_pnl <= 0 {
            return Err(Error::CollateralExhausted);
        }
        if remove_collateral >= after_pnl as u128 {
            return Err(Error::MarginTooLow);
        }
        let collateral: u128 = after_pnl as u128 - remove_collateral;
        let size: u128 = p.size - reduce_size;
        let ratio = mul_u128(collateral, 10_000)? / size;
        if ratio < MAINTENANCE_MARGIN_BPS {
            return Err(Error::MarginTooLow);
        }
        if remove_collateral > 0 && is_over_leveraged(size, collateral, config.max_leverage()) {
            return Err(Error::LeverageTooHigh);
        }
        validate_position_size(config, size)?;
        if pool.get_reserved_liquidity() < reduce_size {
            return Err(Error::InsufficientReserved);
        }
        let open_interest = if p.is_long {
            m.long_open_interest
        } else {
            m.short_open_interest
        };
        if open_interest < reduce_size {
            return Err(Error::OpenInterestUnderflow);
        }
        if pool.get_position_collateral(position_id) < remove_collateral {
            return Err(Error::InsufficientCollateral);
        }
        let gain: i128 = if realized > 0 {
            realized
        } else {
            0
        };
        let limit: u128 = i128::MAX as u128;
        if gain as u128 > limit - remove_collateral {
            return Err(Error::Overflow);
        }
        let payout: u128 = remove_collateral + gain as u128;
        if fee > limit - payout {
            return Err(Error::Overflow);
        }
        if size > u128::MAX / 10_000 {
            return Err(Error::Overflow);
        }
        let liquidation = compute_liquidation_price(p.entry_price, collateral, size, p.is_long)?;
        let pool_needs: u128 = if pool.address.id == self.address.id {
            payout + fee
        } else {
            payout
        };
        if (token.balance(pool.address) as u128) < pool_needs {
            return Err(Error::InsufficientLiquidity);
        }
        if (token.balance(self.address) as u128) < fee {
            return Err(Error::InsufficientBalance);
        }
        let mut next = p;
        next.collateral = collateral;
        next.size = size;
        next.entry_funding_long = m.cumulative_funding_long;
        next.entry_funding_short = m.cumulative_funding_short;
        next.last_interaction = now;
        next.liquidation_price = liquidation;
        assert(self.reduce_result(
            config,
            oracle,
            markets,
            pool,
            token,
            now,
            position_id,
            remove_collateral,
            reduce_size,
            executing,
        ) == Ok::<Reduction, Error>(Reduction { position: next, realized }));
        let ghost b0 = token.balances();
        if fee > 0 {
            let moved_ok = token.transfer(self.address, keeper, fee as i128);
            assert(moved_ok.is_ok());
        }
        let ghost b1 = moved(b0, self.address, keeper, fee as int);
        assert(forall|q: Principal| #[trigger] token.balance_of(q) == b1(q));
        if remove_collateral > 0 {
            let paid = pool.withdraw_position_collateral(
                token,
                self.address,
                position_id,
                p.trader,
                remove_collateral,
            );
            assert(paid.is_ok());
        }
        let ghost b2 = moved(b1, pool.address, p.trader, remove_collateral as int);
        assert(forall|q: Principal| #[trigger] token.balance_of(q) == b2(q));
        let settled = pool.settle_trader_pnl(token, self.address, p.trader, gain);
        assert(settled.is_ok());
        let recorded = pool.record_position_collateral(self.address, position_id, collateral);
        assert(recorded.is_ok());
        let released = pool.release_liquidity(self.address, position_id, reduce_size);
        assert(released.is_ok());
        let counted = markets.update_open_interest(
            self.address,
            p.market_id,
            p.is_long,
            -(reduce_size as i128),
        );
        assert(counted.is_ok());
        self.positions.insert(position_id, next);
        if executing != 0 {
            self.orders.remove(&executing);
        }
        assert(self.orders@ =~= old(self).orders@.remove(executing));
        self.rescale_attached(position_id, size);
        assert(final(pool).position_collateral@ =~= old(pool).collateral_after_record(
            position_id,
            collateral,
        ));
        proof {
            if books_agree(old(self), old(markets), old(pool)) {
                lemma_change_keeps_books(
                    old(self),
                    old(markets),
                    old(pool),
                    self,
                    markets,
                    pool,
                    position_id,
                    next,
                    (open_interest - reduce_size) as u128,
                    (old(pool).reserved_liquidity - reduce_size) as u128,
                );
            }
            lemma_reduction_keeps_escrow(
                old(self).orders@,
                self.orders@,
                self.last_order_id as nat,
                position_id,
                size,
                executing,
            );
        }
        Ok(realized)
    }

    /// The position after `trader` took collateral, size or both off it and
    /// what that realized, or why nothing is taken off.
    pub open spec fn decrease_result(
        &self,
        config: &ConfigManager,
        oracle: &OracleIntegrator,
        markets: &MarketManager,
        pool: &LiquidityPool,
        token: &FaucetToken,
        now: u64,
        trader: Principal,
        position_id: u64,
        collateral_to_remove: i128,
        size_to_reduce: i128,
    ) -> Result<Reduction, Error> {
        if !self.positions@.contains_key(position_id) {
            Err(Error::PositionNotFound)
        } else if self.positions@[position_id].trader != trader {
            Err(Error::NotPositionOwner)
        } else if collateral_to_remove < 0 || size_to_reduce < 0 || (collateral_to_remove == 0
            && size_to_reduce == 0) {
            Err(Error::InvalidAmount)
        } else {
            self.reduce_result(
                config,
                oracle,
                markets,
                pool,
                token,
                now,
                position_id,
                collateral_to_remove as u128,
                size_to_reduce as u128,
                0,
            )
        }
    }

    /// Takes collateral, size or both off a position of `trader` and
    /// returns the profit or loss that was realized.
    ///
    /// The part of the profit or loss that goes with the size taken off is
    /// realized at once. The position that is left must keep some
    /// collateral after a realized loss, the maintenance margin, the
    /// largest leverage where collateral is taken out, and the smallest
    /// size; a position that cannot is closed or liquidated instead. The
    /// orders that close the position follow its new size. The funding
    /// snapshots and the time of the last touch are renewed, and the
    /// liquidation price is computed anew.
    pub fn decrease_position(
        &mut self,
        config: &ConfigManager,
        oracle: &OracleIntegrator,
        markets: &mut MarketManager,
        pool: &mut LiquidityPool,
        token: &mut FaucetToken,
        now: u64,
        trader: Principal,
        position_id: u64,
        collateral_to_remove: i128,
        size_to_reduce: i128,
    ) -> (r: Result<i128, Error>)
        requires
            old(self).wf(),
            oracle.wf(),
            old(markets).wf(),
            old(pool).wf(),
            old(token).wf(),
        ensures
            final(self).wf(),
            final(markets).wf(),
            final(pool).wf(),
            final(token).wf(),
            books_agree(old(self), old(markets), old(pool)) ==> books_agree(
                final(self),
                final(markets),
                final(pool),
            ),
            escrow_covered(old(self), old(token)) && old(pool).address != old(self).address
                ==> escrow_covered(final(self), final(token)),
            r.is_ok() <==> old(self).decrease_result(
                config,
                oracle,
                old(markets),
                old(pool),
                old(token),
                now,
                trader,
                position_id,
                collateral_to_remove,
                size_to_reduce,
            ).is_ok(),
            r.is_err() ==> {
                &&& r.err() == old(self).decrease_result(
                    config,
                    oracle,
                    old(markets),
                    old(pool),
                    old(token),
                    now,
                    trader,
                    position_id,
                    collateral_to_remove,
                    size_to_reduce,
                ).err()
                &&& *final(self) == *old(self)
                &&& *final(markets) == *old(markets)
                &&& *final(pool) == *old(pool)
                &&& *final(token) == *old(token)
            },
            r.is_ok() ==> {
                let p = old(self).positions@[position_id];
                let m = old(markets).markets@[p.market_id];
                let next = old(self).decrease_result(
                    config,
                    oracle,
                    old(markets),
                    old(pool),
                    old(token),
                    now,
                    trader,
                    position_id,
                    collateral_to_remove,
                    size_to_reduce,
                ).unwrap();
                &&& r.unwrap() == next.realized
                &&& final(self).is_change_of(
                    old(self),
                    position_id,
                    next.position,
                    rescaled(old(self).orders@, position_id, next.position.size),
                )
                &&& final(markets).is_update_of(
                    old(markets),
                    m.spec_with_open_interest(
                        p.is_long,
                        (m.spec_open_interest(p.is_long) - size_to_reduce) as u128,
                    ),
                )
                &&& final(pool).is_position_change_of(
                    old(pool),
                    position_id,
                    next.position.collateral,
                    (old(pool).reserved_liquidity - size_to_reduce) as u128,
                )
                &&& final(token).has_balances(
                    old(token),
                    old(self).balances_after_reduce(
                        old(pool),
                        old(token),
                        position_id,
                        collateral_to_remove as u128,
                        next.realized,
                        0,
                        trader,
                    ),
                )
            },
    {
        let p = self.get_position(position_id)?;
        if p.trader.id != trader.id {
            return Err(Error::NotPositionOwner);
        }
        if collateral_to_remove < 0 || size_to_reduce < 0 || (collateral_to_remove == 0
            && size_to_reduce == 0) {
            return Err(Error::InvalidAmount);
        }
        assert(old(self).orders@.remove(0) =~= old(self).orders@);
        self.reduce(
            config,
            oracle,
            markets,
            pool,
            token,
            now,
            position_id,
            collateral_to_remove as u128,
            size_to_reduce as u128,
            0,
            trader,
        )
    }
}

} // verus!
