//! What holds of the venue as a whole.

use vstd::prelude::*;
use crate::config::ConfigManager;
use crate::error::Error;
use crate::execution::OrderFilter;
use crate::manager::{ids_up_to, PositionManager};
use crate::market::{Market, MarketManager};
use crate::order::Order;
use crate::math::trunc_div;
use crate::oracle::OracleIntegrator;
use crate::pool::LiquidityPool;
use crate::position::{borrowing_fee, funding_charge, funding_payment, price_pnl, Position};
use crate::execution::spec_selects;
use crate::principal::Principal;
use crate::token::FaucetToken;

verus! {

/// Neither side of a market holds more open interest than the market's cap.
///
/// Every operation that is handed a well-formed market manager leaves it
/// well formed, so this holds of every market at all times.
pub proof fn lemma_open_interest_within_cap(markets: &MarketManager, market_id: u32)
    requires
        markets.wf(),
        markets.markets@.contains_key(market_id),
    ensures
        0 <= markets.markets@[market_id].long_open_interest
            <= markets.markets@[market_id].max_open_interest,
        0 <= markets.markets@[market_id].short_open_interest
            <= markets.markets@[market_id].max_open_interest,
{
}

/// The pool has shares exactly while it has deposits on record, and no
/// provider holds more shares than exist.
///
/// Every operation that is handed a well-formed pool leaves it well formed,
/// so this holds at all times.
pub proof fn lemma_shares_and_deposits(pool: &LiquidityPool, user: Principal)
    requires
        pool.wf(),
    ensures
        pool.total_shares == 0 <==> pool.total_deposits == 0,
        0 <= pool.shares_of(user) <= pool.total_shares,
{
    pool.shares.lemma_bounded(user.id);
}

/// The supply of the token is what all accounts hold together, so no
/// account holds more than the supply, and two accounts do not either.
pub proof fn lemma_supply_covers_balances(token: &FaucetToken, a: Principal, b: Principal)
    requires
        token.wf(),
    ensures
        0 <= token.balance_of(a) <= token.total_supply,
        a != b ==> token.balance_of(a) + token.balance_of(b) <= token.total_supply,
{
    token.balances.lemma_bounded(a.id);
    if a != b {
        token.balances.lemma_pair_bounded(a.id, b.id);
    }
}

/// Whether a deposit of `amount` buys shares at an exact price: into an
/// empty pool that holds nothing, or for a whole number of shares.
pub open spec fn deposit_is_exact(pool: &LiquidityPool, token: &FaucetToken, amount: i128) -> bool {
    let balance = token.balance_of(pool.address);
    if pool.total_shares == 0 {
        balance == 0
    } else {
        (amount * pool.total_shares) % balance == 0
    }
}

/// A deposit followed at once by a withdrawal of the shares it bought
/// returns the amount deposited, exactly where the deposit bought its
/// shares at an exact price. Where the price was rounded down, the shares are worth less
/// than was paid for them; where the first shares are bought while the pool
/// already holds tokens, they are worth those tokens too.
pub proof fn lemma_deposit_then_withdraw(
    config: &ConfigManager,
    pool: &LiquidityPool,
    token: &FaucetToken,
    pool_after: &LiquidityPool,
    token_after: &FaucetToken,
    user: Principal,
    amount: i128,
)
    requires
        pool.wf(),
        token.wf(),
        user != pool.address,
        pool.deposit_result(token, user, amount).is_ok(),
        pool_after.is_deposit_of(
            pool,
            user,
            amount,
            pool.deposit_result(token, user, amount).unwrap(),
        ),
        token_after.is_transfer_of(token, user, pool.address, amount),
    ensures
        ({
            let minted = pool.deposit_result(token, user, amount).unwrap();
            let returned = pool_after.tokens_for(
                minted as int,
                token_after.balance_of(pool_after.address),
            );
            let withdrawn = pool_after.withdraw_result(config, token_after, user, minted);
            &&& pool.total_shares != 0 ==> returned <= amount
            &&& returned == amount <==> deposit_is_exact(pool, token, amount)
            &&& withdrawn.is_ok() ==> withdrawn.unwrap() == returned
        }),
{
    let minted = pool.deposit_result(token, user, amount).unwrap() as int;
    let a = amount as int;
    let s = pool.total_shares as int;
    let b = token.balance_of(pool.address);
    token.balances.lemma_bounded(pool.address.id);
    assert(token_after.balance_of(pool.address) == b + a);
    let whole = s + minted;
    let x = minted * (b + a);
    let returned = pool_after.tokens_for(minted, token_after.balance_of(pool_after.address));
    assert(pool_after.total_shares == whole);
    assert(returned == x / whole);
    if s == 0 {
        assert(minted == a);
        assert(x == a * (b + a)) by (nonlinear_arith)
            requires
                x == minted * (b + a),
                minted == a,
        ;
        vstd::arithmetic::div_mod::lemma_div_multiples_vanish(b + a, a);
        assert(returned == b + a);
    } else {
        assert(b > 0);
        assert(a * s >= 0) by (nonlinear_arith)
            requires
                a > 0,
                s >= 0,
        ;
        assert(minted == (a * s) / b);
        vstd::arithmetic::div_mod::lemma_fundamental_div_mod(a * s, b);
        vstd::arithmetic::div_mod::lemma_div_pos_is_pos(a * s, b);
        let rem = (a * s) % b;
        assert(a * s == b * minted + rem);
        assert(0 <= rem < b);
        assert(x == a * whole - rem) by (nonlinear_arith)
            requires
                x == minted * (b + a),
                whole == s + minted,
                a * s == b * minted + rem,
        ;
        assert(whole > 0);
        if rem == 0 {
            vstd::arithmetic::div_mod::lemma_div_multiples_vanish(a, whole);
            assert(a * whole == whole * a) by (nonlinear_arith);
            assert(returned == a);
        } else {
            vstd::arithmetic::div_mod::lemma_fundamental_div_mod(x, whole);
            let q = x / whole;
            assert(whole * q <= x);
            assert(x < a * whole);
            if q >= a {
                assert(whole * q >= whole * a) by (nonlinear_arith)
                    requires
                        q >= a,
                        whole > 0,
                ;
                assert(whole * a == a * whole) by (nonlinear_arith);
            }
            assert(returned < a);
        }
    }
}

/// At its own entry price, with the accumulators at its snapshots and no
/// time passed since it was last touched, a position has neither gained nor
/// lost.
pub proof fn lemma_untouched_position_is_flat(p: Position, borrow_rate: i128)
    requires
        p.wf(),
    ensures
        p.spec_pnl(
            p.entry_price as i128,
            p.entry_funding_long,
            p.entry_funding_short,
            borrow_rate,
            p.last_interaction,
        ) == 0,
        p.pnl_result(
            p.entry_price as i128,
            p.entry_funding_long,
            p.entry_funding_short,
            borrow_rate,
            p.last_interaction,
        ) == Ok::<i128, Error>(0),
{
    let size = p.size as int;
    let entry = p.entry_price as int;
    assert(0 * size == 0) by (nonlinear_arith);
    assert(borrow_rate * 0 == 0) by (nonlinear_arith);
    assert(borrow_rate * 0 * size == 0) by (nonlinear_arith);
    assert(trunc_div(0, entry) == 0);
    assert(trunc_div(0, 3_600) == 0);
    assert(trunc_div(0, 10_000) == 0);
    assert(trunc_div(0, 10_000_000) == 0);
    assert(price_pnl(p.is_long, entry, entry, size) == 0);
    assert(funding_charge(0, size) == 0);
    assert(funding_payment(p.is_long, size, 0, 0) == 0);
    assert(borrowing_fee(borrow_rate as int, 0, size) == 0);
}

/// A position that has just opened, at an unchanged price and with no time
/// passed, has neither gained nor lost: closing it at once realizes zero.
pub proof fn lemma_open_then_close_is_flat(
    manager: &PositionManager,
    config: &ConfigManager,
    oracle: &OracleIntegrator,
    markets: &MarketManager,
    pool: &LiquidityPool,
    token: &FaucetToken,
    manager_after: &PositionManager,
    markets_after: &MarketManager,
    pool_after: &LiquidityPool,
    token_after: &FaucetToken,
    now: u64,
    trader: Principal,
    market_id: u32,
    collateral: u128,
    leverage: u32,
    is_long: bool,
)
    requires
        manager.wf(),
        oracle.wf(),
        markets.wf(),
        manager.open_result(
            config,
            oracle,
            markets,
            pool,
            token,
            now,
            trader,
            trader,
            market_id,
            collateral,
            leverage,
            is_long,
        ).is_ok(),
        manager_after.wf(),
        manager_after.is_opening_of(
            manager,
            manager.open_result(
                config,
                oracle,
                markets,
                pool,
                token,
                now,
                trader,
                trader,
                market_id,
                collateral,
                leverage,
                is_long,
            ).unwrap(),
        ),
        markets_after.is_update_of(
            markets,
            markets.markets@[market_id].spec_with_open_interest(
                is_long,
                (markets.markets@[market_id].spec_open_interest(is_long) + collateral
                    * leverage) as u128,
            ),
        ),
    ensures
        manager_after.pnl_result(
            config,
            oracle,
            markets_after,
            manager_after.last_position_id,
            now,
        ) == Ok::<i128, Error>(0),
        manager_after.close_position_result(
            config,
            oracle,
            markets_after,
            pool_after,
            token_after,
            now,
            trader,
            manager_after.last_position_id,
        ).is_ok() ==> manager_after.close_position_result(
            config,
            oracle,
            markets_after,
            pool_after,
            token_after,
            now,
            trader,
            manager_after.last_position_id,
        ) == Ok::<i128, Error>(0),
{
    let p = manager.open_result(
        config,
        oracle,
        markets,
        pool,
        token,
        now,
        trader,
        trader,
        market_id,
        collateral,
        leverage,
        is_long,
    ).unwrap();
    let id = manager_after.last_position_id;
    assert(manager_after.positions@.contains_key(id));
    assert(manager_after.positions@[id] == p);
    assert(p.wf());
    assert(markets_after.markets@.contains_key(market_id));
    lemma_untouched_position_is_flat(p, config.parameters.borrow_rate_per_second);
}

/// A funding update charges the side that pays and leaves the accumulator
/// of the other side where it was: at most one of the two advances, and
/// neither falls.
pub proof fn lemma_funding_charges_one_side(m: Market, now: u64)
    requires
        m.wf(),
        now >= m.last_funding_update,
    ensures
        ({
            let after = m.spec_after_funding(now);
            let rate = m.spec_funding_rate();
            &&& after.cumulative_funding_long == m.cumulative_funding_long
                || after.cumulative_funding_short == m.cumulative_funding_short
            &&& rate > 0 ==> after.cumulative_funding_short == m.cumulative_funding_short
            &&& rate < 0 ==> after.cumulative_funding_long == m.cumulative_funding_long
            &&& rate == 0 ==> after.cumulative_funding_long == m.cumulative_funding_long
                && after.cumulative_funding_short == m.cumulative_funding_short
            &&& m.spec_funding_fits(now - m.last_funding_update) ==> after.cumulative_funding_long
                >= m.cumulative_funding_long && after.cumulative_funding_short
                >= m.cumulative_funding_short
            &&& after.long_open_interest == m.long_open_interest
            &&& after.short_open_interest == m.short_open_interest
        }),
{
    let rate = m.spec_funding_rate();
    let elapsed = now - m.last_funding_update;
    if rate > 0 {
        assert(rate * elapsed >= 0) by (nonlinear_arith)
            requires
                rate > 0,
                elapsed >= 0,
        ;
    } else if rate < 0 {
        assert(-rate * elapsed >= 0) by (nonlinear_arith)
            requires
                rate < 0,
                elapsed >= 0,
        ;
        assert(-rate * elapsed == -(rate * elapsed)) by (nonlinear_arith);
    }
}

/// Two ways of choosing that agree on the identifiers up to `n` choose the
/// same of them.
pub proof fn lemma_ids_agree(n: nat, keep: spec_fn(u64) -> bool, other: spec_fn(u64) -> bool)
    requires
        n <= u64::MAX,
        forall|id: u64| 1 <= id <= n ==> #[trigger] keep(id) == other(id),
    ensures
        ids_up_to(n, keep) == ids_up_to(n, other),
    decreases n,
{
    if n > 0 {
        lemma_ids_agree((n - 1) as nat, keep, other);
    }
}

/// Choosing all that was chosen but `gone` chooses the same identifiers in
/// the same order, without `gone`.
pub proof fn lemma_ids_without(
    n: nat,
    keep: spec_fn(u64) -> bool,
    rest: spec_fn(u64) -> bool,
    gone: u64,
)
    requires
        n <= u64::MAX,
        forall|id: u64| 1 <= id <= n ==> #[trigger] rest(id) == (keep(id) && id != gone),
    ensures
        ids_up_to(n, rest) == ids_up_to(n, keep).filter(|id: u64| id != gone),
    decreases n,
{
    reveal_with_fuel(Seq::filter, 2);
    let pred = |id: u64| id != gone;
    if n > 0 {
        lemma_ids_without((n - 1) as nat, keep, rest, gone);
        let before = ids_up_to((n - 1) as nat, keep);
        if keep(n as u64) {
            let all = before.push(n as u64);
            assert(all.drop_last() =~= before);
            assert(all.last() == n as u64);
        }
    }
}

/// A position that opens is added at the end of the list of its trader's
/// open positions, and the lists of all other traders stay as they are.
pub proof fn lemma_opening_registers(
    before: &PositionManager,
    after: &PositionManager,
    position: Position,
    other: Principal,
)
    requires
        before.wf(),
        after.is_opening_of(before, position),
    ensures
        after.spec_user_open_positions(position.trader) == before.spec_user_open_positions(
            position.trader,
        ).push(after.last_position_id),
        other != position.trader ==> after.spec_user_open_positions(other)
            == before.spec_user_open_positions(other),
{
    let n = before.last_position_id as nat;
    lemma_ids_agree(n, after.owned_by(position.trader), before.owned_by(position.trader));
    lemma_ids_agree(n, after.owned_by(other), before.owned_by(other));
    assert(after.positions@.contains_key(after.last_position_id));
}

/// A position that leaves the book leaves the list of its trader's open
/// positions, and every other entry of every list stays where it is.
pub proof fn lemma_retirement_unregisters(
    before: &PositionManager,
    after: &PositionManager,
    position_id: u64,
    trader: Principal,
)
    requires
        before.wf(),
        after.is_retirement_of(before, position_id),
    ensures
        after.spec_user_open_positions(trader) == before.spec_user_open_positions(trader).filter(
            |id: u64| id != position_id,
        ),
{
    lemma_ids_without(
        before.last_position_id as nat,
        before.owned_by(trader),
        after.owned_by(trader),
        position_id,
    );
}

/// An order that is placed is added at the end of every list that selects
/// it, and every other list stays as it is.
pub proof fn lemma_placing_registers(
    before: &PositionManager,
    after: &PositionManager,
    order: Order,
    filter: OrderFilter,
)
    requires
        before.wf(),
        after.is_placing_of(before, order),
    ensures
        after.spec_orders(filter) == (if spec_selects(filter, order) {
            before.spec_orders(filter).push(after.last_order_id)
        } else {
            before.spec_orders(filter)
        }),
{
    lemma_ids_agree(before.last_order_id as nat, after.listed(filter), before.listed(filter));
    assert(after.orders@.contains_key(after.last_order_id));
}

/// An order that is cancelled or has executed leaves every list, and every
/// other entry of every list stays where it is.
pub proof fn lemma_removal_unregisters(
    before: &PositionManager,
    after: &PositionManager,
    order_id: u64,
    filter: OrderFilter,
)
    requires
        before.wf(),
        after.is_removal_of(before, order_id),
    ensures
        after.spec_orders(filter) == before.spec_orders(filter).filter(|id: u64| id != order_id),
{
    lemma_ids_without(
        before.last_order_id as nat,
        before.listed(filter),
        after.listed(filter),
        order_id,
    );
}

/// While the utilization ceiling is under all of the pool, a position opens
/// only if the pool holds more than is reserved once its size is.
pub proof fn lemma_opening_keeps_reserved_covered(
    manager: &PositionManager,
    config: &ConfigManager,
    oracle: &OracleIntegrator,
    markets: &MarketManager,
    pool: &LiquidityPool,
    token: &FaucetToken,
    now: u64,
    trader: Principal,
    payer: Principal,
    market_id: u32,
    collateral: u128,
    leverage: u32,
    is_long: bool,
)
    requires
        token.wf(),
        config.parameters.max_utilization_ratio < 10_000,
        manager.open_result(
            config,
            oracle,
            markets,
            pool,
            token,
            now,
            trader,
            payer,
            market_id,
            collateral,
            leverage,
            is_long,
        ).is_ok(),
    ensures
        pool.reserved_liquidity + collateral * leverage < token.balance_of(pool.address),
{
    let reserved = pool.reserved_liquidity + collateral * leverage;
    let balance = token.balance_of(pool.address);
    let scaled = reserved * 10_000;
    token.balances.lemma_bounded(pool.address.id);
    assert(balance > 0);
    let q = scaled / balance;
    assert(q <= 9_999);
    vstd::arithmetic::div_mod::lemma_fundamental_div_mod(scaled, balance);
    assert(scaled == balance * q + scaled % balance);
    assert(balance * q <= balance * 9_999) by (nonlinear_arith)
        requires
            q <= 9_999,
            balance > 0,
    ;
}

} // verus!
