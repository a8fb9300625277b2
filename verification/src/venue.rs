//! The books of the venue taken together: what the pool has reserved and
//! what the markets count as open interest is what the open positions add
//! up to, and what the orders have in escrow is in the manager's account.

use vstd::prelude::*;
use crate::config::ConfigManager;
use crate::error::Error;
use crate::manager::{attached, refund_total, rescaled, PositionManager};
use crate::oracle::OracleIntegrator;
use crate::order::Order;
use crate::principal::Principal;
use crate::token::FaucetToken;
use crate::market::{Market, MarketManager};
use crate::pool::LiquidityPool;
use crate::position::Position;

verus! {

/// The sizes of the open positions with identifiers up to `n` that `keep`
/// selects, added up.
pub open spec fn size_sum(
    positions: Map<u64, Position>,
    n: nat,
    keep: spec_fn(Position) -> bool,
) -> int
    decreases n,
{
    if n == 0 {
        0
    } else {
        size_sum(positions, (n - 1) as nat, keep) + share_of(positions, n as u64, keep)
    }
}

/// What the position `id` adds to the sum: its size if it is open and
/// `keep` selects it.
pub open spec fn share_of(positions: Map<u64, Position>, id: u64, keep: spec_fn(Position) -> bool)
    -> int {
    if positions.contains_key(id) && keep(positions[id]) {
        positions[id].size as int
    } else {
        0
    }
}

/// Every position.
pub open spec fn every_position() -> spec_fn(Position) -> bool {
    |p: Position| true
}

/// The positions on one side of one market.
pub open spec fn on_side(market_id: u32, is_long: bool) -> spec_fn(Position) -> bool {
    |p: Position| p.market_id == market_id && p.is_long == is_long
}

/// Positions that agree on the identifiers up to `n` add up to the same.
pub proof fn lemma_size_sum_agrees(
    a: Map<u64, Position>,
    b: Map<u64, Position>,
    n: nat,
    keep: spec_fn(Position) -> bool,
)
    requires
        n <= u64::MAX,
        forall|id: u64|
            1 <= id <= n ==> #[trigger] share_of(a, id, keep) == share_of(b, id, keep),
    ensures
        size_sum(a, n, keep) == size_sum(b, n, keep),
    decreases n,
{
    if n > 0 {
        lemma_size_sum_agrees(a, b, (n - 1) as nat, keep);
    }
}

/// Positions that agree on the identifiers up to `n` but for `id` add up to
/// the same but for what `id` adds.
pub proof fn lemma_size_sum_differs_at(
    a: Map<u64, Position>,
    b: Map<u64, Position>,
    n: nat,
    keep: spec_fn(Position) -> bool,
    id: u64,
)
    requires
        n <= u64::MAX,
        1 <= id <= n,
        forall|other: u64|
            1 <= other <= n && other != id ==> #[trigger] share_of(a, other, keep) == share_of(
                b,
                other,
                keep,
            ),
    ensures
        size_sum(b, n, keep) == size_sum(a, n, keep) - share_of(a, id, keep) + share_of(
            b,
            id,
            keep,
        ),
    decreases n,
{
    if n == id {
        lemma_size_sum_agrees(a, b, (n - 1) as nat, keep);
    } else {
        lemma_size_sum_differs_at(a, b, (n - 1) as nat, keep, id);
    }
}

/// No position adds less than nothing, and the sum is no less than what any
/// one position adds.
pub proof fn lemma_size_sum_covers(
    positions: Map<u64, Position>,
    n: nat,
    keep: spec_fn(Position) -> bool,
    id: u64,
)
    requires
        n <= u64::MAX,
    ensures
        0 <= size_sum(positions, n, keep),
        1 <= id <= n ==> share_of(positions, id, keep) <= size_sum(positions, n, keep),
    decreases n,
{
    if n > 0 {
        lemma_size_sum_covers(positions, (n - 1) as nat, keep, id);
    }
}

/// Whether the books agree: the pool has reserved what all open positions
/// add up to, each side of each market counts what its positions add up to,
/// every open position trades a market that exists, and the pool holds on
/// record the collateral of every open position and of no other.
pub open spec fn books_agree(
    manager: &PositionManager,
    markets: &MarketManager,
    pool: &LiquidityPool,
) -> bool {
    let n = manager.last_position_id as nat;
    &&& pool.reserved_liquidity == size_sum(manager.positions@, n, every_position())
    &&& forall|market_id: u32, is_long: bool|
        markets.markets@.contains_key(market_id) ==> #[trigger] markets.markets@[market_id].spec_open_interest(
            is_long,
        ) == size_sum(manager.positions@, n, on_side(market_id, is_long))
    &&& forall|id: u64| #[trigger]
        manager.positions@.contains_key(id) ==> markets.markets@.contains_key(
            manager.positions@[id].market_id,
        ) && pool.collateral_of(id) == manager.positions@[id].collateral
    &&& forall|id: u64| #[trigger]
        pool.position_collateral@.contains_key(id) ==> manager.positions@.contains_key(id)
}

/// Where the books agree, the pool has reserved at least the size of every
/// open position, the position's side of its market counts at least its
/// size, and the pool holds its collateral on record: closing or liquidating
/// it is never refused for want of any of these.
pub proof fn lemma_books_cover_every_position(
    manager: &PositionManager,
    markets: &MarketManager,
    pool: &LiquidityPool,
    position_id: u64,
)
    requires
        manager.wf(),
        books_agree(manager, markets, pool),
        manager.positions@.contains_key(position_id),
    ensures
        ({
            let p = manager.positions@[position_id];
            &&& markets.markets@.contains_key(p.market_id)
            &&& p.size <= pool.reserved_liquidity
            &&& p.size <= markets.markets@[p.market_id].spec_open_interest(p.is_long)
            &&& pool.collateral_of(position_id) == p.collateral
        }),
{
    let p = manager.positions@[position_id];
    let n = manager.last_position_id as nat;
    lemma_size_sum_covers(manager.positions@, n, every_position(), position_id);
    lemma_size_sum_covers(manager.positions@, n, on_side(p.market_id, p.is_long), position_id);
}

/// Where no open position is selected, nothing adds up.
pub proof fn lemma_size_sum_of_none(
    positions: Map<u64, Position>,
    n: nat,
    keep: spec_fn(Position) -> bool,
)
    requires
        n <= u64::MAX,
        forall|id: u64| 1 <= id <= n ==> #[trigger] share_of(positions, id, keep) == 0,
    ensures
        size_sum(positions, n, keep) == 0,
    decreases n,
{
    if n > 0 {
        lemma_size_sum_of_none(positions, (n - 1) as nat, keep);
    }
}

/// A venue without positions, markets and records has books that agree.
pub proof fn lemma_empty_books_agree(
    manager: &PositionManager,
    markets: &MarketManager,
    pool: &LiquidityPool,
)
    requires
        manager.last_position_id == 0,
        manager.positions@ == Map::<u64, Position>::empty(),
        pool.reserved_liquidity == 0,
        pool.position_collateral@ == Map::<u64, u128>::empty(),
        forall|market_id: u32| #[trigger]
            markets.markets@.contains_key(market_id) ==> markets.markets@[market_id].long_open_interest
                == 0 && markets.markets@[market_id].short_open_interest == 0,
    ensures
        books_agree(manager, markets, pool),
{
}

/// A position that opens under the next identifier, with its size added to
/// what is reserved and to its side of its market and its collateral put on
/// record, leaves books that agree.
pub proof fn lemma_opening_keeps_books(
    manager: &PositionManager,
    markets: &MarketManager,
    pool: &LiquidityPool,
    manager_after: &PositionManager,
    markets_after: &MarketManager,
    pool_after: &LiquidityPool,
    p: Position,
)
    requires
        manager.wf(),
        books_agree(manager, markets, pool),
        p.collateral > 0,
        markets.markets@.contains_key(p.market_id),
        markets.markets@[p.market_id].spec_open_interest(p.is_long) + p.size <= u128::MAX,
        pool.reserved_liquidity + p.size <= u128::MAX,
        manager_after.is_opening_of(manager, p),
        markets_after.is_update_of(
            markets,
            markets.markets@[p.market_id].spec_with_open_interest(
                p.is_long,
                (markets.markets@[p.market_id].spec_open_interest(p.is_long) + p.size) as u128,
            ),
        ),
        markets.markets@[p.market_id].market_id == p.market_id,
        pool_after.is_position_change_of(
            pool,
            manager_after.last_position_id,
            (pool.collateral_of(manager_after.last_position_id) + p.collateral) as u128,
            (pool.reserved_liquidity + p.size) as u128,
        ),
    ensures
        books_agree(manager_after, markets_after, pool_after),
{
    let n = manager.last_position_id as nat;
    let id = manager_after.last_position_id;
    let before = manager.positions@;
    let after = manager_after.positions@;
    assert(!before.contains_key(id));
    assert(!pool.position_collateral@.contains_key(id));
    assert(pool.collateral_of(id) == 0);
    lemma_size_sum_agrees(after, before, n, every_position());
    assert forall|market_id: u32, is_long: bool|
        markets_after.markets@.contains_key(
            market_id,
        ) implies #[trigger] markets_after.markets@[market_id].spec_open_interest(is_long)
        == size_sum(after, (n + 1) as nat, on_side(market_id, is_long)) by {
        lemma_size_sum_agrees(after, before, n, on_side(market_id, is_long));
        assert(markets.markets@.contains_key(market_id));
        assert(markets.markets@[market_id].spec_open_interest(is_long) == size_sum(
            before,
            n,
            on_side(market_id, is_long),
        ));
    }
    assert forall|other: u64| #[trigger] after.contains_key(other) implies markets_after.markets@.contains_key(
        after[other].market_id,
    ) && pool_after.collateral_of(other) == after[other].collateral by {
        if other != id {
            assert(before.contains_key(other));
        }
    }
    assert forall|other: u64| #[trigger]
        pool_after.position_collateral@.contains_key(other) implies after.contains_key(other) by {
        if other != id {
            assert(pool.position_collateral@.contains_key(other));
        }
    }
}

/// A position that leaves the book, with its size taken off what is
/// reserved and off its side of its market and its collateral taken off the
/// record, leaves books that agree.
pub proof fn lemma_retirement_keeps_books(
    manager: &PositionManager,
    markets: &MarketManager,
    pool: &LiquidityPool,
    manager_after: &PositionManager,
    markets_after: &MarketManager,
    pool_after: &LiquidityPool,
    position_id: u64,
)
    requires
        manager.wf(),
        markets.wf(),
        books_agree(manager, markets, pool),
        manager.positions@.contains_key(position_id),
        manager_after.is_retirement_of(manager, position_id),
        markets_after.is_update_of(
            markets,
            markets.markets@[manager.positions@[position_id].market_id].spec_with_open_interest(
                manager.positions@[position_id].is_long,
                (markets.markets@[manager.positions@[position_id].market_id].spec_open_interest(
                    manager.positions@[position_id].is_long,
                ) - manager.positions@[position_id].size) as u128,
            ),
        ),
        pool_after.is_position_change_of(
            pool,
            position_id,
            0,
            (pool.reserved_liquidity - manager.positions@[position_id].size) as u128,
        ),
    ensures
        books_agree(manager_after, markets_after, pool_after),
{
    let n = manager.last_position_id as nat;
    let p = manager.positions@[position_id];
    let before = manager.positions@;
    let after = manager_after.positions@;
    lemma_books_cover_every_position(manager, markets, pool, position_id);
    lemma_size_sum_differs_at(before, after, n, every_position(), position_id);
    assert forall|market_id: u32, is_long: bool|
        markets_after.markets@.contains_key(
            market_id,
        ) implies #[trigger] markets_after.markets@[market_id].spec_open_interest(is_long)
        == size_sum(after, n, on_side(market_id, is_long)) by {
        lemma_size_sum_differs_at(before, after, n, on_side(market_id, is_long), position_id);
        assert(markets.markets@.contains_key(market_id));
        assert(markets.markets@[market_id].spec_open_interest(is_long) == size_sum(
            before,
            n,
            on_side(market_id, is_long),
        ));
    }
    assert forall|other: u64| #[trigger] after.contains_key(other) implies markets_after.markets@.contains_key(
        after[other].market_id,
    ) && pool_after.collateral_of(other) == after[other].collateral by {
        assert(before.contains_key(other));
    }
    assert forall|other: u64| #[trigger]
        pool_after.position_collateral@.contains_key(other) implies after.contains_key(other) by {
        assert(pool.position_collateral@.contains_key(other));
    }
}

/// A position that changes its size and collateral, with the change of its
/// size applied to what is reserved and to its side of its market and its
/// new collateral put on record, leaves books that agree.
pub proof fn lemma_change_keeps_books(
    manager: &PositionManager,
    markets: &MarketManager,
    pool: &LiquidityPool,
    manager_after: &PositionManager,
    markets_after: &MarketManager,
    pool_after: &LiquidityPool,
    position_id: u64,
    next: Position,
    open_interest: u128,
    reserved: u128,
)
    requires
        manager.wf(),
        markets.wf(),
        books_agree(manager, markets, pool),
        manager.positions@.contains_key(position_id),
        next.market_id == manager.positions@[position_id].market_id,
        next.is_long == manager.positions@[position_id].is_long,
        next.collateral > 0,
        manager_after.last_position_id == manager.last_position_id,
        manager_after.positions@ == manager.positions@.insert(position_id, next),
        open_interest == markets.markets@[next.market_id].spec_open_interest(next.is_long)
            - manager.positions@[position_id].size + next.size,
        reserved == pool.reserved_liquidity - manager.positions@[position_id].size + next.size,
        markets_after.is_update_of(
            markets,
            markets.markets@[next.market_id].spec_with_open_interest(next.is_long, open_interest),
        ),
        pool_after.is_position_change_of(pool, position_id, next.collateral, reserved),
    ensures
        books_agree(manager_after, markets_after, pool_after),
{
    let n = manager.last_position_id as nat;
    let before = manager.positions@;
    let after = manager_after.positions@;
    lemma_books_cover_every_position(manager, markets, pool, position_id);
    lemma_size_sum_differs_at(before, after, n, every_position(), position_id);
    assert forall|market_id: u32, is_long: bool|
        markets_after.markets@.contains_key(
            market_id,
        ) implies #[trigger] markets_after.markets@[market_id].spec_open_interest(is_long)
        == size_sum(after, n, on_side(market_id, is_long)) by {
        lemma_size_sum_differs_at(before, after, n, on_side(market_id, is_long), position_id);
        assert(markets.markets@.contains_key(market_id));
        assert(markets.markets@[market_id].spec_open_interest(is_long) == size_sum(
            before,
            n,
            on_side(market_id, is_long),
        ));
    }
    assert forall|other: u64| #[trigger] after.contains_key(other) implies markets_after.markets@.contains_key(
        after[other].market_id,
    ) && pool_after.collateral_of(other) == after[other].collateral by {
        assert(before.contains_key(other));
    }
    assert forall|other: u64| #[trigger]
        pool_after.position_collateral@.contains_key(other) implies after.contains_key(other) by {
        if other != position_id {
            assert(pool.position_collateral@.contains_key(other));
        }
    }
}

/// Whatever changes but the positions, what is reserved, what is on record
/// as collateral and the open interest of the markets that exist, leaves
/// books that agree: placing and cancelling orders, deposits and
/// withdrawals of providers, funding updates, pausing.
pub proof fn lemma_other_changes_keep_books(
    manager: &PositionManager,
    markets: &MarketManager,
    pool: &LiquidityPool,
    manager_after: &PositionManager,
    markets_after: &MarketManager,
    pool_after: &LiquidityPool,
)
    requires
        books_agree(manager, markets, pool),
        manager_after.last_position_id == manager.last_position_id,
        manager_after.positions@ == manager.positions@,
        pool_after.reserved_liquidity == pool.reserved_liquidity,
        pool_after.position_collateral@ == pool.position_collateral@,
        forall|market_id: u32| #[trigger]
            markets.markets@.contains_key(market_id) ==> markets_after.markets@.contains_key(
                market_id,
            ),
        forall|market_id: u32| #[trigger]
            markets_after.markets@.contains_key(market_id) ==> markets.markets@.contains_key(
                market_id,
            ) && markets_after.markets@[market_id].long_open_interest
                == markets.markets@[market_id].long_open_interest
                && markets_after.markets@[market_id].short_open_interest
                == markets.markets@[market_id].short_open_interest,
    ensures
        books_agree(manager_after, markets_after, pool_after),
{
    assert forall|market_id: u32, is_long: bool|
        markets_after.markets@.contains_key(
            market_id,
        ) implies #[trigger] markets_after.markets@[market_id].spec_open_interest(is_long)
        == size_sum(
        manager_after.positions@,
        manager_after.last_position_id as nat,
        on_side(market_id, is_long),
    ) by {
        assert(markets.markets@.contains_key(market_id));
        assert(markets.markets@[market_id].spec_open_interest(is_long) == size_sum(
            manager.positions@,
            manager.last_position_id as nat,
            on_side(market_id, is_long),
        ));
    }
    assert forall|id: u64| #[trigger]
        manager_after.positions@.contains_key(id) implies markets_after.markets@.contains_key(
        manager_after.positions@[id].market_id,
    ) && pool_after.collateral_of(id) == manager_after.positions@[id].collateral by {
        assert(manager.positions@.contains_key(id));
    }
}

/// A market that is created leaves books that agree: no position trades
/// it yet.
pub proof fn lemma_new_market_keeps_books(
    manager: &PositionManager,
    markets: &MarketManager,
    pool: &LiquidityPool,
    markets_after: &MarketManager,
    market: Market,
)
    requires
        manager.wf(),
        books_agree(manager, markets, pool),
        !markets.markets@.contains_key(market.market_id),
        market.long_open_interest == 0,
        market.short_open_interest == 0,
        markets_after.is_update_of(markets, market),
    ensures
        books_agree(manager, markets_after, pool),
{
    let n = manager.last_position_id as nat;
    assert forall|market_id: u32, is_long: bool|
        markets_after.markets@.contains_key(
            market_id,
        ) implies #[trigger] markets_after.markets@[market_id].spec_open_interest(is_long)
        == size_sum(manager.positions@, n, on_side(market_id, is_long)) by {
        if market_id == market.market_id {
            assert forall|id: u64| 1 <= id <= n implies #[trigger] share_of(
                manager.positions@,
                id,
                on_side(market_id, is_long),
            ) == 0 by {
                if manager.positions@.contains_key(id) {
                    assert(markets.markets@.contains_key(manager.positions@[id].market_id));
                }
            }
            lemma_size_sum_of_none(manager.positions@, n, on_side(market_id, is_long));
        } else {
            assert(markets.markets@.contains_key(market_id));
            assert(markets.markets@[market_id].spec_open_interest(is_long) == size_sum(
                manager.positions@,
                n,
                on_side(market_id, is_long),
            ));
        }
    }
    assert forall|id: u64| #[trigger]
        manager.positions@.contains_key(id) implies markets_after.markets@.contains_key(
        manager.positions@[id].market_id,
    ) && pool.collateral_of(id) == manager.positions@[id].collateral by {
        assert(markets.markets@.contains_key(manager.positions@[id].market_id));
    }
}

/// Where the books agree, a position is never kept from closing or from
/// being liquidated by the books themselves: its market exists, what is
/// reserved and the open interest cover its size, and its collateral is on
/// record.
pub proof fn lemma_books_never_refuse_leaving(
    manager: &PositionManager,
    config: &ConfigManager,
    oracle: &OracleIntegrator,
    markets: &MarketManager,
    pool: &LiquidityPool,
    token: &FaucetToken,
    now: u64,
    caller: Principal,
    position_id: u64,
)
    requires
        manager.wf(),
        books_agree(manager, markets, pool),
    ensures
        ({
            let closed = manager.close_position_result(
                config,
                oracle,
                markets,
                pool,
                token,
                now,
                caller,
                position_id,
            );
            let liquidated = manager.liquidation_result(
                config,
                oracle,
                markets,
                pool,
                token,
                now,
                caller,
                position_id,
            );
            &&& closed != Err::<i128, Error>(Error::MarketNotFound)
            &&& closed != Err::<i128, Error>(Error::InsufficientReserved)
            &&& closed != Err::<i128, Error>(Error::OpenInterestUnderflow)
            &&& closed != Err::<i128, Error>(Error::InsufficientCollateral)
            &&& closed != Err::<i128, Error>(Error::OrderNotFound)
            &&& liquidated != Err::<u128, Error>(Error::MarketNotFound)
            &&& liquidated != Err::<u128, Error>(Error::InsufficientReserved)
            &&& liquidated != Err::<u128, Error>(Error::OpenInterestUnderflow)
            &&& liquidated != Err::<u128, Error>(Error::InsufficientCollateral)
            &&& liquidated != Err::<u128, Error>(Error::OrderNotFound)
        }),
{
    if manager.positions@.contains_key(position_id) {
        lemma_books_cover_every_position(manager, markets, pool, position_id);
    }
}

/// What the waiting orders with identifiers up to `n` have in escrow, added
/// up.
pub open spec fn escrow_sum(orders: Map<u64, Order>, n: nat) -> int
    decreases n,
{
    if n == 0 {
        0
    } else {
        escrow_sum(orders, (n - 1) as nat) + escrow_of(orders, n as u64)
    }
}

/// What the order `id` has in escrow, nothing where no such order waits.
pub open spec fn escrow_of(orders: Map<u64, Order>, id: u64) -> int {
    if orders.contains_key(id) {
        orders[id].spec_escrow()
    } else {
        0
    }
}

/// Orders that have the same in escrow under every identifier up to `n`
/// have the same in escrow together.
pub proof fn lemma_escrow_sum_agrees(a: Map<u64, Order>, b: Map<u64, Order>, n: nat)
    requires
        n <= u64::MAX,
        forall|id: u64| 1 <= id <= n ==> #[trigger] escrow_of(a, id) == escrow_of(b, id),
    ensures
        escrow_sum(a, n) == escrow_sum(b, n),
    decreases n,
{
    if n > 0 {
        lemma_escrow_sum_agrees(a, b, (n - 1) as nat);
    }
}

/// Orders that have the same in escrow under every identifier up to `n`
/// but `id` have the same in escrow together, but for what `id` has.
pub proof fn lemma_escrow_sum_differs_at(a: Map<u64, Order>, b: Map<u64, Order>, n: nat, id: u64)
    requires
        n <= u64::MAX,
        1 <= id <= n,
        forall|other: u64|
            1 <= other <= n && other != id ==> #[trigger] escrow_of(a, other) == escrow_of(
                b,
                other,
            ),
    ensures
        escrow_sum(b, n) == escrow_sum(a, n) - escrow_of(a, id) + escrow_of(b, id),
    decreases n,
{
    if n == id {
        lemma_escrow_sum_agrees(a, b, (n - 1) as nat);
    } else {
        lemma_escrow_sum_differs_at(a, b, (n - 1) as nat, id);
    }
}

/// Taking the orders that close a position off the book takes off what
/// they have in escrow: their execution fees.
pub proof fn lemma_escrow_sum_without_attached(
    orders: Map<u64, Order>,
    n: nat,
    position_id: u64,
    executing: u64,
)
    requires
        n <= u64::MAX,
        position_id >= 1,
        forall|id: u64| #[trigger] orders.contains_key(id) ==> orders[id].wf(),
    ensures
        escrow_sum(orders.remove_keys(attached(orders, position_id)), n) == escrow_sum(orders, n)
            - refund_total(orders, position_id, executing, n) - (if 1 <= executing <= n
            && attached(orders, position_id).contains(executing) {
            orders[executing].execution_fee as int
        } else {
            0
        }),
    decreases n,
{
    if n > 0 {
        lemma_escrow_sum_without_attached(orders, (n - 1) as nat, position_id, executing);
        let id = n as u64;
        if orders.contains_key(id) {
            assert(orders[id].wf());
        }
    }
}

/// Whether what the waiting orders have in escrow is there: the manager's
/// account holds at least as much.
pub open spec fn escrow_covered(manager: &PositionManager, token: &FaucetToken) -> bool {
    token.balance_of(manager.address) >= escrow_sum(
        manager.orders@,
        manager.last_order_id as nat,
    )
}

/// What the orders have in escrow is never less than nothing, and never
/// less than what one of them has.
pub proof fn lemma_escrow_sum_covers(orders: Map<u64, Order>, n: nat, id: u64)
    requires
        n <= u64::MAX,
    ensures
        0 <= escrow_sum(orders, n),
        1 <= id <= n ==> escrow_of(orders, id) <= escrow_sum(orders, n),
    decreases n,
{
    if n > 0 {
        lemma_escrow_sum_covers(orders, (n - 1) as nat, id);
    }
}

/// Taking the executing order off the book and setting the orders of its
/// position to a new size takes off what the executing order has in escrow,
/// and nothing else.
pub proof fn lemma_reduction_keeps_escrow(
    orders: Map<u64, Order>,
    after: Map<u64, Order>,
    n: nat,
    position_id: u64,
    new_size: u128,
    executing: u64,
)
    requires
        n <= u64::MAX,
        forall|id: u64| #[trigger] orders.contains_key(id) ==> 1 <= id <= n,
        after == rescaled(orders.remove(executing), position_id, new_size),
    ensures
        escrow_sum(after, n) == escrow_sum(orders, n) - escrow_of(orders, executing),
{
    assert forall|id: u64| 1 <= id <= n && id != executing implies #[trigger] escrow_of(
        orders,
        id,
    ) == escrow_of(after, id) by {}
    if 1 <= executing <= n {
        lemma_escrow_sum_differs_at(orders, after, n, executing);
    } else {
        lemma_escrow_sum_agrees(orders, after, n);
    }
}

/// Where what the orders have in escrow is there, no order is kept from
/// being cancelled, and no position from closing or being liquidated, for
/// want of it.
pub proof fn lemma_escrow_is_there_to_refund(
    manager: &PositionManager,
    config: &ConfigManager,
    oracle: &OracleIntegrator,
    markets: &MarketManager,
    pool: &LiquidityPool,
    token: &FaucetToken,
    now: u64,
    caller: Principal,
    order_id: u64,
    position_id: u64,
)
    requires
        manager.wf(),
        escrow_covered(manager, token),
    ensures
        manager.cancel_check(token, caller, order_id) != Err::<(), Error>(
            Error::InsufficientBalance,
        ),
        manager.expiry_check(token, now, order_id) != Err::<(), Error>(Error::InsufficientBalance),
        manager.close_position_result(
            config,
            oracle,
            markets,
            pool,
            token,
            now,
            caller,
            position_id,
        ) != Err::<i128, Error>(Error::InsufficientBalance),
        manager.liquidation_result(
            config,
            oracle,
            markets,
            pool,
            token,
            now,
            caller,
            position_id,
        ) != Err::<u128, Error>(Error::InsufficientBalance),
{
    let n = manager.last_order_id as nat;
    lemma_escrow_sum_covers(manager.orders@, n, order_id);
    if manager.positions@.contains_key(position_id) {
        lemma_escrow_sum_without_attached(manager.orders@, n, position_id, 0);
        lemma_escrow_sum_covers(
            manager.orders@.remove_keys(attached(manager.orders@, position_id)),
            n,
            0,
        );
    }
}

} // verus!
