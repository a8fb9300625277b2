#![allow(dead_code)]

use stellars_perps::config::{ConfigManager, Parameter};
use stellars_perps::error::Error;
use stellars_perps::manager::PositionManager;
use stellars_perps::market::MarketManager;
use stellars_perps::oracle::OracleIntegrator;
use stellars_perps::order::Order;
use stellars_perps::pool::LiquidityPool;
use stellars_perps::position::Position;
use stellars_perps::principal::Principal;
use stellars_perps::token::FaucetToken;

const ADMIN: u64 = 1;
const CONFIG: u64 = 10;
const ORACLE: u64 = 11;
const MARKETS: u64 = 12;
const POOL: u64 = 13;
const MANAGER: u64 = 14;
const TOKEN: u64 = 15;

/// All components of the venue, wired together, and a clock.
struct World {
    config: ConfigManager,
    oracle: OracleIntegrator,
    markets: MarketManager,
    pool: LiquidityPool,
    manager: PositionManager,
    token: FaucetToken,
    admin: Principal,
    traders: Vec<Principal>,
    lps: Vec<Principal>,
    now: u64,
}

impl World {
    fn new(
        num_traders: u64,
        num_lps: u64,
        trader_balance: i128,
        lp_balance: i128,
        pool_liquidity: i128,
        btc_price: i128,
        eth_price: i128,
    ) -> World {
        let admin = Principal::new(ADMIN);
        let mut token = FaucetToken::new();
        token.initialize(String::from("Test USDC"), String::from("USDC"), 7).unwrap();

        let mut config = ConfigManager::new();
        config.initialize(admin).unwrap();

        let mut oracle = OracleIntegrator::new();
        oracle.initialize(Principal::new(CONFIG));
        oracle.set_price(&config, admin, 0, 100_000_000).unwrap();
        oracle.set_price(&config, admin, 1, btc_price).unwrap();
        oracle.set_price(&config, admin, 2, eth_price).unwrap();

        let mut markets = MarketManager::new();
        markets.initialize(Principal::new(CONFIG), admin).unwrap();

        let mut pool = LiquidityPool::new(Principal::new(POOL));
        pool.initialize(admin, Principal::new(CONFIG), Principal::new(TOKEN)).unwrap();

        let mut manager = PositionManager::new(Principal::new(MANAGER));
        manager.initialize(admin, Principal::new(CONFIG)).unwrap();

        config.set_oracle_integrator(admin, Principal::new(ORACLE)).unwrap();
        config.set_market_manager(admin, Principal::new(MARKETS)).unwrap();
        config.set_liquidity_pool(admin, Principal::new(POOL)).unwrap();
        config.set_position_manager(admin, Principal::new(MANAGER)).unwrap();
        config.set_token(admin, Principal::new(TOKEN)).unwrap();

        markets.set_position_manager(admin, Principal::new(MANAGER)).unwrap();
        pool.set_position_manager(admin, Principal::new(MANAGER)).unwrap();

        markets.create_market(admin, 0, 1_000_000_000_000, 10000, 0).unwrap();
        markets.create_market(admin, 1, 1_000_000_000_000, 10000, 0).unwrap();
        markets.create_market(admin, 2, 1_000_000_000_000, 10000, 0).unwrap();

        let mut traders = Vec::new();
        for i in 0..num_traders {
            let trader = Principal::new(100 + i);
            token.mint(trader, trader_balance).unwrap();
            traders.push(trader);
        }
        let mut lps = Vec::new();
        for i in 0..num_lps {
            let lp = Principal::new(200 + i);
            token.mint(lp, lp_balance).unwrap();
            lps.push(lp);
        }

        token.mint(admin, pool_liquidity).unwrap();
        pool.deposit(&mut token, admin, pool_liquidity).unwrap();

        World { config, oracle, markets, pool, manager, token, admin, traders, lps, now: 0 }
    }

    /// One trader with 10,000 tokens, and 100,000 tokens in the pool.
    fn unit() -> World {
        World::new(1, 0, 10_000_000_000, 0, 100_000_000_000, 50_000_000_000, 3_000_000_000)
    }

    /// Five traders, two providers, a million tokens in the pool.
    fn focused() -> World {
        World::new(
            5,
            2,
            10_000_000_000,
            100_000_000_000,
            1_000_000_000_000,
            50_000_000_000_000,
            3_000_000_000_000,
        )
    }

    /// Twenty traders, five providers, ten million tokens in the pool.
    fn stress() -> World {
        World::new(
            20,
            5,
            10_000_000_000,
            100_000_000_000,
            10_000_000_000_000,
            50_000_000_000_000,
            3_000_000_000_000,
        )
    }

    fn trader(&self) -> Principal {
        self.traders[0]
    }

    fn pool_address(&self) -> Principal {
        Principal::new(POOL)
    }

    fn manager_address(&self) -> Principal {
        Principal::new(MANAGER)
    }

    fn newcomer(&mut self, id: u64, balance: i128) -> Principal {
        let p = Principal::new(id);
        if balance > 0 {
            self.token.mint(p, balance).unwrap();
        }
        p
    }

    fn balance(&self, who: Principal) -> i128 {
        self.token.balance(who)
    }

    fn set_price(&mut self, market_id: u32, price: i128) {
        self.oracle.set_price(&self.config, self.admin, market_id, price).unwrap();
    }

    fn advance(&mut self, seconds: u64) {
        self.now += seconds;
    }

    fn update_funding(&mut self, market_id: u32) -> Result<(), Error> {
        self.markets.update_funding_rate(&self.config, market_id, self.now)
    }

    fn open(
        &mut self,
        trader: Principal,
        market_id: u32,
        collateral: u128,
        leverage: u32,
        is_long: bool,
    ) -> Result<u64, Error> {
        self.manager.open_position(
            &self.config,
            &self.oracle,
            &mut self.markets,
            &mut self.pool,
            &mut self.token,
            self.now,
            trader,
            market_id,
            collateral,
            leverage,
            is_long,
        )
    }

    fn close(&mut self, trader: Principal, position_id: u64) -> Result<i128, Error> {
        self.manager.close_position(
            &self.config,
            &self.oracle,
            &mut self.markets,
            &mut self.pool,
            &mut self.token,
            self.now,
            trader,
            position_id,
        )
    }

    fn liquidate(&mut self, keeper: Principal, position_id: u64) -> Result<u128, Error> {
        self.manager.liquidate_position(
            &self.config,
            &self.oracle,
            &mut self.markets,
            &mut self.pool,
            &mut self.token,
            self.now,
            keeper,
            position_id,
        )
    }

    fn increase(
        &mut self,
        trader: Principal,
        position_id: u64,
        collateral: i128,
        size: i128,
    ) -> Result<(), Error> {
        self.manager.increase_position(
            &self.config,
            &self.oracle,
            &mut self.markets,
            &mut self.pool,
            &mut self.token,
            self.now,
            trader,
            position_id,
            collateral,
            size,
        )
    }

    fn decrease(
        &mut self,
        trader: Principal,
        position_id: u64,
        collateral: i128,
        size: i128,
    ) -> Result<i128, Error> {
        self.manager.decrease_position(
            &self.config,
            &self.oracle,
            &mut self.markets,
            &mut self.pool,
            &mut self.token,
            self.now,
            trader,
            position_id,
            collateral,
            size,
        )
    }

    fn pnl(&self, position_id: u64) -> Result<i128, Error> {
        self.manager.calculate_pnl(&self.config, &self.oracle, &self.markets, position_id, self.now)
    }

    fn position(&self, position_id: u64) -> Result<Position, Error> {
        self.manager.get_position(position_id)
    }

    fn positions_of(&self, trader: Principal) -> Vec<u64> {
        self.manager.get_user_open_positions(trader)
    }

    fn limit_order(
        &mut self,
        trader: Principal,
        market_id: u32,
        trigger_price: i128,
        acceptable_price: i128,
        collateral: u128,
        leverage: u32,
        is_long: bool,
        execution_fee: u128,
        expiration: u64,
    ) -> Result<u64, Error> {
        self.manager.create_limit_order(
            &self.config,
            &mut self.token,
            self.now,
            trader,
            market_id,
            trigger_price,
            acceptable_price,
            collateral,
            leverage,
            is_long,
            execution_fee,
            expiration,
        )
    }

    fn stop_loss(
        &mut self,
        trader: Principal,
        position_id: u64,
        trigger_price: i128,
        acceptable_price: i128,
        close_percentage: u32,
        execution_fee: u128,
        expiration: u64,
    ) -> Result<u64, Error> {
        self.manager.create_stop_loss(
            &self.config,
            &self.oracle,
            &mut self.token,
            self.now,
            trader,
            position_id,
            trigger_price,
            acceptable_price,
            close_percentage,
            execution_fee,
            expiration,
        )
    }

    fn take_profit(
        &mut self,
        trader: Principal,
        position_id: u64,
        trigger_price: i128,
        acceptable_price: i128,
        close_percentage: u32,
        execution_fee: u128,
        expiration: u64,
    ) -> Result<u64, Error> {
        self.manager.create_take_profit(
            &self.config,
            &self.oracle,
            &mut self.token,
            self.now,
            trader,
            position_id,
            trigger_price,
            acceptable_price,
            close_percentage,
            execution_fee,
            expiration,
        )
    }

    fn execute(&mut self, keeper: Principal, order_id: u64) -> Result<i128, Error> {
        self.manager.execute_order(
            &self.config,
            &self.oracle,
            &mut self.markets,
            &mut self.pool,
            &mut self.token,
            self.now,
            keeper,
            order_id,
        )
    }

    fn cancel(&mut self, trader: Principal, order_id: u64) -> Result<(), Error> {
        self.manager.cancel_order(&mut self.token, trader, order_id)
    }

    fn can_execute(&self, order_id: u64) -> bool {
        self.manager.can_execute_order(&self.oracle, &self.markets, self.now, order_id)
    }

    fn order(&self, order_id: u64) -> Result<Order, Error> {
        self.manager.get_order(order_id)
    }

    fn open_interest(&self, market_id: u32) -> (u128, u128) {
        self.markets.get_open_interest(market_id).unwrap()
    }

    fn reserved(&self) -> u128 {
        self.pool.get_reserved_liquidity()
    }

    fn available(&self) -> i128 {
        self.pool.get_available_liquidity(&self.token).unwrap()
    }

    fn utilization(&self) -> u128 {
        self.pool.get_utilization_ratio(&self.token).unwrap()
    }

    fn set_parameter(&mut self, which: Parameter, value: i128) {
        self.config.set_parameter(self.admin, which, value).unwrap();
    }
}

const ORDER_EXECUTION_FEE: u128 = 1_000_000;
const COLLATERAL: u128 = 1_000_000_000;
const LEVERAGE: u32 = 10;
const CLOSE_FULL: u32 = 10000;

fn advance_funding_interval(w: &mut World) {
    w.advance(60);
}

fn advance_funding_intervals(w: &mut World, count: u64) {
    w.advance(60 * count);
}

fn assert_pool_consistency(w: &World, expected_reserved: u128) {
    let reserved = w.reserved();
    let available = w.available();
    assert_eq!(
        reserved, expected_reserved,
        "Reserved liquidity mismatch: expected {}, got {}",
        expected_reserved, reserved
    );
    assert!(available >= 0, "Available liquidity must be non-negative, got {}", available);
}

fn assert_market_oi(w: &World, market_id: u32, expected_long_oi: u128, expected_short_oi: u128) {
    let (long_oi, short_oi) = w.open_interest(market_id);
    assert_eq!(long_oi, expected_long_oi, "Long OI mismatch for market {}", market_id);
    assert_eq!(short_oi, expected_short_oi, "Short OI mismatch for market {}", market_id);
}

fn assert_user_positions_tracked(w: &World, user: Principal, expected_count: usize) {
    let positions = w.positions_of(user);
    assert_eq!(positions.len(), expected_count, "User position count mismatch");
}

fn assert_user_orders_count(w: &World, user: Principal, expected_count: usize) {
    let orders = w.manager.get_user_orders(user);
    assert_eq!(orders.len(), expected_count, "User order count mismatch");
}

fn assert_position_orders_count(w: &World, position_id: u64, expected_count: usize) {
    let orders = w.manager.get_position_orders(position_id);
    assert_eq!(orders.len(), expected_count, "Position {} order count mismatch", position_id);
}

fn assert_order_executable(w: &World, order_id: u64, should_be_executable: bool) {
    assert_eq!(
        w.can_execute(order_id),
        should_be_executable,
        "Order {} executability mismatch",
        order_id
    );
}

fn create_test_limit_order(
    w: &mut World,
    trader: Principal,
    market_id: u32,
    trigger_price: i128,
    collateral: u128,
    leverage: u32,
    is_long: bool,
) -> u64 {
    w.limit_order(
        trader,
        market_id,
        trigger_price,
        0,
        collateral,
        leverage,
        is_long,
        ORDER_EXECUTION_FEE,
        0,
    )
    .unwrap()
}

fn create_test_stop_loss(
    w: &mut World,
    trader: Principal,
    position_id: u64,
    trigger_price: i128,
    close_percentage: u32,
) -> u64 {
    w.stop_loss(trader, position_id, trigger_price, 0, close_percentage, ORDER_EXECUTION_FEE, 0)
        .unwrap()
}

fn create_test_take_profit(
    w: &mut World,
    trader: Principal,
    position_id: u64,
    trigger_price: i128,
    close_percentage: u32,
) -> u64 {
    w.take_profit(trader, position_id, trigger_price, 0, close_percentage, ORDER_EXECUTION_FEE, 0)
        .unwrap()
}

#[test]
fn test_full_trading_lifecycle_5_users() {
    let mut w = World::focused();

    let market_id = 0u32;
    let collateral = 2_000_000_000u128;
    let leverage = 15u32;

    let mut position_ids = Vec::new();
    for i in 0..5 {
        let trader = w.traders[i];
        let is_long = (i % 2) == 0;
        let pos_id = w.open(trader, market_id, collateral, leverage, is_long).unwrap();
        position_ids.push(pos_id);
    }

    for i in 0..5 {
        assert_user_positions_tracked(&w, w.traders[i], 1);
    }

    for _ in 0..60 {
        advance_funding_interval(&mut w);
        w.update_funding(market_id).unwrap();
    }

    for i in 0..2 {
        let trader = w.traders[i];
        w.close(trader, position_ids[i]).unwrap();
    }

    assert_user_positions_tracked(&w, w.traders[0], 0);
    assert_user_positions_tracked(&w, w.traders[1], 0);
    assert_user_positions_tracked(&w, w.traders[2], 1);

    for i in 2..5 {
        let trader = w.traders[i];
        w.close(trader, position_ids[i]).unwrap();
    }

    for i in 0..5 {
        assert_user_positions_tracked(&w, w.traders[i], 0);
    }

    let final_reserved = w.reserved();
    assert_eq!(final_reserved, 0, "All liquidity should be released");

    let (long_oi, short_oi) = w.open_interest(market_id);
    assert_eq!(long_oi, 0, "Long OI should be zero");
    assert_eq!(short_oi, 0, "Short OI should be zero");
}

#[test]
fn test_multi_market_concurrent_trading() {
    let mut w = World::focused();

    let collateral = 1_000_000_000u128;
    let leverage = 10u32;

    let markets = [0u32, 1u32, 2u32, 0u32, 1u32];

    for i in 0..5 {
        let trader = w.traders[i];
        w.open(trader, markets[i], collateral, leverage, true).unwrap();
    }

    let expected_oi = collateral * (leverage as u128);

    let (xlm_long_oi, _) = w.open_interest(0u32);
    assert_eq!(xlm_long_oi, expected_oi * 2, "XLM should have 2 positions");

    let (btc_long_oi, _) = w.open_interest(1u32);
    assert_eq!(btc_long_oi, expected_oi * 2, "BTC should have 2 positions");

    let (eth_long_oi, _) = w.open_interest(2u32);
    assert_eq!(eth_long_oi, expected_oi, "ETH should have 1 position");

    for i in 0..5 {
        let trader = w.traders[i];
        let user_positions = w.positions_of(trader);
        w.close(trader, user_positions[0]).unwrap();
    }

    for market_id in 0..3 {
        let (long_oi, short_oi) = w.open_interest(market_id);
        assert_eq!(long_oi, 0, "Market {} long OI should be zero", market_id);
        assert_eq!(short_oi, 0, "Market {} short OI should be zero", market_id);
    }
}

#[test]
fn test_stress_concurrent_operations_20_users() {
    let mut w = World::stress();

    let collateral = 1_000_000_000u128;
    let leverage = 10u32;

    for _ in 0..2 {
        for i in 0..20 {
            let trader = w.traders[i];
            let market_id = (i % 3) as u32;
            let is_long = (i % 2) == 0;
            w.open(trader, market_id, collateral, leverage, is_long).unwrap();
        }
    }

    for i in 0..20 {
        assert_user_positions_tracked(&w, w.traders[i], 2);
    }

    for i in 0..20 {
        let trader = w.traders[i];
        let user_positions = w.positions_of(trader);
        w.close(trader, user_positions[0]).unwrap();
    }

    for i in 0..20 {
        assert_user_positions_tracked(&w, w.traders[i], 1);
    }

    for i in 0..20 {
        let trader = w.traders[i];
        let user_positions = w.positions_of(trader);
        w.close(trader, user_positions[0]).unwrap();
    }

    for i in 0..20 {
        assert_user_positions_tracked(&w, w.traders[i], 0);
    }

    let final_reserved = w.reserved();
    assert_eq!(final_reserved, 0, "All liquidity should be released");
}

#[test]
fn test_liquidation_and_trading_workflow() {
    let mut w = World::focused();

    let market_id = 0u32;
    let collateral = 1_000_000_000u128;
    let high_leverage = 20u32;
    let safe_leverage = 5u32;

    let risky_trader = w.traders[0];
    let risky_pos_id = w.open(risky_trader, market_id, collateral, high_leverage, true).unwrap();

    for i in 1..4 {
        let trader = w.traders[i];
        w.open(trader, market_id, collateral, safe_leverage, true).unwrap();
    }

    let extra_trader = w.traders[4];
    w.open(extra_trader, market_id, collateral, high_leverage, true).unwrap();

    for _ in 0..10000 {
        advance_funding_interval(&mut w);
        w.update_funding(market_id).unwrap();
    }

    let keeper = w.lps[0];
    let reward = w.liquidate(keeper, risky_pos_id).unwrap();
    assert!(reward > 0, "Keeper should receive reward");

    assert_user_positions_tracked(&w, risky_trader, 0);

    for i in 1..4 {
        let trader = w.traders[i];
        let user_positions = w.positions_of(trader);
        w.close(trader, user_positions[0]).unwrap();
    }

    let extra_positions = w.positions_of(extra_trader);
    w.close(extra_trader, extra_positions[0]).unwrap();

    let (final_long_oi, final_short_oi) = w.open_interest(market_id);
    assert_eq!(final_long_oi, 0, "All positions should be closed");
    assert_eq!(final_short_oi, 0, "All positions should be closed");
}

#[test]
fn test_lp_operations_during_trading() {
    let mut w = World::focused();

    let market_id = 0u32;
    let collateral = 1_000_000_000u128;
    let leverage = 10u32;

    for i in 0..3 {
        let trader = w.traders[i];
        w.open(trader, market_id, collateral, leverage, true).unwrap();
    }

    let initial_available = w.available();

    for i in 0..2 {
        let lp = w.lps[i];
        w.pool.deposit(&mut w.token, lp, 50_000_000_000).unwrap();
    }

    let after_deposit_available = w.available();
    assert!(after_deposit_available > initial_available, "Available liquidity should increase");

    for i in 3..5 {
        let trader = w.traders[i];
        w.open(trader, market_id, collateral, leverage, true).unwrap();
    }

    for i in 0..5 {
        let trader = w.traders[i];
        let user_positions = w.positions_of(trader);
        w.close(trader, user_positions[0]).unwrap();
    }

    let final_reserved = w.reserved();
    assert_eq!(final_reserved, 0, "No liquidity should be reserved");
}

#[test]
fn test_concurrent_position_opens() {
    let mut w = World::focused();

    let market_id = 0u32;
    let collateral = 1_000_000_000u128;
    let leverage = 10u32;

    let mut position_ids = Vec::new();
    for i in 0..5 {
        let trader = w.traders[i];
        let position_id = w.open(trader, market_id, collateral, leverage, true).unwrap();
        position_ids.push(position_id);
    }

    for i in 0..5 {
        assert_eq!(position_ids[i], (i + 1) as u64);
    }

    for i in 0..5 {
        assert_user_positions_tracked(&w, w.traders[i], 1);
    }

    let expected_oi = collateral * (leverage as u128) * 5;
    assert_market_oi(&w, market_id, expected_oi, 0);
}

#[test]
fn test_concurrent_long_short_same_market() {
    let mut w = World::focused();

    let market_id = 0u32;
    let collateral = 1_000_000_000u128;
    let leverage = 10u32;

    let mut long_positions = Vec::new();
    for i in 0..3 {
        let trader = w.traders[i];
        let pos_id = w.open(trader, market_id, collateral, leverage, true).unwrap();
        long_positions.push(pos_id);
    }

    let mut short_positions = Vec::new();
    for i in 3..5 {
        let trader = w.traders[i];
        let pos_id = w.open(trader, market_id, collateral, leverage, false).unwrap();
        short_positions.push(pos_id);
    }

    let expected_long_oi = collateral * (leverage as u128) * 3;
    let expected_short_oi = collateral * (leverage as u128) * 2;
    assert_market_oi(&w, market_id, expected_long_oi, expected_short_oi);

    for i in 0..5 {
        assert_user_positions_tracked(&w, w.traders[i], 1);
    }

    assert_eq!(long_positions.len(), 3);
    assert_eq!(short_positions.len(), 2);
}

#[test]
fn test_interleaved_open_close() {
    let mut w = World::focused();

    let market_id = 0u32;
    let collateral = 1_000_000_000u128;
    let leverage = 10u32;

    let trader0 = w.traders[0];
    let pos0 = w.open(trader0, market_id, collateral, leverage, true).unwrap();

    let trader1 = w.traders[1];
    let pos1 = w.open(trader1, market_id, collateral, leverage, true).unwrap();

    w.close(trader0, pos0).unwrap();

    let trader2 = w.traders[2];
    let pos2 = w.open(trader2, market_id, collateral, leverage, false).unwrap();

    w.close(trader1, pos1).unwrap();

    assert_user_positions_tracked(&w, trader0, 0);
    assert_user_positions_tracked(&w, trader1, 0);
    assert_user_positions_tracked(&w, trader2, 1);

    w.close(trader2, pos2).unwrap();
    assert_user_positions_tracked(&w, trader2, 0);
}

#[test]
fn test_position_id_uniqueness() {
    let mut w = World::focused();

    let market_id = 0u32;
    let collateral = 1_000_000_000u128;
    let leverage = 10u32;

    let mut all_position_ids = Vec::new();
    for i in 0..10 {
        let trader = w.traders[i % 5];
        let pos_id = w.open(trader, market_id, collateral, leverage, true).unwrap();
        all_position_ids.push(pos_id);
    }

    for i in 0..10 {
        assert_eq!(all_position_ids[i], (i + 1) as u64);
    }

    for i in 0..5 {
        assert_user_positions_tracked(&w, w.traders[i], 2);
    }
}

#[test]
fn test_concurrent_different_markets() {
    let mut w = World::focused();

    let collateral = 1_000_000_000u128;
    let leverage = 10u32;

    let trader0 = w.traders[0];
    w.open(trader0, 0u32, collateral, leverage, true).unwrap();

    let trader1 = w.traders[1];
    w.open(trader1, 1u32, collateral, leverage, true).unwrap();

    let trader2 = w.traders[2];
    w.open(trader2, 2u32, collateral, leverage, false).unwrap();

    let trader3 = w.traders[3];
    w.open(trader3, 0u32, collateral, leverage, false).unwrap();

    let trader4 = w.traders[4];
    w.open(trader4, 1u32, collateral, leverage, true).unwrap();

    let expected_oi = collateral * (leverage as u128);

    assert_market_oi(&w, 0u32, expected_oi, expected_oi);
    assert_market_oi(&w, 1u32, expected_oi * 2, 0);
    assert_market_oi(&w, 2u32, 0, expected_oi);

    for i in 0..5 {
        assert_user_positions_tracked(&w, w.traders[i], 1);
    }
}

#[test]
fn test_funding_accumulation_over_time() {
    let mut w = World::focused();

    let market_id = 0u32;
    let collateral = 1_000_000_000u128;
    let leverage = 10u32;

    let mut long_ids = Vec::new();
    for i in 0..3 {
        let trader = w.traders[i];
        let pos_id = w.open(trader, market_id, collateral, leverage, true).unwrap();
        long_ids.push(pos_id);
    }

    let trader_short = w.traders[3];
    let short_id = w.open(trader_short, market_id, collateral, leverage, false).unwrap();

    for _ in 0..10 {
        advance_funding_interval(&mut w);
        w.update_funding(market_id).unwrap();
    }

    let trader0 = w.traders[0];
    let long_pnl = w.close(trader0, long_ids[0]).unwrap();

    assert!(long_pnl <= 0, "Long position should have neutral or negative PnL due to funding");

    let short_pnl = w.close(trader_short, short_id).unwrap();
    assert!(short_pnl >= 0, "Short position should have neutral or positive PnL from funding");
}

#[test]
fn test_funding_long_heavy_market() {
    let mut w = World::focused();

    let market_id = 0u32;
    let collateral = 1_000_000_000u128;
    let leverage = 10u32;

    for i in 0..4 {
        let trader = w.traders[i];
        w.open(trader, market_id, collateral, leverage, true).unwrap();
    }

    let trader_short = w.traders[4];
    let short_id = w.open(trader_short, market_id, collateral, leverage, false).unwrap();

    let initial_funding_long = w.markets.get_cumulative_funding(market_id, true).unwrap();
    let initial_funding_short = w.markets.get_cumulative_funding(market_id, false).unwrap();

    for _ in 0..20 {
        advance_funding_interval(&mut w);
        w.update_funding(market_id).unwrap();
    }

    let updated_funding_long = w.markets.get_cumulative_funding(market_id, true).unwrap();
    let updated_funding_short = w.markets.get_cumulative_funding(market_id, false).unwrap();

    // Only the side that pays is charged: the longs' accumulator rises, the
    // shorts' stays where it was.
    assert!(
        updated_funding_long >= initial_funding_long,
        "Long cumulative funding should increase as longs pay"
    );
    assert!(
        updated_funding_short == initial_funding_short,
        "Short cumulative funding should stay same (shorts don't pay in long-heavy market)"
    );

    let short_pnl = w.close(trader_short, short_id).unwrap();
    assert!(short_pnl >= 0, "Short should have profit from funding in long-heavy market");
}

#[test]
fn test_funding_balanced_market() {
    let mut w = World::focused();

    let market_id = 0u32;
    let collateral = 1_000_000_000u128;
    let leverage = 10u32;

    let mut long_ids = Vec::new();
    for i in 0..2 {
        let trader = w.traders[i];
        let pos_id = w.open(trader, market_id, collateral, leverage, true).unwrap();
        long_ids.push(pos_id);
    }

    let mut short_ids = Vec::new();
    for i in 2..4 {
        let trader = w.traders[i];
        let pos_id = w.open(trader, market_id, collateral, leverage, false).unwrap();
        short_ids.push(pos_id);
    }

    let initial_funding_long = w.markets.get_cumulative_funding(market_id, true).unwrap();
    let initial_funding_short = w.markets.get_cumulative_funding(market_id, false).unwrap();

    for _ in 0..10 {
        advance_funding_interval(&mut w);
        w.update_funding(market_id).unwrap();
    }

    let updated_funding_long = w.markets.get_cumulative_funding(market_id, true).unwrap();
    let updated_funding_short = w.markets.get_cumulative_funding(market_id, false).unwrap();

    let long_funding_change = (updated_funding_long - initial_funding_long).abs();
    let short_funding_change = (updated_funding_short - initial_funding_short).abs();

    assert!(long_funding_change <= 100, "Long funding change should be minimal in balanced market");
    assert!(
        short_funding_change <= 100,
        "Short funding change should be minimal in balanced market"
    );
}

#[test]
fn test_funding_realization_on_close() {
    let mut w = World::focused();

    let market_id = 0u32;
    let collateral = 1_000_000_000u128;
    let leverage = 10u32;

    for i in 0..3 {
        let trader = w.traders[i];
        w.open(trader, market_id, collateral, leverage, true).unwrap();
    }

    let trader_short = w.traders[3];
    let short_id = w.open(trader_short, market_id, collateral, leverage, false).unwrap();

    for _ in 0..30 {
        advance_funding_interval(&mut w);
        w.update_funding(market_id).unwrap();
    }

    let short_pnl = w.close(trader_short, short_id).unwrap();

    assert!(short_pnl >= 0, "Short PnL should include positive funding component");
}

#[test]
fn test_multiple_funding_intervals() {
    let mut w = World::focused();

    let market_id = 0u32;
    let collateral = 1_000_000_000u128;
    let leverage = 10u32;

    for i in 0..3 {
        let trader = w.traders[i];
        w.open(trader, market_id, collateral, leverage, true).unwrap();
    }

    let trader_short = w.traders[3];
    let short_id = w.open(trader_short, market_id, collateral, leverage, false).unwrap();

    let mut funding_snapshots = Vec::new();
    funding_snapshots.push(w.markets.get_cumulative_funding(market_id, false).unwrap());

    for _ in 0..5 {
        advance_funding_interval(&mut w);
        w.update_funding(market_id).unwrap();
        funding_snapshots.push(w.markets.get_cumulative_funding(market_id, false).unwrap());
    }

    let first_snapshot = funding_snapshots[0];
    let last_snapshot = funding_snapshots[5];

    assert!(last_snapshot >= first_snapshot, "Cumulative funding should accumulate over time");

    let short_pnl = w.close(trader_short, short_id).unwrap();
    assert!(short_pnl >= 0, "Short should profit from funding");
}

#[test]
fn test_liquidation_with_funding_payments() {
    let mut w = World::focused();

    let market_id = 0u32;
    let collateral = 1_000_000_000u128;
    let leverage = 20u32;

    let trader = w.traders[0];
    let keeper = w.traders[1];

    let position_id = w.open(trader, market_id, collateral, leverage, true).unwrap();

    for i in 2..5 {
        let other_trader = w.traders[i];
        w.open(other_trader, market_id, collateral, leverage, true).unwrap();
    }

    let initial_reserved = w.reserved();

    advance_funding_intervals(&mut w, 10000);
    w.update_funding(market_id).unwrap();

    let position_before = w.position(position_id).unwrap();
    let position_size = position_before.size;

    let keeper_balance_before = w.balance(keeper);

    let keeper_reward = w.liquidate(keeper, position_id).unwrap();

    assert!(keeper_reward > 0, "Keeper should receive liquidation reward");

    let keeper_balance_after = w.balance(keeper);
    assert_eq!(
        keeper_balance_after,
        keeper_balance_before + (keeper_reward as i128),
        "Keeper balance should increase by reward amount"
    );

    let (long_oi_after, _) = w.open_interest(market_id);
    let expected_remaining_oi = position_size * 3;
    assert_eq!(
        long_oi_after, expected_remaining_oi,
        "OI should decrease by liquidated position size"
    );

    let final_reserved = w.reserved();
    assert!(
        final_reserved < initial_reserved,
        "Reserved liquidity should decrease after liquidation"
    );

    assert_user_positions_tracked(&w, trader, 0);
}

#[test]
fn test_cannot_liquidate_healthy_position() {
    let mut w = World::focused();

    let market_id = 0u32;
    let collateral = 1_000_000_000u128;
    let leverage = 5u32;

    let trader = w.traders[0];
    let keeper = w.traders[1];

    let position_id = w.open(trader, market_id, collateral, leverage, true).unwrap();

    assert_eq!(w.liquidate(keeper, position_id), Err(Error::NotLiquidatable));
    assert!(w.position(position_id).is_ok());
}

#[test]
fn test_multiple_concurrent_liquidations() {
    let mut w = World::focused();

    let market_id = 0u32;
    let collateral = 1_000_000_000u128;
    let leverage = 20u32;

    let mut position_ids = Vec::new();
    for i in 0..4 {
        let trader = w.traders[i];
        let pos_id = w.open(trader, market_id, collateral, leverage, true).unwrap();
        position_ids.push(pos_id);
    }

    let extra_trader = w.traders[4];
    w.open(extra_trader, market_id, collateral, leverage, true).unwrap();

    advance_funding_intervals(&mut w, 10000);
    w.update_funding(market_id).unwrap();

    let keeper = w.lps[0];
    let mut total_rewards = 0u128;

    for i in 0..4 {
        let reward = w.liquidate(keeper, position_ids[i]).unwrap();
        total_rewards += reward;
    }

    assert!(total_rewards > 0, "Keeper should receive rewards for all liquidations");

    for i in 0..4 {
        assert_user_positions_tracked(&w, w.traders[i], 0);
    }

    let (long_oi_after, _) = w.open_interest(market_id);
    let expected_oi = collateral * (leverage as u128);
    assert_eq!(long_oi_after, expected_oi, "Only extra position should remain in OI");
}

#[test]
fn test_liquidation_releases_liquidity() {
    let mut w = World::focused();

    let market_id = 0u32;
    let collateral = 1_000_000_000u128;
    let leverage = 20u32;

    let trader = w.traders[0];
    let keeper = w.traders[1];

    let position_id = w.open(trader, market_id, collateral, leverage, true).unwrap();

    for i in 2..5 {
        let other = w.traders[i];
        w.open(other, market_id, collateral, leverage, true).unwrap();
    }

    let position = w.position(position_id).unwrap();
    let position_size = position.size;

    let reserved_before = w.reserved();
    let available_before = w.available();

    advance_funding_intervals(&mut w, 10000);
    w.update_funding(market_id).unwrap();

    w.liquidate(keeper, position_id).unwrap();

    let reserved_after = w.reserved();
    let available_after = w.available();

    assert_eq!(
        reserved_before - reserved_after,
        position_size,
        "Reserved liquidity should decrease by position size"
    );

    assert!(
        available_after > available_before,
        "Available liquidity should increase after liquidation"
    );
}

#[test]
fn test_liquidation_oi_tracking() {
    let mut w = World::focused();

    let market_id = 0u32;
    let collateral = 1_000_000_000u128;
    let leverage = 20u32;

    let mut long_ids = Vec::new();
    for i in 0..3 {
        let trader = w.traders[i];
        let pos_id = w.open(trader, market_id, collateral, leverage, true).unwrap();
        long_ids.push(pos_id);
    }

    for i in 3..5 {
        let trader = w.traders[i];
        w.open(trader, market_id, collateral, leverage, false).unwrap();
    }

    let initial_long_oi = collateral * (leverage as u128) * 3;
    let initial_short_oi = collateral * (leverage as u128) * 2;

    assert_market_oi(&w, market_id, initial_long_oi, initial_short_oi);

    advance_funding_intervals(&mut w, 10000);
    w.update_funding(market_id).unwrap();

    let keeper = w.lps[0];
    w.liquidate(keeper, long_ids[0]).unwrap();

    let expected_long_oi_after_first = collateral * (leverage as u128) * 2;
    assert_market_oi(&w, market_id, expected_long_oi_after_first, initial_short_oi);

    w.liquidate(keeper, long_ids[1]).unwrap();

    let expected_long_oi_after_second = collateral * (leverage as u128);
    assert_market_oi(&w, market_id, expected_long_oi_after_second, initial_short_oi);
}

#[test]
fn test_high_pool_utilization() {
    let mut w = World::focused();

    let market_id = 0u32;
    let collateral = 8_000_000_000u128;
    let leverage = 10u32;

    for i in 0..5 {
        let trader = w.traders[i];
        w.open(trader, market_id, collateral, leverage, true).unwrap();
    }

    let utilization = w.utilization();
    assert!(utilization > 3000, "Utilization should be high (>30%): {}", utilization);
    assert!(utilization <= 8000, "Utilization {} exceeds max {}", utilization, 8000);
}

#[test]
fn test_utilization_prevents_opens() {
    let mut w = World::focused();

    let market_id = 0u32;
    let collateral = 100_000_000_000u128;
    let leverage = 15u32;

    let mut refused = 0;
    for i in 0..5 {
        let trader = w.traders[i];
        if w.open(trader, market_id, collateral, leverage, true).is_err() {
            refused += 1;
        }
    }
    assert!(refused > 0);
    assert_eq!(w.reserved(), 0);
}

#[test]
fn test_lp_deposits_during_trading() {
    let mut w = World::focused();

    let market_id = 0u32;
    let collateral = 1_000_000_000u128;
    let leverage = 10u32;

    for i in 0..3 {
        let trader = w.traders[i];
        w.open(trader, market_id, collateral, leverage, true).unwrap();
    }

    let reserved_before = w.reserved();
    let available_before = w.available();

    for i in 0..2 {
        let lp = w.lps[i];
        w.pool.deposit(&mut w.token, lp, 50_000_000_000).unwrap();
    }

    let reserved_after = w.reserved();
    assert_eq!(reserved_after, reserved_before, "Reserved liquidity should remain constant");

    let available_after = w.available();
    assert!(
        available_after > available_before,
        "Available liquidity should increase after deposits"
    );
}

#[test]
fn test_concurrent_50_positions() {
    let mut w = World::stress();

    let collateral = 1_000_000_000u128;
    let leverage = 10u32;

    let mut position_count = 0;
    for _ in 0..50 {
        let trader_idx = position_count % 20;
        let market_id = (position_count % 3) as u32;
        let is_long = (position_count % 2) == 0;

        let trader = w.traders[trader_idx];
        w.open(trader, market_id, collateral, leverage, is_long).unwrap();

        position_count += 1;
    }

    let mut total_positions = 0;
    for i in 0..20 {
        let positions = w.positions_of(w.traders[i]);
        total_positions += positions.len();
    }

    assert_eq!(total_positions, 50, "Should have 50 total positions tracked");

    let (xlm_long_oi, xlm_short_oi) = w.open_interest(0u32);
    let (btc_long_oi, btc_short_oi) = w.open_interest(1u32);
    let (eth_long_oi, eth_short_oi) = w.open_interest(2u32);

    assert!(xlm_long_oi > 0 || xlm_short_oi > 0, "XLM should have OI");
    assert!(btc_long_oi > 0 || btc_short_oi > 0, "BTC should have OI");
    assert!(eth_long_oi > 0 || eth_short_oi > 0, "ETH should have OI");
}

#[test]
fn test_mass_close_liquidity_release() {
    let mut w = World::focused();

    let market_id = 0u32;
    let collateral = 2_000_000_000u128;
    let leverage = 10u32;

    let mut position_ids = Vec::new();
    for i in 0..5 {
        let trader = w.traders[i];
        let pos_id = w.open(trader, market_id, collateral, leverage, true).unwrap();
        position_ids.push(pos_id);
    }

    let reserved_with_positions = w.reserved();
    let available_with_positions = w.available();

    for i in 0..5 {
        let trader = w.traders[i];
        w.close(trader, position_ids[i]).unwrap();
    }

    let reserved_after = w.reserved();
    let available_after = w.available();

    assert_eq!(reserved_after, 0, "No liquidity should be reserved");

    assert!(
        available_after > available_with_positions,
        "Available liquidity should increase after mass close"
    );

    let released_amount = reserved_with_positions - reserved_after;
    let expected_release = collateral * (leverage as u128) * 5;
    assert_eq!(
        released_amount, expected_release,
        "Released liquidity should equal total position sizes"
    );
}

#[test]
fn test_liquidity_reservation_tracking() {
    let mut w = World::focused();

    let market_id = 0u32;
    let collateral = 1_000_000_000u128;
    let leverage = 10u32;

    let mut expected_reserved = 0u128;

    for i in 0..5 {
        let trader = w.traders[i];
        w.open(trader, market_id, collateral, leverage, true).unwrap();

        expected_reserved += collateral * (leverage as u128);

        assert_pool_consistency(&w, expected_reserved);
    }

    let all_positions = w.positions_of(w.traders[0]);
    let pos_id = all_positions[0];

    let trader0 = w.traders[0];
    w.close(trader0, pos_id).unwrap();

    expected_reserved -= collateral * (leverage as u128);
    assert_pool_consistency(&w, expected_reserved);
}

#[test]
fn test_pool_stress_with_varying_leverage() {
    let mut w = World::focused();

    let market_id = 0u32;
    let collateral = 1_000_000_000u128;

    let leverages = [5u32, 10u32, 15u32, 20u32, 12u32];
    let mut total_reserved = 0u128;

    for i in 0..5 {
        let trader = w.traders[i];
        let leverage = leverages[i];

        w.open(trader, market_id, collateral, leverage, true).unwrap();

        total_reserved += collateral * (leverage as u128);
    }

    assert_pool_consistency(&w, total_reserved);

    let lp = w.lps[0];
    w.pool.deposit(&mut w.token, lp, 10_000_000_000).unwrap();

    assert_pool_consistency(&w, total_reserved);
}

#[test]
fn test_limit_order_lifecycle_multi_user() {
    let mut w = World::focused();

    let market_id = 0u32;

    let trader0 = w.traders[0];
    let trader1 = w.traders[1];
    let trader2 = w.traders[2];

    let order0 =
        create_test_limit_order(&mut w, trader0, market_id, 95_000_000, COLLATERAL, LEVERAGE, true);
    let order1 =
        create_test_limit_order(&mut w, trader1, market_id, 90_000_000, COLLATERAL, LEVERAGE, true);
    let order2 = create_test_limit_order(
        &mut w,
        trader2,
        market_id,
        105_000_000,
        COLLATERAL,
        LEVERAGE,
        false,
    );

    let market_orders = w.manager.get_market_orders(market_id);
    assert_eq!(market_orders.len(), 3);

    let keeper = w.lps[0];

    assert_order_executable(&w, order0, false);
    assert_order_executable(&w, order1, false);
    assert_order_executable(&w, order2, false);

    w.set_price(market_id, 95_000_000);

    assert_order_executable(&w, order0, true);
    assert_order_executable(&w, order1, false);
    assert_order_executable(&w, order2, false);

    let pos0_id = w.execute(keeper, order0).unwrap() as u64;

    assert_user_positions_tracked(&w, trader0, 1);
    let pos0 = w.position(pos0_id).unwrap();
    assert_eq!(pos0.trader, trader0);
    assert_eq!(pos0.is_long, true);

    let market_orders_after = w.manager.get_market_orders(market_id);
    assert_eq!(market_orders_after.len(), 2);

    w.set_price(market_id, 105_000_000);

    assert_order_executable(&w, order1, false);
    assert_order_executable(&w, order2, true);

    let pos2_id = w.execute(keeper, order2).unwrap() as u64;

    assert_user_positions_tracked(&w, trader2, 1);
    let pos2 = w.position(pos2_id).unwrap();
    assert_eq!(pos2.is_long, false);

    assert_user_positions_tracked(&w, trader1, 0);
    assert_user_orders_count(&w, trader1, 1);
}

#[test]
fn test_stop_loss_protects_against_loss() {
    let mut w = World::focused();

    let market_id = 0u32;
    let trader = w.traders[0];
    let keeper = w.lps[0];

    let balance_before_position = w.balance(trader);

    let position_id = w.open(trader, market_id, COLLATERAL, LEVERAGE, true).unwrap();

    let sl_trigger = 95_000_000i128;
    let sl_order = create_test_stop_loss(&mut w, trader, position_id, sl_trigger, CLOSE_FULL);

    assert_position_orders_count(&w, position_id, 1);

    w.set_price(market_id, sl_trigger);

    assert_order_executable(&w, sl_order, true);

    let pnl = w.execute(keeper, sl_order).unwrap();

    assert!(pnl < 0);

    assert_user_positions_tracked(&w, trader, 0);

    let final_balance = w.balance(trader);
    assert!(final_balance < balance_before_position);
    assert!(final_balance > balance_before_position - (COLLATERAL as i128));
}

#[test]
fn test_take_profit_secures_gains() {
    let mut w = World::focused();

    let market_id = 0u32;
    let trader = w.traders[0];
    let keeper = w.lps[0];

    let position_id = w.open(trader, market_id, COLLATERAL, LEVERAGE, true).unwrap();

    let balance_after_open = w.balance(trader);

    let tp_trigger = 110_000_000i128;
    let tp_order = create_test_take_profit(&mut w, trader, position_id, tp_trigger, CLOSE_FULL);

    w.set_price(market_id, tp_trigger);

    assert_order_executable(&w, tp_order, true);

    let pnl = w.execute(keeper, tp_order).unwrap();

    assert!(pnl > 0);

    assert_user_positions_tracked(&w, trader, 0);

    let final_balance = w.balance(trader);
    assert!(final_balance > balance_after_open);
}

#[test]
fn test_combined_sl_tp_one_triggers() {
    let mut w = World::focused();

    let market_id = 0u32;
    let trader = w.traders[0];
    let keeper = w.lps[0];

    let position_id = w.open(trader, market_id, COLLATERAL, LEVERAGE, true).unwrap();

    let _sl_order = create_test_stop_loss(&mut w, trader, position_id, 95_000_000, CLOSE_FULL);
    let tp_order = create_test_take_profit(&mut w, trader, position_id, 110_000_000, CLOSE_FULL);

    assert_position_orders_count(&w, position_id, 2);
    assert_user_orders_count(&w, trader, 2);

    let balance_before_tp = w.balance(trader);

    w.set_price(market_id, 110_000_000);

    let pnl = w.execute(keeper, tp_order).unwrap();
    assert!(pnl > 0);

    assert_user_positions_tracked(&w, trader, 0);
    assert_user_orders_count(&w, trader, 0);

    let final_balance = w.balance(trader);
    assert!(final_balance > balance_before_tp);
    // Collateral, gain, and the fee of the stop-loss that never ran.
    assert_eq!(
        final_balance,
        balance_before_tp + 1_000_000_000 + 1_000_000_000 + ORDER_EXECUTION_FEE as i128
    );
}

#[test]
fn test_keeper_incentive_economics() {
    let mut w = World::focused();

    let market_id = 0u32;
    let trader = w.traders[0];
    let keeper = w.lps[0];

    let keeper_initial_balance = w.balance(keeper);

    let order_id =
        create_test_limit_order(&mut w, trader, market_id, 95_000_000, COLLATERAL, LEVERAGE, true);

    w.set_price(market_id, 95_000_000);

    w.execute(keeper, order_id).unwrap();

    let keeper_final_balance = w.balance(keeper);
    assert_eq!(keeper_final_balance, keeper_initial_balance + (ORDER_EXECUTION_FEE as i128));
}

#[test]
fn test_concurrent_orders_same_position() {
    let mut w = World::focused();

    let market_id = 0u32;
    let trader = w.traders[0];
    let keeper = w.lps[0];

    let position_id = w.open(trader, market_id, COLLATERAL, LEVERAGE, true).unwrap();

    let sl1 = create_test_stop_loss(&mut w, trader, position_id, 98_000_000, 3000);
    let sl2 = create_test_stop_loss(&mut w, trader, position_id, 95_000_000, 5000);
    let tp = create_test_take_profit(&mut w, trader, position_id, 110_000_000, CLOSE_FULL);

    assert_position_orders_count(&w, position_id, 3);

    w.set_price(market_id, 98_000_000);

    let pnl1 = w.execute(keeper, sl1).unwrap();
    assert!(pnl1 < 0);

    assert_user_positions_tracked(&w, trader, 1);

    assert_position_orders_count(&w, position_id, 2);
    // The orders that are left follow the position's new size.
    assert_eq!(w.position(position_id).unwrap().size, 7_000_000_000);
    assert_eq!(w.order(sl2).unwrap().size, 3_500_000_000);
    assert_eq!(w.order(tp).unwrap().size, 7_000_000_000);

    w.set_price(market_id, 95_000_000);
    let pnl2 = w.execute(keeper, sl2).unwrap();
    assert!(pnl2 < 0);

    assert_user_positions_tracked(&w, trader, 1);
    assert_position_orders_count(&w, position_id, 1);
}

#[test]
fn test_order_cancellation_flow() {
    let mut w = World::focused();

    let trader = w.traders[0];

    let balance_before = w.balance(trader);

    let order_id =
        create_test_limit_order(&mut w, trader, 0u32, 95_000_000, COLLATERAL, LEVERAGE, true);

    let balance_after_create = w.balance(trader);
    assert_eq!(
        balance_after_create,
        balance_before - (ORDER_EXECUTION_FEE as i128) - (COLLATERAL as i128)
    );

    assert_user_orders_count(&w, trader, 1);

    w.cancel(trader, order_id).unwrap();

    let balance_after_cancel = w.balance(trader);
    assert_eq!(balance_after_cancel, balance_before);

    assert_user_orders_count(&w, trader, 0);
}
