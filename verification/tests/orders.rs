#![allow(dead_code)]

use stellars_perps::config::{ConfigManager, Parameter};
use stellars_perps::error::Error;
use stellars_perps::manager::PositionManager;
use stellars_perps::market::MarketManager;
use stellars_perps::oracle::OracleIntegrator;
use stellars_perps::order::Order;
use stellars_perps::pool::LiquidityPool;
use stellars_perps::position::Position;
use stellars_perps::principal::Principal;
use stellars_perps::token::FaucetToken;

const ADMIN: u64 = 1;
const CONFIG: u64 = 10;
const ORACLE: u64 = 11;
const MARKETS: u64 = 12;
const POOL: u64 = 13;
const MANAGER: u64 = 14;
const TOKEN: u64 = 15;

/// All components of the venue, wired together, and a clock.
struct World {
    config: ConfigManager,
    oracle: OracleIntegrator,
    markets: MarketManager,
    pool: LiquidityPool,
    manager: PositionManager,
    token: FaucetToken,
    admin: Principal,
    traders: Vec<Principal>,
    lps: Vec<Principal>,
    now: u64,
}

impl World {
    fn new(
        num_traders: u64,
        num_lps: u64,
        trader_balance: i128,
        lp_balance: i128,
        pool_liquidity: i128,
        btc_price: i128,
        eth_price: i128,
    ) -> World {
        let admin = Principal::new(ADMIN);
        let mut token = FaucetToken::new();
        token.initialize(String::from("Test USDC"), String::from("USDC"), 7).unwrap();

        let mut config = ConfigManager::new();
        config.initialize(admin).unwrap();

        let mut oracle = OracleIntegrator::new();
        oracle.initialize(Principal::new(CONFIG));
        oracle.set_price(&config, admin, 0, 100_000_000).unwrap();
        oracle.set_price(&config, admin, 1, btc_price).unwrap();
        oracle.set_price(&config, admin, 2, eth_price).unwrap();

        let mut markets = MarketManager::new();
        markets.initialize(Principal::new(CONFIG), admin).unwrap();

        let mut pool = LiquidityPool::new(Principal::new(POOL));
        pool.initialize(admin, Principal::new(CONFIG), Principal::new(TOKEN)).unwrap();

        let mut manager = PositionManager::new(Principal::new(MANAGER));
        manager.initialize(admin, Principal::new(CONFIG)).unwrap();

        config.set_oracle_integrator(admin, Principal::new(ORACLE)).unwrap();
        config.set_market_manager(admin, Principal::new(MARKETS)).unwrap();
        config.set_liquidity_pool(admin, Principal::new(POOL)).unwrap();
        config.set_position_manager(admin, Principal::new(MANAGER)).unwrap();
        config.set_token(admin, Principal::new(TOKEN)).unwrap();

        markets.set_position_manager(admin, Principal::new(MANAGER)).unwrap();
        pool.set_position_manager(admin, Principal::new(MANAGER)).unwrap();

        markets.create_market(admin, 0, 1_000_000_000_000, 10000, 0).unwrap();
        markets.create_market(admin, 1, 1_000_000_000_000, 10000, 0).unwrap();
        markets.create_market(admin, 2, 1_000_000_000_000, 10000, 0).unwrap();

        let mut traders = Vec::new();
        for i in 0..num_traders {
            let trader = Principal::new(100 + i);
            token.mint(trader, trader_balance).unwrap();
            traders.push(trader);
        }
        let mut lps = Vec::new();
        for i in 0..num_lps {
            let lp = Principal::new(200 + i);
            token.mint(lp, lp_balance).unwrap();
            lps.push(lp);
        }

        token.mint(admin, pool_liquidity).unwrap();
        pool.deposit(&mut token, admin, pool_liquidity).unwrap();

        World { config, oracle, markets, pool, manager, token, admin, traders, lps, now: 0 }
    }

    /// One trader with 10,000 tokens, and 100,000 tokens in the pool.
    fn unit() -> World {
        World::new(1, 0, 10_000_000_000, 0, 100_000_000_000, 50_000_000_000, 3_000_000_000)
    }

    /// Five traders, two providers, a million tokens in the pool.
    fn focused() -> World {
        World::new(
            5,
            2,
            10_000_000_000,
            100_000_000_000,
            1_000_000_000_000,
            50_000_000_000_000,
            3_000_000_000_000,
        )
    }

    /// Twenty traders, five providers, ten million tokens in the pool.
    fn stress() -> World {
        World::new(
            20,
            5,
            10_000_000_000,
            100_000_000_000,
            10_000_000_000_000,
            50_000_000_000_000,
            3_000_000_000_000,
        )
    }

    fn trader(&self) -> Principal {
        self.traders[0]
    }

    fn pool_address(&self) -> Principal {
        Principal::new(POOL)
    }

    fn manager_address(&self) -> Principal {
        Principal::new(MANAGER)
    }

    fn newcomer(&mut self, id: u64, balance: i128) -> Principal {
        let p = Principal::new(id);
        if balance > 0 {
            self.token.mint(p, balance).unwrap();
        }
        p
    }

    fn balance(&self, who: Principal) -> i128 {
        self.token.balance(who)
    }

    fn set_price(&mut self, market_id: u32, price: i128) {
        self.oracle.set_price(&self.config, self.admin, market_id, price).unwrap();
    }

    fn advance(&mut self, seconds: u64) {
        self.now += seconds;
    }

    fn update_funding(&mut self, market_id: u32) -> Result<(), Error> {
        self.markets.update_funding_rate(&self.config, market_id, self.now)
    }

    fn open(
        &mut self,
        trader: Principal,
        market_id: u32,
        collateral: u128,
        leverage: u32,
        is_long: bool,
    ) -> Result<u64, Error> {
        self.manager.open_position(
            &self.config,
            &self.oracle,
            &mut self.markets,
            &mut self.pool,
            &mut self.token,
            self.now,
            trader,
            market_id,
            collateral,
            leverage,
            is_long,
        )
    }

    fn close(&mut self, trader: Principal, position_id: u64) -> Result<i128, Error> {
        self.manager.close_position(
            &self.config,
            &self.oracle,
            &mut self.markets,
            &mut self.pool,
            &mut self.token,
            self.now,
            trader,
            position_id,
        )
    }

    fn liquidate(&mut self, keeper: Principal, position_id: u64) -> Result<u128, Error> {
        self.manager.liquidate_position(
            &self.config,
            &self.oracle,
            &mut self.markets,
            &mut self.pool,
            &mut self.token,
            self.now,
            keeper,
            position_id,
        )
    }

    fn increase(
        &mut self,
        trader: Principal,
        position_id: u64,
        collateral: i128,
        size: i128,
    ) -> Result<(), Error> {
        self.manager.increase_position(
            &self.config,
            &self.oracle,
            &mut self.markets,
            &mut self.pool,
            &mut self.token,
            self.now,
            trader,
            position_id,
            collateral,
            size,
        )
    }

    fn decrease(
        &mut self,
        trader: Principal,
        position_id: u64,
        collateral: i128,
        size: i128,
    ) -> Result<i128, Error> {
        self.manager.decrease_position(
            &self.config,
            &self.oracle,
            &mut self.markets,
            &mut self.pool,
            &mut self.token,
            self.now,
            trader,
            position_id,
            collateral,
            size,
        )
    }

    fn pnl(&self, position_id: u64) -> Result<i128, Error> {
        self.manager.calculate_pnl(&self.config, &self.oracle, &self.markets, position_id, self.now)
    }

    fn position(&self, position_id: u64) -> Result<Position, Error> {
        self.manager.get_position(position_id)
    }

    fn positions_of(&self, trader: Principal) -> Vec<u64> {
        self.manager.get_user_open_positions(trader)
    }

    fn limit_order(
        &mut self,
        trader: Principal,
        market_id: u32,
        trigger_price: i128,
        acceptable_price: i128,
        collateral: u128,
        leverage: u32,
        is_long: bool,
        execution_fee: u128,
        expiration: u64,
    ) -> Result<u64, Error> {
        self.manager.create_limit_order(
            &self.config,
            &mut self.token,
            self.now,
            trader,
            market_id,
            trigger_price,
            acceptable_price,
            collateral,
            leverage,
            is_long,
            execution_fee,
            expiration,
        )
    }

    fn stop_loss(
        &mut self,
        trader: Principal,
        position_id: u64,
        trigger_price: i128,
        acceptable_price: i128,
        close_percentage: u32,
        execution_fee: u128,
        expiration: u64,
    ) -> Result<u64, Error> {
        self.manager.create_stop_loss(
            &self.config,
            &self.oracle,
            &mut self.token,
            self.now,
            trader,
            position_id,
            trigger_price,
            acceptable_price,
            close_percentage,
            execution_fee,
            expiration,
        )
    }

    fn take_profit(
        &mut self,
        trader: Principal,
        position_id: u64,
        trigger_price: i128,
        acceptable_price: i128,
        close_percentage: u32,
        execution_fee: u128,
        expiration: u64,
    ) -> Result<u64, Error> {
        self.manager.create_take_profit(
            &self.config,
            &self.oracle,
            &mut self.token,
            self.now,
            trader,
            position_id,
            trigger_price,
            acceptable_price,
            close_percentage,
            execution_fee,
            expiration,
        )
    }

    fn execute(&mut self, keeper: Principal, order_id: u64) -> Result<i128, Error> {
        self.manager.execute_order(
            &self.config,
            &self.oracle,
            &mut self.markets,
            &mut self.pool,
            &mut self.token,
            self.now,
            keeper,
            order_id,
        )
    }

    fn cancel(&mut self, trader: Principal, order_id: u64) -> Result<(), Error> {
        self.manager.cancel_order(&mut self.token, trader, order_id)
    }

    fn can_execute(&self, order_id: u64) -> bool {
        self.manager.can_execute_order(&self.oracle, &self.markets, self.now, order_id)
    }

    fn order(&self, order_id: u64) -> Result<Order, Error> {
        self.manager.get_order(order_id)
    }

    fn open_interest(&self, market_id: u32) -> (u128, u128) {
        self.markets.get_open_interest(market_id).unwrap()
    }

    fn reserved(&self) -> u128 {
        self.pool.get_reserved_liquidity()
    }

    fn available(&self) -> i128 {
        self.pool.get_available_liquidity(&self.token).unwrap()
    }

    fn utilization(&self) -> u128 {
        self.pool.get_utilization_ratio(&self.token).unwrap()
    }

    fn set_parameter(&mut self, which: Parameter, value: i128) {
        self.config.set_parameter(self.admin, which, value).unwrap();
    }
}

const EXECUTION_FEE: u128 = 1_000_000;
const XLM_PRICE: i128 = 100_000_000;
const LONG_TP_PRICE: i128 = 110_000_000;
const LONG_SL_PRICE: i128 = 95_000_000;
const SHORT_TP_PRICE: i128 = 90_000_000;
const SHORT_SL_PRICE: i128 = 105_000_000;
const CLOSE_FULL: u32 = 10000;
const CLOSE_HALF: u32 = 5000;

#[test]
fn test_create_limit_order_long_success() {
    let mut w = World::unit();
    let trader = w.trader();

    let initial_balance = w.balance(trader);
    let initial_contract_balance = w.balance(w.manager_address());

    let market_id = 0u32;
    let trigger_price = 95_000_000i128;
    let acceptable_price = 96_000_000i128;
    let collateral = 1_000_000_000u128;
    let leverage = 10u32;
    let is_long = true;
    let expiration = 0u64;

    let order_id = w
        .limit_order(
            trader,
            market_id,
            trigger_price,
            acceptable_price,
            collateral,
            leverage,
            is_long,
            EXECUTION_FEE,
            expiration,
        )
        .unwrap();

    assert_eq!(order_id, 1);

    let new_balance = w.balance(trader);
    assert_eq!(new_balance as u128, (initial_balance as u128) - EXECUTION_FEE - collateral);

    let new_contract_balance = w.balance(w.manager_address());
    assert_eq!(
        new_contract_balance as u128,
        (initial_contract_balance as u128) + EXECUTION_FEE + collateral
    );

    let order = w.order(order_id).unwrap();
    assert_eq!(order.trader, trader);
    assert_eq!(order.market_id, market_id);
    assert_eq!(order.trigger_price, trigger_price);
    assert_eq!(order.acceptable_price, acceptable_price);
    assert_eq!(order.collateral, collateral);
    assert_eq!(order.leverage, leverage);
    assert_eq!(order.is_long, is_long);
    assert_eq!(order.position_id, 0);
    assert_eq!(order.execution_fee, EXECUTION_FEE);

    let user_orders = w.manager.get_user_orders(trader);
    assert_eq!(user_orders.len(), 1);
    assert_eq!(user_orders[0], order_id);

    let market_orders = w.manager.get_market_orders(market_id);
    assert_eq!(market_orders.len(), 1);
    assert_eq!(market_orders[0], order_id);
}

#[test]
fn test_create_limit_order_short_success() {
    let mut w = World::unit();
    let trader = w.trader();

    let market_id = 0u32;
    let trigger_price = 105_000_000i128;
    let acceptable_price = 104_000_000i128;
    let collateral = 1_000_000_000u128;
    let leverage = 10u32;
    let is_long = false;

    let order_id = w
        .limit_order(
            trader,
            market_id,
            trigger_price,
            acceptable_price,
            collateral,
            leverage,
            is_long,
            EXECUTION_FEE,
            0u64,
        )
        .unwrap();

    let order = w.order(order_id).unwrap();
    assert_eq!(order.is_long, false);
    assert_eq!(order.trigger_price, trigger_price);
}

#[test]
fn test_create_limit_order_zero_trigger_price() {
    let mut w = World::unit();
    let trader = w.trader();
    assert_eq!(
        w.limit_order(trader, 0u32, 0i128, 0i128, 1_000_000_000u128, 10u32, true, EXECUTION_FEE, 0),
        Err(Error::InvalidTriggerPrice)
    );
    assert_eq!(Error::InvalidTriggerPrice.message(), "Trigger price must be positive");
}

#[test]
fn test_create_limit_order_zero_collateral() {
    let mut w = World::unit();
    let trader = w.trader();
    assert_eq!(
        w.limit_order(trader, 0u32, 95_000_000i128, 0i128, 0u128, 10u32, true, EXECUTION_FEE, 0),
        Err(Error::ZeroCollateral)
    );
    assert_eq!(Error::ZeroCollateral.message(), "Collateral must be positive");
}

#[test]
fn test_create_limit_order_leverage_too_low() {
    let mut w = World::unit();
    let trader = w.trader();
    assert_eq!(
        w.limit_order(
            trader,
            0u32,
            95_000_000i128,
            0i128,
            1_000_000_000u128,
            4u32,
            true,
            EXECUTION_FEE,
            0
        ),
        Err(Error::LeverageTooLow)
    );
    assert_eq!(Error::LeverageTooLow.message(), "Leverage too low");
}

#[test]
fn test_create_limit_order_leverage_too_high() {
    let mut w = World::unit();
    let trader = w.trader();
    assert_eq!(
        w.limit_order(
            trader,
            0u32,
            95_000_000i128,
            0i128,
            1_000_000_000u128,
            21u32,
            true,
            EXECUTION_FEE,
            0
        ),
        Err(Error::LeverageTooHigh)
    );
    assert_eq!(Error::LeverageTooHigh.message(), "Leverage too high");
}

#[test]
fn test_create_limit_order_fee_too_low() {
    let mut w = World::unit();
    let trader = w.trader();
    assert_eq!(
        w.limit_order(
            trader,
            0u32,
            95_000_000i128,
            0i128,
            1_000_000_000u128,
            10u32,
            true,
            100u128,
            0
        ),
        Err(Error::ExecutionFeeTooLow)
    );
    assert_eq!(Error::ExecutionFeeTooLow.message(), "Execution fee below minimum");
}

#[test]
fn test_create_limit_order_size_too_small() {
    let mut w = World::unit();
    let trader = w.trader();
    assert_eq!(
        w.limit_order(
            trader,
            0u32,
            95_000_000i128,
            0i128,
            1_000_000u128,
            5u32,
            true,
            EXECUTION_FEE,
            0
        ),
        Err(Error::PositionSizeTooSmall)
    );
    assert_eq!(Error::PositionSizeTooSmall.message(), "Position size too small");
}

#[test]
fn test_execute_limit_order_long_trigger() {
    let mut w = World::unit();
    let trader = w.trader();

    let market_id = 0u32;
    let trigger_price = 95_000_000i128;
    let collateral = 1_000_000_000u128;
    let leverage = 10u32;

    let order_id = w
        .limit_order(
            trader,
            market_id,
            trigger_price,
            0i128,
            collateral,
            leverage,
            true,
            EXECUTION_FEE,
            0u64,
        )
        .unwrap();

    let keeper = w.newcomer(950, 1_000_000_000);
    let keeper_initial_balance = w.balance(keeper);

    assert_eq!(w.can_execute(order_id), false);

    w.set_price(market_id, trigger_price);

    assert_eq!(w.can_execute(order_id), true);

    let result = w.execute(keeper, order_id).unwrap();
    let position_id = result as u64;

    let position = w.position(position_id).unwrap();
    assert_eq!(position.trader, trader);
    assert_eq!(position.collateral, collateral);
    assert_eq!(position.size, collateral * (leverage as u128));
    assert_eq!(position.is_long, true);

    let keeper_final_balance = w.balance(keeper);
    assert_eq!(keeper_final_balance as u128, (keeper_initial_balance as u128) + EXECUTION_FEE);

    let user_orders = w.manager.get_user_orders(trader);
    assert_eq!(user_orders.len(), 0);

    let market_orders = w.manager.get_market_orders(market_id);
    assert_eq!(market_orders.len(), 0);
}

#[test]
fn test_execute_limit_order_short_trigger() {
    let mut w = World::unit();
    let trader = w.trader();

    let market_id = 0u32;
    let trigger_price = 105_000_000i128;
    let collateral = 1_000_000_000u128;
    let leverage = 10u32;

    let order_id = w
        .limit_order(
            trader,
            market_id,
            trigger_price,
            0i128,
            collateral,
            leverage,
            false,
            EXECUTION_FEE,
            0u64,
        )
        .unwrap();

    let keeper = w.newcomer(950, 1_000_000_000);

    assert_eq!(w.can_execute(order_id), false);

    w.set_price(market_id, trigger_price);

    let result = w.execute(keeper, order_id).unwrap();
    let position_id = result as u64;

    let position = w.position(position_id).unwrap();
    assert_eq!(position.is_long, false);
}

#[test]
fn test_create_stop_loss_long_success() {
    let mut w = World::unit();
    let trader = w.trader();

    let market_id = 0u32;
    let collateral = 1_000_000_000u128;
    let leverage = 10u32;

    let position_id = w.open(trader, market_id, collateral, leverage, true).unwrap();

    let initial_balance = w.balance(trader);

    let trigger_price = LONG_SL_PRICE;

    let order_id = w
        .stop_loss(trader, position_id, trigger_price, 0i128, CLOSE_FULL, EXECUTION_FEE, 0u64)
        .unwrap();

    let new_balance = w.balance(trader);
    assert_eq!(new_balance as u128, (initial_balance as u128) - EXECUTION_FEE);

    let order = w.order(order_id).unwrap();
    assert_eq!(order.trader, trader);
    assert_eq!(order.position_id, position_id);
    assert_eq!(order.trigger_price, trigger_price);
    assert_eq!(order.close_percentage, CLOSE_FULL);
    assert_eq!(order.is_long, true);

    let position_orders = w.manager.get_position_orders(position_id);
    assert_eq!(position_orders.len(), 1);
    assert_eq!(position_orders[0], order_id);
}

#[test]
fn test_create_stop_loss_short_success() {
    let mut w = World::unit();
    let trader = w.trader();

    let market_id = 0u32;
    let collateral = 1_000_000_000u128;
    let leverage = 10u32;

    let position_id = w.open(trader, market_id, collateral, leverage, false).unwrap();

    let trigger_price = SHORT_SL_PRICE;

    let order_id = w
        .stop_loss(trader, position_id, trigger_price, 0i128, CLOSE_FULL, EXECUTION_FEE, 0u64)
        .unwrap();

    let order = w.order(order_id).unwrap();
    assert_eq!(order.is_long, false);
    assert_eq!(order.trigger_price, trigger_price);
}

#[test]
fn test_create_stop_loss_not_owner() {
    let mut w = World::unit();
    let trader = w.trader();

    let position_id = w.open(trader, 0u32, 1_000_000_000u128, 10u32, true).unwrap();

    let other_user = w.newcomer(900, 10_000_000_000);

    assert_eq!(
        w.stop_loss(other_user, position_id, LONG_SL_PRICE, 0i128, CLOSE_FULL, EXECUTION_FEE, 0),
        Err(Error::NotPositionOwner)
    );
    assert_eq!(Error::NotPositionOwner.message(), "Unauthorized: caller does not own this position");
}

#[test]
fn test_create_stop_loss_zero_percentage() {
    let mut w = World::unit();
    let trader = w.trader();
    let position_id = w.open(trader, 0u32, 1_000_000_000u128, 10u32, true).unwrap();
    assert_eq!(
        w.stop_loss(trader, position_id, LONG_SL_PRICE, 0i128, 0u32, EXECUTION_FEE, 0u64),
        Err(Error::InvalidClosePercentage)
    );
    assert_eq!(Error::InvalidClosePercentage.message(), "Invalid close percentage");
}

#[test]
fn test_create_stop_loss_over_100_percent() {
    let mut w = World::unit();
    let trader = w.trader();
    let position_id = w.open(trader, 0u32, 1_000_000_000u128, 10u32, true).unwrap();
    assert_eq!(
        w.stop_loss(trader, position_id, LONG_SL_PRICE, 0i128, 10001u32, EXECUTION_FEE, 0u64),
        Err(Error::InvalidClosePercentage)
    );
    assert_eq!(Error::InvalidClosePercentage.message(), "Invalid close percentage");
}

#[test]
fn test_create_stop_loss_long_above_current_price() {
    let mut w = World::unit();
    let trader = w.trader();
    let position_id = w.open(trader, 0u32, 1_000_000_000u128, 10u32, true).unwrap();
    assert_eq!(
        w.stop_loss(trader, position_id, 105_000_000i128, 0i128, CLOSE_FULL, EXECUTION_FEE, 0u64),
        Err(Error::StopLossNotBelowPrice)
    );
    assert_eq!(Error::StopLossNotBelowPrice.message(), "Stop-loss for long must be below current price");
}

#[test]
fn test_create_stop_loss_long_below_liquidation() {
    let mut w = World::unit();
    let trader = w.trader();
    let position_id = w.open(trader, 0u32, 1_000_000_000u128, 10u32, true).unwrap();
    // At 10x the position liquidates at 0.91; 0.90 is under that.
    assert_eq!(
        w.stop_loss(trader, position_id, 90_000_000i128, 0i128, CLOSE_FULL, EXECUTION_FEE, 0u64),
        Err(Error::StopLossNotAboveLiquidation)
    );
    assert_eq!(Error::StopLossNotAboveLiquidation.message(), "Stop-loss must be above liquidation price");
}

#[test]
fn test_create_stop_loss_short_below_current_price() {
    let mut w = World::unit();
    let trader = w.trader();
    let position_id = w.open(trader, 0u32, 1_000_000_000u128, 10u32, false).unwrap();
    assert_eq!(
        w.stop_loss(trader, position_id, 95_000_000i128, 0i128, CLOSE_FULL, EXECUTION_FEE, 0u64),
        Err(Error::StopLossNotAbovePrice)
    );
    assert_eq!(Error::StopLossNotAbovePrice.message(), "Stop-loss for short must be above current price");
}

#[test]
fn test_create_stop_loss_short_above_liquidation() {
    let mut w = World::unit();
    let trader = w.trader();
    let position_id = w.open(trader, 0u32, 1_000_000_000u128, 10u32, false).unwrap();
    // At 10x the short liquidates at 1.09; 1.10 is over that.
    assert_eq!(
        w.stop_loss(trader, position_id, 110_000_000i128, 0i128, CLOSE_FULL, EXECUTION_FEE, 0u64),
        Err(Error::StopLossNotBelowLiquidation)
    );
    assert_eq!(Error::StopLossNotBelowLiquidation.message(), "Stop-loss must be below liquidation price");
}

#[test]
fn test_execute_stop_loss_full_close() {
    let mut w = World::unit();
    let trader = w.trader();

    let market_id = 0u32;
    let collateral = 1_000_000_000u128;
    let leverage = 10u32;

    let position_id = w.open(trader, market_id, collateral, leverage, true).unwrap();

    let trigger_price = LONG_SL_PRICE;
    let order_id = w
        .stop_loss(trader, position_id, trigger_price, 0i128, CLOSE_FULL, EXECUTION_FEE, 0u64)
        .unwrap();

    let keeper = w.newcomer(950, 1_000_000_000);

    w.set_price(market_id, trigger_price);

    let pnl = w.execute(keeper, order_id).unwrap();

    assert!(pnl < 0);
    assert_eq!(pnl, -500_000_000);

    let user_positions = w.positions_of(trader);
    assert_eq!(user_positions.len(), 0);

    let position_orders = w.manager.get_position_orders(position_id);
    assert_eq!(position_orders.len(), 0);
}

#[test]
fn test_execute_stop_loss_partial_close() {
    let mut w = World::unit();
    let trader = w.trader();

    let market_id = 0u32;
    let collateral = 1_000_000_000u128;
    let leverage = 10u32;
    let initial_size = collateral * (leverage as u128);

    let position_id = w.open(trader, market_id, collateral, leverage, true).unwrap();

    let mild_sl_price: i128 = 98_000_000;
    let order_id = w
        .stop_loss(trader, position_id, mild_sl_price, 0i128, CLOSE_HALF, EXECUTION_FEE, 0u64)
        .unwrap();

    let keeper = w.newcomer(950, 1_000_000_000);

    w.set_price(market_id, mild_sl_price);

    let pnl = w.execute(keeper, order_id).unwrap();

    assert!(pnl < 0);
    assert_eq!(pnl, -100_000_000);

    let user_positions = w.positions_of(trader);
    assert_eq!(user_positions.len(), 1);

    let position = w.position(position_id).unwrap();
    assert!(position.size < initial_size);
    assert_eq!(position.size, 5_000_000_000);
    assert_eq!(position.collateral, 900_000_000);
}

#[test]
fn test_create_take_profit_long_success() {
    let mut w = World::unit();
    let trader = w.trader();

    let market_id = 0u32;
    let collateral = 1_000_000_000u128;
    let leverage = 10u32;

    let position_id = w.open(trader, market_id, collateral, leverage, true).unwrap();

    let initial_balance = w.balance(trader);

    let trigger_price = LONG_TP_PRICE;

    let order_id = w
        .take_profit(trader, position_id, trigger_price, 0i128, CLOSE_FULL, EXECUTION_FEE, 0u64)
        .unwrap();

    let new_balance = w.balance(trader);
    assert_eq!(new_balance as u128, (initial_balance as u128) - EXECUTION_FEE);

    let order = w.order(order_id).unwrap();
    assert_eq!(order.trader, trader);
    assert_eq!(order.position_id, position_id);
    assert_eq!(order.trigger_price, trigger_price);
    assert_eq!(order.close_percentage, CLOSE_FULL);
    assert_eq!(order.is_long, true);

    let position_orders = w.manager.get_position_orders(position_id);
    assert_eq!(position_orders.len(), 1);
}

#[test]
fn test_create_take_profit_short_success() {
    let mut w = World::unit();
    let trader = w.trader();

    let market_id = 0u32;
    let collateral = 1_000_000_000u128;
    let leverage = 10u32;

    let position_id = w.open(trader, market_id, collateral, leverage, false).unwrap();

    let trigger_price = SHORT_TP_PRICE;

    let order_id = w
        .take_profit(trader, position_id, trigger_price, 0i128, CLOSE_FULL, EXECUTION_FEE, 0u64)
        .unwrap();

    let order = w.order(order_id).unwrap();
    assert_eq!(order.is_long, false);
    assert_eq!(order.trigger_price, trigger_price);
}

#[test]
fn test_create_take_profit_long_below_current() {
    let mut w = World::unit();
    let trader = w.trader();
    let position_id = w.open(trader, 0u32, 1_000_000_000u128, 10u32, true).unwrap();
    assert_eq!(
        w.take_profit(trader, position_id, 95_000_000i128, 0i128, CLOSE_FULL, EXECUTION_FEE, 0u64),
        Err(Error::TakeProfitNotAbovePrice)
    );
    assert_eq!(Error::TakeProfitNotAbovePrice.message(), "Take-profit for long must be above current price");
}

#[test]
fn test_create_take_profit_short_above_current() {
    let mut w = World::unit();
    let trader = w.trader();
    let position_id = w.open(trader, 0u32, 1_000_000_000u128, 10u32, false).unwrap();
    assert_eq!(
        w.take_profit(trader, position_id, 105_000_000i128, 0i128, CLOSE_FULL, EXECUTION_FEE, 0u64),
        Err(Error::TakeProfitNotBelowPrice)
    );
    assert_eq!(Error::TakeProfitNotBelowPrice.message(), "Take-profit for short must be below current price");
}

#[test]
fn test_execute_take_profit_full_close() {
    let mut w = World::unit();
    let trader = w.trader();

    let market_id = 0u32;
    let collateral = 1_000_000_000u128;
    let leverage = 10u32;

    let position_id = w.open(trader, market_id, collateral, leverage, true).unwrap();

    let trigger_price = LONG_TP_PRICE;
    let order_id = w
        .take_profit(trader, position_id, trigger_price, 0i128, CLOSE_FULL, EXECUTION_FEE, 0u64)
        .unwrap();

    let keeper = w.newcomer(950, 1_000_000_000);

    w.set_price(market_id, trigger_price);

    let pnl = w.execute(keeper, order_id).unwrap();

    assert!(pnl > 0);
    assert_eq!(pnl, 1_000_000_000);

    let user_positions = w.positions_of(trader);
    assert_eq!(user_positions.len(), 0);
}

#[test]
fn test_execute_take_profit_partial_close() {
    let mut w = World::unit();
    let trader = w.trader();

    let market_id = 0u32;
    let collateral = 1_000_000_000u128;
    let leverage = 10u32;
    let initial_size = collateral * (leverage as u128);

    let position_id = w.open(trader, market_id, collateral, leverage, true).unwrap();

    let trigger_price = LONG_TP_PRICE;
    let order_id = w
        .take_profit(trader, position_id, trigger_price, 0i128, CLOSE_HALF, EXECUTION_FEE, 0u64)
        .unwrap();

    let keeper = w.newcomer(950, 1_000_000_000);

    w.set_price(market_id, trigger_price);

    let pnl = w.execute(keeper, order_id).unwrap();

    assert!(pnl > 0);
    assert_eq!(pnl, 500_000_000);

    let user_positions = w.positions_of(trader);
    assert_eq!(user_positions.len(), 1);

    let position = w.position(position_id).unwrap();
    assert!(position.size < initial_size);
}

#[test]
fn test_cancel_order_refund_fee() {
    let mut w = World::unit();
    let trader = w.trader();

    let order_id = w
        .limit_order(
            trader,
            0u32,
            95_000_000i128,
            0i128,
            1_000_000_000u128,
            10u32,
            true,
            EXECUTION_FEE,
            0u64,
        )
        .unwrap();

    let collateral = 1_000_000_000u128;
    let balance_after_create = w.balance(trader);

    w.cancel(trader, order_id).unwrap();

    let balance_after_cancel = w.balance(trader);
    assert_eq!(
        balance_after_cancel as u128,
        (balance_after_create as u128) + EXECUTION_FEE + collateral
    );

    let user_orders = w.manager.get_user_orders(trader);
    assert_eq!(user_orders.len(), 0);

    let market_orders = w.manager.get_market_orders(0u32);
    assert_eq!(market_orders.len(), 0);
}

#[test]
fn test_cancel_order_not_owner() {
    let mut w = World::unit();
    let trader = w.trader();

    let order_id = w
        .limit_order(
            trader,
            0u32,
            95_000_000i128,
            0i128,
            1_000_000_000u128,
            10u32,
            true,
            EXECUTION_FEE,
            0u64,
        )
        .unwrap();

    let other_user = w.newcomer(900, 10_000_000_000);

    assert_eq!(w.cancel(other_user, order_id), Err(Error::NotOrderOwner));
    assert!(w.order(order_id).is_ok());
    assert_eq!(Error::NotOrderOwner.message(), "Unauthorized: caller does not own this order");
}

#[test]
fn test_orders_cancelled_on_position_close() {
    let mut w = World::unit();
    let trader = w.trader();

    let position_id = w.open(trader, 0u32, 1_000_000_000u128, 10u32, true).unwrap();

    let sl_order_id = w
        .stop_loss(trader, position_id, LONG_SL_PRICE, 0i128, CLOSE_FULL, EXECUTION_FEE, 0u64)
        .unwrap();

    let tp_order_id = w
        .take_profit(trader, position_id, LONG_TP_PRICE, 0i128, CLOSE_FULL, EXECUTION_FEE, 0u64)
        .unwrap();

    let position_orders = w.manager.get_position_orders(position_id);
    assert_eq!(position_orders.len(), 2);

    let balance_before_close = w.balance(trader);

    w.close(trader, position_id).unwrap();

    let user_orders = w.manager.get_user_orders(trader);
    assert_eq!(user_orders.len(), 0);
    assert_eq!(w.order(sl_order_id), Err(Error::OrderNotFound));
    assert_eq!(w.order(tp_order_id), Err(Error::OrderNotFound));

    let balance_after_close = w.balance(trader);
    assert!(balance_after_close > balance_before_close);
    // The collateral and both fees are back.
    assert_eq!(
        balance_after_close,
        balance_before_close + 1_000_000_000 + 2 * (EXECUTION_FEE as i128)
    );
    assert_eq!(w.balance(w.manager_address()), 0);
}

#[test]
fn test_execute_order_trigger_not_met() {
    let mut w = World::unit();
    let trader = w.trader();

    let order_id = w
        .limit_order(
            trader,
            0u32,
            95_000_000i128,
            0i128,
            1_000_000_000u128,
            10u32,
            true,
            EXECUTION_FEE,
            0u64,
        )
        .unwrap();

    let keeper = w.newcomer(950, 1_000_000_000);

    assert_eq!(w.execute(keeper, order_id), Err(Error::TriggerNotMet));
    assert_eq!(Error::TriggerNotMet.message(), "Order trigger condition not met");
}

#[test]
fn test_execute_order_slippage_exceeded() {
    let mut w = World::unit();
    let trader = w.trader();

    // Buys once the price is at 0.95 or under, but at no more than 0.93.
    let order_id = w
        .limit_order(
            trader,
            0u32,
            95_000_000i128,
            93_000_000i128,
            1_000_000_000u128,
            10u32,
            true,
            EXECUTION_FEE,
            0u64,
        )
        .unwrap();

    let keeper = w.newcomer(950, 1_000_000_000);

    w.set_price(0u32, 94_000_000i128);

    assert_eq!(w.execute(keeper, order_id), Err(Error::SlippageExceeded));
    assert_eq!(Error::SlippageExceeded.message(), "Current price outside acceptable range");
}

#[test]
fn test_get_order() {
    let mut w = World::unit();
    let trader = w.trader();

    let order_id = w
        .limit_order(
            trader,
            0u32,
            95_000_000i128,
            96_000_000i128,
            1_000_000_000u128,
            10u32,
            true,
            EXECUTION_FEE,
            0u64,
        )
        .unwrap();

    let order = w.order(order_id).unwrap();

    assert_eq!(order.order_id, order_id);
    assert_eq!(order.trader, trader);
    assert_eq!(order.market_id, 0u32);
    assert_eq!(order.trigger_price, 95_000_000i128);
    assert_eq!(order.acceptable_price, 96_000_000i128);
    assert_eq!(order.collateral, 1_000_000_000u128);
    assert_eq!(order.leverage, 10u32);
    assert_eq!(order.is_long, true);
    assert_eq!(order.execution_fee, EXECUTION_FEE);
}

#[test]
fn test_get_nonexistent_order() {
    let w = World::unit();
    assert_eq!(w.order(999u64), Err(Error::OrderNotFound));
    assert_eq!(Error::OrderNotFound.message(), "Order not found");
}

#[test]
fn test_get_user_orders_empty() {
    let w = World::unit();
    let user_orders = w.manager.get_user_orders(w.trader());
    assert_eq!(user_orders.len(), 0);
}

#[test]
fn test_get_user_orders_multiple() {
    let mut w = World::unit();
    let trader = w.trader();

    let order1 = w
        .limit_order(
            trader,
            0u32,
            95_000_000i128,
            0i128,
            1_000_000_000u128,
            10u32,
            true,
            EXECUTION_FEE,
            0u64,
        )
        .unwrap();

    let order2 = w
        .limit_order(
            trader,
            1u32,
            105_000_000i128,
            0i128,
            1_000_000_000u128,
            10u32,
            false,
            EXECUTION_FEE,
            0u64,
        )
        .unwrap();

    let user_orders = w.manager.get_user_orders(trader);
    assert_eq!(user_orders.len(), 2);
    assert_eq!(user_orders[0], order1);
    assert_eq!(user_orders[1], order2);
}

#[test]
fn test_get_position_orders() {
    let mut w = World::unit();
    let trader = w.trader();

    let position_id = w.open(trader, 0u32, 1_000_000_000u128, 10u32, true).unwrap();

    let sl_order = w
        .stop_loss(trader, position_id, LONG_SL_PRICE, 0i128, CLOSE_FULL, EXECUTION_FEE, 0u64)
        .unwrap();

    let tp_order = w
        .take_profit(trader, position_id, LONG_TP_PRICE, 0i128, CLOSE_FULL, EXECUTION_FEE, 0u64)
        .unwrap();

    let position_orders = w.manager.get_position_orders(position_id);
    assert_eq!(position_orders.len(), 2);
    assert_eq!(position_orders[0], sl_order);
    assert_eq!(position_orders[1], tp_order);
}

#[test]
fn test_get_market_orders() {
    let mut w = World::unit();
    let trader = w.trader();

    let order_xlm = w
        .limit_order(
            trader,
            0u32,
            95_000_000i128,
            0i128,
            1_000_000_000u128,
            10u32,
            true,
            EXECUTION_FEE,
            0u64,
        )
        .unwrap();

    let order_btc = w
        .limit_order(
            trader,
            1u32,
            55_000_000_000i128,
            0i128,
            1_000_000_000u128,
            10u32,
            true,
            EXECUTION_FEE,
            0u64,
        )
        .unwrap();

    let xlm_orders = w.manager.get_market_orders(0u32);
    assert_eq!(xlm_orders.len(), 1);
    assert_eq!(xlm_orders[0], order_xlm);

    let btc_orders = w.manager.get_market_orders(1u32);
    assert_eq!(btc_orders.len(), 1);
    assert_eq!(btc_orders[0], order_btc);

    let eth_orders = w.manager.get_market_orders(2u32);
    assert_eq!(eth_orders.len(), 0);
}

#[test]
fn test_can_execute_order_true() {
    let mut w = World::unit();
    let trader = w.trader();

    let order_id = w
        .limit_order(
            trader,
            0u32,
            95_000_000i128,
            0i128,
            1_000_000_000u128,
            10u32,
            true,
            EXECUTION_FEE,
            0u64,
        )
        .unwrap();

    assert_eq!(w.can_execute(order_id), false);

    w.set_price(0u32, 95_000_000i128);

    assert_eq!(w.can_execute(order_id), true);
}

#[test]
fn test_can_execute_order_false_price_not_met() {
    let mut w = World::unit();
    let trader = w.trader();

    let order_id = w
        .limit_order(
            trader,
            0u32,
            95_000_000i128,
            0i128,
            1_000_000_000u128,
            10u32,
            true,
            EXECUTION_FEE,
            0u64,
        )
        .unwrap();

    assert_eq!(w.can_execute(order_id), false);
    assert_eq!(XLM_PRICE, w.oracle.get_price(0));
}
