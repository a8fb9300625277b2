use stellars_perps::config::{Component, ConfigKey, ConfigManager, Parameter, TimeParameter};
use stellars_perps::error::{Error, ErrorKind};
use stellars_perps::principal::Principal;

fn key(name: &str) -> ConfigKey {
    ConfigKey::from_name(name).unwrap()
}

fn initialized(admin: Principal) -> ConfigManager {
    let mut config = ConfigManager::new();
    config.initialize(admin).unwrap();
    config
}

#[test]
fn test_initialize_and_get_config() {
    let admin = Principal::new(1);
    let config = initialized(admin);

    assert_eq!(config.min_leverage(), 5);
    assert_eq!(config.max_leverage(), 20);
    assert_eq!(config.maker_fee_bps(), 2);
    assert_eq!(config.taker_fee_bps(), 5);
    assert_eq!(config.liquidation_threshold(), 9000);

    assert_eq!(config.admin(), Ok(admin));
}

#[test]
fn test_set_and_get_config() {
    let admin = Principal::new(1);
    let mut config = initialized(admin);

    let custom_key = key("CUSTOM");
    config.set_config(admin, custom_key, 12345).unwrap();
    assert_eq!(config.get_config(custom_key), 12345);

    config.set_config(admin, custom_key, 54321).unwrap();
    assert_eq!(config.get_config(custom_key), 54321);
}

#[test]
fn test_update_leverage_limits() {
    let admin = Principal::new(1);
    let mut config = initialized(admin);

    let custom_min_key = key("CUST_MIN");
    let custom_max_key = key("CUST_MAX");

    config.set_config(admin, custom_min_key, 10).unwrap();
    assert_eq!(config.get_config(custom_min_key), 10);

    config.set_config(admin, custom_max_key, 15).unwrap();
    assert_eq!(config.get_config(custom_max_key), 15);

    // The named parameters are not reached by the keyed ones.
    assert_eq!(config.min_leverage(), 5);
    assert_eq!(config.max_leverage(), 20);
}

#[test]
fn test_admin_transfer() {
    let admin1 = Principal::new(1);
    let admin2 = Principal::new(2);
    let mut config = initialized(admin1);
    assert_eq!(config.admin(), Ok(admin1));

    config.set_admin(admin1, admin2).unwrap();
    assert_eq!(config.admin(), Ok(admin2));
}

#[test]
fn test_contract_registry() {
    let admin = Principal::new(1);
    let lp_contract = Principal::new(2);
    let pm_contract = Principal::new(3);
    let mm_contract = Principal::new(4);
    let oi_contract = Principal::new(5);
    let mut config = initialized(admin);

    config.set_liquidity_pool(admin, lp_contract).unwrap();
    config.set_position_manager(admin, pm_contract).unwrap();
    config.set_market_manager(admin, mm_contract).unwrap();
    config.set_oracle_integrator(admin, oi_contract).unwrap();

    assert_eq!(config.liquidity_pool(), Ok(lp_contract));
    assert_eq!(config.position_manager(), Ok(pm_contract));
    assert_eq!(config.market_manager(), Ok(mm_contract));
    assert_eq!(config.oracle_integrator(), Ok(oi_contract));
}

#[test]
fn test_registry_update_addresses() {
    let admin = Principal::new(1);
    let lp_contract_v1 = Principal::new(2);
    let lp_contract_v2 = Principal::new(3);
    let mut config = initialized(admin);

    config.set_liquidity_pool(admin, lp_contract_v1).unwrap();
    assert_eq!(config.liquidity_pool(), Ok(lp_contract_v1));

    config.set_liquidity_pool(admin, lp_contract_v2).unwrap();
    assert_eq!(config.liquidity_pool(), Ok(lp_contract_v2));
}

#[test]
fn initialize_sets_every_default() {
    let config = initialized(Principal::new(1));
    assert_eq!(config.min_position_size(), 10_000_000);
    assert_eq!(config.liquidation_fee_bps(), 50);
    assert_eq!(config.maintenance_margin(), 5000);
    assert_eq!(config.max_price_deviation_bps(), 500);
    assert_eq!(config.max_utilization_ratio(), 8000);
    assert_eq!(config.min_liquidity_reserve_ratio(), 0);
    assert_eq!(config.borrow_rate_per_second(), 0);
    assert_eq!(config.min_execution_fee(), 1_000_000);
    assert_eq!(config.funding_interval(), 60);
    assert_eq!(config.price_staleness_threshold(), 60);
}

#[test]
fn a_store_that_was_not_initialized_holds_zeroes() {
    let config = ConfigManager::new();
    assert_eq!(config.min_leverage(), 0);
    assert_eq!(config.funding_interval(), 0);
    assert_eq!(config.get_config(key("CUSTOM")), 0);
    assert_eq!(config.admin(), Err(Error::NotInitialized));
    assert_eq!(config.token(), Err(Error::NotInitialized));
}

#[test]
fn initialize_twice_is_refused_and_changes_nothing() {
    let admin = Principal::new(1);
    let mut config = initialized(admin);
    config.set_parameter(admin, Parameter::MinLeverage, 2).unwrap();
    assert_eq!(config.initialize(Principal::new(9)), Err(Error::AlreadyInitialized));
    assert_eq!(config.admin(), Ok(admin));
    assert_eq!(config.min_leverage(), 2);
}

#[test]
fn only_the_admin_writes() {
    let admin = Principal::new(1);
    let other = Principal::new(2);
    let mut config = initialized(admin);

    assert_eq!(config.set_config(other, key("CUSTOM"), 1), Err(Error::Unauthorized));
    assert_eq!(config.get_config(key("CUSTOM")), 0);
    assert_eq!(config.set_admin(other, other), Err(Error::Unauthorized));
    assert_eq!(config.set_token(other, other), Err(Error::Unauthorized));
    assert_eq!(config.token(), Err(Error::NotInitialized));
    assert_eq!(
        config.set_parameter(other, Parameter::MaxLeverage, 100),
        Err(Error::Unauthorized)
    );
    assert_eq!(config.max_leverage(), 20);
    assert_eq!(
        config.set_time_parameter(other, TimeParameter::FundingInterval, 1),
        Err(Error::Unauthorized)
    );
    assert_eq!(config.funding_interval(), 60);

    let mut fresh = ConfigManager::new();
    assert_eq!(fresh.set_config(admin, key("CUSTOM"), 1), Err(Error::NotInitialized));
}

#[test]
fn named_parameters_are_set_one_by_one() {
    let admin = Principal::new(1);
    let mut config = initialized(admin);
    config.set_parameter(admin, Parameter::MinLiquidityReserveRatio, 2500).unwrap();
    config.set_parameter(admin, Parameter::BorrowRatePerSecond, 3).unwrap();
    config.set_time_parameter(admin, TimeParameter::PriceStalenessThreshold, 30).unwrap();
    assert_eq!(config.min_liquidity_reserve_ratio(), 2500);
    assert_eq!(config.borrow_rate_per_second(), 3);
    assert_eq!(config.price_staleness_threshold(), 30);
    assert_eq!(config.max_utilization_ratio(), 8000);
    assert_eq!(config.funding_interval(), 60);
}

#[test]
fn a_keyed_amount_is_no_time() {
    let admin = Principal::new(1);
    let mut config = initialized(admin);
    assert_eq!(config.get_time_config(key("CUSTOM")), Ok(0));
    config.set_config(admin, key("CUSTOM"), 60).unwrap();
    assert_eq!(config.get_time_config(key("CUSTOM")), Err(Error::ConfigTypeMismatch));
}

#[test]
fn every_error_has_its_kind() {
    assert_eq!(Error::Unauthorized.kind(), ErrorKind::Authorization);
    assert_eq!(Error::NotPositionOwner.kind(), ErrorKind::Authorization);
    assert_eq!(Error::NotOrderOwner.kind(), ErrorKind::Authorization);
    assert_eq!(Error::ZeroCollateral.kind(), ErrorKind::Validation);
    assert_eq!(Error::LeverageTooHigh.kind(), ErrorKind::Validation);
    assert_eq!(Error::InvalidClosePercentage.kind(), ErrorKind::Validation);
    assert_eq!(Error::PositionNotFound.kind(), ErrorKind::State);
    assert_eq!(Error::AlreadyInitialized.kind(), ErrorKind::State);
    assert_eq!(Error::OrderExpired.kind(), ErrorKind::State);
    assert_eq!(Error::OpenInterestExceeded.kind(), ErrorKind::InvariantViolation);
    assert_eq!(Error::UtilizationExceeded.kind(), ErrorKind::InvariantViolation);
    assert_eq!(Error::ReserveRatioViolated.kind(), ErrorKind::InvariantViolation);
    assert_eq!(Error::NotLiquidatable.kind(), ErrorKind::InvariantViolation);
    assert_eq!(Error::InsufficientLiquidity.kind(), ErrorKind::InvariantViolation);
    assert_eq!(Error::Overflow.kind(), ErrorKind::Arithmetic);
    assert_eq!(Error::DivisionByZero.kind(), ErrorKind::Arithmetic);
}

#[test]
fn a_key_is_a_short_name() {
    assert!(ConfigKey::from_name("CUSTOM").is_some());
    assert!(ConfigKey::from_name("cust_min_9").is_some());
    assert!(ConfigKey::from_name("").is_some());
    assert!(ConfigKey::from_name("ELEVEN_CHAR").is_none());
    assert!(ConfigKey::from_name("with space").is_none());
    assert!(ConfigKey::from_name("dash-ed").is_none());
    assert!(ConfigKey::from_name("caf\u{e9}").is_none());
}

#[test]
fn a_key_stands_for_its_name_alone() {
    // `_` is the first digit, `0` the second, `A` the twelfth, `a` the
    // thirty-eighth, `z` the last.
    assert_eq!(key("").code, 0);
    assert_eq!(key("_").code, 1);
    assert_eq!(key("0").code, 2);
    assert_eq!(key("9").code, 11);
    assert_eq!(key("A").code, 12);
    assert_eq!(key("Z").code, 37);
    assert_eq!(key("a").code, 38);
    assert_eq!(key("z").code, 63);
    assert_eq!(key("_0").code, 66);
    assert_eq!(key("zzzzzzzzzz").code, (1u64 << 60) - 1);
    let names = ["A", "_A", "A_", "AA", "a", "CUSTOM", "CUSTOm", "CUST_MIN", "CUST_MAX", "0", "00"];
    for (i, a) in names.iter().enumerate() {
        for (j, b) in names.iter().enumerate() {
            assert_eq!(key(a) == key(b), i == j);
        }
    }
}

#[test]
fn a_parameter_is_read_by_its_name() {
    let admin = Principal::new(1);
    let mut config = initialized(admin);
    assert_eq!(config.parameter(Parameter::MaxLeverage), 20);
    assert_eq!(config.parameter(Parameter::MinExecutionFee), 1_000_000);
    assert_eq!(config.time_parameter(TimeParameter::FundingInterval), 60);
    config.set_parameter(admin, Parameter::TakerFeeBps, 7).unwrap();
    assert_eq!(config.parameter(Parameter::TakerFeeBps), 7);
    assert_eq!(config.taker_fee_bps(), 7);
    assert_eq!(config.parameter(Parameter::MakerFeeBps), 2);

    assert_eq!(config.component(Component::Token), Err(Error::NotInitialized));
    config.set_token(admin, Principal::new(15)).unwrap();
    assert_eq!(config.component(Component::Token), Ok(Principal::new(15)));
    assert_eq!(config.component(Component::LiquidityPool), Err(Error::NotInitialized));
}
