//! The parameter store: one administrator, the venue's limits and rates, and
//! the registry of its components.

use vstd::prelude::*;
use vstd::string::StringSliceAdditionalSpecFns;
use std::collections::HashMap;
use crate::error::Error;
use crate::principal::{require_principal, Principal};

verus! {

broadcast use vstd::std_specs::hash::group_hash_axioms;

/// The place of a character among those that a key may hold: the
/// underscore, the digits, the capital and the small letters. Zero for
/// every other character.
pub open spec fn spec_digit(c: u8) -> int {
    if c == 95 {
        1
    } else if 48 <= c <= 57 {
        c - 48 + 2
    } else if 65 <= c <= 90 {
        c - 65 + 12
    } else if 97 <= c <= 122 {
        c - 97 + 38
    } else {
        0
    }
}

/// Whether `name` can be a key: at most ten characters, each of them one
/// that a key may hold.
pub open spec fn valid_name(name: Seq<u8>) -> bool {
    name.len() <= 10 && forall|i: int| 0 <= i < name.len() ==> spec_digit(#[trigger] name[i]) != 0
}

/// The number that stands for `name`: its characters as digits to the base
/// 64, the first character in the highest place.
pub open spec fn pack(name: Seq<u8>) -> int
    decreases name.len(),
{
    if name.len() == 0 {
        0
    } else {
        pack(name.drop_last()) * 64 + spec_digit(name.last())
    }
}

/// 64 to the power of `n`.
pub open spec fn places(n: nat) -> int
    decreases n,
{
    if n == 0 {
        1
    } else {
        64 * places((n - 1) as nat)
    }
}

/// The number of a name is less than 64 to the power of its length.
pub proof fn lemma_pack_bounded(name: Seq<u8>)
    requires
        forall|i: int| 0 <= i < name.len() ==> spec_digit(#[trigger] name[i]) != 0,
    ensures
        0 <= pack(name) < places(name.len()),
        name.len() > 0 ==> pack(name) > 0,
    decreases name.len(),
{
    if name.len() > 0 {
        let rest = name.drop_last();
        assert forall|i: int| 0 <= i < rest.len() implies spec_digit(#[trigger] rest[i]) != 0 by {
            assert(rest[i] == name[i]);
        }
        lemma_pack_bounded(rest);
        assert(name.last() == name[name.len() - 1]);
    }
}

/// Ten places hold less than two to the power of sixty, and fewer places
/// hold less.
pub proof fn lemma_places_bounded(n: nat)
    requires
        n <= 10,
    ensures
        1 <= places(n) <= 0x1000_0000_0000_0000,
    decreases 10 - n,
{
    reveal_with_fuel(places, 11);
    if n < 10 {
        lemma_places_bounded(n + 1);
    }
}

/// Two names that can be keys stand for the same number only if they are
/// the same name.
pub proof fn lemma_pack_injective(a: Seq<u8>, b: Seq<u8>)
    requires
        forall|i: int| 0 <= i < a.len() ==> spec_digit(#[trigger] a[i]) != 0,
        forall|i: int| 0 <= i < b.len() ==> spec_digit(#[trigger] b[i]) != 0,
        pack(a) == pack(b),
    ensures
        a == b,
    decreases a.len(),
{
    lemma_pack_bounded(a);
    lemma_pack_bounded(b);
    if a.len() > 0 && b.len() > 0 {
        let ra = a.drop_last();
        let rb = b.drop_last();
        assert forall|i: int| 0 <= i < ra.len() implies spec_digit(#[trigger] ra[i]) != 0 by {
            assert(ra[i] == a[i]);
        }
        assert forall|i: int| 0 <= i < rb.len() implies spec_digit(#[trigger] rb[i]) != 0 by {
            assert(rb[i] == b[i]);
        }
        assert(a.last() == a[a.len() - 1]);
        assert(b.last() == b[b.len() - 1]);
        let da = spec_digit(a.last());
        let db = spec_digit(b.last());
        assert(1 <= da <= 63 && 1 <= db <= 63);
        assert(pack(ra) * 64 + da == pack(rb) * 64 + db);
        assert(pack(ra) == pack(rb) && da == db);
        lemma_pack_injective(ra, rb);
        assert(a.last() == b.last());
        assert(a =~= ra.push(a.last()));
        assert(b =~= rb.push(b.last()));
    } else {
        assert(a.len() == 0 && b.len() == 0);
        assert(a =~= b);
    }
}

/// The key of a parameter without a name of its own: a short name, held as
/// the number that stands for it.
#[derive(Clone, Copy, Debug, PartialEq, Eq, Structural)]
pub struct ConfigKey {
    /// The number that stands for the name.
    pub code: u64,
}

impl ConfigKey {
    /// The place of `c` among the characters that a key may hold.
    fn digit(c: u8) -> (d: u64)
        ensures
            d == spec_digit(c),
    {
        if c == 95 {
            1
        } else if 48 <= c && c <= 57 {
            (c - 48 + 2) as u64
        } else if 65 <= c && c <= 90 {
            (c - 65 + 12) as u64
        } else if 97 <= c && c <= 122 {
            (c - 97 + 38) as u64
        } else {
            0
        }
    }

    /// The key with the name `name`, or `None` where `name` is too long or
    /// holds a character that no key may hold.
    pub fn from_name(name: &str) -> (r: Option<ConfigKey>)
        ensures
            r.is_some() <==> valid_name(name.spec_bytes()),
            r.is_some() ==> r.unwrap().code == pack(name.spec_bytes()),
    {
        let bytes = name.as_bytes();
        if bytes.len() > 10 {
            return None;
        }
        let mut code: u64 = 0;
        let mut i: usize = 0;
        while i < bytes.len()
            invariant
                bytes@ == name.spec_bytes(),
                i <= bytes@.len() <= 10,
                forall|j: int| 0 <= j < i ==> spec_digit(#[trigger] bytes@[j]) != 0,
                code == pack(bytes@.take(i as int)),
            decreases bytes@.len() - i,
        {
            let d = ConfigKey::digit(bytes[i]);
            if d == 0 {
                assert(spec_digit(bytes@[i as int]) == 0);
                return None;
            }
            proof {
                let before = bytes@.take(i as int);
                let next = bytes@.take(i + 1);
                assert(next.drop_last() =~= before);
                assert(next.last() == bytes@[i as int]);
                assert forall|j: int| 0 <= j < before.len() implies spec_digit(
                    #[trigger] before[j],
                ) != 0 by {
                    assert(before[j] == bytes@[j]);
                }
                lemma_pack_bounded(before);
                lemma_places_bounded((i + 1) as nat);
                assert(places((i + 1) as nat) == 64 * places(i as nat));
            }
            code = code * 64 + d;
            i = i + 1;
        }
        assert(bytes@.take(bytes@.len() as int) =~= bytes@);
        Some(ConfigKey { code })
    }
}

/// A parameter with a name of its own, held as a signed number.
#[derive(Clone, Copy, Debug, PartialEq, Eq, Structural)]
pub enum Parameter {
    /// The smallest leverage a position may open with.
    MinLeverage,
    /// The largest leverage a position may open with.
    MaxLeverage,
    /// The smallest size of a position.
    MinPositionSize,
    /// The maker fee, in basis points.
    MakerFeeBps,
    /// The taker fee, in basis points.
    TakerFeeBps,
    /// The liquidation fee, in basis points of the size.
    LiquidationFeeBps,
    /// The liquidation threshold, in basis points.
    LiquidationThreshold,
    /// The maintenance margin, in basis points.
    MaintenanceMargin,
    /// The largest deviation between price sources, in basis points.
    MaxPriceDeviationBps,
    /// The ceiling of the pool's utilization, in basis points.
    MaxUtilizationRatio,
    /// The smallest share of the pool that must stay unreserved after a
    /// withdrawal, in basis points.
    MinLiquidityReserveRatio,
    /// What a position pays per second for the liquidity it reserves, in
    /// ten-millionths of its size.
    BorrowRatePerSecond,
    /// The smallest execution fee of an order.
    MinExecutionFee,
}

/// A parameter with a name of its own, held as a number of seconds.
#[derive(Clone, Copy, Debug, PartialEq, Eq, Structural)]
pub enum TimeParameter {
    /// The least time between two funding updates of a market.
    FundingInterval,
    /// The greatest age of a price.
    PriceStalenessThreshold,
}

/// A component of the venue that the registry knows.
#[derive(Clone, Copy, Debug, PartialEq, Eq, Structural)]
pub enum Component {
    /// The liquidity pool.
    LiquidityPool,
    /// The position manager.
    PositionManager,
    /// The market manager.
    MarketManager,
    /// The oracle integrator.
    OracleIntegrator,
    /// The token ledger.
    Token,
}

/// The named parameters, as a record.
#[derive(Clone, Copy, Debug, PartialEq, Eq, Structural)]
pub struct Parameters {
    /// See [`Parameter::MinLeverage`].
    pub min_leverage: i128,
    /// See [`Parameter::MaxLeverage`].
    pub max_leverage: i128,
    /// See [`Parameter::MinPositionSize`].
    pub min_position_size: i128,
    /// See [`Parameter::MakerFeeBps`].
    pub maker_fee_bps: i128,
    /// See [`Parameter::TakerFeeBps`].
    pub taker_fee_bps: i128,
    /// See [`Parameter::LiquidationFeeBps`].
    pub liquidation_fee_bps: i128,
    /// See [`Parameter::LiquidationThreshold`].
    pub liquidation_threshold: i128,
    /// See [`Parameter::MaintenanceMargin`].
    pub maintenance_margin: i128,
    /// See [`Parameter::MaxPriceDeviationBps`].
    pub max_price_deviation_bps: i128,
    /// See [`Parameter::MaxUtilizationRatio`].
    pub max_utilization_ratio: i128,
    /// See [`Parameter::MinLiquidityReserveRatio`].
    pub min_liquidity_reserve_ratio: i128,
    /// See [`Parameter::BorrowRatePerSecond`].
    pub borrow_rate_per_second: i128,
    /// See [`Parameter::MinExecutionFee`].
    pub min_execution_fee: i128,
    /// See [`TimeParameter::FundingInterval`].
    pub funding_interval: u64,
    /// See [`TimeParameter::PriceStalenessThreshold`].
    pub price_staleness_threshold: u64,
}

/// The registry of components.
#[derive(Clone, Copy, Debug, PartialEq, Eq, Structural)]
pub struct Registry {
    /// The liquidity pool, once set.
    pub liquidity_pool: Option<Principal>,
    /// The position manager, once set.
    pub position_manager: Option<Principal>,
    /// The market manager, once set.
    pub market_manager: Option<Principal>,
    /// The oracle integrator, once set.
    pub oracle_integrator: Option<Principal>,
    /// The token ledger, once set.
    pub token: Option<Principal>,
}

impl Parameters {
    /// All parameters zero, as before initialization.
    pub open spec fn spec_unset() -> Parameters {
        Parameters {
            min_leverage: 0,
            max_leverage: 0,
            min_position_size: 0,
            maker_fee_bps: 0,
            taker_fee_bps: 0,
            liquidation_fee_bps: 0,
            liquidation_threshold: 0,
            maintenance_margin: 0,
            max_price_deviation_bps: 0,
            max_utilization_ratio: 0,
            min_liquidity_reserve_ratio: 0,
            borrow_rate_per_second: 0,
            min_execution_fee: 0,
            funding_interval: 0,
            price_staleness_threshold: 0,
        }
    }

    /// The values that initialization sets.
    pub open spec fn spec_defaults() -> Parameters {
        Parameters {
            min_leverage: 5,
            max_leverage: 20,
            min_position_size: 10_000_000,
            maker_fee_bps: 2,
            taker_fee_bps: 5,
            liquidation_fee_bps: 50,
            liquidation_threshold: 9000,
            maintenance_margin: 5000,
            max_price_deviation_bps: 500,
            max_utilization_ratio: 8000,
            min_liquidity_reserve_ratio: 0,
            borrow_rate_per_second: 0,
            min_execution_fee: 1_000_000,
            funding_interval: 60,
            price_staleness_threshold: 60,
        }
    }

    /// All parameters zero, as before initialization.
    pub fn unset() -> (p: Parameters)
        ensures
            p == Parameters::spec_unset(),
    {
        Parameters {
            min_leverage: 0,
            max_leverage: 0,
            min_position_size: 0,
            maker_fee_bps: 0,
            taker_fee_bps: 0,
            liquidation_fee_bps: 0,
            liquidation_threshold: 0,
            maintenance_margin: 0,
            max_price_deviation_bps: 0,
            max_utilization_ratio: 0,
            min_liquidity_reserve_ratio: 0,
            borrow_rate_per_second: 0,
            min_execution_fee: 0,
            funding_interval: 0,
            price_staleness_threshold: 0,
        }
    }

    /// The values that initialization sets.
    pub fn defaults() -> (p: Parameters)
        ensures
            p == Parameters::spec_defaults(),
    {
        Parameters {
            min_leverage: 5,
            max_leverage: 20,
            min_position_size: 10_000_000,
            maker_fee_bps: 2,
            taker_fee_bps: 5,
            liquidation_fee_bps: 50,
            liquidation_threshold: 9000,
            maintenance_margin: 5000,
            max_price_deviation_bps: 500,
            max_utilization_ratio: 8000,
            min_liquidity_reserve_ratio: 0,
            borrow_rate_per_second: 0,
            min_execution_fee: 1_000_000,
            funding_interval: 60,
            price_staleness_threshold: 60,
        }
    }

    /// The value of `which`.
    pub open spec fn spec_get(self, which: Parameter) -> i128 {
        match which {
            Parameter::MinLeverage => self.min_leverage,
            Parameter::MaxLeverage => self.max_leverage,
            Parameter::MinPositionSize => self.min_position_size,
            Parameter::MakerFeeBps => self.maker_fee_bps,
            Parameter::TakerFeeBps => self.taker_fee_bps,
            Parameter::LiquidationFeeBps => self.liquidation_fee_bps,
            Parameter::LiquidationThreshold => self.liquidation_threshold,
            Parameter::MaintenanceMargin => self.maintenance_margin,
            Parameter::MaxPriceDeviationBps => self.max_price_deviation_bps,
            Parameter::MaxUtilizationRatio => self.max_utilization_ratio,
            Parameter::MinLiquidityReserveRatio => self.min_liquidity_reserve_ratio,
            Parameter::BorrowRatePerSecond => self.borrow_rate_per_second,
            Parameter::MinExecutionFee => self.min_execution_fee,
        }
    }

    /// These parameters with `which` set to `value`.
    pub open spec fn spec_with(self, which: Parameter, value: i128) -> Parameters {
        match which {
            Parameter::MinLeverage => Parameters { min_leverage: value, ..self },
            Parameter::MaxLeverage => Parameters { max_leverage: value, ..self },
            Parameter::MinPositionSize => Parameters { min_position_size: value, ..self },
            Parameter::MakerFeeBps => Parameters { maker_fee_bps: value, ..self },
            Parameter::TakerFeeBps => Parameters { taker_fee_bps: value, ..self },
            Parameter::LiquidationFeeBps => Parameters { liquidation_fee_bps: value, ..self },
            Parameter::LiquidationThreshold => Parameters { liquidation_threshold: value, ..self },
            Parameter::MaintenanceMargin => Parameters { maintenance_margin: value, ..self },
            Parameter::MaxPriceDeviationBps => Parameters {
                max_price_deviation_bps: value,
                ..self
            },
            Parameter::MaxUtilizationRatio => Parameters { max_utilization_ratio: value, ..self },
            Parameter::MinLiquidityReserveRatio => Parameters {
                min_liquidity_reserve_ratio: value,
                ..self
            },
            Parameter::BorrowRatePerSecond => Parameters { borrow_rate_per_second: value, ..self },
            Parameter::MinExecutionFee => Parameters { min_execution_fee: value, ..self },
        }
    }

    /// The value of `which`.
    pub open spec fn spec_get_time(self, which: TimeParameter) -> u64 {
        match which {
            TimeParameter::FundingInterval => self.funding_interval,
            TimeParameter::PriceStalenessThreshold => self.price_staleness_threshold,
        }
    }

    /// These parameters with `which` set to `value`.
    pub open spec fn spec_with_time(self, which: TimeParameter, value: u64) -> Parameters {
        match which {
            TimeParameter::FundingInterval => Parameters { funding_interval: value, ..self },
            TimeParameter::PriceStalenessThreshold => Parameters {
                price_staleness_threshold: value,
                ..self
            },
        }
    }
}

impl Registry {
    /// The registry with nothing set.
    pub open spec fn spec_empty() -> Registry {
        Registry {
            liquidity_pool: None,
            position_manager: None,
            market_manager: None,
            oracle_integrator: None,
            token: None,
        }
    }

    /// Where `which` is, if it was set.
    pub open spec fn spec_get(self, which: Component) -> Option<Principal> {
        match which {
            Component::LiquidityPool => self.liquidity_pool,
            Component::PositionManager => self.position_manager,
            Component::MarketManager => self.market_manager,
            Component::OracleIntegrator => self.oracle_integrator,
            Component::Token => self.token,
        }
    }

    /// This registry with `which` at `contract`.
    pub open spec fn spec_with(self, which: Component, contract: Principal) -> Registry {
        match which {
            Component::LiquidityPool => Registry { liquidity_pool: Some(contract), ..self },
            Component::PositionManager => Registry { position_manager: Some(contract), ..self },
            Component::MarketManager => Registry { market_manager: Some(contract), ..self },
            Component::OracleIntegrator => Registry { oracle_integrator: Some(contract), ..self },
            Component::Token => Registry { token: Some(contract), ..self },
        }
    }
}

/// The parameter store.
///
/// Anyone may read; only the administrator may write.
pub struct ConfigManager {
    /// The administrator, once initialized.
    pub admin: Option<Principal>,
    /// The named parameters.
    pub parameters: Parameters,
    /// The registry of components.
    pub registry: Registry,
    /// The parameters without a name of their own, by the number of their
    /// key.
    pub custom: HashMap<u64, i128>,
}

impl ConfigManager {
    /// Why `caller` may not write, if it may not.
    pub open spec fn admin_check(&self, caller: Principal) -> Result<(), Error> {
        match self.admin {
            None => Err(Error::NotInitialized),
            Some(a) => if a == caller {
                Ok(())
            } else {
                Err(Error::Unauthorized)
            },
        }
    }

    /// The value under `key`, zero where nothing was set.
    pub open spec fn spec_get_config(&self, key: ConfigKey) -> i128 {
        if self.custom@.contains_key(key.code) {
            self.custom@[key.code]
        } else {
            0
        }
    }

    /// A store that has not been initialized: no administrator, every
    /// parameter zero, an empty registry.
    pub fn new() -> (c: ConfigManager)
        ensures
            c.admin.is_none(),
            c.parameters == Parameters::spec_unset(),
            c.registry == Registry::spec_empty(),
            c.custom@ == Map::<u64, i128>::empty(),
    {
        ConfigManager {
            admin: None,
            parameters: Parameters::unset(),
            registry: Registry {
                liquidity_pool: None,
                position_manager: None,
                market_manager: None,
                oracle_integrator: None,
                token: None,
            },
            custom: HashMap::new(),
        }
    }

    /// Checks that `caller` is the administrator.
    fn require_admin(&self, caller: Principal) -> (r: Result<(), Error>)
        ensures
            r == self.admin_check(caller),
    {
        match self.admin {
            None => Err(Error::NotInitialized),
            Some(admin) => require_principal(caller, admin),
        }
    }

    /// Names the administrator and sets the named parameters to their
    /// defaults, once. No reserve is kept back from withdrawals and nothing
    /// is charged for borrowing until the administrator says so.
    pub fn initialize(&mut self, admin: Principal) -> (r: Result<(), Error>)
        ensures
            r == (if old(self).admin.is_some() {
                Err::<(), Error>(Error::AlreadyInitialized)
            } else {
                Ok(())
            }),
            r.is_err() ==> *final(self) == *old(self),
            r.is_ok() ==> *final(self) == (ConfigManager {
                admin: Some(admin),
                parameters: Parameters::spec_defaults(),
                ..*old(self)
            }),
    {
        if self.admin.is_some() {
            return Err(Error::AlreadyInitialized);
        }
        self.admin = Some(admin);
        self.parameters = Parameters::defaults();
        Ok(())
    }

    /// Sets the parameter under `key`.
    pub fn set_config(&mut self, admin: Principal, key: ConfigKey, value: i128) -> (r: Result<
        (),
        Error,
    >)
        ensures
            r == old(self).admin_check(admin),
            r.is_err() ==> *final(self) == *old(self),
            r.is_ok() ==> {
                &&& final(self).custom@ == old(self).custom@.insert(key.code, value)
                &&& *final(self) == (ConfigManager { custom: final(self).custom, ..*old(self) })
            },
    {
        match self.require_admin(admin) {
            Err(e) => {
                return Err(e);
            },
            Ok(()) => {},
        }
        self.custom.insert(key.code, value);
        Ok(())
    }

    /// The parameter under `key`, zero where nothing was set.
    pub fn get_config(&self, key: ConfigKey) -> (r: i128)
        ensures
            r == self.spec_get_config(key),
    {
        match self.custom.get(&key.code) {
            Some(v) => *v,
            None => 0,
        }
    }

    /// The parameter under `key` as a number of seconds: zero where nothing
    /// was set. What `set_config` stored is a signed amount and cannot be
    /// read as seconds.
    pub fn get_time_config(&self, key: ConfigKey) -> (r: Result<u64, Error>)
        ensures
            r == (if self.custom@.contains_key(key.code) {
                Err::<u64, Error>(Error::ConfigTypeMismatch)
            } else {
                Ok(0u64)
            }),
    {
        if self.custom.contains_key(&key.code) {
            Err(Error::ConfigTypeMismatch)
        } else {
            Ok(0)
        }
    }

    /// Hands the administration over to `new_admin`.
    pub fn set_admin(&mut self, current_admin: Principal, new_admin: Principal) -> (r: Result<
        (),
        Error,
    >)
        ensures
            r == old(self).admin_check(current_admin),
            r.is_err() ==> *final(self) == *old(self),
            r.is_ok() ==> *final(self) == (ConfigManager { admin: Some(new_admin), ..*old(self) }),
    {
        match self.require_admin(current_admin) {
            Err(e) => {
                return Err(e);
            },
            Ok(()) => {},
        }
        self.admin = Some(new_admin);
        Ok(())
    }

    /// The administrator.
    pub fn admin(&self) -> (r: Result<Principal, Error>)
        ensures
            r == (match self.admin {
                Some(a) => Ok::<Principal, Error>(a),
                None => Err(Error::NotInitialized),
            }),
    {
        match self.admin {
            Some(a) => Ok(a),
            None => Err(Error::NotInitialized),
        }
    }

    /// Sets a named parameter.
    pub fn set_parameter(&mut self, admin: Principal, which: Parameter, value: i128) -> (r:
        Result<(), Error>)
        ensures
            r == old(self).admin_check(admin),
            r.is_err() ==> *final(self) == *old(self),
            r.is_ok() ==> *final(self) == (ConfigManager {
                parameters: old(self).parameters.spec_with(which, value),
                ..*old(self)
            }),
    {
        match self.require_admin(admin) {
            Err(e) => {
                return Err(e);
            },
            Ok(()) => {},
        }
        match which {
            Parameter::MinLeverage => {
                self.parameters.min_leverage = value;
            },
            Parameter::MaxLeverage => {
                self.parameters.max_leverage = value;
            },
            Parameter::MinPositionSize => {
                self.parameters.min_position_size = value;
            },
            Parameter::MakerFeeBps => {
                self.parameters.maker_fee_bps = value;
            },
            Parameter::TakerFeeBps => {
                self.parameters.taker_fee_bps = value;
            },
            Parameter::LiquidationFeeBps => {
                self.parameters.liquidation_fee_bps = value;
            },
            Parameter::LiquidationThreshold => {
                self.parameters.liquidation_threshold = value;
            },
            Parameter::MaintenanceMargin => {
                self.parameters.maintenance_margin = value;
            },
            Parameter::MaxPriceDeviationBps => {
                self.parameters.max_price_deviation_bps = value;
            },
            Parameter::MaxUtilizationRatio => {
                self.parameters.max_utilization_ratio = value;
            },
            Parameter::MinLiquidityReserveRatio => {
                self.parameters.min_liquidity_reserve_ratio = value;
            },
            Parameter::BorrowRatePerSecond => {
                self.parameters.borrow_rate_per_second = value;
            },
            Parameter::MinExecutionFee => {
                self.parameters.min_execution_fee = value;
            },
        }
        Ok(())
    }

    /// The value of a named parameter.
    pub fn parameter(&self, which: Parameter) -> (r: i128)
        ensures
            r == self.parameters.spec_get(which),
    {
        match which {
            Parameter::MinLeverage => self.parameters.min_leverage,
            Parameter::MaxLeverage => self.parameters.max_leverage,
            Parameter::MinPositionSize => self.parameters.min_position_size,
            Parameter::MakerFeeBps => self.parameters.maker_fee_bps,
            Parameter::TakerFeeBps => self.parameters.taker_fee_bps,
            Parameter::LiquidationFeeBps => self.parameters.liquidation_fee_bps,
            Parameter::LiquidationThreshold => self.parameters.liquidation_threshold,
            Parameter::MaintenanceMargin => self.parameters.maintenance_margin,
            Parameter::MaxPriceDeviationBps => self.parameters.max_price_deviation_bps,
            Parameter::MaxUtilizationRatio => self.parameters.max_utilization_ratio,
            Parameter::MinLiquidityReserveRatio => self.parameters.min_liquidity_reserve_ratio,
            Parameter::BorrowRatePerSecond => self.parameters.borrow_rate_per_second,
            Parameter::MinExecutionFee => self.parameters.min_execution_fee,
        }
    }

    /// The value of a named time parameter.
    pub fn time_parameter(&self, which: TimeParameter) -> (r: u64)
        ensures
            r == self.parameters.spec_get_time(which),
    {
        match which {
            TimeParameter::FundingInterval => self.parameters.funding_interval,
            TimeParameter::PriceStalenessThreshold => self.parameters.price_staleness_threshold,
        }
    }

    /// Where a component is, or that it was never set.
    pub fn component(&self, which: Component) -> (r: Result<Principal, Error>)
        ensures
            r == ConfigManager::spec_lookup(self.registry.spec_get(which)),
    {
        match which {
            Component::LiquidityPool => ConfigManager::lookup(self.registry.liquidity_pool),
            Component::PositionManager => ConfigManager::lookup(self.registry.position_manager),
            Component::MarketManager => ConfigManager::lookup(self.registry.market_manager),
            Component::OracleIntegrator => ConfigManager::lookup(self.registry.oracle_integrator),
            Component::Token => ConfigManager::lookup(self.registry.token),
        }
    }

    /// Sets a named time parameter.
    pub fn set_time_parameter(&mut self, admin: Principal, which: TimeParameter, value: u64) -> (r:
        Result<(), Error>)
        ensures
            r == old(self).admin_check(admin),
            r.is_err() ==> *final(self) == *old(self),
            r.is_ok() ==> *final(self) == (ConfigManager {
                parameters: old(self).parameters.spec_with_time(which, value),
                ..*old(self)
            }),
    {
        match self.require_admin(admin) {
            Err(e) => {
                return Err(e);
            },
            Ok(()) => {},
        }
        match which {
            TimeParameter::FundingInterval => {
                self.parameters.funding_interval = value;
            },
            TimeParameter::PriceStalenessThreshold => {
                self.parameters.price_staleness_threshold = value;
            },
        }
        Ok(())
    }

    /// The smallest leverage a position may open with.
    pub fn min_leverage(&self) -> (r: i128)
        ensures
            r == self.parameters.min_leverage,
    {
        self.parameters.min_leverage
    }

    /// The largest leverage a position may open with.
    pub fn max_leverage(&self) -> (r: i128)
        ensures
            r == self.parameters.max_leverage,
    {
        self.parameters.max_leverage
    }

    /// The smallest size of a position.
    pub fn min_position_size(&self) -> (r: i128)
        ensures
            r == self.parameters.min_position_size,
    {
        self.parameters.min_position_size
    }

    /// The maker fee, in basis points.
    pub fn maker_fee_bps(&self) -> (r: i128)
        ensures
            r == self.parameters.maker_fee_bps,
    {
        self.parameters.maker_fee_bps
    }

    /// The taker fee, in basis points.
    pub fn taker_fee_bps(&self) -> (r: i128)
        ensures
            r == self.parameters.taker_fee_bps,
    {
        self.parameters.taker_fee_bps
    }

    /// The liquidation fee, in basis points of the size.
    pub fn liquidation_fee_bps(&self) -> (r: i128)
        ensures
            r == self.parameters.liquidation_fee_bps,
    {
        self.parameters.liquidation_fee_bps
    }

    /// The liquidation threshold, in basis points.
    pub fn liquidation_threshold(&self) -> (r: i128)
        ensures
            r == self.parameters.liquidation_threshold,
    {
        self.parameters.liquidation_threshold
    }

    /// The maintenance margin, in basis points.
    pub fn maintenance_margin(&self) -> (r: i128)
        ensures
            r == self.parameters.maintenance_margin,
    {
        self.parameters.maintenance_margin
    }

    /// The largest deviation between price sources, in basis points.
    pub fn max_price_deviation_bps(&self) -> (r: i128)
        ensures
            r == self.parameters.max_price_deviation_bps,
    {
        self.parameters.max_price_deviation_bps
    }

    /// The ceiling of the pool's utilization, in basis points.
    pub fn max_utilization_ratio(&self) -> (r: i128)
        ensures
            r == self.parameters.max_utilization_ratio,
    {
        self.parameters.max_utilization_ratio
    }

    /// The smallest share of the pool that must stay unreserved after a
    /// withdrawal, in basis points.
    pub fn min_liquidity_reserve_ratio(&self) -> (r: i128)
        ensures
            r == self.parameters.min_liquidity_reserve_ratio,
    {
        self.parameters.min_liquidity_reserve_ratio
    }

    /// What a position pays per second for the liquidity it reserves.
    pub fn borrow_rate_per_second(&self) -> (r: i128)
        ensures
            r == self.parameters.borrow_rate_per_second,
    {
        self.parameters.borrow_rate_per_second
    }

    /// The smallest execution fee of an order.
    pub fn min_execution_fee(&self) -> (r: i128)
        ensures
            r == self.parameters.min_execution_fee,
    {
        self.parameters.min_execution_fee
    }

    /// The least time between two funding updates of a market, in seconds.
    pub fn funding_interval(&self) -> (r: u64)
        ensures
            r == self.parameters.funding_interval,
    {
        self.parameters.funding_interval
    }

    /// The greatest age of a price, in seconds.
    pub fn price_staleness_threshold(&self) -> (r: u64)
        ensures
            r == self.parameters.price_staleness_threshold,
    {
        self.parameters.price_staleness_threshold
    }

    /// Records where `which` is.
    fn register(&mut self, admin: Principal, which: Component, contract: Principal) -> (r: Result<
        (),
        Error,
    >)
        ensures
            r == old(self).admin_check(admin),
            r.is_err() ==> *final(self) == *old(self),
            r.is_ok() ==> *final(self) == (ConfigManager {
                registry: old(self).registry.spec_with(which, contract),
                ..*old(self)
            }),
    {
        match self.require_admin(admin) {
            Err(e) => {
                return Err(e);
            },
            Ok(()) => {},
        }
        match which {
            Component::LiquidityPool => {
                self.registry.liquidity_pool = Some(contract);
            },
            Component::PositionManager => {
                self.registry.position_manager = Some(contract);
            },
            Component::MarketManager => {
                self.registry.market_manager = Some(contract);
            },
            Component::OracleIntegrator => {
                self.registry.oracle_integrator = Some(contract);
            },
            Component::Token => {
                self.registry.token = Some(contract);
            },
        }
        Ok(())
    }

    /// Where a component is, or that it was never set.
    fn lookup(entry: Option<Principal>) -> (r: Result<Principal, Error>)
        ensures
            r == ConfigManager::spec_lookup(entry),
    {
        match entry {
            Some(a) => Ok(a),
            None => Err(Error::NotInitialized),
        }
    }

    /// Where a component is, or that it was never set.
    pub open spec fn spec_lookup(entry: Option<Principal>) -> Result<Principal, Error> {
        match entry {
            Some(a) => Ok(a),
            None => Err(Error::NotInitialized),
        }
    }

    /// Records where the liquidity pool is.
    pub fn set_liquidity_pool(&mut self, admin: Principal, contract: Principal) -> (r: Result<
        (),
        Error,
    >)
        ensures
            r == old(self).admin_check(admin),
            r.is_err() ==> *final(self) == *old(self),
            r.is_ok() ==> *final(self) == (ConfigManager {
                registry: old(self).registry.spec_with(Component::LiquidityPool, contract),
                ..*old(self)
            }),
    {
        self.register(admin, Component::LiquidityPool, contract)
    }

    /// Where the liquidity pool is.
    pub fn liquidity_pool(&self) -> (r: Result<Principal, Error>)
        ensures
            r == ConfigManager::spec_lookup(self.registry.liquidity_pool),
    {
        ConfigManager::lookup(self.registry.liquidity_pool)
    }

    /// Records where the position manager is.
    pub fn set_position_manager(&mut self, admin: Principal, contract: Principal) -> (r: Result<
        (),
        Error,
    >)
        ensures
            r == old(self).admin_check(admin),
            r.is_err() ==> *final(self) == *old(self),
            r.is_ok() ==> *final(self) == (ConfigManager {
                registry: old(self).registry.spec_with(Component::PositionManager, contract),
                ..*old(self)
            }),
    {
        self.register(admin, Component::PositionManager, contract)
    }

    /// Where the position manager is.
    pub fn position_manager(&self) -> (r: Result<Principal, Error>)
        ensures
            r == ConfigManager::spec_lookup(self.registry.position_manager),
    {
        ConfigManager::lookup(self.registry.position_manager)
    }

    /// Records where the market manager is.
    pub fn set_market_manager(&mut self, admin: Principal, contract: Principal) -> (r: Result<
        (),
        Error,
    >)
        ensures
            r == old(self).admin_check(admin),
            r.is_err() ==> *final(self) == *old(self),
            r.is_ok() ==> *final(self) == (ConfigManager {
                registry: old(self).registry.spec_with(Component::MarketManager, contract),
                ..*old(self)
            }),
    {
        self.register(admin, Component::MarketManager, contract)
    }

    /// Where the market manager is.
    pub fn market_manager(&self) -> (r: Result<Principal, Error>)
        ensures
            r == ConfigManager::spec_lookup(self.registry.market_manager),
    {
        ConfigManager::lookup(self.registry.market_manager)
    }

    /// Records where the oracle integrator is.
    pub fn set_oracle_integrator(&mut self, admin: Principal, contract: Principal) -> (r: Result<
        (),
        Error,
    >)
        ensures
            r == old(self).admin_check(admin),
            r.is_err() ==> *final(self) == *old(self),
            r.is_ok() ==> *final(self) == (ConfigManager {
                registry: old(self).registry.spec_with(Component::OracleIntegrator, contract),
                ..*old(self)
            }),
    {
        self.register(admin, Component::OracleIntegrator, contract)
    }

    /// Where the oracle integrator is.
    pub fn oracle_integrator(&self) -> (r: Result<Principal, Error>)
        ensures
            r == ConfigManager::spec_lookup(self.registry.oracle_integrator),
    {
        ConfigManager::lookup(self.registry.oracle_integrator)
    }

    /// Records where the token ledger is.
    pub fn set_token(&mut self, admin: Principal, contract: Principal) -> (r: Result<(), Error>)
        ensures
            r == old(self).admin_check(admin),
            r.is_err() ==> *final(self) == *old(self),
            r.is_ok() ==> *final(self) == (ConfigManager {
                registry: old(self).registry.spec_with(Component::Token, contract),
                ..*old(self)
            }),
    {
        self.register(admin, Component::Token, contract)
    }

    /// Where the token ledger is.
    pub fn token(&self) -> (r: Result<Principal, Error>)
        ensures
            r == ConfigManager::spec_lookup(self.registry.token),
    {
        ConfigManager::lookup(self.registry.token)
    }
}

} // verus!
