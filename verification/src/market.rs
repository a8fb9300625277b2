//! Markets: open interest under a cap, and a funding rate that follows the
//! imbalance between the two sides.

use vstd::prelude::*;
use std::collections::HashMap;
use crate::config::ConfigManager;
use crate::error::Error;
use crate::math::{add_i128, fits_i128, mul_div_signed, mul_i128, signed, sub_i128, trunc_div};
use crate::principal::{require_principal, Principal};

verus! {

broadcast use vstd::std_specs::hash::group_hash_axioms;

/// The base funding rate of a new market, in basis points per hour.
pub const DEFAULT_BASE_FUNDING_RATE: i128 = 100;

/// One traded instrument.
#[derive(Clone, Copy, Debug, PartialEq, Eq, Structural)]
pub struct Market {
    /// The market's identifier.
    pub market_id: u32,
    /// The cap on the open interest of each side.
    pub max_open_interest: u128,
    /// The sum of the sizes of all long positions.
    pub long_open_interest: u128,
    /// The sum of the sizes of all short positions.
    pub short_open_interest: u128,
    /// The funding rate of the last update, in basis points per hour:
    /// positive where longs pay.
    pub funding_rate: i128,
    /// When funding was last updated.
    pub last_funding_update: u64,
    /// What longs have been charged so far: rate times seconds, summed.
    pub cumulative_funding_long: i128,
    /// What shorts have been charged so far: rate times seconds, summed.
    pub cumulative_funding_short: i128,
    /// Whether the market is paused.
    pub is_paused: bool,
    /// The rate at full imbalance, in basis points per hour.
    pub base_funding_rate: i128,
    /// The largest rate in either direction, in basis points per hour.
    pub max_funding_rate: i128,
}

/// The imbalance between the sides, in basis points of the total: positive
/// where longs outweigh shorts, zero in an empty market.
pub open spec fn imbalance_bps(long_oi: int, short_oi: int) -> int {
    if long_oi + short_oi == 0 {
        0
    } else {
        trunc_div((long_oi - short_oi) * 10_000, long_oi + short_oi)
    }
}

/// The square of the imbalance, in basis points.
pub open spec fn imbalance_sq_bps(imbalance: int) -> int {
    imbalance * imbalance / 10_000
}

/// The rate before the cap: the base rate times the squared imbalance, with
/// the sign of the imbalance.
pub open spec fn uncapped_rate(base_rate: int, imbalance: int) -> int {
    let magnitude = base_rate * imbalance_sq_bps(imbalance) / 10_000;
    if imbalance < 0 {
        -magnitude
    } else {
        magnitude
    }
}

/// `rate` held within `-max_rate ..= max_rate`.
pub open spec fn capped_rate(rate: int, max_rate: int) -> int {
    if rate > max_rate {
        max_rate
    } else if rate < -max_rate {
        -max_rate
    } else {
        rate
    }
}

impl Market {
    /// Neither side exceeds the cap, and no rate bound or accumulator is
    /// negative.
    pub open spec fn wf(self) -> bool {
        &&& self.long_open_interest <= self.max_open_interest
        &&& self.short_open_interest <= self.max_open_interest
        &&& self.base_funding_rate >= 0
        &&& self.max_funding_rate >= 0
        &&& self.cumulative_funding_long >= 0
        &&& self.cumulative_funding_short >= 0
    }

    /// A market as it is created: empty, unpaused, no funding yet.
    pub open spec fn spec_created(
        market_id: u32,
        max_open_interest: u128,
        max_funding_rate: i128,
        now: u64,
    ) -> Market {
        Market {
            market_id,
            max_open_interest,
            long_open_interest: 0,
            short_open_interest: 0,
            funding_rate: 0,
            last_funding_update: now,
            cumulative_funding_long: 0,
            cumulative_funding_short: 0,
            is_paused: false,
            base_funding_rate: DEFAULT_BASE_FUNDING_RATE,
            max_funding_rate,
        }
    }

    /// The open interest of one side.
    pub open spec fn spec_open_interest(self, is_long: bool) -> u128 {
        if is_long {
            self.long_open_interest
        } else {
            self.short_open_interest
        }
    }

    /// This market with the open interest of one side replaced.
    pub open spec fn spec_with_open_interest(self, is_long: bool, value: u128) -> Market {
        if is_long {
            Market { long_open_interest: value, ..self }
        } else {
            Market { short_open_interest: value, ..self }
        }
    }

    /// The accumulator of one side.
    pub open spec fn spec_cumulative_funding(self, is_long: bool) -> i128 {
        if is_long {
            self.cumulative_funding_long
        } else {
            self.cumulative_funding_short
        }
    }

    /// Whether a position of `size` may open on one side: the market is not
    /// paused and that side stays within the cap.
    pub open spec fn spec_accepts(self, is_long: bool, size: u128) -> bool {
        !self.is_paused && self.spec_open_interest(is_long) + size <= self.max_open_interest
    }

    /// The funding rate that the present open interest calls for.
    pub open spec fn spec_funding_rate(self) -> int {
        capped_rate(
            uncapped_rate(
                self.base_funding_rate as int,
                imbalance_bps(self.long_open_interest as int, self.short_open_interest as int),
            ),
            self.max_funding_rate as int,
        )
    }

    /// What the paying side is charged over `elapsed` seconds: never
    /// negative.
    pub open spec fn spec_accrued(self, elapsed: int) -> int {
        let rate = self.spec_funding_rate();
        if rate < 0 {
            -rate * elapsed
        } else {
            rate * elapsed
        }
    }

    /// Whether every step of a funding update over `elapsed` seconds stays
    /// within the machine's numbers.
    pub open spec fn spec_funding_fits(self, elapsed: int) -> bool {
        let long_oi = self.long_open_interest as int;
        let short_oi = self.short_open_interest as int;
        let imbalance = imbalance_bps(long_oi, short_oi);
        let rate = self.spec_funding_rate();
        &&& fits_i128(long_oi)
        &&& fits_i128(short_oi)
        &&& fits_i128(long_oi + short_oi)
        &&& fits_i128((long_oi - short_oi) * 10_000)
        &&& fits_i128(imbalance * imbalance)
        &&& fits_i128(self.base_funding_rate * imbalance_sq_bps(imbalance))
        &&& fits_i128(rate * elapsed)
        &&& rate > 0 ==> fits_i128(self.cumulative_funding_long + rate * elapsed)
        &&& rate < 0 ==> fits_i128(self.cumulative_funding_short - rate * elapsed)
    }

    /// This market after a funding update at `now`: the new rate, and the
    /// charge added to the accumulator of the side that pays, and to that
    /// one only.
    pub open spec fn spec_after_funding(self, now: u64) -> Market {
        let rate = self.spec_funding_rate();
        let accrued = self.spec_accrued(now - self.last_funding_update);
        Market {
            funding_rate: rate as i128,
            last_funding_update: now,
            cumulative_funding_long: if rate > 0 {
                (self.cumulative_funding_long + accrued) as i128
            } else {
                self.cumulative_funding_long
            },
            cumulative_funding_short: if rate < 0 {
                (self.cumulative_funding_short + accrued) as i128
            } else {
                self.cumulative_funding_short
            },
            ..self
        }
    }

    /// The funding rate that the present open interest calls for, or an
    /// overflow.
    fn compute_funding_rate(&self) -> (r: Result<i128, Error>)
        requires
            self.wf(),
        ensures
            r.is_ok() ==> r.unwrap() == self.spec_funding_rate(),
            r.is_err() ==> r == Err::<i128, Error>(Error::Overflow),
            r.is_ok() <==> {
                let long_oi = self.long_open_interest as int;
                let short_oi = self.short_open_interest as int;
                let imbalance = imbalance_bps(long_oi, short_oi);
                &&& fits_i128(long_oi)
                &&& fits_i128(short_oi)
                &&& fits_i128(long_oi + short_oi)
                &&& fits_i128((long_oi - short_oi) * 10_000)
                &&& fits_i128(imbalance * imbalance)
                &&& fits_i128(self.base_funding_rate * imbalance_sq_bps(imbalance))
            },
    {
        let long_oi = signed(self.long_open_interest)?;
        let short_oi = signed(self.short_open_interest)?;
        let total = add_i128(long_oi, short_oi)?;
        let imbalance = if total == 0 {
            0
        } else {
            let diff = sub_i128(long_oi, short_oi)?;
            mul_div_signed(diff, 10_000, total)?
        };
        let square = mul_i128(imbalance, imbalance)?;
        assert(imbalance * imbalance >= 0) by (nonlinear_arith);
        let sq_bps = square / 10_000;
        let scaled = mul_i128(self.base_funding_rate, sq_bps)?;
        assert(self.base_funding_rate * sq_bps >= 0) by (nonlinear_arith)
            requires
                self.base_funding_rate >= 0,
                sq_bps >= 0,
        ;
        let magnitude = scaled / 10_000;
        let rate = if imbalance < 0 {
            -magnitude
        } else {
            magnitude
        };
        if rate > self.max_funding_rate {
            Ok(self.max_funding_rate)
        } else if rate < -self.max_funding_rate {
            Ok(-self.max_funding_rate)
        } else {
            Ok(rate)
        }
    }

    /// This market after a funding update at `now`, or an overflow.
    fn apply_funding(&self, now: u64) -> (r: Result<Market, Error>)
        requires
            self.wf(),
            now >= self.last_funding_update,
        ensures
            r == (if self.spec_funding_fits(now - self.last_funding_update) {
                Ok::<Market, Error>(self.spec_after_funding(now))
            } else {
                Err(Error::Overflow)
            }),
            r.is_ok() ==> r.unwrap().wf(),
    {
        let rate = self.compute_funding_rate()?;
        let elapsed: u64 = now - self.last_funding_update;
        let charge = mul_i128(rate, elapsed as i128)?;
        let mut next = *self;
        next.funding_rate = rate;
        next.last_funding_update = now;
        if rate > 0 {
            assert(rate * elapsed >= 0) by (nonlinear_arith)
                requires
                    rate > 0,
                    elapsed >= 0,
            ;
            next.cumulative_funding_long = add_i128(self.cumulative_funding_long, charge)?;
        } else if rate < 0 {
            assert(rate * elapsed <= 0) by (nonlinear_arith)
                requires
                    rate < 0,
                    elapsed >= 0,
            ;
            assert(-rate * elapsed == -(rate * elapsed)) by (nonlinear_arith);
            next.cumulative_funding_short = sub_i128(self.cumulative_funding_short, charge)?;
        }
        Ok(next)
    }
}

/// The markets that `records` hold, each under its own identifier, a later
/// record replacing an earlier one.
pub open spec fn market_map(records: Seq<Market>) -> Map<u32, Market>
    decreases records.len(),
{
    if records.len() == 0 {
        Map::empty()
    } else {
        market_map(records.drop_last()).insert(records.last().market_id, records.last())
    }
}

/// All markets, and who may change them.
///
/// At all times neither side of any market exceeds the market's cap.
pub struct MarketManager {
    /// The administrator, once initialized.
    pub admin: Option<Principal>,
    /// The parameter store this manager was pointed at.
    pub config_manager: Option<Principal>,
    /// The one caller that may change open interest, once set.
    pub position_manager: Option<Principal>,
    /// The markets, by identifier.
    pub markets: HashMap<u32, Market>,
}

impl MarketManager {
    /// Every market is kept under its own identifier and is well formed: in
    /// particular, neither side exceeds the cap.
    pub open spec fn wf(&self) -> bool {
        forall|id: u32| #[trigger]
            self.markets@.contains_key(id) ==> self.markets@[id].market_id == id
                && self.markets@[id].wf()
    }

    /// Everything but the markets is as in `other`.
    pub open spec fn same_roles(&self, other: &MarketManager) -> bool {
        &&& self.admin == other.admin
        &&& self.config_manager == other.config_manager
        &&& self.position_manager == other.position_manager
    }

    /// `self` is `before` with `market` put under its identifier.
    pub open spec fn is_update_of(&self, before: &MarketManager, market: Market) -> bool {
        &&& self.same_roles(before)
        &&& self.markets@ == before.markets@.insert(market.market_id, market)
    }

    /// Why `caller` may not administer, if it may not.
    pub open spec fn admin_check(&self, caller: Principal) -> Result<(), Error> {
        match self.admin {
            None => Err(Error::NotInitialized),
            Some(a) => if a == caller {
                Ok(())
            } else {
                Err(Error::Unauthorized)
            },
        }
    }

    /// Why `caller` may not change open interest, if it may not.
    pub open spec fn position_manager_check(&self, caller: Principal) -> Result<(), Error> {
        match self.position_manager {
            None => Err(Error::NotInitialized),
            Some(a) => if a == caller {
                Ok(())
            } else {
                Err(Error::Unauthorized)
            },
        }
    }

    /// The market under `market_id`, or that there is none.
    pub open spec fn spec_market(&self, market_id: u32) -> Result<Market, Error> {
        if self.markets@.contains_key(market_id) {
            Ok(self.markets@[market_id])
        } else {
            Err(Error::MarketNotFound)
        }
    }

    /// A manager without markets that has not been initialized.
    pub fn new() -> (m: MarketManager)
        ensures
            m.wf(),
            m.admin.is_none(),
            m.config_manager.is_none(),
            m.position_manager.is_none(),
            m.markets@ == Map::<u32, Market>::empty(),
    {
        MarketManager {
            admin: None,
            config_manager: None,
            position_manager: None,
            markets: HashMap::new(),
        }
    }

    /// The manager with these roles and markets, or `None` where a market
    /// is not well formed.
    pub fn restore(
        admin: Option<Principal>,
        config_manager: Option<Principal>,
        position_manager: Option<Principal>,
        markets: Vec<Market>,
    ) -> (r: Option<MarketManager>)
        ensures
            r.is_some() <==> forall|i: int| 0 <= i < markets@.len() ==> (#[trigger] markets@[i]).wf(),
            r.is_some() ==> {
                let m = r.unwrap();
                &&& m.wf()
                &&& m.admin == admin
                &&& m.config_manager == config_manager
                &&& m.position_manager == position_manager
                &&& m.markets@ == market_map(markets@)
            },
    {
        let mut manager = MarketManager {
            admin,
            config_manager,
            position_manager,
            markets: HashMap::new(),
        };
        let mut i: usize = 0;
        while i < markets.len()
            invariant
                i <= markets@.len(),
                manager.wf(),
                manager.admin == admin,
                manager.config_manager == config_manager,
                manager.position_manager == position_manager,
                manager.markets@ == market_map(markets@.take(i as int)),
                forall|j: int| 0 <= j < i ==> (#[trigger] markets@[j]).wf(),
            decreases markets@.len() - i,
        {
            let m = markets[i];
            let sound = m.long_open_interest <= m.max_open_interest && m.short_open_interest
                <= m.max_open_interest && m.base_funding_rate >= 0 && m.max_funding_rate >= 0
                && m.cumulative_funding_long >= 0 && m.cumulative_funding_short >= 0;
            if !sound {
                return None;
            }
            proof {
                let t = markets@.take(i + 1);
                assert(t.drop_last() =~= markets@.take(i as int));
                assert(t.last() == m);
            }
            manager.markets.insert(m.market_id, m);
            i = i + 1;
        }
        assert(markets@.take(markets@.len() as int) =~= markets@);
        Some(manager)
    }

    /// Checks that `caller` is the administrator.
    fn require_admin(&self, caller: Principal) -> (r: Result<(), Error>)
        ensures
            r == self.admin_check(caller),
    {
        match self.admin {
            None => Err(Error::NotInitialized),
            Some(admin) => require_principal(caller, admin),
        }
    }

    /// Checks that `caller` is the position manager.
    pub fn require_position_manager(&self, caller: Principal) -> (r: Result<(), Error>)
        ensures
            r == self.position_manager_check(caller),
    {
        match self.position_manager {
            None => Err(Error::NotInitialized),
            Some(manager) => require_principal(caller, manager),
        }
    }

    /// Names the parameter store and the administrator, once.
    pub fn initialize(&mut self, config_manager: Principal, admin: Principal) -> (r: Result<
        (),
        Error,
    >)
        ensures
            r == (if old(self).admin.is_some() {
                Err::<(), Error>(Error::AlreadyInitialized)
            } else {
                Ok(())
            }),
            r.is_err() ==> *final(self) == *old(self),
            r.is_ok() ==> *final(self) == (MarketManager {
                admin: Some(admin),
                config_manager: Some(config_manager),
                ..*old(self)
            }),
    {
        if self.admin.is_some() {
            return Err(Error::AlreadyInitialized);
        }
        self.admin = Some(admin);
        self.config_manager = Some(config_manager);
        Ok(())
    }

    /// Names the one caller that may change open interest.
    pub fn set_position_manager(&mut self, admin: Principal, position_manager: Principal) -> (r:
        Result<(), Error>)
        ensures
            r == old(self).admin_check(admin),
            r.is_err() ==> *final(self) == *old(self),
            r.is_ok() ==> *final(self) == (MarketManager {
                position_manager: Some(position_manager),
                ..*old(self)
            }),
    {
        self.require_admin(admin)?;
        self.position_manager = Some(position_manager);
        Ok(())
    }

    /// Why a market cannot be created, if it cannot.
    pub open spec fn create_check(&self, admin: Principal, market_id: u32, max_funding_rate: i128)
        -> Result<(), Error> {
        if self.admin_check(admin).is_err() {
            self.admin_check(admin)
        } else if self.markets@.contains_key(market_id) {
            Err(Error::MarketAlreadyExists)
        } else if max_funding_rate < 0 {
            Err(Error::InvalidAmount)
        } else {
            Ok(())
        }
    }

    /// Creates a market: empty, unpaused, with the default base rate and the
    /// given cap and largest rate.
    pub fn create_market(
        &mut self,
        admin: Principal,
        market_id: u32,
        max_open_interest: u128,
        max_funding_rate: i128,
        now: u64,
    ) -> (r: Result<(), Error>)
        requires
            old(self).wf(),
        ensures
            final(self).wf(),
            r == old(self).create_check(admin, market_id, max_funding_rate),
            r.is_err() ==> *final(self) == *old(self),
            r.is_ok() ==> final(self).is_update_of(
                old(self),
                Market::spec_created(market_id, max_open_interest, max_funding_rate, now),
            ),
    {
        self.require_admin(admin)?;
        if self.markets.contains_key(&market_id) {
            return Err(Error::MarketAlreadyExists);
        }
        if max_funding_rate < 0 {
            return Err(Error::InvalidAmount);
        }
        let market = Market {
            market_id,
            max_open_interest,
            long_open_interest: 0,
            short_open_interest: 0,
            funding_rate: 0,
            last_funding_update: now,
            cumulative_funding_long: 0,
            cumulative_funding_short: 0,
            is_paused: false,
            base_funding_rate: DEFAULT_BASE_FUNDING_RATE,
            max_funding_rate,
        };
        self.markets.insert(market_id, market);
        Ok(())
    }

    /// The market under `market_id`.
    pub fn get_market(&self, market_id: u32) -> (r: Result<Market, Error>)
        requires
            self.wf(),
        ensures
            r == self.spec_market(market_id),
            r.is_ok() ==> r.unwrap().wf() && r.unwrap().market_id == market_id,
    {
        match self.markets.get(&market_id) {
            Some(m) => Ok(*m),
            None => Err(Error::MarketNotFound),
        }
    }

    /// What a funding update of `market_id` at `now` gives: the market after
    /// it, or why there is none.
    pub open spec fn funding_update(&self, config: &ConfigManager, market_id: u32, now: u64)
        -> Result<Market, Error> {
        if !self.markets@.contains_key(market_id) {
            Err(Error::MarketNotFound)
        } else {
            let m = self.markets@[market_id];
            if m.is_paused {
                Err(Error::MarketPaused)
            } else if now < m.last_funding_update + config.parameters.funding_interval {
                Err(Error::FundingTooEarly)
            } else if !m.spec_funding_fits(now - m.last_funding_update) {
                Err(Error::Overflow)
            } else {
                Ok(m.spec_after_funding(now))
            }
        }
    }

    /// Recomputes the funding rate of a market from its open interest and
    /// charges the side that pays for the time since the last update.
    ///
    /// Refused while the market is paused, and until the funding interval
    /// has passed.
    pub fn update_funding_rate(&mut self, config: &ConfigManager, market_id: u32, now: u64) -> (r:
        Result<(), Error>)
        requires
            old(self).wf(),
        ensures
            final(self).wf(),
            r.is_ok() <==> old(self).funding_update(config, market_id, now).is_ok(),
            r.is_err() ==> r.err() == old(self).funding_update(config, market_id, now).err()
                && *final(self) == *old(self),
            r.is_ok() ==> final(self).is_update_of(
                old(self),
                old(self).funding_update(config, market_id, now).unwrap(),
            ),
    {
        let m = self.get_market(market_id)?;
        if m.is_paused {
            return Err(Error::MarketPaused);
        }
        if now < m.last_funding_update || now - m.last_funding_update < config.funding_interval() {
            return Err(Error::FundingTooEarly);
        }
        let next = m.apply_funding(now)?;
        self.markets.insert(market_id, next);
        Ok(())
    }

    /// The funding rate of the last update, in basis points per hour.
    pub fn get_funding_rate(&self, market_id: u32) -> (r: Result<i128, Error>)
        requires
            self.wf(),
        ensures
            r == (match self.spec_market(market_id) {
                Ok(m) => Ok::<i128, Error>(m.funding_rate),
                Err(e) => Err(e),
            }),
    {
        let m = self.get_market(market_id)?;
        Ok(m.funding_rate)
    }

    /// What one side of a market has been charged so far.
    pub fn get_cumulative_funding(&self, market_id: u32, is_long: bool) -> (r: Result<i128, Error>)
        requires
            self.wf(),
        ensures
            r == (match self.spec_market(market_id) {
                Ok(m) => Ok::<i128, Error>(m.spec_cumulative_funding(is_long)),
                Err(e) => Err(e),
            }),
    {
        let m = self.get_market(market_id)?;
        if is_long {
            Ok(m.cumulative_funding_long)
        } else {
            Ok(m.cumulative_funding_short)
        }
    }

    /// The open interest of one side after a change by `size_delta`, or why
    /// the change is refused.
    pub open spec fn open_interest_update(
        &self,
        caller: Principal,
        market_id: u32,
        is_long: bool,
        size_delta: i128,
    ) -> Result<u128, Error> {
        if self.position_manager_check(caller).is_err() {
            Err(self.position_manager_check(caller).unwrap_err())
        } else if !self.markets@.contains_key(market_id) {
            Err(Error::MarketNotFound)
        } else {
            let m = self.markets@[market_id];
            let next = m.spec_open_interest(is_long) + size_delta;
            if next > m.max_open_interest {
                Err(Error::OpenInterestExceeded)
            } else if next < 0 {
                Err(Error::OpenInterestUnderflow)
            } else {
                Ok(next as u128)
            }
        }
    }

    /// Changes the open interest of one side by `size_delta`. Only the
    /// position manager may. The side never exceeds the cap and never falls
    /// under zero.
    pub fn update_open_interest(
        &mut self,
        caller: Principal,
        market_id: u32,
        is_long: bool,
        size_delta: i128,
    ) -> (r: Result<(), Error>)
        requires
            old(self).wf(),
        ensures
            final(self).wf(),
            r.is_ok() <==> old(self).open_interest_update(
                caller,
                market_id,
                is_long,
                size_delta,
            ).is_ok(),
            r.is_err() ==> r.err() == old(self).open_interest_update(
                caller,
                market_id,
                is_long,
                size_delta,
            ).err() && *final(self) == *old(self),
            r.is_ok() ==> final(self).is_update_of(
                old(self),
                old(self).markets@[market_id].spec_with_open_interest(
                    is_long,
                    old(self).open_interest_update(caller, market_id, is_long, size_delta).unwrap(),
                ),
            ),
    {
        self.require_position_manager(caller)?;
        let mut m = self.get_market(market_id)?;
        let current = if is_long {
            m.long_open_interest
        } else {
            m.short_open_interest
        };
        let next = if size_delta >= 0 {
            match current.checked_add(size_delta as u128) {
                Some(n) => {
                    if n > m.max_open_interest {
                        return Err(Error::OpenInterestExceeded);
                    }
                    n
                },
                None => {
                    return Err(Error::OpenInterestExceeded);
                },
            }
        } else {
            let magnitude: u128 = if size_delta == i128::MIN {
                170141183460469231731687303715884105728u128
            } else {
                (-size_delta) as u128
            };
            if current < magnitude {
                return Err(Error::OpenInterestUnderflow);
            }
            current - magnitude
        };
        if is_long {
            m.long_open_interest = next;
        } else {
            m.short_open_interest = next;
        }
        self.markets.insert(market_id, m);
        Ok(())
    }

    /// The open interest of a market: long, then short.
    pub fn get_open_interest(&self, market_id: u32) -> (r: Result<(u128, u128), Error>)
        requires
            self.wf(),
        ensures
            r == (match self.spec_market(market_id) {
                Ok(m) => Ok::<(u128, u128), Error>((m.long_open_interest, m.short_open_interest)),
                Err(e) => Err(e),
            }),
            r.is_ok() ==> r.unwrap().0 <= self.markets@[market_id].max_open_interest
                && r.unwrap().1 <= self.markets@[market_id].max_open_interest,
    {
        let m = self.get_market(market_id)?;
        Ok((m.long_open_interest, m.short_open_interest))
    }

    /// Why the pause flag of a market cannot be set, if it cannot.
    pub open spec fn pause_check(&self, admin: Principal, market_id: u32) -> Result<(), Error> {
        if self.admin_check(admin).is_err() {
            self.admin_check(admin)
        } else if !self.markets@.contains_key(market_id) {
            Err(Error::MarketNotFound)
        } else {
            Ok(())
        }
    }

    /// Sets the pause flag of a market.
    fn set_paused(&mut self, admin: Principal, market_id: u32, paused: bool) -> (r: Result<
        (),
        Error,
    >)
        requires
            old(self).wf(),
        ensures
            final(self).wf(),
            r == old(self).pause_check(admin, market_id),
            r.is_err() ==> *final(self) == *old(self),
            r.is_ok() ==> final(self).is_update_of(
                old(self),
                Market { is_paused: paused, ..old(self).markets@[market_id] },
            ),
    {
        self.require_admin(admin)?;
        let mut m = self.get_market(market_id)?;
        m.is_paused = paused;
        self.markets.insert(market_id, m);
        Ok(())
    }

    /// Pauses a market: no position opens and no funding update runs until
    /// it is unpaused. Closing and liquidating go on.
    pub fn pause_market(&mut self, admin: Principal, market_id: u32) -> (r: Result<(), Error>)
        requires
            old(self).wf(),
        ensures
            final(self).wf(),
            r == old(self).pause_check(admin, market_id),
            r.is_err() ==> *final(self) == *old(self),
            r.is_ok() ==> final(self).is_update_of(
                old(self),
                Market { is_paused: true, ..old(self).markets@[market_id] },
            ),
    {
        self.set_paused(admin, market_id, true)
    }

    /// Lifts the pause of a market.
    pub fn unpause_market(&mut self, admin: Principal, market_id: u32) -> (r: Result<(), Error>)
        requires
            old(self).wf(),
        ensures
            final(self).wf(),
            r == old(self).pause_check(admin, market_id),
            r.is_err() ==> *final(self) == *old(self),
            r.is_ok() ==> final(self).is_update_of(
                old(self),
                Market { is_paused: false, ..old(self).markets@[market_id] },
            ),
    {
        self.set_paused(admin, market_id, false)
    }

    /// Whether a market is paused.
    pub fn is_market_paused(&self, market_id: u32) -> (r: Result<bool, Error>)
        requires
            self.wf(),
        ensures
            r == (match self.spec_market(market_id) {
                Ok(m) => Ok::<bool, Error>(m.is_paused),
                Err(e) => Err(e),
            }),
    {
        let m = self.get_market(market_id)?;
        Ok(m.is_paused)
    }

    /// Whether a position of `size` may open on one side of a market.
    pub open spec fn spec_can_open_position(&self, market_id: u32, is_long: bool, size: u128)
        -> bool {
        self.markets@.contains_key(market_id) && self.markets@[market_id].spec_accepts(
            is_long,
            size,
        )
    }

    /// Whether a position of `size` may open on one side of a market: the
    /// market exists, is not paused, and that side stays within the cap.
    pub fn can_open_position(&self, market_id: u32, is_long: bool, size: u128) -> (r: bool)
        requires
            self.wf(),
        ensures
            r == self.spec_can_open_position(market_id, is_long, size),
    {
        match self.markets.get(&market_id) {
            None => false,
            Some(m) => {
                if m.is_paused {
                    false
                } else {
                    let current = if is_long {
                        m.long_open_interest
                    } else {
                        m.short_open_interest
                    };
                    size <= m.max_open_interest - current
                }
            },
        }
    }
}

} // verus!
