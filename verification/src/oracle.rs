//! The price source: one price per market, set by the administrator.

use vstd::prelude::*;
use std::collections::HashMap;
use crate::config::ConfigManager;
use crate::error::Error;
use crate::principal::{require_principal, Principal};

verus! {

broadcast use vstd::std_specs::hash::group_hash_axioms;

/// The price of a market for which none was set: 1.00 with seven decimals.
pub const MOCK_PRICE: i128 = 100_000_000;

/// One price on record.
#[derive(Clone, Copy, Debug, PartialEq, Eq, Structural)]
pub struct PriceRecord {
    /// The market.
    pub asset_id: u32,
    /// Its price.
    pub price: i128,
}

/// The prices that `records` hold, a later record replacing an earlier one
/// for the same market.
pub open spec fn price_map(records: Seq<PriceRecord>) -> Map<u32, i128>
    decreases records.len(),
{
    if records.len() == 0 {
        Map::empty()
    } else {
        price_map(records.drop_last()).insert(records.last().asset_id, records.last().price)
    }
}

/// The price source.
pub struct OracleIntegrator {
    /// The parameter store this source was pointed at.
    pub config_manager: Option<Principal>,
    /// The prices that were set, by market.
    pub prices: HashMap<u32, i128>,
}

impl OracleIntegrator {
    /// Every price that was set is positive.
    pub open spec fn wf(&self) -> bool {
        forall|id: u32| self.prices@.contains_key(id) ==> #[trigger] self.prices@[id] > 0
    }

    /// The price of `asset_id`: what was set, or the mock price.
    pub open spec fn spec_price(&self, asset_id: u32) -> i128 {
        if self.prices@.contains_key(asset_id) {
            self.prices@[asset_id]
        } else {
            MOCK_PRICE
        }
    }

    /// A source without prices, pointed at nothing.
    pub fn new() -> (o: OracleIntegrator)
        ensures
            o.wf(),
            o.config_manager.is_none(),
            o.prices@ == Map::<u32, i128>::empty(),
    {
        OracleIntegrator { config_manager: None, prices: HashMap::new() }
    }

    /// The source with these prices, or `None` where one of them is not
    /// positive.
    pub fn restore(config_manager: Option<Principal>, prices: Vec<PriceRecord>) -> (r: Option<
        OracleIntegrator,
    >)
        ensures
            r.is_some() <==> forall|i: int|
                0 <= i < prices@.len() ==> (#[trigger] prices@[i]).price > 0,
            r.is_some() ==> {
                let o = r.unwrap();
                &&& o.wf()
                &&& o.config_manager == config_manager
                &&& o.prices@ == price_map(prices@)
            },
    {
        let mut oracle = OracleIntegrator { config_manager, prices: HashMap::new() };
        let mut i: usize = 0;
        while i < prices.len()
            invariant
                i <= prices@.len(),
                oracle.wf(),
                oracle.config_manager == config_manager,
                oracle.prices@ == price_map(prices@.take(i as int)),
                forall|j: int| 0 <= j < i ==> (#[trigger] prices@[j]).price > 0,
            decreases prices@.len() - i,
        {
            let record = prices[i];
            if record.price <= 0 {
                return None;
            }
            proof {
                let t = prices@.take(i + 1);
                assert(t.drop_last() =~= prices@.take(i as int));
                assert(t.last() == record);
            }
            oracle.prices.insert(record.asset_id, record.price);
            i = i + 1;
        }
        assert(prices@.take(prices@.len() as int) =~= prices@);
        Some(oracle)
    }

    /// Points the source at a parameter store.
    pub fn initialize(&mut self, config_manager: Principal)
        ensures
            *final(self) == (OracleIntegrator {
                config_manager: Some(config_manager),
                ..*old(self)
            }),
    {
        self.config_manager = Some(config_manager);
    }

    /// Sets the price of a market. Only the administrator of `config` may,
    /// and only to a positive price.
    pub fn set_price(
        &mut self,
        config: &ConfigManager,
        admin: Principal,
        asset_id: u32,
        price: i128,
    ) -> (r: Result<(), Error>)
        requires
            old(self).wf(),
        ensures
            final(self).wf(),
            r == (if config.admin_check(admin).is_err() {
                config.admin_check(admin)
            } else if price <= 0 {
                Err(Error::InvalidPrice)
            } else {
                Ok(())
            }),
            r.is_err() ==> *final(self) == *old(self),
            r.is_ok() ==> {
                &&& final(self).prices@ == old(self).prices@.insert(asset_id, price)
                &&& final(self).config_manager == old(self).config_manager
            },
    {
        require_principal(admin, config.admin()?)?;
        if price <= 0 {
            return Err(Error::InvalidPrice);
        }
        self.prices.insert(asset_id, price);
        Ok(())
    }

    /// The price of `asset_id`: what was set, or the mock price. Always
    /// positive.
    pub fn get_price(&self, asset_id: u32) -> (r: i128)
        requires
            self.wf(),
        ensures
            r == self.spec_price(asset_id),
            r > 0,
    {
        match self.prices.get(&asset_id) {
            Some(p) => *p,
            None => MOCK_PRICE,
        }
    }
}

} // verus!
