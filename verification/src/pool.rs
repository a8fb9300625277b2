//! The liquidity pool: shares of providers, liquidity reserved for open
//! positions, and the collateral of each position.
//!
//! What the pool is worth is what its account holds in the token ledger, so
//! the price of a share follows the gains and losses of the traders.

use vstd::prelude::*;
use std::collections::HashMap;
use crate::config::ConfigManager;
use crate::error::Error;
use crate::ledger::{keys_unique, seq_total, Account, Ledger};
use crate::math::{
    add_i128,
    add_u128,
    fits_i128,
    fits_u128,
    lemma_share,
    mul_div_signed,
    mul_i128,
    mul_u128,
    trunc_div,
};
use crate::principal::{require_principal, Principal};
use crate::token::FaucetToken;

verus! {

broadcast use vstd::std_specs::hash::group_hash_axioms;

/// The collateral on record for one position.
#[derive(Clone, Copy, Debug, PartialEq, Eq, Structural)]
pub struct CollateralRecord {
    /// The position.
    pub position_id: u64,
    /// The collateral held for it.
    pub amount: u128,
}

/// The collateral that `records` hold, a later record replacing an earlier
/// one for the same position.
pub open spec fn collateral_map(records: Seq<CollateralRecord>) -> Map<u64, u128>
    decreases records.len(),
{
    if records.len() == 0 {
        Map::empty()
    } else {
        collateral_map(records.drop_last()).insert(
            records.last().position_id,
            records.last().amount,
        )
    }
}

/// Who is who around a pool.
#[derive(Clone, Copy, Debug, PartialEq, Eq, Structural)]
pub struct PoolRoles {
    /// The pool's own account in the token ledger.
    pub address: Principal,
    /// The administrator, once initialized.
    pub admin: Option<Principal>,
    /// The parameter store the pool was pointed at.
    pub config_manager: Option<Principal>,
    /// The token ledger the pool was pointed at.
    pub token: Option<Principal>,
    /// The one caller that may reserve liquidity and move collateral.
    pub position_manager: Option<Principal>,
}

/// The liquidity pool.
pub struct LiquidityPool {
    /// The pool's own account in the token ledger.
    pub address: Principal,
    /// The administrator, once initialized.
    pub admin: Option<Principal>,
    /// The parameter store this pool was pointed at.
    pub config_manager: Option<Principal>,
    /// The token ledger this pool was pointed at.
    pub token: Option<Principal>,
    /// The one caller that may reserve liquidity and move collateral.
    pub position_manager: Option<Principal>,
    /// All shares in circulation.
    pub total_shares: i128,
    /// What providers have paid in and not taken out.
    pub total_deposits: i128,
    /// The shares of each provider.
    pub shares: Ledger,
    /// The liquidity reserved for all open positions together.
    pub reserved_liquidity: u128,
    /// The collateral held for each position.
    pub position_collateral: HashMap<u64, u128>,
}

impl LiquidityPool {
    /// The shares of all providers add up to the total, none is negative,
    /// and shares exist exactly while deposits are on record.
    pub open spec fn wf(&self) -> bool {
        &&& self.shares.wf()
        &&& self.shares.nonneg()
        &&& self.total_shares == self.shares.total()
        &&& self.total_shares >= 0
        &&& self.total_deposits >= 0
        &&& (self.total_shares == 0 <==> self.total_deposits == 0)
        &&& forall|id: u64| #[trigger]
            self.position_collateral@.contains_key(id) ==> self.position_collateral@[id] > 0
    }

    /// The shares of `user`.
    pub open spec fn shares_of(&self, user: Principal) -> int {
        self.shares.amount(user.id)
    }

    /// The collateral held for a position, zero where none is.
    pub open spec fn collateral_of(&self, position_id: u64) -> u128 {
        if self.position_collateral@.contains_key(position_id) {
            self.position_collateral@[position_id]
        } else {
            0
        }
    }

    /// Who is who is as in `other`.
    pub open spec fn same_roles(&self, other: &LiquidityPool) -> bool {
        &&& self.address == other.address
        &&& self.admin == other.admin
        &&& self.config_manager == other.config_manager
        &&& self.token == other.token
        &&& self.position_manager == other.position_manager
    }

    /// The shares and deposits are as in `other`.
    pub open spec fn same_shares(&self, other: &LiquidityPool) -> bool {
        &&& self.total_shares == other.total_shares
        &&& self.total_deposits == other.total_deposits
        &&& self.shares == other.shares
    }

    /// Why `caller` may not administer, if it may not.
    pub open spec fn admin_check(&self, caller: Principal) -> Result<(), Error> {
        match self.admin {
            None => Err(Error::NotInitialized),
            Some(a) => if a == caller {
                Ok(())
            } else {
                Err(Error::Unauthorized)
            },
        }
    }

    /// Why `caller` may not act for positions, if it may not.
    pub open spec fn position_manager_check(&self, caller: Principal) -> Result<(), Error> {
        match self.position_manager {
            None => Err(Error::NotInitialized),
            Some(a) => if a == caller {
                Ok(())
            } else {
                Err(Error::Unauthorized)
            },
        }
    }

    /// An empty pool with the account `address` that has not been
    /// initialized.
    pub fn new(address: Principal) -> (p: LiquidityPool)
        ensures
            p.wf(),
            p.address == address,
            p.admin.is_none(),
            p.config_manager.is_none(),
            p.token.is_none(),
            p.position_manager.is_none(),
            p.total_shares == 0,
            p.total_deposits == 0,
            p.reserved_liquidity == 0,
            p.position_collateral@ == Map::<u64, u128>::empty(),
            forall|u: Principal| p.shares_of(u) == 0,
    {
        LiquidityPool {
            address,
            admin: None,
            config_manager: None,
            token: None,
            position_manager: None,
            total_shares: 0,
            total_deposits: 0,
            shares: Ledger::new(),
            reserved_liquidity: 0,
            position_collateral: HashMap::new(),
        }
    }

    /// The pool with these roles, shares and records, or `None` where they
    /// are not those of a pool: a provider twice, negative shares, shares
    /// beyond the largest amount, negative deposits, shares without deposits
    /// or deposits without shares, or a record of no collateral. The total of
    /// the shares is their sum.
    pub fn restore(
        roles: PoolRoles,
        total_deposits: i128,
        shares: Vec<Account>,
        reserved_liquidity: u128,
        collateral: Vec<CollateralRecord>,
    ) -> (r: Option<LiquidityPool>)
        ensures
            r.is_some() <==> {
                &&& keys_unique(shares@)
                &&& forall|i: int| 0 <= i < shares@.len() ==> (#[trigger] shares@[i]).amount >= 0
                &&& seq_total(shares@) <= i128::MAX
                &&& total_deposits >= 0
                &&& (seq_total(shares@) == 0 <==> total_deposits == 0)
                &&& forall|i: int|
                    0 <= i < collateral@.len() ==> (#[trigger] collateral@[i]).amount > 0
            },
            r.is_some() ==> {
                let p = r.unwrap();
                &&& p.wf()
                &&& p.address == roles.address
                &&& p.admin == roles.admin
                &&& p.config_manager == roles.config_manager
                &&& p.token == roles.token
                &&& p.position_manager == roles.position_manager
                &&& p.total_deposits == total_deposits
                &&& p.shares.entries@ == shares@
                &&& p.reserved_liquidity == reserved_liquidity
                &&& p.position_collateral@ == collateral_map(collateral@)
            },
    {
        let ledger = Ledger::from_entries(shares)?;
        let total_shares = ledger.audit()?;
        if total_deposits < 0 || (total_shares == 0) != (total_deposits == 0) {
            return None;
        }
        let mut map: HashMap<u64, u128> = HashMap::new();
        let mut i: usize = 0;
        while i < collateral.len()
            invariant
                i <= collateral@.len(),
                map@ == collateral_map(collateral@.take(i as int)),
                forall|id: u64| #[trigger] map@.contains_key(id) ==> map@[id] > 0,
                forall|j: int| 0 <= j < i ==> (#[trigger] collateral@[j]).amount > 0,
            decreases collateral@.len() - i,
        {
            let record = collateral[i];
            if record.amount == 0 {
                return None;
            }
            proof {
                let t = collateral@.take(i + 1);
                assert(t.drop_last() =~= collateral@.take(i as int));
                assert(t.last() == record);
            }
            map.insert(record.position_id, record.amount);
            i = i + 1;
        }
        assert(collateral@.take(collateral@.len() as int) =~= collateral@);
        proof {
            crate::ledger::lemma_total_nonneg(ledger.entries@);
        }
        Some(
            LiquidityPool {
                address: roles.address,
                admin: roles.admin,
                config_manager: roles.config_manager,
                token: roles.token,
                position_manager: roles.position_manager,
                total_shares,
                total_deposits,
                shares: ledger,
                reserved_liquidity,
                position_collateral: map,
            },
        )
    }

    /// Names the administrator, the parameter store and the token ledger,
    /// once.
    pub fn initialize(&mut self, admin: Principal, config_manager: Principal, token: Principal)
        -> (r: Result<(), Error>)
        ensures
            r == (if old(self).admin.is_some() {
                Err::<(), Error>(Error::AlreadyInitialized)
            } else {
                Ok(())
            }),
            r.is_err() ==> *final(self) == *old(self),
            r.is_ok() ==> *final(self) == (LiquidityPool {
                admin: Some(admin),
                config_manager: Some(config_manager),
                token: Some(token),
                ..*old(self)
            }),
    {
        if self.admin.is_some() {
            return Err(Error::AlreadyInitialized);
        }
        self.admin = Some(admin);
        self.config_manager = Some(config_manager);
        self.token = Some(token);
        Ok(())
    }

    /// Names the one caller that may reserve liquidity and move collateral.
    pub fn set_position_manager(&mut self, admin: Principal, position_manager: Principal) -> (r:
        Result<(), Error>)
        ensures
            r == old(self).admin_check(admin),
            r.is_err() ==> *final(self) == *old(self),
            r.is_ok() ==> *final(self) == (LiquidityPool {
                position_manager: Some(position_manager),
                ..*old(self)
            }),
    {
        match self.admin {
            None => {
                return Err(Error::NotInitialized);
            },
            Some(a) => {
                require_principal(admin, a)?;
            },
        }
        self.position_manager = Some(position_manager);
        Ok(())
    }

    /// The parameter store this pool was pointed at.
    pub fn config_manager(&self) -> (r: Result<Principal, Error>)
        ensures
            r == ConfigManager::spec_lookup(self.config_manager),
    {
        match self.config_manager {
            Some(a) => Ok(a),
            None => Err(Error::NotInitialized),
        }
    }

    /// The token ledger this pool was pointed at.
    pub fn token(&self) -> (r: Result<Principal, Error>)
        ensures
            r == ConfigManager::spec_lookup(self.token),
    {
        match self.token {
            Some(a) => Ok(a),
            None => Err(Error::NotInitialized),
        }
    }

    /// The shares of `user`: never more than all shares.
    pub fn get_shares(&self, user: Principal) -> (r: i128)
        requires
            self.wf(),
        ensures
            r == self.shares_of(user),
            0 <= r <= self.total_shares,
    {
        proof {
            self.shares.lemma_bounded(user.id);
        }
        self.shares.get(user.id)
    }

    /// All shares in circulation.
    pub fn get_total_shares(&self) -> (r: i128)
        ensures
            r == self.total_shares,
    {
        self.total_shares
    }

    /// What providers have paid in and not taken out.
    pub fn get_total_deposits(&self) -> (r: i128)
        ensures
            r == self.total_deposits,
    {
        self.total_deposits
    }

    /// Gives `to` new shares.
    fn mint_shares(&mut self, to: Principal, amount: i128)
        requires
            old(self).shares.wf(),
            old(self).shares.nonneg(),
            old(self).total_shares == old(self).shares.total(),
            amount >= 0,
            old(self).total_shares + amount <= i128::MAX,
        ensures
            final(self).shares.wf(),
            final(self).shares.nonneg(),
            final(self).total_shares == final(self).shares.total(),
            final(self).total_shares == old(self).total_shares + amount,
            final(self).shares_of(to) == old(self).shares_of(to) + amount,
            forall|k: u64|
                k != to.id ==> #[trigger] final(self).shares.amount(k) == old(self).shares.amount(k),
            final(self).same_roles(old(self)),
            final(self).total_deposits == old(self).total_deposits,
            final(self).reserved_liquidity == old(self).reserved_liquidity,
            final(self).position_collateral == old(self).position_collateral,
    {
        proof {
            self.shares.lemma_bounded(to.id);
        }
        let held = self.shares.get(to.id);
        self.shares.set(to.id, held + amount);
        self.total_shares = self.total_shares + amount;
    }

    /// Takes shares from `from`, who holds them.
    fn burn_shares(&mut self, from: Principal, amount: i128)
        requires
            old(self).shares.wf(),
            old(self).shares.nonneg(),
            old(self).total_shares == old(self).shares.total(),
            0 <= amount <= old(self).shares_of(from),
        ensures
            final(self).shares.wf(),
            final(self).shares.nonneg(),
            final(self).total_shares == final(self).shares.total(),
            final(self).total_shares == old(self).total_shares - amount,
            final(self).shares_of(from) == old(self).shares_of(from) - amount,
            forall|k: u64|
                k != from.id ==> #[trigger] final(self).shares.amount(k) == old(
                    self,
                ).shares.amount(k),
            final(self).same_roles(old(self)),
            final(self).total_deposits == old(self).total_deposits,
            final(self).reserved_liquidity == old(self).reserved_liquidity,
            final(self).position_collateral == old(self).position_collateral,
    {
        proof {
            self.shares.lemma_bounded(from.id);
        }
        let held = self.shares.get(from.id);
        self.shares.set(from.id, held - amount);
        self.total_shares = self.total_shares - amount;
    }

    /// The shares that a deposit of `amount` buys once the pool holds
    /// `balance_after`: one per token while no shares exist, and after that
    /// in proportion to what the pool held before.
    pub open spec fn shares_for(&self, amount: int, balance_after: int) -> int {
        if self.total_shares == 0 {
            amount
        } else {
            amount * self.total_shares / (balance_after - amount)
        }
    }

    /// The shares that `user` gets for `amount`, or why the deposit is
    /// refused.
    pub open spec fn deposit_result(&self, token: &FaucetToken, user: Principal, amount: i128)
        -> Result<i128, Error> {
        let balance_after = token.balance_after_transfer(user, self.address, amount, self.address);
        let minted = self.shares_for(amount as int, balance_after);
        if amount <= 0 {
            Err(Error::AmountNotPositive)
        } else if token.balance_of(user) < amount {
            Err(Error::InsufficientBalance)
        } else if self.total_shares != 0 && balance_after - amount <= 0 {
            Err(Error::InvalidPoolState)
        } else if !fits_i128(amount * self.total_shares) || !fits_i128(self.total_shares + minted)
            || !fits_i128(self.total_deposits + amount) {
            Err(Error::Overflow)
        } else {
            Ok(minted as i128)
        }
    }

    /// `self` is `before` after `user` got `minted` shares for `amount`.
    pub open spec fn is_deposit_of(
        &self,
        before: &LiquidityPool,
        user: Principal,
        amount: i128,
        minted: i128,
    ) -> bool {
        &&& self.same_roles(before)
        &&& self.reserved_liquidity == before.reserved_liquidity
        &&& self.position_collateral@ == before.position_collateral@
        &&& self.total_shares == before.total_shares + minted
        &&& self.total_deposits == before.total_deposits + amount
        &&& self.shares_of(user) == before.shares_of(user) + minted
        &&& forall|u: Principal| u != user ==> #[trigger] self.shares_of(u) == before.shares_of(u)
    }

    /// Takes `amount` tokens from `user` into the pool and gives shares for
    /// them: the tokens move first, and the shares are priced by what the
    /// pool held before they came.
    pub fn deposit(&mut self, token: &mut FaucetToken, user: Principal, amount: i128) -> (r:
        Result<i128, Error>)
        requires
            old(self).wf(),
            old(token).wf(),
        ensures
            final(self).wf(),
            final(token).wf(),
            r == old(self).deposit_result(old(token), user, amount),
            r.is_err() ==> *final(self) == *old(self) && *final(token) == *old(token),
            r.is_ok() ==> final(token).is_transfer_of(old(token), user, old(self).address, amount)
                && final(self).is_deposit_of(old(self), user, amount, r.unwrap()),
    {
        if amount <= 0 {
            return Err(Error::AmountNotPositive);
        }
        if token.balance(user) < amount {
            return Err(Error::InsufficientBalance);
        }
        let balance_before = token.balance(self.address);
        let minted = if self.total_shares == 0 {
            assert(amount * self.total_shares == 0) by (nonlinear_arith)
                requires
                    self.total_shares == 0,
            ;
            amount
        } else {
            // What the pool holds before the tokens come, also where the
            // provider is the pool itself.
            let value_before = if user.id == self.address.id {
                balance_before - amount
            } else {
                balance_before
            };
            if value_before <= 0 {
                return Err(Error::InvalidPoolState);
            }
            let product = mul_i128(amount, self.total_shares)?;
            proof {
                assert(amount * self.total_shares >= 0) by (nonlinear_arith)
                    requires
                        amount > 0,
                        self.total_shares >= 0,
                ;
                vstd::arithmetic::div_mod::lemma_div_pos_is_pos(product as int, value_before as int);
            }
            product / value_before
        };
        add_i128(self.total_shares, minted)?;
        let total_deposits = add_i128(self.total_deposits, amount)?;
        assert(self.deposit_result(token, user, amount) == Ok::<i128, Error>(minted));
        let moved = token.transfer(user, self.address, amount);
        assert(moved.is_ok());
        self.mint_shares(user, minted);
        self.total_deposits = total_deposits;
        Ok(minted)
    }

    /// The tokens that `shares` are worth while the pool holds `balance`.
    pub open spec fn tokens_for(&self, shares: int, balance: int) -> int {
        shares * balance / (self.total_shares as int)
    }

    /// The part of the recorded deposits that goes with `shares`.
    pub open spec fn deposits_for(&self, shares: int) -> int {
        shares * self.total_deposits / (self.total_shares as int)
    }

    /// The tokens that `user` gets for `shares`, or why the withdrawal is
    /// refused.
    pub open spec fn withdraw_result(
        &self,
        config: &ConfigManager,
        token: &FaucetToken,
        user: Principal,
        shares: i128,
    ) -> Result<i128, Error> {
        let balance = token.balance_of(self.address);
        let tokens = self.tokens_for(shares as int, balance);
        let remaining = balance - tokens;
        let ratio = config.parameters.min_liquidity_reserve_ratio;
        if shares <= 0 {
            Err(Error::SharesNotPositive)
        } else if self.total_shares == 0 {
            Err(Error::NoShares)
        } else if self.shares_of(user) < shares {
            Err(Error::InsufficientShares)
        } else if !fits_i128(shares * balance) || !fits_i128(shares * self.total_deposits)
            || !fits_i128(ratio * remaining) {
            Err(Error::Overflow)
        } else if tokens > balance - self.reserved_liquidity {
            Err(Error::InsufficientLiquidity)
        } else if remaining - self.reserved_liquidity < trunc_div(ratio * remaining, 10_000) {
            Err(Error::ReserveRatioViolated)
        } else {
            Ok(tokens as i128)
        }
    }

    /// `self` is `before` after `user` gave back `shares`.
    pub open spec fn is_withdrawal_of(&self, before: &LiquidityPool, user: Principal, shares: i128)
        -> bool {
        &&& self.same_roles(before)
        &&& self.reserved_liquidity == before.reserved_liquidity
        &&& self.position_collateral@ == before.position_collateral@
        &&& self.total_shares == before.total_shares - shares
        &&& self.total_deposits == before.total_deposits - before.deposits_for(shares as int)
        &&& self.shares_of(user) == before.shares_of(user) - shares
        &&& forall|u: Principal| u != user ==> #[trigger] self.shares_of(u) == before.shares_of(u)
    }

    /// `after` is `before` after the pool paid `amount` to `to`: nothing
    /// moves where the amount is zero.
    pub open spec fn is_payout(
        &self,
        after: &FaucetToken,
        before: &FaucetToken,
        to: Principal,
        amount: i128,
    ) -> bool {
        if amount == 0 {
            *after == *before
        } else {
            after.is_transfer_of(before, self.address, to, amount)
        }
    }

    /// Gives `shares` back for their part of what the pool holds. The pool
    /// pays only out of what is not reserved, and keeps the configured part
    /// of what is left unreserved: after a withdrawal the pool holds at
    /// least what is reserved.
    pub fn withdraw(
        &mut self,
        config: &ConfigManager,
        token: &mut FaucetToken,
        user: Principal,
        shares: i128,
    ) -> (r: Result<i128, Error>)
        requires
            old(self).wf(),
            old(token).wf(),
        ensures
            final(self).wf(),
            final(token).wf(),
            r == old(self).withdraw_result(config, old(token), user, shares),
            r.is_err() ==> *final(self) == *old(self) && *final(token) == *old(token),
            r.is_ok() ==> old(self).is_payout(final(token), old(token), user, r.unwrap())
                && final(self).is_withdrawal_of(old(self), user, shares),
            r.is_ok() ==> final(token).balance_of(old(self).address) >= old(
                self,
            ).reserved_liquidity,
    {
        if shares <= 0 {
            return Err(Error::SharesNotPositive);
        }
        if self.total_shares == 0 {
            return Err(Error::NoShares);
        }
        proof {
            self.shares.lemma_bounded(user.id);
        }
        let held = self.shares.get(user.id);
        if held < shares {
            return Err(Error::InsufficientShares);
        }
        let balance = token.balance(self.address);
        proof {
            lemma_share(shares as int, self.total_shares as int, balance as int);
            lemma_share(shares as int, self.total_shares as int, self.total_deposits as int);
        }
        let tokens = mul_i128(shares, balance)? / self.total_shares;
        let deposits = mul_i128(shares, self.total_deposits)? / self.total_shares;
        let remaining = balance - tokens;
        let required = mul_div_signed(config.min_liquidity_reserve_ratio(), remaining, 10_000)?;
        if self.reserved_liquidity > remaining as u128 {
            return Err(Error::InsufficientLiquidity);
        }
        let free: i128 = remaining - (self.reserved_liquidity as i128);
        if free < required {
            return Err(Error::ReserveRatioViolated);
        }
        assert(self.withdraw_result(config, token, user, shares) == Ok::<i128, Error>(tokens));
        if tokens > 0 {
            let moved = token.transfer(self.address, user, tokens);
            assert(moved.is_ok());
        }
        self.burn_shares(user, shares);
        self.total_deposits = self.total_deposits - deposits;
        Ok(tokens)
    }

    /// Checks that `caller` is the position manager.
    pub fn require_position_manager(&self, caller: Principal) -> (r: Result<(), Error>)
        ensures
            r == self.position_manager_check(caller),
    {
        match self.position_manager {
            None => Err(Error::NotInitialized),
            Some(manager) => require_principal(caller, manager),
        }
    }

    /// The reserved liquidity after `size` more is reserved, or why it
    /// cannot be.
    pub open spec fn reserve_result(&self, caller: Principal, size: u128) -> Result<u128, Error> {
        if self.position_manager_check(caller).is_err() {
            Err(self.position_manager_check(caller).unwrap_err())
        } else if !fits_u128(self.reserved_liquidity + size) {
            Err(Error::Overflow)
        } else {
            Ok((self.reserved_liquidity + size) as u128)
        }
    }

    /// The reserved liquidity after `size` is released, or why it cannot be.
    pub open spec fn release_result(&self, caller: Principal, size: u128) -> Result<u128, Error> {
        if self.position_manager_check(caller).is_err() {
            Err(self.position_manager_check(caller).unwrap_err())
        } else if size > self.reserved_liquidity {
            Err(Error::InsufficientReserved)
        } else {
            Ok((self.reserved_liquidity - size) as u128)
        }
    }

    /// Reserves `size` more for a position. Only the position manager may.
    pub fn reserve_liquidity(&mut self, caller: Principal, position_id: u64, size: u128) -> (r:
        Result<(), Error>)
        ensures
            r.is_ok() <==> old(self).reserve_result(caller, size).is_ok(),
            r.is_err() ==> r.err() == old(self).reserve_result(caller, size).err() && *final(self)
                == *old(self),
            r.is_ok() ==> *final(self) == (LiquidityPool {
                reserved_liquidity: old(self).reserve_result(caller, size).unwrap(),
                ..*old(self)
            }),
    {
        self.require_position_manager(caller)?;
        let next = add_u128(self.reserved_liquidity, size)?;
        self.reserved_liquidity = next;
        Ok(())
    }

    /// Releases `size` of what is reserved, never more than is reserved.
    /// Only the position manager may.
    pub fn release_liquidity(&mut self, caller: Principal, position_id: u64, size: u128) -> (r:
        Result<(), Error>)
        ensures
            r.is_ok() <==> old(self).release_result(caller, size).is_ok(),
            r.is_err() ==> r.err() == old(self).release_result(caller, size).err() && *final(self)
                == *old(self),
            r.is_ok() ==> *final(self) == (LiquidityPool {
                reserved_liquidity: old(self).release_result(caller, size).unwrap(),
                ..*old(self)
            }),
    {
        self.require_position_manager(caller)?;
        if size > self.reserved_liquidity {
            return Err(Error::InsufficientReserved);
        }
        self.reserved_liquidity = self.reserved_liquidity - size;
        Ok(())
    }

    /// The collateral records after the record of one position was set to
    /// `amount`: no record is kept of nothing.
    pub open spec fn collateral_after_record(&self, position_id: u64, amount: u128) -> Map<
        u64,
        u128,
    > {
        if amount == 0 {
            self.position_collateral@.remove(position_id)
        } else {
            self.position_collateral@.insert(position_id, amount)
        }
    }

    /// `self` is `before` with the collateral record of one position set to
    /// `amount`.
    pub open spec fn is_record_of(&self, before: &LiquidityPool, position_id: u64, amount: u128)
        -> bool {
        &&& self.same_roles(before)
        &&& self.same_shares(before)
        &&& self.reserved_liquidity == before.reserved_liquidity
        &&& self.position_collateral@ == before.collateral_after_record(position_id, amount)
    }

    /// `self` is `before` with the collateral record of one position set to
    /// `collateral` and the reserved liquidity set to `reserved`.
    pub open spec fn is_position_change_of(
        &self,
        before: &LiquidityPool,
        position_id: u64,
        collateral: u128,
        reserved: u128,
    ) -> bool {
        &&& self.same_roles(before)
        &&& self.same_shares(before)
        &&& self.reserved_liquidity == reserved
        &&& self.position_collateral@ == before.collateral_after_record(position_id, collateral)
    }

    /// Sets the collateral record of one position.
    fn put_collateral(&mut self, position_id: u64, amount: u128)
        requires
            old(self).wf(),
        ensures
            final(self).wf(),
            final(self).is_record_of(old(self), position_id, amount),
    {
        if amount == 0 {
            self.position_collateral.remove(&position_id);
        } else {
            self.position_collateral.insert(position_id, amount);
        }
    }

    /// The collateral held for a position, zero where none is.
    pub fn get_position_collateral(&self, position_id: u64) -> (r: u128)
        ensures
            r == self.collateral_of(position_id),
    {
        match self.position_collateral.get(&position_id) {
            Some(v) => *v,
            None => 0,
        }
    }

    /// Why collateral cannot be taken in from `trader`, if it cannot.
    pub open spec fn collateral_deposit_check(
        &self,
        token: &FaucetToken,
        caller: Principal,
        position_id: u64,
        trader: Principal,
        amount: u128,
    ) -> Result<(), Error> {
        if self.position_manager_check(caller).is_err() {
            self.position_manager_check(caller)
        } else if amount == 0 {
            Err(Error::AmountNotPositive)
        } else if !fits_i128(amount as int) || !fits_u128(self.collateral_of(position_id) + amount) {
            Err(Error::Overflow)
        } else if token.balance_of(trader) < amount {
            Err(Error::InsufficientBalance)
        } else {
            Ok(())
        }
    }

    /// Takes `amount` tokens from `trader` into the pool as collateral of a
    /// position. Only the position manager may.
    pub fn deposit_position_collateral(
        &mut self,
        token: &mut FaucetToken,
        caller: Principal,
        position_id: u64,
        trader: Principal,
        amount: u128,
    ) -> (r: Result<(), Error>)
        requires
            old(self).wf(),
            old(token).wf(),
        ensures
            final(self).wf(),
            final(token).wf(),
            r == old(self).collateral_deposit_check(old(token), caller, position_id, trader, amount),
            r.is_err() ==> *final(self) == *old(self) && *final(token) == *old(token),
            r.is_ok() ==> final(token).is_transfer_of(
                old(token),
                trader,
                old(self).address,
                amount as i128,
            ) && final(self).is_record_of(
                old(self),
                position_id,
                (old(self).collateral_of(position_id) + amount) as u128,
            ),
    {
        self.require_position_manager(caller)?;
        if amount == 0 {
            return Err(Error::AmountNotPositive);
        }
        if amount > i128::MAX as u128 {
            return Err(Error::Overflow);
        }
        let next = add_u128(self.get_position_collateral(position_id), amount)?;
        if token.balance(trader) < amount as i128 {
            return Err(Error::InsufficientBalance);
        }
        let moved = token.transfer(trader, self.address, amount as i128);
        assert(moved.is_ok());
        self.put_collateral(position_id, next);
        Ok(())
    }

    /// Why collateral cannot be paid out, if it cannot.
    pub open spec fn collateral_withdraw_check(
        &self,
        token: &FaucetToken,
        caller: Principal,
        position_id: u64,
        amount: u128,
    ) -> Result<(), Error> {
        if self.position_manager_check(caller).is_err() {
            self.position_manager_check(caller)
        } else if amount == 0 {
            Err(Error::AmountNotPositive)
        } else if self.collateral_of(position_id) < amount {
            Err(Error::InsufficientCollateral)
        } else if token.balance_of(self.address) < amount {
            Err(Error::InsufficientLiquidity)
        } else {
            Ok(())
        }
    }

    /// Pays `amount` of the collateral of a position out of the pool to
    /// `trader`. Only the position manager may.
    pub fn withdraw_position_collateral(
        &mut self,
        token: &mut FaucetToken,
        caller: Principal,
        position_id: u64,
        trader: Principal,
        amount: u128,
    ) -> (r: Result<(), Error>)
        requires
            old(self).wf(),
            old(token).wf(),
        ensures
            final(self).wf(),
            final(token).wf(),
            r == old(self).collateral_withdraw_check(old(token), caller, position_id, amount),
            r.is_err() ==> *final(self) == *old(self) && *final(token) == *old(token),
            r.is_ok() ==> final(token).is_transfer_of(
                old(token),
                old(self).address,
                trader,
                amount as i128,
            ) && final(self).is_record_of(
                old(self),
                position_id,
                (old(self).collateral_of(position_id) - amount) as u128,
            ),
    {
        self.require_position_manager(caller)?;
        if amount == 0 {
            return Err(Error::AmountNotPositive);
        }
        let held = self.get_position_collateral(position_id);
        if held < amount {
            return Err(Error::InsufficientCollateral);
        }
        let balance = token.balance(self.address);
        if amount > i128::MAX as u128 || balance < amount as i128 {
            return Err(Error::InsufficientLiquidity);
        }
        let moved = token.transfer(self.address, trader, amount as i128);
        assert(moved.is_ok());
        self.put_collateral(position_id, held - amount);
        Ok(())
    }

    /// Sets the collateral on record for a position, without moving tokens:
    /// for collateral that reached the pool by another way, or that a loss
    /// has used up. Only the position manager may.
    pub fn record_position_collateral(&mut self, caller: Principal, position_id: u64, amount: u128)
        -> (r: Result<(), Error>)
        requires
            old(self).wf(),
        ensures
            final(self).wf(),
            r == old(self).position_manager_check(caller),
            r.is_err() ==> *final(self) == *old(self),
            r.is_ok() ==> final(self).is_record_of(old(self), position_id, amount),
    {
        self.require_position_manager(caller)?;
        self.put_collateral(position_id, amount);
        Ok(())
    }

    /// Why a gain cannot be paid, if it cannot: a loss is never refused,
    /// because nothing is paid for it.
    pub open spec fn settle_check(&self, token: &FaucetToken, caller: Principal, pnl: i128)
        -> Result<(), Error> {
        if self.position_manager_check(caller).is_err() {
            self.position_manager_check(caller)
        } else if pnl > 0 && token.balance_of(self.address) < pnl {
            Err(Error::InsufficientLiquidity)
        } else {
            Ok(())
        }
    }

    /// Pays a gain to `trader` out of the pool. A loss moves nothing here:
    /// it is taken out of what the position's collateral returns. Only the
    /// position manager may.
    pub fn settle_trader_pnl(
        &mut self,
        token: &mut FaucetToken,
        caller: Principal,
        trader: Principal,
        pnl: i128,
    ) -> (r: Result<(), Error>)
        requires
            old(token).wf(),
        ensures
            final(token).wf(),
            *final(self) == *old(self),
            r == old(self).settle_check(old(token), caller, pnl),
            r.is_err() ==> *final(token) == *old(token),
            r.is_ok() ==> old(self).is_payout(
                final(token),
                old(token),
                trader,
                if pnl > 0 {
                    pnl
                } else {
                    0
                },
            ),
    {
        self.require_position_manager(caller)?;
        if pnl > 0 {
            if token.balance(self.address) < pnl {
                return Err(Error::InsufficientLiquidity);
            }
            let moved = token.transfer(self.address, trader, pnl);
            assert(moved.is_ok());
        }
        Ok(())
    }

    /// The liquidity reserved for all open positions together.
    pub fn get_reserved_liquidity(&self) -> (r: u128)
        ensures
            r == self.reserved_liquidity,
    {
        self.reserved_liquidity
    }

    /// What the pool holds beyond what is reserved.
    pub open spec fn spec_available(&self, token: &FaucetToken) -> int {
        token.balance_of(self.address) - self.reserved_liquidity
    }

    /// What the pool holds beyond what is reserved: negative where the pool
    /// holds less than is reserved.
    pub fn get_available_liquidity(&self, token: &FaucetToken) -> (r: Result<i128, Error>)
        requires
            token.wf(),
        ensures
            r == (if fits_i128(self.spec_available(token)) {
                Ok::<i128, Error>(self.spec_available(token) as i128)
            } else {
                Err(Error::Overflow)
            }),
    {
        let balance = token.balance(self.address);
        if self.reserved_liquidity > i128::MAX as u128 {
            if self.reserved_liquidity - (i128::MAX as u128) - 1 > balance as u128 {
                Err(Error::Overflow)
            } else {
                let over: i128 = (self.reserved_liquidity - (i128::MAX as u128) - 1) as i128;
                Ok(balance - over - i128::MAX - 1)
            }
        } else {
            Ok(balance - self.reserved_liquidity as i128)
        }
    }

    /// The part of a pool holding `balance` that is reserved once
    /// `reserved` is, in basis points.
    pub open spec fn utilization(reserved: int, balance: int) -> int {
        reserved * 10_000 / balance
    }

    /// The reserved part of what the pool holds, in basis points, or why it
    /// has no value.
    pub open spec fn utilization_result(&self, token: &FaucetToken) -> Result<u128, Error> {
        if token.balance_of(self.address) == 0 {
            Err(Error::DivisionByZero)
        } else if !fits_u128(self.reserved_liquidity * 10_000) {
            Err(Error::Overflow)
        } else {
            Ok(
                LiquidityPool::utilization(
                    self.reserved_liquidity as int,
                    token.balance_of(self.address),
                ) as u128,
            )
        }
    }

    /// The reserved part of what the pool holds, in basis points.
    pub fn get_utilization_ratio(&self, token: &FaucetToken) -> (r: Result<u128, Error>)
        requires
            token.wf(),
        ensures
            r == self.utilization_result(token),
    {
        let balance = token.balance(self.address);
        if balance == 0 {
            return Err(Error::DivisionByZero);
        }
        let scaled = mul_u128(self.reserved_liquidity, 10_000)?;
        Ok(scaled / (balance as u128))
    }
}

} // verus!
