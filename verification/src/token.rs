//! The token ledger: balances, allowances and a supply that anyone may mint.

use vstd::prelude::*;
use std::collections::HashMap;
use crate::error::Error;
use crate::ledger::{Account, Ledger};
use crate::principal::Principal;

verus! {

broadcast use vstd::std_specs::hash::group_hash_axioms;

/// Who allowed whom to spend.
#[derive(Clone, Copy, Debug, PartialEq, Eq, Structural)]
pub struct AllowanceDataKey {
    /// The owner of the tokens.
    pub from: Principal,
    /// Who may spend them.
    pub spender: Principal,
}

/// How much may be spent, and until which ledger.
#[derive(Clone, Copy, Debug, PartialEq, Eq, Structural)]
pub struct AllowanceValue {
    /// What is left to spend.
    pub amount: i128,
    /// The last ledger at which it may be spent.
    pub live_until_ledger: u32,
}

impl AllowanceDataKey {
    /// The number under which the allowance is kept: the owner in the high
    /// half, the spender in the low half.
    pub open spec fn spec_index(self) -> u128 {
        (self.from.id * 0x1_0000_0000_0000_0000 + self.spender.id) as u128
    }

    /// The number under which the allowance is kept.
    pub fn index(&self) -> (k: u128)
        ensures
            k == self.spec_index(),
    {
        (self.from.id as u128) * 0x1_0000_0000_0000_0000u128 + (self.spender.id as u128)
    }

    /// The pair that is kept under `index`.
    pub fn from_index(index: u128) -> (k: AllowanceDataKey)
        ensures
            k.spec_index() == index,
    {
        AllowanceDataKey {
            from: Principal { id: (index / 0x1_0000_0000_0000_0000u128) as u64 },
            spender: Principal { id: (index % 0x1_0000_0000_0000_0000u128) as u64 },
        }
    }

    /// Two pairs are kept under the same number only if they are the same
    /// pair.
    pub proof fn lemma_index_injective(self, other: AllowanceDataKey)
        ensures
            self.spec_index() == other.spec_index() <==> self == other,
    {
    }
}

/// One allowance on record.
#[derive(Clone, Copy, Debug, PartialEq, Eq, Structural)]
pub struct AllowanceRecord {
    /// Who allowed whom.
    pub key: AllowanceDataKey,
    /// How much, and until when.
    pub value: AllowanceValue,
}

/// The allowances that `records` hold, a later record replacing an earlier
/// one for the same pair.
pub open spec fn allowance_map(records: Seq<AllowanceRecord>) -> Map<u128, AllowanceValue>
    decreases records.len(),
{
    if records.len() == 0 {
        Map::empty()
    } else {
        allowance_map(records.drop_last()).insert(
            records.last().key.spec_index(),
            records.last().value,
        )
    }
}

/// The balances `b` after `amount` has moved from `from` to `to`. Moving
/// to oneself, or moving nothing, changes nothing.
pub open spec fn moved(
    b: spec_fn(Principal) -> int,
    from: Principal,
    to: Principal,
    amount: int,
) -> spec_fn(Principal) -> int {
    |p: Principal|
        if from == to {
            b(p)
        } else if p == from {
            b(p) - amount
        } else if p == to {
            b(p) + amount
        } else {
            b(p)
        }
}

/// A test token with an unlimited supply.
///
/// The supply is the sum of all balances, and no balance is negative.
pub struct FaucetToken {
    /// Whether `initialize` has run.
    pub initialized: bool,
    /// The token's name.
    pub name: String,
    /// The token's symbol.
    pub symbol: String,
    /// The number of decimal places.
    pub decimals: u32,
    /// All tokens minted and not burned.
    pub total_supply: i128,
    /// What each account holds.
    pub balances: Ledger,
    /// The allowances that were approved, by [`AllowanceDataKey::spec_index`].
    pub allowances: HashMap<u128, AllowanceValue>,
}

impl FaucetToken {
    /// The supply is the sum of the balances, and no balance is negative.
    pub open spec fn wf(&self) -> bool {
        &&& self.balances.wf()
        &&& self.balances.nonneg()
        &&& self.total_supply == self.balances.total()
    }

    /// What `p` holds.
    pub open spec fn balance_of(&self, p: Principal) -> int {
        self.balances.amount(p.id)
    }

    /// The allowance on record for the pair, `{0, 0}` without one.
    pub open spec fn recorded_allowance(&self, from: Principal, spender: Principal)
        -> AllowanceValue {
        let k = (AllowanceDataKey { from, spender }).spec_index();
        if self.allowances@.contains_key(k) {
            self.allowances@[k]
        } else {
            AllowanceValue { amount: 0, live_until_ledger: 0 }
        }
    }

    /// What `spender` may spend of `from`'s tokens at `ledger`.
    pub open spec fn spec_allowance(&self, from: Principal, spender: Principal, ledger: u32)
        -> int {
        let a = self.recorded_allowance(from, spender);
        if a.live_until_ledger < ledger {
            0
        } else {
            a.amount as int
        }
    }

    /// What every principal holds.
    pub open spec fn balances(&self) -> spec_fn(Principal) -> int {
        |p: Principal| self.balance_of(p)
    }

    /// `self` is `before` with the balances `b`: the same supply, the same
    /// allowances, the same name.
    pub open spec fn has_balances(&self, before: &FaucetToken, b: spec_fn(Principal) -> int)
        -> bool {
        &&& self.same_terms(before)
        &&& self.total_supply == before.total_supply
        &&& forall|p: Principal| #[trigger] self.balance_of(p) == b(p)
    }

    /// Everything but the balances and the supply is as in `other`.
    pub open spec fn same_terms(&self, other: &FaucetToken) -> bool {
        &&& self.initialized == other.initialized
        &&& self.name == other.name
        &&& self.symbol == other.symbol
        &&& self.decimals == other.decimals
        &&& self.allowances@ == other.allowances@
    }

    /// Why a transfer of `amount` from `from` to `to` is refused, if it is.
    pub open spec fn transfer_check(&self, from: Principal, amount: i128) -> Result<(), Error> {
        if amount <= 0 {
            Err(Error::AmountNotPositive)
        } else if self.balance_of(from) < amount {
            Err(Error::InsufficientBalance)
        } else {
            Ok(())
        }
    }

    /// What `p` holds after `amount` has moved from `from` to `to`.
    pub open spec fn balance_after_transfer(
        &self,
        from: Principal,
        to: Principal,
        amount: i128,
        p: Principal,
    ) -> int {
        moved(self.balances(), from, to, amount as int)(p)
    }

    /// `self` is `before` after `amount` has moved from `from` to `to`.
    pub open spec fn is_transfer_of(
        &self,
        before: &FaucetToken,
        from: Principal,
        to: Principal,
        amount: i128,
    ) -> bool {
        self.has_balances(before, moved(before.balances(), from, to, amount as int))
    }

    /// Why spending `amount` of the allowance is refused at `ledger`, if it is.
    pub open spec fn spend_check(
        &self,
        from: Principal,
        spender: Principal,
        amount: i128,
        ledger: u32,
    ) -> Result<(), Error> {
        let a = self.recorded_allowance(from, spender);
        if a.live_until_ledger < ledger {
            Err(Error::AllowanceExpired)
        } else if a.amount < amount {
            Err(Error::InsufficientAllowance)
        } else {
            Ok(())
        }
    }

    /// The allowances after the pair's allowance was set to `value` at
    /// `ledger`: kept while it is positive and alive, dropped otherwise.
    pub open spec fn allowances_after_put(
        &self,
        from: Principal,
        spender: Principal,
        value: AllowanceValue,
        ledger: u32,
    ) -> Map<u128, AllowanceValue> {
        let k = (AllowanceDataKey { from, spender }).spec_index();
        if value.amount > 0 && value.live_until_ledger > ledger {
            self.allowances@.insert(k, value)
        } else {
            self.allowances@.remove(k)
        }
    }

    /// A token that has not been initialized: no name, no supply.
    pub fn new() -> (t: FaucetToken)
        ensures
            t.wf(),
            !t.initialized,
            t.total_supply == 0,
            t.allowances@ == Map::<u128, AllowanceValue>::empty(),
            forall|p: Principal| t.balance_of(p) == 0,
    {
        FaucetToken {
            initialized: false,
            name: String::new(),
            symbol: String::new(),
            decimals: 0,
            total_supply: 0,
            balances: Ledger::new(),
            allowances: HashMap::new(),
        }
    }

    /// The token with these terms, balances and allowances, or `None`
    /// where the balances are no ledger: an account twice, a negative
    /// balance, or a sum beyond the largest amount. The supply is the sum of
    /// the balances.
    pub fn restore(
        initialized: bool,
        name: String,
        symbol: String,
        decimals: u32,
        balances: Vec<Account>,
        allowances: Vec<AllowanceRecord>,
    ) -> (r: Option<FaucetToken>)
        ensures
            r.is_some() <==> crate::ledger::keys_unique(balances@) && (forall|i: int|
                0 <= i < balances@.len() ==> (#[trigger] balances@[i]).amount >= 0)
                && crate::ledger::seq_total(balances@) <= i128::MAX,
            r.is_some() ==> {
                let t = r.unwrap();
                &&& t.wf()
                &&& t.initialized == initialized
                &&& t.name == name
                &&& t.symbol == symbol
                &&& t.decimals == decimals
                &&& t.balances.entries@ == balances@
                &&& t.allowances@ == allowance_map(allowances@)
            },
    {
        let ledger = Ledger::from_entries(balances)?;
        let supply = ledger.audit()?;
        let mut map: HashMap<u128, AllowanceValue> = HashMap::new();
        let mut i: usize = 0;
        while i < allowances.len()
            invariant
                i <= allowances@.len(),
                map@ == allowance_map(allowances@.take(i as int)),
            decreases allowances@.len() - i,
        {
            let record = allowances[i];
            proof {
                let t = allowances@.take(i + 1);
                assert(t.drop_last() =~= allowances@.take(i as int));
                assert(t.last() == record);
            }
            map.insert(record.key.index(), record.value);
            i = i + 1;
        }
        assert(allowances@.take(allowances@.len() as int) =~= allowances@);
        Some(
            FaucetToken {
                initialized,
                name,
                symbol,
                decimals,
                total_supply: supply,
                balances: ledger,
                allowances: map,
            },
        )
    }

    /// Gives the token its name, symbol and decimals, once. What was minted
    /// before stays minted.
    pub fn initialize(&mut self, name: String, symbol: String, decimals: u32) -> (r: Result<
        (),
        Error,
    >)
        requires
            old(self).wf(),
        ensures
            final(self).wf(),
            r == (if old(self).initialized {
                Err::<(), Error>(Error::AlreadyInitialized)
            } else {
                Ok(())
            }),
            r.is_err() ==> *final(self) == *old(self),
            r.is_ok() ==> *final(self) == (FaucetToken {
                initialized: true,
                name,
                symbol,
                decimals,
                ..*old(self)
            }),
    {
        if self.initialized {
            return Err(Error::AlreadyInitialized);
        }
        self.initialized = true;
        self.name = name;
        self.symbol = symbol;
        self.decimals = decimals;
        Ok(())
    }

    /// The token's name.
    pub fn name(&self) -> (r: Result<String, Error>)
        ensures
            self.initialized ==> r.is_ok() && r.unwrap()@ == self.name@,
            !self.initialized ==> r == Err::<String, Error>(Error::NotInitialized),
    {
        if self.initialized {
            Ok(self.name.clone())
        } else {
            Err(Error::NotInitialized)
        }
    }

    /// The token's symbol.
    pub fn symbol(&self) -> (r: Result<String, Error>)
        ensures
            self.initialized ==> r.is_ok() && r.unwrap()@ == self.symbol@,
            !self.initialized ==> r == Err::<String, Error>(Error::NotInitialized),
    {
        if self.initialized {
            Ok(self.symbol.clone())
        } else {
            Err(Error::NotInitialized)
        }
    }

    /// The number of decimal places.
    pub fn decimals(&self) -> (r: Result<u32, Error>)
        ensures
            r == (if self.initialized {
                Ok::<u32, Error>(self.decimals)
            } else {
                Err(Error::NotInitialized)
            }),
    {
        if self.initialized {
            Ok(self.decimals)
        } else {
            Err(Error::NotInitialized)
        }
    }

    /// All tokens minted and not burned.
    pub fn total_supply(&self) -> (r: i128)
        ensures
            r == self.total_supply,
    {
        self.total_supply
    }

    /// What `addr` holds.
    pub fn balance(&self, addr: Principal) -> (r: i128)
        requires
            self.wf(),
        ensures
            r == self.balance_of(addr),
            0 <= r <= self.total_supply,
    {
        proof {
            self.balances.lemma_bounded(addr.id);
        }
        self.balances.get(addr.id)
    }

    /// Creates `amount` new tokens for `to`. Anyone may.
    pub fn mint(&mut self, to: Principal, amount: i128) -> (r: Result<(), Error>)
        requires
            old(self).wf(),
        ensures
            final(self).wf(),
            r == (if amount <= 0 {
                Err::<(), Error>(Error::AmountNotPositive)
            } else if old(self).total_supply + amount > i128::MAX {
                Err(Error::Overflow)
            } else {
                Ok(())
            }),
            r.is_err() ==> *final(self) == *old(self),
            r.is_ok() ==> {
                &&& final(self).same_terms(old(self))
                &&& final(self).total_supply == old(self).total_supply + amount
                &&& final(self).balance_of(to) == old(self).balance_of(to) + amount
                &&& forall|p: Principal|
                    p != to ==> #[trigger] final(self).balance_of(p) == old(self).balance_of(p)
            },
    {
        if amount <= 0 {
            return Err(Error::AmountNotPositive);
        }
        let supply = match self.total_supply.checked_add(amount) {
            Some(v) => v,
            None => {
                return Err(Error::Overflow);
            },
        };
        proof {
            self.balances.lemma_bounded(to.id);
        }
        let current = self.balances.get(to.id);
        self.balances.set(to.id, current + amount);
        self.total_supply = supply;
        Ok(())
    }

    /// Moves `amount` between two balances that were checked before.
    fn move_balance(&mut self, from: Principal, to: Principal, amount: i128)
        requires
            old(self).wf(),
            old(self).transfer_check(from, amount).is_ok(),
        ensures
            final(self).wf(),
            final(self).is_transfer_of(old(self), from, to, amount),
    {
        if from.id != to.id {
            proof {
                self.balances.lemma_pair_bounded(from.id, to.id);
                self.balances.lemma_bounded(to.id);
            }
            let from_balance = self.balances.get(from.id);
            let to_balance = self.balances.get(to.id);
            self.balances.set(from.id, from_balance - amount);
            self.balances.set(to.id, to_balance + amount);
        }
    }

    /// Moves `amount` from `from` to `to`, all of it or nothing. A transfer
    /// to oneself changes nothing.
    pub fn transfer(&mut self, from: Principal, to: Principal, amount: i128) -> (r: Result<
        (),
        Error,
    >)
        requires
            old(self).wf(),
        ensures
            final(self).wf(),
            r == old(self).transfer_check(from, amount),
            r.is_err() ==> *final(self) == *old(self),
            r.is_ok() ==> final(self).is_transfer_of(old(self), from, to, amount),
    {
        if amount <= 0 {
            return Err(Error::AmountNotPositive);
        }
        if self.balances.get(from.id) < amount {
            return Err(Error::InsufficientBalance);
        }
        self.move_balance(from, to, amount);
        Ok(())
    }

    /// The allowance on record for the pair.
    fn get_allowance(&self, from: Principal, spender: Principal) -> (a: AllowanceValue)
        ensures
            a == self.recorded_allowance(from, spender),
    {
        let k = (AllowanceDataKey { from, spender }).index();
        match self.allowances.get(&k) {
            Some(a) => *a,
            None => AllowanceValue { amount: 0, live_until_ledger: 0 },
        }
    }

    /// Records the pair's allowance while it is positive and alive, and
    /// forgets it otherwise.
    fn put_allowance(
        &mut self,
        from: Principal,
        spender: Principal,
        allowance: AllowanceValue,
        ledger: u32,
    )
        ensures
            final(self).allowances@ == old(self).allowances_after_put(
                from,
                spender,
                allowance,
                ledger,
            ),
            *final(self) == (FaucetToken { allowances: final(self).allowances, ..*old(self) }),
    {
        let k = (AllowanceDataKey { from, spender }).index();
        if allowance.amount > 0 && allowance.live_until_ledger > ledger {
            self.allowances.insert(k, allowance);
        } else {
            self.allowances.remove(&k);
        }
    }

    /// What `spender` may spend of `from`'s tokens at `ledger`: nothing once
    /// the allowance's last ledger has passed.
    pub fn allowance(&self, from: Principal, spender: Principal, ledger: u32) -> (r: i128)
        ensures
            r == self.spec_allowance(from, spender, ledger),
    {
        let a = self.get_allowance(from, spender);
        if a.live_until_ledger < ledger {
            0
        } else {
            a.amount
        }
    }

    /// Lets `spender` spend up to `amount` of `from`'s tokens until
    /// `live_until_ledger`. An amount of zero withdraws the allowance.
    pub fn approve(
        &mut self,
        from: Principal,
        spender: Principal,
        amount: i128,
        live_until_ledger: u32,
        ledger: u32,
    ) -> (r: Result<(), Error>)
        requires
            old(self).wf(),
        ensures
            final(self).wf(),
            r == (if amount < 0 {
                Err::<(), Error>(Error::NegativeAmount)
            } else if live_until_ledger <= ledger {
                Err(Error::ExpirationInPast)
            } else {
                Ok(())
            }),
            r.is_err() ==> *final(self) == *old(self),
            r.is_ok() ==> {
                &&& final(self).allowances@ == old(self).allowances_after_put(
                    from,
                    spender,
                    AllowanceValue { amount, live_until_ledger },
                    ledger,
                )
                &&& *final(self) == (FaucetToken {
                    allowances: final(self).allowances,
                    ..*old(self)
                })
            },
    {
        if amount < 0 {
            return Err(Error::NegativeAmount);
        }
        if live_until_ledger <= ledger {
            return Err(Error::ExpirationInPast);
        }
        self.put_allowance(from, spender, AllowanceValue { amount, live_until_ledger }, ledger);
        Ok(())
    }

    /// Takes `amount` off the pair's allowance, which was checked before.
    fn spend_allowance(&mut self, from: Principal, spender: Principal, amount: i128, ledger: u32)
        requires
            amount > 0,
            old(self).spend_check(from, spender, amount, ledger).is_ok(),
        ensures
            final(self).allowances@ == old(self).allowances_after_put(
                from,
                spender,
                AllowanceValue {
                    amount: (old(self).recorded_allowance(from, spender).amount - amount) as i128,
                    live_until_ledger: old(self).recorded_allowance(from, spender).live_until_ledger,
                },
                ledger,
            ),
            *final(self) == (FaucetToken { allowances: final(self).allowances, ..*old(self) }),
    {
        let a = self.get_allowance(from, spender);
        self.put_allowance(
            from,
            spender,
            AllowanceValue { amount: a.amount - amount, live_until_ledger: a.live_until_ledger },
            ledger,
        );
    }

    /// Why `spender` may not take `amount` out of `from`'s balance at
    /// `ledger`, if it may not.
    pub open spec fn spend_from_check(
        &self,
        spender: Principal,
        from: Principal,
        amount: i128,
        ledger: u32,
    ) -> Result<(), Error> {
        if amount <= 0 {
            Err(Error::AmountNotPositive)
        } else if self.spend_check(from, spender, amount, ledger).is_err() {
            self.spend_check(from, spender, amount, ledger)
        } else if self.balance_of(from) < amount {
            Err(Error::InsufficientBalance)
        } else {
            Ok(())
        }
    }

    /// The allowances after `spender` has spent `amount` of what `from`
    /// allowed.
    pub open spec fn allowances_after_spend(
        &self,
        from: Principal,
        spender: Principal,
        amount: i128,
        ledger: u32,
    ) -> Map<u128, AllowanceValue> {
        let a = self.recorded_allowance(from, spender);
        self.allowances_after_put(
            from,
            spender,
            AllowanceValue {
                amount: (a.amount - amount) as i128,
                live_until_ledger: a.live_until_ledger,
            },
            ledger,
        )
    }

    /// Checks what `transfer_from` and `burn_from` have in common.
    fn check_spend_from(&self, spender: Principal, from: Principal, amount: i128, ledger: u32)
        -> (r: Result<(), Error>)
        requires
            self.wf(),
        ensures
            r == self.spend_from_check(spender, from, amount, ledger),
    {
        if amount <= 0 {
            return Err(Error::AmountNotPositive);
        }
        let a = self.get_allowance(from, spender);
        if a.live_until_ledger < ledger {
            return Err(Error::AllowanceExpired);
        }
        if a.amount < amount {
            return Err(Error::InsufficientAllowance);
        }
        if self.balances.get(from.id) < amount {
            return Err(Error::InsufficientBalance);
        }
        Ok(())
    }

    /// Moves `amount` from `from` to `to` on the strength of what `from`
    /// allowed `spender`, and takes it off that allowance.
    pub fn transfer_from(
        &mut self,
        spender: Principal,
        from: Principal,
        to: Principal,
        amount: i128,
        ledger: u32,
    ) -> (r: Result<(), Error>)
        requires
            old(self).wf(),
        ensures
            final(self).wf(),
            r == old(self).spend_from_check(spender, from, amount, ledger),
            r.is_err() ==> *final(self) == *old(self),
            r.is_ok() ==> {
                &&& final(self).initialized == old(self).initialized
                &&& final(self).name == old(self).name
                &&& final(self).symbol == old(self).symbol
                &&& final(self).decimals == old(self).decimals
                &&& final(self).total_supply == old(self).total_supply
                &&& final(self).allowances@ == old(self).allowances_after_spend(
                    from,
                    spender,
                    amount,
                    ledger,
                )
                &&& forall|p: Principal| #[trigger]
                    final(self).balance_of(p) == old(self).balance_after_transfer(
                        from,
                        to,
                        amount,
                        p,
                    )
            },
    {
        match self.check_spend_from(spender, from, amount, ledger) {
            Err(e) => {
                return Err(e);
            },
            Ok(()) => {},
        }
        self.spend_allowance(from, spender, amount, ledger);
        self.move_balance(from, to, amount);
        Ok(())
    }

    /// Destroys `amount` of a balance that was checked before.
    fn take_out(&mut self, from: Principal, amount: i128)
        requires
            old(self).wf(),
            old(self).transfer_check(from, amount).is_ok(),
        ensures
            final(self).wf(),
            final(self).same_terms(old(self)),
            final(self).total_supply == old(self).total_supply - amount,
            final(self).balance_of(from) == old(self).balance_of(from) - amount,
            forall|p: Principal|
                p != from ==> #[trigger] final(self).balance_of(p) == old(self).balance_of(p),
    {
        proof {
            self.balances.lemma_bounded(from.id);
        }
        let balance = self.balances.get(from.id);
        self.balances.set(from.id, balance - amount);
        self.total_supply = self.total_supply - amount;
    }

    /// Destroys `amount` of `from`'s tokens.
    pub fn burn(&mut self, from: Principal, amount: i128) -> (r: Result<(), Error>)
        requires
            old(self).wf(),
        ensures
            final(self).wf(),
            r == old(self).transfer_check(from, amount),
            r.is_err() ==> *final(self) == *old(self),
            r.is_ok() ==> {
                &&& final(self).same_terms(old(self))
                &&& final(self).total_supply == old(self).total_supply - amount
                &&& final(self).balance_of(from) == old(self).balance_of(from) - amount
                &&& forall|p: Principal|
                    p != from ==> #[trigger] final(self).balance_of(p) == old(self).balance_of(p)
            },
    {
        if amount <= 0 {
            return Err(Error::AmountNotPositive);
        }
        if self.balances.get(from.id) < amount {
            return Err(Error::InsufficientBalance);
        }
        self.take_out(from, amount);
        Ok(())
    }

    /// Destroys `amount` of `from`'s tokens on the strength of what `from`
    /// allowed `spender`, and takes it off that allowance.
    pub fn burn_from(&mut self, spender: Principal, from: Principal, amount: i128, ledger: u32)
        -> (r: Result<(), Error>)
        requires
            old(self).wf(),
        ensures
            final(self).wf(),
            r == old(self).spend_from_check(spender, from, amount, ledger),
            r.is_err() ==> *final(self) == *old(self),
            r.is_ok() ==> {
                &&& final(self).initialized == old(self).initialized
                &&& final(self).name == old(self).name
                &&& final(self).symbol == old(self).symbol
                &&& final(self).decimals == old(self).decimals
                &&& final(self).total_supply == old(self).total_supply - amount
                &&& final(self).allowances@ == old(self).allowances_after_spend(
                    from,
                    spender,
                    amount,
                    ledger,
                )
                &&& final(self).balance_of(from) == old(self).balance_of(from) - amount
                &&& forall|p: Principal|
                    p != from ==> #[trigger] final(self).balance_of(p) == old(self).balance_of(p)
            },
    {
        match self.check_spend_from(spender, from, amount, ledger) {
            Err(e) => {
                return Err(e);
            },
            Ok(()) => {},
        }
        self.spend_allowance(from, spender, amount, ledger);
        self.take_out(from, amount);
        Ok(())
    }
}

} // verus!
