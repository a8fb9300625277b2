//! A table from account numbers to amounts that knows its own total.

use vstd::prelude::*;

verus! {

/// One row of a [`Ledger`].
#[derive(Clone, Copy, Debug, PartialEq, Eq, Structural)]
pub struct Account {
    /// The account number.
    pub key: u64,
    /// What the account holds.
    pub amount: i128,
}

/// No two rows carry the same account number.
pub open spec fn keys_unique(s: Seq<Account>) -> bool {
    forall|i: int, j: int| 0 <= i < j < s.len() ==> (#[trigger] s[i]).key != (#[trigger] s[j]).key
}

/// What `key` holds in `s`: the amount of its row, zero without one.
pub open spec fn seq_amount(s: Seq<Account>, key: u64) -> int
    decreases s.len(),
{
    if s.len() == 0 {
        0
    } else if s.last().key == key {
        s.last().amount as int
    } else {
        seq_amount(s.drop_last(), key)
    }
}

/// The sum of all amounts in `s`.
pub open spec fn seq_total(s: Seq<Account>) -> int
    decreases s.len(),
{
    if s.len() == 0 {
        0
    } else {
        seq_total(s.drop_last()) + s.last().amount
    }
}

/// An account number without a row holds nothing.
pub proof fn lemma_amount_absent(s: Seq<Account>, key: u64)
    requires
        forall|i: int| 0 <= i < s.len() ==> (#[trigger] s[i]).key != key,
    ensures
        seq_amount(s, key) == 0,
    decreases s.len(),
{
    if s.len() > 0 {
        lemma_amount_absent(s.drop_last(), key);
    }
}

/// An account number holds the amount of its one row.
pub proof fn lemma_amount_at(s: Seq<Account>, i: int, key: u64)
    requires
        keys_unique(s),
        0 <= i < s.len(),
        s[i].key == key,
    ensures
        seq_amount(s, key) == s[i].amount,
    decreases s.len(),
{
    if i < s.len() - 1 {
        assert(s.last() == s[s.len() - 1]);
        assert(s.last().key != key);
        let t = s.drop_last();
        assert forall|a: int, b: int| 0 <= a < b < t.len() implies (#[trigger] t[a]).key != (
        #[trigger] t[b]).key by {
            assert(t[a] == s[a] && t[b] == s[b]);
        }
        lemma_amount_at(t, i, key);
    }
}

/// Where every amount is at least zero, no account holds more than the total.
pub proof fn lemma_amount_le_total(s: Seq<Account>, key: u64)
    requires
        forall|i: int| 0 <= i < s.len() ==> (#[trigger] s[i]).amount >= 0,
    ensures
        0 <= seq_amount(s, key) <= seq_total(s),
    decreases s.len(),
{
    if s.len() > 0 {
        let t = s.drop_last();
        assert forall|i: int| 0 <= i < t.len() implies (#[trigger] t[i]).amount >= 0 by {
            assert(t[i] == s[i]);
        }
        lemma_amount_le_total(t, key);
        lemma_total_nonneg(t);
        assert(s.last() == s[s.len() - 1]);
    }
}

/// Where every amount is at least zero, two different accounts together
/// hold no more than the total.
pub proof fn lemma_two_amounts_le_total(s: Seq<Account>, a: u64, b: u64)
    requires
        forall|i: int| 0 <= i < s.len() ==> (#[trigger] s[i]).amount >= 0,
        a != b,
    ensures
        seq_amount(s, a) + seq_amount(s, b) <= seq_total(s),
    decreases s.len(),
{
    if s.len() > 0 {
        let t = s.drop_last();
        assert forall|i: int| 0 <= i < t.len() implies (#[trigger] t[i]).amount >= 0 by {
            assert(t[i] == s[i]);
        }
        assert(s.last() == s[s.len() - 1]);
        if s.last().key == a {
            lemma_amount_le_total(t, b);
        } else if s.last().key == b {
            lemma_amount_le_total(t, a);
        } else {
            lemma_two_amounts_le_total(t, a, b);
        }
    }
}

/// Where every amount is at least zero, so is the total.
pub proof fn lemma_total_nonneg(s: Seq<Account>)
    requires
        forall|i: int| 0 <= i < s.len() ==> (#[trigger] s[i]).amount >= 0,
    ensures
        0 <= seq_total(s),
    decreases s.len(),
{
    if s.len() > 0 {
        let t = s.drop_last();
        assert forall|i: int| 0 <= i < t.len() implies (#[trigger] t[i]).amount >= 0 by {
            assert(t[i] == s[i]);
        }
        lemma_total_nonneg(t);
        assert(s.last() == s[s.len() - 1]);
    }
}

/// Where every amount is at least zero, the first `n` rows hold no more
/// than all rows.
pub proof fn lemma_total_of_prefix(s: Seq<Account>, n: int)
    requires
        forall|i: int| 0 <= i < s.len() ==> (#[trigger] s[i]).amount >= 0,
        0 <= n <= s.len(),
    ensures
        seq_total(s.take(n)) <= seq_total(s),
    decreases s.len() - n,
{
    if n < s.len() {
        lemma_total_of_prefix(s, n + 1);
        let t = s.take(n + 1);
        assert(t.drop_last() =~= s.take(n));
        assert(t.last() == s[n]);
    } else {
        assert(s.take(n) =~= s);
    }
}

/// Replacing the amount of row `i` moves the total by the difference.
pub proof fn lemma_update_total(s: Seq<Account>, i: int, e: Account)
    requires
        0 <= i < s.len(),
    ensures
        seq_total(s.update(i, e)) == seq_total(s) - s[i].amount + e.amount,
    decreases s.len(),
{
    let u = s.update(i, e);
    if i == s.len() - 1 {
        assert(u.drop_last() =~= s.drop_last());
    } else {
        assert(u.drop_last() =~= s.drop_last().update(i, e));
        lemma_update_total(s.drop_last(), i, e);
    }
}

/// Replacing the amount of row `i` changes what its account holds and
/// nothing else.
pub proof fn lemma_update_amount(s: Seq<Account>, i: int, e: Account, key: u64)
    requires
        keys_unique(s),
        0 <= i < s.len(),
        e.key == s[i].key,
    ensures
        seq_amount(s.update(i, e), key) == (if key == e.key {
            e.amount as int
        } else {
            seq_amount(s, key)
        }),
    decreases s.len(),
{
    let u = s.update(i, e);
    if key == e.key {
        assert forall|a: int, b: int| 0 <= a < b < u.len() implies (#[trigger] u[a]).key != (
        #[trigger] u[b]).key by {
            assert(u[a].key == s[a].key && u[b].key == s[b].key);
        }
        lemma_amount_at(u, i, key);
    } else if i == s.len() - 1 {
        assert(u.drop_last() =~= s.drop_last());
    } else {
        let t = s.drop_last();
        assert(u.drop_last() =~= t.update(i, e));
        assert forall|a: int, b: int| 0 <= a < b < t.len() implies (#[trigger] t[a]).key != (
        #[trigger] t[b]).key by {
            assert(t[a] == s[a] && t[b] == s[b]);
        }
        lemma_update_amount(t, i, e, key);
    }
}

/// A table from account numbers to amounts.
///
/// An account number without a row holds zero. The total is the sum over all
/// rows, so a transfer between two accounts leaves it unchanged.
#[derive(Debug)]
pub struct Ledger {
    /// The rows, in the order in which the accounts first appeared.
    pub entries: Vec<Account>,
}

impl Ledger {
    /// No account number has two rows.
    pub open spec fn wf(&self) -> bool {
        keys_unique(self.entries@)
    }

    /// No row holds a negative amount.
    pub open spec fn nonneg(&self) -> bool {
        forall|i: int| 0 <= i < self.entries@.len() ==> (#[trigger] self.entries@[i]).amount >= 0
    }

    /// What `key` holds.
    pub open spec fn amount(&self, key: u64) -> int {
        seq_amount(self.entries@, key)
    }

    /// The sum of all amounts.
    pub open spec fn total(&self) -> int {
        seq_total(self.entries@)
    }

    /// The empty table.
    pub fn new() -> (l: Ledger)
        ensures
            l.wf(),
            l.nonneg(),
            l.total() == 0,
            forall|k: u64| l.amount(k) == 0,
    {
        Ledger { entries: Vec::new() }
    }

    /// The table with the rows `entries`, or `None` where two of them carry
    /// the same account number.
    pub fn from_entries(entries: Vec<Account>) -> (r: Option<Ledger>)
        ensures
            r.is_some() <==> keys_unique(entries@),
            r.is_some() ==> r.unwrap().entries@ == entries@ && r.unwrap().wf(),
    {
        let mut ledger = Ledger { entries: Vec::new() };
        let mut i: usize = 0;
        while i < entries.len()
            invariant
                i <= entries@.len(),
                ledger.entries@ == entries@.take(i as int),
                ledger.wf(),
            decreases entries@.len() - i,
        {
            let e = entries[i];
            match ledger.find(e.key) {
                Some(j) => {
                    assert(entries@[j as int] == ledger.entries@[j as int]);
                    assert(entries@[j as int].key == entries@[i as int].key);
                    return None;
                },
                None => {},
            }
            proof {
                let s = ledger.entries@;
                let u = s.push(e);
                assert(u =~= entries@.take(i + 1));
                assert forall|a: int, b: int| 0 <= a < b < u.len() implies (
                #[trigger] u[a]).key != (#[trigger] u[b]).key by {
                    if b < s.len() {
                        assert(u[a] == s[a] && u[b] == s[b]);
                    } else {
                        assert(u[a] == s[a]);
                    }
                }
            }
            ledger.entries.push(e);
            i = i + 1;
        }
        assert(entries@.take(entries@.len() as int) =~= entries@);
        Some(ledger)
    }

    /// The sum of all amounts, or `None` where an amount is negative or the
    /// sum does not fit.
    pub fn audit(&self) -> (r: Option<i128>)
        ensures
            r.is_some() <==> self.nonneg() && self.total() <= i128::MAX,
            r.is_some() ==> r.unwrap() == self.total(),
    {
        let mut sum: i128 = 0;
        let mut i: usize = 0;
        while i < self.entries.len()
            invariant
                i <= self.entries@.len(),
                sum == seq_total(self.entries@.take(i as int)),
                forall|j: int| 0 <= j < i ==> (#[trigger] self.entries@[j]).amount >= 0,
                sum >= 0,
            decreases self.entries@.len() - i,
        {
            let amount = self.entries[i].amount;
            if amount < 0 {
                return None;
            }
            proof {
                let t = self.entries@.take(i + 1);
                assert(t.drop_last() =~= self.entries@.take(i as int));
                assert(t.last() == self.entries@[i as int]);
            }
            match sum.checked_add(amount) {
                Some(v) => {
                    sum = v;
                },
                None => {
                    proof {
                        if self.nonneg() {
                            lemma_total_of_prefix(self.entries@, i + 1);
                        }
                    }
                    return None;
                },
            }
            i = i + 1;
        }
        assert(self.entries@.take(self.entries@.len() as int) =~= self.entries@);
        Some(sum)
    }

    /// The row of `key`, if it has one.
    fn find(&self, key: u64) -> (r: Option<usize>)
        requires
            self.wf(),
        ensures
            match r {
                Some(i) => i < self.entries@.len() && self.entries@[i as int].key == key
                    && self.amount(key) == self.entries@[i as int].amount,
                None => self.amount(key) == 0 && forall|i: int|
                    0 <= i < self.entries@.len() ==> (#[trigger] self.entries@[i]).key != key,
            },
    {
        let mut i: usize = 0;
        while i < self.entries.len()
            invariant
                self.wf(),
                i <= self.entries@.len(),
                forall|j: int| 0 <= j < i ==> (#[trigger] self.entries@[j]).key != key,
            decreases self.entries@.len() - i,
        {
            if self.entries[i].key == key {
                proof {
                    lemma_amount_at(self.entries@, i as int, key);
                }
                return Some(i);
            }
            i = i + 1;
        }
        proof {
            lemma_amount_absent(self.entries@, key);
        }
        None
    }

    /// What `key` holds.
    pub fn get(&self, key: u64) -> (r: i128)
        requires
            self.wf(),
        ensures
            r == self.amount(key),
    {
        match self.find(key) {
            Some(i) => self.entries[i].amount,
            None => 0,
        }
    }

    /// Makes `key` hold `value`.
    pub fn set(&mut self, key: u64, value: i128)
        requires
            old(self).wf(),
        ensures
            final(self).wf(),
            final(self).amount(key) == value,
            forall|k: u64| k != key ==> final(self).amount(k) == old(self).amount(k),
            final(self).total() == old(self).total() - old(self).amount(key) + value,
            old(self).nonneg() && value >= 0 ==> final(self).nonneg(),
    {
        let e = Account { key, amount: value };
        match self.find(key) {
            Some(i) => {
                proof {
                    let s = self.entries@;
                    lemma_update_total(s, i as int, e);
                    assert forall|k: u64| true implies seq_amount(s.update(i as int, e), k) == (
                    if k == key {
                        value as int
                    } else {
                        seq_amount(s, k)
                    }) by {
                        lemma_update_amount(s, i as int, e, k);
                    }
                    let u = s.update(i as int, e);
                    assert forall|a: int, b: int| 0 <= a < b < u.len() implies (
                    #[trigger] u[a]).key != (#[trigger] u[b]).key by {
                        assert(u[a].key == s[a].key && u[b].key == s[b].key);
                    }
                }
                self.entries[i] = e;
            },
            None => {
                proof {
                    let s = self.entries@;
                    let u = s.push(e);
                    assert(u.drop_last() =~= s);
                    assert(u.last() == e);
                    assert forall|a: int, b: int| 0 <= a < b < u.len() implies (
                    #[trigger] u[a]).key != (#[trigger] u[b]).key by {
                        if b < s.len() {
                            assert(u[a] == s[a] && u[b] == s[b]);
                        } else {
                            assert(u[a] == s[a]);
                        }
                    }
                }
                self.entries.push(e);
            },
        }
    }

    /// Two different accounts together hold no more than the total, given
    /// that none holds less than zero.
    pub proof fn lemma_pair_bounded(&self, a: u64, b: u64)
        requires
            self.nonneg(),
            a != b,
        ensures
            self.amount(a) + self.amount(b) <= self.total(),
    {
        lemma_two_amounts_le_total(self.entries@, a, b);
    }

    /// No account holds more than the total, given that none holds less
    /// than zero.
    pub proof fn lemma_bounded(&self, key: u64)
        requires
            self.nonneg(),
        ensures
            0 <= self.amount(key) <= self.total(),
    {
        lemma_amount_le_total(self.entries@, key);
    }
}

} // verus!
