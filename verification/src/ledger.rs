//! The authoritative balance store: a party → balance association with a
//! total-supply counter, and the invariant that the supply always equals the
//! sum of the balances.

use crate::error::Error;
use vstd::prelude::*;

verus! {

/// One ledger entry: a registered party and the balance it holds.
#[derive(Clone, Copy, Debug, PartialEq, Eq, Structural)]
pub struct Account {
    /// The party this entry belongs to.
    pub id: u64,
    /// The balance the party holds.
    pub balance: u128,
}

/// The sum of all balances recorded in `s`.
pub open spec fn sum_balances(s: Seq<Account>) -> int
    decreases s.len(),
{
    if s.len() == 0 {
        0
    } else {
        sum_balances(s.drop_last()) + s.last().balance
    }
}

/// Whether no two entries of `s` belong to the same party.
pub open spec fn unique_ids(s: Seq<Account>) -> bool {
    forall|i: int, j: int| 0 <= i < j < s.len() ==> s[i].id != s[j].id
}

/// Whether `s` holds an entry for the party `id`.
pub open spec fn is_registered_in(s: Seq<Account>, id: u64) -> bool {
    exists|i: int| 0 <= i < s.len() && s[i].id == id
}

/// The balance `s` records for the party `id`, or zero when the party has no
/// entry.
pub open spec fn balance_in(s: Seq<Account>, id: u64) -> u128 {
    if is_registered_in(s, id) {
        s[choose|i: int| 0 <= i < s.len() && s[i].id == id].balance
    } else {
        0
    }
}

/// With unique ids, the entry found at any index is the entry of its party.
pub proof fn lemma_balance_at(s: Seq<Account>, k: int)
    requires
        unique_ids(s),
        0 <= k < s.len(),
    ensures
        is_registered_in(s, s[k].id),
        balance_in(s, s[k].id) == s[k].balance,
{
    let id = s[k].id;
    assert(is_registered_in(s, id));
    let c = choose|i: int| 0 <= i < s.len() && s[i].id == id;
    if c < k {
        assert(s[c].id != s[k].id);
    } else if k < c {
        assert(s[k].id != s[c].id);
    }
}

/// The sum is never negative.
pub proof fn lemma_sum_nonneg(s: Seq<Account>)
    ensures
        sum_balances(s) >= 0,
    decreases s.len(),
{
    if s.len() > 0 {
        lemma_sum_nonneg(s.drop_last());
    }
}

/// Replacing the entry at `k` moves the sum by the difference of the
/// balances.
pub proof fn lemma_sum_update(s: Seq<Account>, k: int, a: Account)
    requires
        0 <= k < s.len(),
    ensures
        sum_balances(s.update(k, a)) == sum_balances(s) - s[k].balance + a.balance,
    decreases s.len(),
{
    let s2 = s.update(k, a);
    if k == s.len() - 1 {
        assert(s2.drop_last() =~= s.drop_last());
        assert(s2.last() == a);
    } else {
        assert(s2.drop_last() =~= s.drop_last().update(k, a));
        lemma_sum_update(s.drop_last(), k, a);
        assert(s2.last() == s.last());
        assert(s.drop_last()[k] == s[k]);
    }
}

/// Every single balance is bounded by the sum of all of them.
pub proof fn lemma_balance_le_sum(s: Seq<Account>, k: int)
    requires
        0 <= k < s.len(),
    ensures
        s[k].balance <= sum_balances(s),
    decreases s.len(),
{
    if k == s.len() - 1 {
        lemma_sum_nonneg(s.drop_last());
    } else {
        lemma_balance_le_sum(s.drop_last(), k);
        assert(s.drop_last()[k] == s[k]);
    }
}

/// What replacing the balance at index `k` does to the association as a
/// whole: registration is untouched, only the one party's balance moves, and
/// the sum moves with it.
pub proof fn lemma_update_effects(s: Seq<Account>, k: int, nb: u128)
    requires
        unique_ids(s),
        0 <= k < s.len(),
    ensures
        ({
            let s2 = s.update(k, Account { id: s[k].id, balance: nb });
            &&& unique_ids(s2)
            &&& forall|p: u64| is_registered_in(s2, p) == is_registered_in(s, p)
            &&& balance_in(s2, s[k].id) == nb
            &&& forall|p: u64| p != s[k].id ==> balance_in(s2, p) == balance_in(s, p)
            &&& sum_balances(s2) == sum_balances(s) - s[k].balance + nb
        }),
{
    let id = s[k].id;
    let s2 = s.update(k, Account { id, balance: nb });
    lemma_sum_update(s, k, Account { id, balance: nb });
    assert forall|i: int, j: int| 0 <= i < j < s2.len() implies s2[i].id != s2[j].id by {
        assert(s[i].id != s[j].id);
    }
    assert forall|p: u64| is_registered_in(s2, p) == is_registered_in(s, p) by {
        if is_registered_in(s, p) {
            let w = choose|i: int| 0 <= i < s.len() && s[i].id == p;
            assert(s2[w].id == p);
        }
        if is_registered_in(s2, p) {
            let w = choose|i: int| 0 <= i < s2.len() && s2[i].id == p;
            assert(s[w].id == p);
        }
    }
    lemma_balance_at(s2, k);
    assert forall|p: u64| p != id implies balance_in(s2, p) == balance_in(s, p) by {
        if is_registered_in(s, p) {
            let w = choose|i: int| 0 <= i < s.len() && s[i].id == p;
            assert(s2[w] == s[w]);
            lemma_balance_at(s, w);
            lemma_balance_at(s2, w);
        }
    }
}

/// What appending an entry for a fresh party does: the new party is
/// registered with its opening balance, every other party is untouched, and
/// the sum grows by the opening balance.
pub proof fn lemma_push_effects(s: Seq<Account>, a: Account)
    requires
        unique_ids(s),
        !is_registered_in(s, a.id),
    ensures
        ({
            let s2 = s.push(a);
            &&& unique_ids(s2)
            &&& is_registered_in(s2, a.id)
            &&& balance_in(s2, a.id) == a.balance
            &&& forall|p: u64| p != a.id ==> is_registered_in(s2, p) == is_registered_in(s, p)
            &&& forall|p: u64| p != a.id ==> balance_in(s2, p) == balance_in(s, p)
            &&& sum_balances(s2) == sum_balances(s) + a.balance
        }),
{
    let s2 = s.push(a);
    let n = s.len() as int;
    assert(s2.drop_last() =~= s);
    assert(s2.last() == a);
    assert forall|i: int, j: int| 0 <= i < j < s2.len() implies s2[i].id != s2[j].id by {
        if j == n {
            if s[i].id == a.id {
                assert(is_registered_in(s, a.id));
            }
        } else {
            assert(s[i].id != s[j].id);
        }
    }
    lemma_balance_at(s2, n);
    assert forall|p: u64| p != a.id implies is_registered_in(s2, p) == is_registered_in(s, p) by {
        if is_registered_in(s, p) {
            let w = choose|i: int| 0 <= i < s.len() && s[i].id == p;
            assert(s2[w].id == p);
        }
        if is_registered_in(s2, p) {
            let w = choose|i: int| 0 <= i < s2.len() && s2[i].id == p;
            assert(w < n);
            assert(s[w].id == p);
        }
    }
    assert forall|p: u64| p != a.id implies balance_in(s2, p) == balance_in(s, p) by {
        if is_registered_in(s, p) {
            let w = choose|i: int| 0 <= i < s.len() && s[i].id == p;
            assert(s2[w] == s[w]);
            lemma_balance_at(s, w);
            lemma_balance_at(s2, w);
        }
    }
}

/// What removing the entry at `k` by swapping in the last entry does: the
/// removed party loses its registration, every other party is untouched, and
/// the sum shrinks by the removed balance.
pub proof fn lemma_swap_remove_effects(s: Seq<Account>, k: int)
    requires
        unique_ids(s),
        0 <= k < s.len(),
    ensures
        ({
            let s2 = s.update(k, s.last()).drop_last();
            &&& unique_ids(s2)
            &&& !is_registered_in(s2, s[k].id)
            &&& forall|p: u64| p != s[k].id ==> is_registered_in(s2, p) == is_registered_in(s, p)
            &&& forall|p: u64| p != s[k].id ==> balance_in(s2, p) == balance_in(s, p)
            &&& sum_balances(s2) == sum_balances(s) - s[k].balance
        }),
{
    let id = s[k].id;
    let n = s.len() as int;
    let su = s.update(k, s.last());
    let s2 = su.drop_last();
    lemma_sum_update(s, k, s.last());
    assert(su.last() == s.last());
    assert(sum_balances(su) == sum_balances(s2) + su.last().balance);
    assert forall|i: int, j: int| 0 <= i < j < s2.len() implies s2[i].id != s2[j].id by {
        let oi = if i == k { n - 1 } else { i };
        let oj = if j == k { n - 1 } else { j };
        assert(s2[i] == s[oi]);
        assert(s2[j] == s[oj]);
        if oi < oj {
            assert(s[oi].id != s[oj].id);
        } else {
            assert(s[oj].id != s[oi].id);
        }
    }
    assert(!is_registered_in(s2, id)) by {
        if is_registered_in(s2, id) {
            let w = choose|i: int| 0 <= i < s2.len() && s2[i].id == id;
            let ow = if w == k { n - 1 } else { w };
            assert(s2[w] == s[ow]);
            if ow < k {
                assert(s[ow].id != s[k].id);
            } else if k < ow {
                assert(s[k].id != s[ow].id);
            }
        }
    }
    assert forall|p: u64| p != id implies is_registered_in(s2, p) == is_registered_in(s, p) by {
        if is_registered_in(s, p) {
            let w = choose|i: int| 0 <= i < s.len() && s[i].id == p;
            let w2 = if w == n - 1 { k } else { w };
            assert(s2[w2].id == p);
        }
        if is_registered_in(s2, p) {
            let w = choose|i: int| 0 <= i < s2.len() && s2[i].id == p;
            let ow = if w == k { n - 1 } else { w };
            assert(s[ow].id == p);
        }
    }
    assert forall|p: u64| p != id implies balance_in(s2, p) == balance_in(s, p) by {
        if is_registered_in(s, p) {
            let w = choose|i: int| 0 <= i < s.len() && s[i].id == p;
            let w2 = if w == n - 1 { k } else { w };
            assert(s2[w2] == s[w]);
            lemma_balance_at(s, w);
            lemma_balance_at(s2, w2);
        }
    }
}

/// The authoritative mapping of party → balance, together with the
/// total-supply counter.
///
/// Balances are mutated exclusively through the methods below. The
/// well-formedness predicate [`Ledger::wf`] — one entry per party, and the
/// supply equal to the sum of the balances — is established by [`Ledger::new`]
/// and preserved by every operation that promises it.
pub struct Ledger {
    /// The registered parties and their balances, one entry per party.
    pub accounts: Vec<Account>,
    /// The total number of units in circulation.
    pub total_supply: u128,
}

impl Ledger {
    /// The entries as the mathematical association they represent.
    pub open spec fn entries(self) -> Seq<Account> {
        self.accounts@
    }

    /// No party holds more than one entry.
    pub open spec fn ids_ok(self) -> bool {
        unique_ids(self.entries())
    }

    /// Well-formedness: one entry per party, and the recorded total supply is
    /// exactly the sum of the balances.
    pub open spec fn wf(self) -> bool {
        &&& self.ids_ok()
        &&& sum_balances(self.entries()) == self.total_supply as int
    }

    /// Whether `id` has a ledger entry.
    pub open spec fn spec_registered(self, id: u64) -> bool {
        is_registered_in(self.entries(), id)
    }

    /// The balance of `id`, or zero when `id` has no entry.
    pub open spec fn spec_balance(self, id: u64) -> u128 {
        balance_in(self.entries(), id)
    }

    /// The recorded total supply.
    pub open spec fn spec_total_supply(self) -> u128 {
        self.total_supply
    }

    /// An empty ledger: no parties, no supply.
    pub fn new() -> (r: Ledger)
        ensures
            r.wf(),
            r.spec_total_supply() == 0,
            r.entries().len() == 0,
            forall|p: u64| !r.spec_registered(p),
            forall|p: u64| r.spec_balance(p) == 0,
    {
        Ledger { accounts: Vec::new(), total_supply: 0 }
    }

    /// The index of the entry of `id`, when there is one.
    fn find(&self, id: u64) -> (r: Option<usize>)
        ensures
            match r {
                Some(i) => i < self.entries().len() && self.entries()[i as int].id == id,
                None => !self.spec_registered(id),
            },
    {
        let n = self.accounts.len();
        let mut i: usize = 0;
        while i < n
            invariant
                n == self.entries().len(),
                i <= n,
                forall|j: int| 0 <= j < i ==> self.entries()[j].id != id,
            decreases n - i,
        {
            if self.accounts[i].id == id {
                return Some(i);
            }
            i = i + 1;
        }
        None
    }

    /// Whether `id` has a ledger entry.
    pub fn is_registered(&self, id: u64) -> (r: bool)
        ensures
            r == self.spec_registered(id),
    {
        self.find(id).is_some()
    }

    /// The balance of `id`; an unregistered party reads as zero.
    pub fn balance_of(&self, id: u64) -> (r: u128)
        requires
            self.ids_ok(),
        ensures
            r == self.spec_balance(id),
    {
        match self.find(id) {
            Some(i) => {
                proof {
                    lemma_balance_at(self.entries(), i as int);
                }
                self.accounts[i].balance
            },
            None => 0,
        }
    }

    /// The recorded total supply.
    pub fn total_supply(&self) -> (r: u128)
        ensures
            r == self.spec_total_supply(),
    {
        self.total_supply
    }

    /// Creates a zero-balance entry for `id`.
    pub fn register(&mut self, id: u64) -> (r: Result<(), Error>)
        requires
            old(self).ids_ok(),
        ensures
            final(self).ids_ok(),
            r == (if old(self).spec_registered(id) {
                Err::<(), Error>(Error::AlreadyRegistered)
            } else {
                Ok::<(), Error>(())
            }),
            r is Err ==> *final(self) == *old(self),
            r is Ok ==> {
                &&& final(self).spec_registered(id)
                &&& final(self).spec_balance(id) == 0
                &&& forall|p: u64|
                    p != id ==> final(self).spec_registered(p) == old(self).spec_registered(p)
                &&& forall|p: u64| p != id ==> final(self).spec_balance(p) == old(self).spec_balance(p)
                &&& final(self).total_supply == old(self).total_supply
                &&& sum_balances(final(self).entries()) == sum_balances(old(self).entries())
                &&& old(self).wf() ==> final(self).wf()
            },
    {
        match self.find(id) {
            Some(_) => Err(Error::AlreadyRegistered),
            None => {
                proof {
                    lemma_push_effects(self.entries(), Account { id, balance: 0 });
                }
                self.accounts.push(Account { id, balance: 0 });
                Ok(())
            },
        }
    }

    /// Decreases the balance of `id` by `amount`. The supply counter is left
    /// alone, so the sum of balances drops below it until a matching credit,
    /// burn adjustment or transfer leg restores the books.
    pub fn debit(&mut self, id: u64, amount: u128) -> (r: Result<(), Error>)
        requires
            old(self).ids_ok(),
        ensures
            final(self).ids_ok(),
            r == (if !old(self).spec_registered(id) {
                Err::<(), Error>(Error::NotRegistered)
            } else if amount > old(self).spec_balance(id) {
                Err::<(), Error>(Error::InsufficientBalance)
            } else {
                Ok::<(), Error>(())
            }),
            r is Err ==> *final(self) == *old(self),
            r is Ok ==> {
                &&& final(self).spec_balance(id) == old(self).spec_balance(id) - amount
                &&& forall|p: u64| final(self).spec_registered(p) == old(self).spec_registered(p)
                &&& forall|p: u64| p != id ==> final(self).spec_balance(p) == old(self).spec_balance(p)
                &&& final(self).total_supply == old(self).total_supply
                &&& sum_balances(final(self).entries()) == sum_balances(old(self).entries()) - amount
            },
    {
        match self.find(id) {
            None => Err(Error::NotRegistered),
            Some(i) => {
                proof {
                    lemma_balance_at(self.entries(), i as int);
                }
                let bal = self.accounts[i].balance;
                if amount > bal {
                    Err(Error::InsufficientBalance)
                } else {
                    proof {
                        lemma_update_effects(self.entries(), i as int, (bal - amount) as u128);
                    }
                    let entry = &mut self.accounts[i];
                    entry.balance = bal - amount;
                    Ok(())
                }
            },
        }
    }

    /// Increases the balance of `id` by `amount`. The supply counter is left
    /// alone, mirroring `debit`.
    pub fn credit(&mut self, id: u64, amount: u128) -> (r: Result<(), Error>)
        requires
            old(self).ids_ok(),
            old(self).spec_balance(id) + amount <= u128::MAX,
        ensures
            final(self).ids_ok(),
            r == (if !old(self).spec_registered(id) {
                Err::<(), Error>(Error::NotRegistered)
            } else {
                Ok::<(), Error>(())
            }),
            r is Err ==> *final(self) == *old(self),
            r is Ok ==> {
                &&& final(self).spec_balance(id) == old(self).spec_balance(id) + amount
                &&& forall|p: u64| final(self).spec_registered(p) == old(self).spec_registered(p)
                &&& forall|p: u64| p != id ==> final(self).spec_balance(p) == old(self).spec_balance(p)
                &&& final(self).total_supply == old(self).total_supply
                &&& sum_balances(final(self).entries()) == sum_balances(old(self).entries()) + amount
            },
    {
        match self.find(id) {
            None => Err(Error::NotRegistered),
            Some(i) => {
                proof {
                    lemma_balance_at(self.entries(), i as int);
                }
                let bal = self.accounts[i].balance;
                proof {
                    lemma_update_effects(self.entries(), i as int, (bal + amount) as u128);
                }
                let entry = &mut self.accounts[i];
                entry.balance = bal + amount;
                Ok(())
            },
        }
    }

    /// Moves `amount` from `from` to `to` atomically. A self-transfer still
    /// demands a sufficient balance but leaves every balance as it was.
    pub fn transfer(&mut self, from: u64, to: u64, amount: u128) -> (r: Result<(), Error>)
        requires
            old(self).wf(),
        ensures
            final(self).wf(),
            r == (if !old(self).spec_registered(from) {
                Err::<(), Error>(Error::NotRegistered)
            } else if amount > old(self).spec_balance(from) {
                Err::<(), Error>(Error::InsufficientBalance)
            } else if !old(self).spec_registered(to) {
                Err::<(), Error>(Error::NotRegistered)
            } else {
                Ok::<(), Error>(())
            }),
            r is Err ==> *final(self) == *old(self),
            r is Ok ==> {
                &&& forall|p: u64|
                    final(self).spec_balance(p) as int == old(self).spec_balance(p) - (if p == from {
                        amount as int
                    } else {
                        0
                    }) + (if p == to {
                        amount as int
                    } else {
                        0
                    })
                &&& forall|p: u64| final(self).spec_registered(p) == old(self).spec_registered(p)
                &&& final(self).total_supply == old(self).total_supply
            },
    {
        let ghost s0 = self.entries();
        match self.find(from) {
            None => Err(Error::NotRegistered),
            Some(i) => {
                proof {
                    lemma_balance_at(self.entries(), i as int);
                }
                let from_bal = self.accounts[i].balance;
                if amount > from_bal {
                    Err(Error::InsufficientBalance)
                } else {
                    match self.find(to) {
                        None => Err(Error::NotRegistered),
                        Some(j) => {
                            proof {
                                lemma_balance_at(self.entries(), j as int);
                            }
                            if i == j {
                                // from == to: the amount is withdrawn and
                                // restored in one step; nothing moves.
                                Ok(())
                            } else {
                                proof {
                                    lemma_update_effects(
                                        self.entries(),
                                        i as int,
                                        (from_bal - amount) as u128,
                                    );
                                }
                                let entry_from = &mut self.accounts[i];
                                entry_from.balance = from_bal - amount;
                                proof {
                                    let s1 = self.entries();
                                    assert(s1[j as int] == s0[j as int]);
                                    lemma_balance_at(s1, j as int);
                                    lemma_balance_le_sum(s1, j as int);
                                    lemma_update_effects(
                                        s1,
                                        j as int,
                                        (s1[j as int].balance + amount) as u128,
                                    );
                                }
                                let to_bal = self.accounts[j].balance;
                                let entry_to = &mut self.accounts[j];
                                entry_to.balance = to_bal + amount;
                                Ok(())
                            }
                        },
                    }
                }
            },
        }
    }

    /// Creates `amount` new units on the balance of `id`, growing the supply
    /// with them. Used at genesis only.
    pub fn mint(&mut self, id: u64, amount: u128) -> (r: Result<(), Error>)
        requires
            old(self).wf(),
            old(self).spec_total_supply() + amount <= u128::MAX,
        ensures
            final(self).wf(),
            r == (if !old(self).spec_registered(id) {
                Err::<(), Error>(Error::NotRegistered)
            } else {
                Ok::<(), Error>(())
            }),
            r is Err ==> *final(self) == *old(self),
            r is Ok ==> {
                &&& final(self).spec_balance(id) == old(self).spec_balance(id) + amount
                &&& forall|p: u64| final(self).spec_registered(p) == old(self).spec_registered(p)
                &&& forall|p: u64| p != id ==> final(self).spec_balance(p) == old(self).spec_balance(p)
                &&& final(self).total_supply == old(self).total_supply + amount
            },
    {
        match self.find(id) {
            None => Err(Error::NotRegistered),
            Some(i) => {
                proof {
                    lemma_balance_at(self.entries(), i as int);
                    lemma_balance_le_sum(self.entries(), i as int);
                }
                let bal = self.accounts[i].balance;
                proof {
                    lemma_update_effects(self.entries(), i as int, (bal + amount) as u128);
                }
                let entry = &mut self.accounts[i];
                entry.balance = bal + amount;
                self.total_supply = self.total_supply + amount;
                Ok(())
            },
        }
    }

    /// Destroys `amount` units held by `id`, shrinking the supply with them.
    /// Used by the resolution step when a refund cannot be delivered.
    pub fn burn(&mut self, id: u64, amount: u128) -> (r: Result<(), Error>)
        requires
            old(self).wf(),
        ensures
            final(self).wf(),
            r == (if !old(self).spec_registered(id) {
                Err::<(), Error>(Error::NotRegistered)
            } else if amount > old(self).spec_balance(id) {
                Err::<(), Error>(Error::InsufficientBalance)
            } else {
                Ok::<(), Error>(())
            }),
            r is Err ==> *final(self) == *old(self),
            r is Ok ==> {
                &&& final(self).spec_balance(id) == old(self).spec_balance(id) - amount
                &&& forall|p: u64| final(self).spec_registered(p) == old(self).spec_registered(p)
                &&& forall|p: u64| p != id ==> final(self).spec_balance(p) == old(self).spec_balance(p)
                &&& final(self).total_supply == old(self).total_supply - amount
            },
    {
        match self.find(id) {
            None => Err(Error::NotRegistered),
            Some(i) => {
                proof {
                    lemma_balance_at(self.entries(), i as int);
                    lemma_balance_le_sum(self.entries(), i as int);
                }
                let bal = self.accounts[i].balance;
                if amount > bal {
                    Err(Error::InsufficientBalance)
                } else {
                    proof {
                        lemma_update_effects(self.entries(), i as int, (bal - amount) as u128);
                    }
                    let entry = &mut self.accounts[i];
                    entry.balance = bal - amount;
                    self.total_supply = self.total_supply - amount;
                    Ok(())
                }
            },
        }
    }

    /// Removes the entry of `id`. A nonzero remaining balance is only removed
    /// under `force`, and is then burned: the supply shrinks with it. Returns
    /// whether an entry was removed.
    pub fn unregister(&mut self, id: u64, force: bool) -> (r: bool)
        requires
            old(self).wf(),
            force || old(self).spec_balance(id) == 0,
        ensures
            final(self).wf(),
            r == old(self).spec_registered(id),
            !r ==> *final(self) == *old(self),
            r ==> {
                &&& !final(self).spec_registered(id)
                &&& final(self).spec_balance(id) == 0
                &&& forall|p: u64|
                    p != id ==> final(self).spec_registered(p) == old(self).spec_registered(p)
                &&& forall|p: u64| p != id ==> final(self).spec_balance(p) == old(self).spec_balance(p)
                &&& final(self).total_supply == old(self).total_supply - old(self).spec_balance(id)
            },
    {
        match self.find(id) {
            None => false,
            Some(i) => {
                proof {
                    lemma_balance_at(self.entries(), i as int);
                    lemma_balance_le_sum(self.entries(), i as int);
                    lemma_swap_remove_effects(self.entries(), i as int);
                }
                let removed = self.accounts.swap_remove(i);
                self.total_supply = self.total_supply - removed.balance;
                true
            },
        }
    }
}

} // verus!
