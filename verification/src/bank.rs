//! The token store: account balances, total issuance, and the two capability
//! operations the reward core needs — minting new tokens to an account and
//! moving tokens between accounts.

use crate::account::Identity;
use vstd::pervasive::VecAdditionalExecFns;
use vstd::prelude::*;

verus! {

/// Whether some account entry carries the identity `q`.
pub open spec fn acct_contains(accts: Seq<(Seq<u8>, u128)>, q: Seq<u8>) -> bool {
    exists|i: int| 0 <= i < accts.len() && accts[i].0 == q
}

/// The free balance of identity `q`: the first matching entry's balance, or
/// zero for an account without an entry.
pub open spec fn bal_of(accts: Seq<(Seq<u8>, u128)>, q: Seq<u8>) -> u128
    decreases accts.len(),
{
    if accts.len() == 0 {
        0
    } else if accts[0].0 == q {
        accts[0].1
    } else {
        bal_of(accts.drop_first(), q)
    }
}

/// A balance increased by an amount, saturating at the largest balance.
pub open spec fn sat_add(a: u128, b: u128) -> u128 {
    if a + b > u128::MAX {
        u128::MAX
    } else {
        (a + b) as u128
    }
}

pub proof fn lemma_contains_shift(accts: Seq<(Seq<u8>, u128)>, q: Seq<u8>)
    requires
        accts.len() > 0,
    ensures
        acct_contains(accts, q) == (accts[0].0 == q || acct_contains(accts.drop_first(), q)),
{
    if acct_contains(accts, q) {
        let i = choose|i: int| 0 <= i < accts.len() && accts[i].0 == q;
        if i > 0 {
            assert(accts.drop_first()[i - 1].0 == q);
        }
    }
    if acct_contains(accts.drop_first(), q) {
        let i = choose|i: int| 0 <= i < accts.drop_first().len() && accts.drop_first()[i].0 == q;
        assert(accts[i + 1].0 == q);
    }
}

/// If entry `i` is the first carrying identity `q`, the balance of `q` is
/// that entry's balance.
pub proof fn lemma_bal_of_first_match(accts: Seq<(Seq<u8>, u128)>, q: Seq<u8>, i: int)
    requires
        0 <= i < accts.len(),
        accts[i].0 == q,
        forall|j: int| 0 <= j < i ==> accts[j].0 != q,
    ensures
        bal_of(accts, q) == accts[i].1,
    decreases accts.len(),
{
    if i > 0 {
        lemma_bal_of_first_match(accts.drop_first(), q, i - 1);
    }
}

/// An identity without an entry has balance zero.
pub proof fn lemma_bal_of_no_match(accts: Seq<(Seq<u8>, u128)>, q: Seq<u8>)
    requires
        forall|j: int| 0 <= j < accts.len() ==> accts[j].0 != q,
    ensures
        bal_of(accts, q) == 0,
    decreases accts.len(),
{
    if accts.len() > 0 {
        lemma_bal_of_no_match(accts.drop_first(), q);
    }
}

/// Replacing the balance in the first entry of `q` gives `q` that balance.
pub proof fn lemma_bal_of_update_match(accts: Seq<(Seq<u8>, u128)>, i: int, v: u128)
    requires
        0 <= i < accts.len(),
        forall|j: int| 0 <= j < i ==> accts[j].0 != accts[i].0,
    ensures
        bal_of(accts.update(i, (accts[i].0, v)), accts[i].0) == v,
    decreases accts.len(),
{
    let q = accts[i].0;
    if i == 0 {
        assert(accts.update(0, (q, v))[0] == (q, v));
    } else {
        assert(accts.update(i, (q, v)).drop_first() =~= accts.drop_first().update(i - 1, (q, v)));
        lemma_bal_of_update_match(accts.drop_first(), i - 1, v);
    }
}

/// Replacing the balance in an entry of a different identity leaves the
/// balance of `q` unchanged.
pub proof fn lemma_bal_of_update_other(accts: Seq<(Seq<u8>, u128)>, i: int, v: u128, q: Seq<u8>)
    requires
        0 <= i < accts.len(),
        accts[i].0 != q,
    ensures
        bal_of(accts.update(i, (accts[i].0, v)), q) == bal_of(accts, q),
    decreases accts.len(),
{
    if i == 0 {
        assert(accts.update(0, (accts[0].0, v)).drop_first() =~= accts.drop_first());
    } else {
        assert(accts.update(i, (accts[i].0, v)).drop_first() =~= accts.drop_first().update(
            i - 1,
            (accts[i].0, v),
        ));
        lemma_bal_of_update_other(accts.drop_first(), i - 1, v, q);
    }
}

/// Appending a fresh entry changes only the balance of identities that had
/// no entry before.
pub proof fn lemma_bal_of_push(accts: Seq<(Seq<u8>, u128)>, e: (Seq<u8>, u128), q: Seq<u8>)
    ensures
        bal_of(accts.push(e), q) == if acct_contains(accts, q) {
            bal_of(accts, q)
        } else if e.0 == q {
            e.1
        } else {
            0u128
        },
    decreases accts.len(),
{
    lemma_contains_shift(accts.push(e), q);
    if accts.len() == 0 {
        assert(accts.push(e)[0] == e);
        assert(accts.push(e).drop_first() =~= Seq::<(Seq<u8>, u128)>::empty());
        assert(!acct_contains(accts, q));
        assert(bal_of(Seq::<(Seq<u8>, u128)>::empty(), q) == 0);
        assert(bal_of(accts.push(e), q) == if e.0 == q {
            e.1
        } else {
            0u128
        });
    } else {
        assert(accts.push(e)[0] == accts[0]);
        assert(accts.push(e).drop_first() =~= accts.drop_first().push(e));
        lemma_bal_of_push(accts.drop_first(), e, q);
        lemma_contains_shift(accts, q);
        if accts[0].0 == q {
            assert(acct_contains(accts, q));
            assert(bal_of(accts, q) == accts[0].1);
            assert(bal_of(accts.push(e), q) == accts[0].1);
        } else {
            assert(bal_of(accts.push(e), q) == bal_of(accts.drop_first().push(e), q));
            assert(bal_of(accts, q) == bal_of(accts.drop_first(), q));
            assert(acct_contains(accts, q) == acct_contains(accts.drop_first(), q));
        }
    }
}

/// Account balances and total issuance. Minting credits an account and
/// enlarges the total issuance, transferring moves balance between two
/// accounts; both saturate at the largest representable balance rather
/// than wrap.
pub struct TokenStore {
    /// The accounts with an entry; any other identity has balance zero.
    pub accounts: Vec<(Identity, u128)>,
    /// Sum of all tokens ever issued, saturating.
    pub total_issuance: u128,
    /// The minimum balance an account must keep to stay alive.
    pub existential_deposit: u128,
}

impl View for TokenStore {
    type V = Seq<(Seq<u8>, u128)>;

    /// The accounts as a sequence of (identity bytes, balance) pairs.
    open spec fn view(&self) -> Seq<(Seq<u8>, u128)> {
        self.accounts@.map_values(|a: (Identity, u128)| (a.0@, a.1))
    }
}

impl TokenStore {
    /// An empty store: no accounts, nothing issued.
    pub fn new(existential_deposit: u128) -> (t: TokenStore)
        ensures
            t@ == Seq::<(Seq<u8>, u128)>::empty(),
            t.total_issuance == 0,
            t.existential_deposit == existential_deposit,
    {
        let t = TokenStore { accounts: Vec::new(), total_issuance: 0, existential_deposit };
        proof {
            assert(t@ =~= Seq::<(Seq<u8>, u128)>::empty());
        }
        t
    }

    /// Index of the first entry of `who`, if there is one.
    fn find_index(&self, who: &Identity) -> (r: Option<usize>)
        ensures
            match r {
                Some(i) => 0 <= i < self@.len() && self@[i as int].0 == who@ && forall|j: int|
                    0 <= j < i ==> self@[j].0 != who@,
                None => forall|j: int| 0 <= j < self@.len() ==> self@[j].0 != who@,
            },
    {
        let n = self.accounts.len();
        let mut i: usize = 0;
        while i < n
            invariant
                i <= n,
                n == self@.len(),
                self@.len() == self.accounts@.len(),
                forall|j: int| 0 <= j < i ==> self@[j].0 != who@,
                forall|j: int| 0 <= j < n ==> self@[j].0 == self.accounts@[j].0@,
            decreases n - i,
        {
            if self.accounts[i].0.equals(who) {
                proof {
                    assert(self@[i as int].0 == who@);
                }
                return Some(i);
            }
            i += 1;
        }
        None
    }

    /// The free balance of an account.
    pub fn free_balance(&self, who: &Identity) -> (b: u128)
        ensures
            b == bal_of(self@, who@),
    {
        match self.find_index(who) {
            Some(i) => {
                proof {
                    lemma_bal_of_first_match(self@, who@, i as int);
                }
                self.accounts[i].1
            },
            None => {
                proof {
                    lemma_bal_of_no_match(self@, who@);
                }
                0
            },
        }
    }

    /// Adds to an account's balance, saturating. Only the balance of `who`
    /// changes; total issuance is not touched.
    fn credit(&mut self, who: &Identity, amount: u128)
        ensures
            bal_of(final(self)@, who@) == sat_add(bal_of(old(self)@, who@), amount),
            forall|q: Seq<u8>| q != who@ ==> bal_of(final(self)@, q) == bal_of(old(self)@, q),
            final(self).total_issuance == old(self).total_issuance,
            final(self).existential_deposit == old(self).existential_deposit,
    {
        match self.find_index(who) {
            Some(i) => {
                proof {
                    lemma_bal_of_first_match(self@, who@, i as int);
                }
                let key = self.accounts[i].0;
                let cur = self.accounts[i].1;
                let newv = if amount > u128::MAX - cur {
                    u128::MAX
                } else {
                    cur + amount
                };
                self.accounts.set(i, (key, newv));
                proof {
                    assert(final(self)@ =~= old(self)@.update(i as int, (who@, newv)));
                    assert(old(self)@[i as int] == (who@, cur));
                    lemma_bal_of_update_match(old(self)@, i as int, newv);
                    assert forall|q: Seq<u8>| q != who@ implies bal_of(final(self)@, q) == bal_of(
                        old(self)@,
                        q,
                    ) by {
                        lemma_bal_of_update_other(old(self)@, i as int, newv, q);
                    };
                }
            },
            None => {
                proof {
                    lemma_bal_of_no_match(self@, who@);
                }
                self.accounts.push((*who, amount));
                proof {
                    assert(final(self)@ =~= old(self)@.push((who@, amount)));
                    lemma_bal_of_push(old(self)@, (who@, amount), who@);
                    assert(!acct_contains(old(self)@, who@));
                    assert forall|q: Seq<u8>| q != who@ implies bal_of(final(self)@, q) == bal_of(
                        old(self)@,
                        q,
                    ) by {
                        lemma_bal_of_push(old(self)@, (who@, amount), q);
                        if !acct_contains(old(self)@, q) {
                            lemma_bal_of_no_match(old(self)@, q);
                        }
                    };
                }
            },
        }
    }

    /// Takes from an account's balance, which must cover the amount.
    fn debit(&mut self, who: &Identity, amount: u128)
        requires
            bal_of(old(self)@, who@) >= amount,
        ensures
            bal_of(final(self)@, who@) == bal_of(old(self)@, who@) - amount,
            forall|q: Seq<u8>| q != who@ ==> bal_of(final(self)@, q) == bal_of(old(self)@, q),
            final(self).total_issuance == old(self).total_issuance,
            final(self).existential_deposit == old(self).existential_deposit,
    {
        match self.find_index(who) {
            Some(i) => {
                proof {
                    lemma_bal_of_first_match(self@, who@, i as int);
                }
                let key = self.accounts[i].0;
                let cur = self.accounts[i].1;
                let newv = cur - amount;
                self.accounts.set(i, (key, newv));
                proof {
                    assert(final(self)@ =~= old(self)@.update(i as int, (who@, newv)));
                    lemma_bal_of_update_match(old(self)@, i as int, newv);
                    assert forall|q: Seq<u8>| q != who@ implies bal_of(final(self)@, q) == bal_of(
                        old(self)@,
                        q,
                    ) by {
                        lemma_bal_of_update_other(old(self)@, i as int, newv, q);
                    };
                }
            },
            None => {
                proof {
                    lemma_bal_of_no_match(self@, who@);
                }
            },
        }
    }

    /// Issues new tokens and credits them to an account. The amount actually
    /// issued is clipped so that total issuance does not overflow; the
    /// credited balance saturates. Returns the amount actually issued.
    pub fn mint(&mut self, who: &Identity, amount: u128) -> (actual: u128)
        ensures
            actual == if amount > u128::MAX - old(self).total_issuance {
                (u128::MAX - old(self).total_issuance) as u128
            } else {
                amount
            },
            final(self).total_issuance == old(self).total_issuance + actual,
            bal_of(final(self)@, who@) == sat_add(bal_of(old(self)@, who@), actual),
            forall|q: Seq<u8>| q != who@ ==> bal_of(final(self)@, q) == bal_of(old(self)@, q),
            final(self).existential_deposit == old(self).existential_deposit,
    {
        let actual = if amount > u128::MAX - self.total_issuance {
            u128::MAX - self.total_issuance
        } else {
            amount
        };
        self.total_issuance = self.total_issuance + actual;
        self.credit(who, actual);
        actual
    }

    /// Moves an amount from one account to another. The source must cover
    /// the amount; the destination's balance saturates. Total issuance is
    /// unchanged, and so is every other account.
    pub fn transfer(&mut self, from: &Identity, to: &Identity, amount: u128)
        requires
            bal_of(old(self)@, from@) >= amount,
        ensures
            from@ != to@ ==> bal_of(final(self)@, from@) == bal_of(old(self)@, from@) - amount,
            from@ != to@ ==> bal_of(final(self)@, to@) == sat_add(
                bal_of(old(self)@, to@),
                amount,
            ),
            from@ == to@ ==> bal_of(final(self)@, to@) == bal_of(old(self)@, to@),
            forall|q: Seq<u8>|
                q != from@ && q != to@ ==> bal_of(final(self)@, q) == bal_of(old(self)@, q),
            final(self).total_issuance == old(self).total_issuance,
            final(self).existential_deposit == old(self).existential_deposit,
    {
        self.debit(from, amount);
        self.credit(to, amount);
    }
}

} // verus!
