//! The ledger: account balances, the vault, and the two record stores.
//!
//! Both game operations run against a [`Ledger`]. It models exactly the
//! resources the protocol touches: one balance per address, the vault's
//! fixed address (which doubles as the settlement authority's identity), the
//! `Game` records keyed by `(player, id)`, and the `GameResult` records
//! keyed by `game_id`. The well-formedness predicate [`Ledger::wf`] carries
//! the system invariants: record keys are unique (the create-or-fail storage
//! guarantee) and the cached `total` equals the sum of all balances, so no
//! transfer can ever overflow a balance.

use vstd::prelude::*;

use crate::error::TxError;
use crate::state::{Game, GameResult, Pubkey};

verus! {

/// One address together with the amount it holds.
#[derive(Clone, Copy, PartialEq, Eq, Structural, Debug)]
pub struct Account {
    pub key: Pubkey,
    pub lamports: u64,
}

/// The balance of `k` in `s`: the holdings of the first entry keyed by `k`,
/// or zero when no entry carries that key.
pub open spec fn bal_of(s: Seq<Account>, k: Pubkey) -> int
    decreases s.len(),
{
    if s.len() == 0 {
        0
    } else if s[0].key == k {
        s[0].lamports as int
    } else {
        bal_of(s.drop_first(), k)
    }
}

/// The sum of all holdings in `s`.
pub open spec fn sum_of(s: Seq<Account>) -> int
    decreases s.len(),
{
    if s.len() == 0 {
        0
    } else {
        s[0].lamports + sum_of(s.drop_first())
    }
}

/// No two entries of `s` carry the same key.
pub open spec fn keys_unique(s: Seq<Account>) -> bool {
    forall|i: int, j: int|
        0 <= i < j < s.len() ==> #[trigger] s[i].key != #[trigger] s[j].key
}

/// The full ledger state the two operations run against.
pub struct Ledger {
    /// The vault's fixed address; also the settlement authority's identity.
    /// Set when the ledger is built, never changed by an operation.
    pub vault: Pubkey,
    /// One entry per funded address.
    pub accounts: Vec<Account>,
    /// Every `Game` record ever created, keyed by `(player, id)`.
    pub games: Vec<Game>,
    /// Every `GameResult` record ever created, keyed by `game_id`.
    pub results: Vec<GameResult>,
    /// The pooled supply: always the sum of all balances, so a credit can
    /// never push a balance past what a `u64` holds.
    pub total: u64,
}

/// `post` is `pre` with nothing changed at all.
pub open spec fn unchanged(pre: Ledger, post: Ledger) -> bool {
    &&& post.vault == pre.vault
    &&& post.accounts@ == pre.accounts@
    &&& post.games@ == pre.games@
    &&& post.results@ == pre.results@
    &&& post.total == pre.total
}

/// The balances of `post` are those of `pre` after `amount` units moved from
/// `from` to `to` (a move onto oneself changes nothing).
pub open spec fn moved(pre: Ledger, post: Ledger, from: Pubkey, to: Pubkey, amount: u64) -> bool {
    forall|k: Pubkey|
        #[trigger] post.balance(k) == if from == to {
            pre.balance(k)
        } else if k == from {
            pre.balance(k) - amount
        } else if k == to {
            pre.balance(k) + amount
        } else {
            pre.balance(k)
        }
}

impl Ledger {
    /// The balance held by address `k` (zero when unfunded).
    pub open spec fn balance(self, k: Pubkey) -> int {
        bal_of(self.accounts@, k)
    }

    /// No two `Game` records share the same `(player, id)` pair.
    pub open spec fn games_unique(self) -> bool {
        forall|i: int, j: int|
            0 <= i < j < self.games@.len() ==> !(#[trigger] self.games@[i].player
                == #[trigger] self.games@[j].player && self.games@[i].id == self.games@[j].id)
    }

    /// No two `GameResult` records share the same `game_id`.
    pub open spec fn results_unique(self) -> bool {
        forall|i: int, j: int|
            0 <= i < j < self.results@.len() ==> #[trigger] self.results@[i].game_id
                != #[trigger] self.results@[j].game_id
    }

    /// The system invariants: unique account keys, unique record keys, and a
    /// pooled supply equal to the sum of all balances.
    pub open spec fn wf(self) -> bool {
        &&& keys_unique(self.accounts@)
        &&& sum_of(self.accounts@) == self.total as int
        &&& self.games_unique()
        &&& self.results_unique()
    }

    /// A `Game` record keyed by `(player, id)` exists.
    pub open spec fn has_game(self, player: Pubkey, id: u64) -> bool {
        exists|i: int|
            0 <= i < self.games@.len() && (#[trigger] self.games@[i]).player == player
                && self.games@[i].id == id
    }

    /// A `GameResult` record keyed by `id` exists.
    pub open spec fn has_result(self, id: u64) -> bool {
        exists|i: int| 0 <= i < self.results@.len() && (#[trigger] self.results@[i]).game_id == id
    }

    /// An empty ledger whose vault (and settlement authority) is `vault`.
    pub fn new(vault: Pubkey) -> (r: Ledger)
        ensures
            r.wf(),
            r.vault == vault,
            r.total == 0,
            r.games@ == Seq::<Game>::empty(),
            r.results@ == Seq::<GameResult>::empty(),
            forall|k: Pubkey| r.balance(k) == 0,
    {
        Ledger {
            vault,
            accounts: Vec::new(),
            games: Vec::new(),
            results: Vec::new(),
            total: 0,
        }
    }

    /// Index of the entry holding `key`, if any.
    pub(crate) fn find_account(&self, key: Pubkey) -> (r: Option<usize>)
        ensures
            match r {
                Some(i) => i < self.accounts@.len() && self.accounts@[i as int].key == key,
                None => forall|j: int|
                    0 <= j < self.accounts@.len() ==> #[trigger] self.accounts@[j].key != key,
            },
    {
        let mut i: usize = 0;
        while i < self.accounts.len()
            invariant
                i <= self.accounts@.len(),
                forall|j: int| 0 <= j < i ==> #[trigger] self.accounts@[j].key != key,
            decreases self.accounts@.len() - i,
        {
            if self.accounts[i].key == key {
                return Some(i);
            }
            i = i + 1;
        }
        None
    }

    /// The balance held by `key`.
    pub fn balance_of(&self, key: Pubkey) -> (r: u64)
        requires
            self.wf(),
        ensures
            r as int == self.balance(key),
    {
        match self.find_account(key) {
            Some(i) => {
                proof {
                    lemma_bal_at(self.accounts@, i as int);
                }
                self.accounts[i].lamports
            },
            None => {
                proof {
                    lemma_bal_absent(self.accounts@, key);
                }
                0
            },
        }
    }

    /// Funds `key` with `amount` fresh units, growing the pooled supply.
    /// This models funding from outside the protocol; it fails only when the
    /// pool would no longer fit in a balance.
    pub fn deposit(&mut self, key: Pubkey, amount: u64) -> (r: Result<(), TxError>)
        requires
            old(self).wf(),
        ensures
            final(self).wf(),
            final(self).vault == old(self).vault,
            final(self).games@ == old(self).games@,
            final(self).results@ == old(self).results@,
            r is Ok <==> old(self).total + amount <= u64::MAX,
            r is Err ==> unchanged(*old(self), *final(self)) && r == Err::<(), TxError>(
                TxError::SupplyOverflow,
            ),
            r is Ok ==> final(self).total == old(self).total + amount && forall|k: Pubkey|
                #[trigger] final(self).balance(k) == old(self).balance(k) + if k == key {
                    amount as int
                } else {
                    0
                },
    {
        if amount > u64::MAX - self.total {
            return Err(TxError::SupplyOverflow);
        }
        let ghost s0 = self.accounts@;
        match self.find_account(key) {
            Some(i) => {
                proof {
                    lemma_bal_at(s0, i as int);
                    lemma_bal_le_sum(s0, key);
                }
                let held = self.accounts[i].lamports;
                self.accounts[i].lamports = held + amount;
                proof {
                    lemma_bal_update_all(s0, i as int, (held + amount) as u64);
                }
            },
            None => {
                proof {
                    lemma_bal_absent(s0, key);
                }
                self.accounts.push(Account { key, lamports: amount });
                proof {
                    lemma_bal_push_all(s0, Account { key, lamports: amount });
                }
            },
        }
        self.total = self.total + amount;
        Ok(())
    }

    /// Moves `amount` units from `from` to `to`: the token-transfer
    /// primitive. Fails exactly when `from` holds less than `amount`, and
    /// then changes nothing. The pooled supply is conserved.
    pub(crate) fn transfer(&mut self, from: Pubkey, to: Pubkey, amount: u64) -> (r: Result<
        (),
        TxError,
    >)
        requires
            old(self).wf(),
        ensures
            final(self).wf(),
            final(self).vault == old(self).vault,
            final(self).games@ == old(self).games@,
            final(self).results@ == old(self).results@,
            final(self).total == old(self).total,
            r is Ok <==> old(self).balance(from) >= amount,
            r is Err ==> unchanged(*old(self), *final(self)) && r == Err::<(), TxError>(
                TxError::InsufficientFunds,
            ),
            r is Ok ==> moved(*old(self), *final(self), from, to, amount),
    {
        let ghost s0 = self.accounts@;
        if amount == 0 {
            proof {
                lemma_bal_nonneg(s0, from);
            }
            return Ok(());
        }
        if from == to {
            if self.balance_of(from) >= amount {
                return Ok(());
            }
            return Err(TxError::InsufficientFunds);
        }
        let fi = match self.find_account(from) {
            Some(i) => i,
            None => {
                proof {
                    lemma_bal_absent(s0, from);
                }
                return Err(TxError::InsufficientFunds);
            },
        };
        proof {
            lemma_bal_at(s0, fi as int);
        }
        let from_held = self.accounts[fi].lamports;
        if from_held < amount {
            return Err(TxError::InsufficientFunds);
        }
        let to_index = self.find_account(to);
        self.accounts[fi].lamports = from_held - amount;
        proof {
            lemma_bal_update_all(s0, fi as int, (from_held - amount) as u64);
        }
        let ghost s1 = self.accounts@;
        match to_index {
            Some(ti) => {
                proof {
                    lemma_bal_at(s0, ti as int);
                    lemma_two_bals_le_sum(s0, from, to);
                    assert(s1[ti as int] == s0[ti as int]);
                }
                let to_held = self.accounts[ti].lamports;
                self.accounts[ti].lamports = to_held + amount;
                proof {
                    lemma_bal_update_all(s1, ti as int, (to_held + amount) as u64);
                }
            },
            None => {
                proof {
                    lemma_bal_absent(s0, to);
                    assert(forall|j: int|
                        0 <= j < s1.len() ==> #[trigger] s1[j].key == s0[j].key);
                }
                self.accounts.push(Account { key: to, lamports: amount });
                proof {
                    lemma_bal_push_all(s1, Account { key: to, lamports: amount });
                }
            },
        }
        Ok(())
    }
}

/// Every balance is nonnegative.
pub proof fn lemma_bal_nonneg(s: Seq<Account>, k: Pubkey)
    ensures
        bal_of(s, k) >= 0,
    decreases s.len(),
{
    if s.len() > 0 && s[0].key != k {
        lemma_bal_nonneg(s.drop_first(), k);
    }
}

/// The pooled sum is nonnegative.
pub proof fn lemma_sum_nonneg(s: Seq<Account>)
    ensures
        sum_of(s) >= 0,
    decreases s.len(),
{
    if s.len() > 0 {
        lemma_sum_nonneg(s.drop_first());
    }
}

/// No single balance exceeds the pooled sum.
pub proof fn lemma_bal_le_sum(s: Seq<Account>, k: Pubkey)
    ensures
        bal_of(s, k) <= sum_of(s),
    decreases s.len(),
{
    if s.len() > 0 {
        if s[0].key == k {
            lemma_sum_nonneg(s.drop_first());
        } else {
            lemma_bal_le_sum(s.drop_first(), k);
        }
    }
}

/// Two distinct addresses together never hold more than the pooled sum.
pub proof fn lemma_two_bals_le_sum(s: Seq<Account>, k1: Pubkey, k2: Pubkey)
    requires
        k1 != k2,
    ensures
        bal_of(s, k1) + bal_of(s, k2) <= sum_of(s),
    decreases s.len(),
{
    if s.len() > 0 {
        if s[0].key == k1 {
            lemma_bal_le_sum(s.drop_first(), k2);
        } else if s[0].key == k2 {
            lemma_bal_le_sum(s.drop_first(), k1);
        } else {
            lemma_two_bals_le_sum(s.drop_first(), k1, k2);
        }
    }
}

/// An address with no entry holds nothing.
pub proof fn lemma_bal_absent(s: Seq<Account>, k: Pubkey)
    requires
        forall|j: int| 0 <= j < s.len() ==> #[trigger] s[j].key != k,
    ensures
        bal_of(s, k) == 0,
    decreases s.len(),
{
    if s.len() > 0 {
        assert(forall|j: int|
            0 <= j < s.drop_first().len() ==> #[trigger] s.drop_first()[j].key != k);
        lemma_bal_absent(s.drop_first(), k);
    }
}

/// With unique keys, the balance of an entry's key is that entry's holdings.
pub proof fn lemma_bal_at(s: Seq<Account>, i: int)
    requires
        keys_unique(s),
        0 <= i < s.len(),
    ensures
        bal_of(s, s[i].key) == s[i].lamports as int,
    decreases s.len(),
{
    if i > 0 {
        lemma_unique_drop(s);
        assert(s.drop_first()[i - 1] == s[i]);
        lemma_bal_at(s.drop_first(), i - 1);
    }
}

/// Dropping the first entry keeps the keys unique.
pub proof fn lemma_unique_drop(s: Seq<Account>)
    requires
        keys_unique(s),
        s.len() > 0,
    ensures
        keys_unique(s.drop_first()),
{
    assert forall|i: int, j: int|
        0 <= i < j < s.drop_first().len() implies #[trigger] s.drop_first()[i].key
        != #[trigger] s.drop_first()[j].key by {
        assert(s.drop_first()[i] == s[i + 1]);
        assert(s.drop_first()[j] == s[j + 1]);
    }
}

/// Overwriting one entry's holdings changes that key's balance alone, moves
/// the pooled sum by the difference, and keeps the keys unique.
pub proof fn lemma_bal_update(s: Seq<Account>, i: int, v: u64, k: Pubkey)
    requires
        keys_unique(s),
        0 <= i < s.len(),
    ensures
        bal_of(s.update(i, Account { key: s[i].key, lamports: v }), k) == if k == s[i].key {
            v as int
        } else {
            bal_of(s, k)
        },
    decreases s.len(),
{
    let a = Account { key: s[i].key, lamports: v };
    let s2 = s.update(i, a);
    if i == 0 {
        assert(s2.drop_first() =~= s.drop_first());
    } else {
        assert(s2[0] == s[0]);
        assert(s2.drop_first() =~= s.drop_first().update(i - 1, a));
        lemma_unique_drop(s);
        assert(s.drop_first()[i - 1] == s[i]);
        lemma_bal_update(s.drop_first(), i - 1, v, k);
    }
}

/// The pooled-sum half of [`lemma_bal_update`].
pub proof fn lemma_sum_update(s: Seq<Account>, i: int, v: u64)
    requires
        0 <= i < s.len(),
    ensures
        sum_of(s.update(i, Account { key: s[i].key, lamports: v })) == sum_of(s) - s[i].lamports
            + v,
    decreases s.len(),
{
    let a = Account { key: s[i].key, lamports: v };
    let s2 = s.update(i, a);
    if i == 0 {
        assert(s2.drop_first() =~= s.drop_first());
    } else {
        assert(s2[0] == s[0]);
        assert(s2.drop_first() =~= s.drop_first().update(i - 1, a));
        assert(s.drop_first()[i - 1] == s[i]);
        lemma_sum_update(s.drop_first(), i - 1, v);
    }
}

/// [`lemma_bal_update`] and [`lemma_sum_update`], stated over every key.
pub proof fn lemma_bal_update_all(s: Seq<Account>, i: int, v: u64)
    requires
        keys_unique(s),
        0 <= i < s.len(),
    ensures
        keys_unique(s.update(i, Account { key: s[i].key, lamports: v })),
        sum_of(s.update(i, Account { key: s[i].key, lamports: v })) == sum_of(s) - s[i].lamports
            + v,
        forall|k: Pubkey|
            #[trigger] bal_of(s.update(i, Account { key: s[i].key, lamports: v }), k) == if k
                == s[i].key {
                v as int
            } else {
                bal_of(s, k)
            },
{
    let a = Account { key: s[i].key, lamports: v };
    let s2 = s.update(i, a);
    assert forall|x: int, y: int| 0 <= x < y < s2.len() implies #[trigger] s2[x].key
        != #[trigger] s2[y].key by {
        assert(s2[x].key == s[x].key);
        assert(s2[y].key == s[y].key);
    }
    lemma_sum_update(s, i, v);
    assert forall|k: Pubkey|
        #[trigger] bal_of(s2, k) == if k == s[i].key {
            v as int
        } else {
            bal_of(s, k)
        } by {
        lemma_bal_update(s, i, v, k);
    }
}

/// Appending an entry with a fresh key funds that key alone, grows the
/// pooled sum by its holdings, and keeps the keys unique.
pub proof fn lemma_bal_push(s: Seq<Account>, a: Account, k: Pubkey)
    requires
        forall|j: int| 0 <= j < s.len() ==> #[trigger] s[j].key != a.key,
    ensures
        bal_of(s.push(a), k) == if k == a.key {
            a.lamports as int
        } else {
            bal_of(s, k)
        },
        sum_of(s.push(a)) == sum_of(s) + a.lamports,
    decreases s.len(),
{
    let s2 = s.push(a);
    if s.len() == 0 {
        assert(s2[0] == a);
        assert(s2.drop_first() =~= Seq::<Account>::empty());
        assert(bal_of(Seq::<Account>::empty(), k) == 0);
        assert(sum_of(Seq::<Account>::empty()) == 0);
        assert(bal_of(s, k) == 0);
        assert(sum_of(s) == 0);
    } else {
        assert(s2[0] == s[0]);
        assert(s2.drop_first() =~= s.drop_first().push(a));
        assert(forall|j: int|
            0 <= j < s.drop_first().len() ==> #[trigger] s.drop_first()[j].key != a.key);
        lemma_bal_push(s.drop_first(), a, k);
        assert(s[0].key != a.key);
        assert(sum_of(s2) == s2[0].lamports + sum_of(s2.drop_first()));
        assert(sum_of(s) == s[0].lamports + sum_of(s.drop_first()));
        assert(bal_of(s2, k) == if s2[0].key == k {
            s2[0].lamports as int
        } else {
            bal_of(s2.drop_first(), k)
        });
    }
}

/// [`lemma_bal_push`], stated over every key.
pub proof fn lemma_bal_push_all(s: Seq<Account>, a: Account)
    requires
        forall|j: int| 0 <= j < s.len() ==> #[trigger] s[j].key != a.key,
    ensures
        keys_unique(s) ==> keys_unique(s.push(a)),
        sum_of(s.push(a)) == sum_of(s) + a.lamports,
        forall|k: Pubkey|
            #[trigger] bal_of(s.push(a), k) == if k == a.key {
                a.lamports as int
            } else {
                bal_of(s, k)
            },
{
    let s2 = s.push(a);
    if keys_unique(s) {
        assert forall|x: int, y: int| 0 <= x < y < s2.len() implies #[trigger] s2[x].key
            != #[trigger] s2[y].key by {
            if y < s.len() {
                assert(s2[x] == s[x]);
                assert(s2[y] == s[y]);
            } else {
                assert(s2[y] == a);
                assert(s2[x] == s[x]);
            }
        }
    }
    lemma_bal_push(s, a, a.key);
    assert forall|k: Pubkey|
        #[trigger] bal_of(s2, k) == if k == a.key {
            a.lamports as int
        } else {
            bal_of(s, k)
        } by {
        lemma_bal_push(s, a, k);
    }
}

} // verus!
