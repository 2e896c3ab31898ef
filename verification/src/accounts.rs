//! The account ledger: the deposit balance of each user in each token.
//!
//! A balance of zero is no entry: an entry whose balance reaches zero is
//! deleted.
use crate::assoc::{distinct_keys, has_key, index_of, lemma_absent, lemma_empty, lemma_insert};
use crate::assoc::{lemma_lookup, lemma_remove, lemma_update, to_map};
use crate::keys::{key_less, key_lt, lemma_key_lt_irreflexive, lemma_key_lt_total};
use crate::keys::lemma_key_lt_transitive;
use vstd::prelude::*;

verus! {

/// The balances, keyed by user and token identifier.
pub type Balances = Map<(Seq<char>, Seq<char>), u128>;

/// The balance of `user` in `token`: 0 where there is no entry.
pub open spec fn balance_of(balances: Balances, user: Seq<char>, token: Seq<char>) -> u128 {
    if balances.dom().contains((user, token)) {
        balances[(user, token)]
    } else {
        0
    }
}

/// The balances with that of `user` in `token` set to `amount`; a balance of
/// zero leaves no entry.
pub open spec fn with_balance(
    balances: Balances,
    user: Seq<char>,
    token: Seq<char>,
    amount: u128,
) -> Balances {
    if amount == 0 {
        balances.remove((user, token))
    } else {
        balances.insert((user, token), amount)
    }
}

/// No entry holds a balance of zero.
pub open spec fn no_zero_balance(balances: Balances) -> bool {
    forall|key: (Seq<char>, Seq<char>)| #[trigger]
        balances.dom().contains(key) ==> balances[key] > 0
}

/// `list` holds the balances of `user`, each token once, in ascending order
/// of the token identifiers.
pub open spec fn lists_holdings(
    list: Seq<(Seq<char>, u128)>,
    balances: Balances,
    user: Seq<char>,
) -> bool {
    &&& forall|i: int, j: int|
        0 <= i < j < list.len() ==> key_lt((#[trigger] list[i]).0, (#[trigger] list[j]).0)
    &&& forall|i: int|
        0 <= i < list.len() ==> balances.dom().contains((user, (#[trigger] list[i]).0))
            && balances[(user, list[i].0)] == list[i].1
    &&& forall|token: Seq<char>| #[trigger]
        balances.dom().contains((user, token)) ==> exists|i: int|
            0 <= i < list.len() && (#[trigger] list[i]).0 == token
}

/// The views of a list of stored balances, each with its user and token.
pub open spec fn stored_view(list: Seq<(String, String, u128)>) -> Seq<
    ((Seq<char>, Seq<char>), u128),
> {
    list.map_values(|e: (String, String, u128)| ((e.0@, e.1@), e.2))
}

/// The balances after setting those of `list` one after the other.
pub open spec fn set_all(balances: Balances, list: Seq<((Seq<char>, Seq<char>), u128)>) -> Balances
    decreases list.len(),
{
    if list.len() == 0 {
        balances
    } else {
        with_balance(
            set_all(balances, list.drop_last()),
            list.last().0.0,
            list.last().0.1,
            list.last().1,
        )
    }
}

/// Setting the balances of a list in which no key occurs twice and no
/// balance is zero yields the map that the list describes: what
/// [`AccountLedger::entries`] hands out restores the ledger it came from.
pub proof fn lemma_set_all_restores(list: Seq<((Seq<char>, Seq<char>), u128)>)
    requires
        distinct_keys(list),
        forall|i: int| 0 <= i < list.len() ==> (#[trigger] list[i]).1 > 0,
    ensures
        set_all(Map::empty(), list) == to_map(list),
    decreases list.len(),
{
    if list.len() == 0 {
        lemma_empty::<(Seq<char>, Seq<char>), u128>();
        assert(list =~= Seq::empty());
    } else {
        let front = list.drop_last();
        assert forall|i: int, j: int| 0 <= i < j < front.len() implies (#[trigger] front[i]).0 != (
        #[trigger] front[j]).0 by {
            assert(front[i] == list[i]);
            assert(front[j] == list[j]);
        }
        assert forall|i: int| 0 <= i < front.len() implies (#[trigger] front[i]).1 > 0 by {
            assert(front[i] == list[i]);
        }
        lemma_set_all_restores(front);
        assert(!has_key(front, list.last().0)) by {
            assert forall|i: int| 0 <= i < front.len() implies (#[trigger] front[i]).0
                != list.last().0 by {
                assert(front[i] == list[i]);
                assert(list[i].0 != list[list.len() - 1].0);
            }
        }
        lemma_insert(front, front.len() as int, list.last());
        assert(front.insert(front.len() as int, list.last()) =~= list);
    }
}

/// The views of a list of holdings, in order.
pub open spec fn holdings_view(list: Seq<(String, u128)>) -> Seq<(Seq<char>, u128)> {
    list.map_values(|h: (String, u128)| (h.0@, h.1))
}

struct DepositEntry {
    user: String,
    token: String,
    amount: u128,
}

/// The deposit balances of all users.
pub struct AccountLedger {
    entries: Vec<DepositEntry>,
}

impl View for AccountLedger {
    type V = Balances;

    closed spec fn view(&self) -> Balances {
        to_map(self.pairs())
    }
}

impl AccountLedger {
    /// The entries as pairs of key and balance.
    pub closed spec fn pairs(self) -> Seq<((Seq<char>, Seq<char>), u128)> {
        Seq::new(
            self.entries@.len(),
            |i: int|
                ((self.entries@[i].user@, self.entries@[i].token@), self.entries@[i].amount),
        )
    }

    /// The entries of one user are stored in strictly ascending order of
    /// token identifier, and none holds zero.
    pub closed spec fn wf(self) -> bool {
        &&& forall|i: int, j: int|
            0 <= i < j < self.entries@.len() && (#[trigger] self.entries@[i]).user@ == (
            #[trigger] self.entries@[j]).user@ ==> key_lt(
                self.entries@[i].token@,
                self.entries@[j].token@,
            )
        &&& forall|i: int| 0 <= i < self.entries@.len() ==> (#[trigger] self.entries@[i]).amount > 0
    }

    proof fn lemma_distinct(self)
        requires
            self.wf(),
        ensures
            distinct_keys(self.pairs()),
    {
        assert forall|i: int, j: int| 0 <= i < j < self.pairs().len() implies (
        #[trigger] self.pairs()[i]).0 != (#[trigger] self.pairs()[j]).0 by {
            if self.entries@[i].user@ == self.entries@[j].user@ {
                assert(key_lt(self.entries@[i].token@, self.entries@[j].token@));
                lemma_key_lt_irreflexive(self.entries@[i].token@);
            }
        }
    }

    /// A well-formed ledger holds no balance of zero.
    pub proof fn lemma_no_zero_balance(self)
        requires
            self.wf(),
        ensures
            no_zero_balance(self@),
    {
        self.lemma_distinct();
        assert forall|key: (Seq<char>, Seq<char>)| #[trigger]
            self@.dom().contains(key) implies self@[key] > 0 by {
            let i = index_of(self.pairs(), key);
            lemma_lookup(self.pairs(), i);
            assert(self.entries@[i].amount > 0);
        }
    }

    /// A ledger with no balance.
    pub fn new() -> (res: Self)
        ensures
            res.wf(),
            res@ == Map::<(Seq<char>, Seq<char>), u128>::empty(),
    {
        let res = AccountLedger { entries: Vec::new() };
        proof {
            lemma_empty::<(Seq<char>, Seq<char>), u128>();
            assert(res.pairs() =~= Seq::<((Seq<char>, Seq<char>), u128)>::empty());
        }
        res
    }

    /// Where the balance of `user` in `token` is stored.
    fn position(&self, user: &String, token: &String) -> (res: Option<usize>)
        requires
            self.wf(),
        ensures
            match res {
                Some(i) => i < self.entries@.len() && self.entries@[i as int].user@ == user@
                    && self.entries@[i as int].token@ == token@ && self@.dom().contains(
                    (user@, token@),
                ) && self@[(user@, token@)] == self.entries@[i as int].amount,
                None => !self@.dom().contains((user@, token@)) && !has_key(
                    self.pairs(),
                    (user@, token@),
                ),
            },
    {
        let mut i: usize = 0;
        while i < self.entries.len()
            invariant
                i <= self.entries@.len(),
                self.wf(),
                forall|j: int| 0 <= j < i ==> (#[trigger] self.pairs()[j]).0 != (user@, token@),
            decreases self.entries@.len() - i,
        {
            if self.entries[i].user == *user && self.entries[i].token == *token {
                proof {
                    self.lemma_distinct();
                    lemma_lookup(self.pairs(), i as int);
                }
                return Some(i);
            }
            i += 1;
        }
        proof {
            lemma_absent(self.pairs(), (user@, token@));
        }
        None
    }

    /// The balance of `user` in `token`.
    pub fn balance(&self, user: &String, token: &String) -> (res: u128)
        requires
            self.wf(),
        ensures
            res == balance_of(self@, user@, token@),
    {
        match self.position(user, token) {
            Some(i) => self.entries[i].amount,
            None => 0,
        }
    }

    /// Sets the balance of `user` in `token` to `amount`, deleting the entry
    /// where `amount` is zero.
    pub fn set_balance(&mut self, user: &String, token: &String, amount: u128)
        requires
            old(self).wf(),
        ensures
            final(self).wf(),
            final(self)@ == with_balance(old(self)@, user@, token@, amount),
    {
        let ghost key = (user@, token@);
        let ghost before = self.pairs();
        let ghost stored = self.entries@;
        proof {
            self.lemma_distinct();
        }
        match self.position(user, token) {
            Some(i) => {
                if amount == 0 {
                    proof {
                        lemma_remove(before, i as int);
                    }
                    self.entries.remove(i);
                    proof {
                        assert(self.pairs() =~= before.remove(i as int));
                        assert forall|a: int| 0 <= a < self.entries@.len() implies #[trigger]
                            self.entries@[a] == stored[if a < i {
                                a
                            } else {
                                a + 1
                            }] by {}
                    }
                } else {
                    proof {
                        lemma_update(before, i as int, amount);
                    }
                    let entry = DepositEntry { user: user.clone(), token: token.clone(), amount };
                    self.entries.set(i, entry);
                    proof {
                        assert(self.pairs() =~= before.update(i as int, (key, amount)));
                        assert forall|a: int| 0 <= a < self.entries@.len() implies (
                        #[trigger] self.entries@[a]).user@ == stored[a].user@
                            && self.entries@[a].token@ == stored[a].token@ by {}
                    }
                }
            },
            None => {
                if amount != 0 {
                    let mut i: usize = 0;
                    while i < self.entries.len() && !(self.entries[i].user == *user && key_less(
                        token,
                        &self.entries[i].token,
                    ))
                        invariant
                            i <= self.entries@.len(),
                            self.wf(),
                            self.pairs() == before,
                            self.entries@ == stored,
                            key == (user@, token@),
                            !has_key(before, key),
                            forall|j: int|
                                0 <= j < i && (#[trigger] self.entries@[j]).user@ == user@
                                    ==> key_lt(self.entries@[j].token@, token@),
                        decreases self.entries@.len() - i,
                    {
                        proof {
                            let other = self.entries@[i as int];
                            assert(before[i as int].0 == (other.user@, other.token@));
                            lemma_key_lt_total(other.token@, token@);
                        }
                        i += 1;
                    }
                    proof {
                        lemma_insert(before, i as int, (key, amount));
                        assert forall|j: int|
                            i <= j < stored.len() && (#[trigger] stored[j]).user@
                                == user@ implies key_lt(token@, stored[j].token@) by {
                            if j > i {
                                lemma_key_lt_transitive(
                                    token@,
                                    stored[i as int].token@,
                                    stored[j].token@,
                                );
                            }
                        }
                    }
                    let entry = DepositEntry { user: user.clone(), token: token.clone(), amount };
                    self.entries.insert(i, entry);
                    proof {
                        assert(self.pairs() =~= before.insert(i as int, (key, amount)));
                        assert forall|a: int| 0 <= a < self.entries@.len() && a != i implies #[trigger]
                            self.entries@[a] == stored[if a < i {
                                a
                            } else {
                                a - 1
                            }] by {}
                    }
                }
            },
        }
    }

    /// Every balance with its user and token, each key once.
    pub fn entries(&self) -> (res: Vec<(String, String, u128)>)
        requires
            self.wf(),
        ensures
            distinct_keys(stored_view(res@)),
            to_map(stored_view(res@)) == self@,
    {
        let mut res: Vec<(String, String, u128)> = Vec::new();
        let mut i: usize = 0;
        while i < self.entries.len()
            invariant
                i <= self.entries@.len(),
                res@.len() == i,
                forall|j: int|
                    0 <= j < i ==> (#[trigger] res@[j]).0@ == self.entries@[j].user@ && res@[j].1@
                        == self.entries@[j].token@ && res@[j].2 == self.entries@[j].amount,
            decreases self.entries@.len() - i,
        {
            let entry = &self.entries[i];
            res.push((entry.user.clone(), entry.token.clone(), entry.amount));
            i += 1;
        }
        proof {
            self.lemma_distinct();
            assert(stored_view(res@) =~= self.pairs());
        }
        res
    }

    /// The balances of `user`, in ascending order of token identifier.
    pub fn holdings(&self, user: &String) -> (res: Vec<(String, u128)>)
        requires
            self.wf(),
        ensures
            lists_holdings(holdings_view(res@), self@, user@),
    {
        let mut res: Vec<(String, u128)> = Vec::new();
        let ghost mut picked: Seq<int> = Seq::empty();
        let mut i: usize = 0;
        while i < self.entries.len()
            invariant
                i <= self.entries@.len(),
                self.wf(),
                picked.len() == res@.len(),
                forall|a: int|
                    0 <= a < picked.len() ==> 0 <= (#[trigger] picked[a]) < i
                        && self.entries@[picked[a]].user@ == user@ && res@[a].0@
                        == self.entries@[picked[a]].token@ && res@[a].1
                        == self.entries@[picked[a]].amount,
                forall|a: int, b: int|
                    0 <= a < b < picked.len() ==> (#[trigger] picked[a]) < (#[trigger] picked[b]),
                forall|j: int|
                    0 <= j < i && (#[trigger] self.entries@[j]).user@ == user@ ==> exists|a: int|
                        0 <= a < picked.len() && (#[trigger] picked[a]) == j,
            decreases self.entries@.len() - i,
        {
            if self.entries[i].user == *user {
                res.push((self.entries[i].token.clone(), self.entries[i].amount));
                proof {
                    let ghost earlier = picked;
                    picked = picked.push(i as int);
                    assert forall|j: int|
                        0 <= j < i + 1 && (#[trigger] self.entries@[j]).user@
                            == user@ implies exists|a: int|
                        0 <= a < picked.len() && (#[trigger] picked[a]) == j by {
                        if j < i {
                            let a = choose|a: int|
                                0 <= a < earlier.len() && (#[trigger] earlier[a]) == j;
                            assert(picked[a] == j);
                        } else {
                            assert(picked[earlier.len() as int] == j);
                        }
                    }
                }
            }
            i += 1;
        }
        proof {
            self.lemma_distinct();
            let list = holdings_view(res@);
            assert forall|a: int| 0 <= a < list.len() implies self@.dom().contains(
                (user@, (#[trigger] list[a]).0),
            ) && self@[(user@, list[a].0)] == list[a].1 by {
                lemma_lookup(self.pairs(), picked[a]);
            }
            assert forall|a: int, b: int| 0 <= a < b < list.len() implies key_lt(
                (#[trigger] list[a]).0,
                (#[trigger] list[b]).0,
            ) by {
                assert(picked[a] < picked[b]);
                assert(key_lt(
                    self.entries@[picked[a]].token@,
                    self.entries@[picked[b]].token@,
                ));
            }
            assert forall|token: Seq<char>| #[trigger]
                self@.dom().contains((user@, token)) implies exists|a: int|
                0 <= a < list.len() && (#[trigger] list[a]).0 == token by {
                let j = index_of(self.pairs(), (user@, token));
                assert(self.pairs()[j].0 == (user@, token));
                assert(self.entries@[j].user@ == user@);
                let a = choose|a: int| 0 <= a < picked.len() && (#[trigger] picked[a]) == j;
                assert(list[a].0 == token);
            }
        }
        res
    }
}

} // verus!
