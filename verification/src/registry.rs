//! The token registry: which identifiers the ledger accepts, and the token
//! each of them resolves to.
use crate::assoc::{distinct_keys, has_key, lemma_absent, lemma_empty, lemma_insert, lemma_lookup};
use crate::assoc::{lemma_update, to_map};
use crate::keys::{key_less, key_lt, lemma_key_lt_irreflexive, lemma_key_lt_total};
use crate::keys::lemma_key_lt_transitive;
use crate::state::{Token, TokenView};
use vstd::prelude::*;

verus! {

/// A registered token and whether the ledger accepts it.
#[derive(Debug, PartialEq, Eq)]
pub struct TokenConfig {
    pub token: Token,
    pub is_supported: bool,
}

/// The view of a [`TokenConfig`].
pub struct TokenConfigView {
    pub token: TokenView,
    pub is_supported: bool,
}

impl View for TokenConfig {
    type V = TokenConfigView;

    open spec fn view(&self) -> TokenConfigView {
        TokenConfigView { token: self.token@, is_supported: self.is_supported }
    }
}

impl Clone for TokenConfig {
    fn clone(&self) -> (res: Self)
        ensures
            res == *self,
    {
        TokenConfig { token: self.token.clone(), is_supported: self.is_supported }
    }
}

/// The views of a list of token configurations, in order.
pub open spec fn configs_view(configs: Seq<TokenConfig>) -> Seq<TokenConfigView> {
    configs.map_values(|c: TokenConfig| c@)
}

/// The registry after storing `configs` one after the other, each under the
/// identifier of its token.
pub open spec fn store_all(
    registry: Map<Seq<char>, TokenConfigView>,
    configs: Seq<TokenConfigView>,
) -> Map<Seq<char>, TokenConfigView>
    decreases configs.len(),
{
    if configs.len() == 0 {
        registry
    } else {
        store_all(registry, configs.drop_last()).insert(
            configs.last().token.identifier(),
            configs.last(),
        )
    }
}

/// `list` holds the entries of `registry`, each once, in ascending order of
/// their identifiers.
pub open spec fn lists_registry(
    list: Seq<TokenConfigView>,
    registry: Map<Seq<char>, TokenConfigView>,
) -> bool {
    &&& forall|i: int, j: int|
        0 <= i < j < list.len() ==> key_lt(
            (#[trigger] list[i]).token.identifier(),
            (#[trigger] list[j]).token.identifier(),
        )
    &&& forall|i: int|
        0 <= i < list.len() ==> registry.dom().contains((#[trigger] list[i]).token.identifier())
            && registry[list[i].token.identifier()] == list[i]
    &&& forall|id: Seq<char>| #[trigger]
        registry.dom().contains(id) ==> exists|i: int|
            0 <= i < list.len() && (#[trigger] list[i]).token.identifier() == id
}

/// Storing the first `n` entries of a listing of `registry` yields the
/// part of `registry` under their identifiers.
proof fn lemma_store_all_prefix(
    list: Seq<TokenConfigView>,
    registry: Map<Seq<char>, TokenConfigView>,
    n: int,
)
    requires
        lists_registry(list, registry),
        0 <= n <= list.len(),
    ensures
        forall|id: Seq<char>| #[trigger]
            store_all(Map::empty(), list.take(n)).dom().contains(id) <==> exists|i: int|
                0 <= i < n && (#[trigger] list[i]).token.identifier() == id,
        forall|i: int|
            0 <= i < n ==> store_all(Map::empty(), list.take(n))[(
            #[trigger] list[i]).token.identifier()] == list[i],
    decreases n,
{
    let stored = store_all(Map::empty(), list.take(n));
    if n > 0 {
        lemma_store_all_prefix(list, registry, n - 1);
        assert(list.take(n).drop_last() =~= list.take(n - 1));
        assert(list.take(n).last() == list[n - 1]);
        let before = store_all(Map::empty(), list.take(n - 1));
        assert(stored == before.insert(list[n - 1].token.identifier(), list[n - 1]));
        assert forall|id: Seq<char>| #[trigger] stored.dom().contains(id) <==> exists|i: int|
            0 <= i < n && (#[trigger] list[i]).token.identifier() == id by {
            if before.dom().contains(id) {
                let i = choose|i: int|
                    0 <= i < n - 1 && (#[trigger] list[i]).token.identifier() == id;
                assert(0 <= i < n && list[i].token.identifier() == id);
            }
            if exists|i: int| 0 <= i < n && (#[trigger] list[i]).token.identifier() == id {
                let i = choose|i: int| 0 <= i < n && (#[trigger] list[i]).token.identifier() == id;
                if i < n - 1 {
                    assert(before.dom().contains(id));
                }
            }
        }
        assert forall|i: int| 0 <= i < n implies stored[(#[trigger] list[i]).token.identifier()]
            == list[i] by {
            if i < n - 1 {
                assert(key_lt(list[i].token.identifier(), list[n - 1].token.identifier()));
                lemma_key_lt_irreflexive(list[i].token.identifier());
            }
        }
    } else {
        assert(list.take(0) =~= Seq::empty());
    }
}

/// Storing the entries of a listing of `registry` yields `registry`: what
/// [`TokenRegistry::configs`] hands out restores the registry it came from.
pub proof fn lemma_store_all_restores(
    list: Seq<TokenConfigView>,
    registry: Map<Seq<char>, TokenConfigView>,
)
    requires
        lists_registry(list, registry),
    ensures
        store_all(Map::empty(), list) == registry,
{
    lemma_store_all_prefix(list, registry, list.len() as int);
    assert(list.take(list.len() as int) =~= list);
    let stored = store_all(Map::empty(), list);
    assert forall|id: Seq<char>| stored.dom().contains(id) <==> registry.dom().contains(id) by {
        if stored.dom().contains(id) {
            let i = choose|i: int|
                0 <= i < list.len() && (#[trigger] list[i]).token.identifier() == id;
            assert(registry.dom().contains(list[i].token.identifier()));
        }
        if registry.dom().contains(id) {
            let i = choose|i: int|
                0 <= i < list.len() && (#[trigger] list[i]).token.identifier() == id;
            assert(stored.dom().contains(id));
        }
    }
    assert forall|id: Seq<char>| stored.dom().contains(id) implies stored[id] == registry[id] by {
        let i = choose|i: int| 0 <= i < list.len() && (#[trigger] list[i]).token.identifier() == id;
        assert(stored[list[i].token.identifier()] == list[i]);
    }
    assert(stored =~= registry);
}

/// The registered tokens, keyed by identifier.
pub struct TokenRegistry {
    entries: Vec<TokenConfig>,
}

impl View for TokenRegistry {
    type V = Map<Seq<char>, TokenConfigView>;

    closed spec fn view(&self) -> Map<Seq<char>, TokenConfigView> {
        to_map(self.pairs())
    }
}

impl TokenRegistry {
    /// The entries as pairs of identifier and configuration.
    pub closed spec fn pairs(self) -> Seq<(Seq<char>, TokenConfigView)> {
        Seq::new(
            self.entries@.len(),
            |i: int| (self.entries@[i].token@.identifier(), self.entries@[i]@),
        )
    }

    /// The entries are stored in strictly ascending order of identifier.
    pub closed spec fn wf(self) -> bool {
        forall|i: int, j: int|
            0 <= i < j < self.entries@.len() ==> key_lt(
                (#[trigger] self.entries@[i]).token@.identifier(),
                (#[trigger] self.entries@[j]).token@.identifier(),
            )
    }

    /// The token is registered and accepted.
    pub open spec fn supports(self, id: Seq<char>) -> bool {
        self@.dom().contains(id) && self@[id].is_supported
    }

    proof fn lemma_distinct(self)
        requires
            self.wf(),
        ensures
            distinct_keys(self.pairs()),
    {
        assert forall|i: int, j: int| 0 <= i < j < self.pairs().len() implies (
        #[trigger] self.pairs()[i]).0 != (#[trigger] self.pairs()[j]).0 by {
            assert(key_lt(
                self.entries@[i].token@.identifier(),
                self.entries@[j].token@.identifier(),
            ));
            lemma_key_lt_irreflexive(self.entries@[i].token@.identifier());
        }
    }

    /// Every entry is stored under the identifier of its token.
    pub proof fn lemma_keyed_by_identifier(self)
        requires
            self.wf(),
        ensures
            forall|id: Seq<char>| #[trigger]
                self@.dom().contains(id) ==> self@[id].token.identifier() == id,
    {
        self.lemma_distinct();
        assert forall|id: Seq<char>| #[trigger] self@.dom().contains(id) implies self@[id].token.identifier()
            == id by {
            let i = crate::assoc::index_of(self.pairs(), id);
            lemma_lookup(self.pairs(), i);
        }
    }

    /// A registry with no token.
    pub fn new() -> (res: Self)
        ensures
            res.wf(),
            res@ == Map::<Seq<char>, TokenConfigView>::empty(),
    {
        let res = TokenRegistry { entries: Vec::new() };
        proof {
            lemma_empty::<Seq<char>, TokenConfigView>();
            assert(res.pairs() =~= Seq::<(Seq<char>, TokenConfigView)>::empty());
        }
        res
    }

    /// Where the entry of `id` is stored.
    fn position(&self, id: &String) -> (res: Option<usize>)
        requires
            self.wf(),
        ensures
            match res {
                Some(i) => i < self.entries@.len() && self.entries@[i as int].token@.identifier()
                    == id@ && self@.dom().contains(id@) && self@[id@] == self.entries@[i as int]@,
                None => !self@.dom().contains(id@) && !has_key(self.pairs(), id@),
            },
    {
        let mut i: usize = 0;
        while i < self.entries.len()
            invariant
                i <= self.entries@.len(),
                self.wf(),
                forall|j: int| 0 <= j < i ==> (#[trigger] self.pairs()[j]).0 != id@,
            decreases self.entries@.len() - i,
        {
            if *self.entries[i].token.identifier() == *id {
                proof {
                    self.lemma_distinct();
                    lemma_lookup(self.pairs(), i as int);
                }
                return Some(i);
            }
            i += 1;
        }
        proof {
            lemma_absent(self.pairs(), id@);
        }
        None
    }

    /// Whether `id` is registered and accepted.
    pub fn is_supported(&self, id: &String) -> (res: bool)
        requires
            self.wf(),
        ensures
            res == self.supports(id@),
    {
        match self.position(id) {
            Some(i) => self.entries[i].is_supported,
            None => false,
        }
    }

    /// The token that the registered identifier `id` resolves to.
    pub fn resolve(&self, id: &String) -> (res: Option<Token>)
        requires
            self.wf(),
        ensures
            res is Some <==> self@.dom().contains(id@),
            res matches Some(token) ==> token@ == self@[id@].token && token@.identifier() == id@,
    {
        match self.position(id) {
            Some(i) => Some(self.entries[i].token.clone()),
            None => None,
        }
    }

    /// Stores `config` under the identifier of its token, in place of what
    /// was stored there.
    pub fn set(&mut self, config: TokenConfig)
        requires
            old(self).wf(),
        ensures
            final(self).wf(),
            final(self)@ == old(self)@.insert(config.token@.identifier(), config@),
    {
        let ghost id = config.token@.identifier();
        let ghost before = self.pairs();
        proof {
            self.lemma_distinct();
        }
        match self.position(config.token.identifier()) {
            Some(i) => {
                proof {
                    lemma_update(before, i as int, config@);
                }
                self.entries.set(i, config);
                assert(self.pairs() =~= before.update(i as int, (id, config@)));
            },
            None => {
                let mut i: usize = 0;
                while i < self.entries.len() && !key_less(
                    config.token.identifier(),
                    self.entries[i].token.identifier(),
                )
                    invariant
                        i <= self.entries@.len(),
                        self.wf(),
                        self.pairs() == before,
                        id == config.token@.identifier(),
                        !has_key(before, id),
                        forall|j: int|
                            0 <= j < i ==> key_lt(
                                (#[trigger] self.entries@[j]).token@.identifier(),
                                id,
                            ),
                    decreases self.entries@.len() - i,
                {
                    proof {
                        let other = self.entries@[i as int].token@.identifier();
                        assert(before[i as int].0 == other);
                        lemma_key_lt_total(other, id);
                    }
                    i += 1;
                }
                proof {
                    lemma_insert(before, i as int, (id, config@));
                    assert forall|j: int| i <= j < self.entries@.len() implies key_lt(
                        id,
                        (#[trigger] self.entries@[j]).token@.identifier(),
                    ) by {
                        if j > i {
                            lemma_key_lt_transitive(
                                id,
                                self.entries@[i as int].token@.identifier(),
                                self.entries@[j].token@.identifier(),
                            );
                        }
                    }
                }
                let ghost stored = self.entries@;
                self.entries.insert(i, config);
                proof {
                    assert(self.pairs() =~= before.insert(i as int, (id, config@)));
                    assert forall|a: int, b: int| 0 <= a < b < self.entries@.len() implies key_lt(
                        (#[trigger] self.entries@[a]).token@.identifier(),
                        (#[trigger] self.entries@[b]).token@.identifier(),
                    ) by {
                        let a0 = if a < i {
                            a
                        } else {
                            a - 1
                        };
                        let b0 = if b < i {
                            b
                        } else {
                            b - 1
                        };
                        if a == i {
                            assert(self.entries@[b] == stored[b0]);
                        } else if b == i {
                            assert(self.entries@[a] == stored[a0]);
                        } else {
                            assert(self.entries@[a] == stored[a0]);
                            assert(self.entries@[b] == stored[b0]);
                        }
                    }
                }
            },
        }
    }

    /// Registers `token` as accepted.
    pub fn add(&mut self, token: Token)
        requires
            old(self).wf(),
        ensures
            final(self).wf(),
            final(self)@ == old(self)@.insert(
                token@.identifier(),
                TokenConfigView { token: token@, is_supported: true },
            ),
            final(self).supports(token@.identifier()),
    {
        self.set(TokenConfig { token, is_supported: true });
    }

    /// Every registered token, in ascending order of identifier.
    pub fn configs(&self) -> (res: Vec<TokenConfig>)
        requires
            self.wf(),
        ensures
            lists_registry(configs_view(res@), self@),
    {
        let mut res: Vec<TokenConfig> = Vec::new();
        let mut i: usize = 0;
        while i < self.entries.len()
            invariant
                i <= self.entries@.len(),
                res@.len() == i,
                forall|j: int| 0 <= j < i ==> (#[trigger] res@[j])@ == self.entries@[j]@,
            decreases self.entries@.len() - i,
        {
            res.push(self.entries[i].clone());
            i += 1;
        }
        proof {
            self.lemma_distinct();
            let list = configs_view(res@);
            assert forall|j: int| 0 <= j < list.len() implies self@.dom().contains(
                (#[trigger] list[j]).token.identifier(),
            ) && self@[list[j].token.identifier()] == list[j] by {
                lemma_lookup(self.pairs(), j);
            }
            assert forall|id: Seq<char>| #[trigger] self@.dom().contains(id) implies exists|j: int|
                0 <= j < list.len() && (#[trigger] list[j]).token.identifier() == id by {
                let j = crate::assoc::index_of(self.pairs(), id);
                assert(list[j].token.identifier() == id);
            }
            assert forall|a: int, b: int| 0 <= a < b < list.len() implies key_lt(
                (#[trigger] list[a]).token.identifier(),
                (#[trigger] list[b]).token.identifier(),
            ) by {
                assert(key_lt(
                    self.entries@[a].token@.identifier(),
                    self.entries@[b].token@.identifier(),
                ));
            }
        }
        res
    }
}

} // verus!
