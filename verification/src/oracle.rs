//! The price oracle: the prices that its administrator publishes, which the
//! ledger consults when a position is liquidated.
use crate::assoc::{distinct_keys, has_key, lemma_absent, lemma_empty, lemma_insert, lemma_lookup};
use crate::assoc::{lemma_update, to_map};
use crate::error::ContractError;
use crate::state::{Env, MessageInfo};
use vstd::prelude::*;

verus! {

/// Creates an oracle; it carries no settings.
#[derive(Clone, Copy, Debug, PartialEq, Eq, Structural)]
pub struct InstantiateMsg {}

/// The actions of the oracle.
#[derive(Debug, PartialEq, Eq)]
pub enum ExecuteMsg {
    /// Publish `price` for `token`.
    SetPrice { token: String, price: u128 },
}

/// The queries of the oracle.
#[derive(Debug, PartialEq, Eq)]
pub enum QueryMsg {
    /// The price published for `token`.
    GetPrice { token: String },
}

/// The answer to [`QueryMsg::GetPrice`].
#[derive(Clone, Copy, Debug, PartialEq, Eq, Structural)]
pub struct PriceResponse {
    pub price: u128,
}

/// The view of a [`PriceOracle`].
pub struct PriceOracleView {
    /// Address of the administrator.
    pub admin: Seq<char>,
    /// The published prices, by token identifier.
    pub prices: Map<Seq<char>, u128>,
}

impl PriceOracleView {
    /// The price published for `token`, if any.
    pub open spec fn price_of(self, token: Seq<char>) -> Option<u128> {
        if self.prices.dom().contains(token) {
            Some(self.prices[token])
        } else {
            None
        }
    }
}

/// The state of the oracle.
pub struct PriceOracle {
    admin: String,
    prices: Vec<(String, u128)>,
}

impl View for PriceOracle {
    type V = PriceOracleView;

    closed spec fn view(&self) -> PriceOracleView {
        PriceOracleView { admin: self.admin@, prices: to_map(self.pairs()) }
    }
}

impl PriceOracle {
    /// The prices as pairs of token identifier and price.
    pub closed spec fn pairs(self) -> Seq<(Seq<char>, u128)> {
        self.prices@.map_values(|e: (String, u128)| (e.0@, e.1))
    }

    /// No token has two prices.
    pub closed spec fn wf(self) -> bool {
        distinct_keys(self.pairs())
    }

    /// Where the price of `token` is stored.
    fn position(&self, token: &String) -> (res: Option<usize>)
        requires
            self.wf(),
        ensures
            match res {
                Some(i) => i < self.prices@.len() && self.prices@[i as int].0@ == token@
                    && self@.prices.dom().contains(token@) && self@.prices[token@]
                    == self.prices@[i as int].1,
                None => !self@.prices.dom().contains(token@) && !has_key(self.pairs(), token@),
            },
    {
        let mut i: usize = 0;
        while i < self.prices.len()
            invariant
                i <= self.prices@.len(),
                self.wf(),
                forall|j: int| 0 <= j < i ==> (#[trigger] self.pairs()[j]).0 != token@,
            decreases self.prices@.len() - i,
        {
            if self.prices[i].0 == *token {
                proof {
                    lemma_lookup(self.pairs(), i as int);
                }
                return Some(i);
            }
            i += 1;
        }
        proof {
            lemma_absent(self.pairs(), token@);
        }
        None
    }
}

/// Creates the oracle; the caller becomes its administrator.
pub fn instantiate(_env: &Env, info: &MessageInfo, _msg: InstantiateMsg) -> (oracle: PriceOracle)
    ensures
        oracle.wf(),
        oracle@.admin == info@.sender,
        oracle@.prices == Map::<Seq<char>, u128>::empty(),
{
    let oracle = PriceOracle { admin: info.sender.clone(), prices: Vec::new() };
    proof {
        lemma_empty::<Seq<char>, u128>();
        assert(oracle.pairs() =~= Seq::<(Seq<char>, u128)>::empty());
    }
    oracle
}

/// Performs an action of the oracle.
pub fn execute(oracle: &mut PriceOracle, _env: &Env, info: &MessageInfo, msg: ExecuteMsg) -> (res:
    Result<(), ContractError>)
    requires
        old(oracle).wf(),
    ensures
        final(oracle).wf(),
        final(oracle)@.admin == old(oracle)@.admin,
        match msg {
            ExecuteMsg::SetPrice { token, price } => if info@.sender == old(oracle)@.admin {
                res == Ok::<(), ContractError>(()) && final(oracle)@.prices == old(oracle)@.prices.insert(token@, price)
            } else {
                res == Err::<(), ContractError>(ContractError::Unauthorized) && final(oracle)@
                    == old(oracle)@
            },
        },
{
    match msg {
        ExecuteMsg::SetPrice { token, price } => execute_add_token(oracle, info, token, price),
    }
}

/// Publishes `price` for `token`, in place of the price published before.
/// Only the administrator may.
pub fn execute_add_token(
    oracle: &mut PriceOracle,
    info: &MessageInfo,
    token: String,
    price: u128,
) -> (res: Result<(), ContractError>)
    requires
        old(oracle).wf(),
    ensures
        final(oracle).wf(),
        final(oracle)@.admin == old(oracle)@.admin,
        info@.sender == old(oracle)@.admin ==> res == Ok::<(), ContractError>(()) && final(oracle)@.prices == old(oracle)@.prices.insert(token@, price),
        info@.sender != old(oracle)@.admin ==> res == Err::<(), ContractError>(
            ContractError::Unauthorized,
        ) && final(oracle)@ == old(oracle)@,
{
    if info.sender != oracle.admin {
        return Err(ContractError::Unauthorized);
    }
    let ghost before = oracle.pairs();
    match oracle.position(&token) {
        Some(i) => {
            proof {
                lemma_update(before, i as int, price);
            }
            let ghost key = token@;
            oracle.prices.set(i, (token, price));
            assert(oracle.pairs() =~= before.update(i as int, (key, price)));
        },
        None => {
            proof {
                lemma_insert(before, before.len() as int, (token@, price));
            }
            let ghost key = token@;
            oracle.prices.push((token, price));
            assert(oracle.pairs() =~= before.insert(before.len() as int, (key, price)));
        },
    }
    Ok(())
}

/// Answers a query of the oracle.
pub fn query(oracle: &PriceOracle, _env: &Env, msg: QueryMsg) -> (res: Result<
    PriceResponse,
    ContractError,
>)
    requires
        oracle.wf(),
    ensures
        match msg {
            QueryMsg::GetPrice { token } => res == price_answer(oracle@.price_of(token@)),
        },
{
    match msg {
        QueryMsg::GetPrice { token } => get_price(oracle, &token),
    }
}

/// The answer for a price that is, or is not, published.
pub open spec fn price_answer(price: Option<u128>) -> Result<PriceResponse, ContractError> {
    match price {
        Some(price) => Ok(PriceResponse { price }),
        None => Err(ContractError::NotFound),
    }
}

/// The price published for `token`; `NotFound` where none is.
pub fn get_price(oracle: &PriceOracle, token: &String) -> (res: Result<PriceResponse, ContractError>)
    requires
        oracle.wf(),
    ensures
        res == price_answer(oracle@.price_of(token@)),
{
    match oracle.position(token) {
        Some(i) => Ok(PriceResponse { price: oracle.prices[i].1 }),
        None => Err(ContractError::NotFound),
    }
}

} // verus!
