//! Transfers: what an action asks the settlement layer to move, and the
//! message that carries each request on the wire.
//!
//! The ledger decides what moves. A native token moves by a bank send; a
//! contract-managed token moves by a call of its contract, whose payload is
//! the JSON form of the `cw20` execute message.
use crate::error::ContractError;
use crate::state::{coins_view, Coin, CoinView, Token, TokenView};
use vstd::prelude::*;

verus! {

/// One request to move value, produced by an action.
#[derive(Debug, PartialEq, Eq)]
pub enum TransferIntent {
    /// Send `amount` of the native `denom` to `to_address`.
    Send { to_address: String, denom: String, amount: u128 },
    /// Have the token `contract` move `amount` from the pool to `recipient`.
    Transfer { contract: String, recipient: String, amount: u128 },
    /// Have the token `contract` move `amount` from `owner` to `recipient`,
    /// on the allowance that `owner` granted the pool.
    TransferFrom { contract: String, owner: String, recipient: String, amount: u128 },
}

/// The view of a [`TransferIntent`].
pub enum TransferIntentView {
    Send { to_address: Seq<char>, denom: Seq<char>, amount: u128 },
    Transfer { contract: Seq<char>, recipient: Seq<char>, amount: u128 },
    TransferFrom { contract: Seq<char>, owner: Seq<char>, recipient: Seq<char>, amount: u128 },
}

impl View for TransferIntent {
    type V = TransferIntentView;

    open spec fn view(&self) -> TransferIntentView {
        match self {
            TransferIntent::Send { to_address, denom, amount } => TransferIntentView::Send {
                to_address: to_address@,
                denom: denom@,
                amount: *amount,
            },
            TransferIntent::Transfer { contract, recipient, amount } => TransferIntentView::Transfer {
                contract: contract@,
                recipient: recipient@,
                amount: *amount,
            },
            TransferIntent::TransferFrom {
                contract,
                owner,
                recipient,
                amount,
            } => TransferIntentView::TransferFrom {
                contract: contract@,
                owner: owner@,
                recipient: recipient@,
                amount: *amount,
            },
        }
    }
}

/// The views of a list of transfers, in order.
pub open spec fn intents_view(intents: Seq<TransferIntent>) -> Seq<TransferIntentView> {
    intents.map_values(|t: TransferIntent| t@)
}

/// The amount of `denom` attached: that of the first coin of this
/// denomination, 0 where there is none.
pub open spec fn attached(funds: Seq<CoinView>, denom: Seq<char>) -> u128
    decreases funds.len(),
{
    if funds.len() == 0 {
        0
    } else if funds[0].denom == denom {
        funds[0].amount
    } else {
        attached(funds.drop_first(), denom)
    }
}

/// The caller gave proof of funds for `amount` of `token`: for a native token
/// at least that much is attached; a contract-managed token is pulled on
/// allowance, which only settlement checks.
pub open spec fn funds_cover(token: TokenView, funds: Seq<CoinView>, amount: u128) -> bool {
    match token {
        TokenView::Native(denom) => attached(funds, denom) >= amount,
        TokenView::Cw20(_) => true,
    }
}

/// The transfer that moves `amount` of `token` from the pool to `to`.
pub open spec fn push_spec(token: TokenView, to: Seq<char>, amount: u128) -> TransferIntentView {
    match token {
        TokenView::Native(denom) => TransferIntentView::Send { to_address: to, denom, amount },
        TokenView::Cw20(contract) => TransferIntentView::Transfer {
            contract,
            recipient: to,
            amount,
        },
    }
}

/// The transfer that moves `amount` of `token` from the paying caller `from`
/// to `to`.
pub open spec fn pull_spec(
    token: TokenView,
    from: Seq<char>,
    to: Seq<char>,
    amount: u128,
) -> TransferIntentView {
    match token {
        TokenView::Native(denom) => TransferIntentView::Send { to_address: to, denom, amount },
        TokenView::Cw20(contract) => TransferIntentView::TransferFrom {
            contract,
            owner: from,
            recipient: to,
            amount,
        },
    }
}

/// The amount of `denom` among the attached coins.
pub fn attached_amount(funds: &Vec<Coin>, denom: &String) -> (sent: u128)
    ensures
        sent == attached(coins_view(funds@), denom@),
{
    let mut i: usize = 0;
    assert(coins_view(funds@).skip(0) =~= coins_view(funds@));
    while i < funds.len()
        invariant
            i <= funds.len(),
            attached(coins_view(funds@), denom@) == attached(
                coins_view(funds@).skip(i as int),
                denom@,
            ),
        decreases funds.len() - i,
    {
        proof {
            let rest = coins_view(funds@).skip(i as int);
            assert(rest[0] == funds@[i as int]@);
            assert(rest.drop_first() =~= coins_view(funds@).skip(i + 1));
        }
        if funds[i].denom == *denom {
            return funds[i].amount;
        }
        i += 1;
    }
    0
}

/// Checks that at least `amount` of the native `denom` is attached.
pub fn verify_funds(funds: &Vec<Coin>, denom: &String, amount: u128) -> (res: Result<
    (),
    ContractError,
>)
    ensures
        res == if attached(coins_view(funds@), denom@) >= amount {
            Ok::<(), ContractError>(())
        } else {
            Err::<(), ContractError>(ContractError::InsufficientFunds)
        },
{
    if attached_amount(funds, denom) < amount {
        Err(ContractError::InsufficientFunds)
    } else {
        Ok(())
    }
}

impl Token {
    /// Whether the attached `funds` give proof of funds for `amount` of this
    /// token.
    pub fn is_covered(&self, funds: &Vec<Coin>, amount: u128) -> (res: bool)
        ensures
            res == funds_cover(self@, coins_view(funds@), amount),
    {
        match self {
            Token::Native(denom) => verify_funds(funds, denom, amount).is_ok(),
            Token::Cw20(_) => true,
        }
    }

    /// The transfer that pays `amount` of this token from the pool to `to`.
    pub fn push(&self, to: &String, amount: u128) -> (intent: TransferIntent)
        ensures
            intent@ == push_spec(self@, to@, amount),
    {
        match self {
            Token::Native(denom) => TransferIntent::Send {
                to_address: to.clone(),
                denom: denom.clone(),
                amount,
            },
            Token::Cw20(address) => TransferIntent::Transfer {
                contract: address.clone(),
                recipient: to.clone(),
                amount,
            },
        }
    }

    /// The transfer that takes `amount` of this token from the caller `from`
    /// and gives it to `to`, refused where a native token is not covered by
    /// the attached `funds`.
    pub fn pull(&self, from: &String, to: &String, amount: u128, funds: &Vec<Coin>) -> (res: Result<
        TransferIntent,
        ContractError,
    >)
        ensures
            funds_cover(self@, coins_view(funds@), amount) ==> res is Ok && res->Ok_0@ == pull_spec(
                self@,
                from@,
                to@,
                amount,
            ),
            !funds_cover(self@, coins_view(funds@), amount) ==> res == Err::<
                TransferIntent,
                ContractError,
            >(ContractError::InsufficientFunds),
    {
        match self {
            Token::Native(denom) => {
                match verify_funds(funds, denom, amount) {
                    Err(e) => Err(e),
                    Ok(_) => Ok(
                        TransferIntent::Send {
                            to_address: to.clone(),
                            denom: denom.clone(),
                            amount,
                        },
                    ),
                }
            },
            Token::Cw20(address) => Ok(
                TransferIntent::TransferFrom {
                    contract: address.clone(),
                    owner: from.clone(),
                    recipient: to.clone(),
                    amount,
                },
            ),
        }
    }
}

} // verus!
