//! The ledger as a state machine over mathematical values: what every
//! action does to the state and which transfers it emits.
//!
//! Each action has two specification functions. The first says on which
//! inputs its arithmetic stays within 128 bits; the executable action asks
//! for this. The second gives, for such inputs, either the refusal or the
//! new state together with the response.
use crate::accounts::{balance_of, no_zero_balance, with_balance, Balances};
use crate::book::PositionBookView;
use crate::error::ContractError;
use crate::interest::{collateral_to_liquidator_spec, debt_in_range, health_in_range};
use crate::interest::{lender_share_spec, split_in_range, total_debt_spec, undercollateralized_spec};
use crate::msg::{ExecuteMsgView, InstantiateMsgView, ResponseView};
use crate::oracle::PriceOracleView;
use crate::registry::TokenConfigView;
use crate::state::{ConfigView, EnvView, MessageInfoView, PositionView, TokenView};
use crate::transfer::{funds_cover, pull_spec, push_spec};
use vstd::prelude::*;

verus! {

/// The state of the ledger.
pub struct LedgerView {
    /// The settings, fixed at creation.
    pub config: ConfigView,
    /// The registered tokens, by identifier.
    pub tokens: Map<Seq<char>, TokenConfigView>,
    /// The deposit balances, by user and token identifier.
    pub deposits: Balances,
    /// The positions that exist, by identifier.
    pub positions: Map<u128, PositionView>,
    /// The position identifier handed out last, 0 before the first.
    pub position_counter: u128,
}

/// The outcome of an action: the refusal, or the new state and the response.
pub type Outcome = Result<(LedgerView, ResponseView), ContractError>;

impl LedgerView {
    /// The token `id` is registered and accepted.
    pub open spec fn supports(self, id: Seq<char>) -> bool {
        self.tokens.dom().contains(id) && self.tokens[id].is_supported
    }

    /// The positions and their counter.
    pub open spec fn book(self) -> PositionBookView {
        PositionBookView { positions: self.positions, counter: self.position_counter }
    }

    /// What holds of every state that the ledger reaches: position
    /// identifiers were handed out by the counter, positions are well
    /// formed, no balance is zero, every balance is in a registered token,
    /// and every token is registered under its own identifier.
    pub open spec fn inv(self) -> bool {
        &&& self.book().inv()
        &&& no_zero_balance(self.deposits)
        &&& forall|key: (Seq<char>, Seq<char>)| #[trigger]
            self.deposits.dom().contains(key) ==> self.tokens.dom().contains(key.1)
        &&& forall|id: Seq<char>| #[trigger]
            self.tokens.dom().contains(id) ==> self.tokens[id].token.identifier() == id
    }
}

/// The response of an action that opens no position.
pub open spec fn transfers(messages: Seq<crate::transfer::TransferIntentView>) -> ResponseView {
    ResponseView { messages, position_id: None }
}

/// The registry after registering `tokens` one after the other.
pub open spec fn register_all(
    registry: Map<Seq<char>, TokenConfigView>,
    tokens: Seq<TokenView>,
) -> Map<Seq<char>, TokenConfigView>
    decreases tokens.len(),
{
    if tokens.len() == 0 {
        registry
    } else {
        register_all(registry, tokens.drop_last()).insert(
            tokens.last().identifier(),
            TokenConfigView { token: tokens.last(), is_supported: true },
        )
    }
}

/// The state of a ledger that `sender` has just created.
pub open spec fn instantiate_spec(sender: Seq<char>, msg: InstantiateMsgView) -> LedgerView {
    LedgerView {
        config: ConfigView {
            admin: sender,
            liquidation_threshold: msg.liquidation_threshold,
            mock_oracle: msg.mock_oracle,
        },
        tokens: register_all(Map::empty(), msg.initial_tokens),
        deposits: Map::empty(),
        positions: Map::empty(),
        position_counter: 0,
    }
}

/// Registering a token: only the administrator may.
pub open spec fn add_token_spec(s: LedgerView, info: MessageInfoView, token: TokenView) -> Outcome {
    if info.sender != s.config.admin {
        Err(ContractError::Unauthorized)
    } else {
        Ok(
            (
                LedgerView {
                    tokens: s.tokens.insert(
                        token.identifier(),
                        TokenConfigView { token, is_supported: true },
                    ),
                    ..s
                },
                transfers(seq![]),
            ),
        )
    }
}

/// A deposit reaches the addition only where the token is accepted and the
/// funds are covered; the sum must then fit.
pub open spec fn deposit_in_range(
    s: LedgerView,
    info: MessageInfoView,
    token: Seq<char>,
    amount: u128,
) -> bool {
    s.supports(token) && funds_cover(s.tokens[token].token, info.funds, amount) ==> balance_of(
        s.deposits,
        info.sender,
        token,
    ) + amount <= u128::MAX
}

/// Depositing `amount` of `token`: the balance of the caller grows by it,
/// and the amount moves from the caller into the pool.
pub open spec fn deposit_spec(
    s: LedgerView,
    env: EnvView,
    info: MessageInfoView,
    token: Seq<char>,
    amount: u128,
) -> Outcome {
    if !s.supports(token) {
        Err(ContractError::UnsupportedToken)
    } else if !funds_cover(s.tokens[token].token, info.funds, amount) {
        Err(ContractError::InsufficientFunds)
    } else {
        Ok(
            (
                LedgerView {
                    deposits: with_balance(
                        s.deposits,
                        info.sender,
                        token,
                        (balance_of(s.deposits, info.sender, token) + amount) as u128,
                    ),
                    ..s
                },
                transfers(
                    seq![pull_spec(s.tokens[token].token, info.sender, env.contract_address, amount)],
                ),
            ),
        )
    }
}

/// Withdrawing `amount` of `token`: the balance of the caller shrinks by
/// it, its entry is deleted where nothing is left, and the amount moves from
/// the pool to the caller.
pub open spec fn withdraw_spec(
    s: LedgerView,
    info: MessageInfoView,
    token: Seq<char>,
    amount: u128,
) -> Outcome {
    if !s.supports(token) {
        Err(ContractError::UnsupportedToken)
    } else if balance_of(s.deposits, info.sender, token) < amount {
        Err(ContractError::InsufficientDeposit)
    } else {
        Ok(
            (
                LedgerView {
                    deposits: with_balance(
                        s.deposits,
                        info.sender,
                        token,
                        (balance_of(s.deposits, info.sender, token) - amount) as u128,
                    ),
                    ..s
                },
                transfers(seq![push_spec(s.tokens[token].token, info.sender, amount)]),
            ),
        )
    }
}

/// The position that a borrow opens: not filled, without lender, without
/// fill time.
pub open spec fn opened_position(
    s: LedgerView,
    borrower: Seq<char>,
    borrow_token: Seq<char>,
    amount: u128,
    interest_rate: u128,
    collateral_token: Seq<char>,
    collateral: u128,
) -> PositionView {
    PositionView {
        borrower,
        lender: None,
        borrow_token: s.tokens[borrow_token].token,
        collateral_token: s.tokens[collateral_token].token,
        amount,
        interest_rate,
        collateral,
        start_time: 0,
        filled: false,
    }
}

/// A borrow reaches the counter only where both tokens are accepted and the
/// collateral is covered; the counter must then have a successor.
pub open spec fn borrow_in_range(
    s: LedgerView,
    info: MessageInfoView,
    borrow_token: Seq<char>,
    collateral_token: Seq<char>,
    collateral: u128,
) -> bool {
    s.supports(borrow_token) && s.supports(collateral_token) && funds_cover(
        s.tokens[collateral_token].token,
        info.funds,
        collateral,
    ) ==> s.position_counter < u128::MAX
}

/// Opening a position: it is stored under the next identifier, and the
/// collateral moves from the borrower into the pool.
pub open spec fn borrow_spec(
    s: LedgerView,
    env: EnvView,
    info: MessageInfoView,
    borrow_token: Seq<char>,
    amount: u128,
    interest_rate: u128,
    collateral_token: Seq<char>,
    collateral: u128,
) -> Outcome {
    if !s.supports(borrow_token) || !s.supports(collateral_token) {
        Err(ContractError::UnsupportedToken)
    } else if !funds_cover(s.tokens[collateral_token].token, info.funds, collateral) {
        Err(ContractError::InsufficientFunds)
    } else {
        let id = (s.position_counter + 1) as u128;
        Ok(
            (
                LedgerView {
                    positions: s.positions.insert(
                        id,
                        opened_position(
                            s,
                            info.sender,
                            borrow_token,
                            amount,
                            interest_rate,
                            collateral_token,
                            collateral,
                        ),
                    ),
                    position_counter: id,
                    ..s
                },
                ResponseView {
                    messages: seq![
                        pull_spec(
                            s.tokens[collateral_token].token,
                            info.sender,
                            env.contract_address,
                            collateral,
                        ),
                    ],
                    position_id: Some(id),
                },
            ),
        )
    }
}

/// Filling an open position with exactly its principal: the caller becomes
/// the lender, interest starts to accrue, and the principal moves from the
/// lender to the borrower.
pub open spec fn fill_position_spec(
    s: LedgerView,
    env: EnvView,
    info: MessageInfoView,
    position_id: u128,
    amount: u128,
) -> Outcome {
    if !s.positions.dom().contains(position_id) {
        Err(ContractError::NotFound)
    } else {
        let position = s.positions[position_id];
        if position.filled || position.lender is Some {
            Err(ContractError::PositionAlreadyFilled)
        } else if position.amount != amount {
            Err(ContractError::AmountMismatch)
        } else if !funds_cover(position.borrow_token, info.funds, amount) {
            Err(ContractError::InsufficientFunds)
        } else {
            Ok(
                (
                    LedgerView {
                        positions: s.positions.insert(
                            position_id,
                            PositionView {
                                lender: Some(info.sender),
                                filled: true,
                                start_time: env.block_time,
                                ..position
                            },
                        ),
                        ..s
                    },
                    transfers(
                        seq![pull_spec(position.borrow_token, info.sender, position.borrower, amount)],
                    ),
                ),
            )
        }
    }
}

/// The time elapsed since `position` was filled lies in the past of `now`,
/// and its debt at `now` can be computed within 128 bits.
pub open spec fn accrual_in_range(position: PositionView, now: u64) -> bool {
    &&& position.start_time <= now
    &&& debt_in_range(
        position.amount as int,
        position.interest_rate as int,
        now - position.start_time,
    )
}

/// The debt of `position` at `now`: principal plus accrued interest.
pub open spec fn debt_at(position: PositionView, now: u64) -> u128 {
    total_debt_spec(
        position.amount as int,
        position.interest_rate as int,
        now - position.start_time,
    ) as u128
}

/// A repayment reaches the debt formula only where the caller is the
/// borrower of a filled position.
pub open spec fn repay_in_range(
    s: LedgerView,
    env: EnvView,
    info: MessageInfoView,
    position_id: u128,
) -> bool {
    s.positions.dom().contains(position_id) && s.positions[position_id].borrower == info.sender
        && s.positions[position_id].filled ==> accrual_in_range(
        s.positions[position_id],
        env.block_time,
    )
}

/// Repaying a filled position: the debt moves from the borrower to the
/// lender, the whole collateral moves from the pool back to the borrower,
/// and the position is deleted.
pub open spec fn repay_spec(
    s: LedgerView,
    env: EnvView,
    info: MessageInfoView,
    position_id: u128,
) -> Outcome {
    if !s.positions.dom().contains(position_id) {
        Err(ContractError::NotFound)
    } else {
        let position = s.positions[position_id];
        let total = debt_at(position, env.block_time);
        if position.borrower != info.sender {
            Err(ContractError::NotBorrower)
        } else if !position.filled {
            Err(ContractError::PositionNotFilled)
        } else if !funds_cover(position.borrow_token, info.funds, total) {
            Err(ContractError::InsufficientFunds)
        } else {
            Ok(
                (
                    LedgerView { positions: s.positions.remove(position_id), ..s },
                    transfers(
                        seq![
                            pull_spec(
                                position.borrow_token,
                                info.sender,
                                position.lender->Some_0,
                                total,
                            ),
                            push_spec(position.collateral_token, info.sender, position.collateral),
                        ],
                    ),
                ),
            )
        }
    }
}

/// The collateral of `position`, priced at `price`, falls short of its debt
/// at `now` scaled by the threshold percentage.
pub open spec fn liquidatable(position: PositionView, price: u128, threshold: u128, now: u64) -> bool {
    undercollateralized_spec(
        position.collateral as int,
        price as int,
        debt_at(position, now) as int,
        threshold as int,
    )
}

/// The arithmetic of judging and liquidating `position` stays within 128
/// bits: the health check always, the split where the position is judged
/// short of collateral.
pub open spec fn liquidation_in_range(
    position: PositionView,
    price: u128,
    threshold: u128,
    now: u64,
) -> bool {
    &&& accrual_in_range(position, now)
    &&& health_in_range(
        position.collateral as int,
        price as int,
        debt_at(position, now) as int,
        threshold as int,
    )
    &&& liquidatable(position, price, threshold, now) ==> split_in_range(
        debt_at(position, now) as int,
        position.collateral as int,
    )
}

/// A liquidation reaches its arithmetic only for a filled position whose
/// collateral has a price.
pub open spec fn liquidate_in_range(
    s: LedgerView,
    oracle: PriceOracleView,
    env: EnvView,
    position_id: u128,
) -> bool {
    s.positions.dom().contains(position_id) && s.positions[position_id].filled
        && oracle.price_of(s.positions[position_id].collateral_token.identifier()) is Some
        ==> liquidation_in_range(
        s.positions[position_id],
        oracle.price_of(s.positions[position_id].collateral_token.identifier())->Some_0,
        s.config.liquidation_threshold,
        env.block_time,
    )
}

/// Liquidating a filled position whose collateral no longer covers the
/// debt: the liquidator pays the debt into the pool, the lender receives
/// the tenth of it that is not credited to the liquidator, the liquidator
/// receives 95 percent of the collateral, and the position is deleted.
pub open spec fn liquidate_spec(
    s: LedgerView,
    oracle: PriceOracleView,
    env: EnvView,
    info: MessageInfoView,
    position_id: u128,
) -> Outcome {
    if !s.positions.dom().contains(position_id) {
        Err(ContractError::NotFound)
    } else {
        let position = s.positions[position_id];
        let price = oracle.price_of(position.collateral_token.identifier());
        let debt = debt_at(position, env.block_time);
        if !position.filled {
            Err(ContractError::PositionNotFilled)
        } else if price is None {
            Err(ContractError::OracleUnavailable)
        } else if !liquidatable(
            position,
            price->Some_0,
            s.config.liquidation_threshold,
            env.block_time,
        ) {
            Err(ContractError::PositionHealthy)
        } else if !funds_cover(position.borrow_token, info.funds, debt) {
            Err(ContractError::InsufficientFunds)
        } else {
            Ok(
                (
                    LedgerView { positions: s.positions.remove(position_id), ..s },
                    transfers(
                        seq![
                            pull_spec(
                                position.borrow_token,
                                info.sender,
                                env.contract_address,
                                debt,
                            ),
                            push_spec(
                                position.borrow_token,
                                position.lender->Some_0,
                                lender_share_spec(debt as int) as u128,
                            ),
                            push_spec(
                                position.collateral_token,
                                info.sender,
                                collateral_to_liquidator_spec(position.collateral as int) as u128,
                            ),
                        ],
                    ),
                ),
            )
        }
    }
}

/// The arithmetic of the action `msg` stays within 128 bits.
pub open spec fn execute_in_range(
    s: LedgerView,
    oracle: PriceOracleView,
    env: EnvView,
    info: MessageInfoView,
    msg: ExecuteMsgView,
) -> bool {
    match msg {
        ExecuteMsgView::AddToken { .. } => true,
        ExecuteMsgView::Deposit { token, amount } => deposit_in_range(s, info, token, amount),
        ExecuteMsgView::Borrow { borrow_token, collateral_token, collateral, .. } => borrow_in_range(
            s,
            info,
            borrow_token,
            collateral_token,
            collateral,
        ),
        ExecuteMsgView::Withdraw { .. } => true,
        ExecuteMsgView::FillPosition { .. } => true,
        ExecuteMsgView::Repay { position_id } => repay_in_range(s, env, info, position_id),
        ExecuteMsgView::Liquidate { position_id } => liquidate_in_range(s, oracle, env, position_id),
    }
}

/// The outcome of the action `msg`.
pub open spec fn execute_spec(
    s: LedgerView,
    oracle: PriceOracleView,
    env: EnvView,
    info: MessageInfoView,
    msg: ExecuteMsgView,
) -> Outcome {
    match msg {
        ExecuteMsgView::AddToken { token } => add_token_spec(s, info, token),
        ExecuteMsgView::Deposit { token, amount } => deposit_spec(s, env, info, token, amount),
        ExecuteMsgView::Borrow {
            borrow_token,
            amount,
            interest_rate,
            collateral_token,
            collateral,
        } => borrow_spec(
            s,
            env,
            info,
            borrow_token,
            amount,
            interest_rate,
            collateral_token,
            collateral,
        ),
        ExecuteMsgView::Withdraw { token, amount } => withdraw_spec(s, info, token, amount),
        ExecuteMsgView::FillPosition { position_id, amount } => fill_position_spec(
            s,
            env,
            info,
            position_id,
            amount,
        ),
        ExecuteMsgView::Repay { position_id } => repay_spec(s, env, info, position_id),
        ExecuteMsgView::Liquidate { position_id } => liquidate_spec(
            s,
            oracle,
            env,
            info,
            position_id,
        ),
    }
}

} // verus!
