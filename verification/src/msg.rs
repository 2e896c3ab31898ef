//! The messages of the ledger and the answers to its queries.
use crate::registry::{configs_view, TokenConfig, TokenConfigView};
use crate::state::{Config, ConfigView, Deposit, DepositView, Position, PositionView, Token};
use crate::state::TokenView;
use crate::book::positions_view;
use crate::transfer::{intents_view, TransferIntent, TransferIntentView};
use vstd::prelude::*;

verus! {

/// The settings a ledger is created with.
#[derive(Debug, PartialEq, Eq)]
pub struct InstantiateMsg {
    /// Address of the price oracle.
    pub mock_oracle: String,
    /// Percentage of the debt that the collateral value must reach.
    pub liquidation_threshold: u128,
    /// The tokens accepted from the start.
    pub initial_tokens: Vec<Token>,
}

/// The view of an [`InstantiateMsg`].
pub struct InstantiateMsgView {
    pub mock_oracle: Seq<char>,
    pub liquidation_threshold: u128,
    pub initial_tokens: Seq<TokenView>,
}

impl View for InstantiateMsg {
    type V = InstantiateMsgView;

    open spec fn view(&self) -> InstantiateMsgView {
        InstantiateMsgView {
            mock_oracle: self.mock_oracle@,
            liquidation_threshold: self.liquidation_threshold,
            initial_tokens: self.initial_tokens@.map_values(|t: Token| t@),
        }
    }
}

/// The actions of the ledger.
#[allow(inconsistent_fields)]
#[derive(Debug, PartialEq, Eq)]
pub enum ExecuteMsg {
    /// Register a token as accepted (administrator only).
    AddToken { token: Token },
    /// Credit the caller's balance.
    Deposit { token: String, amount: u128 },
    /// Open a position backed by collateral.
    Borrow {
        borrow_token: String,
        amount: u128,
        interest_rate: u128,
        collateral_token: String,
        collateral: u128,
    },
    /// Debit the caller's balance.
    Withdraw { token: String, amount: u128 },
    /// Fund an open position.
    FillPosition { position_id: u128, amount: u128 },
    /// Close a filled position by paying the debt.
    Repay { position_id: u128 },
    /// Close a filled position whose collateral no longer covers the debt.
    Liquidate { position_id: u128 },
}

/// The view of an [`ExecuteMsg`].
#[allow(inconsistent_fields)]
pub enum ExecuteMsgView {
    AddToken { token: TokenView },
    Deposit { token: Seq<char>, amount: u128 },
    Borrow {
        borrow_token: Seq<char>,
        amount: u128,
        interest_rate: u128,
        collateral_token: Seq<char>,
        collateral: u128,
    },
    Withdraw { token: Seq<char>, amount: u128 },
    FillPosition { position_id: u128, amount: u128 },
    Repay { position_id: u128 },
    Liquidate { position_id: u128 },
}

impl View for ExecuteMsg {
    type V = ExecuteMsgView;

    open spec fn view(&self) -> ExecuteMsgView {
        match self {
            ExecuteMsg::AddToken { token } => ExecuteMsgView::AddToken { token: token@ },
            ExecuteMsg::Deposit { token, amount } => ExecuteMsgView::Deposit {
                token: token@,
                amount: *amount,
            },
            ExecuteMsg::Borrow {
                borrow_token,
                amount,
                interest_rate,
                collateral_token,
                collateral,
            } => ExecuteMsgView::Borrow {
                borrow_token: borrow_token@,
                amount: *amount,
                interest_rate: *interest_rate,
                collateral_token: collateral_token@,
                collateral: *collateral,
            },
            ExecuteMsg::Withdraw { token, amount } => ExecuteMsgView::Withdraw {
                token: token@,
                amount: *amount,
            },
            ExecuteMsg::FillPosition { position_id, amount } => ExecuteMsgView::FillPosition {
                position_id: *position_id,
                amount: *amount,
            },
            ExecuteMsg::Repay { position_id } => ExecuteMsgView::Repay { position_id: *position_id },
            ExecuteMsg::Liquidate { position_id } => ExecuteMsgView::Liquidate {
                position_id: *position_id,
            },
        }
    }
}

/// What an action that was applied hands back: the transfers that settle
/// it, in the order in which they are to be executed, and the identifier of
/// the position it opened, if it opened one.
#[derive(Debug, PartialEq, Eq)]
pub struct Response {
    pub messages: Vec<TransferIntent>,
    pub position_id: Option<u128>,
}

/// The view of a [`Response`].
pub struct ResponseView {
    pub messages: Seq<TransferIntentView>,
    pub position_id: Option<u128>,
}

impl View for Response {
    type V = ResponseView;

    open spec fn view(&self) -> ResponseView {
        ResponseView { messages: intents_view(self.messages@), position_id: self.position_id }
    }
}

/// The queries of the ledger.
#[derive(Debug, PartialEq, Eq)]
pub enum QueryMsg {
    /// The registered tokens.
    GetTokenConfigs {},
    /// The deposits and positions of one user.
    GetUserInfo { address: String },
    /// One position.
    GetPosition { position_id: u128 },
    /// One page of all positions.
    GetAllPositions { start_after: Option<u128>, limit: Option<u32> },
    /// The settings.
    GetConfig {},
}

/// The answer to [`QueryMsg::GetTokenConfigs`].
#[derive(Debug, PartialEq, Eq)]
pub struct TokenConfigsResponse {
    pub tokens: Vec<TokenConfig>,
}

/// The deposits and positions of one user.
#[derive(Debug, PartialEq, Eq)]
pub struct UserInfo {
    pub deposits: Vec<Deposit>,
    pub positions: Vec<(u128, Position)>,
}

/// The answer to [`QueryMsg::GetUserInfo`]: nothing where the user has
/// neither a deposit nor a position.
#[derive(Debug, PartialEq, Eq)]
pub struct UserInfoResponse {
    pub user_info: Option<UserInfo>,
}

/// The answer to [`QueryMsg::GetPosition`].
#[derive(Debug, PartialEq, Eq)]
pub struct PositionResponse {
    pub position: Position,
}

/// The answer to [`QueryMsg::GetAllPositions`].
#[derive(Debug, PartialEq, Eq)]
pub struct PositionsResponse {
    pub positions: Vec<(u128, Position)>,
}

/// The answer to [`QueryMsg::GetConfig`].
#[derive(Debug, PartialEq, Eq)]
pub struct ConfigResponse {
    pub config: Config,
}

/// The answer to a query.
#[derive(Debug, PartialEq, Eq)]
pub enum QueryResponse {
    TokenConfigs(TokenConfigsResponse),
    UserInfo(UserInfoResponse),
    Position(PositionResponse),
    Positions(PositionsResponse),
    Config(ConfigResponse),
}

/// The view of a [`QueryMsg`].
pub enum QueryMsgView {
    GetTokenConfigs,
    GetUserInfo { address: Seq<char> },
    GetPosition { position_id: u128 },
    GetAllPositions { start_after: Option<u128>, limit: Option<u32> },
    GetConfig,
}

impl View for QueryMsg {
    type V = QueryMsgView;

    open spec fn view(&self) -> QueryMsgView {
        match self {
            QueryMsg::GetTokenConfigs {  } => QueryMsgView::GetTokenConfigs,
            QueryMsg::GetUserInfo { address } => QueryMsgView::GetUserInfo { address: address@ },
            QueryMsg::GetPosition { position_id } => QueryMsgView::GetPosition {
                position_id: *position_id,
            },
            QueryMsg::GetAllPositions { start_after, limit } => QueryMsgView::GetAllPositions {
                start_after: *start_after,
                limit: *limit,
            },
            QueryMsg::GetConfig {  } => QueryMsgView::GetConfig,
        }
    }
}

/// The views of a list of deposits, in order.
pub open spec fn deposits_view(deposits: Seq<Deposit>) -> Seq<DepositView> {
    deposits.map_values(|d: Deposit| d@)
}

/// The view of a [`UserInfo`].
pub struct UserInfoView {
    pub deposits: Seq<DepositView>,
    pub positions: Seq<(u128, PositionView)>,
}

impl View for UserInfo {
    type V = UserInfoView;

    open spec fn view(&self) -> UserInfoView {
        UserInfoView {
            deposits: deposits_view(self.deposits@),
            positions: positions_view(self.positions@),
        }
    }
}

/// The view of a [`QueryResponse`].
pub enum QueryResponseView {
    TokenConfigs(Seq<TokenConfigView>),
    UserInfo(Option<UserInfoView>),
    Position(PositionView),
    Positions(Seq<(u128, PositionView)>),
    Config(ConfigView),
}

impl View for QueryResponse {
    type V = QueryResponseView;

    open spec fn view(&self) -> QueryResponseView {
        match self {
            QueryResponse::TokenConfigs(r) => QueryResponseView::TokenConfigs(
                configs_view(r.tokens@),
            ),
            QueryResponse::UserInfo(r) => QueryResponseView::UserInfo(
                match r.user_info {
                    Some(info) => Some(info@),
                    None => None,
                },
            ),
            QueryResponse::Position(r) => QueryResponseView::Position(r.position@),
            QueryResponse::Positions(r) => QueryResponseView::Positions(
                positions_view(r.positions@),
            ),
            QueryResponse::Config(r) => QueryResponseView::Config(r.config@),
        }
    }
}

} // verus!
