//! The queries of the ledger. A query reads the state and changes nothing.
use crate::book::{is_page, lists_involving, positions_view};
use crate::contract::Ledger;
use crate::error::ContractError;
use crate::keys::key_lt;
use crate::model::LedgerView;
use crate::msg::{deposits_view, ConfigResponse, PositionResponse, PositionsResponse, QueryMsg};
use crate::msg::{QueryMsgView, QueryResponse, QueryResponseView, TokenConfigsResponse, UserInfo};
use crate::msg::{UserInfoResponse, UserInfoView};
use crate::registry::{configs_view, lists_registry};
use crate::accounts::{holdings_view, lists_holdings};
use crate::state::{Deposit, DepositView, Env, PositionView};
use vstd::prelude::*;

verus! {

/// `list` holds the balances of `user`, each with the token that its
/// identifier resolves to, each token once, in ascending order of the
/// identifiers.
pub open spec fn lists_deposits(list: Seq<DepositView>, s: LedgerView, user: Seq<char>) -> bool {
    &&& forall|i: int, j: int|
        0 <= i < j < list.len() ==> key_lt(
            (#[trigger] list[i]).token.identifier(),
            (#[trigger] list[j]).token.identifier(),
        )
    &&& forall|i: int|
        0 <= i < list.len() ==> {
            &&& s.deposits.dom().contains((user, (#[trigger] list[i]).token.identifier()))
            &&& s.deposits[(user, list[i].token.identifier())] == list[i].amount
            &&& s.tokens.dom().contains(list[i].token.identifier())
            &&& s.tokens[list[i].token.identifier()].token == list[i].token
        }
    &&& forall|token: Seq<char>| #[trigger]
        s.deposits.dom().contains((user, token)) ==> exists|i: int|
            0 <= i < list.len() && (#[trigger] list[i]).token.identifier() == token
}

/// `info` is what the ledger knows of `user`: the deposits and the
/// positions, or nothing where the user has neither.
pub open spec fn is_user_info(info: Option<UserInfoView>, s: LedgerView, user: Seq<char>) -> bool {
    match info {
        Some(info) => {
            &&& lists_deposits(info.deposits, s, user)
            &&& lists_involving(info.positions, s.positions, user)
            &&& info.deposits.len() + info.positions.len() > 0
        },
        None => {
            &&& forall|token: Seq<char>| !#[trigger] s.deposits.dom().contains((user, token))
            &&& forall|id: u128| #[trigger]
                s.positions.dom().contains(id) ==> !s.positions[id].involves(user)
        },
    }
}

/// The answer for a position that is, or is not, stored.
pub open spec fn position_answer(s: LedgerView, position_id: u128) -> Result<
    PositionView,
    ContractError,
> {
    if s.positions.dom().contains(position_id) {
        Ok(s.positions[position_id])
    } else {
        Err(ContractError::NotFound)
    }
}

/// `res` answers the query `msg` on the state `s`.
pub open spec fn answers(
    res: Result<QueryResponseView, ContractError>,
    s: LedgerView,
    msg: QueryMsgView,
) -> bool {
    match msg {
        QueryMsgView::GetTokenConfigs => res matches Ok(QueryResponseView::TokenConfigs(list))
            && lists_registry(list, s.tokens),
        QueryMsgView::GetUserInfo { address } => res matches Ok(QueryResponseView::UserInfo(info))
            && is_user_info(info, s, address),
        QueryMsgView::GetPosition { position_id } => match position_answer(s, position_id) {
            Ok(position) => res == Ok::<QueryResponseView, ContractError>(
                QueryResponseView::Position(position),
            ),
            Err(e) => res == Err::<QueryResponseView, ContractError>(e),
        },
        QueryMsgView::GetAllPositions { start_after, limit } => res matches Ok(
            QueryResponseView::Positions(list),
        ) && is_page(list, s.positions, start_after, limit),
        QueryMsgView::GetConfig => res == Ok::<QueryResponseView, ContractError>(
            QueryResponseView::Config(s.config),
        ),
    }
}

/// The view of the outcome of a query.
pub open spec fn answer_view(res: Result<QueryResponse, ContractError>) -> Result<
    QueryResponseView,
    ContractError,
> {
    match res {
        Ok(response) => Ok(response@),
        Err(e) => Err(e),
    }
}

/// The registered tokens, in ascending order of identifier.
pub fn query_token_configs(ledger: &Ledger) -> (res: TokenConfigsResponse)
    requires
        ledger.wf(),
    ensures
        lists_registry(configs_view(res.tokens@), ledger@.tokens),
{
    TokenConfigsResponse { tokens: ledger.registry().configs() }
}

/// The deposits of `address`, in ascending order of token identifier, and
/// the positions in which it is borrower or lender, in ascending order of
/// position identifier; nothing where it has neither.
pub fn query_user_info(ledger: &Ledger, address: String) -> (res: UserInfoResponse)
    requires
        ledger.wf(),
    ensures
        is_user_info(
            match res.user_info {
                Some(info) => Some(info@),
                None => None,
            },
            ledger@,
            address@,
        ),
{
    let holdings = ledger.accounts().holdings(&address);
    let ghost held = holdings_view(holdings@);
    let mut deposits: Vec<Deposit> = Vec::new();
    let mut i: usize = 0;
    proof {
        ledger.lemma_inv();
    }
    while i < holdings.len()
        invariant
            i <= holdings@.len(),
            ledger.wf(),
            ledger@.inv(),
            held == holdings_view(holdings@),
            lists_holdings(held, ledger@.deposits, address@),
            deposits@.len() == i,
            forall|j: int|
                0 <= j < i ==> (#[trigger] deposits@[j])@.token.identifier() == held[j].0
                    && deposits@[j].amount == held[j].1 && ledger@.tokens[held[j].0].token
                    == deposits@[j]@.token,
        decreases holdings@.len() - i,
    {
        proof {
            assert(held[i as int] == (holdings@[i as int].0@, holdings@[i as int].1));
            assert(ledger@.deposits.dom().contains((address@, held[i as int].0)));
        }
        let token = ledger.registry().resolve(&holdings[i].0).unwrap();
        deposits.push(Deposit { token, amount: holdings[i].1 });
        i += 1;
    }
    let positions = ledger.book().involving(&address);
    proof {
        let list = deposits_view(deposits@);
        assert forall|j: int| 0 <= j < list.len() implies (#[trigger] list[j]).token.identifier()
            == held[j].0 && list[j].amount == held[j].1 && ledger@.tokens[held[j].0].token
            == list[j].token by {
            assert(list[j] == deposits@[j]@);
        }
        assert forall|a: int, b: int| 0 <= a < b < list.len() implies key_lt(
            (#[trigger] list[a]).token.identifier(),
            (#[trigger] list[b]).token.identifier(),
        ) by {
            assert(key_lt(held[a].0, held[b].0));
        }
        assert forall|j: int| 0 <= j < list.len() implies ({
            &&& ledger@.deposits.dom().contains((address@, (#[trigger] list[j]).token.identifier()))
            &&& ledger@.deposits[(address@, list[j].token.identifier())] == list[j].amount
            &&& ledger@.tokens.dom().contains(list[j].token.identifier())
            &&& ledger@.tokens[list[j].token.identifier()].token == list[j].token
        }) by {
            assert(ledger@.deposits.dom().contains((address@, held[j].0)));
        }
        assert forall|token: Seq<char>| #[trigger]
            ledger@.deposits.dom().contains((address@, token)) implies exists|j: int|
            0 <= j < list.len() && (#[trigger] list[j]).token.identifier() == token by {
            let j = choose|j: int| 0 <= j < held.len() && (#[trigger] held[j]).0 == token;
            assert(list[j].token.identifier() == token);
        }
        assert(lists_deposits(list, ledger@, address@));
        if positions@.len() == 0 {
            assert forall|id: u128| #[trigger]
                ledger@.positions.dom().contains(id) implies !ledger@.positions[id].involves(
                address@,
            ) by {
                if ledger@.positions[id].involves(address@) {
                    assert(crate::book::lists_id(positions_view(positions@), id));
                }
            }
        }
    }
    let user_info = if deposits.len() == 0 && positions.len() == 0 {
        None
    } else {
        Some(UserInfo { deposits, positions })
    };
    UserInfoResponse { user_info }
}

/// The position stored under `position_id`; `NotFound` where none is.
pub fn query_position(ledger: &Ledger, position_id: u128) -> (res: Result<
    PositionResponse,
    ContractError,
>)
    requires
        ledger.wf(),
    ensures
        match position_answer(ledger@, position_id) {
            Ok(position) => res is Ok && res->Ok_0.position@ == position,
            Err(e) => res == Err::<PositionResponse, ContractError>(e),
        },
{
    match ledger.book().get(position_id) {
        Some(position) => Ok(PositionResponse { position }),
        None => Err(ContractError::NotFound),
    }
}

/// One page of all positions in ascending order of identifier: those
/// beyond `start_after`, at most `limit` of them, 100 where no limit or a
/// larger one is given.
pub fn query_all_positions(ledger: &Ledger, start_after: Option<u128>, limit: Option<u32>) -> (res:
    PositionsResponse)
    requires
        ledger.wf(),
    ensures
        is_page(positions_view(res.positions@), ledger@.positions, start_after, limit),
{
    PositionsResponse { positions: ledger.book().page(start_after, limit) }
}

/// The settings of the ledger.
pub fn query_config(ledger: &Ledger) -> (res: ConfigResponse)
    ensures
        res.config@ == ledger@.config,
{
    ConfigResponse { config: ledger.config().clone() }
}

/// Answers the query `msg`.
pub fn query(ledger: &Ledger, _env: &Env, msg: QueryMsg) -> (res: Result<
    QueryResponse,
    ContractError,
>)
    requires
        ledger.wf(),
    ensures
        answers(answer_view(res), ledger@, msg@),
{
    match msg {
        QueryMsg::GetTokenConfigs {  } => Ok(QueryResponse::TokenConfigs(query_token_configs(ledger))),
        QueryMsg::GetUserInfo { address } => Ok(
            QueryResponse::UserInfo(query_user_info(ledger, address)),
        ),
        QueryMsg::GetPosition { position_id } => match query_position(ledger, position_id) {
            Ok(response) => Ok(QueryResponse::Position(response)),
            Err(e) => Err(e),
        },
        QueryMsg::GetAllPositions { start_after, limit } => Ok(
            QueryResponse::Positions(query_all_positions(ledger, start_after, limit)),
        ),
        QueryMsg::GetConfig {  } => Ok(QueryResponse::Config(query_config(ledger))),
    }
}

} // verus!
