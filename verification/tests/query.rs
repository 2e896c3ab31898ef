use encke::contract::{execute_borrow, execute_deposit, execute_fill_position, instantiate, Ledger};
use encke::error::ContractError;
use encke::msg::{
    ConfigResponse, InstantiateMsg, PositionResponse, PositionsResponse, QueryMsg, QueryResponse,
    TokenConfigsResponse, UserInfo, UserInfoResponse,
};
use encke::query::{
    query, query_all_positions, query_config, query_position, query_token_configs, query_user_info,
};
use encke::registry::TokenConfig;
use encke::state::{Coin, Config, Deposit, Env, MessageInfo, Position, Token};

fn s(text: &str) -> String {
    text.to_string()
}

fn env(time: u64) -> Env {
    Env { block_time: time, contract_address: s("pool") }
}

fn info(sender: &str, funds: &[(&str, u128)]) -> MessageInfo {
    MessageInfo {
        sender: s(sender),
        funds: funds.iter().map(|(denom, amount)| Coin { denom: s(denom), amount: *amount }).collect(),
    }
}

fn busy_ledger() -> Ledger {
    let mut ledger = instantiate(
        &env(1),
        &info("admin", &[]),
        InstantiateMsg {
            mock_oracle: s("oracle"),
            liquidation_threshold: 150,
            initial_tokens: vec![Token::Native(s("untrn")), Token::Cw20(s("token1"))],
        },
    );
    execute_deposit(&mut ledger, &env(2), &info("alice", &[("untrn", 7)]), s("untrn"), 7).unwrap();
    execute_deposit(&mut ledger, &env(2), &info("alice", &[]), s("token1"), 3).unwrap();
    execute_deposit(&mut ledger, &env(2), &info("bob", &[]), s("token1"), 9).unwrap();
    execute_borrow(&mut ledger, &env(3), &info("alice", &[]), s("untrn"), 100, 5, s("token1"), 200).unwrap();
    execute_borrow(&mut ledger, &env(3), &info("carol", &[]), s("token1"), 10, 5, s("token1"), 20).unwrap();
    execute_fill_position(&mut ledger, &env(4), &info("alice", &[]), 2, 10).unwrap();
    ledger
}

fn first_position() -> Position {
    Position {
        borrower: s("alice"),
        lender: None,
        borrow_token: Token::Native(s("untrn")),
        collateral_token: Token::Cw20(s("token1")),
        amount: 100,
        interest_rate: 5,
        collateral: 200,
        start_time: 0,
        filled: false,
    }
}

fn second_position() -> Position {
    Position {
        borrower: s("carol"),
        lender: Some(s("alice")),
        borrow_token: Token::Cw20(s("token1")),
        collateral_token: Token::Cw20(s("token1")),
        amount: 10,
        interest_rate: 5,
        collateral: 20,
        start_time: 4,
        filled: true,
    }
}

#[test]
fn token_configs_are_listed_in_identifier_order() {
    let ledger = busy_ledger();
    assert_eq!(
        query_token_configs(&ledger),
        TokenConfigsResponse {
            tokens: vec![
                TokenConfig { token: Token::Cw20(s("token1")), is_supported: true },
                TokenConfig { token: Token::Native(s("untrn")), is_supported: true },
            ],
        }
    );
}

#[test]
fn user_info_holds_deposits_and_positions() {
    let ledger = busy_ledger();
    assert_eq!(
        query_user_info(&ledger, s("alice")),
        UserInfoResponse {
            user_info: Some(UserInfo {
                deposits: vec![
                    Deposit { token: Token::Cw20(s("token1")), amount: 3 },
                    Deposit { token: Token::Native(s("untrn")), amount: 7 },
                ],
                positions: vec![(1, first_position()), (2, second_position())],
            }),
        }
    );
    assert_eq!(
        query_user_info(&ledger, s("bob")),
        UserInfoResponse {
            user_info: Some(UserInfo {
                deposits: vec![Deposit { token: Token::Cw20(s("token1")), amount: 9 }],
                positions: vec![],
            }),
        }
    );
    assert_eq!(
        query_user_info(&ledger, s("carol")),
        UserInfoResponse {
            user_info: Some(UserInfo { deposits: vec![], positions: vec![(2, second_position())] }),
        }
    );
}

#[test]
fn user_without_deposit_or_position_has_no_info() {
    let ledger = busy_ledger();
    assert_eq!(query_user_info(&ledger, s("dave")), UserInfoResponse { user_info: None });
    assert_eq!(query_user_info(&ledger, s("")), UserInfoResponse { user_info: None });
}

#[test]
fn position_is_found_by_its_identifier() {
    let ledger = busy_ledger();
    assert_eq!(query_position(&ledger, 2), Ok(PositionResponse { position: second_position() }));
    assert_eq!(query_position(&ledger, 3), Err(ContractError::NotFound));
    assert_eq!(query_position(&ledger, 0), Err(ContractError::NotFound));
}

#[test]
fn all_positions_are_paged() {
    let ledger = busy_ledger();
    assert_eq!(
        query_all_positions(&ledger, None, None),
        PositionsResponse { positions: vec![(1, first_position()), (2, second_position())] }
    );
    assert_eq!(
        query_all_positions(&ledger, Some(1), Some(500)),
        PositionsResponse { positions: vec![(2, second_position())] }
    );
    assert_eq!(
        query_all_positions(&ledger, None, Some(1)),
        PositionsResponse { positions: vec![(1, first_position())] }
    );
    assert_eq!(query_all_positions(&ledger, Some(2), None), PositionsResponse { positions: vec![] });
}

#[test]
fn config_is_handed_out() {
    let ledger = busy_ledger();
    assert_eq!(
        query_config(&ledger),
        ConfigResponse {
            config: Config { admin: s("admin"), liquidation_threshold: 150, mock_oracle: s("oracle") },
        }
    );
}

#[test]
fn query_dispatches_every_message() {
    let ledger = busy_ledger();
    assert_eq!(
        query(&ledger, &env(9), QueryMsg::GetTokenConfigs {}),
        Ok(QueryResponse::TokenConfigs(query_token_configs(&ledger)))
    );
    assert_eq!(
        query(&ledger, &env(9), QueryMsg::GetUserInfo { address: s("alice") }),
        Ok(QueryResponse::UserInfo(query_user_info(&ledger, s("alice"))))
    );
    assert_eq!(
        query(&ledger, &env(9), QueryMsg::GetPosition { position_id: 1 }),
        Ok(QueryResponse::Position(PositionResponse { position: first_position() }))
    );
    assert_eq!(
        query(&ledger, &env(9), QueryMsg::GetPosition { position_id: 77 }),
        Err(ContractError::NotFound)
    );
    assert_eq!(
        query(&ledger, &env(9), QueryMsg::GetAllPositions { start_after: Some(1), limit: None }),
        Ok(QueryResponse::Positions(PositionsResponse { positions: vec![(2, second_position())] }))
    );
    assert_eq!(
        query(&ledger, &env(9), QueryMsg::GetConfig {}),
        Ok(QueryResponse::Config(query_config(&ledger)))
    );
}
