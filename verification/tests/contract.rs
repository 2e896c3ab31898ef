use encke::contract::{
    execute, execute_add_token, execute_borrow, execute_deposit, execute_fill_position,
    execute_liquidate, execute_repay, execute_withdraw, instantiate, Ledger,
};
use encke::error::ContractError;
use encke::guard::{
    borrow_fits, deposit_fits, execute_fits, liquidate_fits, repay_fits, try_execute,
};
use encke::msg::{ExecuteMsg, InstantiateMsg, Response};
use encke::oracle::PriceOracle;
use encke::registry::TokenConfig;
use encke::state::{Coin, Config, Env, MessageInfo, Position, Token};
use encke::transfer::TransferIntent;

const HALF_YEAR: u64 = 15_768_000;

fn s(text: &str) -> String {
    text.to_string()
}

fn env(time: u64) -> Env {
    Env { block_time: time, contract_address: s("pool") }
}

fn info(sender: &str, funds: &[(&str, u128)]) -> MessageInfo {
    MessageInfo {
        sender: s(sender),
        funds: funds.iter().map(|(denom, amount)| Coin { denom: s(denom), amount: *amount }).collect(),
    }
}

fn new_ledger() -> Ledger {
    instantiate(
        &env(1),
        &info("admin", &[]),
        InstantiateMsg {
            mock_oracle: s("oracle"),
            liquidation_threshold: 150,
            initial_tokens: vec![
                Token::Native(s("untrn")),
                Token::Cw20(s("token1")),
                Token::Native(s("uatom")),
            ],
        },
    )
}

fn oracle_with(prices: &[(&str, u128)]) -> PriceOracle {
    let mut oracle =
        encke::oracle::instantiate(&env(1), &info("feeder", &[]), encke::oracle::InstantiateMsg {});
    for (token, price) in prices {
        encke::oracle::execute_add_token(&mut oracle, &info("feeder", &[]), s(token), *price).unwrap();
    }
    oracle
}

type Snapshot = (Config, Vec<TokenConfig>, Vec<(String, String, u128)>, Vec<(u128, Position)>, u128);

fn snapshot(ledger: &Ledger) -> Snapshot {
    (
        ledger.config().clone(),
        ledger.registry().configs(),
        ledger.accounts().entries(),
        ledger.book().entries(),
        ledger.book().counter(),
    )
}

fn send(to: &str, denom: &str, amount: u128) -> TransferIntent {
    TransferIntent::Send { to_address: s(to), denom: s(denom), amount }
}

fn transfer(contract: &str, recipient: &str, amount: u128) -> TransferIntent {
    TransferIntent::Transfer { contract: s(contract), recipient: s(recipient), amount }
}

fn transfer_from(contract: &str, owner: &str, recipient: &str, amount: u128) -> TransferIntent {
    TransferIntent::TransferFrom { contract: s(contract), owner: s(owner), recipient: s(recipient), amount }
}

fn moved(messages: Vec<TransferIntent>) -> Result<Response, ContractError> {
    Ok(Response { messages, position_id: None })
}

/// A ledger with position 1: alice borrows 1_000_000 untrn against
/// 2_000_000 of token1.
fn ledger_with_open_position() -> Ledger {
    let mut ledger = new_ledger();
    let res = execute_borrow(
        &mut ledger,
        &env(10),
        &info("alice", &[]),
        s("untrn"),
        1_000_000,
        1,
        s("token1"),
        2_000_000,
    );
    assert_eq!(res.unwrap().position_id, Some(1));
    ledger
}

/// The same, filled by bob at time 1_000.
fn ledger_with_filled_position() -> Ledger {
    let mut ledger = ledger_with_open_position();
    execute_fill_position(&mut ledger, &env(1_000), &info("bob", &[("untrn", 1_000_000)]), 1, 1_000_000)
        .unwrap();
    ledger
}

#[test]
fn instantiate_sets_config_and_registers_tokens() {
    let ledger = new_ledger();
    assert_eq!(
        ledger.config(),
        &Config { admin: s("admin"), liquidation_threshold: 150, mock_oracle: s("oracle") }
    );
    assert_eq!(
        ledger.registry().configs(),
        vec![
            TokenConfig { token: Token::Cw20(s("token1")), is_supported: true },
            TokenConfig { token: Token::Native(s("uatom")), is_supported: true },
            TokenConfig { token: Token::Native(s("untrn")), is_supported: true },
        ]
    );
    assert!(ledger.accounts().entries().is_empty());
    assert!(ledger.book().page(None, None).is_empty());
    assert_eq!(ledger.book().counter(), 0);
}

#[test]
fn add_token_is_for_the_admin_only() {
    let mut ledger = new_ledger();
    let before = snapshot(&ledger);
    assert_eq!(
        execute_add_token(&mut ledger, &info("mallory", &[]), Token::Native(s("uosmo"))),
        Err(ContractError::Unauthorized)
    );
    assert_eq!(snapshot(&ledger), before);
    assert_eq!(
        execute_add_token(&mut ledger, &info("admin", &[]), Token::Native(s("uosmo"))),
        moved(vec![])
    );
    assert!(ledger.registry().is_supported(&s("uosmo")));
    // registering again changes nothing
    let once = snapshot(&ledger);
    assert_eq!(
        execute_add_token(&mut ledger, &info("admin", &[]), Token::Native(s("uosmo"))),
        moved(vec![])
    );
    assert_eq!(snapshot(&ledger), once);
}

#[test]
fn deposit_of_native_token_needs_attached_funds() {
    let mut ledger = new_ledger();
    let before = snapshot(&ledger);
    assert_eq!(
        execute_deposit(&mut ledger, &env(5), &info("alice", &[("untrn", 99)]), s("untrn"), 100),
        Err(ContractError::InsufficientFunds)
    );
    assert_eq!(
        execute_deposit(&mut ledger, &env(5), &info("alice", &[("uatom", 500)]), s("untrn"), 100),
        Err(ContractError::InsufficientFunds)
    );
    assert_eq!(
        execute_deposit(&mut ledger, &env(5), &info("alice", &[]), s("untrn"), 100),
        Err(ContractError::InsufficientFunds)
    );
    assert_eq!(snapshot(&ledger), before);
    // more than needed is accepted, and only the amount is credited
    assert_eq!(
        execute_deposit(
            &mut ledger,
            &env(5),
            &info("alice", &[("uatom", 1), ("untrn", 150)]),
            s("untrn"),
            100
        ),
        moved(vec![send("pool", "untrn", 100)])
    );
    assert_eq!(ledger.accounts().balance(&s("alice"), &s("untrn")), 100);
}

#[test]
fn only_the_first_coin_of_a_denomination_counts() {
    let mut ledger = new_ledger();
    assert_eq!(
        execute_deposit(
            &mut ledger,
            &env(5),
            &info("alice", &[("untrn", 60), ("untrn", 60)]),
            s("untrn"),
            100
        ),
        Err(ContractError::InsufficientFunds)
    );
}

#[test]
fn deposit_of_contract_token_pulls_on_allowance() {
    let mut ledger = new_ledger();
    assert_eq!(
        execute_deposit(&mut ledger, &env(5), &info("alice", &[]), s("token1"), 40),
        moved(vec![transfer_from("token1", "alice", "pool", 40)])
    );
    assert_eq!(
        execute_deposit(&mut ledger, &env(6), &info("alice", &[]), s("token1"), 2),
        moved(vec![transfer_from("token1", "alice", "pool", 2)])
    );
    assert_eq!(ledger.accounts().entries(), vec![(s("alice"), s("token1"), 42)]);
}

#[test]
fn deposit_of_unsupported_token_is_refused() {
    let mut ledger = new_ledger();
    let before = snapshot(&ledger);
    assert_eq!(
        execute_deposit(&mut ledger, &env(5), &info("alice", &[("uosmo", 100)]), s("uosmo"), 100),
        Err(ContractError::UnsupportedToken)
    );
    assert_eq!(snapshot(&ledger), before);
}

#[test]
fn deposit_of_nothing_stores_no_entry() {
    let mut ledger = new_ledger();
    assert_eq!(
        execute_deposit(&mut ledger, &env(5), &info("alice", &[]), s("untrn"), 0),
        moved(vec![send("pool", "untrn", 0)])
    );
    assert!(ledger.accounts().entries().is_empty());
}

#[test]
fn withdraw_needs_the_balance() {
    let mut ledger = new_ledger();
    execute_deposit(&mut ledger, &env(5), &info("alice", &[("untrn", 100)]), s("untrn"), 100).unwrap();
    let before = snapshot(&ledger);
    assert_eq!(
        execute_withdraw(&mut ledger, &env(6), &info("alice", &[]), s("untrn"), 101),
        Err(ContractError::InsufficientDeposit)
    );
    assert_eq!(
        execute_withdraw(&mut ledger, &env(6), &info("bob", &[]), s("untrn"), 1),
        Err(ContractError::InsufficientDeposit)
    );
    assert_eq!(
        execute_withdraw(&mut ledger, &env(6), &info("alice", &[]), s("uatom"), 1),
        Err(ContractError::InsufficientDeposit)
    );
    assert_eq!(
        execute_withdraw(&mut ledger, &env(6), &info("alice", &[]), s("uosmo"), 1),
        Err(ContractError::UnsupportedToken)
    );
    assert_eq!(snapshot(&ledger), before);
    assert_eq!(
        execute_withdraw(&mut ledger, &env(6), &info("alice", &[]), s("untrn"), 30),
        moved(vec![send("alice", "untrn", 30)])
    );
    assert_eq!(ledger.accounts().entries(), vec![(s("alice"), s("untrn"), 70)]);
}

#[test]
fn withdraw_of_whole_balance_deletes_the_entry() {
    let mut ledger = new_ledger();
    execute_deposit(&mut ledger, &env(5), &info("alice", &[]), s("token1"), 40).unwrap();
    execute_deposit(&mut ledger, &env(5), &info("bob", &[]), s("token1"), 9).unwrap();
    assert_eq!(
        execute_withdraw(&mut ledger, &env(6), &info("alice", &[]), s("token1"), 40),
        moved(vec![transfer("token1", "alice", 40)])
    );
    assert_eq!(ledger.accounts().entries(), vec![(s("bob"), s("token1"), 9)]);
    assert!(ledger.accounts().holdings(&s("alice")).is_empty());
    assert_eq!(ledger.accounts().balance(&s("alice"), &s("token1")), 0);
}

#[test]
fn deposit_then_withdraw_restores_the_state() {
    for start in [0u128, 17] {
        for amount in [1u128, 5, 1_000_000] {
            let mut ledger = new_ledger();
            if start > 0 {
                execute_deposit(&mut ledger, &env(5), &info("alice", &[("untrn", start)]), s("untrn"), start)
                    .unwrap();
            }
            execute_deposit(&mut ledger, &env(5), &info("bob", &[]), s("token1"), 3).unwrap();
            let before = snapshot(&ledger);
            execute_deposit(&mut ledger, &env(6), &info("alice", &[("untrn", amount)]), s("untrn"), amount)
                .unwrap();
            assert_eq!(ledger.accounts().balance(&s("alice"), &s("untrn")), start + amount);
            execute_withdraw(&mut ledger, &env(7), &info("alice", &[]), s("untrn"), amount).unwrap();
            assert_eq!(snapshot(&ledger), before);
        }
    }
}

#[test]
fn borrow_opens_an_unfilled_position() {
    let mut ledger = new_ledger();
    let res = execute_borrow(
        &mut ledger,
        &env(10),
        &info("alice", &[]),
        s("untrn"),
        1_000_000,
        500,
        s("token1"),
        2_000_000,
    );
    assert_eq!(
        res,
        Ok(Response {
            messages: vec![transfer_from("token1", "alice", "pool", 2_000_000)],
            position_id: Some(1),
        })
    );
    assert_eq!(
        ledger.book().get(1),
        Some(Position {
            borrower: s("alice"),
            lender: None,
            borrow_token: Token::Native(s("untrn")),
            collateral_token: Token::Cw20(s("token1")),
            amount: 1_000_000,
            interest_rate: 500,
            collateral: 2_000_000,
            start_time: 0,
            filled: false,
        })
    );
    assert_eq!(ledger.book().counter(), 1);
}

#[test]
fn borrow_with_native_collateral_needs_attached_funds() {
    let mut ledger = new_ledger();
    let before = snapshot(&ledger);
    assert_eq!(
        execute_borrow(&mut ledger, &env(10), &info("alice", &[("uatom", 4)]), s("untrn"), 10, 5, s("uatom"), 5),
        Err(ContractError::InsufficientFunds)
    );
    assert_eq!(snapshot(&ledger), before);
    assert_eq!(
        execute_borrow(&mut ledger, &env(10), &info("alice", &[("uatom", 5)]), s("untrn"), 10, 5, s("uatom"), 5),
        Ok(Response { messages: vec![send("pool", "uatom", 5)], position_id: Some(1) })
    );
}

#[test]
fn borrow_needs_both_tokens_supported() {
    let mut ledger = new_ledger();
    let before = snapshot(&ledger);
    assert_eq!(
        execute_borrow(&mut ledger, &env(10), &info("alice", &[]), s("uosmo"), 10, 5, s("token1"), 5),
        Err(ContractError::UnsupportedToken)
    );
    assert_eq!(
        execute_borrow(&mut ledger, &env(10), &info("alice", &[]), s("untrn"), 10, 5, s("uosmo"), 5),
        Err(ContractError::UnsupportedToken)
    );
    assert_eq!(snapshot(&ledger), before);
}

#[test]
fn position_ids_count_up_from_one() {
    let mut ledger = new_ledger();
    let oracle = oracle_with(&[]);
    let mut issued = Vec::new();
    for round in 0..6u128 {
        let res = execute_borrow(
            &mut ledger,
            &env(10),
            &info("alice", &[]),
            s("untrn"),
            100 + round,
            5,
            s("token1"),
            7,
        );
        issued.push(res.unwrap().position_id.unwrap());
        // refused and unrelated actions hand out nothing
        assert!(execute_borrow(&mut ledger, &env(10), &info("alice", &[]), s("nope"), 1, 1, s("token1"), 1)
            .is_err());
        execute_deposit(&mut ledger, &env(10), &info("bob", &[]), s("token1"), 1).unwrap();
        if round == 2 {
            // closing a position does not free its identifier
            execute_fill_position(&mut ledger, &env(20), &info("bob", &[("untrn", 101)]), 2, 101).unwrap();
            let closing = ExecuteMsg::Repay { position_id: 2 };
            execute(&mut ledger, &oracle, &env(20), &info("alice", &[("untrn", 101)]), closing).unwrap();
        }
    }
    assert_eq!(issued, vec![1, 2, 3, 4, 5, 6]);
    assert_eq!(ledger.book().counter(), 6);
    assert_eq!(ledger.book().get(2), None);
}

#[test]
fn fill_sets_lender_and_start_time() {
    let mut ledger = ledger_with_open_position();
    assert_eq!(
        execute_fill_position(&mut ledger, &env(1_000), &info("bob", &[("untrn", 1_000_000)]), 1, 1_000_000),
        moved(vec![send("alice", "untrn", 1_000_000)])
    );
    let position = ledger.book().get(1).unwrap();
    assert_eq!(position.lender, Some(s("bob")));
    assert!(position.filled);
    assert_eq!(position.start_time, 1_000);
    assert_eq!(position.borrower, s("alice"));
    assert_eq!(position.amount, 1_000_000);
    assert_eq!(position.collateral, 2_000_000);
}

#[test]
fn fill_of_contract_token_pulls_from_the_lender() {
    let mut ledger = new_ledger();
    execute_borrow(&mut ledger, &env(10), &info("alice", &[("untrn", 9)]), s("token1"), 50, 1, s("untrn"), 9)
        .unwrap();
    assert_eq!(
        execute_fill_position(&mut ledger, &env(11), &info("bob", &[]), 1, 50),
        moved(vec![transfer_from("token1", "bob", "alice", 50)])
    );
}

#[test]
fn fill_of_filled_position_is_refused() {
    let mut ledger = ledger_with_filled_position();
    let before = snapshot(&ledger);
    for amount in [1_000_000u128, 1, 0] {
        assert_eq!(
            execute_fill_position(&mut ledger, &env(2_000), &info("carol", &[("untrn", amount)]), 1, amount),
            Err(ContractError::PositionAlreadyFilled)
        );
        assert_eq!(
            execute_fill_position(&mut ledger, &env(2_000), &info("bob", &[]), 1, amount),
            Err(ContractError::PositionAlreadyFilled)
        );
    }
    assert_eq!(snapshot(&ledger), before);
}

#[test]
fn fill_with_other_amount_is_refused() {
    let mut ledger = ledger_with_open_position();
    let before = snapshot(&ledger);
    for amount in [999_999u128, 1_000_001, 0, u128::MAX] {
        assert_eq!(
            execute_fill_position(&mut ledger, &env(1_000), &info("bob", &[("untrn", amount)]), 1, amount),
            Err(ContractError::AmountMismatch)
        );
    }
    assert_eq!(snapshot(&ledger), before);
}

#[test]
fn fill_of_missing_position_is_not_found() {
    let mut ledger = ledger_with_open_position();
    let before = snapshot(&ledger);
    assert_eq!(
        execute_fill_position(&mut ledger, &env(1_000), &info("bob", &[("untrn", 5)]), 2, 5),
        Err(ContractError::NotFound)
    );
    assert_eq!(
        execute_fill_position(&mut ledger, &env(1_000), &info("bob", &[("untrn", 5)]), 0, 5),
        Err(ContractError::NotFound)
    );
    assert_eq!(snapshot(&ledger), before);
}

#[test]
fn fill_needs_attached_principal() {
    let mut ledger = ledger_with_open_position();
    let before = snapshot(&ledger);
    assert_eq!(
        execute_fill_position(&mut ledger, &env(1_000), &info("bob", &[("untrn", 999_999)]), 1, 1_000_000),
        Err(ContractError::InsufficientFunds)
    );
    assert_eq!(snapshot(&ledger), before);
}

#[test]
fn repay_pays_debt_and_returns_collateral() {
    let mut ledger = ledger_with_filled_position();
    let res = execute_repay(
        &mut ledger,
        &env(1_000 + HALF_YEAR),
        &info("alice", &[("untrn", 1_005_000)]),
        1,
    );
    assert_eq!(
        res,
        moved(vec![send("bob", "untrn", 1_005_000), transfer("token1", "alice", 2_000_000)])
    );
    assert_eq!(ledger.book().get(1), None);
    assert!(ledger.book().page(None, None).is_empty());
    assert_eq!(ledger.book().counter(), 1);
}

#[test]
fn repay_at_once_owes_the_principal() {
    let mut ledger = ledger_with_filled_position();
    assert_eq!(
        execute_repay(&mut ledger, &env(1_000), &info("alice", &[("untrn", 1_000_000)]), 1),
        moved(vec![send("bob", "untrn", 1_000_000), transfer("token1", "alice", 2_000_000)])
    );
}

#[test]
fn repay_is_refused_in_order() {
    let mut ledger = ledger_with_filled_position();
    execute_borrow(&mut ledger, &env(10), &info("alice", &[]), s("token1"), 5, 1, s("token1"), 5).unwrap();
    let before = snapshot(&ledger);
    let late = env(1_000 + HALF_YEAR);
    assert_eq!(
        execute_repay(&mut ledger, &late, &info("alice", &[("untrn", 9_000_000)]), 9),
        Err(ContractError::NotFound)
    );
    assert_eq!(
        execute_repay(&mut ledger, &late, &info("bob", &[("untrn", 9_000_000)]), 1),
        Err(ContractError::NotBorrower)
    );
    // the borrower is checked before the fill
    assert_eq!(
        execute_repay(&mut ledger, &late, &info("bob", &[]), 2),
        Err(ContractError::NotBorrower)
    );
    assert_eq!(
        execute_repay(&mut ledger, &late, &info("alice", &[]), 2),
        Err(ContractError::PositionNotFilled)
    );
    assert_eq!(
        execute_repay(&mut ledger, &late, &info("alice", &[("untrn", 1_004_999)]), 1),
        Err(ContractError::InsufficientFunds)
    );
    assert_eq!(snapshot(&ledger), before);
}

#[test]
fn repay_of_contract_token_pulls_from_the_borrower() {
    let mut ledger = new_ledger();
    execute_borrow(&mut ledger, &env(10), &info("alice", &[("untrn", 9)]), s("token1"), 50, 1, s("untrn"), 9)
        .unwrap();
    execute_fill_position(&mut ledger, &env(11), &info("bob", &[]), 1, 50).unwrap();
    assert_eq!(
        execute_repay(&mut ledger, &env(11), &info("alice", &[]), 1),
        moved(vec![transfer_from("token1", "alice", "bob", 50), send("alice", "untrn", 9)])
    );
}

#[test]
fn liquidate_splits_debt_and_collateral() {
    let mut ledger = ledger_with_filled_position();
    let oracle = oracle_with(&[("token1", 0)]);
    let res = execute_liquidate(
        &mut ledger,
        &oracle,
        &env(1_000 + HALF_YEAR),
        &info("larry", &[("untrn", 1_005_000)]),
        1,
    );
    assert_eq!(
        res,
        moved(vec![
            send("pool", "untrn", 1_005_000),
            send("bob", "untrn", 100_500),
            transfer("token1", "larry", 1_900_000),
        ])
    );
    assert_eq!(ledger.book().get(1), None);
    assert_eq!(ledger.book().counter(), 1);
}

#[test]
fn liquidate_of_contract_debt_pulls_and_pays_on() {
    let mut ledger = new_ledger();
    execute_borrow(&mut ledger, &env(10), &info("alice", &[("untrn", 100)]), s("token1"), 200, 1, s("untrn"), 100)
        .unwrap();
    execute_fill_position(&mut ledger, &env(11), &info("bob", &[]), 1, 200).unwrap();
    // value 100 against 200 * 150 / 100 = 300
    let oracle = oracle_with(&[("untrn", 1)]);
    assert_eq!(
        execute_liquidate(&mut ledger, &oracle, &env(11), &info("larry", &[]), 1),
        moved(vec![
            transfer_from("token1", "larry", "pool", 200),
            transfer("token1", "bob", 20),
            send("larry", "untrn", 95),
        ])
    );
}

#[test]
fn liquidate_of_healthy_position_is_refused() {
    let mut ledger = ledger_with_filled_position();
    let before = snapshot(&ledger);
    let late = env(1_000 + HALF_YEAR);
    // debt 1_005_000 scaled by 150 percent is 1_507_500
    for price in [1u128, 2, 1_000] {
        let oracle = oracle_with(&[("token1", price)]);
        assert_eq!(
            execute_liquidate(&mut ledger, &oracle, &late, &info("larry", &[("untrn", 1_005_000)]), 1),
            Err(ContractError::PositionHealthy)
        );
        assert_eq!(
            execute_liquidate(&mut ledger, &oracle, &late, &info("larry", &[]), 1),
            Err(ContractError::PositionHealthy)
        );
    }
    assert_eq!(snapshot(&ledger), before);
}

#[test]
fn liquidate_on_the_threshold_is_refused() {
    let mut ledger = new_ledger();
    execute_borrow(&mut ledger, &env(10), &info("alice", &[]), s("untrn"), 100, 0, s("token1"), 150).unwrap();
    execute_fill_position(&mut ledger, &env(11), &info("bob", &[("untrn", 100)]), 1, 100).unwrap();
    let oracle = oracle_with(&[("token1", 1)]);
    assert_eq!(
        execute_liquidate(&mut ledger, &oracle, &env(12), &info("larry", &[("untrn", 100)]), 1),
        Err(ContractError::PositionHealthy)
    );
    execute_borrow(&mut ledger, &env(10), &info("alice", &[]), s("untrn"), 100, 0, s("token1"), 149).unwrap();
    execute_fill_position(&mut ledger, &env(11), &info("bob", &[("untrn", 100)]), 2, 100).unwrap();
    assert_eq!(
        execute_liquidate(&mut ledger, &oracle, &env(12), &info("larry", &[("untrn", 100)]), 2),
        moved(vec![send("pool", "untrn", 100), send("bob", "untrn", 10), transfer("token1", "larry", 141)])
    );
}

#[test]
fn liquidate_is_refused_in_order() {
    let mut ledger = ledger_with_filled_position();
    execute_borrow(&mut ledger, &env(10), &info("alice", &[]), s("token1"), 5, 1, s("token1"), 5).unwrap();
    let before = snapshot(&ledger);
    let late = env(1_000 + HALF_YEAR);
    let priced = oracle_with(&[("token1", 0)]);
    let silent = oracle_with(&[("untrn", 0)]);
    assert_eq!(
        execute_liquidate(&mut ledger, &silent, &late, &info("larry", &[]), 9),
        Err(ContractError::NotFound)
    );
    assert_eq!(
        execute_liquidate(&mut ledger, &silent, &late, &info("larry", &[]), 2),
        Err(ContractError::PositionNotFilled)
    );
    assert_eq!(
        execute_liquidate(&mut ledger, &silent, &late, &info("larry", &[("untrn", 1_005_000)]), 1),
        Err(ContractError::OracleUnavailable)
    );
    assert_eq!(
        execute_liquidate(&mut ledger, &priced, &late, &info("larry", &[("untrn", 1_004_999)]), 1),
        Err(ContractError::InsufficientFunds)
    );
    assert_eq!(snapshot(&ledger), before);
}

#[test]
fn execute_dispatches_every_action() {
    let mut ledger = new_ledger();
    let oracle = oracle_with(&[("token1", 0)]);
    let admin = info("admin", &[]);
    assert_eq!(
        execute(&mut ledger, &oracle, &env(1), &admin, ExecuteMsg::AddToken { token: Token::Native(s("uosmo")) }),
        moved(vec![])
    );
    assert_eq!(
        execute(
            &mut ledger,
            &oracle,
            &env(2),
            &info("alice", &[("uosmo", 8)]),
            ExecuteMsg::Deposit { token: s("uosmo"), amount: 8 }
        ),
        moved(vec![send("pool", "uosmo", 8)])
    );
    assert_eq!(
        execute(&mut ledger, &oracle, &env(3), &info("alice", &[]), ExecuteMsg::Withdraw { token: s("uosmo"), amount: 3 }),
        moved(vec![send("alice", "uosmo", 3)])
    );
    let borrow = ExecuteMsg::Borrow {
        borrow_token: s("untrn"),
        amount: 1_000_000,
        interest_rate: 1,
        collateral_token: s("token1"),
        collateral: 2_000_000,
    };
    assert_eq!(
        execute(&mut ledger, &oracle, &env(4), &info("alice", &[]), borrow),
        Ok(Response {
            messages: vec![transfer_from("token1", "alice", "pool", 2_000_000)],
            position_id: Some(1),
        })
    );
    assert_eq!(
        execute(
            &mut ledger,
            &oracle,
            &env(1_000),
            &info("bob", &[("untrn", 1_000_000)]),
            ExecuteMsg::FillPosition { position_id: 1, amount: 1_000_000 }
        ),
        moved(vec![send("alice", "untrn", 1_000_000)])
    );
    assert_eq!(
        execute(&mut ledger, &oracle, &env(1_000), &info("bob", &[]), ExecuteMsg::Repay { position_id: 1 }),
        Err(ContractError::NotBorrower)
    );
    assert_eq!(
        execute(
            &mut ledger,
            &oracle,
            &env(1_000 + HALF_YEAR),
            &info("larry", &[("untrn", 1_005_000)]),
            ExecuteMsg::Liquidate { position_id: 1 }
        ),
        moved(vec![
            send("pool", "untrn", 1_005_000),
            send("bob", "untrn", 100_500),
            transfer("token1", "larry", 1_900_000),
        ])
    );
    assert_eq!(ledger.accounts().entries(), vec![(s("alice"), s("uosmo"), 5)]);
}

#[test]
fn action_out_of_range_is_not_performed() {
    let mut ledger = new_ledger();
    let oracle = oracle_with(&[("token1", 1)]);
    execute_deposit(&mut ledger, &env(5), &info("alice", &[]), s("token1"), u128::MAX).unwrap();
    let before = snapshot(&ledger);
    assert!(!deposit_fits(&ledger, &info("alice", &[]), &s("token1"), 1));
    assert!(deposit_fits(&ledger, &info("alice", &[]), &s("token1"), 0));
    assert!(deposit_fits(&ledger, &info("bob", &[]), &s("token1"), 1));
    // a refusal comes before the addition
    assert!(deposit_fits(&ledger, &info("alice", &[]), &s("nope"), 1));
    let msg = ExecuteMsg::Deposit { token: s("token1"), amount: 1 };
    assert!(!execute_fits(&ledger, &oracle, &env(6), &info("alice", &[]), &msg));
    assert_eq!(try_execute(&mut ledger, &oracle, &env(6), &info("alice", &[]), msg), None);
    assert_eq!(snapshot(&ledger), before);
    let msg = ExecuteMsg::Deposit { token: s("nope"), amount: 1 };
    assert_eq!(
        try_execute(&mut ledger, &oracle, &env(6), &info("alice", &[]), msg),
        Some(Err(ContractError::UnsupportedToken))
    );
    let msg = ExecuteMsg::Withdraw { token: s("token1"), amount: u128::MAX };
    assert_eq!(
        try_execute(&mut ledger, &oracle, &env(6), &info("alice", &[]), msg),
        Some(moved(vec![transfer("token1", "alice", u128::MAX)]))
    );
    assert!(ledger.accounts().entries().is_empty());
}

#[test]
fn debt_out_of_range_is_not_judged() {
    let mut ledger = new_ledger();
    let oracle = oracle_with(&[("token1", 1)]);
    execute_borrow(&mut ledger, &env(10), &info("alice", &[]), s("untrn"), u128::MAX, 2, s("token1"), 5).unwrap();
    execute_fill_position(&mut ledger, &env(1_000), &info("bob", &[("untrn", u128::MAX)]), 1, u128::MAX)
        .unwrap();
    let before = snapshot(&ledger);
    assert!(!repay_fits(&ledger, &env(1_000), &info("alice", &[]), 1));
    // only the borrower reaches the formula
    assert!(repay_fits(&ledger, &env(1_000), &info("bob", &[]), 1));
    assert!(repay_fits(&ledger, &env(1_000), &info("alice", &[]), 2));
    assert!(!liquidate_fits(&ledger, &oracle, &env(1_000), 1));
    assert!(liquidate_fits(&ledger, &oracle_with(&[]), &env(1_000), 1));
    assert_eq!(
        try_execute(&mut ledger, &oracle, &env(1_000), &info("alice", &[]), ExecuteMsg::Repay { position_id: 1 }),
        None
    );
    assert_eq!(
        try_execute(&mut ledger, &oracle, &env(1_000), &info("larry", &[]), ExecuteMsg::Liquidate { position_id: 1 }),
        None
    );
    assert_eq!(
        try_execute(&mut ledger, &oracle, &env(1_000), &info("bob", &[]), ExecuteMsg::Repay { position_id: 1 }),
        Some(Err(ContractError::NotBorrower))
    );
    assert_eq!(snapshot(&ledger), before);
}

#[test]
fn time_before_the_fill_is_out_of_range() {
    let mut ledger = ledger_with_filled_position();
    let oracle = oracle_with(&[("token1", 0)]);
    assert!(!repay_fits(&ledger, &env(999), &info("alice", &[]), 1));
    assert!(!liquidate_fits(&ledger, &oracle, &env(999), 1));
    assert!(repay_fits(&ledger, &env(1_000), &info("alice", &[]), 1));
    assert!(liquidate_fits(&ledger, &oracle, &env(1_000), 1));
    assert_eq!(
        try_execute(&mut ledger, &oracle, &env(999), &info("alice", &[]), ExecuteMsg::Repay { position_id: 1 }),
        None
    );
}

#[test]
fn counter_at_its_end_opens_no_position() {
    let mut ledger =
        Ledger::restore(
            Config { admin: s("admin"), liquidation_threshold: 150, mock_oracle: s("oracle") },
            vec![TokenConfig { token: Token::Native(s("untrn")), is_supported: true }],
            vec![],
            u128::MAX,
            vec![],
        )
        .unwrap();
    assert!(!borrow_fits(&ledger, &info("alice", &[("untrn", 1)]), &s("untrn"), &s("untrn"), 1));
    assert!(borrow_fits(&ledger, &info("alice", &[]), &s("untrn"), &s("untrn"), 1));
    let msg = ExecuteMsg::Borrow {
        borrow_token: s("untrn"),
        amount: 1,
        interest_rate: 1,
        collateral_token: s("untrn"),
        collateral: 1,
    };
    let oracle = oracle_with(&[]);
    assert_eq!(try_execute(&mut ledger, &oracle, &env(1), &info("alice", &[("untrn", 1)]), msg), None);
    assert_eq!(ledger.book().counter(), u128::MAX);
}

#[test]
fn ledger_is_restored_from_its_parts() {
    let mut ledger = ledger_with_filled_position();
    execute_deposit(&mut ledger, &env(5), &info("alice", &[]), s("token1"), 40).unwrap();
    execute_deposit(&mut ledger, &env(5), &info("bob", &[("uatom", 2)]), s("uatom"), 2).unwrap();
    let (config, tokens, deposits, positions, counter) = snapshot(&ledger);
    let restored =
        Ledger::restore(config.clone(), tokens.clone(), deposits.clone(), counter, positions.clone()).unwrap();
    assert_eq!(snapshot(&restored), snapshot(&ledger));
    // a balance in a token that is not registered
    let mut orphan = deposits.clone();
    orphan.push((s("carol"), s("uosmo"), 1));
    assert!(Ledger::restore(config.clone(), tokens.clone(), orphan, counter, positions.clone()).is_none());
    // a counter behind the positions
    assert!(Ledger::restore(config.clone(), tokens.clone(), deposits.clone(), 0, positions.clone()).is_none());
    // a stored balance of zero leaves no entry
    let mut zero = deposits.clone();
    zero.push((s("carol"), s("untrn"), 0));
    let restored = Ledger::restore(config, tokens, zero, counter, positions).unwrap();
    assert_eq!(snapshot(&restored), snapshot(&ledger));
}
