//! Range checks: whether the arithmetic of an action stays within 128 bits
//! on the given state, and an entry point that checks before it acts.
use crate::contract::{applied, execute, Ledger};
use crate::error::ContractError;
use crate::interest::{is_undercollateralized, liquidation_split, total_debt};
use crate::model::{borrow_in_range, deposit_in_range, execute_in_range, execute_spec};
use crate::model::{liquidate_in_range, repay_in_range};
use crate::msg::{ExecuteMsg, Response};
use crate::oracle::{get_price, PriceOracle};
use crate::state::{Env, MessageInfo};
use vstd::prelude::*;

verus! {

/// Whether a deposit of `amount` of `token` by the caller keeps the balance
/// within 128 bits.
pub fn deposit_fits(ledger: &Ledger, info: &MessageInfo, token: &String, amount: u128) -> (res: bool)
    requires
        ledger.wf(),
    ensures
        res == deposit_in_range(ledger@, info@, token@, amount),
{
    if !ledger.registry().is_supported(token) {
        return true;
    }
    let resolved = ledger.registry().resolve(token).unwrap();
    if !resolved.is_covered(&info.funds, amount) {
        return true;
    }
    ledger.accounts().balance(&info.sender, token).checked_add(amount).is_some()
}

/// Whether the position counter has a successor for the position that the
/// caller asks to open.
pub fn borrow_fits(
    ledger: &Ledger,
    info: &MessageInfo,
    borrow_token: &String,
    collateral_token: &String,
    collateral: u128,
) -> (res: bool)
    requires
        ledger.wf(),
    ensures
        res == borrow_in_range(ledger@, info@, borrow_token@, collateral_token@, collateral),
{
    if !ledger.registry().is_supported(borrow_token) || !ledger.registry().is_supported(
        collateral_token,
    ) {
        return true;
    }
    let resolved = ledger.registry().resolve(collateral_token).unwrap();
    if !resolved.is_covered(&info.funds, collateral) {
        return true;
    }
    ledger.book().counter() < u128::MAX
}

/// Whether the debt of the position that the caller asks to repay can be
/// computed within 128 bits at the time of the block.
pub fn repay_fits(ledger: &Ledger, env: &Env, info: &MessageInfo, position_id: u128) -> (res: bool)
    requires
        ledger.wf(),
    ensures
        res == repay_in_range(ledger@, env@, info@, position_id),
{
    let position = match ledger.book().get(position_id) {
        Some(position) => position,
        None => {
            return true;
        },
    };
    if position.borrower != info.sender || !position.filled {
        return true;
    }
    if env.block_time < position.start_time {
        return false;
    }
    total_debt(
        position.amount,
        position.interest_rate,
        env.block_time - position.start_time,
    ).is_some()
}

/// Whether the position `position_id` can be judged, and where it is short
/// of collateral liquidated, within 128 bits at the time of the block and
/// the oracle's price.
pub fn liquidate_fits(ledger: &Ledger, oracle: &PriceOracle, env: &Env, position_id: u128) -> (res:
    bool)
    requires
        ledger.wf(),
        oracle.wf(),
    ensures
        res == liquidate_in_range(ledger@, oracle@, env@, position_id),
{
    let position = match ledger.book().get(position_id) {
        Some(position) => position,
        None => {
            return true;
        },
    };
    if !position.filled {
        return true;
    }
    let price: u128 = match get_price(oracle, position.collateral_token.identifier()) {
        Ok(answer) => answer.price,
        Err(_) => {
            return true;
        },
    };
    if env.block_time < position.start_time {
        return false;
    }
    let debt: u128 = match total_debt(
        position.amount,
        position.interest_rate,
        env.block_time - position.start_time,
    ) {
        Some(debt) => debt,
        None => {
            return false;
        },
    };
    match is_undercollateralized(
        position.collateral,
        price,
        debt,
        ledger.config().liquidation_threshold,
    ) {
        None => false,
        Some(false) => true,
        Some(true) => liquidation_split(debt, position.collateral).is_some(),
    }
}

/// Whether the arithmetic of the action `msg` stays within 128 bits.
pub fn execute_fits(
    ledger: &Ledger,
    oracle: &PriceOracle,
    env: &Env,
    info: &MessageInfo,
    msg: &ExecuteMsg,
) -> (res: bool)
    requires
        ledger.wf(),
        oracle.wf(),
    ensures
        res == execute_in_range(ledger@, oracle@, env@, info@, msg@),
{
    match msg {
        ExecuteMsg::AddToken { .. } => true,
        ExecuteMsg::Deposit { token, amount } => deposit_fits(ledger, info, token, *amount),
        ExecuteMsg::Borrow { borrow_token, collateral_token, collateral, .. } => borrow_fits(
            ledger,
            info,
            borrow_token,
            collateral_token,
            *collateral,
        ),
        ExecuteMsg::Withdraw { .. } => true,
        ExecuteMsg::FillPosition { .. } => true,
        ExecuteMsg::Repay { position_id } => repay_fits(ledger, env, info, *position_id),
        ExecuteMsg::Liquidate { position_id } => liquidate_fits(ledger, oracle, env, *position_id),
    }
}

/// Performs the action `msg` where its arithmetic stays within 128 bits,
/// and does nothing where it does not.
pub fn try_execute(
    ledger: &mut Ledger,
    oracle: &PriceOracle,
    env: &Env,
    info: &MessageInfo,
    msg: ExecuteMsg,
) -> (res: Option<Result<Response, ContractError>>)
    requires
        old(ledger).wf(),
        oracle.wf(),
    ensures
        final(ledger).wf(),
        execute_in_range(old(ledger)@, oracle@, env@, info@, msg@) ==> res is Some && applied(
            res->Some_0,
            final(ledger)@,
            old(ledger)@,
            execute_spec(old(ledger)@, oracle@, env@, info@, msg@),
        ),
        !execute_in_range(old(ledger)@, oracle@, env@, info@, msg@) ==> res is None && final(ledger)@ == old(ledger)@,
{
    if execute_fits(ledger, oracle, env, info, &msg) {
        Some(execute(ledger, oracle, env, info, msg))
    } else {
        None
    }
}

} // verus!
