//! The decisions of a liquidation client: which positions to liquidate,
//! what to attach to the call, how to walk the pages of positions, and when
//! to give up on a broadcast.
//!
//! The client itself talks to a node; here is what it decides between one
//! exchange and the next.
use crate::interest::{health_in_range, is_undercollateralized, total_debt};
use crate::model::{accrual_in_range, debt_at, liquidatable};
use crate::state::{coins_view, Coin, CoinView, Position, PositionView, Token, TokenView};
use vstd::prelude::*;

verus! {

/// Number of positions asked for per page.
pub const PAGE_SIZE: u32 = 100;

/// Number of positions judged per batch.
pub const BATCH_SIZE: usize = 50;

/// The liquidation threshold the client assumes, in percent.
pub const ASSUMED_THRESHOLD: u128 = 150;

/// Number of times a transaction is broadcast before the client gives up.
pub const BROADCAST_ATTEMPTS: u32 = 3;

/// Seconds to wait between two broadcasts of one transaction.
pub const RETRY_DELAY_SECONDS: u64 = 1;

/// Number of blocks after which a transaction times out.
pub const TIMEOUT_BLOCKS: u64 = 100;

/// What the client does with a position.
#[derive(Clone, Copy, Debug, PartialEq, Eq, Structural)]
pub enum Verdict {
    /// The position is not filled: nothing to judge.
    Skip,
    /// The collateral covers the debt.
    Healthy,
    /// The collateral falls short: liquidate, paying `total_debt`.
    Liquidate { total_debt: u128 },
}

/// The verdict on `position` at `now`, its collateral priced at `price`.
pub open spec fn verdict_spec(position: PositionView, price: u128, now: u64) -> Verdict {
    if !position.filled {
        Verdict::Skip
    } else if liquidatable(position, price, 150, now) {
        Verdict::Liquidate { total_debt: debt_at(position, now) }
    } else {
        Verdict::Healthy
    }
}

/// The verdict on `position` can be computed within 128 bits.
pub open spec fn verdict_in_range(position: PositionView, price: u128, now: u64) -> bool {
    position.filled ==> accrual_in_range(position, now) && health_in_range(
        position.collateral as int,
        price as int,
        debt_at(position, now) as int,
        150,
    )
}

/// The client liquidates exactly the filled positions that a ledger with a
/// threshold of 150 percent lets it liquidate.
pub proof fn lemma_verdict_follows_ledger(position: PositionView, price: u128, now: u64)
    ensures
        verdict_spec(position, price, now) is Liquidate <==> position.filled && liquidatable(
            position,
            price,
            150,
            now,
        ),
        verdict_spec(position, price, now) matches Verdict::Liquidate { total_debt } ==> total_debt
            == debt_at(position, now),
{
}

/// The identifier whose price the client needs to judge `position`: that of
/// the collateral token of a filled position.
pub fn priced_token(position: &Position) -> (res: Option<String>)
    ensures
        res is Some <==> position@.filled,
        res matches Some(id) ==> id@ == position@.collateral_token.identifier(),
{
    if position.filled {
        Some(position.collateral_token.identifier().clone())
    } else {
        None
    }
}

/// Judges `position` at `now`, its collateral priced at `price`; `None`
/// where the arithmetic leaves 128 bits.
pub fn assess(position: &Position, price: u128, now: u64) -> (res: Option<Verdict>)
    ensures
        res == if verdict_in_range(position@, price, now) {
            Some(verdict_spec(position@, price, now))
        } else {
            None::<Verdict>
        },
{
    if !position.filled {
        return Some(Verdict::Skip);
    }
    if now < position.start_time {
        return None;
    }
    let debt: u128 = match total_debt(
        position.amount,
        position.interest_rate,
        now - position.start_time,
    ) {
        Some(debt) => debt,
        None => {
            return None;
        },
    };
    match is_undercollateralized(position.collateral, price, debt, ASSUMED_THRESHOLD) {
        None => None,
        Some(true) => Some(Verdict::Liquidate { total_debt: debt }),
        Some(false) => Some(Verdict::Healthy),
    }
}

/// The coins a liquidator attaches to pay `total_debt` of `token`: the debt
/// itself for a native token, nothing for a contract-managed one.
pub open spec fn liquidation_funds_spec(token: TokenView, total_debt: u128) -> Seq<CoinView> {
    match token {
        TokenView::Native(denom) => seq![CoinView { denom, amount: total_debt }],
        TokenView::Cw20(_) => seq![],
    }
}

/// The coins to attach to the liquidation of a position borrowed in
/// `borrow_token`.
pub fn liquidation_funds(borrow_token: &Token, total_debt: u128) -> (funds: Vec<Coin>)
    ensures
        coins_view(funds@) == liquidation_funds_spec(borrow_token@, total_debt),
{
    let funds = match borrow_token {
        Token::Native(denom) => vec![Coin { denom: denom.clone(), amount: total_debt }],
        Token::Cw20(_) => Vec::new(),
    };
    proof {
        assert(coins_view(funds@) =~= liquidation_funds_spec(borrow_token@, total_debt));
    }
    funds
}

/// Where to go on after a page of positions: after the last identifier of a
/// full page, nowhere after a page that is not full.
pub fn next_cursor(page: &Vec<(u128, Position)>) -> (res: Option<u128>)
    ensures
        res == if page@.len() < 100 {
            None::<u128>
        } else {
            Some(page@.last().0)
        },
{
    if page.len() < PAGE_SIZE as usize {
        None
    } else {
        Some(page[page.len() - 1].0)
    }
}

/// What follows a broadcast.
#[derive(Clone, Copy, Debug, PartialEq, Eq, Structural)]
pub enum BroadcastStep {
    /// The transaction was accepted.
    Done,
    /// Wait `seconds`, then broadcast again.
    Retry { seconds: u64 },
    /// The last attempt failed too.
    GiveUp,
}

/// What follows the `attempt`-th broadcast (counted from 1), which was
/// `accepted` or not: a failed one is repeated after a second until the
/// third has failed.
pub fn after_broadcast(attempt: u32, accepted: bool) -> (res: BroadcastStep)
    ensures
        res == if accepted {
            BroadcastStep::Done
        } else if attempt < 3 {
            BroadcastStep::Retry { seconds: 1 }
        } else {
            BroadcastStep::GiveUp
        },
{
    if accepted {
        BroadcastStep::Done
    } else if attempt < BROADCAST_ATTEMPTS {
        BroadcastStep::Retry { seconds: RETRY_DELAY_SECONDS }
    } else {
        BroadcastStep::GiveUp
    }
}

/// The height at which a transaction built at `current_height` times out;
/// `None` where it leaves 64 bits.
pub fn timeout_height(current_height: u64) -> (res: Option<u64>)
    ensures
        res == if current_height + 100 <= u64::MAX {
            Some((current_height + 100) as u64)
        } else {
            None::<u64>
        },
{
    current_height.checked_add(TIMEOUT_BLOCKS)
}

} // verus!
