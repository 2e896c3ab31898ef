//! Laws of the ledger: what holds of every state it reaches and of every
//! sequence of actions, proved of the state machine in [`crate::model`].
use crate::accounts::{balance_of, lemma_set_all_restores, set_all};
use crate::assoc::{distinct_keys, lemma_lookup, to_map};
use crate::book::{ascending, is_page, lists_id, page_limit, restorable};
use crate::error::ContractError;
use crate::model::{borrow_spec, deposit_in_range, deposit_spec, execute_in_range, execute_spec};
use crate::model::{fill_position_spec, instantiate_spec, liquidate_spec, register_all};
use crate::model::{withdraw_spec, LedgerView, Outcome};
use crate::msg::{ExecuteMsgView, InstantiateMsgView};
use crate::oracle::PriceOracleView;
use crate::registry::{lemma_store_all_restores, lists_registry, store_all, TokenConfigView};
use crate::state::{EnvView, MessageInfoView, PositionView, TokenView};
use vstd::prelude::*;

verus! {

/// One action as it reaches the ledger: the message, its sender and funds,
/// the block it runs in, and the prices the oracle holds at that time.
pub struct Call {
    pub oracle: PriceOracleView,
    pub env: EnvView,
    pub info: MessageInfoView,
    pub msg: ExecuteMsgView,
}

/// The outcome of `call` on the state `s`; an action whose arithmetic
/// leaves 128 bits is not performed.
pub open spec fn outcome_of(s: LedgerView, call: Call) -> Option<Outcome> {
    if execute_in_range(s, call.oracle, call.env, call.info, call.msg) {
        Some(execute_spec(s, call.oracle, call.env, call.info, call.msg))
    } else {
        None
    }
}

/// The state after `call`: the new state where the action is applied, the
/// old one where it is refused or not performed.
pub open spec fn step(s: LedgerView, call: Call) -> LedgerView {
    match outcome_of(s, call) {
        Some(Ok((state, _))) => state,
        _ => s,
    }
}

/// The identifier of the position that `call` opens, if it opens one.
pub open spec fn opened_by(s: LedgerView, call: Call) -> Option<u128> {
    match outcome_of(s, call) {
        Some(Ok((_, response))) => response.position_id,
        _ => None,
    }
}

/// The state after the actions `calls`, one after the other.
pub open spec fn run(s: LedgerView, calls: Seq<Call>) -> LedgerView
    decreases calls.len(),
{
    if calls.len() == 0 {
        s
    } else {
        step(run(s, calls.drop_last()), calls.last())
    }
}

/// The identifiers of the positions that the actions `calls` open, in the
/// order in which they are opened.
pub open spec fn issued(s: LedgerView, calls: Seq<Call>) -> Seq<u128>
    decreases calls.len(),
{
    if calls.len() == 0 {
        Seq::empty()
    } else {
        match opened_by(run(s, calls.drop_last()), calls.last()) {
            Some(id) => issued(s, calls.drop_last()).push(id),
            None => issued(s, calls.drop_last()),
        }
    }
}

/// Registering tokens keeps every token under its own identifier.
proof fn lemma_register_all_keyed(registry: Map<Seq<char>, TokenConfigView>, tokens: Seq<TokenView>)
    requires
        forall|id: Seq<char>| #[trigger]
            registry.dom().contains(id) ==> registry[id].token.identifier() == id,
    ensures
        forall|id: Seq<char>| #[trigger]
            register_all(registry, tokens).dom().contains(id) ==> register_all(
                registry,
                tokens,
            )[id].token.identifier() == id,
    decreases tokens.len(),
{
    if tokens.len() > 0 {
        lemma_register_all_keyed(registry, tokens.drop_last());
    }
}

/// A ledger is created in a state that satisfies the invariant, with no
/// position and no balance.
pub proof fn lemma_instantiate_establishes_inv(sender: Seq<char>, msg: InstantiateMsgView)
    ensures
        instantiate_spec(sender, msg).inv(),
        instantiate_spec(sender, msg).position_counter == 0,
{
    lemma_register_all_keyed(Map::empty(), msg.initial_tokens);
}

/// Every action keeps the invariant: whatever is applied, refused or not
/// performed, position identifiers stay within the counter, positions stay
/// well formed, no balance is zero, and every balance is in a registered
/// token.
pub proof fn lemma_step_preserves_inv(s: LedgerView, call: Call)
    requires
        s.inv(),
    ensures
        step(s, call).inv(),
{
    let t = step(s, call);
    assert forall|id: u128| #[trigger] t.book().positions.dom().contains(id) implies 1 <= id
        <= t.book().counter && t.book().positions[id].wf() by {
        if s.book().positions.dom().contains(id) {
        }
    }
}

/// Every filled position of `s` carries a positive fill time.
pub open spec fn fills_are_timed(s: LedgerView) -> bool {
    forall|id: u128| #[trigger]
        s.positions.dom().contains(id) && s.positions[id].filled ==> s.positions[id].start_time > 0
}

/// Where every action runs in a block whose time is positive, every filled
/// position carries a positive fill time: a position is then filled exactly
/// when it has a lender and a positive fill time.
pub proof fn lemma_step_preserves_fill_times(s: LedgerView, call: Call)
    requires
        fills_are_timed(s),
        call.env.block_time > 0,
    ensures
        fills_are_timed(step(s, call)),
{
    let t = step(s, call);
    assert forall|id: u128| #[trigger]
        t.positions.dom().contains(id) && t.positions[id].filled implies t.positions[id].start_time
        > 0 by {
        if s.positions.dom().contains(id) {
        }
    }
}

/// No action changes the settings: administrator, oracle and liquidation
/// threshold stay what they were at creation.
pub proof fn lemma_config_is_fixed(s: LedgerView, calls: Seq<Call>)
    ensures
        run(s, calls).config == s.config,
    decreases calls.len(),
{
    if calls.len() > 0 {
        lemma_config_is_fixed(s, calls.drop_last());
    }
}

/// No action takes a token out of the registry or withdraws its
/// acceptance: a token that is accepted stays accepted.
pub proof fn lemma_supported_stays_supported(s: LedgerView, call: Call, token: Seq<char>)
    requires
        s.supports(token),
    ensures
        step(s, call).supports(token),
{
}

/// A position that was closed is never reopened: an identifier that the
/// counter has handed out and that is no longer in use stays out of use.
pub proof fn lemma_closed_stays_closed(s: LedgerView, call: Call, id: u128)
    requires
        id <= s.position_counter,
        !s.positions.dom().contains(id),
    ensures
        !step(s, call).positions.dom().contains(id),
        id <= step(s, call).position_counter,
{
}

/// A position changes only in one way while it exists: an open position is
/// filled. Whoever acts and whatever they do, borrower, tokens, principal,
/// rate and collateral of a position stay what they were when it was
/// opened, and a filled position keeps its lender and its fill time.
pub proof fn lemma_position_terms_are_fixed(s: LedgerView, call: Call, id: u128)
    requires
        s.inv(),
        s.positions.dom().contains(id),
        step(s, call).positions.dom().contains(id),
    ensures
        step(s, call).positions[id].borrower == s.positions[id].borrower,
        step(s, call).positions[id].borrow_token == s.positions[id].borrow_token,
        step(s, call).positions[id].collateral_token == s.positions[id].collateral_token,
        step(s, call).positions[id].amount == s.positions[id].amount,
        step(s, call).positions[id].interest_rate == s.positions[id].interest_rate,
        step(s, call).positions[id].collateral == s.positions[id].collateral,
        s.positions[id].filled ==> step(s, call).positions[id] == s.positions[id],
{
    assert(s.book().positions.dom().contains(id));
}

/// Every state that a sequence of actions reaches satisfies the invariant.
pub proof fn lemma_run_preserves_inv(s: LedgerView, calls: Seq<Call>)
    requires
        s.inv(),
    ensures
        run(s, calls).inv(),
    decreases calls.len(),
{
    if calls.len() > 0 {
        lemma_run_preserves_inv(s, calls.drop_last());
        lemma_step_preserves_inv(run(s, calls.drop_last()), calls.last());
    }
}

/// An action that opens a position hands out the successor of the counter
/// and moves the counter to it; any other action leaves the counter alone.
pub proof fn lemma_step_counts(s: LedgerView, call: Call)
    ensures
        match opened_by(s, call) {
            Some(id) => id == s.position_counter + 1 && step(s, call).position_counter == id,
            None => step(s, call).position_counter == s.position_counter,
        },
{
}

/// Position identifiers are handed out densely and in strictly ascending
/// order: over any sequence of actions, the `i`-th position opened gets the
/// identifier `counter + 1 + i`, where `counter` is the counter before the
/// first action, and the counter ends at the identifier handed out last.
pub proof fn lemma_ids_are_dense(s: LedgerView, calls: Seq<Call>)
    ensures
        run(s, calls).position_counter == s.position_counter + issued(s, calls).len(),
        forall|i: int|
            0 <= i < issued(s, calls).len() ==> (#[trigger] issued(s, calls)[i])
                == s.position_counter + 1 + i,
    decreases calls.len(),
{
    if calls.len() > 0 {
        lemma_ids_are_dense(s, calls.drop_last());
        lemma_step_counts(run(s, calls.drop_last()), calls.last());
    }
}

/// On a ledger that was just created, the positions opened by any sequence
/// of actions are numbered 1, 2, 3, ... in the order in which they are
/// opened: identifiers start at 1, ascend strictly and are never used twice.
pub proof fn lemma_ids_start_at_one(sender: Seq<char>, msg: InstantiateMsgView, calls: Seq<Call>)
    ensures
        forall|i: int|
            0 <= i < issued(instantiate_spec(sender, msg), calls).len() ==> (#[trigger] issued(
                instantiate_spec(sender, msg),
                calls,
            )[i]) == i + 1,
        forall|i: int, j: int|
            0 <= i < j < issued(instantiate_spec(sender, msg), calls).len() ==> (#[trigger] issued(
                instantiate_spec(sender, msg),
                calls,
            )[i]) < (#[trigger] issued(instantiate_spec(sender, msg), calls)[j]),
{
    lemma_ids_are_dense(instantiate_spec(sender, msg), calls);
}

/// A borrow that is applied stores, under the identifier it hands back, a
/// position that is not filled, has no lender and carries no fill time.
pub proof fn lemma_borrow_opens_unfilled(
    s: LedgerView,
    env: EnvView,
    info: MessageInfoView,
    borrow_token: Seq<char>,
    amount: u128,
    interest_rate: u128,
    collateral_token: Seq<char>,
    collateral: u128,
)
    ensures
        borrow_spec(
            s,
            env,
            info,
            borrow_token,
            amount,
            interest_rate,
            collateral_token,
            collateral,
        ) matches Ok((state, response)) ==> {
            &&& response.position_id matches Some(id)
            &&& state.positions.dom().contains(id)
            &&& state.positions[id].filled == false
            &&& state.positions[id].lender == None::<Seq<char>>
            &&& state.positions[id].start_time == 0
            &&& state.positions[id].borrower == info.sender
            &&& state.positions[id].amount == amount
            &&& state.positions[id].collateral == collateral
        },
{
}

/// Filling a position that is already filled is refused with
/// `PositionAlreadyFilled`, whatever the amount and the funds, and leaves
/// the state unchanged.
pub proof fn lemma_fill_refuses_filled(
    s: LedgerView,
    oracle: PriceOracleView,
    env: EnvView,
    info: MessageInfoView,
    position_id: u128,
    amount: u128,
)
    requires
        s.positions.dom().contains(position_id),
        s.positions[position_id].filled,
    ensures
        fill_position_spec(s, env, info, position_id, amount) == Err::<
            (LedgerView, crate::msg::ResponseView),
            ContractError,
        >(ContractError::PositionAlreadyFilled),
        step(
            s,
            Call { oracle, env, info, msg: ExecuteMsgView::FillPosition { position_id, amount } },
        ) == s,
{
}

/// Filling an open position with an amount other than its principal is
/// refused with `AmountMismatch` and leaves the state unchanged.
pub proof fn lemma_fill_refuses_other_amount(
    s: LedgerView,
    oracle: PriceOracleView,
    env: EnvView,
    info: MessageInfoView,
    position_id: u128,
    amount: u128,
)
    requires
        s.positions.dom().contains(position_id),
        !s.positions[position_id].filled,
        s.positions[position_id].lender is None,
        amount != s.positions[position_id].amount,
    ensures
        fill_position_spec(s, env, info, position_id, amount) == Err::<
            (LedgerView, crate::msg::ResponseView),
            ContractError,
        >(ContractError::AmountMismatch),
        step(
            s,
            Call { oracle, env, info, msg: ExecuteMsgView::FillPosition { position_id, amount } },
        ) == s,
{
}

/// Liquidating a filled position whose collateral has a price is refused
/// with `PositionHealthy`, and leaves the state unchanged, whenever the
/// value of the collateral reaches the debt scaled by the threshold
/// percentage.
pub proof fn lemma_liquidate_refuses_healthy(
    s: LedgerView,
    oracle: PriceOracleView,
    env: EnvView,
    info: MessageInfoView,
    position_id: u128,
)
    requires
        s.positions.dom().contains(position_id),
        s.positions[position_id].filled,
        oracle.price_of(s.positions[position_id].collateral_token.identifier()) is Some,
        s.positions[position_id].collateral * oracle.price_of(
            s.positions[position_id].collateral_token.identifier(),
        )->Some_0 >= crate::model::debt_at(s.positions[position_id], env.block_time)
            * s.config.liquidation_threshold / 100,
    ensures
        liquidate_spec(s, oracle, env, info, position_id) == Err::<
            (LedgerView, crate::msg::ResponseView),
            ContractError,
        >(ContractError::PositionHealthy),
        step(s, Call { oracle, env, info, msg: ExecuteMsgView::Liquidate { position_id } }) == s,
{
}

/// Withdrawing the whole balance of an accepted token is applied and
/// deletes the entry: the ledger stores no balance of zero.
pub proof fn lemma_withdraw_all_deletes_entry(
    s: LedgerView,
    info: MessageInfoView,
    token: Seq<char>,
    amount: u128,
)
    requires
        s.supports(token),
        amount == balance_of(s.deposits, info.sender, token),
    ensures
        withdraw_spec(s, info, token, amount) matches Ok((state, _))
            && !state.deposits.dom().contains((info.sender, token)),
{
}

/// A page holds at most 100 positions, whatever limit is asked for; its
/// identifiers ascend strictly; and none of them is the cursor or lies
/// before it.
pub proof fn lemma_page_is_bounded_and_ordered(
    list: Seq<(u128, PositionView)>,
    positions: Map<u128, PositionView>,
    start_after: Option<u128>,
    limit: Option<u32>,
)
    requires
        is_page(list, positions, start_after, limit),
    ensures
        list.len() <= 100,
        limit matches Some(n) ==> list.len() <= n,
        ascending(list),
        start_after matches Some(cursor) ==> forall|i: int|
            0 <= i < list.len() ==> (#[trigger] list[i]).0 > cursor,
        start_after matches Some(cursor) ==> !lists_id(list, cursor),
{
}

/// A page is determined by the positions, the cursor and the limit: two
/// lists that are both the page are the same list.
pub proof fn lemma_page_is_unique(
    a: Seq<(u128, PositionView)>,
    b: Seq<(u128, PositionView)>,
    positions: Map<u128, PositionView>,
    start_after: Option<u128>,
    limit: Option<u32>,
)
    requires
        is_page(a, positions, start_after, limit),
        is_page(b, positions, start_after, limit),
    ensures
        a == b,
{
    lemma_page_prefix(a, b, positions, start_after, limit);
    lemma_page_prefix(b, a, positions, start_after, limit);
    if a.len() <= b.len() {
        lemma_page_agree(a, b, positions, start_after, limit, a.len() as int);
    } else {
        lemma_page_agree(b, a, positions, start_after, limit, b.len() as int);
    }
    assert(a =~= b);
}

/// Two pages agree on their first `n` entries.
proof fn lemma_page_agree(
    a: Seq<(u128, PositionView)>,
    b: Seq<(u128, PositionView)>,
    positions: Map<u128, PositionView>,
    start_after: Option<u128>,
    limit: Option<u32>,
    n: int,
)
    requires
        is_page(a, positions, start_after, limit),
        is_page(b, positions, start_after, limit),
        0 <= n <= a.len(),
        n <= b.len(),
    ensures
        forall|i: int| 0 <= i < n ==> a[i] == b[i],
    decreases n,
{
    if n > 0 {
        lemma_page_agree(a, b, positions, start_after, limit, n - 1);
        let k = n - 1;
        // The identifier a[k] is listed in b, and b[k] in a: an identifier
        // missing from a page lies beyond all of a full page.
        let x = a[k].0;
        let y = b[k].0;
        assert(positions.dom().contains(x) && positions[x] == a[k].1);
        assert(positions.dom().contains(y) && positions[y] == b[k].1);
        if x != y {
            if x < y {
                // x is not in b: before position k, b agrees with a, whose
                // identifiers are below x; from k on, b's are at least y.
                assert(!lists_id(b, x)) by {
                    assert forall|i: int| 0 <= i < b.len() implies (#[trigger] b[i]).0 != x by {
                        if i < k {
                            assert(b[i] == a[i]);
                            assert(a[i].0 < a[k].0);
                        } else if i > k {
                            assert(b[k].0 < b[i].0);
                        }
                    }
                }
                assert(b[k].0 < x);
            } else {
                assert(!lists_id(a, y)) by {
                    assert forall|i: int| 0 <= i < a.len() implies (#[trigger] a[i]).0 != y by {
                        if i < k {
                            assert(a[i] == b[i]);
                            assert(b[i].0 < b[k].0);
                        } else if i > k {
                            assert(a[k].0 < a[i].0);
                        }
                    }
                }
                assert(a[k].0 < y);
            }
        }
    }
}

/// Of two pages neither is shorter than the other.
proof fn lemma_page_prefix(
    a: Seq<(u128, PositionView)>,
    b: Seq<(u128, PositionView)>,
    positions: Map<u128, PositionView>,
    start_after: Option<u128>,
    limit: Option<u32>,
)
    requires
        is_page(a, positions, start_after, limit),
        is_page(b, positions, start_after, limit),
    ensures
        a.len() <= b.len(),
{
    if a.len() > b.len() {
        lemma_page_agree(b, a, positions, start_after, limit, b.len() as int);
        let x = a[b.len() as int].0;
        assert(positions.dom().contains(x));
        assert(!lists_id(b, x)) by {
            assert forall|i: int| 0 <= i < b.len() implies (#[trigger] b[i]).0 != x by {
                assert(b[i] == a[i]);
                assert(a[i].0 < a[b.len() as int].0);
            }
        }
        assert(b.len() == page_limit(limit));
    }
}

/// A ledger is restored from what it hands out: the listing of its
/// registry, its balances with each key once, and its positions in
/// ascending order are parts that [`crate::contract::Ledger::restore`]
/// accepts, and that give back the registry, the balances and the positions
/// they were taken from.
pub proof fn lemma_export_restores(
    s: LedgerView,
    tokens: Seq<TokenConfigView>,
    deposits: Seq<((Seq<char>, Seq<char>), u128)>,
    positions: Seq<(u128, PositionView)>,
)
    requires
        s.inv(),
        lists_registry(tokens, s.tokens),
        distinct_keys(deposits),
        to_map(deposits) == s.deposits,
        restorable(positions, s.position_counter),
        to_map(positions) == s.positions,
    ensures
        store_all(Map::empty(), tokens) == s.tokens,
        set_all(Map::empty(), deposits) == s.deposits,
        forall|i: int|
            0 <= i < deposits.len() ==> store_all(Map::empty(), tokens).dom().contains(
                (#[trigger] deposits[i]).0.1,
            ),
{
    lemma_store_all_restores(tokens, s.tokens);
    assert forall|i: int| 0 <= i < deposits.len() implies (#[trigger] deposits[i]).1 > 0
        && s.tokens.dom().contains(deposits[i].0.1) by {
        lemma_lookup(deposits, i);
        assert(s.deposits.dom().contains(deposits[i].0));
    }
    lemma_set_all_restores(deposits);
}

/// A deposit followed by a withdrawal of the same amount of the same token
/// by the same user restores the state, and with it the balance, exactly.
pub proof fn lemma_deposit_withdraw_round_trip(
    s: LedgerView,
    env: EnvView,
    deposit_info: MessageInfoView,
    withdraw_info: MessageInfoView,
    token: Seq<char>,
    amount: u128,
)
    requires
        s.inv(),
        deposit_in_range(s, deposit_info, token, amount),
        withdraw_info.sender == deposit_info.sender,
    ensures
        deposit_spec(s, env, deposit_info, token, amount) matches Ok((deposited, _)) ==> {
            &&& balance_of(deposited.deposits, deposit_info.sender, token) == balance_of(
                s.deposits,
                deposit_info.sender,
                token,
            ) + amount
            &&& withdraw_spec(deposited, withdraw_info, token, amount) matches Ok((withdrawn, _))
            &&& withdrawn == s
        },
{
    if deposit_spec(s, env, deposit_info, token, amount) is Ok {
        let deposited = deposit_spec(s, env, deposit_info, token, amount)->Ok_0.0;
        let withdrawn = withdraw_spec(deposited, withdraw_info, token, amount)->Ok_0.0;
        assert(withdrawn.deposits =~= s.deposits);
    }
}

} // verus!
