//! The ledger and its actions.
//!
//! Every action validates its input against the state, and either refuses
//! it, leaving the state as it was, or applies it and hands back the
//! transfers that settle it. The state and the outcome of each action are
//! those of the state machine in [`crate::model`].
use crate::accounts::{set_all, stored_view, AccountLedger};
use crate::assoc::to_map;
use crate::book::{positions_view, restorable, PositionBook};
use crate::error::ContractError;
use crate::interest::{is_undercollateralized, liquidation_split, total_debt};
use crate::model::{add_token_spec, borrow_in_range, borrow_spec, deposit_in_range, deposit_spec};
use crate::model::{execute_in_range, execute_spec, fill_position_spec, instantiate_spec};
use crate::model::{liquidate_in_range, liquidate_spec, register_all, repay_in_range, repay_spec};
use crate::model::{withdraw_spec, LedgerView, Outcome};
use crate::msg::{ExecuteMsg, InstantiateMsg, Response};
use crate::oracle::{get_price, PriceOracle};
use crate::registry::{configs_view, store_all, TokenConfig, TokenRegistry};
use crate::state::{Config, Env, MessageInfo, Position, Token};
use crate::transfer::{intents_view, TransferIntent};
use vstd::prelude::*;

verus! {

/// The state of the ledger: settings, registered tokens, deposit balances
/// and positions.
pub struct Ledger {
    config: Config,
    tokens: TokenRegistry,
    accounts: AccountLedger,
    book: PositionBook,
}

impl View for Ledger {
    type V = LedgerView;

    closed spec fn view(&self) -> LedgerView {
        LedgerView {
            config: self.config@,
            tokens: self.tokens@,
            deposits: self.accounts@,
            positions: self.book@.positions,
            position_counter: self.book@.counter,
        }
    }
}

impl Ledger {
    /// Every part of the ledger is well formed, and every balance is in a
    /// registered token.
    pub closed spec fn wf(self) -> bool {
        &&& self.tokens.wf()
        &&& self.accounts.wf()
        &&& self.book.wf()
        &&& forall|key: (Seq<char>, Seq<char>)| #[trigger]
            self.accounts@.dom().contains(key) ==> self.tokens@.dom().contains(key.1)
    }

    /// Rebuilds a ledger from stored parts: the settings, the registered
    /// tokens, the balances with their users and tokens, the position
    /// counter and the positions. `None` where the positions are not what a
    /// book can hold or a balance is in a token that is not registered.
    pub fn restore(
        config: Config,
        tokens: Vec<TokenConfig>,
        deposits: Vec<(String, String, u128)>,
        position_counter: u128,
        positions: Vec<(u128, Position)>,
    ) -> (res: Option<Ledger>)
        ensures
            res is Some <==> restorable(positions_view(positions@), position_counter) && forall|
                i: int,
            |
                0 <= i < deposits@.len() ==> store_all(
                    Map::empty(),
                    configs_view(tokens@),
                ).dom().contains((#[trigger] deposits@[i]).1@),
            res matches Some(ledger) ==> ledger.wf() && ledger@ == (LedgerView {
                config: config@,
                tokens: store_all(Map::empty(), configs_view(tokens@)),
                deposits: set_all(Map::empty(), stored_view(deposits@)),
                positions: to_map(positions_view(positions@)),
                position_counter,
            }),
    {
        let mut registry = TokenRegistry::new();
        let ghost listed = configs_view(tokens@);
        let mut i: usize = 0;
        while i < tokens.len()
            invariant
                i <= tokens@.len(),
                registry.wf(),
                listed == configs_view(tokens@),
                registry@ == store_all(Map::empty(), listed.take(i as int)),
            decreases tokens@.len() - i,
        {
            proof {
                assert(listed.take(i + 1).drop_last() =~= listed.take(i as int));
                assert(listed.take(i + 1).last() == tokens@[i as int]@);
            }
            registry.set(tokens[i].clone());
            i += 1;
        }
        proof {
            assert(listed.take(i as int) =~= listed);
        }
        let mut accounts = AccountLedger::new();
        let ghost stored = stored_view(deposits@);
        let mut k: usize = 0;
        while k < deposits.len()
            invariant
                k <= deposits@.len(),
                registry.wf(),
                accounts.wf(),
                stored == stored_view(deposits@),
                registry@ == store_all(Map::empty(), configs_view(tokens@)),
                accounts@ == set_all(Map::empty(), stored.take(k as int)),
                forall|j: int| 0 <= j < k ==> registry@.dom().contains((#[trigger] deposits@[j]).1@),
                forall|key: (Seq<char>, Seq<char>)| #[trigger]
                    accounts@.dom().contains(key) ==> registry@.dom().contains(key.1),
            decreases deposits@.len() - k,
        {
            proof {
                assert(stored.take(k + 1).drop_last() =~= stored.take(k as int));
                assert(stored.take(k + 1).last() == (
                    (deposits@[k as int].0@, deposits@[k as int].1@),
                    deposits@[k as int].2,
                ));
            }
            if registry.resolve(&deposits[k].1).is_none() {
                assert(!registry@.dom().contains(deposits@[k as int].1@));
                return None;
            }
            accounts.set_balance(&deposits[k].0, &deposits[k].1, deposits[k].2);
            k += 1;
        }
        proof {
            assert(stored.take(k as int) =~= stored);
        }
        match PositionBook::restore(position_counter, positions) {
            Some(book) => Some(Ledger { config, tokens: registry, accounts, book }),
            None => None,
        }
    }

    /// The settings.
    pub fn config(&self) -> (res: &Config)
        ensures
            res@ == self@.config,
    {
        &self.config
    }

    /// The registered tokens.
    pub fn registry(&self) -> (res: &TokenRegistry)
        ensures
            res@ == self@.tokens,
            self.wf() ==> res.wf(),
    {
        &self.tokens
    }

    /// The deposit balances.
    pub fn accounts(&self) -> (res: &AccountLedger)
        ensures
            res@ == self@.deposits,
            self.wf() ==> res.wf(),
    {
        &self.accounts
    }

    /// The positions and their counter.
    pub fn book(&self) -> (res: &PositionBook)
        ensures
            res@ == self@.book(),
            self.wf() ==> res.wf(),
    {
        &self.book
    }

    /// A well-formed ledger satisfies the invariant of its view.
    pub proof fn lemma_inv(self)
        requires
            self.wf(),
        ensures
            self@.inv(),
    {
        self.book.lemma_inv();
        self.accounts.lemma_no_zero_balance();
        self.tokens.lemma_keyed_by_identifier();
    }
}

/// `res` and the state `after` are what `outcome` asks for: the refusal
/// with the state `before` unchanged, or the response with the new state.
pub open spec fn applied(
    res: Result<Response, ContractError>,
    after: LedgerView,
    before: LedgerView,
    outcome: Outcome,
) -> bool {
    match outcome {
        Ok((state, response)) => res is Ok && res->Ok_0@ == response && after == state,
        Err(e) => res == Err::<Response, ContractError>(e) && after == before,
    }
}

/// The response that carries `messages` and opens no position.
fn respond(messages: Vec<TransferIntent>) -> (res: Response)
    ensures
        res@ == crate::model::transfers(intents_view(messages@)),
{
    Response { messages, position_id: None }
}

/// Creates a ledger: the caller becomes its administrator, the initial
/// tokens are registered, and the position counter stands at 0.
pub fn instantiate(_env: &Env, info: &MessageInfo, msg: InstantiateMsg) -> (ledger: Ledger)
    ensures
        ledger.wf(),
        ledger@ == instantiate_spec(info@.sender, msg@),
{
    let mut tokens = TokenRegistry::new();
    let ghost listed = msg@.initial_tokens;
    let mut i: usize = 0;
    while i < msg.initial_tokens.len()
        invariant
            i <= msg.initial_tokens@.len(),
            tokens.wf(),
            listed == msg@.initial_tokens,
            tokens@ == register_all(Map::empty(), listed.take(i as int)),
        decreases msg.initial_tokens@.len() - i,
    {
        proof {
            assert(listed.take(i + 1).drop_last() =~= listed.take(i as int));
            assert(listed.take(i + 1).last() == msg.initial_tokens@[i as int]@);
        }
        tokens.add(msg.initial_tokens[i].clone());
        i += 1;
    }
    proof {
        assert(listed.take(i as int) =~= listed);
    }
    let ledger = Ledger {
        config: Config {
            admin: info.sender.clone(),
            liquidation_threshold: msg.liquidation_threshold,
            mock_oracle: msg.mock_oracle,
        },
        tokens,
        accounts: AccountLedger::new(),
        book: PositionBook::new(),
    };
    ledger
}

/// Registers `token` as accepted. Only the administrator may.
pub fn execute_add_token(ledger: &mut Ledger, info: &MessageInfo, token: Token) -> (res: Result<
    Response,
    ContractError,
>)
    requires
        old(ledger).wf(),
    ensures
        final(ledger).wf(),
        applied(res, final(ledger)@, old(ledger)@, add_token_spec(old(ledger)@, info@, token@)),
{
    if info.sender != ledger.config.admin {
        return Err(ContractError::Unauthorized);
    }
    ledger.tokens.add(token);
    let res = respond(Vec::new());
    proof {
        assert(res@.messages =~= seq![]);
    }
    Ok(res)
}

/// Credits `amount` of `token` to the caller's balance; the amount moves
/// from the caller into the pool.
pub fn execute_deposit(
    ledger: &mut Ledger,
    env: &Env,
    info: &MessageInfo,
    token: String,
    amount: u128,
) -> (res: Result<Response, ContractError>)
    requires
        old(ledger).wf(),
        deposit_in_range(old(ledger)@, info@, token@, amount),
    ensures
        final(ledger).wf(),
        applied(
            res,
            final(ledger)@,
            old(ledger)@,
            deposit_spec(old(ledger)@, env@, info@, token@, amount),
        ),
{
    if !ledger.tokens.is_supported(&token) {
        return Err(ContractError::UnsupportedToken);
    }
    let resolved = ledger.tokens.resolve(&token).unwrap();
    let msg = match resolved.pull(&info.sender, &env.contract_address, amount, &info.funds) {
        Ok(msg) => msg,
        Err(e) => {
            return Err(e);
        },
    };
    let current: u128 = ledger.accounts.balance(&info.sender, &token);
    ledger.accounts.set_balance(&info.sender, &token, current + amount);
    let res = respond(vec![msg]);
    proof {
        assert(res@.messages =~= seq![msg@]);
    }
    Ok(res)
}

/// Debits `amount` of `token` from the caller's balance, deleting the
/// entry where nothing is left; the amount moves from the pool to the
/// caller.
pub fn execute_withdraw(
    ledger: &mut Ledger,
    _env: &Env,
    info: &MessageInfo,
    token: String,
    amount: u128,
) -> (res: Result<Response, ContractError>)
    requires
        old(ledger).wf(),
    ensures
        final(ledger).wf(),
        applied(res, final(ledger)@, old(ledger)@, withdraw_spec(old(ledger)@, info@, token@, amount)),
{
    if !ledger.tokens.is_supported(&token) {
        return Err(ContractError::UnsupportedToken);
    }
    let resolved = ledger.tokens.resolve(&token).unwrap();
    let current: u128 = ledger.accounts.balance(&info.sender, &token);
    if current < amount {
        return Err(ContractError::InsufficientDeposit);
    }
    let msg = resolved.push(&info.sender, amount);
    ledger.accounts.set_balance(&info.sender, &token, current - amount);
    let res = respond(vec![msg]);
    proof {
        assert(res@.messages =~= seq![msg@]);
    }
    Ok(res)
}

/// Opens a position for the caller under the next identifier; the
/// collateral moves from the caller into the pool.
pub fn execute_borrow(
    ledger: &mut Ledger,
    env: &Env,
    info: &MessageInfo,
    borrow_token: String,
    amount: u128,
    interest_rate: u128,
    collateral_token: String,
    collateral: u128,
) -> (res: Result<Response, ContractError>)
    requires
        old(ledger).wf(),
        borrow_in_range(old(ledger)@, info@, borrow_token@, collateral_token@, collateral),
    ensures
        final(ledger).wf(),
        applied(
            res,
            final(ledger)@,
            old(ledger)@,
            borrow_spec(
                old(ledger)@,
                env@,
                info@,
                borrow_token@,
                amount,
                interest_rate,
                collateral_token@,
                collateral,
            ),
        ),
{
    if !ledger.tokens.is_supported(&borrow_token) || !ledger.tokens.is_supported(
        &collateral_token,
    ) {
        return Err(ContractError::UnsupportedToken);
    }
    let borrow_token_type = ledger.tokens.resolve(&borrow_token).unwrap();
    let collateral_token_type = ledger.tokens.resolve(&collateral_token).unwrap();
    let msg = match collateral_token_type.pull(
        &info.sender,
        &env.contract_address,
        collateral,
        &info.funds,
    ) {
        Ok(msg) => msg,
        Err(e) => {
            return Err(e);
        },
    };
    let position = Position {
        borrower: info.sender.clone(),
        lender: None,
        borrow_token: borrow_token_type,
        collateral_token: collateral_token_type,
        amount,
        interest_rate,
        collateral,
        start_time: 0,
        filled: false,
    };
    let position_id = ledger.book.open(position);
    let res = Response { messages: vec![msg], position_id: Some(position_id) };
    proof {
        assert(res@.messages =~= seq![msg@]);
    }
    Ok(res)
}

/// Funds the open position `position_id` with exactly its principal: the
/// caller becomes the lender, interest accrues from the time of the block,
/// and the principal moves from the caller to the borrower.
pub fn execute_fill_position(
    ledger: &mut Ledger,
    env: &Env,
    info: &MessageInfo,
    position_id: u128,
    amount: u128,
) -> (res: Result<Response, ContractError>)
    requires
        old(ledger).wf(),
    ensures
        final(ledger).wf(),
        applied(
            res,
            final(ledger)@,
            old(ledger)@,
            fill_position_spec(old(ledger)@, env@, info@, position_id, amount),
        ),
{
    let mut position = match ledger.book.get(position_id) {
        Some(position) => position,
        None => {
            return Err(ContractError::NotFound);
        },
    };
    if position.filled || position.lender.is_some() {
        return Err(ContractError::PositionAlreadyFilled);
    }
    if position.amount != amount {
        return Err(ContractError::AmountMismatch);
    }
    let msg = match position.borrow_token.pull(
        &info.sender,
        &position.borrower,
        amount,
        &info.funds,
    ) {
        Ok(msg) => msg,
        Err(e) => {
            return Err(e);
        },
    };
    position.lender = Some(info.sender.clone());
    position.filled = true;
    position.start_time = env.block_time;
    ledger.book.replace(position_id, position);
    let res = respond(vec![msg]);
    proof {
        assert(res@.messages =~= seq![msg@]);
    }
    Ok(res)
}

/// Closes the filled position `position_id` of the caller: principal plus
/// accrued interest moves from the caller to the lender, the whole
/// collateral moves from the pool back to the caller, and the position is
/// deleted.
pub fn execute_repay(ledger: &mut Ledger, env: &Env, info: &MessageInfo, position_id: u128) -> (res:
    Result<Response, ContractError>)
    requires
        old(ledger).wf(),
        repay_in_range(old(ledger)@, env@, info@, position_id),
    ensures
        final(ledger).wf(),
        applied(
            res,
            final(ledger)@,
            old(ledger)@,
            repay_spec(old(ledger)@, env@, info@, position_id),
        ),
{
    let position = match ledger.book.get(position_id) {
        Some(position) => position,
        None => {
            return Err(ContractError::NotFound);
        },
    };
    if position.borrower != info.sender {
        return Err(ContractError::NotBorrower);
    }
    if !position.filled {
        return Err(ContractError::PositionNotFilled);
    }
    let time_elapsed: u64 = env.block_time - position.start_time;
    let total_repayment: u128 = total_debt(
        position.amount,
        position.interest_rate,
        time_elapsed,
    ).unwrap();
    // a filled position has a lender
    let lender = match &position.lender {
        Some(lender) => lender,
        None => {
            return Err(ContractError::PositionNotFilled);
        },
    };
    let repay_msg = match position.borrow_token.pull(
        &info.sender,
        lender,
        total_repayment,
        &info.funds,
    ) {
        Ok(msg) => msg,
        Err(e) => {
            return Err(e);
        },
    };
    let collateral_msg = position.collateral_token.push(&info.sender, position.collateral);
    ledger.book.remove(position_id);
    let res = respond(vec![repay_msg, collateral_msg]);
    proof {
        assert(res@.messages =~= seq![repay_msg@, collateral_msg@]);
    }
    Ok(res)
}

/// Closes the filled position `position_id` if its collateral, at the
/// oracle's price, falls short of the debt scaled by the liquidation
/// threshold: the caller pays the debt into the pool, the lender receives
/// the part of it not credited to the caller, the caller receives 95
/// percent of the collateral, and the position is deleted.
pub fn execute_liquidate(
    ledger: &mut Ledger,
    oracle: &PriceOracle,
    env: &Env,
    info: &MessageInfo,
    position_id: u128,
) -> (res: Result<Response, ContractError>)
    requires
        old(ledger).wf(),
        oracle.wf(),
        liquidate_in_range(old(ledger)@, oracle@, env@, position_id),
    ensures
        final(ledger).wf(),
        applied(
            res,
            final(ledger)@,
            old(ledger)@,
            liquidate_spec(old(ledger)@, oracle@, env@, info@, position_id),
        ),
{
    let position = match ledger.book.get(position_id) {
        Some(position) => position,
        None => {
            return Err(ContractError::NotFound);
        },
    };
    if !position.filled {
        return Err(ContractError::PositionNotFilled);
    }
    let price: u128 = match get_price(oracle, position.collateral_token.identifier()) {
        Ok(answer) => answer.price,
        Err(_) => {
            return Err(ContractError::OracleUnavailable);
        },
    };
    let time_elapsed: u64 = env.block_time - position.start_time;
    let debt: u128 = total_debt(position.amount, position.interest_rate, time_elapsed).unwrap();
    let short = is_undercollateralized(
        position.collateral,
        price,
        debt,
        ledger.config.liquidation_threshold,
    ).unwrap();
    if !short {
        return Err(ContractError::PositionHealthy);
    }
    let split = liquidation_split(debt, position.collateral).unwrap();
    // a filled position has a lender
    let lender = match &position.lender {
        Some(lender) => lender,
        None => {
            return Err(ContractError::PositionNotFilled);
        },
    };
    let liquidator_payment_msg = match position.borrow_token.pull(
        &info.sender,
        &env.contract_address,
        debt,
        &info.funds,
    ) {
        Ok(msg) => msg,
        Err(e) => {
            return Err(e);
        },
    };
    let lender_repayment_msg = position.borrow_token.push(lender, split.lender_share);
    let liquidator_collateral_msg = position.collateral_token.push(
        &info.sender,
        split.collateral_to_liquidator,
    );
    ledger.book.remove(position_id);
    let res = respond(vec![liquidator_payment_msg, lender_repayment_msg, liquidator_collateral_msg]);
    proof {
        assert(res@.messages =~= seq![
            liquidator_payment_msg@,
            lender_repayment_msg@,
            liquidator_collateral_msg@,
        ]);
    }
    Ok(res)
}

/// Performs the action `msg` for the caller `info.sender`.
pub fn execute(
    ledger: &mut Ledger,
    oracle: &PriceOracle,
    env: &Env,
    info: &MessageInfo,
    msg: ExecuteMsg,
) -> (res: Result<Response, ContractError>)
    requires
        old(ledger).wf(),
        oracle.wf(),
        execute_in_range(old(ledger)@, oracle@, env@, info@, msg@),
    ensures
        final(ledger).wf(),
        applied(
            res,
            final(ledger)@,
            old(ledger)@,
            execute_spec(old(ledger)@, oracle@, env@, info@, msg@),
        ),
{
    match msg {
        ExecuteMsg::AddToken { token } => execute_add_token(ledger, info, token),
        ExecuteMsg::Deposit { token, amount } => execute_deposit(ledger, env, info, token, amount),
        ExecuteMsg::Borrow {
            borrow_token,
            amount,
            interest_rate,
            collateral_token,
            collateral,
        } => execute_borrow(
            ledger,
            env,
            info,
            borrow_token,
            amount,
            interest_rate,
            collateral_token,
            collateral,
        ),
        ExecuteMsg::Withdraw { token, amount } => execute_withdraw(ledger, env, info, token, amount),
        ExecuteMsg::FillPosition { position_id, amount } => execute_fill_position(
            ledger,
            env,
            info,
            position_id,
            amount,
        ),
        ExecuteMsg::Repay { position_id } => execute_repay(ledger, env, info, position_id),
        ExecuteMsg::Liquidate { position_id } => execute_liquidate(
            ledger,
            oracle,
            env,
            info,
            position_id,
        ),
    }
}

} // verus!
