//! The values the ledger stores and exchanges, and their mathematical views.
use vstd::prelude::*;

verus! {

/// A token as the ledger sees it: a native denomination, or a token that a
/// contract manages.
#[derive(Debug, PartialEq, Eq)]
pub enum Token {
    /// Native currency, named by its denomination.
    Native(String),
    /// A token managed by the contract at this address.
    Cw20(String),
}

/// The view of a [`Token`].
pub enum TokenView {
    Native(Seq<char>),
    Cw20(Seq<char>),
}

impl TokenView {
    /// The raw identifier the token was resolved from.
    pub open spec fn identifier(self) -> Seq<char> {
        match self {
            TokenView::Native(denom) => denom,
            TokenView::Cw20(address) => address,
        }
    }
}

impl View for Token {
    type V = TokenView;

    open spec fn view(&self) -> TokenView {
        match self {
            Token::Native(denom) => TokenView::Native(denom@),
            Token::Cw20(address) => TokenView::Cw20(address@),
        }
    }
}

impl Clone for Token {
    fn clone(&self) -> (res: Self)
        ensures
            res == *self,
    {
        match self {
            Token::Native(denom) => Token::Native(denom.clone()),
            Token::Cw20(address) => Token::Cw20(address.clone()),
        }
    }
}

impl Token {
    /// The raw identifier the token was resolved from.
    pub fn identifier(&self) -> (id: &String)
        ensures
            id@ == self@.identifier(),
    {
        match self {
            Token::Native(denom) => denom,
            Token::Cw20(address) => address,
        }
    }
}

/// The token that `identifier` resolves to, given whether it has the form of a
/// contract address.
pub open spec fn resolve_spec(identifier: Seq<char>, is_contract_address: bool) -> TokenView {
    if is_contract_address {
        TokenView::Cw20(identifier)
    } else {
        TokenView::Native(identifier)
    }
}

/// Resolves a raw identifier: one that has the form of a contract address
/// names a contract-managed token, any other a native denomination.
pub fn determine_token_type(token: &str, is_contract_address: bool) -> (res: Token)
    ensures
        res@ == resolve_spec(token@, is_contract_address),
        res@.identifier() == token@,
{
    if is_contract_address {
        Token::Cw20(token.to_owned())
    } else {
        Token::Native(token.to_owned())
    }
}

/// An amount of native currency.
#[derive(Debug, PartialEq, Eq)]
pub struct Coin {
    pub denom: String,
    pub amount: u128,
}

/// The view of a [`Coin`].
pub struct CoinView {
    pub denom: Seq<char>,
    pub amount: u128,
}

impl View for Coin {
    type V = CoinView;

    open spec fn view(&self) -> CoinView {
        CoinView { denom: self.denom@, amount: self.amount }
    }
}

impl Clone for Coin {
    fn clone(&self) -> (res: Self)
        ensures
            res == *self,
    {
        Coin { denom: self.denom.clone(), amount: self.amount }
    }
}

/// The views of a list of coins, in order.
pub open spec fn coins_view(coins: Seq<Coin>) -> Seq<CoinView> {
    coins.map_values(|c: Coin| c@)
}

/// The block and the contract an action runs in.
#[derive(Debug, PartialEq, Eq)]
pub struct Env {
    /// Seconds of the block's time.
    pub block_time: u64,
    /// Address of the ledger itself, the pool that holds deposits and collateral.
    pub contract_address: String,
}

/// The view of an [`Env`].
pub struct EnvView {
    pub block_time: u64,
    pub contract_address: Seq<char>,
}

impl View for Env {
    type V = EnvView;

    open spec fn view(&self) -> EnvView {
        EnvView { block_time: self.block_time, contract_address: self.contract_address@ }
    }
}

/// Who sent an action and the native coins attached to it.
#[derive(Debug, PartialEq, Eq)]
pub struct MessageInfo {
    pub sender: String,
    pub funds: Vec<Coin>,
}

/// The view of a [`MessageInfo`].
pub struct MessageInfoView {
    pub sender: Seq<char>,
    pub funds: Seq<CoinView>,
}

impl View for MessageInfo {
    type V = MessageInfoView;

    open spec fn view(&self) -> MessageInfoView {
        MessageInfoView { sender: self.sender@, funds: coins_view(self.funds@) }
    }
}

/// The settings of the ledger, fixed when it is created.
#[derive(Debug, PartialEq, Eq)]
pub struct Config {
    /// Address of the administrator.
    pub admin: String,
    /// Percentage of the debt that the collateral value must reach.
    pub liquidation_threshold: u128,
    /// Address of the price oracle.
    pub mock_oracle: String,
}

/// The view of a [`Config`].
pub struct ConfigView {
    pub admin: Seq<char>,
    pub liquidation_threshold: u128,
    pub mock_oracle: Seq<char>,
}

impl View for Config {
    type V = ConfigView;

    open spec fn view(&self) -> ConfigView {
        ConfigView {
            admin: self.admin@,
            liquidation_threshold: self.liquidation_threshold,
            mock_oracle: self.mock_oracle@,
        }
    }
}

impl Clone for Config {
    fn clone(&self) -> (res: Self)
        ensures
            res == *self,
    {
        Config {
            admin: self.admin.clone(),
            liquidation_threshold: self.liquidation_threshold,
            mock_oracle: self.mock_oracle.clone(),
        }
    }
}

/// One agreement between a borrower and, once filled, a lender.
#[derive(Debug, PartialEq, Eq)]
pub struct Position {
    /// Address of the borrower.
    pub borrower: String,
    /// Address of the lender, absent until the position is filled.
    pub lender: Option<String>,
    /// Token being borrowed.
    pub borrow_token: Token,
    /// Token put up as collateral.
    pub collateral_token: Token,
    /// Principal.
    pub amount: u128,
    /// Annual rate, a percentage scaled by 100.
    pub interest_rate: u128,
    /// Amount of collateral.
    pub collateral: u128,
    /// Seconds at which the position was filled, 0 until then.
    pub start_time: u64,
    /// Whether a lender has funded the position.
    pub filled: bool,
}

/// The view of a [`Position`].
pub struct PositionView {
    pub borrower: Seq<char>,
    pub lender: Option<Seq<char>>,
    pub borrow_token: TokenView,
    pub collateral_token: TokenView,
    pub amount: u128,
    pub interest_rate: u128,
    pub collateral: u128,
    pub start_time: u64,
    pub filled: bool,
}

impl PositionView {
    /// A position is filled exactly when it has a lender, and carries no
    /// fill time before that.
    pub open spec fn wf(self) -> bool {
        &&& self.filled <==> self.lender is Some
        &&& !self.filled ==> self.start_time == 0
    }

    /// `user` is the borrower or the lender.
    pub open spec fn involves(self, user: Seq<char>) -> bool {
        self.borrower == user || self.lender == Some(user)
    }
}

/// The view of an optional address.
pub open spec fn address_view(address: Option<String>) -> Option<Seq<char>> {
    match address {
        Some(a) => Some(a@),
        None => None,
    }
}

impl View for Position {
    type V = PositionView;

    open spec fn view(&self) -> PositionView {
        PositionView {
            borrower: self.borrower@,
            lender: address_view(self.lender),
            borrow_token: self.borrow_token@,
            collateral_token: self.collateral_token@,
            amount: self.amount,
            interest_rate: self.interest_rate,
            collateral: self.collateral,
            start_time: self.start_time,
            filled: self.filled,
        }
    }
}

impl Clone for Position {
    fn clone(&self) -> (res: Self)
        ensures
            res == *self,
    {
        Position {
            borrower: self.borrower.clone(),
            lender: match &self.lender {
                Some(a) => Some(a.clone()),
                None => None,
            },
            borrow_token: self.borrow_token.clone(),
            collateral_token: self.collateral_token.clone(),
            amount: self.amount,
            interest_rate: self.interest_rate,
            collateral: self.collateral,
            start_time: self.start_time,
            filled: self.filled,
        }
    }
}

/// A user's balance of one token.
#[derive(Debug, PartialEq, Eq)]
pub struct Deposit {
    pub token: Token,
    pub amount: u128,
}

/// The view of a [`Deposit`].
pub struct DepositView {
    pub token: TokenView,
    pub amount: u128,
}

impl View for Deposit {
    type V = DepositView;

    open spec fn view(&self) -> DepositView {
        DepositView { token: self.token@, amount: self.amount }
    }
}

} // verus!
