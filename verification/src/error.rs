//! The reasons for which an action or a query is refused.
use vstd::prelude::*;

verus! {

/// Why the ledger refused an action. A refused action changes nothing and
/// emits no transfer.
#[derive(Clone, Copy, Debug, PartialEq, Eq, Structural)]
pub enum ContractError {
    /// The caller is not the administrator.
    Unauthorized,
    /// The token is not registered as supported.
    UnsupportedToken,
    /// Fewer native coins were attached than the action needs.
    InsufficientFunds,
    /// The deposit balance is smaller than the amount to withdraw.
    InsufficientDeposit,
    /// The position already has a lender.
    PositionAlreadyFilled,
    /// The amount offered differs from the principal of the position.
    AmountMismatch,
    /// The caller is not the borrower of the position.
    NotBorrower,
    /// The position has no lender yet.
    PositionNotFilled,
    /// The collateral still covers the debt.
    PositionHealthy,
    /// No position, or no price, is stored under the key.
    NotFound,
    /// The oracle published no price for the collateral token.
    OracleUnavailable,
}

impl ContractError {
    /// The text of the refusal.
    pub open spec fn message_spec(self) -> Seq<char> {
        match self {
            ContractError::Unauthorized => "Unauthorized"@,
            ContractError::UnsupportedToken => "Unsupported token"@,
            ContractError::InsufficientFunds => "Insufficient funds"@,
            ContractError::InsufficientDeposit => "Insufficient deposit"@,
            ContractError::PositionAlreadyFilled => "Position already filled"@,
            ContractError::AmountMismatch => "Amount mismatch"@,
            ContractError::NotBorrower => "Not borrower"@,
            ContractError::PositionNotFilled => "Position not filled"@,
            ContractError::PositionHealthy => "Position not undercollateralized"@,
            ContractError::NotFound => "not found"@,
            ContractError::OracleUnavailable => "Oracle price unavailable"@,
        }
    }

    /// The text of the refusal.
    pub fn message(&self) -> (text: String)
        ensures
            text@ == self.message_spec(),
    {
        match self {
            ContractError::Unauthorized => "Unauthorized".to_owned(),
            ContractError::UnsupportedToken => "Unsupported token".to_owned(),
            ContractError::InsufficientFunds => "Insufficient funds".to_owned(),
            ContractError::InsufficientDeposit => "Insufficient deposit".to_owned(),
            ContractError::PositionAlreadyFilled => "Position already filled".to_owned(),
            ContractError::AmountMismatch => "Amount mismatch".to_owned(),
            ContractError::NotBorrower => "Not borrower".to_owned(),
            ContractError::PositionNotFilled => "Position not filled".to_owned(),
            ContractError::PositionHealthy => "Position not undercollateralized".to_owned(),
            ContractError::NotFound => "not found".to_owned(),
            ContractError::OracleUnavailable => "Oracle price unavailable".to_owned(),
        }
    }
}

} // verus!
