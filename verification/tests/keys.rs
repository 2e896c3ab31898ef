use encke::error::ContractError;
use encke::keys::key_less;

fn s(text: &str) -> String {
    text.to_string()
}

#[test]
fn identifiers_order_by_bytes() {
    assert!(key_less(&s("a"), &s("b")));
    assert!(!key_less(&s("b"), &s("a")));
    assert!(!key_less(&s("a"), &s("a")));
    assert!(key_less(&s(""), &s("a")));
    assert!(!key_less(&s(""), &s("")));
    assert!(key_less(&s("ab"), &s("abc")));
    assert!(!key_less(&s("abc"), &s("ab")));
    assert!(key_less(&s("Z"), &s("a")));
    assert!(key_less(&s("abd"), &s("b")));
    // two-byte encodings come after every one-byte character
    assert!(key_less(&s("z"), &s("é")));
    assert!(key_less(&s("é"), &s("€")));
}

#[test]
fn every_refusal_has_its_text() {
    assert_eq!(ContractError::Unauthorized.message(), "Unauthorized");
    assert_eq!(ContractError::UnsupportedToken.message(), "Unsupported token");
    assert_eq!(ContractError::InsufficientFunds.message(), "Insufficient funds");
    assert_eq!(ContractError::InsufficientDeposit.message(), "Insufficient deposit");
    assert_eq!(ContractError::PositionAlreadyFilled.message(), "Position already filled");
    assert_eq!(ContractError::AmountMismatch.message(), "Amount mismatch");
    assert_eq!(ContractError::NotBorrower.message(), "Not borrower");
    assert_eq!(ContractError::PositionNotFilled.message(), "Position not filled");
    assert_eq!(ContractError::PositionHealthy.message(), "Position not undercollateralized");
    assert_eq!(ContractError::NotFound.message(), "not found");
    assert_eq!(ContractError::OracleUnavailable.message(), "Oracle price unavailable");
}
