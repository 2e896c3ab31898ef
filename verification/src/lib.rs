//! A peer-to-peer collateralised lending ledger.
//!
//! Users deposit tokens, open borrow positions backed by collateral, lenders
//! fill those positions, and anyone may liquidate a position whose collateral
//! no longer covers its debt at the price an oracle publishes. Every action
//! is validated against the ledger, applied to it, and answered with the
//! ordered list of transfers that settle it.
pub mod interest;
pub mod keys;
pub mod assoc;
pub mod error;
pub mod state;
pub mod transfer;
pub mod registry;
pub mod accounts;
pub mod book;
pub mod oracle;
pub mod msg;
pub mod model;
pub mod contract;
pub mod query;
pub mod guard;
pub mod liquidator;
pub mod laws;
pub mod wire;
