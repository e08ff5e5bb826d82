//! A payment processing engine.
//!
//! An ordered stream of transaction records (deposits, withdrawals, disputes,
//! resolutions, chargebacks) keyed by client and transaction identifiers is
//! folded into per-client account ledgers; at the end of the stream each
//! ledger is read out as a summary row (available funds, held funds, total,
//! lock status).
//!
//! Monetary amounts are fixed-precision values with four fractional digits,
//! carried as integers scaled by 10^4 so that repeated arithmetic is exact.

pub mod amount;
pub mod balance;
pub mod client;
pub mod error;
pub mod laws;
pub mod state;
pub mod store;
pub mod transaction;
