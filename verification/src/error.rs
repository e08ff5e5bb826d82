//! Reasons for rejecting a single transaction record.
//!
//! Every rejection is recoverable: the caller logs it and goes on with the
//! next record of the stream.

use vstd::prelude::*;

verus! {

/// Why a transaction record was rejected by a client ledger.
#[derive(Clone, Copy, Debug, PartialEq, Eq, Structural)]
pub enum TxError {
    /// The account was locked by an earlier chargeback; every later record
    /// against it is refused.
    AccountLocked,
    /// A deposit or withdrawal carried a transaction id that is not strictly
    /// greater than the last recorded one.
    NonMonotonicId,
    /// A withdrawal or dispute asked for more than the available funds.
    InsufficientFunds,
    /// A dispute, resolve or chargeback referenced a transaction id that this
    /// ledger never recorded.
    UnknownTransaction,
    /// A dispute named a transaction that is already under dispute.
    AlreadyDisputed,
    /// A resolve or chargeback named a transaction that is not under dispute.
    NotDisputed,
    /// A deposit would push the account total past the largest representable
    /// amount.
    BalanceOverflow,
}

} // verus!
