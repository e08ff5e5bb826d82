//! Transaction records: one input event of the stream.

use vstd::prelude::*;

use crate::amount::Amount;

verus! {

/// The five kinds of transaction record.
#[derive(Clone, Copy, Debug, PartialEq, Eq, Structural)]
pub enum TransactionKind {
    /// Credits the available funds.
    Deposit,
    /// Debits the available funds.
    Withdrawal,
    /// Provisionally reverses an earlier transaction: moves its amount from
    /// available to held.
    Dispute,
    /// Cancels a dispute: moves the held amount back to available.
    Resolve,
    /// Finalizes a dispute against the client: forfeits the held amount and
    /// locks the account.
    Chargeback,
}

/// What a record says besides its identifiers: its kind and its amount.
///
/// Only deposits and withdrawals carry an amount; for the dispute family the
/// field is zero.
#[derive(Clone, Copy, Debug, PartialEq, Eq, Structural)]
pub struct TransactionData {
    /// The kind of the record.
    pub kind: TransactionKind,
    /// The amount moved, as a scaled integer; zero for the dispute family.
    pub amount: Amount,
}

/// One full input record: which client, which transaction id, and the data.
#[derive(Clone, Copy, Debug)]
pub struct Transaction {
    /// The client the record is addressed to.
    pub client_id: u16,
    /// The transaction id: the disputed family references an earlier one,
    /// deposits and withdrawals introduce a fresh one.
    pub id: u32,
    /// The kind and amount of the record.
    pub transaction_data: TransactionData,
}

impl Transaction {
    /// What the record says.
    pub open spec fn spec_data(self) -> TransactionData {
        self.transaction_data
    }

    /// A record from its parts.
    pub fn new(client_id: u16, id: u32, data: TransactionData) -> (t: Transaction)
        ensures
            t.client_id == client_id,
            t.id == id,
            t.spec_data() == data,
    {
        Transaction { client_id, id, transaction_data: data }
    }

    /// The kind and amount of the record.
    pub fn get_data(&self) -> (d: TransactionData)
        ensures
            d == self.spec_data(),
    {
        self.transaction_data
    }
}

} // verus!
