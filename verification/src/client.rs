//! The per-client ledger: the transaction state machine.
//!
//! A ledger owns one client's balance, the history of its recorded deposits
//! and withdrawals, and the set of currently disputed transaction ids. The
//! whole behaviour of `process_tx` is stated by the spec functions `step`
//! (the state after a record) and `step_result` (whether the record was
//! accepted, and the error when it was not).

use vstd::prelude::*;

use crate::amount::{Amount, amount_digits, bool_chars, bool_string, dec_digits, dec_string,
    amount_string};
use crate::balance::Balance;
use crate::error::TxError;
use crate::store::{DisputeSet, Transactions, dispute_set, transactions_map};
use crate::transaction::{TransactionData, TransactionKind};

verus! {

/// The mathematical state of one client's ledger.
pub ghost struct LedgerView {
    /// Funds the client may spend.
    pub available: Amount,
    /// Funds frozen pending dispute resolution.
    pub held: Amount,
    /// Amounts of the recorded deposits and withdrawals, by transaction id.
    pub history: Map<u32, Amount>,
    /// Transaction ids currently under dispute.
    pub disputed: Set<u32>,
    /// The highest transaction id recorded so far.
    pub last_tx: u32,
    /// Whether a chargeback has locked the account.
    pub locked: bool,
}

impl LedgerView {
    /// The state of a fresh ledger: zero balance, nothing recorded, nothing
    /// disputed, unlocked.
    pub open spec fn initial() -> LedgerView {
        LedgerView {
            available: 0,
            held: 0,
            history: Map::<u32, Amount>::empty(),
            disputed: Set::<u32>::empty(),
            last_tx: 0,
            locked: false,
        }
    }

    /// The derived total of the account.
    pub open spec fn total(self) -> int {
        self.available + self.held
    }

    /// Well-formedness: the total fits in an amount, so no accepted record
    /// can overflow, and every disputed id has a recorded amount.
    pub open spec fn wf(self) -> bool {
        &&& self.available + self.held <= u64::MAX
        &&& forall|t: u32| self.disputed.contains(t) ==> #[trigger] self.history.contains_key(t)
    }
}

/// Whether a ledger in state `pre` accepts the record `(tx_id, data)`, and
/// the error when it does not. `Ok` covers the silent no-op of a resolve or
/// chargeback whose held funds fall short of the disputed amount.
pub open spec fn step_result(pre: LedgerView, tx_id: u32, data: TransactionData) -> Result<
    (),
    TxError,
> {
    if pre.locked {
        Err(TxError::AccountLocked)
    } else {
        match data.kind {
            TransactionKind::Deposit => if tx_id <= pre.last_tx {
                Err(TxError::NonMonotonicId)
            } else if pre.available + pre.held + data.amount > u64::MAX {
                Err(TxError::BalanceOverflow)
            } else {
                Ok(())
            },
            TransactionKind::Withdrawal => if tx_id <= pre.last_tx {
                Err(TxError::NonMonotonicId)
            } else if pre.available < data.amount {
                Err(TxError::InsufficientFunds)
            } else {
                Ok(())
            },
            TransactionKind::Dispute => if pre.disputed.contains(tx_id) {
                Err(TxError::AlreadyDisputed)
            } else if !pre.history.contains_key(tx_id) {
                Err(TxError::UnknownTransaction)
            } else if pre.available < pre.history[tx_id] {
                Err(TxError::InsufficientFunds)
            } else {
                Ok(())
            },
            TransactionKind::Resolve => if !pre.disputed.contains(tx_id) {
                Err(TxError::NotDisputed)
            } else if !pre.history.contains_key(tx_id) {
                Err(TxError::UnknownTransaction)
            } else {
                Ok(())
            },
            TransactionKind::Chargeback => if !pre.disputed.contains(tx_id) {
                Err(TxError::NotDisputed)
            } else if !pre.history.contains_key(tx_id) {
                Err(TxError::UnknownTransaction)
            } else {
                Ok(())
            },
        }
    }
}

/// The ledger state after the record `(tx_id, data)`: unchanged when the
/// record is rejected, and unchanged by the silent no-op of a resolve or
/// chargeback whose held funds fall short.
pub open spec fn step(pre: LedgerView, tx_id: u32, data: TransactionData) -> LedgerView {
    if step_result(pre, tx_id, data) is Err {
        pre
    } else {
        match data.kind {
            TransactionKind::Deposit => LedgerView {
                available: (pre.available + data.amount) as Amount,
                history: pre.history.insert(tx_id, data.amount),
                last_tx: tx_id,
                ..pre
            },
            TransactionKind::Withdrawal => LedgerView {
                available: (pre.available - data.amount) as Amount,
                history: pre.history.insert(tx_id, data.amount),
                last_tx: tx_id,
                ..pre
            },
            TransactionKind::Dispute => LedgerView {
                available: (pre.available - pre.history[tx_id]) as Amount,
                held: (pre.held + pre.history[tx_id]) as Amount,
                disputed: pre.disputed.insert(tx_id),
                ..pre
            },
            TransactionKind::Resolve => if pre.held >= pre.history[tx_id] {
                LedgerView {
                    available: (pre.available + pre.history[tx_id]) as Amount,
                    held: (pre.held - pre.history[tx_id]) as Amount,
                    disputed: pre.disputed.remove(tx_id),
                    ..pre
                }
            } else {
                pre
            },
            TransactionKind::Chargeback => if pre.held >= pre.history[tx_id] {
                LedgerView {
                    held: (pre.held - pre.history[tx_id]) as Amount,
                    disputed: pre.disputed.remove(tx_id),
                    locked: true,
                    ..pre
                }
            } else {
                pre
            },
        }
    }
}

/// A summary row is the client id, the three balances rendered to four
/// decimals, and the lock flag.
pub open spec fn row_matches(row: Seq<String>, l: LedgerView, client_id: u16) -> bool {
    &&& row.len() == 5
    &&& row[0]@ == dec_digits(client_id as nat)
    &&& row[1]@ == amount_digits(l.available)
    &&& row[2]@ == amount_digits(l.held)
    &&& row[3]@ == amount_digits((l.available + l.held) as Amount)
    &&& row[4]@ == bool_chars(l.locked)
}

/// One client's ledger: balance, recorded transactions, disputed ids, the
/// last recorded transaction id, and the lock flag.
#[derive(Debug)]
pub struct Client {
    balance: Balance,
    transactions: Transactions,
    disputed_transactions: DisputeSet,
    previous_tx_id: u32,
    locked: bool,
}

impl View for Client {
    type V = LedgerView;

    closed spec fn view(&self) -> LedgerView {
        LedgerView {
            available: self.balance.available,
            held: self.balance.held,
            history: transactions_map(self.transactions),
            disputed: dispute_set(self.disputed_transactions),
            last_tx: self.previous_tx_id,
            locked: self.locked,
        }
    }
}

impl Default for Client {
    /// A fresh ledger in the initial state.
    fn default() -> (c: Client)
        ensures
            c@ == LedgerView::initial(),
            c@.wf(),
    {
        let c = Client {
            balance: Balance::default(),
            transactions: Transactions::new(),
            disputed_transactions: DisputeSet::new(),
            previous_tx_id: 0,
            locked: false,
        };
        proof {
            assert(c@.history =~= Map::<u32, Amount>::empty());
            assert(c@.disputed =~= Set::<u32>::empty());
            assert(c@ == LedgerView::initial());
        }
        c
    }
}

impl Client {
    /// A ledger created on first sight of a client: the fresh state with the
    /// first record already applied. A rejected first record leaves the
    /// fresh state; the rejection itself is not reported here.
    pub fn new(tx_id: u32, tx_data: TransactionData) -> (c: Client)
        ensures
            c@ == step(LedgerView::initial(), tx_id, tx_data),
            c@.wf(),
    {
        let mut c = Client::default();
        let _ = c.process_tx(tx_id, tx_data);
        c
    }

    /// Rejects every record against a locked account.
    fn account_is_locked(&self) -> (r: Result<(), TxError>)
        ensures
            r == (if self@.locked {
                Err::<(), TxError>(TxError::AccountLocked)
            } else {
                Ok::<(), TxError>(())
            }),
    {
        if self.locked {
            Err(TxError::AccountLocked)
        } else {
            Ok(())
        }
    }

    /// A newly recorded transaction must carry an id strictly greater than
    /// the last recorded one.
    fn check_tx_id(&self, tx_id: u32) -> (r: Result<(), TxError>)
        ensures
            r == (if tx_id <= self@.last_tx {
                Err::<(), TxError>(TxError::NonMonotonicId)
            } else {
                Ok::<(), TxError>(())
            }),
    {
        if self.previous_tx_id < tx_id {
            Ok(())
        } else {
            Err(TxError::NonMonotonicId)
        }
    }

    /// The available funds must cover the amount.
    fn amount_is_available(&self, tx_amount: Amount) -> (r: Result<(), TxError>)
        ensures
            r == (if self@.available < tx_amount {
                Err::<(), TxError>(TxError::InsufficientFunds)
            } else {
                Ok::<(), TxError>(())
            }),
    {
        if self.balance.available >= tx_amount {
            Ok(())
        } else {
            Err(TxError::InsufficientFunds)
        }
    }

    /// The amount recorded under a transaction id, or `UnknownTransaction`
    /// when this ledger never recorded the id (it may belong to another
    /// client, or never have been seen).
    fn get_tx(&self, tx_id: u32) -> (r: Result<Amount, TxError>)
        ensures
            r == (if self@.history.contains_key(tx_id) {
                Ok::<Amount, TxError>(self@.history[tx_id])
            } else {
                Err::<Amount, TxError>(TxError::UnknownTransaction)
            }),
    {
        match self.transactions.get(tx_id) {
            Some(amount) => Ok(amount),
            None => Err(TxError::UnknownTransaction),
        }
    }

    /// The dispute state of a transaction must match what the record kind
    /// expects: not yet disputed for a dispute, disputed for a resolve or
    /// chargeback.
    fn transaction_is_disputed(&self, tx_id: u32, expected: bool) -> (r: Result<(), TxError>)
        ensures
            r == (if self@.disputed.contains(tx_id) != expected {
                Err::<(), TxError>(
                    if expected {
                        TxError::NotDisputed
                    } else {
                        TxError::AlreadyDisputed
                    },
                )
            } else {
                Ok::<(), TxError>(())
            }),
    {
        if self.disputed_transactions.contains(tx_id) != expected {
            if expected {
                Err(TxError::NotDisputed)
            } else {
                Err(TxError::AlreadyDisputed)
            }
        } else {
            Ok(())
        }
    }

    /// Records a deposit or withdrawal amount under its id and advances the
    /// last recorded id.
    fn record_tx(&mut self, tx_id: u32, amount: Amount)
        ensures
            final(self)@ == (LedgerView {
                history: old(self)@.history.insert(tx_id, amount),
                last_tx: tx_id,
                ..old(self)@
            }),
    {
        self.transactions.insert(tx_id, amount);
        self.previous_tx_id = tx_id;
    }

    /// Applies one record to this ledger.
    ///
    /// The new state is exactly `step` of the old one, and the result is
    /// exactly `step_result`: which records are accepted, which error each
    /// rejection carries, and that a rejected record changes nothing, are
    /// all pinned down by those two spec functions.
    pub fn process_tx(&mut self, tx_id: u32, tx_data: TransactionData) -> (r: Result<
        (),
        TxError,
    >)
        requires
            old(self)@.wf(),
        ensures
            final(self)@ == step(old(self)@, tx_id, tx_data),
            r == step_result(old(self)@, tx_id, tx_data),
            final(self)@.wf(),
    {
        match self.account_is_locked() {
            Err(e) => {
                return Err(e);
            },
            Ok(_) => {},
        }
        match tx_data.kind {
            TransactionKind::Deposit => {
                match self.check_tx_id(tx_id) {
                    Err(e) => {
                        return Err(e);
                    },
                    Ok(_) => {},
                }
                let headroom = u64::MAX - self.balance.available - self.balance.held;
                if tx_data.amount > headroom {
                    return Err(TxError::BalanceOverflow);
                }
                self.balance.available = self.balance.available + tx_data.amount;
                self.record_tx(tx_id, tx_data.amount);
                Ok(())
            },
            TransactionKind::Withdrawal => {
                match self.check_tx_id(tx_id) {
                    Err(e) => {
                        return Err(e);
                    },
                    Ok(_) => {},
                }
                match self.amount_is_available(tx_data.amount) {
                    Err(e) => {
                        return Err(e);
                    },
                    Ok(_) => {},
                }
                self.balance.available = self.balance.available - tx_data.amount;
                self.record_tx(tx_id, tx_data.amount);
                Ok(())
            },
            TransactionKind::Dispute => {
                match self.transaction_is_disputed(tx_id, false) {
                    Err(e) => {
                        return Err(e);
                    },
                    Ok(_) => {},
                }
                let disputed = match self.get_tx(tx_id) {
                    Err(e) => {
                        return Err(e);
                    },
                    Ok(amount) => amount,
                };
                match self.amount_is_available(disputed) {
                    Err(e) => {
                        return Err(e);
                    },
                    Ok(_) => {},
                }
                self.balance.available = self.balance.available - disputed;
                self.balance.held = self.balance.held + disputed;
                let _ = self.disputed_transactions.insert(tx_id);
                Ok(())
            },
            TransactionKind::Resolve => {
                match self.transaction_is_disputed(tx_id, true) {
                    Err(e) => {
                        return Err(e);
                    },
                    Ok(_) => {},
                }
                let disputed = match self.get_tx(tx_id) {
                    Err(e) => {
                        return Err(e);
                    },
                    Ok(amount) => amount,
                };
                if self.balance.held >= disputed {
                    self.balance.held = self.balance.held - disputed;
                    self.balance.available = self.balance.available + disputed;
                    let _ = self.disputed_transactions.remove(tx_id);
                }
                Ok(())
            },
            TransactionKind::Chargeback => {
                match self.transaction_is_disputed(tx_id, true) {
                    Err(e) => {
                        return Err(e);
                    },
                    Ok(_) => {},
                }
                let disputed = match self.get_tx(tx_id) {
                    Err(e) => {
                        return Err(e);
                    },
                    Ok(amount) => amount,
                };
                if self.balance.held >= disputed {
                    self.balance.held = self.balance.held - disputed;
                    self.locked = true;
                    let _ = self.disputed_transactions.remove(tx_id);
                }
                Ok(())
            },
        }
    }

    /// The summary row of this ledger: client id, available, held, total and
    /// lock status, the three balances rendered to four decimals.
    pub fn get_record(&self, client_id: u16) -> (r: Vec<String>)
        requires
            self@.wf(),
        ensures
            row_matches(r@, self@, client_id),
    {
        let mut row: Vec<String> = Vec::new();
        row.push(dec_string(client_id as u64));
        row.push(amount_string(self.balance.available));
        row.push(amount_string(self.balance.held));
        row.push(amount_string(self.balance.available + self.balance.held));
        row.push(bool_string(self.locked));
        row
    }
}

} // verus!
