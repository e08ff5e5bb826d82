//! Laws of the ledger state machine.
//!
//! These proof functions state, over `step` and `step_result`, what holds of
//! every ledger and every sequence of records: the accounting identities,
//! and the guarantees of the dispute life cycle.

use vstd::prelude::*;

use crate::client::{LedgerView, step, step_result};
use crate::error::TxError;
use crate::transaction::{TransactionData, TransactionKind};

verus! {

/// The ledger state after a whole sequence of records, applied in order.
pub open spec fn fold_steps(l: LedgerView, ops: Seq<(u32, TransactionData)>) -> LedgerView
    decreases ops.len(),
{
    if ops.len() == 0 {
        l
    } else {
        fold_steps(step(l, ops[0].0, ops[0].1), ops.subrange(1, ops.len() as int))
    }
}

/// A record that moves funds in or out: a deposit or a withdrawal.
pub open spec fn is_transfer(data: TransactionData) -> bool {
    data.kind == TransactionKind::Deposit || data.kind == TransactionKind::Withdrawal
}

/// What one deposit or withdrawal record does to the available funds: its
/// amount, signed, when it is accepted, and nothing when it is rejected.
pub open spec fn transfer_delta(l: LedgerView, tx_id: u32, data: TransactionData) -> int {
    if step_result(l, tx_id, data) is Err {
        0
    } else {
        match data.kind {
            TransactionKind::Deposit => data.amount as int,
            TransactionKind::Withdrawal => -(data.amount as int),
            _ => 0,
        }
    }
}

/// The algebraic sum of the applied deltas along a sequence of records.
pub open spec fn transfer_delta_sum(l: LedgerView, ops: Seq<(u32, TransactionData)>) -> int
    decreases ops.len(),
{
    if ops.len() == 0 {
        0
    } else {
        transfer_delta(l, ops[0].0, ops[0].1) + transfer_delta_sum(
            step(l, ops[0].0, ops[0].1),
            ops.subrange(1, ops.len() as int),
        )
    }
}

/// What one record does to the account total `available + held`: an accepted
/// deposit adds its amount, an accepted withdrawal subtracts it, a
/// chargeback that moves funds subtracts the disputed amount, and nothing
/// else changes the total.
pub open spec fn total_delta(l: LedgerView, tx_id: u32, data: TransactionData) -> int {
    if step_result(l, tx_id, data) is Err {
        0
    } else {
        match data.kind {
            TransactionKind::Deposit => data.amount as int,
            TransactionKind::Withdrawal => -(data.amount as int),
            TransactionKind::Chargeback => if l.held >= l.history[tx_id] {
                -(l.history[tx_id] as int)
            } else {
                0
            },
            _ => 0,
        }
    }
}

/// The sum of the total deltas along a sequence of records.
pub open spec fn total_delta_sum(l: LedgerView, ops: Seq<(u32, TransactionData)>) -> int
    decreases ops.len(),
{
    if ops.len() == 0 {
        0
    } else {
        total_delta(l, ops[0].0, ops[0].1) + total_delta_sum(
            step(l, ops[0].0, ops[0].1),
            ops.subrange(1, ops.len() as int),
        )
    }
}

/// One step keeps the ledger well formed.
pub proof fn lemma_step_preserves_wf(l: LedgerView, tx_id: u32, data: TransactionData)
    requires
        l.wf(),
    ensures
        step(l, tx_id, data).wf(),
{
    let post = step(l, tx_id, data);
    if step_result(l, tx_id, data) is Ok {
        match data.kind {
            TransactionKind::Deposit | TransactionKind::Withdrawal => {
                assert forall|t: u32| post.disputed.contains(t) implies #[trigger] post
                    .history.contains_key(t) by {
                    assert(l.history.contains_key(t));
                }
            },
            TransactionKind::Dispute => {
                assert forall|t: u32| post.disputed.contains(t) implies #[trigger] post
                    .history.contains_key(t) by {
                    if t != tx_id {
                        assert(l.disputed.contains(t));
                    }
                }
            },
            TransactionKind::Resolve | TransactionKind::Chargeback => {
                assert forall|t: u32| post.disputed.contains(t) implies #[trigger] post
                    .history.contains_key(t) by {
                    assert(l.disputed.contains(t));
                }
            },
        }
    }
}

/// One accepted deposit or withdrawal changes the available funds by exactly
/// its signed amount and leaves the held funds alone; a rejected one changes
/// nothing.
pub proof fn lemma_transfer_available(l: LedgerView, tx_id: u32, data: TransactionData)
    requires
        l.wf(),
        is_transfer(data),
    ensures
        step(l, tx_id, data).available == l.available + transfer_delta(l, tx_id, data),
        step(l, tx_id, data).held == l.held,
{
}

/// The total `available + held` moves by exactly `total_delta` at each step.
pub proof fn lemma_step_total(l: LedgerView, tx_id: u32, data: TransactionData)
    requires
        l.wf(),
    ensures
        step(l, tx_id, data).total() == l.total() + total_delta(l, tx_id, data),
{
}

/// Over a sequence of deposits and withdrawals, the available funds after
/// processing equal the starting funds plus the algebraic sum of the applied
/// deltas: fixed-scale arithmetic drifts by nothing.
pub proof fn lemma_available_is_sum_of_deltas(l: LedgerView, ops: Seq<(u32, TransactionData)>)
    requires
        l.wf(),
        forall|i: int| 0 <= i < ops.len() ==> is_transfer((#[trigger] ops[i]).1),
    ensures
        fold_steps(l, ops).available == l.available + transfer_delta_sum(l, ops),
    decreases ops.len(),
{
    if ops.len() > 0 {
        let l1 = step(l, ops[0].0, ops[0].1);
        let rest = ops.subrange(1, ops.len() as int);
        lemma_transfer_available(l, ops[0].0, ops[0].1);
        lemma_step_preserves_wf(l, ops[0].0, ops[0].1);
        assert(forall|i: int| 0 <= i < rest.len() ==> is_transfer((#[trigger] rest[i]).1));
        lemma_available_is_sum_of_deltas(l1, rest);
    }
}

/// After any sequence of records, `available + held` equals the starting
/// total plus the sum of all successfully applied deposits, minus the
/// successfully applied withdrawals, minus the successfully applied
/// chargebacks. From a fresh ledger the starting total is zero.
pub proof fn lemma_total_accounting(l: LedgerView, ops: Seq<(u32, TransactionData)>)
    requires
        l.wf(),
    ensures
        fold_steps(l, ops).total() == l.total() + total_delta_sum(l, ops),
    decreases ops.len(),
{
    if ops.len() > 0 {
        let l1 = step(l, ops[0].0, ops[0].1);
        lemma_step_total(l, ops[0].0, ops[0].1);
        lemma_step_preserves_wf(l, ops[0].0, ops[0].1);
        lemma_total_accounting(l1, ops.subrange(1, ops.len() as int));
    }
}

/// From a fresh ledger, a sequence of deposits and withdrawals leaves the
/// available funds at exactly the algebraic sum of the applied deltas.
pub proof fn lemma_available_from_start(ops: Seq<(u32, TransactionData)>)
    requires
        forall|i: int| 0 <= i < ops.len() ==> is_transfer((#[trigger] ops[i]).1),
    ensures
        fold_steps(LedgerView::initial(), ops).available == transfer_delta_sum(
            LedgerView::initial(),
            ops,
        ),
{
    lemma_available_is_sum_of_deltas(LedgerView::initial(), ops);
}

/// From a fresh ledger, after any sequence of records, `available + held`
/// equals zero plus the sum of the applied deposits, minus the applied
/// withdrawals, minus the applied chargebacks.
pub proof fn lemma_total_from_start(ops: Seq<(u32, TransactionData)>)
    ensures
        fold_steps(LedgerView::initial(), ops).total() == total_delta_sum(
            LedgerView::initial(),
            ops,
        ),
{
    lemma_total_accounting(LedgerView::initial(), ops);
}

/// A withdrawal whose amount exceeds the available funds is rejected and
/// changes nothing.
pub proof fn lemma_overdraft_rejected(l: LedgerView, tx_id: u32, data: TransactionData)
    requires
        data.kind == TransactionKind::Withdrawal,
        data.amount > l.available,
    ensures
        step_result(l, tx_id, data) is Err,
        step(l, tx_id, data) == l,
{
}

/// Disputing the same transaction twice in a row is rejected the second
/// time, and the rejected attempt changes nothing — in particular the set of
/// disputed ids.
pub proof fn lemma_second_dispute_rejected(l: LedgerView, tx_id: u32, data: TransactionData)
    requires
        data.kind == TransactionKind::Dispute,
        step_result(l, tx_id, data) is Ok,
    ensures
        step_result(step(l, tx_id, data), tx_id, data) == Err::<(), TxError>(
            TxError::AlreadyDisputed,
        ),
        step(step(l, tx_id, data), tx_id, data) == step(l, tx_id, data),
{
}

/// A resolve or chargeback that names a transaction not under dispute is
/// rejected and changes nothing; on an unlocked account the error is
/// `NotDisputed`.
pub proof fn lemma_undisputed_rejected(l: LedgerView, tx_id: u32, data: TransactionData)
    requires
        data.kind == TransactionKind::Resolve || data.kind == TransactionKind::Chargeback,
        !l.disputed.contains(tx_id),
    ensures
        step_result(l, tx_id, data) is Err,
        step(l, tx_id, data) == l,
        !l.locked ==> step_result(l, tx_id, data) == Err::<(), TxError>(TxError::NotDisputed),
{
}

/// A chargeback that moves funds locks the account, and from then on every
/// record of every kind is rejected with `AccountLocked` and changes
/// nothing.
pub proof fn lemma_chargeback_locks(l: LedgerView, tx_id: u32, data: TransactionData)
    requires
        l.wf(),
        data.kind == TransactionKind::Chargeback,
        step_result(l, tx_id, data) is Ok,
        l.held >= l.history[tx_id],
    ensures
        step(l, tx_id, data).locked,
        forall|tx2: u32, d2: TransactionData|
            #[trigger] step_result(step(l, tx_id, data), tx2, d2) == Err::<(), TxError>(
                TxError::AccountLocked,
            ),
        forall|tx2: u32, d2: TransactionData|
            #[trigger] step(step(l, tx_id, data), tx2, d2) == step(l, tx_id, data),
{
}

/// On a locked account every record is rejected with `AccountLocked` and
/// changes nothing.
pub proof fn lemma_locked_rejects_everything(l: LedgerView, tx_id: u32, data: TransactionData)
    requires
        l.locked,
    ensures
        step_result(l, tx_id, data) == Err::<(), TxError>(TxError::AccountLocked),
        step(l, tx_id, data) == l,
{
}

} // verus!
