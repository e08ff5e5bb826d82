use payment_processing_engine::balance::Balance;
use payment_processing_engine::client::Client;
use payment_processing_engine::error::TxError;
use payment_processing_engine::transaction::{Transaction, TransactionData, TransactionKind};

fn data(kind: TransactionKind, amount: u64) -> TransactionData {
    TransactionData { kind, amount }
}

fn record(client: &Client, id: u16) -> Vec<String> {
    client.get_record(id)
}

#[test]
fn should_create_new_balance() {
    let balance = Balance::new(79080);
    assert_eq!(balance, Balance { available: 79080, held: 0 });
}

#[test]
fn should_create_new_client_from_deposit() {
    let tx_data = data(TransactionKind::Deposit, 568953);
    let mut client = Client::new(78, tx_data);
    assert_eq!(
        record(&client, 78),
        ["78", "56.8953", "0.0000", "56.8953", "false"]
    );
    // the deposit was recorded under its id: it can be disputed,
    let disputed = client.process_tx(78, data(TransactionKind::Dispute, 0));
    assert_eq!(disputed, Ok(()));
    // and its id advanced the monotonicity bound.
    let replay = client.process_tx(78, data(TransactionKind::Deposit, 1));
    assert_eq!(replay, Err(TxError::NonMonotonicId));
}

#[test]
fn should_create_new_client_from_arbitrary_tx() {
    let tx_data = data(TransactionKind::Dispute, 6575675);
    let mut client = Client::new(3438, tx_data);
    // a bare dispute references nothing this ledger recorded, so the first
    // record is rejected and the ledger stays in its fresh state
    assert_eq!(
        record(&client, 1),
        ["1", "0.0000", "0.0000", "0.0000", "false"]
    );
    let again = client.process_tx(3438, data(TransactionKind::Dispute, 6575675));
    assert_eq!(again, Err(TxError::UnknownTransaction));
    // nothing was recorded: a deposit with the smallest id is still accepted
    let deposit = client.process_tx(1, data(TransactionKind::Deposit, 5));
    assert_eq!(deposit, Ok(()));
}

#[test]
fn deposit_then_dispute_holds_funds() {
    let mut client = Client::default();
    assert_eq!(client.process_tx(1, data(TransactionKind::Deposit, 100000)), Ok(()));
    assert_eq!(client.process_tx(1, data(TransactionKind::Dispute, 0)), Ok(()));
    assert_eq!(
        record(&client, 7),
        ["7", "0.0000", "10.0000", "10.0000", "false"]
    );
}

#[test]
fn chargeback_locks_account() {
    let mut client = Client::default();
    assert_eq!(client.process_tx(1, data(TransactionKind::Deposit, 100000)), Ok(()));
    assert_eq!(client.process_tx(1, data(TransactionKind::Dispute, 0)), Ok(()));
    assert_eq!(client.process_tx(1, data(TransactionKind::Chargeback, 0)), Ok(()));
    assert_eq!(
        record(&client, 7),
        ["7", "0.0000", "0.0000", "0.0000", "true"]
    );
    // every later record of any kind is rejected and changes nothing
    assert_eq!(
        client.process_tx(2, data(TransactionKind::Deposit, 50000)),
        Err(TxError::AccountLocked)
    );
    assert_eq!(
        record(&client, 7),
        ["7", "0.0000", "0.0000", "0.0000", "true"]
    );
}

#[test]
fn deposit_then_withdrawal() {
    let mut client = Client::default();
    assert_eq!(client.process_tx(1, data(TransactionKind::Deposit, 200000)), Ok(()));
    assert_eq!(client.process_tx(2, data(TransactionKind::Withdrawal, 50000)), Ok(()));
    assert_eq!(
        record(&client, 3),
        ["3", "15.0000", "0.0000", "15.0000", "false"]
    );
}

#[test]
fn dispute_of_unknown_transaction_is_rejected() {
    let mut client = Client::default();
    assert_eq!(client.process_tx(1, data(TransactionKind::Deposit, 123456)), Ok(()));
    assert_eq!(
        client.process_tx(99, data(TransactionKind::Dispute, 0)),
        Err(TxError::UnknownTransaction)
    );
    assert_eq!(
        record(&client, 2),
        ["2", "12.3456", "0.0000", "12.3456", "false"]
    );
}

#[test]
fn overdraft_is_rejected_and_changes_nothing() {
    let mut client = Client::default();
    assert_eq!(client.process_tx(1, data(TransactionKind::Deposit, 10000)), Ok(()));
    assert_eq!(
        client.process_tx(2, data(TransactionKind::Withdrawal, 10001)),
        Err(TxError::InsufficientFunds)
    );
    assert_eq!(
        record(&client, 1),
        ["1", "1.0000", "0.0000", "1.0000", "false"]
    );
}

#[test]
fn second_dispute_is_rejected() {
    let mut client = Client::default();
    assert_eq!(client.process_tx(1, data(TransactionKind::Deposit, 30000)), Ok(()));
    assert_eq!(client.process_tx(1, data(TransactionKind::Dispute, 0)), Ok(()));
    assert_eq!(
        client.process_tx(1, data(TransactionKind::Dispute, 0)),
        Err(TxError::AlreadyDisputed)
    );
    // the rejected attempt left the dispute in place: resolve still works
    assert_eq!(client.process_tx(1, data(TransactionKind::Resolve, 0)), Ok(()));
    assert_eq!(
        record(&client, 1),
        ["1", "3.0000", "0.0000", "3.0000", "false"]
    );
}

#[test]
fn resolve_and_chargeback_need_a_dispute() {
    let mut client = Client::default();
    assert_eq!(client.process_tx(1, data(TransactionKind::Deposit, 30000)), Ok(()));
    assert_eq!(
        client.process_tx(1, data(TransactionKind::Resolve, 0)),
        Err(TxError::NotDisputed)
    );
    assert_eq!(
        client.process_tx(1, data(TransactionKind::Chargeback, 0)),
        Err(TxError::NotDisputed)
    );
}

#[test]
fn dispute_needs_available_funds() {
    let mut client = Client::default();
    assert_eq!(client.process_tx(1, data(TransactionKind::Deposit, 50000)), Ok(()));
    assert_eq!(client.process_tx(2, data(TransactionKind::Withdrawal, 40000)), Ok(()));
    // the deposited amount is no longer available, so disputing it fails
    assert_eq!(
        client.process_tx(1, data(TransactionKind::Dispute, 0)),
        Err(TxError::InsufficientFunds)
    );
}

#[test]
fn non_monotonic_ids_are_rejected() {
    let mut client = Client::default();
    assert_eq!(client.process_tx(5, data(TransactionKind::Deposit, 100)), Ok(()));
    assert_eq!(
        client.process_tx(5, data(TransactionKind::Deposit, 100)),
        Err(TxError::NonMonotonicId)
    );
    assert_eq!(
        client.process_tx(4, data(TransactionKind::Withdrawal, 1)),
        Err(TxError::NonMonotonicId)
    );
}

#[test]
fn deposit_past_the_representable_maximum_is_rejected() {
    let mut client = Client::default();
    assert_eq!(client.process_tx(1, data(TransactionKind::Deposit, u64::MAX)), Ok(()));
    assert_eq!(
        client.process_tx(2, data(TransactionKind::Deposit, 1)),
        Err(TxError::BalanceOverflow)
    );
}

#[test]
fn repeated_small_amounts_do_not_drift() {
    // one tenth, added ten times, is exactly one: fixed-scale integers do
    // not accumulate rounding error
    let mut client = Client::default();
    for i in 0..10u32 {
        assert_eq!(
            client.process_tx(i + 1, data(TransactionKind::Deposit, 1000)),
            Ok(())
        );
    }
    assert_eq!(
        record(&client, 1),
        ["1", "1.0000", "0.0000", "1.0000", "false"]
    );
    // available + held equals the sum of the applied deposits and
    // withdrawals throughout
    assert_eq!(client.process_tx(11, data(TransactionKind::Withdrawal, 2500)), Ok(()));
    assert_eq!(
        record(&client, 1),
        ["1", "0.7500", "0.0000", "0.7500", "false"]
    );
}

#[test]
fn resolve_returns_funds_and_reopens_nothing() {
    let mut client = Client::default();
    assert_eq!(client.process_tx(1, data(TransactionKind::Deposit, 80000)), Ok(()));
    assert_eq!(client.process_tx(1, data(TransactionKind::Dispute, 0)), Ok(()));
    assert_eq!(client.process_tx(1, data(TransactionKind::Resolve, 0)), Ok(()));
    assert_eq!(
        record(&client, 9),
        ["9", "8.0000", "0.0000", "8.0000", "false"]
    );
    // the dispute was closed: a second resolve has nothing to resolve
    assert_eq!(
        client.process_tx(1, data(TransactionKind::Resolve, 0)),
        Err(TxError::NotDisputed)
    );
}

#[test]
fn transaction_carries_its_parts() {
    let t = Transaction::new(7, 42, data(TransactionKind::Withdrawal, 12345));
    assert_eq!(t.client_id, 7);
    assert_eq!(t.id, 42);
    assert_eq!(t.get_data(), data(TransactionKind::Withdrawal, 12345));
}
