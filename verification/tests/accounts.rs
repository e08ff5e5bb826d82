use payment_processing_engine::error::TxError;
use payment_processing_engine::state::{State, route, report_rows};
use payment_processing_engine::transaction::{TransactionData, TransactionKind};

fn data(kind: TransactionKind, amount: u64) -> TransactionData {
    TransactionData { kind, amount }
}

#[test]
fn state_keeps_its_filename() {
    let state = State::new(String::from("transactions.csv"));
    assert_eq!(state.filename(), "transactions.csv");
}

#[test]
fn route_creates_ledgers_on_first_sight() {
    let mut state = State::new(String::from("input"));
    assert_eq!(
        route(&mut state.clients, 1, 1, data(TransactionKind::Deposit, 15000)),
        Ok(())
    );
    assert_eq!(
        route(&mut state.clients, 2, 2, data(TransactionKind::Deposit, 20000)),
        Ok(())
    );
    assert_eq!(
        route(&mut state.clients, 1, 3, data(TransactionKind::Withdrawal, 5000)),
        Ok(())
    );
    let mut rows = report_rows(&state.clients);
    rows.sort();
    assert_eq!(rows.len(), 2);
    assert_eq!(rows[0], ["1", "1.0000", "0.0000", "1.0000", "false"]);
    assert_eq!(rows[1], ["2", "2.0000", "0.0000", "2.0000", "false"]);
}

#[test]
fn route_reports_the_rejection_of_a_first_record() {
    let mut state = State::new(String::from("input"));
    assert_eq!(
        route(&mut state.clients, 9, 4, data(TransactionKind::Dispute, 0)),
        Err(TxError::UnknownTransaction)
    );
    // the ledger exists afterwards, in its fresh state
    let rows = report_rows(&state.clients);
    assert_eq!(rows.len(), 1);
    assert_eq!(rows[0], ["9", "0.0000", "0.0000", "0.0000", "false"]);
}

#[test]
fn records_of_one_client_never_touch_another() {
    let mut state = State::new(String::from("input"));
    assert_eq!(
        route(&mut state.clients, 1, 1, data(TransactionKind::Deposit, 10000)),
        Ok(())
    );
    assert_eq!(
        route(&mut state.clients, 2, 2, data(TransactionKind::Deposit, 10000)),
        Ok(())
    );
    // client 2 disputes and charges back; client 1 is untouched
    assert_eq!(route(&mut state.clients, 2, 2, data(TransactionKind::Dispute, 0)), Ok(()));
    assert_eq!(
        route(&mut state.clients, 2, 2, data(TransactionKind::Chargeback, 0)),
        Ok(())
    );
    assert_eq!(
        route(&mut state.clients, 2, 3, data(TransactionKind::Deposit, 1)),
        Err(TxError::AccountLocked)
    );
    let mut rows = report_rows(&state.clients);
    rows.sort();
    assert_eq!(rows[0], ["1", "1.0000", "0.0000", "1.0000", "false"]);
    assert_eq!(rows[1], ["2", "0.0000", "0.0000", "0.0000", "true"]);
}
