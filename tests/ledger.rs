use ledger_replay::ledger::{Ledger, Notice, OutputInfo};
use ledger_replay::record::{Record, TxKind};

const UNIT: i64 = 10000;

fn rec(kind: TxKind, client: Option<u16>, tx: u32, amount: Option<i64>) -> Record {
    Record { kind, client, tx, amount }
}

fn row(client: u16, available: i64, held: i64, total: i64, locked: bool) -> OutputInfo {
    OutputInfo { client, available, held, total, locked }
}

#[test]
fn deposits_add_to_available_and_total() {
    let mut l = Ledger::new();
    l.process_record(rec(TxKind::Deposit, Some(1), 1, Some(3 * UNIT)));
    l.process_record(rec(TxKind::Deposit, Some(1), 2, Some(4 * UNIT + 5000)));
    assert_eq!(l.balance_of(1), Some(row(1, 75000, 0, 75000, false)));
}

#[test]
fn deposit_without_amount_keeps_balances() {
    let mut l = Ledger::new();
    l.process_record(rec(TxKind::Deposit, Some(4), 1, None));
    assert_eq!(l.balance_of(4), Some(row(4, 0, 0, 0, false)));
    l.process_record(rec(TxKind::Deposit, Some(4), 2, Some(UNIT)));
    l.process_record(rec(TxKind::Deposit, Some(4), 3, None));
    assert_eq!(l.balance_of(4), Some(row(4, UNIT, 0, UNIT, false)));
}

#[test]
fn withdrawal_respects_available_funds() {
    let mut l = Ledger::new();
    l.process_record(rec(TxKind::Deposit, Some(2), 1, Some(10 * UNIT)));
    l.process_record(rec(TxKind::Withdrawal, Some(2), 2, Some(15 * UNIT)));
    assert_eq!(l.balance_of(2), Some(row(2, 10 * UNIT, 0, 10 * UNIT, false)));
    l.process_record(rec(TxKind::Withdrawal, Some(2), 3, Some(7 * UNIT)));
    assert_eq!(l.balance_of(2), Some(row(2, 3 * UNIT, 0, 3 * UNIT, false)));
}

#[test]
fn withdrawal_of_exactly_available_empties_account() {
    let mut l = Ledger::new();
    l.process_record(rec(TxKind::Deposit, Some(2), 1, Some(10 * UNIT)));
    l.process_record(rec(TxKind::Withdrawal, Some(2), 2, Some(10 * UNIT)));
    assert_eq!(l.balance_of(2), Some(row(2, 0, 0, 0, false)));
}

#[test]
fn withdrawal_by_new_client_opens_empty_account() {
    let mut l = Ledger::new();
    l.process_record(rec(TxKind::Withdrawal, Some(9), 1, Some(5 * UNIT)));
    assert_eq!(l.balance_of(9), Some(row(9, 0, 0, 0, false)));
    // the withdrawal is in the history, so it can be disputed
    l.process_record(rec(TxKind::Dispute, Some(9), 1, None));
    assert_eq!(l.balance_of(9), Some(row(9, -5 * UNIT, 5 * UNIT, 0, false)));
}

#[test]
fn dispute_moves_funds_to_held() {
    let mut l = Ledger::new();
    l.process_record(rec(TxKind::Deposit, Some(1), 1, Some(50 * UNIT)));
    l.process_record(rec(TxKind::Dispute, Some(1), 1, None));
    assert_eq!(l.balance_of(1), Some(row(1, 0, 50 * UNIT, 50 * UNIT, false)));
}

#[test]
fn resolve_reverses_dispute() {
    let mut l = Ledger::new();
    l.process_record(rec(TxKind::Deposit, Some(1), 1, Some(50 * UNIT)));
    l.process_record(rec(TxKind::Dispute, Some(1), 1, None));
    l.process_record(rec(TxKind::Resolve, Some(1), 1, None));
    assert_eq!(l.balance_of(1), Some(row(1, 50 * UNIT, 0, 50 * UNIT, false)));
}

#[test]
fn chargeback_reverses_and_locks() {
    let mut l = Ledger::new();
    l.process_record(rec(TxKind::Deposit, Some(3), 2, Some(30 * UNIT)));
    l.process_record(rec(TxKind::Dispute, Some(3), 2, None));
    assert_eq!(l.balance_of(3), Some(row(3, 0, 30 * UNIT, 30 * UNIT, false)));
    l.process_record(rec(TxKind::Chargeback, Some(3), 2, None));
    assert_eq!(l.balance_of(3), Some(row(3, 0, 0, 0, true)));
}

#[test]
fn locked_account_rejects_mutation() {
    let mut l = Ledger::new();
    l.process_record(rec(TxKind::Deposit, Some(3), 2, Some(30 * UNIT)));
    l.process_record(rec(TxKind::Dispute, Some(3), 2, None));
    l.process_record(rec(TxKind::Chargeback, Some(3), 2, None));
    l.process_record(rec(TxKind::Deposit, Some(3), 5, Some(100 * UNIT)));
    l.process_record(rec(TxKind::Withdrawal, Some(3), 6, Some(UNIT)));
    l.process_record(rec(TxKind::Resolve, Some(3), 2, None));
    assert_eq!(l.balance_of(3), Some(row(3, 0, 0, 0, true)));
}

#[test]
fn unassigned_clients_get_distinct_fresh_ids() {
    let mut l = Ledger::new();
    l.process_record(rec(TxKind::Deposit, Some(7), 1, Some(UNIT)));
    let (a, na) = l.process_record(rec(TxKind::Deposit, None, 2, Some(2 * UNIT)));
    let (b, nb) = l.process_record(rec(TxKind::Deposit, None, 3, Some(3 * UNIT)));
    assert_eq!(na, Notice::Applied);
    assert_eq!(nb, Notice::Applied);
    let ida = a.client.unwrap();
    let idb = b.client.unwrap();
    assert_ne!(ida, 7);
    assert_ne!(idb, 7);
    assert_ne!(ida, idb);
    assert_eq!(l.balance_of(ida), Some(row(ida, 2 * UNIT, 0, 2 * UNIT, false)));
    assert_eq!(l.balance_of(idb), Some(row(idb, 3 * UNIT, 0, 3 * UNIT, false)));
    assert_eq!(a.tx, 2);
    assert_eq!(a.amount, Some(2 * UNIT));
}

#[test]
fn generated_id_avoids_taken_ids() {
    let mut l = Ledger::new();
    for id in 0..=65534u16 {
        l.handle_deposit(rec(TxKind::Deposit, Some(id), 1, None));
    }
    assert_eq!(l.generate_new_client_id(), Some(65535));
    l.handle_deposit(rec(TxKind::Deposit, Some(65535), 1, None));
    assert_eq!(l.generate_new_client_id(), None);
}

#[test]
fn dispute_on_unknown_tx_is_noop() {
    let mut l = Ledger::new();
    l.process_record(rec(TxKind::Deposit, Some(1), 1, Some(20 * UNIT)));
    l.process_record(rec(TxKind::Dispute, Some(1), 99, None));
    l.process_record(rec(TxKind::Resolve, Some(1), 99, None));
    l.process_record(rec(TxKind::Chargeback, Some(1), 99, None));
    assert_eq!(l.balance_of(1), Some(row(1, 20 * UNIT, 0, 20 * UNIT, false)));
}

#[test]
fn dispute_for_unknown_client_creates_nothing() {
    let mut l = Ledger::new();
    l.process_record(rec(TxKind::Dispute, Some(5), 1, None));
    l.process_record(rec(TxKind::Chargeback, Some(5), 1, None));
    assert_eq!(l.balance_of(5), None);
    assert!(l.snapshot().is_empty());
}

#[test]
fn unrecognized_type_is_dropped() {
    let mut l = Ledger::new();
    l.process_record(rec(TxKind::Unknown, Some(8), 1, Some(5 * UNIT)));
    assert_eq!(l.balance_of(8), None);
    l.process_record(rec(TxKind::Deposit, Some(8), 2, Some(5 * UNIT)));
    l.process_record(rec(TxKind::Unknown, Some(8), 3, Some(5 * UNIT)));
    assert_eq!(l.balance_of(8), Some(row(8, 5 * UNIT, 0, 5 * UNIT, false)));
}

#[test]
fn resolve_skips_dispute_records() {
    let mut l = Ledger::new();
    l.process_record(rec(TxKind::Deposit, Some(1), 1, Some(UNIT)));
    l.process_record(rec(TxKind::Dispute, Some(1), 2, None)); // unknown tx: not recorded
    l.process_record(rec(TxKind::Dispute, Some(1), 1, None));
    l.process_record(rec(TxKind::Resolve, Some(1), 1, None));
    assert_eq!(l.balance_of(1), Some(row(1, UNIT, 0, UNIT, false)));
}

#[test]
fn replaying_the_same_records_twice_gives_the_same_rows() {
    let records = vec![
        rec(TxKind::Deposit, Some(1), 1, Some(UNIT)),
        rec(TxKind::Deposit, Some(2), 2, Some(2 * UNIT)),
        rec(TxKind::Withdrawal, Some(1), 3, Some(5000)),
        rec(TxKind::Dispute, Some(2), 2, None),
    ];
    let mut l1 = Ledger::new();
    let mut l2 = Ledger::new();
    let a1 = l1.process_all(&records);
    let a2 = l2.process_all(&records);
    assert_eq!(a1, records);
    assert_eq!(a2, records);
    assert_eq!(l1.snapshot(), l2.snapshot());
    assert_eq!(
        l1.snapshot(),
        vec![row(1, 5000, 0, 5000, false), row(2, 0, 2 * UNIT, 2 * UNIT, false)]
    );
}

#[test]
fn notices_name_each_refusal() {
    let mut l = Ledger::new();
    let n = |l: &mut Ledger, r: Record| l.process_record(r).1;
    assert_eq!(n(&mut l, rec(TxKind::Unknown, Some(1), 1, Some(UNIT))), Notice::UnknownKind);
    assert_eq!(n(&mut l, rec(TxKind::Dispute, Some(1), 1, None)), Notice::NoAccount);
    assert_eq!(n(&mut l, rec(TxKind::Withdrawal, Some(2), 1, Some(UNIT))), Notice::FirstWithdrawal);
    assert_eq!(n(&mut l, rec(TxKind::Deposit, Some(1), 2, None)), Notice::MissingAmount);
    assert_eq!(n(&mut l, rec(TxKind::Deposit, Some(1), 3, Some(UNIT))), Notice::Applied);
    assert_eq!(n(&mut l, rec(TxKind::Withdrawal, Some(1), 4, Some(2 * UNIT))), Notice::Overdraft);
    assert_eq!(n(&mut l, rec(TxKind::Withdrawal, Some(1), 5, None)), Notice::MissingAmount);
    assert_eq!(n(&mut l, rec(TxKind::Dispute, Some(1), 77, None)), Notice::TxNotFound);
    assert_eq!(n(&mut l, rec(TxKind::Dispute, Some(1), 2, None)), Notice::MissingAmount);
    assert_eq!(n(&mut l, rec(TxKind::Deposit, Some(1), 6, Some(i64::MAX))), Notice::OutOfRange);
    assert_eq!(n(&mut l, rec(TxKind::Dispute, Some(1), 3, None)), Notice::Applied);
    assert_eq!(n(&mut l, rec(TxKind::Chargeback, Some(1), 3, None)), Notice::Applied);
    assert_eq!(n(&mut l, rec(TxKind::Deposit, Some(1), 7, Some(UNIT))), Notice::Locked);
    assert_eq!(l.balance_of(1), Some(row(1, 0, 0, 0, true)));
}

#[test]
fn out_of_range_deposit_keeps_balances() {
    let mut l = Ledger::new();
    l.process_record(rec(TxKind::Deposit, Some(1), 1, Some(i64::MAX)));
    l.process_record(rec(TxKind::Deposit, Some(1), 2, Some(1)));
    assert_eq!(l.balance_of(1), Some(row(1, i64::MAX, 0, i64::MAX, false)));
}
