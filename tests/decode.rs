use ledger_replay::record::{
    parse_amount, parse_client, parse_kind, parse_row, parse_tx, Record, RowError, TxKind,
};
use ledger_replay::text::format_amount;

fn cells(v: &[&str]) -> Vec<Vec<u8>> {
    v.iter().map(|s| s.as_bytes().to_vec()).collect()
}

#[test]
fn kinds_are_decoded_by_exact_tag() {
    assert_eq!(parse_kind(b"deposit"), TxKind::Deposit);
    assert_eq!(parse_kind(b"withdrawal"), TxKind::Withdrawal);
    assert_eq!(parse_kind(b"dispute"), TxKind::Dispute);
    assert_eq!(parse_kind(b"resolve"), TxKind::Resolve);
    assert_eq!(parse_kind(b"chargeback"), TxKind::Chargeback);
    assert_eq!(parse_kind(b"transfer"), TxKind::Unknown);
    assert_eq!(parse_kind(b"Deposit"), TxKind::Unknown);
    assert_eq!(parse_kind(b""), TxKind::Unknown);
}

#[test]
fn client_cell_is_tolerant() {
    assert_eq!(parse_client(b"1"), Some(1));
    assert_eq!(parse_client(b"65535"), Some(65535));
    assert_eq!(parse_client(b"+12"), Some(12));
    assert_eq!(parse_client(b"007"), Some(7));
    assert_eq!(parse_client(b"65536"), None);
    assert_eq!(parse_client(b""), None);
    assert_eq!(parse_client(b"x1"), None);
    assert_eq!(parse_client(b"-1"), None);
    assert_eq!(parse_client(b"+"), None);
}

#[test]
fn tx_cell_must_be_u32() {
    assert_eq!(parse_tx(b"4294967295"), Ok(4294967295));
    assert_eq!(parse_tx(b"0"), Ok(0));
    assert_eq!(parse_tx(b"4294967296"), Err(RowError::InvalidTx));
    assert_eq!(parse_tx(b""), Err(RowError::InvalidTx));
    assert_eq!(parse_tx(b"1.0"), Err(RowError::InvalidTx));
}

#[test]
fn amount_cell_is_fixed_point() {
    assert_eq!(parse_amount(b"1.5"), Some(15000));
    assert_eq!(parse_amount(b"2"), Some(20000));
    assert_eq!(parse_amount(b"0.0001"), Some(1));
    assert_eq!(parse_amount(b".25"), Some(2500));
    assert_eq!(parse_amount(b"3."), Some(30000));
    assert_eq!(parse_amount(b"-1.25"), Some(-12500));
    assert_eq!(parse_amount(b"+7"), Some(70000));
    assert_eq!(parse_amount(b"922337203685477.5807"), Some(i64::MAX));
    assert_eq!(parse_amount(b"922337203685477.5808"), None);
    assert_eq!(parse_amount(b"1.23456"), None);
    assert_eq!(parse_amount(b""), None);
    assert_eq!(parse_amount(b"."), None);
    assert_eq!(parse_amount(b"-"), None);
    assert_eq!(parse_amount(b"1.2.3"), None);
    assert_eq!(parse_amount(b"abc"), None);
}

#[test]
fn row_decodes_all_cells() {
    assert_eq!(
        parse_row(&cells(&["deposit", "1", "1", "1.0"])),
        Ok(Record { kind: TxKind::Deposit, client: Some(1), tx: 1, amount: Some(10000) })
    );
    assert_eq!(
        parse_row(&cells(&["dispute", "", "3", ""])),
        Ok(Record { kind: TxKind::Dispute, client: None, tx: 3, amount: None })
    );
    assert_eq!(
        parse_row(&cells(&["transfer", "2", "4", "1"])),
        Ok(Record { kind: TxKind::Unknown, client: Some(2), tx: 4, amount: Some(10000) })
    );
}

#[test]
fn malformed_rows_are_errors() {
    assert_eq!(parse_row(&cells(&["deposit", "1", "1"])), Err(RowError::ColumnCount));
    assert_eq!(parse_row(&cells(&["deposit", "1", "x", "1"])), Err(RowError::InvalidTx));
}

#[test]
fn amounts_print_without_trailing_zeros() {
    assert_eq!(format_amount(15000), b"1.5".to_vec());
    assert_eq!(format_amount(30000), b"3".to_vec());
    assert_eq!(format_amount(0), b"0".to_vec());
    assert_eq!(format_amount(1), b"0.0001".to_vec());
    assert_eq!(format_amount(-12500), b"-1.25".to_vec());
    assert_eq!(format_amount(1234567), b"123.4567".to_vec());
    assert_eq!(format_amount(i64::MIN), b"-922337203685477.5808".to_vec());
}
