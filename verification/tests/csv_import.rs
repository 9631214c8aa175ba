use membership::amount::Amount;
use membership::auth::{AccountRecord, Jwt};
use membership::bulk_update::{submit_givingfuel_bulk_update, BulkSummary, ImportError};
use membership::dates::Date;
use membership::ledger::Ledger;

const HEADER: &str = "Transaction ID,Total Paid ($ Amount),Payment Date,Status,Transaction Type,Billing Name (First Name),Billing Name (Last Name),Billing Email Address";

fn operator() -> Jwt {
    Jwt {
        account: AccountRecord {
            id: 1,
            email: String::from("admin@example.com"),
            is_admin: true,
        },
        exp: 2000000000,
    }
}

fn csv(rows: &[&str]) -> Vec<u8> {
    let mut text = String::from(HEADER);
    for row in rows {
        text.push('\n');
        text.push_str(row);
    }
    text.into_bytes()
}

#[test]
fn import_replays_newest_first_export_oldest_first() {
    // File order is newest-first; the member must be created from the
    // earliest-processed row, and all three payments recorded with their
    // own effective dates.
    let mut ledger = Ledger::new();
    let user = operator();
    let confirm = String::from("admin@example.com");
    let text = csv(&[
        "3003,10.00,2024-03-01 1:05 PM,completed,charge,Dana,Hill,Dana@Example.com",
        "3001,5.00,2024-01-01 9:30 AM,completed,charge,Dana,Hill,Dana@Example.com",
        "3002,5.00,2024-02-01 2:45 PM,completed,charge,Dana,Hill,Dana@Example.com",
    ]);
    let summary =
        submit_givingfuel_bulk_update(&mut ledger, &user, Some(&confirm), Some(&text)).unwrap();
    assert_eq!(summary, BulkSummary { members_added: 1, payments_added: 3 });
    assert_eq!(ledger.member_count(), 1);
    assert_eq!(ledger.payment_count(), 3);
    assert_eq!(ledger.members[0].email, b"dana@example.com".to_vec());
    assert_eq!(ledger.members[0].first_name, b"Dana".to_vec());
    // Reverse file order: the last file row (2024-02-01) runs first.
    assert_eq!(ledger.payments[0].effective_on, Some(Date { year: 2024, month: 2, day: 1 }));
    assert_eq!(ledger.payments[1].effective_on, Some(Date { year: 2024, month: 1, day: 1 }));
    assert_eq!(ledger.payments[2].effective_on, Some(Date { year: 2024, month: 3, day: 1 }));
    assert_eq!(ledger.payments[0].transaction_id, Some(3002));
    assert_eq!(ledger.payments[1].transaction_id, Some(3001));
    assert_eq!(ledger.payments[2].transaction_id, Some(3003));
    assert_eq!(ledger.payments[0].amount_paid, Amount { cents: 500 });
    assert_eq!(ledger.payments[2].amount_paid, Amount { cents: 1000 });
    assert_eq!(ledger.payments[0].member_id, 1);
    assert_eq!(ledger.payments[1].member_id, 1);
    assert_eq!(ledger.payments[2].member_id, 1);
}

#[test]
fn non_charge_rows_are_skipped_without_error() {
    let mut ledger = Ledger::new();
    let user = operator();
    let confirm = String::from("admin@example.com");
    let text = csv(&[
        "4001,10.00,2024-03-01 1:05 PM,refunded,charge,Eve,Low,eve@example.com",
        "4002,10.00,2024-03-01 1:05 PM,completed,refund,Eve,Low,eve@example.com",
        "4003,,2024-03-01 1:05 PM,completed,charge,Eve,Low,eve@example.com",
    ]);
    let summary =
        submit_givingfuel_bulk_update(&mut ledger, &user, Some(&confirm), Some(&text)).unwrap();
    assert_eq!(summary, BulkSummary { members_added: 0, payments_added: 0 });
    assert_eq!(ledger.member_count(), 0);
    assert_eq!(ledger.payment_count(), 0);
}

#[test]
fn email_mismatch_rejects_before_reading() {
    let mut ledger = Ledger::new();
    let user = operator();
    let wrong = String::from("intruder@example.com");
    let text = csv(&["5001,10.00,2024-03-01 1:05 PM,completed,charge,Al,Bo,al@example.com"]);
    assert_eq!(
        submit_givingfuel_bulk_update(&mut ledger, &user, Some(&wrong), Some(&text)),
        Err(ImportError::EmailMismatch)
    );
    assert_eq!(
        submit_givingfuel_bulk_update(&mut ledger, &user, None, Some(&text)),
        Err(ImportError::EmailMismatch)
    );
    assert_eq!(ledger.member_count(), 0);
    assert_eq!(ledger.payment_count(), 0);
}

#[test]
fn missing_file_is_a_client_error() {
    let mut ledger = Ledger::new();
    let user = operator();
    let confirm = String::from("admin@example.com");
    assert_eq!(
        submit_givingfuel_bulk_update(&mut ledger, &user, Some(&confirm), None),
        Err(ImportError::MissingFile)
    );
}

#[test]
fn one_bad_row_aborts_the_whole_import() {
    let mut ledger = Ledger::new();
    let user = operator();
    let confirm = String::from("admin@example.com");
    let text = csv(&[
        "6001,10.00,2024-03-01 1:05 PM,completed,charge,Al,Bo,al@example.com",
        "6002,not-a-number,2024-03-01 1:05 PM,completed,charge,Al,Bo,al@example.com",
        "6003,10.00,2024-03-01 1:05 PM,completed,charge,Al,Bo,al@example.com",
    ]);
    assert_eq!(
        submit_givingfuel_bulk_update(&mut ledger, &user, Some(&confirm), Some(&text)),
        Err(ImportError::BadRow)
    );
    assert_eq!(ledger.member_count(), 0);
    assert_eq!(ledger.payment_count(), 0);

    let bad_date = csv(&["6004,10.00,2024-03-99 1:05 PM,completed,charge,Al,Bo,al@example.com"]);
    assert_eq!(
        submit_givingfuel_bulk_update(&mut ledger, &user, Some(&confirm), Some(&bad_date)),
        Err(ImportError::BadRow)
    );
    assert_eq!(ledger.member_count(), 0);
}

#[test]
fn missing_column_is_rejected() {
    let mut ledger = Ledger::new();
    let user = operator();
    let confirm = String::from("admin@example.com");
    let mut text = Vec::new();
    text.extend_from_slice(b"Transaction ID,Status\n1,completed");
    assert_eq!(
        submit_givingfuel_bulk_update(&mut ledger, &user, Some(&confirm), Some(&text)),
        Err(ImportError::MissingColumn)
    );
}

#[test]
fn empty_or_header_only_file_imports_nothing() {
    let mut ledger = Ledger::new();
    let user = operator();
    let confirm = String::from("admin@example.com");
    let empty = Vec::new();
    assert_eq!(
        submit_givingfuel_bulk_update(&mut ledger, &user, Some(&confirm), Some(&empty)),
        Ok(BulkSummary { members_added: 0, payments_added: 0 })
    );
    let header_only = csv(&[]);
    assert_eq!(
        submit_givingfuel_bulk_update(&mut ledger, &user, Some(&confirm), Some(&header_only)),
        Ok(BulkSummary { members_added: 0, payments_added: 0 })
    );
}

#[test]
fn quoted_fields_and_crlf_are_handled() {
    let mut ledger = Ledger::new();
    let user = operator();
    let confirm = String::from("admin@example.com");
    let mut text = String::from(HEADER);
    text.push_str("\r\n");
    text.push_str(
        "7001,10.00,2024-03-01 1:05 PM,completed,charge,\"Smith, Jr\",\"O\"\"Neil\",gus@example.com\r\n",
    );
    let summary = submit_givingfuel_bulk_update(
        &mut ledger,
        &user,
        Some(&confirm),
        Some(&text.into_bytes()),
    )
    .unwrap();
    assert_eq!(summary, BulkSummary { members_added: 1, payments_added: 1 });
    assert_eq!(ledger.members[0].first_name, b"Smith, Jr".to_vec());
    assert_eq!(ledger.members[0].last_name, b"O\"Neil".to_vec());
}

#[test]
fn csv_parser_splits_records_and_fields() {
    let rows = membership::csv_table::parse_csv(b"a,b\n\"c,d\",e\n\nf,\"g\"\"h\"");
    assert_eq!(rows.len(), 3);
    assert_eq!(rows[0], vec![b"a".to_vec(), b"b".to_vec()]);
    assert_eq!(rows[1], vec![b"c,d".to_vec(), b"e".to_vec()]);
    assert_eq!(rows[2], vec![b"f".to_vec(), b"g\"h".to_vec()]);
}
