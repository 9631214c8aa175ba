use membership::amount::Amount;
use membership::auth::{AccountRecord, Jwt};
use membership::bulk_update::{submit_donorbox_bulk_update, BackfillItem, ImportError};
use membership::dates::Date;
use membership::donorbox::new_donation::{Campaign, DonationEvent};
use membership::donorbox::{Donor, DonorboxConfig};
use membership::ledger::Ledger;

fn operator() -> Jwt {
    Jwt {
        account: AccountRecord {
            id: 1,
            email: String::from("admin@example.com"),
            is_admin: true,
        },
        exp: 2000000000,
    }
}

fn donation(email: &str, id: i32) -> DonationEvent {
    DonationEvent {
        action: String::from("new"),
        campaign: Campaign { id: 4 },
        donor: Donor {
            id,
            first_name: String::from("Pat"),
            last_name: String::from("Lee"),
            email: String::from(email),
        },
        net_amount: Amount::parse(b"15.00").unwrap(),
        id,
        formatted_net_amount: String::from("$15.00"),
        stripe_charge_id: String::from("ch_x"),
        donation_date: Date { year: 2024, month: 2, day: 10 },
        donation_date_raw: String::from("2024-02-10T08:00:00Z"),
        plan_id: 2,
        questions: Vec::new(),
    }
}

#[test]
fn one_malformed_event_among_ten_still_commits_the_nine() {
    // Aggregation policy: nine successes, one error string, and the nine
    // reconciliations stay committed — unlike the CSV path's abort.
    let mut ledger = Ledger::new();
    let user = operator();
    let cfg = DonorboxConfig { campaign_id: 4 };
    let confirm = String::from("admin@example.com");
    let start = String::from("2024-01-01");
    let mut items = Vec::new();
    for k in 0..5 {
        items.push(BackfillItem::Event(donation(&format!("donor{}@example.com", k), 100 + k)));
    }
    items.push(BackfillItem::Malformed(String::from("105: missing donor email")));
    for k in 5..9 {
        items.push(BackfillItem::Event(donation(&format!("donor{}@example.com", k), 100 + k)));
    }
    let summary = submit_donorbox_bulk_update(
        &mut ledger,
        &user,
        &cfg,
        Some(&confirm),
        Some(&start),
        &items,
    )
    .unwrap();
    assert_eq!(summary.transactions, 9);
    assert_eq!(summary.new_members, 9);
    assert_eq!(summary.skipped, 0);
    assert_eq!(summary.errors.len(), 1);
    assert_eq!(summary.errors[0], "105: missing donor email");
    assert_eq!(ledger.member_count(), 9);
    assert_eq!(ledger.payment_count(), 9);
}

#[test]
fn backfill_skips_out_of_scope_events_without_error() {
    let mut ledger = Ledger::new();
    let user = operator();
    let cfg = DonorboxConfig { campaign_id: 4 };
    let confirm = String::from("admin@example.com");
    let start = String::from("2024-01-01");
    let mut refund = donation("r@example.com", 300);
    refund.action = String::from("refund");
    let mut other = donation("o@example.com", 301);
    other.campaign = Campaign { id: 9 };
    let items = vec![
        BackfillItem::Event(refund),
        BackfillItem::Event(other),
        BackfillItem::Event(donation("keep@example.com", 302)),
    ];
    let summary = submit_donorbox_bulk_update(
        &mut ledger,
        &user,
        &cfg,
        Some(&confirm),
        Some(&start),
        &items,
    )
    .unwrap();
    assert_eq!(summary.transactions, 1);
    assert_eq!(summary.skipped, 2);
    assert_eq!(summary.new_members, 1);
    assert!(summary.errors.is_empty());
    assert_eq!(ledger.member_count(), 1);
    assert_eq!(ledger.members[0].email, b"keep@example.com".to_vec());
}

#[test]
fn backfill_is_gated_by_email_and_start_date() {
    let mut ledger = Ledger::new();
    let user = operator();
    let cfg = DonorboxConfig { campaign_id: 4 };
    let wrong = String::from("other@example.com");
    let start = String::from("2024-01-01");
    let items = vec![BackfillItem::Event(donation("x@example.com", 400))];
    assert!(matches!(
        submit_donorbox_bulk_update(&mut ledger, &user, &cfg, Some(&wrong), Some(&start), &items),
        Err(ImportError::EmailMismatch)
    ));
    let confirm = String::from("admin@example.com");
    assert!(matches!(
        submit_donorbox_bulk_update(&mut ledger, &user, &cfg, Some(&confirm), None, &items),
        Err(ImportError::MissingStartDate)
    ));
    assert_eq!(ledger.member_count(), 0);
    assert_eq!(ledger.payment_count(), 0);
}

#[test]
fn repeated_backfill_of_same_transaction_duplicates_payment_only() {
    // The store has no unique constraint on (platform, transaction_id):
    // re-running a backfill duplicates payments but never members.
    let mut ledger = Ledger::new();
    let user = operator();
    let cfg = DonorboxConfig { campaign_id: 4 };
    let confirm = String::from("admin@example.com");
    let start = String::from("2024-01-01");
    let items = vec![BackfillItem::Event(donation("dup@example.com", 500))];
    submit_donorbox_bulk_update(&mut ledger, &user, &cfg, Some(&confirm), Some(&start), &items)
        .unwrap();
    let second = submit_donorbox_bulk_update(
        &mut ledger,
        &user,
        &cfg,
        Some(&confirm),
        Some(&start),
        &items,
    )
    .unwrap();
    assert_eq!(second.new_members, 0);
    assert_eq!(second.transactions, 1);
    assert_eq!(ledger.member_count(), 1);
    assert_eq!(ledger.payment_count(), 2);
    assert_eq!(ledger.payments[0].transaction_id, Some(500));
    assert_eq!(ledger.payments[1].transaction_id, Some(500));
}
