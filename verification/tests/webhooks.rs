use hmac::{Hmac, Mac};
use sha2::Sha256;

use membership::amount::Amount;
use membership::dates::Date;
use membership::donorbox::new_donation::{Campaign, DonationEvent};
use membership::donorbox::{Donor, DonorboxConfig};
use membership::ledger::Ledger;
use membership::outcome::{SkipReason, StoreError, WebhookRejection};
use membership::webconnex::{Billing, EventDetails, Name, RequestPayload};

fn donation(email: &str, action: &str, campaign: i32, id: i32) -> DonationEvent {
    DonationEvent {
        action: String::from(action),
        campaign: Campaign { id: campaign },
        donor: Donor {
            id: 77,
            first_name: String::from("Alice"),
            last_name: String::from("Smith"),
            email: String::from(email),
        },
        net_amount: Amount::parse(b"25.00").unwrap(),
        id,
        formatted_net_amount: String::from("$25.00"),
        stripe_charge_id: String::from("ch_123"),
        donation_date: Date { year: 2024, month: 3, day: 1 },
        donation_date_raw: String::from("2024-03-01T12:00:00Z"),
        plan_id: 9,
        questions: Vec::new(),
    }
}

fn order(email: &str, transaction_id: i32) -> RequestPayload {
    RequestPayload {
        data: EventDetails {
            total: Amount::parse(b"35.00").unwrap(),
            billing: Billing {
                email: String::from(email),
                name: Name { first: String::from("Bob"), last: String::from("Jones") },
            },
            transaction_id,
        },
    }
}

#[test]
fn donation_processed_twice_creates_one_member() {
    // Member idempotency holds; payment deduplication deliberately does
    // not: the second delivery appends a second payment row with the same
    // transaction id.
    let mut ledger = Ledger::new();
    let cfg = DonorboxConfig { campaign_id: 4 };
    let event = donation("Alice@Example.com", "new", 4, 500);

    let first = membership::donorbox::new_donation::process_donation(&mut ledger, &cfg, &event)
        .unwrap();
    assert_eq!(first.created_member_id, Some(1));
    assert_eq!(first.inserted_transaction.member_id, 1);
    assert_eq!(first.inserted_transaction.id, 1);

    let second = membership::donorbox::new_donation::process_donation(&mut ledger, &cfg, &event)
        .unwrap();
    assert_eq!(second.created_member_id, None);
    assert_eq!(second.inserted_transaction.member_id, 1);
    assert_eq!(second.inserted_transaction.id, 2);

    assert_eq!(ledger.member_count(), 1);
    assert_eq!(ledger.payment_count(), 2);
    assert_eq!(ledger.members[0].email, b"alice@example.com".to_vec());
    assert_eq!(ledger.payments[0].transaction_id, Some(500));
    assert_eq!(ledger.payments[1].transaction_id, Some(500));
}

#[test]
fn donation_filters_are_not_errors() {
    let mut ledger = Ledger::new();
    let cfg = DonorboxConfig { campaign_id: 4 };
    let refund = donation("a@b.com", "refund", 4, 501);
    assert!(matches!(
        membership::donorbox::new_donation::process_donation(&mut ledger, &cfg, &refund),
        Err(SkipReason::NotNewAction)
    ));
    let other_campaign = donation("a@b.com", "new", 5, 502);
    assert!(matches!(
        membership::donorbox::new_donation::process_donation(&mut ledger, &cfg, &other_campaign),
        Err(SkipReason::WrongCampaign)
    ));
    assert_eq!(ledger.member_count(), 0);
    assert_eq!(ledger.payment_count(), 0);
}

#[test]
fn unauthenticated_webhook_writes_nothing() {
    // A bad signature is rejected before the body is considered; no
    // member and no payment row may be written.
    let mut ledger = Ledger::new();
    let cfg = DonorboxConfig { campaign_id: 4 };
    let secret = String::from("dbsecret");
    let event = donation("a@b.com", "new", 4, 503);
    let body = b"[]";
    let bogus = b"1700000000,deadbeef".to_vec();
    let r = membership::donorbox::new_donation::webhook_handler(
        &mut ledger,
        &secret,
        &cfg,
        Some(&bogus),
        body,
        Some(&event),
    );
    assert!(matches!(r, Err(WebhookRejection::Unauthorized(_))));
    assert_eq!(ledger.member_count(), 0);
    assert_eq!(ledger.payment_count(), 0);

    let r2 = membership::donorbox::new_donation::webhook_handler(
        &mut ledger,
        &secret,
        &cfg,
        None,
        body,
        Some(&event),
    );
    assert!(matches!(r2, Err(WebhookRejection::Unauthorized(_))));
    assert_eq!(ledger.member_count(), 0);
    assert_eq!(ledger.payment_count(), 0);
}

#[test]
fn authenticated_donation_webhook_applies() {
    let mut ledger = Ledger::new();
    let cfg = DonorboxConfig { campaign_id: 4 };
    let secret = String::from("dbsecret");
    let event = donation("a@b.com", "new", 4, 504);
    let body = b"[{\"action\":\"new\"}]";
    let mut msg = b"1700000000.".to_vec();
    msg.extend_from_slice(body);
    let mut m = Hmac::<Sha256>::new_from_slice(b"dbsecret").unwrap();
    m.update(&msg);
    let tag = m.finalize().into_bytes();
    let mut header = b"1700000000,".to_vec();
    for b in tag.iter() {
        let hi = b >> 4;
        let lo = b & 0xf;
        header.push(if hi < 10 { b'0' + hi } else { b'a' + hi - 10 });
        header.push(if lo < 10 { b'0' + lo } else { b'a' + lo - 10 });
    }
    let r = membership::donorbox::new_donation::webhook_handler(
        &mut ledger,
        &secret,
        &cfg,
        Some(&header),
        body,
        Some(&event),
    )
    .unwrap();
    assert_eq!(r.created_member_id, Some(1));
    assert_eq!(ledger.member_count(), 1);
    assert_eq!(ledger.payment_count(), 1);
    assert_eq!(ledger.payments[0].effective_on, Some(Date { year: 2024, month: 3, day: 1 }));
    assert_eq!(ledger.payments[0].amount_paid, Amount { cents: 2500 });
    assert_eq!(ledger.payments[0].payment_method, b"donorbox".to_vec());
}

#[test]
fn order_processed_twice_creates_one_member() {
    let mut ledger = Ledger::new();
    let payload = order("Bob@Example.com", 900);

    let first = membership::webconnex::new_member::webhook_handler(&mut ledger, &payload);
    assert!(first.create_user.is_some());
    assert_eq!(first.create_user.unwrap().id, 1);
    assert_eq!(first.insert_transaction.member_id, 1);
    assert_eq!(first.insert_transaction.id, 1);

    let second = membership::webconnex::new_member::webhook_handler(&mut ledger, &payload);
    assert!(second.create_user.is_none());
    assert_eq!(second.insert_transaction.member_id, 1);
    assert_eq!(second.insert_transaction.id, 2);

    assert_eq!(ledger.member_count(), 1);
    assert_eq!(ledger.payment_count(), 2);
    assert_eq!(ledger.members[0].email, b"bob@example.com".to_vec());
    assert_eq!(ledger.payments[0].payment_method, b"webconnex".to_vec());
    assert_eq!(ledger.payments[0].effective_on, None);
    assert_eq!(ledger.payments[0].duration_months, 1);
}

#[test]
fn recurring_payment_needs_existing_member() {
    let mut ledger = Ledger::new();
    let payload = order("carol@example.com", 901);
    assert!(matches!(
        membership::webconnex::recurring_payment_success::webhook_handler(&mut ledger, &payload),
        Err(StoreError::NoSuchMember)
    ));
    assert_eq!(ledger.payment_count(), 0);

    membership::webconnex::new_member::webhook_handler(&mut ledger, &payload);
    let r = membership::webconnex::recurring_payment_success::webhook_handler(
        &mut ledger,
        &payload,
    )
    .unwrap();
    assert_eq!(r.member_id, 1);
    assert_eq!(r.transaction_id, 2);
    assert_eq!(ledger.member_count(), 1);
    assert_eq!(ledger.payment_count(), 2);
}

#[test]
fn unreadable_body_is_rejected_after_authentication() {
    let mut ledger = Ledger::new();
    let cfg = DonorboxConfig { campaign_id: 4 };
    let secret = String::from("dbsecret");
    let body = b"not json";
    let mut msg = b"1700000000.".to_vec();
    msg.extend_from_slice(body);
    let mut m = Hmac::<Sha256>::new_from_slice(b"dbsecret").unwrap();
    m.update(&msg);
    let tag = m.finalize().into_bytes();
    let mut header = b"1700000000,".to_vec();
    for b in tag.iter() {
        let hi = b >> 4;
        let lo = b & 0xf;
        header.push(if hi < 10 { b'0' + hi } else { b'a' + hi - 10 });
        header.push(if lo < 10 { b'0' + lo } else { b'a' + lo - 10 });
    }
    let r = membership::donorbox::new_donation::webhook_handler(
        &mut ledger,
        &secret,
        &cfg,
        Some(&header),
        body,
        None,
    );
    assert!(matches!(r, Err(WebhookRejection::BadPayload)));
    assert_eq!(ledger.member_count(), 0);
    assert_eq!(ledger.payment_count(), 0);
}

#[test]
fn create_user_conflicts_on_existing_email() {
    let mut ledger = Ledger::new();
    let payload = order("dupe@example.com", 902);
    assert!(matches!(
        membership::webconnex::db_create_user::create_user(&mut ledger, &payload.data),
        Ok(membership::webconnex::db_create_user::SqlCreateResponse { id: 1 })
    ));
    assert!(matches!(
        membership::webconnex::db_create_user::create_user(&mut ledger, &payload.data),
        Err(StoreError::EmailExists)
    ));
    assert_eq!(ledger.member_count(), 1);
}
