use membership::amount::Amount;
use membership::dates::Date;
use membership::donorbox::new_donation::{Campaign, DonationEvent, Question};
use membership::donorbox::Donor;
use membership::send_email::{
    donation_email_values, donation_invite_reason, order_email_values, order_invite_reason,
    EmailValues,
};
use membership::webconnex::{Billing, EventDetails, Name};

fn donation() -> DonationEvent {
    DonationEvent {
        action: String::from("new"),
        campaign: Campaign { id: 4 },
        donor: Donor {
            id: 321,
            first_name: String::from("Alice"),
            last_name: String::from("Smith"),
            email: String::from("alice@example.com"),
        },
        net_amount: Amount::parse(b"25.00").unwrap(),
        id: 888,
        formatted_net_amount: String::from("$25.00"),
        stripe_charge_id: String::from("ch_42"),
        donation_date: Date { year: 2024, month: 3, day: 1 },
        donation_date_raw: String::from("2024-03-01T12:00:00Z"),
        plan_id: 7,
        questions: vec![Question {
            question: String::from("How did you hear about us?"),
            answer: String::from("a friend"),
        }],
    }
}

#[test]
fn donation_values_carry_provider_urls() {
    let values = donation_email_values(&donation(), String::from("https://invite.example/abc"));
    assert_eq!(values.first_name, "Alice");
    assert_eq!(values.last_name, "Smith");
    assert_eq!(values.invite_url, "https://invite.example/abc");
    assert_eq!(values.email, "alice@example.com");
    assert_eq!(values.timestamp, "2024-03-01T12:00:00Z");
    assert_eq!(values.amount_paid, "$25.00");
    assert_eq!(values.donor_id, "321");
    assert_eq!(values.donor_url, "https://donorbox.org/org_admin/supporters/321");
    assert_eq!(values.donation_id, "888");
    assert_eq!(values.donation_url, "https://donorbox.org/org_admin/donations/888");
    assert_eq!(values.plan_id, "7");
    assert_eq!(values.plan_url, "https://donorbox.org/org_admin/plans/7");
    assert_eq!(values.payment_id, "ch_42");
    assert_eq!(values.payment_url, "https://dashboard.stripe.com/payments/ch_42");
    assert_eq!(values.referral_source, "a friend");
}

#[test]
fn donation_values_without_questions_leave_referral_empty() {
    let mut event = donation();
    event.questions = Vec::new();
    let values = donation_email_values(&event, String::new());
    assert_eq!(values.referral_source, "");
}

#[test]
fn order_values_fill_identity_only() {
    let event = EventDetails {
        total: Amount::parse(b"35.00").unwrap(),
        billing: Billing {
            email: String::from("bob@example.com"),
            name: Name { first: String::from("Bob"), last: String::from("Jones") },
        },
        transaction_id: 555,
    };
    let values = order_email_values(&event, String::from("https://invite.example/xyz"));
    assert_eq!(values.first_name, "Bob");
    assert_eq!(values.last_name, "Jones");
    assert_eq!(values.invite_url, "https://invite.example/xyz");
    assert_eq!(values.email, "bob@example.com");
    assert_eq!(values.amount_paid, "");
    assert_eq!(values.donor_url, "");
}

#[test]
fn invite_reasons_name_the_provider_reference() {
    assert_eq!(
        donation_invite_reason(&donation()),
        "New member automated invite (Donorbox transaction #888, Email alice@example.com)"
    );
    let event = EventDetails {
        total: Amount::parse(b"35.00").unwrap(),
        billing: Billing {
            email: String::from("bob@example.com"),
            name: Name { first: String::from("Bob"), last: String::from("Jones") },
        },
        transaction_id: 555,
    };
    assert_eq!(
        order_invite_reason(&event),
        "New member automated invite (GivingFuel order #555, Email bob@example.com)"
    );
}

#[test]
fn default_email_values_are_empty() {
    let values = EmailValues::default();
    assert_eq!(values.first_name, "");
    assert_eq!(values.payment_url, "");
    assert_eq!(values.referral_source, "");
}

#[test]
fn redirect_urls_follow_the_provider_console_scheme() {
    assert_eq!(
        membership::webconnex::redirect::transaction_lookup_url(42),
        "https://api.webconnex.com/v2/public/search/transactions/42?product=givingfuel.com"
    );
    assert_eq!(
        membership::webconnex::redirect::transaction_redirect_url(100, 42),
        "https://manage.webconnex.com/reports/orders/100/donations/42"
    );
}
