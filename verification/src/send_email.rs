//! Values for the notification emails.
//!
//! After a first-time member is recorded, welcome/notification emails are
//! rendered from a stored template populated with event fields. Building
//! those values — names, amounts, provider reference URLs, referral
//! metadata — is pure computation and happens here; rendering, HTML
//! sanitizing and SMTP delivery are the caller's concern, run only after
//! the payment is committed, and their failure never unwinds it.

use vstd::prelude::*;

use vstd::string::StringExecFns;

use crate::text::dec_digits;

verus! {

/// Everything a notification template can reference.
pub struct EmailValues {
    pub first_name: String,
    pub last_name: String,
    pub invite_url: String,
    pub email: String,
    pub timestamp: String,
    pub amount_paid: String,
    pub donor_id: String,
    pub donor_url: String,
    pub donation_id: String,
    pub donation_url: String,
    pub plan_id: String,
    pub plan_url: String,
    pub payment_id: String,
    pub payment_url: String,
    pub referral_source: String,
}

impl Default for EmailValues {
    /// All fields empty.
    fn default() -> (r: EmailValues)
        ensures
            r.first_name@.len() == 0 && r.last_name@.len() == 0 && r.invite_url@.len() == 0
                && r.email@.len() == 0 && r.timestamp@.len() == 0 && r.amount_paid@.len() == 0
                && r.donor_id@.len() == 0 && r.donor_url@.len() == 0 && r.donation_id@.len() == 0
                && r.donation_url@.len() == 0 && r.plan_id@.len() == 0 && r.plan_url@.len() == 0
                && r.payment_id@.len() == 0 && r.payment_url@.len() == 0
                && r.referral_source@.len() == 0,
    {
        EmailValues {
            first_name: String::new(),
            last_name: String::new(),
            invite_url: String::new(),
            email: String::new(),
            timestamp: String::new(),
            amount_paid: String::new(),
            donor_id: String::new(),
            donor_url: String::new(),
            donation_id: String::new(),
            donation_url: String::new(),
            plan_id: String::new(),
            plan_url: String::new(),
            payment_id: String::new(),
            payment_url: String::new(),
            referral_source: String::new(),
        }
    }
}

/// The decimal rendering of an integer, as characters.
pub open spec fn int_chars(n: int) -> Seq<char> {
    if n >= 0 {
        dec_digits(n).map_values(|b: u8| b as char)
    } else {
        seq!['-'] + dec_digits(-n).map_values(|b: u8| b as char)
    }
}

proof fn lemma_dec_digits_ascii(n: int)
    ensures
        forall|i: int| 0 <= i < dec_digits(n).len() ==> (#[trigger] dec_digits(n)[i]) < 128,
    decreases n,
{
    if n >= 10 {
        lemma_dec_digits_ascii(n / 10);
        assert(forall|i: int|
            0 <= i < dec_digits(n / 10).len() ==> (#[trigger] dec_digits(n)[i]) == dec_digits(
                n / 10,
            )[i]);
    }
}

/// Relies on `String::from_utf8`: bytes below 128 are valid UTF-8 and
/// decode to the characters with the same code points.
#[verifier::external_body]
fn ascii_to_string(v: Vec<u8>) -> (r: String)
    requires
        forall|i: int| 0 <= i < v@.len() ==> v@[i] < 128,
    ensures
        r@ == v@.map_values(|b: u8| b as char),
{
    String::from_utf8(v).unwrap_or_default()
}

/// Renders an integer in decimal.
pub fn int_to_string(n: i64) -> (r: String)
    ensures
        r@ == int_chars(n as int),
{
    let bytes = crate::text::i64_dec(n);
    proof {
        if n >= 0 {
            lemma_dec_digits_ascii(n as int);
        } else {
            lemma_dec_digits_ascii(-(n as int));
            assert(forall|i: int|
                0 <= i < bytes@.len() ==> #[trigger] bytes@[i] == (seq![45u8] + dec_digits(
                    -(n as int),
                ))[i]);
        }
    }
    let r = ascii_to_string(bytes);
    proof {
        if n < 0 {
            assert(r@ =~= int_chars(n as int));
        }
    }
    r
}

/// The invite-audit reason recorded for a first-time donation.
pub fn donation_invite_reason(event: &crate::donorbox::new_donation::DonationEvent) -> (r: String)
    ensures
        r@ == "New member automated invite (Donorbox transaction #"@ + int_chars(event.id as int)
            + ", Email "@ + event.donor.email@ + ")"@,
{
    let mut r = String::from_str("New member automated invite (Donorbox transaction #");
    r.append(int_to_string(event.id as i64).as_str());
    r.append(", Email ");
    r.append(event.donor.email.as_str());
    r.append(")");
    r
}

/// The invite-audit reason recorded for a first-time order.
pub fn order_invite_reason(event: &crate::webconnex::EventDetails) -> (r: String)
    ensures
        r@ == "New member automated invite (GivingFuel order #"@ + int_chars(
            event.transaction_id as int,
        ) + ", Email "@ + event.billing.email@ + ")"@,
{
    let mut r = String::from_str("New member automated invite (GivingFuel order #");
    r.append(int_to_string(event.transaction_id as i64).as_str());
    r.append(", Email ");
    r.append(event.billing.email.as_str());
    r.append(")");
    r
}

/// Template values for the welcome email of a new-member order: payer
/// identity and invite link; everything else stays empty.
pub fn order_email_values(event: &crate::webconnex::EventDetails, invite_url: String) -> (r:
    EmailValues)
    ensures
        r.first_name@ == event.billing.name.first@,
        r.last_name@ == event.billing.name.last@,
        r.invite_url@ == invite_url@,
        r.email@ == event.billing.email@,
        r.timestamp@.len() == 0,
        r.amount_paid@.len() == 0,
        r.donor_id@.len() == 0,
        r.donor_url@.len() == 0,
        r.donation_id@.len() == 0,
        r.donation_url@.len() == 0,
        r.plan_id@.len() == 0,
        r.plan_url@.len() == 0,
        r.payment_id@.len() == 0,
        r.payment_url@.len() == 0,
        r.referral_source@.len() == 0,
{
    EmailValues {
        first_name: event.billing.name.first.clone(),
        last_name: event.billing.name.last.clone(),
        invite_url,
        email: event.billing.email.clone(),
        ..Default::default()
    }
}

/// Template values for the notification emails of a donation: donor
/// identity, formatted amount, donation timestamp, referral answer, and
/// provider dashboard URLs derived from the donor, donation, plan and
/// charge identifiers.
pub fn donation_email_values(
    event: &crate::donorbox::new_donation::DonationEvent,
    invite_url: String,
) -> (r: EmailValues)
    ensures
        r.first_name@ == event.donor.first_name@,
        r.last_name@ == event.donor.last_name@,
        r.invite_url@ == invite_url@,
        r.email@ == event.donor.email@,
        r.timestamp@ == event.donation_date_raw@,
        r.amount_paid@ == event.formatted_net_amount@,
        r.donor_id@ == int_chars(event.donor.id as int),
        r.donor_url@ == "https://donorbox.org/org_admin/supporters/"@ + int_chars(
            event.donor.id as int,
        ),
        r.donation_id@ == int_chars(event.id as int),
        r.donation_url@ == "https://donorbox.org/org_admin/donations/"@ + int_chars(
            event.id as int,
        ),
        r.plan_id@ == int_chars(event.plan_id as int),
        r.plan_url@ == "https://donorbox.org/org_admin/plans/"@ + int_chars(event.plan_id as int),
        r.payment_id@ == event.stripe_charge_id@,
        r.payment_url@ == "https://dashboard.stripe.com/payments/"@ + event.stripe_charge_id@,
        r.referral_source@ == if event.questions@.len() > 0 {
            event.questions@[0].answer@
        } else {
            Seq::<char>::empty()
        },
{
    let donor_id = int_to_string(event.donor.id as i64);
    let donation_id = int_to_string(event.id as i64);
    let plan_id = int_to_string(event.plan_id as i64);
    let mut donor_url = String::from_str("https://donorbox.org/org_admin/supporters/");
    donor_url.append(donor_id.as_str());
    let mut donation_url = String::from_str("https://donorbox.org/org_admin/donations/");
    donation_url.append(donation_id.as_str());
    let mut plan_url = String::from_str("https://donorbox.org/org_admin/plans/");
    plan_url.append(plan_id.as_str());
    let mut payment_url = String::from_str("https://dashboard.stripe.com/payments/");
    payment_url.append(event.stripe_charge_id.as_str());
    let referral_source = if event.questions.len() > 0 {
        event.questions[0].answer.clone()
    } else {
        String::new()
    };
    EmailValues {
        first_name: event.donor.first_name.clone(),
        last_name: event.donor.last_name.clone(),
        invite_url,
        email: event.donor.email.clone(),
        timestamp: event.donation_date_raw.clone(),
        amount_paid: event.formatted_net_amount.clone(),
        donor_id,
        donor_url,
        donation_id,
        donation_url,
        plan_id,
        plan_url,
        payment_id: event.stripe_charge_id.clone(),
        payment_url,
        referral_source,
    }
}

} // verus!
