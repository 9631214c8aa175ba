//! Donation driver.
//!
//! One donation per delivery. Events whose action is not `new`, or whose
//! campaign is not the tracked one, are not applicable: they short-circuit
//! with no write and no error, so the provider does not retry them.
//! An applicable donation resolves the donor's identity (insert-if-absent)
//! and records one payment row; the welcome emails are prepared by the
//! caller only when this created the member, and their failure cannot
//! unwind the recorded payment.

use vstd::prelude::*;

use vstd::string::{StringExecFns, StringSliceAdditionalSpecFns};
use vstd::utf8::encode_utf8;

use super::auth::{sig_ok, spec_auth_failure};
use super::DonorboxConfig;
use crate::amount::Amount;
use crate::dates::Date;
use crate::ledger::{find_email_from, Ledger, LedgerV, MemberV, PaymentV};
use crate::outcome::{SkipReason, WebhookRejection};
use crate::webconnex::auth::opt_bytes;

verus! {

/// The campaign a donation belongs to.
#[derive(Clone, Copy, PartialEq, Eq, Structural, Debug)]
pub struct Campaign {
    pub id: i32,
}

/// One custom question/answer pair attached to a donation form.
pub struct Question {
    pub question: String,
    pub answer: String,
}

/// The donation fields the pipeline consumes, as normalized from the
/// provider's wire schema.
pub struct DonationEvent {
    pub action: String,
    pub campaign: Campaign,
    pub donor: super::Donor,
    pub net_amount: Amount,
    pub id: i32,
    pub formatted_net_amount: String,
    pub stripe_charge_id: String,
    pub donation_date: Date,
    pub donation_date_raw: String,
    pub plan_id: i32,
    pub questions: Vec<Question>,
}

/// Row ids of the inserted payment.
#[derive(Clone, Copy, PartialEq, Eq, Structural, Debug)]
pub struct InsertTransactionResult {
    pub id: i32,
    pub member_id: i32,
}

/// Webhook response: the created member's id when this donation created
/// one, and the inserted payment's ids.
pub struct ResponseBody {
    pub created_member_id: Option<i32>,
    pub inserted_transaction: InsertTransactionResult,
}

/// The canonical identity key of the donor: the email, trimmed and
/// ASCII-lowercased, as bytes.
pub open spec fn donation_member_key(e: DonationEvent) -> Seq<u8> {
    crate::text::normalize_email_bytes(encode_utf8(e.donor.email@))
}

/// Policy filter: only new donations on the tracked campaign are applied.
pub open spec fn donation_applicable(e: DonationEvent, cfg: DonorboxConfig) -> bool {
    e.action@ == "new"@ && e.campaign.id == cfg.campaign_id
}

/// Why a filtered-out donation was skipped.
pub open spec fn donation_skip_reason(e: DonationEvent) -> SkipReason {
    if e.action@ != "new"@ {
        SkipReason::NotNewAction
    } else {
        SkipReason::WrongCampaign
    }
}

/// The member row a first-time donor creates.
pub open spec fn donation_member_row(l: LedgerV, e: DonationEvent) -> MemberV {
    MemberV {
        id: l.members.len() as int + 1,
        email: donation_member_key(e),
        first_name: encode_utf8(e.donor.first_name@),
        last_name: encode_utf8(e.donor.last_name@),
    }
}

/// Id of the member the donation's payment lands on.
pub open spec fn donation_target_id(l: LedgerV, e: DonationEvent) -> int {
    match find_email_from(l.members, donation_member_key(e), 0) {
        Some(i) => l.members[i].id,
        None => l.members.len() as int + 1,
    }
}

/// The payment row a donation inserts: effective on the donation's own
/// calendar date, one month's duration, the net amount, and the provider
/// donation id for provenance.
pub open spec fn donation_payment(e: DonationEvent, id: int, member_id: int) -> PaymentV {
    PaymentV {
        id,
        member_id,
        effective_on: Some(e.donation_date),
        duration_months: 1,
        amount_paid: e.net_amount,
        payment_method: "donorbox".spec_bytes(),
        platform: None,
        transaction_id: Some(e.id as int),
        notes: None,
    }
}

/// Store state after applying one donation.
pub open spec fn donation_applied_ledger(l: LedgerV, e: DonationEvent) -> LedgerV {
    LedgerV {
        members: match find_email_from(l.members, donation_member_key(e), 0) {
            Some(_) => l.members,
            None => l.members.push(donation_member_row(l, e)),
        },
        payments: l.payments.push(
            donation_payment(e, l.payments.len() as int + 1, donation_target_id(l, e)),
        ),
    }
}

/// Response reported for one applied donation.
pub open spec fn donation_response(l: LedgerV, e: DonationEvent) -> ResponseBody {
    ResponseBody {
        created_member_id: match find_email_from(l.members, donation_member_key(e), 0) {
            Some(_) => None,
            None => Some((l.members.len() as int + 1) as i32),
        },
        inserted_transaction: InsertTransactionResult {
            id: (l.payments.len() as int + 1) as i32,
            member_id: donation_target_id(l, e) as i32,
        },
    }
}

/// Applies one donation: policy filter, idempotent member resolution,
/// one payment row. A skipped donation is not an error and writes nothing.
pub fn process_donation(ledger: &mut Ledger, cfg: &DonorboxConfig, event: &DonationEvent) -> (r:
    Result<ResponseBody, SkipReason>)
    requires
        old(ledger).wf(),
        old(ledger).can_add_member(),
        old(ledger).can_add_payment(),
    ensures
        final(ledger).wf(),
        !donation_applicable(*event, *cfg) ==> final(ledger)@ == old(ledger)@ && r == Result::<
            ResponseBody,
            SkipReason,
        >::Err(donation_skip_reason(*event)),
        donation_applicable(*event, *cfg) ==> final(ledger)@ == donation_applied_ledger(
            old(ledger)@,
            *event,
        ) && r is Ok && r->Ok_0 == donation_response(old(ledger)@, *event),
{
    let new_action = String::from_str("new");
    if !(event.action == new_action) {
        return Err(SkipReason::NotNewAction);
    }
    if event.campaign.id != cfg.campaign_id {
        return Err(SkipReason::WrongCampaign);
    }
    let email = crate::text::normalize_email(event.donor.email.as_str().as_bytes());
    let first = vstd::slice::slice_to_vec(event.donor.first_name.as_str().as_bytes());
    let last = vstd::slice::slice_to_vec(event.donor.last_name.as_str().as_bytes());
    let ghost key = donation_member_key(*event);
    let (member_id, created) = ledger.resolve_member(email, first, last);
    proof {
        if find_email_from(old(ledger)@.members, key, 0) is None {
            crate::ledger::lemma_find_email_push(
                old(ledger)@.members,
                key,
                donation_member_row(old(ledger)@, *event),
                0,
            );
        }
        crate::ledger::lemma_find_email_props(old(ledger)@.members, key, 0);
    }
    let method = vstd::slice::slice_to_vec("donorbox".as_bytes());
    let payment_id = ledger.record_payment(
        member_id,
        Some(event.donation_date),
        1,
        event.net_amount,
        method,
        None,
        Some(event.id),
        None,
    );
    let created_member_id = if created {
        Some(member_id)
    } else {
        None
    };
    Ok(
        ResponseBody {
            created_member_id,
            inserted_transaction: InsertTransactionResult { id: payment_id, member_id },
        },
    )
}

/// Full handling of one webhook delivery: authenticate the raw body, then
/// apply the parsed donation. A bad or missing signature, or an unreadable
/// body, is a terminal rejection with the ledger untouched: no row is ever
/// written for an unauthenticated request. A filtered-out donation is
/// rejected as not applicable, distinct from an error.
pub fn webhook_handler(
    ledger: &mut Ledger,
    hmac_secret: &String,
    cfg: &DonorboxConfig,
    signature: Option<&Vec<u8>>,
    body: &[u8],
    event: Option<&DonationEvent>,
) -> (r: Result<ResponseBody, WebhookRejection>)
    requires
        old(ledger).wf(),
        old(ledger).can_add_member(),
        old(ledger).can_add_payment(),
    ensures
        final(ledger).wf(),
        !sig_ok(encode_utf8(hmac_secret@), opt_bytes(signature), body@) ==> final(ledger)@ == old(
            ledger,
        )@ && r == Result::<ResponseBody, WebhookRejection>::Err(
            WebhookRejection::Unauthorized(spec_auth_failure(opt_bytes(signature))),
        ),
        sig_ok(encode_utf8(hmac_secret@), opt_bytes(signature), body@) ==> match event {
            None => final(ledger)@ == old(ledger)@ && r == Result::<
                ResponseBody,
                WebhookRejection,
            >::Err(WebhookRejection::BadPayload),
            Some(e) => if donation_applicable(*e, *cfg) {
                final(ledger)@ == donation_applied_ledger(old(ledger)@, *e) && r is Ok && r->Ok_0
                    == donation_response(old(ledger)@, *e)
            } else {
                final(ledger)@ == old(ledger)@ && r == Result::<
                    ResponseBody,
                    WebhookRejection,
                >::Err(WebhookRejection::NotApplicable(donation_skip_reason(*e)))
            },
        },
{
    if let Err(f) = super::auth::ver_sig(hmac_secret, signature, body) {
        return Err(WebhookRejection::Unauthorized(f));
    }
    let event = match event {
        Some(e) => e,
        None => {
            return Err(WebhookRejection::BadPayload);
        },
    };
    match process_donation(ledger, cfg, event) {
        Ok(v) => Ok(v),
        Err(reason) => Err(WebhookRejection::NotApplicable(reason)),
    }
}

/// Applying a donation never deletes or rewrites a row: every member and
/// payment present before is present, unchanged and in place, afterwards.
pub proof fn lemma_donation_append_only(l: LedgerV, e: DonationEvent)
    ensures
        l.members.len() <= donation_applied_ledger(l, e).members.len(),
        forall|i: int|
            0 <= i < l.members.len() ==> #[trigger] donation_applied_ledger(l, e).members[i]
                == l.members[i],
        donation_applied_ledger(l, e).payments.len() == l.payments.len() + 1,
        forall|i: int|
            0 <= i < l.payments.len() ==> #[trigger] donation_applied_ledger(l, e).payments[i]
                == l.payments[i],
{
}

/// Member idempotency of donation processing: applying the same donation
/// twice leaves the identity table exactly as one application does — the
/// second pass creates no member. Each pass still appends its own payment
/// row carrying the same provider transaction id: duplicate suppression on
/// `(platform, transaction_id)` is deliberately absent from the store.
pub proof fn lemma_donation_member_idempotent(l: LedgerV, e: DonationEvent)
    ensures
        ({
            let l1 = donation_applied_ledger(l, e);
            let l2 = donation_applied_ledger(l1, e);
            &&& l2.members == l1.members
            &&& l2.payments.len() == l1.payments.len() + 1
            &&& l1.payments[l1.payments.len() - 1].transaction_id == Some(e.id as int)
            &&& l2.payments[l2.payments.len() - 1].transaction_id == Some(e.id as int)
        }),
{
    let key = donation_member_key(e);
    let l1 = donation_applied_ledger(l, e);
    match find_email_from(l.members, key, 0) {
        Some(_) => {
            assert(l1.members == l.members);
        },
        None => {
            crate::ledger::lemma_find_email_push(l.members, key, donation_member_row(l, e), 0);
            assert(find_email_from(l1.members, key, 0) is Some);
        },
    }
}

} // verus!
