//! Recurring-payment driver.
//!
//! A payment success for an existing subscription records one payment row
//! against the payer's existing identity; it never creates a member, and a
//! payer unknown to the identity table is a processing failure.

use vstd::prelude::*;

use vstd::utf8::encode_utf8;

use super::auth::{opt_bytes, sig_ok, spec_auth_failure};
use super::db_insert_transaction::{insert_transaction, order_payment, InsertTransactionResponse};
use super::verify::VerifySigState;
use crate::ledger::{find_email_from, Ledger};
use crate::outcome::{StoreError, WebhookRejection};

verus! {

/// Webhook response: the member charged and the new payment row's id.
pub struct ResponseBody {
    pub member_id: i32,
    pub transaction_id: i32,
}

/// Records one recurring payment against the payer's existing identity;
/// `NoSuchMember` (with the ledger unchanged) when the email is unknown.
pub fn webhook_handler(ledger: &mut Ledger, payload: &super::RequestPayload) -> (r: Result<
    ResponseBody,
    StoreError,
>)
    requires
        old(ledger).wf(),
        old(ledger).can_add_payment(),
    ensures
        final(ledger).wf(),
        final(ledger)@.members == old(ledger)@.members,
        match find_email_from(old(ledger)@.members, super::member_key(payload.data), 0) {
            Some(i) => r is Ok && r->Ok_0 == (ResponseBody {
                member_id: old(ledger)@.members[i].id as i32,
                transaction_id: (old(ledger)@.payments.len() as int + 1) as i32,
            }) && final(ledger)@.payments == old(ledger)@.payments.push(
                order_payment(
                    payload.data,
                    old(ledger)@.payments.len() as int + 1,
                    old(ledger)@.members[i].id,
                ),
            ),
            None => r == Result::<ResponseBody, StoreError>::Err(StoreError::NoSuchMember)
                && final(ledger)@ == old(ledger)@,
        },
{
    match insert_transaction(ledger, &payload.data) {
        Ok(v) => Ok(ResponseBody { member_id: v.member_id, transaction_id: v.id }),
        Err(e) => Err(e),
    }
}

/// Full handling of one delivery: authenticate the raw body, then record
/// the recurring payment. No row is ever written for an unauthenticated
/// request.
pub fn handle_webhook(
    ledger: &mut Ledger,
    state: &VerifySigState,
    signature: Option<&Vec<u8>>,
    body: &[u8],
    payload: Option<&super::RequestPayload>,
) -> (r: Result<ResponseBody, WebhookRejection>)
    requires
        old(ledger).wf(),
        old(ledger).can_add_payment(),
    ensures
        final(ledger).wf(),
        final(ledger)@.members == old(ledger)@.members,
        !sig_ok(encode_utf8(state.hmac_secret@), opt_bytes(signature), body@) ==> final(ledger)@
            == old(ledger)@ && r == Result::<ResponseBody, WebhookRejection>::Err(
            WebhookRejection::Unauthorized(spec_auth_failure(opt_bytes(signature))),
        ),
        sig_ok(encode_utf8(state.hmac_secret@), opt_bytes(signature), body@) ==> match payload {
            None => final(ledger)@ == old(ledger)@ && r == Result::<
                ResponseBody,
                WebhookRejection,
            >::Err(WebhookRejection::BadPayload),
            Some(p) => match find_email_from(
                old(ledger)@.members,
                super::member_key(p.data),
                0,
            ) {
                Some(i) => r is Ok && r->Ok_0 == (ResponseBody {
                    member_id: old(ledger)@.members[i].id as i32,
                    transaction_id: (old(ledger)@.payments.len() as int + 1) as i32,
                }) && final(ledger)@.payments == old(ledger)@.payments.push(
                    order_payment(
                        p.data,
                        old(ledger)@.payments.len() as int + 1,
                        old(ledger)@.members[i].id,
                    ),
                ),
                None => r == Result::<ResponseBody, WebhookRejection>::Err(
                    WebhookRejection::ProcessingFailed(StoreError::NoSuchMember),
                ) && final(ledger)@ == old(ledger)@,
            },
        },
{
    if let Err(f) = super::verify::ver_sig(state, signature, body) {
        return Err(WebhookRejection::Unauthorized(f));
    }
    let payload = match payload {
        Some(p) => p,
        None => {
            return Err(WebhookRejection::BadPayload);
        },
    };
    match webhook_handler(ledger, payload) {
        Ok(v) => Ok(v),
        Err(e) => Err(WebhookRejection::ProcessingFailed(e)),
    }
}

} // verus!
