//! New-member order driver.
//!
//! One order per request: try to create the payer's identity row (a
//! conflict with an existing email is swallowed — the payer already being
//! a member is fine), then record the payment against that identity.
//! Either way exactly one payment row is appended, and repeating the same
//! order never produces a second member row. The welcome-invite email is
//! prepared by the caller after this returns; its failure cannot unwind
//! the recorded payment.

use vstd::prelude::*;

use vstd::utf8::encode_utf8;

use super::auth::{opt_bytes, sig_ok, spec_auth_failure, VerifySigState};
use super::db_create_user::{create_user, SqlCreateResponse};
use super::db_insert_transaction::{insert_transaction, order_payment, InsertTransactionResponse};
use crate::ledger::{find_email_from, Ledger, LedgerV, MemberV};
use crate::outcome::WebhookRejection;

verus! {

/// Webhook response: the identity insert's outcome (absent when the payer
/// already existed) and the payment insert's row ids.
pub struct ResponseBody {
    pub create_user: Option<SqlCreateResponse>,
    pub insert_transaction: InsertTransactionResponse,
}

/// The member row a first-time order creates.
pub open spec fn new_member_row(l: LedgerV, e: super::EventDetails) -> MemberV {
    MemberV {
        id: l.members.len() as int + 1,
        email: super::member_key(e),
        first_name: encode_utf8(e.billing.name.first@),
        last_name: encode_utf8(e.billing.name.last@),
    }
}

/// Id of the member the order's payment lands on: the existing row for the
/// payer's email, or the freshly created one.
pub open spec fn target_member_id(l: LedgerV, e: super::EventDetails) -> int {
    match find_email_from(l.members, super::member_key(e), 0) {
        Some(i) => l.members[i].id,
        None => l.members.len() as int + 1,
    }
}

/// Store state after applying one new-member order: the identity table
/// gains a row only when the email was absent, and exactly one payment row
/// is appended either way.
pub open spec fn applied_ledger(l: LedgerV, e: super::EventDetails) -> LedgerV {
    LedgerV {
        members: match find_email_from(l.members, super::member_key(e), 0) {
            Some(_) => l.members,
            None => l.members.push(new_member_row(l, e)),
        },
        payments: l.payments.push(order_payment(e, l.payments.len() as int + 1, target_member_id(l, e))),
    }
}

/// Response reported for one applied order.
pub open spec fn applied_response(l: LedgerV, e: super::EventDetails) -> ResponseBody {
    ResponseBody {
        create_user: match find_email_from(l.members, super::member_key(e), 0) {
            Some(_) => None,
            None => Some(SqlCreateResponse { id: (l.members.len() as int + 1) as i32 }),
        },
        insert_transaction: InsertTransactionResponse {
            id: (l.payments.len() as int + 1) as i32,
            member_id: target_member_id(l, e) as i32,
        },
    }
}

/// Processes one authenticated order: identity insert-if-absent, then one
/// payment row.
pub fn webhook_handler(ledger: &mut Ledger, payload: &super::RequestPayload) -> (r: ResponseBody)
    requires
        old(ledger).wf(),
        old(ledger).can_add_member(),
        old(ledger).can_add_payment(),
    ensures
        final(ledger).wf(),
        final(ledger)@ == applied_ledger(old(ledger)@, payload.data),
        r == applied_response(old(ledger)@, payload.data),
{
    let ghost key = super::member_key(payload.data);
    let create_response = create_user(ledger, &payload.data);
    proof {
        if find_email_from(old(ledger)@.members, key, 0) is None {
            crate::ledger::lemma_find_email_push(
                old(ledger)@.members,
                key,
                new_member_row(old(ledger)@, payload.data),
                0,
            );
        }
        crate::ledger::lemma_find_email_props(old(ledger)@.members, key, 0);
        crate::ledger::lemma_find_email_props(ledger@.members, key, 0);
    }
    let insert_response = match insert_transaction(ledger, &payload.data) {
        Ok(v) => v,
        Err(_) => {
            assert(false);
            InsertTransactionResponse { id: 0, member_id: 0 }
        },
    };
    let create_user_field = match create_response {
        Ok(v) => Some(v),
        Err(_) => None,
    };
    ResponseBody { create_user: create_user_field, insert_transaction: insert_response }
}

/// Member idempotency of order processing: applying the same order twice
/// leaves the identity table exactly as one application does — the second
/// pass creates no member. Each pass still appends its own payment row
/// carrying the same provider transaction id: duplicate suppression on
/// `(platform, transaction_id)` is deliberately absent from the store.
pub proof fn lemma_order_member_idempotent(l: LedgerV, e: super::EventDetails)
    ensures
        ({
            let l1 = applied_ledger(l, e);
            let l2 = applied_ledger(l1, e);
            &&& l2.members == l1.members
            &&& l2.payments.len() == l1.payments.len() + 1
            &&& l1.payments[l1.payments.len() - 1].transaction_id == Some(e.transaction_id as int)
            &&& l2.payments[l2.payments.len() - 1].transaction_id == Some(e.transaction_id as int)
        }),
{
    let key = super::member_key(e);
    let l1 = applied_ledger(l, e);
    match find_email_from(l.members, key, 0) {
        Some(_) => {
            assert(l1.members == l.members);
        },
        None => {
            crate::ledger::lemma_find_email_push(l.members, key, new_member_row(l, e), 0);
            assert(find_email_from(l1.members, key, 0) is Some);
        },
    }
}

/// Full handling of one delivery: authenticate the raw body, then apply the
/// parsed payload. A bad or missing signature, or an unreadable body, is a
/// terminal rejection with the ledger untouched: no row is ever written for
/// an unauthenticated request.
pub fn handle_webhook(
    ledger: &mut Ledger,
    state: &VerifySigState,
    signature: Option<&Vec<u8>>,
    body: &[u8],
    payload: Option<&super::RequestPayload>,
) -> (r: Result<ResponseBody, WebhookRejection>)
    requires
        old(ledger).wf(),
        old(ledger).can_add_member(),
        old(ledger).can_add_payment(),
    ensures
        final(ledger).wf(),
        !sig_ok(encode_utf8(state.hmac_secret@), opt_bytes(signature), body@) ==> final(ledger)@
            == old(ledger)@ && r == Result::<ResponseBody, WebhookRejection>::Err(
            WebhookRejection::Unauthorized(spec_auth_failure(opt_bytes(signature))),
        ),
        sig_ok(encode_utf8(state.hmac_secret@), opt_bytes(signature), body@) ==> match payload {
            None => final(ledger)@ == old(ledger)@ && r == Result::<
                ResponseBody,
                WebhookRejection,
            >::Err(WebhookRejection::BadPayload),
            Some(p) => final(ledger)@ == applied_ledger(old(ledger)@, p.data) && r is Ok
                && r->Ok_0 == applied_response(old(ledger)@, p.data),
        },
{
    if let Err(f) = super::auth::ver_sig(state, signature, body) {
        return Err(WebhookRejection::Unauthorized(f));
    }
    let payload = match payload {
        Some(p) => p,
        None => {
            return Err(WebhookRejection::BadPayload);
        },
    };
    Ok(webhook_handler(ledger, payload))
}

} // verus!
