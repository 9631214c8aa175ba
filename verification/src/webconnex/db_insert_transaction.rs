//! Payment insert for an order event.
//!
//! Mirrors `INSERT INTO payments ... SELECT id FROM members WHERE email =`:
//! the payer's identity row must already exist; the new payment row carries
//! the order total, the provider tag as its payment method, and the
//! provider transaction id for provenance.

use vstd::prelude::*;

use vstd::string::StringSliceAdditionalSpecFns;

use crate::ledger::{find_email_from, Ledger, PaymentV};
use crate::outcome::StoreError;

verus! {

/// Row ids returned by the payment insert.
#[derive(Clone, Copy, PartialEq, Eq, Structural, Debug)]
pub struct InsertTransactionResponse {
    pub id: i32,
    pub member_id: i32,
}

/// The payment row an order event inserts for member `member_id` as row
/// `id`: no effective date (the store's default applies), one month's
/// duration, the order total, and the provider's transaction id.
pub open spec fn order_payment(e: super::EventDetails, id: int, member_id: int) -> PaymentV {
    PaymentV {
        id,
        member_id,
        effective_on: None,
        duration_months: 1,
        amount_paid: e.total,
        payment_method: "webconnex".spec_bytes(),
        platform: None,
        transaction_id: Some(e.transaction_id as int),
        notes: None,
    }
}

/// Records the order's payment against the payer's existing identity row;
/// `NoSuchMember` when the normalized email is absent (the ledger is then
/// unchanged).
pub fn insert_transaction(ledger: &mut Ledger, body: &super::EventDetails) -> (r: Result<
    InsertTransactionResponse,
    StoreError,
>)
    requires
        old(ledger).wf(),
        old(ledger).can_add_payment(),
    ensures
        final(ledger).wf(),
        final(ledger)@.members == old(ledger)@.members,
        match find_email_from(old(ledger)@.members, super::member_key(*body), 0) {
            Some(i) => r == Result::<InsertTransactionResponse, StoreError>::Ok(
                (InsertTransactionResponse {
                    id: (old(ledger)@.payments.len() as int + 1) as i32,
                    member_id: old(ledger)@.members[i].id as i32,
                }),
            ) && final(ledger)@.payments == old(ledger)@.payments.push(
                order_payment(
                    *body,
                    old(ledger)@.payments.len() as int + 1,
                    old(ledger)@.members[i].id,
                ),
            ),
            None => r == Result::<InsertTransactionResponse, StoreError>::Err(
                StoreError::NoSuchMember,
            ) && final(ledger)@ == old(ledger)@,
        },
{
    let email = crate::text::normalize_email(body.billing.email.as_str().as_bytes());
    let idx = match ledger.find_member(email.as_slice()) {
        Some(i) => i,
        None => {
            return Err(StoreError::NoSuchMember);
        },
    };
    proof {
        crate::ledger::lemma_find_email_props(ledger@.members, email@, 0);
    }
    let member_id = ledger.members[idx].id;
    assert(ledger@.members[idx as int] == ledger.members@[idx as int]@);
    assert(member_id as int == idx + 1);
    let method = vstd::slice::slice_to_vec("webconnex".as_bytes());
    let id = ledger.record_payment(
        member_id,
        None,
        1,
        body.total,
        method,
        None,
        Some(body.transaction_id),
        None,
    );
    Ok(InsertTransactionResponse { id, member_id })
}

} // verus!
