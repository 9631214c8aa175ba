//! Identity insert for a new-member order.
//!
//! Mirrors a bare `INSERT INTO members`: it fails (unique email key) when
//! the payer already has an identity row, and the caller decides what to do
//! with that conflict.

use vstd::prelude::*;

use crate::ledger::{find_email_from, Ledger, MemberV};
use crate::outcome::StoreError;
use vstd::utf8::encode_utf8;

verus! {

/// Row id returned by the identity insert.
#[derive(Clone, Copy, PartialEq, Eq, Structural, Debug)]
pub struct SqlCreateResponse {
    pub id: i32,
}

/// Inserts an identity row for the order's payer; `EmailExists` when the
/// normalized email is already present (the ledger is then unchanged).
pub fn create_user(ledger: &mut Ledger, event: &super::EventDetails) -> (r: Result<
    SqlCreateResponse,
    StoreError,
>)
    requires
        old(ledger).wf(),
        old(ledger).can_add_member(),
    ensures
        final(ledger).wf(),
        final(ledger)@.payments == old(ledger)@.payments,
        match find_email_from(old(ledger)@.members, super::member_key(*event), 0) {
            Some(_) => r == Result::<SqlCreateResponse, StoreError>::Err(StoreError::EmailExists)
                && final(ledger)@ == old(ledger)@,
            None => r == Result::<SqlCreateResponse, StoreError>::Ok(
                (SqlCreateResponse { id: (old(ledger)@.members.len() as int + 1) as i32 }),
            ) && final(ledger)@.members == old(ledger)@.members.push(
                (MemberV {
                    id: old(ledger)@.members.len() as int + 1,
                    email: super::member_key(*event),
                    first_name: encode_utf8(event.billing.name.first@),
                    last_name: encode_utf8(event.billing.name.last@),
                }),
            ),
        },
{
    let email = crate::text::normalize_email(event.billing.email.as_str().as_bytes());
    let first = vstd::slice::slice_to_vec(event.billing.name.first.as_str().as_bytes());
    let last = vstd::slice::slice_to_vec(event.billing.name.last.as_str().as_bytes());
    let (id, created) = ledger.resolve_member(email, first, last);
    if created {
        Ok(SqlCreateResponse { id })
    } else {
        Err(StoreError::EmailExists)
    }
}

} // verus!
