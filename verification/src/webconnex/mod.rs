//! Ingestion of order webhooks from the form-payment provider.
//!
//! Two routes share one wire shape (`RequestPayload`): new-member orders,
//! which create the member if needed, record the payment and trigger a
//! welcome invite, and recurring payment successes, which only record the
//! payment against the existing member.

use vstd::prelude::*;

use vstd::utf8::encode_utf8;

pub mod auth;
pub mod db_create_user;
pub mod db_insert_transaction;
pub mod new_member;
pub mod redirect;
pub mod recurring_payment_success;
pub mod verify;

verus! {

/// A payer's name as sent by the provider.
pub struct Name {
    pub first: String,
    pub last: String,
}

/// Billing identity attached to an order.
pub struct Billing {
    pub email: String,
    pub name: Name,
}

/// The order fields the pipeline consumes.
pub struct EventDetails {
    pub total: crate::amount::Amount,
    pub billing: Billing,
    pub transaction_id: i32,
}

/// A webhook body: one order event.
pub struct RequestPayload {
    pub data: EventDetails,
}

/// The canonical identity key of the order's payer: the billing email,
/// trimmed and ASCII-lowercased, as bytes.
pub open spec fn member_key(e: EventDetails) -> Seq<u8> {
    crate::text::normalize_email_bytes(encode_utf8(e.billing.email@))
}

} // verus!
