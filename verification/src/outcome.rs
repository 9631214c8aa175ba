//! Terminal outcomes of one ingestion attempt.
//!
//! A delivery either applies (member resolved, payment recorded), is
//! deliberately skipped as not applicable (wrong action or campaign —
//! distinct from an error so the provider does not retry), or is rejected
//! (authentication failure or an unreadable payload).

use vstd::prelude::*;

verus! {

/// Why a well-formed event was deliberately not applied.
#[derive(Clone, Copy, PartialEq, Eq, Structural, Debug)]
pub enum SkipReason {
    /// The event's action is not a new charge.
    NotNewAction,
    /// The event belongs to a campaign the system does not track.
    WrongCampaign,
}

/// How webhook authentication failed.
#[derive(Clone, Copy, PartialEq, Eq, Structural, Debug)]
pub enum AuthFailure {
    /// The signature header is absent.
    MissingHeader,
    /// The signature header cannot be decoded.
    MalformedHeader,
    /// The decoded signature does not match the body's MAC.
    BadSignature,
}

/// Terminal rejection of one webhook delivery.
#[derive(Clone, Copy, PartialEq, Eq, Structural, Debug)]
pub enum WebhookRejection {
    /// Authentication failed; nothing was read or written.
    Unauthorized(AuthFailure),
    /// The event is out of scope; nothing was written.
    NotApplicable(SkipReason),
    /// The body could not be parsed into the provider's payload shape.
    BadPayload,
    /// A store write failed; the provider will retry the delivery.
    ProcessingFailed(StoreError),
}

/// A store write that could not be performed.
#[derive(Clone, Copy, PartialEq, Eq, Structural, Debug)]
pub enum StoreError {
    /// An identity row with this email already exists.
    EmailExists,
    /// No identity row with this email exists.
    NoSuchMember,
}

} // verus!
