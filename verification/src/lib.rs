//! Payment-event ingestion and member-reconciliation pipeline.
//!
//! Donation notifications arrive from several independent payment platforms:
//! real-time webhooks (each authenticated with a provider-specific HMAC
//! signature), a paginated bulk-API backfill, and an offline CSV import.
//! Each event is authenticated, normalized, filtered, and reconciled against
//! a canonical member ledger; payments are recorded idempotently with
//! respect to member identity (an email never creates two members), and
//! best-effort notification emails are prepared for dispatch outside the
//! transactional core.

pub mod amount;
pub mod auth;
pub mod bulk_update;
pub mod csv_table;
pub mod dates;
pub mod donorbox;
pub mod hex_digits;
pub mod hmac_sig;
pub mod ledger;
pub mod outcome;
pub mod send_email;
pub mod text;
pub mod webconnex;

use vstd::prelude::*;

verus! {

} // verus!
