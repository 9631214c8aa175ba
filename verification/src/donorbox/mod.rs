//! Ingestion of donation webhooks and the bulk donation API.
//!
//! Donations arrive in real time as signed webhook pushes and, for
//! backfills, as pages read from the provider's donation API. Both paths
//! normalize into the same donation event and share one per-event pipeline.

use vstd::prelude::*;

pub mod auth;
pub mod new_donation;

verus! {

/// The donor identity attached to a donation.
pub struct Donor {
    pub id: i32,
    pub first_name: String,
    pub last_name: String,
    pub email: String,
}

/// Which campaign's donations this deployment tracks.
#[derive(Clone, Copy, PartialEq, Eq, Structural, Debug)]
pub struct DonorboxConfig {
    pub campaign_id: i32,
}

} // verus!
