//! Signature check for the redirect-route variant of the order webhook.
//!
//! Same scheme as [`super::auth`]: HMAC-SHA256 over the raw body,
//! hex-encoded in the signature header.

use vstd::prelude::*;

use vstd::utf8::encode_utf8;

use super::auth::{opt_bytes, sig_ok, spec_auth_failure};
use crate::outcome::AuthFailure;

verus! {

/// The per-route webhook secret.
#[derive(Clone)]
pub struct VerifySigState {
    pub hmac_secret: String,
}

/// Verifies the signature header against the raw request body.
pub fn ver_sig(state: &VerifySigState, signature: Option<&Vec<u8>>, body: &[u8]) -> (r: Result<
    (),
    AuthFailure,
>)
    ensures
        r == if sig_ok(encode_utf8(state.hmac_secret@), opt_bytes(signature), body@) {
            Result::<(), AuthFailure>::Ok(())
        } else {
            Result::<(), AuthFailure>::Err(spec_auth_failure(opt_bytes(signature)))
        },
{
    let shared = super::auth::VerifySigState { hmac_secret: state.hmac_secret.clone() };
    super::auth::ver_sig(&shared, signature, body)
}

} // verus!
