//! Signature check for order webhooks.
//!
//! The provider signs each request body with HMAC-SHA256 under a shared
//! secret and sends the tag hex-encoded in a signature header. A request
//! is accepted exactly when the decoded header equals the body's MAC;
//! a missing or undecodable header can never match.

use vstd::prelude::*;

use vstd::utf8::encode_utf8;

use crate::hex_digits::spec_hex_decode;
use crate::hmac_sig::hmac_sha256_of;
use crate::outcome::AuthFailure;

verus! {

/// The per-provider webhook secret.
#[derive(Clone)]
pub struct VerifySigState {
    pub hmac_secret: String,
}

/// Acceptance condition: the header is present, decodes as hex, and equals
/// the HMAC-SHA256 of the raw body under the secret.
pub open spec fn sig_ok(secret: Seq<u8>, header: Option<Seq<u8>>, body: Seq<u8>) -> bool {
    match header {
        None => false,
        Some(h) => match spec_hex_decode(h) {
            Some(tag) => tag == hmac_sha256_of(secret, body),
            None => false,
        },
    }
}

/// Which authentication failure a rejected header produces.
pub open spec fn spec_auth_failure(header: Option<Seq<u8>>) -> AuthFailure {
    match header {
        None => AuthFailure::MissingHeader,
        Some(h) => if spec_hex_decode(h) is None {
            AuthFailure::MalformedHeader
        } else {
            AuthFailure::BadSignature
        },
    }
}

pub open spec fn opt_bytes(signature: Option<&Vec<u8>>) -> Option<Seq<u8>> {
    match signature {
        Some(v) => Some(v@),
        None => None,
    }
}

/// Verifies the signature header against the raw request body.
pub fn ver_sig(state: &VerifySigState, signature: Option<&Vec<u8>>, body: &[u8]) -> (r: Result<
    (),
    AuthFailure,
>)
    ensures
        r == if sig_ok(encode_utf8(state.hmac_secret@), opt_bytes(signature), body@) {
            Result::<(), AuthFailure>::Ok(())
        } else {
            Result::<(), AuthFailure>::Err(spec_auth_failure(opt_bytes(signature)))
        },
{
    let header = match signature {
        Some(h) => h,
        None => {
            return Err(AuthFailure::MissingHeader);
        },
    };
    let tag = match crate::hex_digits::hex_decode(header.as_slice()) {
        Some(t) => t,
        None => {
            return Err(AuthFailure::MalformedHeader);
        },
    };
    if crate::hmac_sig::hmac_sha256_verify(
        state.hmac_secret.as_str().as_bytes(),
        body,
        tag.as_slice(),
    ) {
        Ok(())
    } else {
        Err(AuthFailure::BadSignature)
    }
}

} // verus!
