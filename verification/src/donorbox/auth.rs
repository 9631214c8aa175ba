//! Signature check for donation webhooks.
//!
//! The provider's signature header is `timestamp,signature`: the HMAC is
//! computed over `timestamp + "." + body` and compared against the
//! hex-decoded signature part. A missing header, a header without a comma,
//! or an undecodable signature can never match.

use vstd::prelude::*;

use vstd::utf8::encode_utf8;

use crate::hex_digits::spec_hex_decode;
use crate::hmac_sig::hmac_sha256_of;
use crate::outcome::AuthFailure;
use crate::text::first_byte;
use crate::webconnex::auth::opt_bytes;

verus! {

/// The signed message: the header's timestamp part, a dot, the raw body.
pub open spec fn signed_message(header: Seq<u8>, comma: int, body: Seq<u8>) -> Seq<u8> {
    header.subrange(0, comma) + seq![46u8] + body
}

/// Acceptance condition: the header holds a comma, its tail decodes as
/// hex, and that tag equals the MAC of `timestamp.body` under the secret.
pub open spec fn sig_ok(secret: Seq<u8>, header: Option<Seq<u8>>, body: Seq<u8>) -> bool {
    match header {
        None => false,
        Some(h) => match first_byte(h, 44, 0) {
            None => false,
            Some(c) => match spec_hex_decode(h.subrange(c + 1, h.len() as int)) {
                Some(tag) => tag == hmac_sha256_of(secret, signed_message(h, c, body)),
                None => false,
            },
        },
    }
}

/// Which authentication failure a rejected header produces.
pub open spec fn spec_auth_failure(header: Option<Seq<u8>>) -> AuthFailure {
    match header {
        None => AuthFailure::MissingHeader,
        Some(h) => match first_byte(h, 44, 0) {
            None => AuthFailure::MalformedHeader,
            Some(c) => if spec_hex_decode(h.subrange(c + 1, h.len() as int)) is None {
                AuthFailure::MalformedHeader
            } else {
                AuthFailure::BadSignature
            },
        },
    }
}

/// Verifies the `timestamp,signature` header against the raw request body.
pub fn ver_sig(hmac_secret: &String, signature: Option<&Vec<u8>>, body: &[u8]) -> (r: Result<
    (),
    AuthFailure,
>)
    ensures
        r == if sig_ok(encode_utf8(hmac_secret@), opt_bytes(signature), body@) {
            Result::<(), AuthFailure>::Ok(())
        } else {
            Result::<(), AuthFailure>::Err(spec_auth_failure(opt_bytes(signature)))
        },
{
    let header = match signature {
        Some(h) => h,
        None => {
            return Err(AuthFailure::MissingHeader);
        },
    };
    let comma = match crate::text::find_byte(header.as_slice(), 44) {
        Some(c) => c,
        None => {
            return Err(AuthFailure::MalformedHeader);
        },
    };
    let header_len = header.len();
    assert(comma < header_len);
    let sig_part = vstd::slice::slice_subrange(header.as_slice(), comma + 1, header_len);
    let tag = match crate::hex_digits::hex_decode(sig_part) {
        Some(t) => t,
        None => {
            return Err(AuthFailure::MalformedHeader);
        },
    };
    let ts_part = vstd::slice::slice_subrange(header.as_slice(), 0, comma);
    let mut msg = vstd::slice::slice_to_vec(ts_part);
    msg.push(46);
    crate::text::extend_bytes(&mut msg, body);
    proof {
        assert(msg@ =~= signed_message(header@, comma as int, body@));
    }
    if crate::hmac_sig::hmac_sha256_verify(
        hmac_secret.as_str().as_bytes(),
        msg.as_slice(),
        tag.as_slice(),
    ) {
        Ok(())
    } else {
        Err(AuthFailure::BadSignature)
    }
}

} // verus!
