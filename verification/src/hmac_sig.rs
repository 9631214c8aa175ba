//! HMAC-SHA256 webhook authentication.
//!
//! Each provider signs its webhook bodies with HMAC-SHA256 under a shared
//! secret. The MAC itself is computed by the `hmac`/`sha2` crates; this
//! module names its value and exposes a constant-time acceptance check.

use vstd::prelude::*;

use hmac::Mac;

verus! {

/// The HMAC-SHA256 tag of `msg` under `key`: a function of its arguments
/// alone, computed by the `hmac` crate.
pub uninterp spec fn hmac_sha256_of(key: Seq<u8>, msg: Seq<u8>) -> Seq<u8>;

/// Relies on `hmac::Hmac<sha2::Sha256>`: `new_from_slice` accepts keys of
/// any length, and `verify_slice` accepts exactly the 32-byte tag equal to
/// the computed MAC, comparing in constant time.
#[verifier::external_body]
pub fn hmac_sha256_verify(key: &[u8], msg: &[u8], tag: &[u8]) -> (r: bool)
    ensures
        r == (tag@ == hmac_sha256_of(key@, msg@)),
{
    let mut mac = <hmac::Hmac<sha2::Sha256> as Mac>::new_from_slice(key).unwrap();
    mac.update(msg);
    mac.verify_slice(tag).is_ok()
}

} // verus!
