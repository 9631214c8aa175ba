//! Session identity carried by the admin interface.
//!
//! The bulk-import endpoints are gated by an email-ownership check: the
//! uploading operator retypes their account email and it must match the
//! authenticated session exactly, before anything is read.

use vstd::prelude::*;

verus! {

/// The signed-in operator's account.
#[derive(Clone)]
pub struct AccountRecord {
    pub id: i32,
    pub email: String,
    pub is_admin: bool,
}

/// The session token's claims.
#[derive(Clone)]
pub struct Jwt {
    pub account: AccountRecord,
    pub exp: u64,
}

/// The confirmation field matches the session email, character for
/// character.
pub open spec fn email_confirmed(user: Jwt, email_verify: Option<&String>) -> bool {
    match email_verify {
        Some(e) => e@ == user.account.email@,
        None => false,
    }
}

/// Checks the operator's typed confirmation against the session email.
pub fn verify_email_confirmation(user: &Jwt, email_verify: Option<&String>) -> (r: bool)
    ensures
        r == email_confirmed(*user, email_verify),
{
    match email_verify {
        Some(e) => *e == user.account.email,
        None => false,
    }
}

} // verus!
