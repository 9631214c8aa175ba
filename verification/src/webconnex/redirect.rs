//! Provider-console redirect for a transaction.
//!
//! Looking a transaction up on the provider's public search API yields its
//! order id; the operator is then redirected to the provider console page
//! for that order. The two URLs are built here; the lookup request itself
//! is the caller's I/O.

use vstd::prelude::*;

use vstd::string::StringExecFns;

use crate::send_email::{int_chars, int_to_string};

verus! {

/// The provider's public transaction-search URL for `txid`.
pub fn transaction_lookup_url(txid: i32) -> (r: String)
    ensures
        r@ == "https://api.webconnex.com/v2/public/search/transactions/"@ + int_chars(txid as int)
            + "?product=givingfuel.com"@,
{
    let mut r = String::from_str("https://api.webconnex.com/v2/public/search/transactions/");
    r.append(int_to_string(txid as i64).as_str());
    r.append("?product=givingfuel.com");
    r
}

/// The provider console page for the order a transaction belongs to.
pub fn transaction_redirect_url(order_id: u32, txid: i32) -> (r: String)
    ensures
        r@ == "https://manage.webconnex.com/reports/orders/"@ + int_chars(order_id as int)
            + "/donations/"@ + int_chars(txid as int),
{
    let mut r = String::from_str("https://manage.webconnex.com/reports/orders/");
    r.append(int_to_string(order_id as i64).as_str());
    r.append("/donations/");
    r.append(int_to_string(txid as i64).as_str());
    r
}

} // verus!
