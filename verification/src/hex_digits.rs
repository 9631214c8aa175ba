//! Hexadecimal decoding of signature headers.
//!
//! Webhook signatures arrive as lower- or upper-case hex text; they are
//! decoded to raw bytes before the constant-time MAC comparison. A header
//! that is not well-formed hex can never match and is rejected.

use vstd::prelude::*;

verus! {

pub open spec fn is_hex_digit(b: u8) -> bool {
    (48 <= b && b <= 57) || (97 <= b && b <= 102) || (65 <= b && b <= 70)
}

pub open spec fn hex_val(b: u8) -> int {
    if 48 <= b && b <= 57 {
        b - 48
    } else if 97 <= b && b <= 102 {
        b - 87
    } else {
        b - 55
    }
}

pub open spec fn all_hex_digits(s: Seq<u8>) -> bool {
    forall|i: int| 0 <= i < s.len() ==> is_hex_digit(#[trigger] s[i])
}

/// Bytes denoted by a hex string: one byte per digit pair, or `None` when
/// the length is odd or any character is not a hex digit.
pub open spec fn spec_hex_decode(s: Seq<u8>) -> Option<Seq<u8>> {
    if s.len() % 2 == 0 && all_hex_digits(s) {
        Some(Seq::new((s.len() / 2) as nat, |i: int| (hex_val(s[2 * i]) * 16 + hex_val(s[2 * i + 1])) as u8))
    } else {
        None
    }
}

fn hex_digit_value(b: u8) -> (r: Option<u8>)
    ensures
        match r {
            Some(v) => is_hex_digit(b) && v as int == hex_val(b),
            None => !is_hex_digit(b),
        },
{
    if 48 <= b && b <= 57 {
        Some(b - 48)
    } else if 97 <= b && b <= 102 {
        Some(b - 87)
    } else if 65 <= b && b <= 70 {
        Some(b - 55)
    } else {
        None
    }
}

/// Decodes a hex string, rejecting odd lengths and non-hex characters.
pub fn hex_decode(s: &[u8]) -> (r: Option<Vec<u8>>)
    ensures
        match r {
            Some(v) => spec_hex_decode(s@) == Some(v@),
            None => spec_hex_decode(s@) is None,
        },
{
    if s.len() % 2 != 0 {
        return None;
    }
    let mut out: Vec<u8> = Vec::new();
    let mut i: usize = 0;
    while i < s.len()
        invariant
            0 <= i <= s@.len(),
            i % 2 == 0,
            s@.len() % 2 == 0,
            out@.len() == i / 2,
            forall|k: int| 0 <= k < i ==> is_hex_digit(#[trigger] s@[k]),
            forall|j: int|
                0 <= j < i / 2 ==> out@[j] == (hex_val(s@[2 * j]) * 16 + hex_val(
                    s@[2 * j + 1],
                )) as u8,
        decreases s.len() - i,
    {
        let hi = match hex_digit_value(s[i]) {
            Some(v) => v,
            None => {
                return None;
            },
        };
        let lo = match hex_digit_value(s[i + 1]) {
            Some(v) => v,
            None => {
                return None;
            },
        };
        out.push(hi * 16 + lo);
        i += 2;
    }
    proof {
        assert(all_hex_digits(s@));
        assert(out@ =~= Seq::new((s@.len() / 2) as nat, |j: int| (hex_val(s@[2 * j]) * 16 + hex_val(
            s@[2 * j + 1],
        )) as u8));
    }
    Some(out)
}

} // verus!
