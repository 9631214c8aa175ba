//! Byte-level text utilities shared by the ingestion pipeline.
//!
//! All wire data (request bodies, CSV files, header values) is handled as
//! bytes; member identities are compared on normalized (trimmed,
//! ASCII-lowercased) email bytes.

use vstd::prelude::*;

verus! {

/// ASCII whitespace recognized when trimming an email address.
pub open spec fn is_ascii_space(b: u8) -> bool {
    b == 32 || b == 9 || b == 10 || b == 13
}

/// ASCII lowercasing of one byte; bytes outside 'A'..='Z' pass unchanged.
pub open spec fn lower_byte(b: u8) -> u8 {
    if 65 <= b && b <= 90 {
        (b + 32) as u8
    } else {
        b
    }
}

pub open spec fn lower_bytes(s: Seq<u8>) -> Seq<u8> {
    s.map_values(|b: u8| lower_byte(b))
}

/// Index of the first non-space byte at or after `i`.
pub open spec fn skip_spaces_from(s: Seq<u8>, i: int) -> int
    decreases s.len() - i,
{
    if i < 0 || i >= s.len() {
        i
    } else if is_ascii_space(s[i]) {
        skip_spaces_from(s, i + 1)
    } else {
        i
    }
}

/// Index just past the last non-space byte at or before `i - 1`.
pub open spec fn skip_spaces_back(s: Seq<u8>, i: int) -> int
    decreases i,
{
    if i <= 0 || i > s.len() {
        i
    } else if is_ascii_space(s[i - 1]) {
        skip_spaces_back(s, i - 1)
    } else {
        i
    }
}

/// The input without leading and trailing ASCII whitespace.
pub open spec fn trim_bytes(s: Seq<u8>) -> Seq<u8> {
    let lo = skip_spaces_from(s, 0);
    let hi = skip_spaces_back(s, s.len() as int);
    if lo <= hi {
        s.subrange(lo, hi)
    } else {
        Seq::empty()
    }
}

/// Canonical form of a payer email: trimmed, then ASCII-lowercased.
pub open spec fn normalize_email_bytes(s: Seq<u8>) -> Seq<u8> {
    lower_bytes(trim_bytes(s))
}

proof fn lemma_skip_spaces_back_bounds(s: Seq<u8>, i: int)
    requires
        0 <= i <= s.len(),
    ensures
        0 <= skip_spaces_back(s, i) <= i,
        skip_spaces_back(s, i) > 0 ==> !is_ascii_space(s[skip_spaces_back(s, i) - 1]),
        forall|k: int| skip_spaces_back(s, i) <= k < i ==> is_ascii_space(s[k]),
    decreases i,
{
    if i > 0 && is_ascii_space(s[i - 1]) {
        lemma_skip_spaces_back_bounds(s, i - 1);
    }
}

/// `skip_spaces_from` is unchanged by skipping over a known prefix of spaces.
proof fn lemma_skip_spaces_from_step(s: Seq<u8>, i: int)
    requires
        0 <= i < s.len(),
        is_ascii_space(s[i]),
    ensures
        skip_spaces_from(s, i) == skip_spaces_from(s, i + 1),
{
}

proof fn lemma_skip_spaces_back_step(s: Seq<u8>, i: int)
    requires
        0 < i <= s.len(),
        is_ascii_space(s[i - 1]),
    ensures
        skip_spaces_back(s, i) == skip_spaces_back(s, i - 1),
{
}

/// Trimmed, ASCII-lowercased copy of the input bytes.
pub fn normalize_email(s: &[u8]) -> (r: Vec<u8>)
    ensures
        r@ == normalize_email_bytes(s@),
{
    let len = s.len();
    let mut lo: usize = 0;
    while lo < len && is_space_exec(s[lo])
        invariant
            0 <= lo <= len == s@.len(),
            skip_spaces_from(s@, 0) == skip_spaces_from(s@, lo as int),
        decreases len - lo,
    {
        proof {
            lemma_skip_spaces_from_step(s@, lo as int);
        }
        lo += 1;
    }
    assert(skip_spaces_from(s@, 0) == lo as int);
    if lo == len {
        proof {
            lemma_skip_spaces_back_bounds(s@, s@.len() as int);
            assert(trim_bytes(s@) =~= Seq::<u8>::empty());
            assert(normalize_email_bytes(s@) =~= Seq::<u8>::empty());
        }
        return Vec::new();
    }
    let mut hi: usize = len;
    while hi > lo && is_space_exec(s[hi - 1])
        invariant
            0 <= lo < hi <= len == s@.len(),
            !is_ascii_space(s@[lo as int]),
            skip_spaces_back(s@, len as int) == skip_spaces_back(s@, hi as int),
        decreases hi,
    {
        proof {
            lemma_skip_spaces_back_step(s@, hi as int);
        }
        hi -= 1;
    }
    assert(skip_spaces_back(s@, len as int) == hi as int);
    let mut r: Vec<u8> = Vec::new();
    let mut i: usize = lo;
    while i < hi
        invariant
            lo <= i <= hi <= s@.len(),
            r@ == lower_bytes(s@.subrange(lo as int, i as int)),
        decreases hi - i,
    {
        r.push(lower_byte_exec(s[i]));
        proof {
            assert(s@.subrange(lo as int, i + 1).drop_last() =~= s@.subrange(
                lo as int,
                i as int,
            ));
            assert(r@ =~= lower_bytes(s@.subrange(lo as int, i + 1)));
        }
        i += 1;
    }
    proof {
        assert(trim_bytes(s@) == s@.subrange(lo as int, hi as int));
    }
    r
}

pub fn is_space_exec(b: u8) -> (r: bool)
    ensures
        r == is_ascii_space(b),
{
    b == 32 || b == 9 || b == 10 || b == 13
}

pub fn lower_byte_exec(b: u8) -> (r: u8)
    ensures
        r == lower_byte(b),
{
    if 65 <= b && b <= 90 {
        b + 32
    } else {
        b
    }
}

/// Byte-wise equality of two slices.
pub fn bytes_eq(a: &[u8], b: &[u8]) -> (r: bool)
    ensures
        r == (a@ == b@),
{
    if a.len() != b.len() {
        return false;
    }
    let mut i: usize = 0;
    while i < a.len()
        invariant
            0 <= i <= a@.len() == b@.len(),
            forall|k: int| 0 <= k < i ==> a@[k] == b@[k],
        decreases a.len() - i,
    {
        if a[i] != b[i] {
            return false;
        }
        i += 1;
    }
    proof {
        assert(a@ =~= b@);
    }
    true
}

/// Decimal digit bytes of a non-negative integer, most significant first.
pub open spec fn dec_digits(n: int) -> Seq<u8>
    decreases n,
{
    if n < 10 {
        seq![(48 + if n >= 0 { n } else { 0 }) as u8]
    } else {
        dec_digits(n / 10).push((48 + n % 10) as u8)
    }
}

/// Decimal digit bytes of `n`.
pub fn u64_dec(n: u64) -> (r: Vec<u8>)
    ensures
        r@ == dec_digits(n as int),
    decreases n,
{
    if n < 10 {
        let mut v: Vec<u8> = Vec::new();
        v.push(48 + (n as u8));
        v
    } else {
        let mut v = u64_dec(n / 10);
        v.push(48 + ((n % 10) as u8));
        v
    }
}

/// Decimal digit bytes of `n`, with a leading '-' when negative.
pub fn i64_dec(n: i64) -> (r: Vec<u8>)
    ensures
        n >= 0 ==> r@ == dec_digits(n as int),
        n < 0 ==> r@ == seq![45u8] + dec_digits(-(n as int)),
{
    if n >= 0 {
        u64_dec(n as u64)
    } else {
        let mag: u64 = (-(n as i128)) as u64;
        let digits = u64_dec(mag);
        let mut v: Vec<u8> = Vec::new();
        v.push(45);
        let mut i: usize = 0;
        while i < digits.len()
            invariant
                0 <= i <= digits@.len(),
                v@ == seq![45u8] + digits@.subrange(0, i as int),
            decreases digits.len() - i,
        {
            v.push(digits[i]);
            proof {
                assert(v@ =~= seq![45u8] + digits@.subrange(0, i + 1));
            }
            i += 1;
        }
        proof {
            assert(digits@.subrange(0, digits@.len() as int) =~= digits@);
        }
        v
    }
}

/// Index of the first occurrence of `b` at or after `i`.
pub open spec fn first_byte(s: Seq<u8>, b: u8, i: int) -> Option<int>
    decreases s.len() - i,
{
    if i < 0 || i >= s.len() {
        None
    } else if s[i] == b {
        Some(i)
    } else {
        first_byte(s, b, i + 1)
    }
}

proof fn lemma_first_byte_step(s: Seq<u8>, b: u8, i: int)
    requires
        0 <= i < s.len(),
        s[i] != b,
    ensures
        first_byte(s, b, i) == first_byte(s, b, i + 1),
{
}

/// Scans for the first occurrence of `b`.
pub fn find_byte(s: &[u8], b: u8) -> (r: Option<usize>)
    ensures
        match r {
            Some(i) => first_byte(s@, b, 0) == Some(i as int) && i < s@.len(),
            None => first_byte(s@, b, 0) is None,
        },
{
    let mut i: usize = 0;
    while i < s.len()
        invariant
            0 <= i <= s@.len(),
            first_byte(s@, b, 0) == first_byte(s@, b, i as int),
        decreases s.len() - i,
    {
        if s[i] == b {
            return Some(i);
        }
        proof {
            lemma_first_byte_step(s@, b, i as int);
        }
        i += 1;
    }
    None
}

/// Appends all of `src` to `dst`.
pub fn extend_bytes(dst: &mut Vec<u8>, src: &[u8])
    ensures
        final(dst)@ == old(dst)@ + src@,
{
    let mut i: usize = 0;
    while i < src.len()
        invariant
            0 <= i <= src@.len(),
            dst@ == old(dst)@ + src@.subrange(0, i as int),
        decreases src.len() - i,
    {
        dst.push(src[i]);
        proof {
            assert(dst@ =~= old(dst)@ + src@.subrange(0, i + 1));
        }
        i += 1;
    }
    proof {
        assert(src@.subrange(0, src@.len() as int) =~= src@);
    }
}

/// True when an optional text value is absent or empty.
pub fn none_or_empty(val: &Option<String>) -> (r: bool)
    ensures
        r == match val {
            Option::None => true,
            Option::Some(s) => s@.len() == 0,
        },
{
    match val {
        None => true,
        Some(s) => s.as_str().is_empty(),
    }
}

} // verus!
