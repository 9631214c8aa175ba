//! Fixed-point money amounts.
//!
//! Financial amounts are held as an exact count of cents, never as binary
//! floating point. Wire values are decimal strings of the form
//! `digits` or `digits.digits` (no sign: the pipeline only records completed
//! charges). Fractions beyond two decimal places are rounded half-up on the
//! third decimal digit, so `"19.999"` parses to 2000 cents deterministically.

use vstd::prelude::*;

verus! {

/// An exact, non-negative amount of money in cents.
#[derive(Clone, Copy, PartialEq, Eq, Structural, Debug)]
pub struct Amount {
    pub cents: u64,
}

pub open spec fn is_digit(b: u8) -> bool {
    48 <= b && b <= 57
}

pub open spec fn all_digits(s: Seq<u8>) -> bool {
    forall|i: int| 0 <= i < s.len() ==> is_digit(#[trigger] s[i])
}

/// Value of a big-endian decimal digit string.
pub open spec fn digits_val(s: Seq<u8>) -> int
    decreases s.len(),
{
    if s.len() == 0 {
        0
    } else {
        digits_val(s.drop_last()) * 10 + (s.last() - 48)
    }
}

pub open spec fn pow10(n: int) -> int
    decreases n,
{
    if n <= 0 {
        1
    } else {
        10 * pow10(n - 1)
    }
}

/// Index of the first '.' in `s`, scanning from `i`.
pub open spec fn first_dot(s: Seq<u8>, i: int) -> Option<int>
    decreases s.len() - i,
{
    if i < 0 || i >= s.len() {
        None
    } else if s[i] == 46 {
        Some(i)
    } else {
        first_dot(s, i + 1)
    }
}

/// Cents contributed by the fractional digit string, rounded half-up on the
/// third digit; digits past the third never matter.
pub open spec fn frac_cents(fp: Seq<u8>) -> int {
    let d1: int = if fp.len() >= 1 {
        fp[0] - 48
    } else {
        0
    };
    let d2: int = if fp.len() >= 2 {
        fp[1] - 48
    } else {
        0
    };
    let d3: int = if fp.len() >= 3 {
        fp[2] - 48
    } else {
        0
    };
    d1 * 10 + d2 + if d3 >= 5 {
        1int
    } else {
        0int
    }
}

/// Cents denoted by a decimal amount string, or `None` when malformed.
///
/// Well-formed: one or more integer digits (at most 16, so the value fits),
/// optionally followed by '.' and one or more fractional digits.
pub open spec fn spec_parse_amount(s: Seq<u8>) -> Option<int> {
    let ip = match first_dot(s, 0) {
        Some(d) => s.subrange(0, d),
        None => s,
    };
    let fp = match first_dot(s, 0) {
        Some(d) => s.subrange(d + 1, s.len() as int),
        None => Seq::empty(),
    };
    if ip.len() == 0 || ip.len() > 16 || !all_digits(ip) || !all_digits(fp) || (first_dot(s, 0)
        is Some && fp.len() == 0) {
        None
    } else {
        Some(digits_val(ip) * 100 + frac_cents(fp))
    }
}

pub proof fn lemma_pow10_pos(n: int)
    ensures
        pow10(n) >= 1,
    decreases n,
{
    if n > 0 {
        lemma_pow10_pos(n - 1);
    }
}

pub proof fn lemma_pow10_mono(a: int, b: int)
    requires
        a <= b,
    ensures
        0 < pow10(a) <= pow10(b),
    decreases b - a,
{
    lemma_pow10_pos(a);
    if a < b {
        lemma_pow10_mono(a, b - 1);
    }
}

pub proof fn lemma_digits_val_bound(s: Seq<u8>)
    requires
        all_digits(s),
    ensures
        0 <= digits_val(s) < pow10(s.len() as int),
    decreases s.len(),
{
    if s.len() > 0 {
        assert(all_digits(s.drop_last()));
        lemma_digits_val_bound(s.drop_last());
    }
}

proof fn lemma_first_dot_step(s: Seq<u8>, i: int)
    requires
        0 <= i < s.len(),
        s[i] != 46,
    ensures
        first_dot(s, i) == first_dot(s, i + 1),
{
}

/// Scans for the first '.' in the slice.
fn find_dot(s: &[u8]) -> (r: Option<usize>)
    ensures
        match r {
            Some(d) => first_dot(s@, 0) == Some(d as int) && d < s@.len(),
            None => first_dot(s@, 0) is None,
        },
{
    let mut i: usize = 0;
    while i < s.len()
        invariant
            0 <= i <= s@.len(),
            first_dot(s@, 0) == first_dot(s@, i as int),
        decreases s.len() - i,
    {
        if s[i] == 46 {
            return Some(i);
        }
        proof {
            lemma_first_dot_step(s@, i as int);
        }
        i += 1;
    }
    None
}

/// Checks that `s[from..to]` is all decimal digits.
pub fn check_digits(s: &[u8], from: usize, to: usize) -> (r: bool)
    requires
        from <= to <= s@.len(),
    ensures
        r == all_digits(s@.subrange(from as int, to as int)),
{
    let mut i: usize = from;
    while i < to
        invariant
            from <= i <= to <= s@.len(),
            forall|k: int| from <= k < i ==> is_digit(#[trigger] s@[k]),
        decreases to - i,
    {
        if s[i] < 48 || s[i] > 57 {
            assert(!is_digit(s@.subrange(from as int, to as int)[i - from]));
            return false;
        }
        i += 1;
    }
    assert(forall|k: int| 0 <= k < to - from ==> is_digit(
        #[trigger] s@.subrange(from as int, to as int)[k],
    ));
    true
}

/// Value of the digit run `s[from..to]`; the run must be short enough to fit.
pub fn digits_value(s: &[u8], from: usize, to: usize) -> (r: u64)
    requires
        from <= to <= s@.len(),
        to - from <= 16,
        all_digits(s@.subrange(from as int, to as int)),
    ensures
        r as int == digits_val(s@.subrange(from as int, to as int)),
{
    let mut val: u64 = 0;
    let mut i: usize = from;
    while i < to
        invariant
            from <= i <= to <= s@.len(),
            to - from <= 16,
            all_digits(s@.subrange(from as int, to as int)),
            val as int == digits_val(s@.subrange(from as int, i as int)),
            val < pow10(i - from),
        decreases to - i,
    {
        proof {
            lemma_pow10_mono(i - from, 15);
            assert(pow10(15) == 1000000000000000) by { reveal_with_fuel(pow10, 17); }
            assert(is_digit(s@.subrange(from as int, to as int)[i - from]));
            assert(s@.subrange(from as int, i + 1).drop_last() =~= s@.subrange(
                from as int,
                i as int,
            ));
        }
        val = val * 10 + ((s[i] - 48) as u64);
        i += 1;
        proof {
            assert(all_digits(s@.subrange(from as int, i as int))) by {
                assert(forall|k: int| 0 <= k < i - from ==> is_digit(
                    #[trigger] s@.subrange(from as int, i as int)[k],
                ));
            }
            lemma_digits_val_bound(s@.subrange(from as int, i as int));
        }
    }
    val
}

impl Amount {
    /// Parses a decimal amount string into cents, rounding half-up past two
    /// decimal places; `None` on any malformed input.
    pub fn parse(s: &[u8]) -> (r: Option<Amount>)
        ensures
            match r {
                Some(a) => spec_parse_amount(s@) == Some(a.cents as int),
                None => spec_parse_amount(s@) is None,
            },
    {
        let n = s.len();
        let dot = find_dot(s);
        let (ip_to, fp_from): (usize, usize) = match dot {
            Some(d) => {
                assert(d < n);
                (d, d + 1)
            },
            None => (n, n),
        };
        let ghost ip = s@.subrange(0, ip_to as int);
        let ghost fp = s@.subrange(fp_from as int, s@.len() as int);
        proof {
            if dot is None {
                assert(ip =~= s@);
                assert(fp =~= Seq::<u8>::empty());
            }
        }
        if ip_to == 0 || ip_to > 16 {
            return None;
        }
        if !check_digits(s, 0, ip_to) {
            return None;
        }
        if !check_digits(s, fp_from, s.len()) {
            return None;
        }
        if dot.is_some() && fp_from == s.len() {
            return None;
        }
        let int_val = digits_value(s, 0, ip_to);
        let d1: u64 = if fp_from < s.len() {
            assert(is_digit(fp[0]));
            (s[fp_from] - 48) as u64
        } else {
            0
        };
        let d2: u64 = if fp_from + 1 < s.len() {
            assert(is_digit(fp[1]));
            (s[fp_from + 1] - 48) as u64
        } else {
            0
        };
        let d3: u64 = if fp_from + 2 < s.len() {
            assert(is_digit(fp[2]));
            (s[fp_from + 2] - 48) as u64
        } else {
            0
        };
        proof {
            lemma_digits_val_bound(ip);
            lemma_pow10_mono(ip.len() as int, 16);
            assert(pow10(16) == 10000000000000000) by { reveal_with_fuel(pow10, 17); }
        }
        let cents: u64 = int_val * 100 + d1 * 10 + d2 + if d3 >= 5 {
            1
        } else {
            0
        };
        Some(Amount { cents })
    }

    /// Renders the amount as `digits.CC`, always with two decimal places.
    pub fn render(&self) -> (r: Vec<u8>)
        ensures
            r@ == crate::text::dec_digits(self.cents as int / 100) + seq![
                46u8,
                (48 + (self.cents as int % 100) / 10) as u8,
                (48 + self.cents as int % 10) as u8,
            ],
    {
        let mut r = crate::text::u64_dec(self.cents / 100);
        r.push(46);
        r.push(48 + ((self.cents % 100) / 10) as u8);
        r.push(48 + (self.cents % 10) as u8);
        r
    }
}

} // verus!
