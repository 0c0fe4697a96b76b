//! Decimal integer literals.
//!
//! The text of a literal is an optional sign followed by one or more
//! ASCII digits, and nothing else. An unsigned literal may carry `+`;
//! a signed one `+` or `-`. A literal whose value does not fit the
//! target type is no literal of that type.

use vstd::prelude::*;

verus! {

/// `b` is an ASCII digit.
pub open spec fn is_digit(b: u8) -> bool {
    0x30 <= b <= 0x39
}

/// The number a digit stands for; zero for any other byte.
pub open spec fn digit_of(b: u8) -> nat {
    if is_digit(b) {
        (b - 0x30) as nat
    } else {
        0
    }
}

/// Every byte of `s` is a digit.
pub open spec fn all_digits(s: Seq<u8>) -> bool {
    forall|i: int| 0 <= i < s.len() ==> is_digit(#[trigger] s[i])
}

/// The value of a run of digits read as a decimal number.
pub open spec fn digits_value(s: Seq<u8>) -> nat
    decreases s.len(),
{
    if s.len() == 0 {
        0
    } else {
        digits_value(s.drop_last()) * 10 + digit_of(s.last())
    }
}

/// The value of one or more digits; `None` for anything else.
pub open spec fn magnitude(digits: Seq<u8>) -> Option<nat> {
    if digits.len() > 0 && all_digits(digits) {
        Some(digits_value(digits))
    } else {
        None
    }
}

/// The value of `text` as an unsigned literal.
pub open spec fn unsigned_value(text: Seq<u8>) -> Option<nat> {
    if text.len() > 0 && text[0] == 0x2b {
        magnitude(text.skip(1))
    } else {
        magnitude(text)
    }
}

/// The value of `text` as a signed literal.
pub open spec fn signed_value(text: Seq<u8>) -> Option<int> {
    if text.len() > 0 && text[0] == 0x2d {
        match magnitude(text.skip(1)) {
            Some(m) => Some(-(m as int)),
            None => None,
        }
    } else {
        match unsigned_value(text) {
            Some(m) => Some(m as int),
            None => None,
        }
    }
}

/// The `u64` that `text` denotes, if it denotes one.
pub open spec fn u64_of(text: Seq<u8>) -> Option<u64> {
    match unsigned_value(text) {
        Some(v) if v <= u64::MAX => Some(v as u64),
        _ => None,
    }
}

/// The `i64` that `text` denotes, if it denotes one.
pub open spec fn i64_of(text: Seq<u8>) -> Option<i64> {
    match signed_value(text) {
        Some(v) if i64::MIN <= v <= i64::MAX => Some(v as i64),
        _ => None,
    }
}

/// A digit run is worth at least as much as any of its prefixes.
pub proof fn lemma_digits_value_prefix(s: Seq<u8>, k: int)
    requires
        0 <= k <= s.len(),
    ensures
        digits_value(s.take(k)) <= digits_value(s),
    decreases s.len(),
{
    if k == s.len() {
        assert(s.take(k) == s);
    } else {
        lemma_digits_value_prefix(s.drop_last(), k);
        assert(s.drop_last().take(k) == s.take(k));
    }
}

/// Reads the digits of `text` from `start` to its end.
fn read_magnitude(text: &[u8], start: usize) -> (r: Option<u64>)
    requires
        start <= text.len(),
    ensures
        r == match magnitude(text@.skip(start as int)) {
            Some(v) if v <= u64::MAX => Some(v as u64),
            _ => None,
        },
{
    let n = text.len();
    let ghost digits = text@.skip(start as int);
    if start >= n {
        return None;
    }
    let mut acc: u64 = 0;
    let mut i: usize = start;
    while i < n
        invariant
            start <= i <= n,
            n == text.len(),
            digits == text@.skip(start as int),
            all_digits(digits.take(i - start)),
            acc == digits_value(digits.take(i - start)),
        decreases n - i,
    {
        let b: u8 = text[i];
        assert(digits[i - start] == b);
        if b < 0x30 || b > 0x39 {
            return None;
        }
        let d: u64 = (b - 0x30) as u64;
        proof {
            let next = digits.take(i - start + 1);
            assert(next.drop_last() == digits.take(i - start));
            lemma_digits_value_prefix(digits, i - start + 1);
        }
        if acc > (u64::MAX - d) / 10 {
            return None;
        }
        acc = acc * 10 + d;
        i = i + 1;
    }
    assert(digits.take(n - start) == digits);
    Some(acc)
}

/// Reads an unsigned literal.
pub fn parse_u64(text: &[u8]) -> (r: Option<u64>)
    ensures
        r == u64_of(text@),
{
    if text.len() > 0 && text[0] == 0x2b {
        read_magnitude(text, 1)
    } else {
        assert(text@.skip(0) == text@);
        read_magnitude(text, 0)
    }
}

/// Reads a signed literal.
pub fn parse_i64(text: &[u8]) -> (r: Option<i64>)
    ensures
        r == i64_of(text@),
{
    if text.len() > 0 && text[0] == 0x2d {
        match read_magnitude(text, 1) {
            Some(m) => {
                if m <= 0x7fff_ffff_ffff_ffff {
                    Some(-(m as i64))
                } else if m == 0x8000_0000_0000_0000 {
                    Some(i64::MIN)
                } else {
                    None
                }
            },
            None => None,
        }
    } else {
        match parse_u64(text) {
            Some(m) => {
                if m <= 0x7fff_ffff_ffff_ffff {
                    Some(m as i64)
                } else {
                    None
                }
            },
            None => None,
        }
    }
}

} // verus!
