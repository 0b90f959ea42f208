//! Numbers as they are written in a manifest: decimal timestamps and
//! hexadecimal digests.

use vstd::prelude::*;

verus! {

/// Why a field is not the number it should be.
#[derive(Debug, Clone, Copy, PartialEq, Eq, Structural)]
pub enum NumberError {
    /// The field is empty.
    Empty,
    /// The field holds a character that is no digit.
    InvalidDigit,
    /// The field is made of digits, but the number is too large.
    PosOverflow,
}

/// Whether `c` is one of `0` to `9`.
pub open spec fn is_decimal_digit(c: char) -> bool {
    '0' as u32 <= c as u32 <= '9' as u32
}

/// The value of a decimal digit; what is no digit counts for nothing.
pub open spec fn decimal_digit(c: char) -> nat {
    if is_decimal_digit(c) {
        (c as u32 - '0' as u32) as nat
    } else {
        0
    }
}

/// The number written by a sequence of decimal digits, most significant first.
pub open spec fn decimal_value(digits: Seq<char>) -> nat
    decreases digits.len(),
{
    if digits.len() == 0 {
        0
    } else {
        decimal_value(digits.drop_last()) * 10 + decimal_digit(digits.last())
    }
}

/// Whether every character of `s` is a decimal digit.
pub open spec fn all_decimal_digits(s: Seq<char>) -> bool {
    forall|i: int| 0 <= i < s.len() ==> is_decimal_digit(#[trigger] s[i])
}

/// The digits of a decimal field: the field without the `+` that may lead it.
pub open spec fn unsigned_digits(s: Seq<char>) -> Seq<char> {
    if s.len() > 0 && s[0] == '+' {
        s.skip(1)
    } else {
        s
    }
}

/// The value of a decimal field: one or more decimal digits, which a single
/// `+` may precede, that write a number no larger than `u64::MAX`.
pub open spec fn decimal_u64(s: Seq<char>) -> Result<u64, NumberError> {
    let digits = unsigned_digits(s);
    if s.len() == 0 {
        Err(NumberError::Empty)
    } else if digits.len() == 0 || !all_decimal_digits(digits) {
        Err(NumberError::InvalidDigit)
    } else if decimal_value(digits) > u64::MAX {
        Err(NumberError::PosOverflow)
    } else {
        Ok(decimal_value(digits) as u64)
    }
}

/// The value of a hexadecimal digit, in either letter case.
pub open spec fn hex_digit(c: char) -> Option<u8> {
    let n = c as u32;
    if '0' as u32 <= n <= '9' as u32 {
        Some((n - '0' as u32) as u8)
    } else if 'a' as u32 <= n <= 'f' as u32 {
        Some((n - 'a' as u32 + 10) as u8)
    } else if 'A' as u32 <= n <= 'F' as u32 {
        Some((n - 'A' as u32 + 10) as u8)
    } else {
        None
    }
}

/// Whether every character of `s` is a hexadecimal digit.
pub open spec fn all_hex_digits(s: Seq<char>) -> bool {
    forall|i: int| 0 <= i < s.len() ==> hex_digit(#[trigger] s[i]) is Some
}

/// The byte that two hexadecimal digits write, the high one first.
pub open spec fn hex_byte(high: char, low: char) -> u8 {
    (hex_digit(high).unwrap() * 16 + hex_digit(low).unwrap()) as u8
}

/// The bytes that an even number of hexadecimal digits write, two digits to
/// a byte.
pub open spec fn hex_bytes(s: Seq<char>) -> Seq<u8> {
    Seq::new(s.len() / 2, |i: int| hex_byte(s[2 * i], s[2 * i + 1]))
}

/// The lower-case form of an ASCII letter; any other character is itself.
pub open spec fn ascii_lower(c: char) -> char {
    if 'A' as u32 <= c as u32 <= 'Z' as u32 {
        ((c as u32 + 32) as u8) as char
    } else {
        c
    }
}

/// Whether `s` and `t` are the same text but for the case of ASCII letters.
pub open spec fn same_ignoring_case(s: Seq<char>, t: Seq<char>) -> bool {
    s.len() == t.len() && forall|i: int|
        0 <= i < s.len() ==> ascii_lower(#[trigger] s[i]) == ascii_lower(t[i])
}

/// A longer sequence of digits writes no smaller a number than its beginning.
pub proof fn lemma_decimal_value_grows(digits: Seq<char>, n: int)
    requires
        0 <= n <= digits.len(),
    ensures
        decimal_value(digits.take(n)) <= decimal_value(digits),
    decreases digits.len() - n,
{
    if n < digits.len() {
        let front = digits.drop_last();
        assert(front.take(n) =~= digits.take(n));
        lemma_decimal_value_grows(front, n);
    } else {
        assert(digits.take(n) =~= digits);
    }
}

/// Reads the decimal field that the characters of `s` from `from` up to `to`
/// make.
pub(crate) fn parse_u64(s: &Vec<char>, from: usize, to: usize) -> (value: Result<u64, NumberError>)
    requires
        from <= to <= s.len(),
    ensures
        value == decimal_u64(s@.subrange(from as int, to as int)),
{
    let ghost field = s@.subrange(from as int, to as int);
    if from == to {
        return Err(NumberError::Empty);
    }
    let start: usize = if s[from] == '+' {
        from + 1
    } else {
        from
    };
    let ghost digits = unsigned_digits(field);
    assert(digits =~= s@.subrange(start as int, to as int));
    if start == to {
        return Err(NumberError::InvalidDigit);
    }
    let mut i: usize = start;
    while i < to
        invariant
            from <= start <= i <= to <= s.len(),
            start < to,
            field == s@.subrange(from as int, to as int),
            digits == unsigned_digits(field),
            digits == s@.subrange(start as int, to as int),
            forall|j: int| 0 <= j < i - start ==> is_decimal_digit(#[trigger] digits[j]),
        decreases to - i,
    {
        let c: u32 = s[i] as u32;
        if c < '0' as u32 || c > '9' as u32 {
            assert(!is_decimal_digit(digits[i - start]));
            return Err(NumberError::InvalidDigit);
        }
        i += 1;
    }
    assert(all_decimal_digits(digits));
    let mut value: u64 = 0;
    let mut k: usize = start;
    while k < to
        invariant
            from <= start <= k <= to <= s.len(),
            start < to,
            field == s@.subrange(from as int, to as int),
            digits == unsigned_digits(field),
            digits == s@.subrange(start as int, to as int),
            all_decimal_digits(digits),
            value == decimal_value(digits.take(k - start)),
        decreases to - k,
    {
        assert(is_decimal_digit(digits[k - start]));
        let digit: u64 = (s[k] as u32 - '0' as u32) as u64;
        proof {
            let next = digits.take(k + 1 - start);
            assert(next.drop_last() =~= digits.take(k - start));
            assert(next.last() == digits[k - start]);
            assert(decimal_value(next) == value * 10 + digit);
            lemma_decimal_value_grows(digits, k + 1 - start);
        }
        if value > (u64::MAX - digit) / 10 {
            return Err(NumberError::PosOverflow);
        }
        value = value * 10 + digit;
        k += 1;
    }
    assert(digits.take(to - start) =~= digits);
    Ok(value)
}

/// Reads one hexadecimal digit.
pub fn parse_hex_digit(c: char) -> (value: Option<u8>)
    ensures
        value == hex_digit(c),
{
    let n: u32 = c as u32;
    if '0' as u32 <= n && n <= '9' as u32 {
        Some((n - '0' as u32) as u8)
    } else if 'a' as u32 <= n && n <= 'f' as u32 {
        Some((n - 'a' as u32 + 10) as u8)
    } else if 'A' as u32 <= n && n <= 'F' as u32 {
        Some((n - 'A' as u32 + 10) as u8)
    } else {
        None
    }
}

/// A hexadecimal digit has the value of its lower-case form, and what is no
/// hexadecimal digit has no lower-case form that is one.
pub proof fn lemma_hex_digit_ignores_case(c: char)
    ensures
        hex_digit(ascii_lower(c)) == hex_digit(c),
{
    let n = c as u32;
    if 'A' as u32 <= n <= 'Z' as u32 {
        let lower = ((n + 32) as u8) as char;
        assert(lower as u32 == n + 32);
    }
}

} // verus!
