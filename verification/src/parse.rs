//! Parsing of hexadecimal identifier strings, as they appear in OS device
//! records: an optional `0x` prefix, an optional `+` sign, then hex digits.

use vstd::prelude::*;

use crate::device::ParseError;

verus! {

/// Whether a character is an ASCII hexadecimal digit.
pub open spec fn is_hex_digit(c: char) -> bool {
    ||| (0x30 <= c as u32 && c as u32 <= 0x39)
    ||| (0x61 <= c as u32 && c as u32 <= 0x66)
    ||| (0x41 <= c as u32 && c as u32 <= 0x46)
}

/// The numeric value of a hexadecimal digit.
pub open spec fn hex_digit_value(c: char) -> int {
    if 0x30 <= c as u32 && c as u32 <= 0x39 {
        c as u32 - 0x30
    } else if 0x61 <= c as u32 && c as u32 <= 0x66 {
        c as u32 - 0x61 + 10
    } else {
        c as u32 - 0x41 + 10
    }
}

/// Whether every character of the sequence is a hexadecimal digit.
pub open spec fn all_hex_digits(s: Seq<char>) -> bool {
    forall|i: int| 0 <= i < s.len() ==> is_hex_digit(#[trigger] s[i])
}

/// The number a sequence of hexadecimal digits denotes, most significant
/// digit first.
pub open spec fn hex_value_of(s: Seq<char>) -> int
    decreases s.len(),
{
    if s.len() == 0 {
        0
    } else {
        16 * hex_value_of(s.drop_last()) + hex_digit_value(s.last())
    }
}

proof fn lemma_hex_value_nonneg(s: Seq<char>)
    requires
        all_hex_digits(s),
    ensures
        hex_value_of(s) >= 0,
    decreases s.len(),
{
    if s.len() > 0 {
        assert(all_hex_digits(s.drop_last()));
        lemma_hex_value_nonneg(s.drop_last());
        assert(is_hex_digit(s.last()));
    }
}

/// The 16-bit number a string denotes in hexadecimal: an optional leading
/// `+`, then at least one hex digit, and a value that fits in 16 bits;
/// anything else denotes nothing.
pub open spec fn spec_parse_hex_u16(s: Seq<char>) -> Option<u16> {
    let digits = if s.len() > 0 && s[0] == '+' {
        s.subrange(1, s.len() as int)
    } else {
        s
    };
    if digits.len() > 0 && all_hex_digits(digits) && hex_value_of(digits) <= 0xFFFF {
        Some(hex_value_of(digits) as u16)
    } else {
        None
    }
}

/// Parse a string of hexadecimal digits, with an optional leading `+` sign,
/// into a 16-bit number. Fails on an empty digit sequence, on any character
/// that is not a hex digit, and on a value over 16 bits.
pub fn parse_hex_u16(s: &str) -> (r: Result<u16, ParseError>)
    ensures
        spec_parse_hex_u16(s@) is Some ==> r == Ok::<u16, ParseError>(
            spec_parse_hex_u16(s@).unwrap(),
        ),
        spec_parse_hex_u16(s@) is None ==> r is Err,
{
    let n = s.unicode_len();
    let start: usize = if n > 0 && s.get_char(0) as u32 == 0x2B {
        1
    } else {
        0
    };
    let ghost digits: Seq<char> = if start == 1 {
        s@.subrange(1, s@.len() as int)
    } else {
        s@
    };
    if start == n {
        return Err(ParseError);
    }
    let mut i: usize = start;
    let mut acc: u32 = 0;
    while i < n
        invariant
            start <= i <= n,
            n == s@.len(),
            start == 0 || start == 1,
            start == 1 ==> s@.len() > 0 && s@[0] == '+',
            start == 0 ==> !(s@.len() > 0 && s@[0] == '+'),
            digits == (if start == 1 {
                s@.subrange(1, s@.len() as int)
            } else {
                s@
            }),
            all_hex_digits(digits.take(i - start)),
            acc as int == (if hex_value_of(digits.take(i - start)) <= 0xFFFF {
                hex_value_of(digits.take(i - start))
            } else {
                0x10000
            }),
        decreases n - i,
    {
        let c = s.get_char(i);
        let u = c as u32;
        let d: u32 = if 0x30 <= u && u <= 0x39 {
            u - 0x30
        } else if 0x61 <= u && u <= 0x66 {
            u - 0x61 + 10
        } else if 0x41 <= u && u <= 0x46 {
            u - 0x41 + 10
        } else {
            proof {
                assert(digits[i - start] == s@[i as int]);
                assert(!is_hex_digit(digits[i - start]));
            }
            return Err(ParseError);
        };
        proof {
            let prefix = digits.take(i - start);
            let prefix2 = digits.take(i + 1 - start);
            assert(prefix2.drop_last() =~= prefix);
            assert(prefix2.last() == s@[i as int]);
            assert(d as int == hex_digit_value(prefix2.last()));
            lemma_hex_value_nonneg(prefix);
        }
        let next: u32 = 16 * acc + d;
        acc = if next > 0xFFFF {
            0x10000
        } else {
            next
        };
        i = i + 1;
    }
    proof {
        assert(digits.take(i - start) =~= digits);
    }
    if acc > 0xFFFF {
        Err(ParseError)
    } else {
        Ok(acc as u16)
    }
}

/// The 16-bit number an identifier string denotes: a `0x` prefix, when
/// present, is stripped first.
pub open spec fn spec_get_pid_or_vid(s: Seq<char>) -> Option<u16> {
    let t = if s.len() >= 2 && s[0] == '0' && s[1] == 'x' {
        s.subrange(2, s.len() as int)
    } else {
        s
    };
    spec_parse_hex_u16(t)
}

/// Parse a vendor or product identifier, allowing a `0x` prefix.
pub fn get_pid_or_vid(id: &str) -> (r: Result<u16, ParseError>)
    ensures
        spec_get_pid_or_vid(id@) is Some ==> r == Ok::<u16, ParseError>(
            spec_get_pid_or_vid(id@).unwrap(),
        ),
        spec_get_pid_or_vid(id@) is None ==> r is Err,
{
    let n = id.unicode_len();
    if n >= 2 && id.get_char(0) as u32 == 0x30 && id.get_char(1) as u32 == 0x78 {
        let rest = id.substring_char(2, n);
        parse_hex_u16(rest)
    } else {
        parse_hex_u16(id)
    }
}

} // verus!
