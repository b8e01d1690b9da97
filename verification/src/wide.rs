//! Decoding of wide-character property buffers and extraction of vendor and
//! product IDs from hardware-identifier strings.

use vstd::prelude::*;

use crate::device::ParseError;
use crate::parse::parse_hex_u16;
use crate::parse::spec_parse_hex_u16;

verus! {

/// The characters that UTF-16 code units decode to, invalid data replaced;
/// a function of the units alone.
pub uninterp spec fn utf16_lossy_of(units: Seq<u16>) -> Seq<char>;

/// Relies on String::from_utf16_lossy: decodes UTF-16 code units into
/// characters, replacing invalid data with the replacement character.
#[verifier::external_body]
fn decode_utf16_lossy(units: &Vec<u16>) -> (r: String)
    ensures
        r@ == utf16_lossy_of(units@),
{
    String::from_utf16_lossy(units)
}

/// The uppercase mapping of a character sequence; a function of the
/// characters alone.
pub uninterp spec fn upper_of(s: Seq<char>) -> Seq<char>;

/// Relies on str::to_uppercase: maps each character to its uppercase
/// equivalent.
#[verifier::external_body]
fn to_uppercase_string(s: &str) -> (r: String)
    ensures
        r@ == upper_of(s@),
{
    s.to_uppercase()
}

/// The prefix of a character sequence before its first NUL character; the
/// whole sequence when none occurs.
pub open spec fn take_until_nul(s: Seq<char>) -> Seq<char>
    decreases s.len(),
{
    if s.len() == 0 {
        s
    } else if s.first() == '\u{0}' {
        Seq::empty()
    } else {
        seq![s.first()] + take_until_nul(s.drop_first())
    }
}

proof fn lemma_take_until_nul_prefix(s: Seq<char>, end: int)
    requires
        0 <= end <= s.len(),
        forall|j: int| 0 <= j < end ==> s[j] != '\u{0}',
        end < s.len() ==> s[end] == '\u{0}',
    ensures
        take_until_nul(s) == s.subrange(0, end),
    decreases s.len(),
{
    if s.len() == 0 {
        assert(take_until_nul(s) =~= s.subrange(0, 0));
    } else if end == 0 {
        if s.first() == '\u{0}' {
            assert(take_until_nul(s) =~= s.subrange(0, 0));
        } else {
            assert(s[0] == '\u{0}');
        }
    } else {
        lemma_take_until_nul_prefix(s.drop_first(), end - 1);
        assert(seq![s.first()] + s.drop_first().subrange(0, end - 1) =~= s.subrange(0, end));
    }
}

/// The index of the first NUL character, or the length when there is none.
fn find_nul(s: &str) -> (end: usize)
    ensures
        end <= s@.len(),
        forall|j: int| 0 <= j < end ==> s@[j] != '\u{0}',
        end < s@.len() ==> s@[end as int] == '\u{0}',
{
    let n = s.unicode_len();
    let mut i: usize = 0;
    while i < n
        invariant
            i <= n,
            n == s@.len(),
            forall|j: int| 0 <= j < i ==> s@[j] != '\u{0}',
        decreases n - i,
    {
        if s.get_char(i) as u32 == 0 {
            return i;
        }
        i = i + 1;
    }
    i
}

/// Decode a wide-character buffer and cut it at the first NUL, as property
/// buffers of a fixed size carry their text NUL-terminated.
pub fn string_from_buf_u16(buf: Vec<u16>) -> (r: String)
    ensures
        r@ == take_until_nul(utf16_lossy_of(buf@)),
{
    let s = decode_utf16_lossy(&buf);
    let end = find_nul(s.as_str());
    proof {
        lemma_take_until_nul_prefix(s@, end as int);
    }
    s.as_str().substring_char(0, end).to_owned()
}

/// The 16-bit units a byte buffer holds, low byte first.
pub open spec fn wide_units_of(b: Seq<u8>) -> Seq<u16> {
    Seq::new(b.len() / 2, |i: int| (b[2 * i] + 256 * b[2 * i + 1]) as u16)
}

/// Decode a byte buffer that holds wide characters, low byte first, and cut
/// the text at the first NUL.
pub fn string_from_buf_u8(buf: Vec<u8>) -> (r: String)
    ensures
        r@ == take_until_nul(utf16_lossy_of(wide_units_of(buf@))),
{
    let m = buf.len() / 2;
    let mut units: Vec<u16> = Vec::new();
    let mut k: usize = 0;
    while k < m
        invariant
            k <= m,
            m == buf@.len() / 2,
            buf@.len() <= usize::MAX,
            units@ =~= wide_units_of(buf@).take(k as int),
        decreases m - k,
    {
        let low = buf[2 * k];
        let high = buf[2 * k + 1];
        let unit: u16 = low as u16 + 256 * (high as u16);
        units.push(unit);
        proof {
            assert(units@ =~= wide_units_of(buf@).take(k + 1));
        }
        k = k + 1;
    }
    proof {
        assert(wide_units_of(buf@).take(m as int) =~= wide_units_of(buf@));
    }
    string_from_buf_u16(units)
}

/// Whether the pattern occurs in the sequence starting at index `i`.
pub open spec fn match_at(s: Seq<char>, pat: Seq<char>, i: int) -> bool {
    0 <= i && i + pat.len() <= s.len() && s.subrange(i, i + pat.len()) == pat
}

/// The first index at or after `from` where the pattern occurs, if any.
pub open spec fn find_index(s: Seq<char>, pat: Seq<char>, from: int) -> Option<int>
    decreases s.len() - from,
{
    if pat.len() == 0 || from < 0 || from + pat.len() > s.len() {
        None
    } else if match_at(s, pat, from) {
        Some(from)
    } else {
        find_index(s, pat, from + 1)
    }
}

proof fn lemma_find_index_step(s: Seq<char>, pat: Seq<char>, from: int)
    requires
        0 <= from,
        pat.len() > 0,
        !match_at(s, pat, from),
    ensures
        find_index(s, pat, from) == find_index(s, pat, from + 1),
{
    if from + pat.len() > s.len() {
        assert(from + 1 + pat.len() > s.len());
    }
}

/// Find the first occurrence of a four-character tag.
fn find_tag(s: &str, c0: char, c1: char, c2: char, c3: char) -> (r: Option<usize>)
    ensures
        match r {
            Some(i) => find_index(s@, seq![c0, c1, c2, c3], 0) == Some(i as int),
            None => find_index(s@, seq![c0, c1, c2, c3], 0) is None,
        },
{
    let ghost pat = seq![c0, c1, c2, c3];
    let n = s.unicode_len();
    if n < 4 {
        return None;
    }
    let mut i: usize = 0;
    while i <= n - 4
        invariant
            i <= n - 3,
            n >= 4,
            n == s@.len(),
            pat == seq![c0, c1, c2, c3],
            find_index(s@, pat, 0) == find_index(s@, pat, i as int),
        decreases n - i,
    {
        let hit = s.get_char(i) == c0 && s.get_char(i + 1) == c1 && s.get_char(i + 2) == c2
            && s.get_char(i + 3) == c3;
        if hit {
            proof {
                assert(s@.subrange(i as int, i + 4) =~= pat);
            }
            return Some(i);
        }
        proof {
            assert(s@.subrange(i as int, i + 4) != pat) by {
                if s@.subrange(i as int, i + 4) == pat {
                    assert(s@.subrange(i as int, i + 4)[0] == c0);
                    assert(s@.subrange(i as int, i + 4)[1] == c1);
                    assert(s@.subrange(i as int, i + 4)[2] == c2);
                    assert(s@.subrange(i as int, i + 4)[3] == c3);
                }
            }
            lemma_find_index_step(s@, pat, i as int);
        }
        i = i + 1;
    }
    proof {
        assert(find_index(s@, pat, i as int) is None);
    }
    None
}

/// The tag before a vendor ID in a hardware-identifier string.
pub open spec fn vid_tag() -> Seq<char> {
    seq!['V', 'I', 'D', '_']
}

/// The tag before a product ID in a hardware-identifier string.
pub open spec fn pid_tag() -> Seq<char> {
    seq!['P', 'I', 'D', '_']
}

/// The vendor and product IDs an identifier string carries: four hex digits
/// after the first `VID_` and four after the first `PID_`.
pub open spec fn spec_parse_vid_pid(s: Seq<char>) -> Option<(u16, u16)> {
    match find_index(s, vid_tag(), 0) {
        None => None,
        Some(i) => match find_index(s, pid_tag(), 0) {
            None => None,
            Some(j) => if i + 8 <= s.len() && j + 8 <= s.len() {
                match spec_parse_hex_u16(s.subrange(i + 4, i + 8)) {
                    None => None,
                    Some(v) => match spec_parse_hex_u16(s.subrange(j + 4, j + 8)) {
                        None => None,
                        Some(p) => Some((v, p)),
                    },
                }
            } else {
                None
            },
        },
    }
}

/// Read the vendor and product IDs out of an identifier string, failing when
/// either tag is missing or not followed by four in-range hex digits.
pub fn parse_vid_pid(s: &str) -> (r: Result<(u16, u16), ParseError>)
    ensures
        spec_parse_vid_pid(s@) is Some ==> r == Ok::<(u16, u16), ParseError>(
            spec_parse_vid_pid(s@).unwrap(),
        ),
        spec_parse_vid_pid(s@) is None ==> r is Err,
{
    let n = s.unicode_len();
    let vid_at = match find_tag(s, 'V', 'I', 'D', '_') {
        Some(i) => i,
        None => {
            return Err(ParseError);
        },
    };
    let pid_at = match find_tag(s, 'P', 'I', 'D', '_') {
        Some(j) => j,
        None => {
            return Err(ParseError);
        },
    };
    if n >= 8 && vid_at <= n - 8 && pid_at <= n - 8 {
        let vs = s.substring_char(vid_at + 4, vid_at + 8);
        let ps = s.substring_char(pid_at + 4, pid_at + 8);
        let v = match parse_hex_u16(vs) {
            Ok(v) => v,
            Err(e) => {
                return Err(e);
            },
        };
        let p = match parse_hex_u16(ps) {
            Ok(p) => p,
            Err(e) => {
                return Err(e);
            },
        };
        Ok((v, p))
    } else {
        Err(ParseError)
    }
}

/// The characters a hardware-identifier byte buffer yields before IDs are
/// read from it: wide units decoded, cut at the first NUL, then uppercased.
pub open spec fn spec_hardware_id_chars(buf: Seq<u8>) -> Seq<char> {
    upper_of(take_until_nul(utf16_lossy_of(wide_units_of(buf))))
}

/// Read the vendor and product IDs out of a raw hardware-identifier buffer
/// of wide characters.
pub fn extract_vid_pid(buf: Vec<u8>) -> (r: Result<(u16, u16), ParseError>)
    ensures
        spec_parse_vid_pid(spec_hardware_id_chars(buf@)) is Some ==> r == Ok::<
            (u16, u16),
            ParseError,
        >(spec_parse_vid_pid(spec_hardware_id_chars(buf@)).unwrap()),
        spec_parse_vid_pid(spec_hardware_id_chars(buf@)) is None ==> r is Err,
{
    let id = string_from_buf_u8(buf);
    let upper = to_uppercase_string(id.as_str());
    parse_vid_pid(upper.as_str())
}

} // verus!
