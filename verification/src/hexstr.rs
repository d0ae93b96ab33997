//! Hexadecimal text: decoding a token to bytes or to a bounded integer.
//!
//! Byte decoding is delegated to the `hex` crate behind one trusted wrapper
//! whose contract pins the result exactly: an even-length run of hex digits
//! decodes to one byte per digit pair, anything else is refused.  Decoding a
//! token to an 8- or 16-bit integer is verified code.

use vstd::prelude::*;
use vstd::string::*;
use crate::text::lower_char;

verus! {

/// A hexadecimal digit: `0-9`, `a-f` or `A-F`.
pub open spec fn is_hex_digit(c: char) -> bool {
    (48 <= c as int && c as int <= 57) || (97 <= c as int && c as int <= 102) || (65 <= c as int
        && c as int <= 70)
}

/// The numeric value of a hexadecimal digit.
pub open spec fn hex_digit_val(c: char) -> int {
    if 48 <= c as int && c as int <= 57 {
        c as int - 48
    } else if 97 <= c as int && c as int <= 102 {
        c as int - 87
    } else {
        c as int - 55
    }
}

/// A string that decodes to bytes: an even number of hex digits.
pub open spec fn valid_hex_seq(s: Seq<char>) -> bool {
    s.len() % 2 == 0 && forall|i: int| 0 <= i < s.len() ==> is_hex_digit(s[i])
}

/// The bytes a valid hex string decodes to, one byte per digit pair.
pub open spec fn spec_hex_decode(s: Seq<char>) -> Seq<u8> {
    Seq::new((s.len() / 2) as nat, |i: int| (hex_digit_val(s[2 * i]) * 16 + hex_digit_val(s[2 * i + 1])) as u8)
}

/// The lower-case hex digit with value `v`.
pub open spec fn hex_digit_char(v: int) -> char {
    if v < 10 {
        (48 + v) as char
    } else {
        (87 + v) as char
    }
}

/// The lower-case hex encoding of a byte sequence, two digits per byte.
pub open spec fn spec_hex_encode(b: Seq<u8>) -> Seq<char> {
    Seq::new(2 * b.len(), |i: int| if i % 2 == 0 {
        hex_digit_char(b[i / 2] as int / 16)
    } else {
        hex_digit_char(b[i / 2] as int % 16)
    })
}

/// The value of a hex-digit string read as one base-16 integer.
pub open spec fn hex_uint_val(s: Seq<char>) -> int
    decreases s.len(),
{
    if s.len() == 0 {
        0
    } else {
        hex_uint_val(s.drop_last()) * 16 + hex_digit_val(s.last())
    }
}

/// A string that reads as a base-16 integer no greater than `max`: at least
/// one digit, only hex digits, value within the bound.
pub open spec fn valid_hex_uint(s: Seq<char>, max: int) -> bool {
    s.len() > 0 && (forall|i: int| 0 <= i < s.len() ==> is_hex_digit(s[i])) && hex_uint_val(s)
        <= max
}

/// Relies on `hex::decode`: a string whose bytes are an even number of
/// ASCII hex digits decodes to one byte per digit pair, high digit first;
/// any other string is refused.  A character outside ASCII encodes to
/// bytes that are not hex digits, so validity over the characters and over
/// the UTF-8 bytes coincide.
#[verifier::external_body]
pub(crate) fn hex_decode(s: &str) -> (r: Option<Vec<u8>>)
    ensures
        r is Some <==> valid_hex_seq(s@),
        r matches Some(v) ==> v@ == spec_hex_decode(s@),
{
    hex::decode(s).ok()
}

/// Executable classification of a hex digit, with its value.
pub fn hex_digit_value(c: char) -> (r: Option<u8>)
    ensures
        r is Some <==> is_hex_digit(c),
        r matches Some(v) ==> v as int == hex_digit_val(c) && v < 16,
{
    let u = c as u32;
    if 48 <= u && u <= 57 {
        Some((u - 48) as u8)
    } else if 97 <= u && u <= 102 {
        Some((u - 87) as u8)
    } else if 65 <= u && u <= 70 {
        Some((u - 55) as u8)
    } else {
        None
    }
}

/// Appending digits to a hex numeral never lowers its value.
proof fn lemma_hex_uint_prefix_le(s: Seq<char>, i: int)
    requires
        0 <= i <= s.len(),
        forall|j: int| 0 <= j < s.len() ==> is_hex_digit(s[j]),
    ensures
        hex_uint_val(s.subrange(0, i)) <= hex_uint_val(s),
        hex_uint_val(s) >= 0,
    decreases s.len() - i,
{
    lemma_hex_uint_nonneg(s.subrange(0, i));
    if i < s.len() {
        assert(s.subrange(0, i + 1).drop_last() =~= s.subrange(0, i));
        assert(s.subrange(0, i + 1).last() == s[i]);
        assert(hex_uint_val(s.subrange(0, i + 1)) == hex_uint_val(s.subrange(0, i)) * 16
            + hex_digit_val(s[i]));
        assert(hex_digit_val(s[i]) >= 0);
        lemma_hex_uint_prefix_le(s, i + 1);
    } else {
        assert(s.subrange(0, i) =~= s);
    }
}

proof fn lemma_hex_uint_nonneg(s: Seq<char>)
    ensures
        (forall|j: int| 0 <= j < s.len() ==> is_hex_digit(s[j])) ==> hex_uint_val(s) >= 0,
    decreases s.len(),
{
    if s.len() > 0 {
        lemma_hex_uint_nonneg(s.drop_last());
        assert(forall|j: int| 0 <= j < s.drop_last().len() ==> s.drop_last()[j] == s[j]);
    }
}

/// Reads a token as a base-16 integer bounded by `max`, refusing an empty
/// token, a non-hex character, and any value above the bound.
fn parse_hex_bounded(s: &str, max: u32) -> (r: Option<u32>)
    requires
        max <= 0xFFFF,
    ensures
        r is Some <==> valid_hex_uint(s@, max as int),
        r matches Some(v) ==> v as int == hex_uint_val(s@) && v <= max,
{
    let n = s.unicode_len();
    if n == 0 {
        return None;
    }
    let mut acc: u32 = 0;
    let mut i: usize = 0;
    while i < n
        invariant
            i <= n,
            n == s@.len(),
            max <= 0xFFFF,
            forall|j: int| 0 <= j < i ==> is_hex_digit(s@[j]),
            acc as int == hex_uint_val(s@.subrange(0, i as int)),
            acc <= max,
        decreases n - i,
    {
        let c = s.get_char(i);
        match hex_digit_value(c) {
            None => {
                return None;
            },
            Some(d) => {
                let next = acc * 16 + (d as u32);
                proof {
                    assert(s@.subrange(0, i + 1).drop_last() =~= s@.subrange(0, i as int));
                    assert(s@.subrange(0, i + 1).last() == s@[i as int]);
                }
                if next > max {
                    proof {
                        if forall|j: int| 0 <= j < s@.len() ==> is_hex_digit(s@[j]) {
                            lemma_hex_uint_prefix_le(s@, i + 1);
                        }
                    }
                    return None;
                }
                acc = next;
                i += 1;
            },
        }
    }
    proof {
        assert(s@.subrange(0, n as int) =~= s@);
    }
    Some(acc)
}

/// Reads a token as an 8-bit unsigned integer written in hex.
pub fn parse_hex_u8(s: &str) -> (r: Option<u8>)
    ensures
        r is Some <==> valid_hex_uint(s@, 0xFF),
        r matches Some(v) ==> v as int == hex_uint_val(s@),
{
    match parse_hex_bounded(s, 0xFF) {
        Some(v) => Some(v as u8),
        None => None,
    }
}

/// Reads a token as a 16-bit unsigned integer written in hex.
pub fn parse_hex_u16(s: &str) -> (r: Option<u16>)
    ensures
        r is Some <==> valid_hex_uint(s@, 0xFFFF),
        r matches Some(v) ==> v as int == hex_uint_val(s@),
{
    match parse_hex_bounded(s, 0xFFFF) {
        Some(v) => Some(v as u16),
        None => None,
    }
}

/// The value of a byte sequence read as one big-endian integer.
pub open spec fn bytes_uint_val(b: Seq<u8>) -> int
    decreases b.len(),
{
    if b.len() == 0 {
        0
    } else {
        bytes_uint_val(b.drop_last()) * 256 + b.last()
    }
}

/// Reading the hex encoding of a byte sequence as one base-16 numeral
/// gives the bytes' big-endian value.
pub proof fn lemma_hex_uint_of_encode(b: Seq<u8>)
    ensures
        hex_uint_val(spec_hex_encode(b)) == bytes_uint_val(b),
    decreases b.len(),
{
    if b.len() > 0 {
        lemma_hex_uint_of_encode(b.drop_last());
        let e = spec_hex_encode(b);
        let e0 = spec_hex_encode(b.drop_last());
        let n = b.len() as int;
        let hi = b[n - 1] as int / 16;
        let lo = b[n - 1] as int % 16;
        assert(e.drop_last().drop_last() =~= e0);
        assert(e.drop_last().last() == e[2 * n - 2]);
        assert(e[2 * n - 2] == hex_digit_char(hi));
        assert(e.last() == hex_digit_char(lo));
        assert(hex_digit_val(hex_digit_char(hi)) == hi);
        assert(hex_digit_val(hex_digit_char(lo)) == lo);
        assert(hex_uint_val(e.drop_last()) == hex_uint_val(e0) * 16 + hi);
        assert(hex_uint_val(e) == hex_uint_val(e.drop_last()) * 16 + lo);
        assert(hi * 16 + lo == b[n - 1] as int);
    }
}

/// The hex encoding of a byte sequence is itself a valid hex string, its
/// digits are lower case and never whitespace, and decoding it gives the
/// original bytes back.
pub proof fn lemma_hex_round_trip(b: Seq<u8>)
    ensures
        spec_hex_encode(b).len() == 2 * b.len(),
        valid_hex_seq(spec_hex_encode(b)),
        forall|i: int|
            0 <= i < spec_hex_encode(b).len() ==> !crate::text::is_space_char(
                spec_hex_encode(b)[i],
            ),
        forall|i: int|
            0 <= i < spec_hex_encode(b).len() ==> lower_char(spec_hex_encode(b)[i])
                == spec_hex_encode(b)[i],
        spec_hex_decode(spec_hex_encode(b)) == b,
{
    let e = spec_hex_encode(b);
    assert forall|i: int| 0 <= i < e.len() implies is_hex_digit(e[i]) && !crate::text::is_space_char(
        e[i],
    ) && lower_char(e[i]) == e[i] by {
        let v = if i % 2 == 0 {
            b[i / 2] as int / 16
        } else {
            b[i / 2] as int % 16
        };
        assert(0 <= v < 16);
        assert(e[i] == hex_digit_char(v));
    }
    assert forall|i: int| 0 <= i < b.len() implies spec_hex_decode(e)[i] == b[i] by {
        let hi = b[i] as int / 16;
        let lo = b[i] as int % 16;
        assert(e[2 * i] == hex_digit_char(hi));
        assert(e[2 * i + 1] == hex_digit_char(lo));
        assert(hex_digit_val(hex_digit_char(hi)) == hi);
        assert(hex_digit_val(hex_digit_char(lo)) == lo);
        assert(hi * 16 + lo == b[i] as int);
    }
    assert(spec_hex_decode(e) =~= b);
}

} // verus!
