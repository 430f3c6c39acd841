//! Hexadecimal encoding of byte strings, as used by XTGETTCAP replies, DA3
//! unit ids and the `--raw` dumps.
use vstd::prelude::*;
use crate::text::{all_hex_digits, chars_of, hex_digit_char, hex_digit_value, string_of};

verus! {

/// The byte encoded by the two hexadecimal digits `hi`, `lo`.
pub open spec fn hex_pair(hi: char, lo: char) -> u8 {
    (hex_digit_value(hi).unwrap() * 16 + hex_digit_value(lo).unwrap()) as u8
}

/// What `decode` yields: the text must consist of an even number of ASCII
/// hexadecimal digits (either case); each pair of digits is one byte.
pub open spec fn decode_spec(s: Seq<char>) -> Option<Seq<u8>> {
    if s.len() % 2 == 0 && all_hex_digits(s) {
        Some(Seq::new(s.len() / 2, |i: int| hex_pair(s[2 * i], s[2 * i + 1])))
    } else {
        None
    }
}

/// What `encode` yields: two lower-case hexadecimal digits per byte.
pub open spec fn encode_spec(b: Seq<u8>) -> Seq<char> {
    Seq::new(
        2 * b.len(),
        |i: int|
            if i % 2 == 0 {
                hex_digit_char((b[i / 2] / 16) as nat)
            } else {
                hex_digit_char((b[i / 2] % 16) as nat)
            },
    )
}

/// The value of one hexadecimal digit, if `c` is one.
fn digit_value(c: char) -> (r: Option<u8>)
    ensures
        r matches Some(v) ==> hex_digit_value(c) == Some(v as nat),
        r is None ==> hex_digit_value(c) is None,
{
    if '0' <= c && c <= '9' {
        Some((c as u32 - 48) as u8)
    } else if 'a' <= c && c <= 'f' {
        Some((c as u32 - 87) as u8)
    } else if 'A' <= c && c <= 'F' {
        Some((c as u32 - 55) as u8)
    } else {
        None
    }
}

/// Decodes a sequence of hexadecimal digit characters into bytes.
pub fn decode_chars(s: &[char]) -> (r: Option<Vec<u8>>)
    ensures
        r matches Some(v) ==> decode_spec(s@) == Some(v@),
        r is None ==> decode_spec(s@) is None,
{
    if s.len() % 2 != 0 {
        return None;
    }
    let mut out: Vec<u8> = Vec::new();
    let mut i: usize = 0;
    while i < s.len()
        invariant
            s.len() % 2 == 0,
            i % 2 == 0,
            i <= s.len(),
            out@.len() == i / 2,
            forall|k: int| 0 <= k < i ==> (#[trigger] hex_digit_value(s@[k])) is Some,
            forall|j: int|
                0 <= j < i / 2 ==> #[trigger] out@[j] == hex_pair(s@[2 * j], s@[2 * j + 1]),
        decreases s.len() - i,
    {
        let hi = digit_value(s[i]);
        let lo = digit_value(s[i + 1]);
        match (hi, lo) {
            (Some(h), Some(l)) => {
                assert(h < 16 && l < 16);
                let b: u8 = h * 16 + l;
                out.push(b);
                proof {
                    let j = i / 2;
                    assert(2 * j == i);
                    assert(out@[j as int] == hex_pair(s@[2 * j], s@[2 * j + 1]));
                }
                i = i + 2;
            },
            _ => {
                proof {
                    if hi is None {
                        assert(!(hex_digit_value(s@[i as int]) is Some));
                    } else {
                        assert(!(hex_digit_value(s@[i + 1]) is Some));
                    }
                    assert(!all_hex_digits(s@));
                }
                return None;
            },
        }
    }
    proof {
        assert(all_hex_digits(s@));
        let expect = Seq::new(s@.len() / 2, |j: int| hex_pair(s@[2 * j], s@[2 * j + 1]));
        assert(out@ =~= expect);
    }
    Some(out)
}

/// Decodes a text of hexadecimal digits into bytes.
pub fn decode(hex: &str) -> (r: Option<Vec<u8>>)
    ensures
        r matches Some(v) ==> decode_spec(hex@) == Some(v@),
        r is None ==> decode_spec(hex@) is None,
{
    let cs = chars_of(hex);
    decode_chars(cs.as_slice())
}

/// The lower-case hexadecimal digit for `d < 16`.
fn digit_char(d: u8) -> (c: char)
    requires
        d < 16,
    ensures
        c == hex_digit_char(d as nat),
{
    if d < 10 {
        (48u8 + d) as char
    } else {
        (87u8 + d) as char
    }
}

/// Encodes bytes as lower-case hexadecimal digits, two per byte.
pub fn encode_chars(bytes: &[u8]) -> (r: Vec<char>)
    ensures
        r@ == encode_spec(bytes@),
{
    let mut out: Vec<char> = Vec::new();
    let mut i: usize = 0;
    while i < bytes.len()
        invariant
            i <= bytes.len(),
            out@ == encode_spec(bytes@.subrange(0, i as int)),
        decreases bytes.len() - i,
    {
        let b = bytes[i];
        out.push(digit_char(b / 16));
        out.push(digit_char(b % 16));
        i = i + 1;
        assert(out@ =~= encode_spec(bytes@.subrange(0, i as int)));
    }
    assert(bytes@.subrange(0, bytes.len() as int) == bytes@);
    out
}

/// Encodes bytes as a lower-case hexadecimal string, two digits per byte.
pub fn encode(bytes: &[u8]) -> (s: String)
    ensures
        s@ == encode_spec(bytes@),
{
    let cs = encode_chars(bytes);
    string_of(cs.as_slice())
}

/// Law: decoding what `encode` produced gives back the original bytes.
pub proof fn law_decode_encode(b: Seq<u8>)
    ensures
        decode_spec(encode_spec(b)) == Some(b),
{
    let e = encode_spec(b);
    assert forall|k: int| 0 <= k < e.len() implies (#[trigger] hex_digit_value(e[k])) is Some by {
        let d: nat = if k % 2 == 0 { (b[k / 2] / 16) as nat } else { (b[k / 2] % 16) as nat };
        assert(d < 16);
        assert(e[k] == hex_digit_char(d));
        assert(hex_digit_value(hex_digit_char(d)) == Some(d));
    }
    assert(e.len() % 2 == 0);
    let r = Seq::new(e.len() / 2, |i: int| hex_pair(e[2 * i], e[2 * i + 1]));
    assert forall|i: int| 0 <= i < b.len() implies r[i] == b[i] by {
        let hi = (b[i] / 16) as nat;
        let lo = (b[i] % 16) as nat;
        assert((2 * i) / 2 == i);
        assert((2 * i + 1) / 2 == i);
        assert(e[2 * i] == hex_digit_char(hi));
        assert(e[2 * i + 1] == hex_digit_char(lo));
        assert(hex_digit_value(hex_digit_char(hi)) == Some(hi));
        assert(hex_digit_value(hex_digit_char(lo)) == Some(lo));
    }
    assert(r =~= b);
}

} // verus!
