//! Standard Base64 (RFC 4648 alphabet, `=` padding), as used in Basic auth headers.
use vstd::prelude::*;
use vstd::string::StringSliceAdditionalSpecFns;
use crate::text::push_char;

verus! {

/// The alphabet character for a 6-bit value.
pub open spec fn b64_char(v: u8) -> char {
    if v < 26 {
        (65 + v) as char
    } else if v < 52 {
        (97 + (v - 26)) as char
    } else if v < 62 {
        (48 + (v - 52)) as char
    } else if v == 62 {
        '+'
    } else {
        '/'
    }
}

/// The four characters for the three bytes at `b[j..j + 3]`.
pub open spec fn quad(b: Seq<u8>, j: int) -> Seq<char> {
    let (b1, b2, b3) = (b[j], b[j + 1], b[j + 2]);
    seq![
        b64_char(b1 >> 2),
        b64_char(((b1 & 3u8) << 4u8) | (b2 >> 4)),
        b64_char(((b2 & 15u8) << 2u8) | (b3 >> 6)),
        b64_char(b3 & 63u8),
    ]
}

/// The characters for the first `k` complete groups of three bytes.
pub open spec fn full_groups(b: Seq<u8>, k: nat) -> Seq<char>
    decreases k,
{
    if k == 0 {
        Seq::empty()
    } else {
        full_groups(b, (k - 1) as nat) + quad(b, 3 * (k - 1))
    }
}

/// The padded characters for the one or two bytes left after the complete groups.
pub open spec fn tail_chars(b: Seq<u8>) -> Seq<char> {
    let i: int = 3 * (b.len() / 3) as int;
    if b.len() - i == 1 {
        let b1 = b[i];
        seq![b64_char(b1 >> 2), b64_char((b1 & 3u8) << 4u8), '=', '=']
    } else if b.len() - i == 2 {
        let (b1, b2) = (b[i], b[i + 1]);
        seq![
            b64_char(b1 >> 2),
            b64_char(((b1 & 3u8) << 4u8) | (b2 >> 4)),
            b64_char((b2 & 15u8) << 2u8),
            '=',
        ]
    } else {
        Seq::empty()
    }
}

/// The Base64 encoding of `b`.
pub open spec fn base64(b: Seq<u8>) -> Seq<char> {
    full_groups(b, b.len() / 3) + tail_chars(b)
}

/// The 6-bit value of an alphabet character (`/` for any other).
pub open spec fn b64_value(c: char) -> u8 {
    let n = c as int;
    if 65 <= n <= 90 {
        (n - 65) as u8
    } else if 97 <= n <= 122 {
        (n - 71) as u8
    } else if 48 <= n <= 57 {
        (n + 4) as u8
    } else if c == '+' {
        62
    } else {
        63
    }
}

/// The three bytes that the four characters at `r[j..j + 4]` stand for.
pub open spec fn unquad(r: Seq<char>, j: int) -> Seq<u8> {
    let (v0, v1, v2, v3) = (b64_value(r[j]), b64_value(r[j + 1]), b64_value(r[j + 2]), b64_value(r[j + 3]));
    seq![(v0 << 2u8) | (v1 >> 4u8), ((v1 & 15u8) << 4u8) | (v2 >> 2u8), ((v2 & 3u8) << 6u8) | v3]
}

/// The bytes of the first `k` groups of four characters.
pub open spec fn decode_groups(r: Seq<char>, k: nat) -> Seq<u8>
    decreases k,
{
    if k == 0 {
        Seq::empty()
    } else {
        decode_groups(r, (k - 1) as nat) + unquad(r, 4 * (k - 1))
    }
}

/// Base64 decoding (RFC 4648) of a padded encoding: each group of four characters
/// gives three bytes, except that a last group ending in `==` gives one and one
/// ending in `=` gives two.
pub open spec fn base64_decode(r: Seq<char>) -> Seq<u8> {
    let k = r.len() / 4;
    if k == 0 {
        Seq::empty()
    } else if r[r.len() - 2] == '=' {
        decode_groups(r, (k - 1) as nat) + unquad(r, 4 * (k - 1)).take(1)
    } else if r[r.len() - 1] == '=' {
        decode_groups(r, (k - 1) as nat) + unquad(r, 4 * (k - 1)).take(2)
    } else {
        decode_groups(r, k)
    }
}

fn digit(v: u8) -> (c: char)
    requires
        v < 64,
    ensures
        c == b64_char(v),
{
    if v < 26 {
        (65 + v) as char
    } else if v < 52 {
        (97 + (v - 26)) as char
    } else if v < 62 {
        (48 + (v - 52)) as char
    } else if v == 62 {
        '+'
    } else {
        '/'
    }
}

/// The Base64 encoding of the UTF-8 bytes of `s`.
pub fn encode(s: &str) -> (r: String)
    ensures
        r@ == base64(s.spec_bytes()),
{
    let bytes = s.as_bytes();
    let n = bytes.len();
    let mut out = String::new();
    let mut i: usize = 0;
    while 3 <= n - i
        invariant
            n == bytes@.len(),
            bytes@ == s.spec_bytes(),
            i % 3 == 0,
            i <= n,
            out@ == full_groups(bytes@, (i / 3) as nat),
        decreases n - i,
    {
        let b1 = bytes[i];
        let b2 = bytes[i + 1];
        let b3 = bytes[i + 2];
        assert(b1 >> 2 < 64) by (bit_vector);
        assert(((b1 & 3u8) << 4u8) | (b2 >> 4) < 64) by (bit_vector);
        assert(((b2 & 15u8) << 2u8) | (b3 >> 6) < 64) by (bit_vector);
        assert(b3 & 63u8 < 64) by (bit_vector);
        push_char(&mut out, digit(b1 >> 2));
        push_char(&mut out, digit(((b1 & 3u8) << 4u8) | (b2 >> 4)));
        push_char(&mut out, digit(((b2 & 15u8) << 2u8) | (b3 >> 6)));
        push_char(&mut out, digit(b3 & 63u8));
        proof {
            assert((i + 3) / 3 == i / 3 + 1);
            assert(3 * (i / 3) == i);
            assert(out@ =~= full_groups(bytes@, ((i + 3) / 3) as nat));
        }
        i = i + 3;
    }
    assert(i == 3 * (n / 3));
    if n - i == 1 {
        let b1 = bytes[i];
        assert(b1 >> 2 < 64) by (bit_vector);
        assert((b1 & 3u8) << 4u8 < 64) by (bit_vector);
        push_char(&mut out, digit(b1 >> 2));
        push_char(&mut out, digit((b1 & 3u8) << 4u8));
        push_char(&mut out, '=');
        push_char(&mut out, '=');
    } else if n - i == 2 {
        let b1 = bytes[i];
        let b2 = bytes[i + 1];
        assert(b1 >> 2 < 64) by (bit_vector);
        assert(((b1 & 3u8) << 4u8) | (b2 >> 4) < 64) by (bit_vector);
        assert((b2 & 15u8) << 2u8 < 64) by (bit_vector);
        push_char(&mut out, digit(b1 >> 2));
        push_char(&mut out, digit(((b1 & 3u8) << 4u8) | (b2 >> 4)));
        push_char(&mut out, digit((b2 & 15u8) << 2u8));
        push_char(&mut out, '=');
    }
    assert(out@ =~= base64(bytes@));
    out
}

} // verus!
