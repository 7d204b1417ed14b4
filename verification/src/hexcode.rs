//! Hexadecimal encoding and decoding of byte strings.
//!
//! Every hash, signature, key share and pipe payload of this library
//! travels as lowercase hex.  The encoding is specified exactly, byte by
//! byte, and decoding is proved to invert it.

use vstd::prelude::*;

verus! {

/// The lowercase hex digit for a value below 16, as an ASCII byte.
pub open spec fn hex_digit(n: u8) -> u8
    recommends
        n < 16,
{
    if n < 10 {
        (48 + n) as u8
    } else {
        (87 + n) as u8
    }
}

/// The byte standing at position `i` of the hex encoding of `s`.
pub open spec fn hex_at(s: Seq<u8>, i: int) -> u8
    recommends
        0 <= i < 2 * s.len(),
{
    if i % 2 == 0 {
        hex_digit(s[i / 2] / 16)
    } else {
        hex_digit(s[i / 2] % 16)
    }
}

/// The lowercase hex encoding of a byte string: two digits per byte.
pub open spec fn hex_encode(s: Seq<u8>) -> Seq<u8> {
    Seq::new(2 * s.len(), |i: int| hex_at(s, i))
}

/// Whether a byte is an ASCII hex digit, in either case.
pub open spec fn is_hex_digit(b: u8) -> bool {
    (48 <= b <= 57) || (97 <= b <= 102) || (65 <= b <= 70)
}

/// The value of a hex digit byte.
pub open spec fn hex_val(b: u8) -> u8
    recommends
        is_hex_digit(b),
{
    if 48 <= b <= 57 {
        (b - 48) as u8
    } else if 97 <= b <= 102 {
        (b - 87) as u8
    } else if 65 <= b <= 70 {
        (b - 55) as u8
    } else {
        0
    }
}

/// Whether a byte string is a well-formed hex encoding: even length, all
/// digits.
pub open spec fn is_hex_seq(s: Seq<u8>) -> bool {
    s.len() % 2 == 0 && forall|i: int| 0 <= i < s.len() ==> is_hex_digit(#[trigger] s[i])
}

/// The byte string a hex encoding stands for.
pub open spec fn hex_decode_spec(s: Seq<u8>) -> Seq<u8>
    recommends
        is_hex_seq(s),
{
    Seq::new(s.len() / 2, |i: int| (hex_val(s[2 * i]) * 16 + hex_val(s[2 * i + 1])) as u8)
}

/// Decoding inverts encoding, and every encoding is well formed.
pub proof fn lemma_hex_round_trip(s: Seq<u8>)
    ensures
        is_hex_seq(hex_encode(s)),
        hex_decode_spec(hex_encode(s)) =~= s,
{
    let e = hex_encode(s);
    assert(e.len() == 2 * s.len());
    assert forall|i: int| 0 <= i < e.len() implies is_hex_digit(#[trigger] e[i]) by {
        assert(e[i] == hex_at(s, i));
    }
    assert forall|i: int| 0 <= i < s.len() implies hex_decode_spec(e)[i] == s[i] by {
        assert(e[2 * i] == hex_at(s, 2 * i));
        assert(e[2 * i + 1] == hex_at(s, 2 * i + 1));
        assert((2 * i) / 2 == i);
        assert((2 * i + 1) / 2 == i);
        assert(hex_val(hex_digit(s[i] / 16)) == s[i] / 16);
        assert(hex_val(hex_digit(s[i] % 16)) == s[i] % 16);
        assert(s[i] / 16 * 16 + s[i] % 16 == s[i]);
    }
}

/// Encodes a byte string as lowercase hex bytes.
pub fn hex_encode_bytes(v: &Vec<u8>) -> (r: Vec<u8>)
    ensures
        r@ =~= hex_encode(v@),
{
    let mut r: Vec<u8> = Vec::new();
    let mut i: usize = 0;
    while i < v.len()
        invariant
            i <= v.len(),
            r@.len() == 2 * i,
            forall|k: int| 0 <= k < r@.len() ==> r@[k] == hex_at(v@, k),
        decreases v.len() - i,
    {
        let b = v[i];
        let hi = b / 16;
        let lo = b % 16;
        let hi_d = if hi < 10 {
            48 + hi
        } else {
            87 + hi
        };
        let lo_d = if lo < 10 {
            48 + lo
        } else {
            87 + lo
        };
        r.push(hi_d);
        r.push(lo_d);
        proof {
            assert(r@[2 * i as int] == hex_at(v@, 2 * i as int));
            assert(r@[2 * i as int + 1] == hex_at(v@, 2 * i as int + 1));
        }
        i = i + 1;
    }
    r
}

/// The hex encoding of a byte string, as characters.
pub open spec fn hex_chars(s: Seq<u8>) -> Seq<char> {
    hex_encode(s).map_values(|b: u8| b as char)
}

/// Encodes a byte string as a lowercase hex `String`.
pub fn hex_string(v: &Vec<u8>) -> (r: String)
    ensures
        r@ =~= hex_chars(v@),
        vstd::utf8::encode_utf8(r@) == hex_encode(v@),
{
    let bytes = hex_encode_bytes(v);
    proof {
        assert forall|i: int| 0 <= i < bytes@.len() implies bytes@[i] < 0x80 by {
            assert(bytes@[i] == hex_at(v@, i));
        }
    }
    let r = crate::strbytes::ascii_string(&bytes);
    proof {
        assert(r@ =~= hex_chars(v@));
    }
    r
}

/// Decodes hex bytes; fails exactly on malformed input.
pub fn hex_decode_bytes(v: &Vec<u8>) -> (r: Option<Vec<u8>>)
    ensures
        r is Some <==> is_hex_seq(v@),
        r is Some ==> r.unwrap()@ =~= hex_decode_spec(v@),
{
    if v.len() % 2 != 0 {
        return None;
    }
    let mut r: Vec<u8> = Vec::new();
    let mut i: usize = 0;
    while i + 1 < v.len()
        invariant
            i % 2 == 0,
            v@.len() % 2 == 0,
            i <= v.len(),
            r@.len() == i / 2,
            forall|k: int| 0 <= k < i ==> is_hex_digit(#[trigger] v@[k]),
            forall|k: int|
                0 <= k < r@.len() ==> r@[k] == (hex_val(v@[2 * k]) * 16 + hex_val(
                    v@[2 * k + 1],
                )) as u8,
        decreases v.len() - i,
    {
        let hi = v[i];
        let lo = v[i + 1];
        let hi_v = if 48 <= hi && hi <= 57 {
            hi - 48
        } else if 97 <= hi && hi <= 102 {
            hi - 87
        } else if 65 <= hi && hi <= 70 {
            hi - 55
        } else {
            return None;
        };
        let lo_v = if 48 <= lo && lo <= 57 {
            lo - 48
        } else if 97 <= lo && lo <= 102 {
            lo - 87
        } else if 65 <= lo && lo <= 70 {
            lo - 55
        } else {
            return None;
        };
        r.push(hi_v * 16 + lo_v);
        i = i + 2;
    }
    Some(r)
}

} // verus!
