//! Canonical JSON encoding, over UTF-8 bytes.
//!
//! The policy-hash documents, certificates and attestation signing blobs
//! are all JSON with a fixed member order and no whitespace, so that
//! hashing and signing them is reproducible.  Strings are escaped the
//! way serde_json escapes them: the quote, the backslash, the named
//! control escapes, and `\u00XX` for the remaining control bytes.

use vstd::prelude::*;

use vstd::utf8::encode_utf8;

use crate::hexcode::hex_digit;

verus! {

/// The escape expansion of one byte inside a JSON string literal.
///
/// Escaping operates on UTF-8 bytes: every byte it touches is below
/// 0x20 or is `"` or `\`, and those never occur inside a multi-byte
/// UTF-8 sequence.
pub open spec fn esc_byte(b: u8) -> Seq<u8> {
    if b == 34 {  // quote
        seq![92u8, 34u8]
    } else if b == 92 {  // backslash
        seq![92u8, 92u8]
    } else if b == 8 {  // backspace
        seq![92u8, 98u8]
    } else if b == 9 {  // tab
        seq![92u8, 116u8]
    } else if b == 10 {  // line feed
        seq![92u8, 110u8]
    } else if b == 12 {  // form feed
        seq![92u8, 102u8]
    } else if b == 13 {  // carriage return
        seq![92u8, 114u8]
    } else if b < 32 {  // other control bytes
        seq![92u8, 117u8, 48u8, 48u8, hex_digit(b / 16), hex_digit(b % 16)]
    } else {
        seq![b]
    }
}

/// The escaped form of a byte string.
pub open spec fn json_escape(s: Seq<u8>) -> Seq<u8>
    decreases s.len(),
{
    if s.len() == 0 {
        Seq::empty()
    } else {
        esc_byte(s[0]) + json_escape(s.skip(1))
    }
}

/// A JSON string literal: quoted, escaped bytes.
pub open spec fn json_string(s: Seq<u8>) -> Seq<u8> {
    seq![34u8] + json_escape(s) + seq![34u8]
}

/// One `"key":"value"` member.
pub open spec fn json_member(k: Seq<u8>, v: Seq<u8>) -> Seq<u8> {
    json_string(k) + seq![58u8] + json_string(v)
}

/// The comma-joined members of a string map.
pub open spec fn json_members(entries: Seq<(Seq<u8>, Seq<u8>)>) -> Seq<u8>
    decreases entries.len(),
{
    if entries.len() == 0 {
        Seq::empty()
    } else if entries.len() == 1 {
        json_member(entries[0].0, entries[0].1)
    } else {
        json_member(entries[0].0, entries[0].1) + seq![44u8] + json_members(entries.skip(1))
    }
}

/// A JSON object holding string members in the given order.
pub open spec fn json_map(entries: Seq<(Seq<u8>, Seq<u8>)>) -> Seq<u8> {
    seq![123u8] + json_members(entries) + seq![125u8]
}

/// The byte-level view of a sequence of string pairs.
pub open spec fn utf8_pairs(entries: Seq<(Seq<char>, Seq<char>)>) -> Seq<(Seq<u8>, Seq<u8>)> {
    entries.map_values(|p: (Seq<char>, Seq<char>)| (encode_utf8(p.0), encode_utf8(p.1)))
}

/// Escaping a string one byte longer appends that byte's expansion.
pub proof fn lemma_json_escape_push(s: Seq<u8>, b: u8)
    ensures
        json_escape(s.push(b)) =~= json_escape(s) + esc_byte(b),
    decreases s.len(),
{
    if s.len() == 0 {
        assert(s.push(b)[0] == b);
        assert(s.push(b).skip(1) =~= Seq::<u8>::empty());
        assert(json_escape(s.push(b)) == esc_byte(b) + json_escape(Seq::<u8>::empty()));
        assert(json_escape(s) == Seq::<u8>::empty());
    } else {
        assert(s.push(b).skip(1) =~= s.skip(1).push(b));
        lemma_json_escape_push(s.skip(1), b);
        assert(s.push(b)[0] == s[0]);
        assert(json_escape(s.push(b)) == esc_byte(s[0]) + json_escape(s.skip(1).push(b)));
        assert(json_escape(s) == esc_byte(s[0]) + json_escape(s.skip(1)));
    }
}

/// A map one member longer appends a comma and that member.
pub proof fn lemma_json_members_push(entries: Seq<(Seq<u8>, Seq<u8>)>, e: (Seq<u8>, Seq<u8>))
    requires
        entries.len() >= 1,
    ensures
        json_members(entries.push(e)) =~= json_members(entries) + seq![44u8] + json_member(
            e.0,
            e.1,
        ),
    decreases entries.len(),
{
    assert(entries.push(e).skip(1) =~= entries.skip(1).push(e));
    if entries.len() == 1 {
        assert(entries.skip(1).push(e) =~= seq![e]);
        assert(json_members(seq![e]) == json_member(e.0, e.1));
    } else {
        lemma_json_members_push(entries.skip(1), e);
    }
}

/// The comma-joined decimal items of a JSON array of bytes.
pub open spec fn json_items(s: Seq<u8>) -> Seq<u8>
    decreases s.len(),
{
    if s.len() == 0 {
        Seq::empty()
    } else if s.len() == 1 {
        crate::decimal::dec_of(s[0] as nat)
    } else {
        crate::decimal::dec_of(s[0] as nat) + seq![44u8] + json_items(s.skip(1))
    }
}

/// A JSON array holding the bytes of `s` as decimal numbers.
pub open spec fn json_bytes_array(s: Seq<u8>) -> Seq<u8> {
    seq![91u8] + json_items(s) + seq![93u8]
}

/// An array one item longer appends a comma and that item.
pub proof fn lemma_json_items_push(s: Seq<u8>, b: u8)
    requires
        s.len() >= 1,
    ensures
        json_items(s.push(b)) =~= json_items(s) + seq![44u8] + crate::decimal::dec_of(b as nat),
    decreases s.len(),
{
    assert(s.push(b).skip(1) =~= s.skip(1).push(b));
    if s.len() == 1 {
        assert(s.skip(1).push(b) =~= seq![b]);
        assert(json_items(seq![b]) == crate::decimal::dec_of(b as nat));
    } else {
        lemma_json_items_push(s.skip(1), b);
    }
}

/// Appends the JSON array of the bytes of `v` as decimal numbers.
pub fn append_json_bytes_array(out: &mut Vec<u8>, v: &Vec<u8>)
    ensures
        final(out)@ =~= old(out)@ + json_bytes_array(v@),
{
    out.push(91);
    let mut i: usize = 0;
    while i < v.len()
        invariant
            i <= v@.len(),
            out@ =~= old(out)@ + seq![91u8] + json_items(v@.subrange(0, i as int)),
        decreases v@.len() - i,
    {
        if i > 0 {
            out.push(44);
        }
        let ghost mid = out@;
        let d = crate::decimal::u64_to_dec(v[i] as u64);
        append_bytes(out, &d);
        proof {
            let pre = v@.subrange(0, i as int);
            let post = v@.subrange(0, i + 1);
            assert(d@ =~= crate::decimal::dec_of(v@[i as int] as nat));
            assert(out@ =~= mid + d@);
            if i == 0 {
                assert(post =~= seq![v@[0]]);
            } else {
                assert(post =~= pre.push(v@[i as int]));
                lemma_json_items_push(pre, v@[i as int]);
            }
        }
        i = i + 1;
    }
    out.push(93);
    proof {
        assert(v@.subrange(0, v@.len() as int) =~= v@);
        assert(out@ =~= old(out)@ + json_bytes_array(v@));
    }
}

/// Appends a byte string.
pub fn append_bytes(out: &mut Vec<u8>, s: &Vec<u8>)
    ensures
        final(out)@ =~= old(out)@ + s@,
{
    let mut i: usize = 0;
    while i < s.len()
        invariant
            i <= s@.len(),
            out@ =~= old(out)@ + s@.subrange(0, i as int),
        decreases s@.len() - i,
    {
        out.push(s[i]);
        proof {
            assert(old(out)@ + s@.subrange(0, i + 1) =~= (old(out)@ + s@.subrange(
                0,
                i as int,
            )).push(s@[i as int]));
        }
        i = i + 1;
    }
    proof {
        assert(s@.subrange(0, s@.len() as int) =~= s@);
    }
}

/// Appends the JSON string literal for the bytes `s`.
pub fn append_json_string(out: &mut Vec<u8>, s: &Vec<u8>)
    ensures
        final(out)@ =~= old(out)@ + json_string(s@),
{
    out.push(34);
    let mut i: usize = 0;
    while i < s.len()
        invariant
            i <= s@.len(),
            out@ =~= old(out)@ + seq![34u8] + json_escape(s@.subrange(0, i as int)),
        decreases s@.len() - i,
    {
        let b = s[i];
        if b == 34 {
            out.push(92);
            out.push(34);
        } else if b == 92 {
            out.push(92);
            out.push(92);
        } else if b == 8 {
            out.push(92);
            out.push(98);
        } else if b == 9 {
            out.push(92);
            out.push(116);
        } else if b == 10 {
            out.push(92);
            out.push(110);
        } else if b == 12 {
            out.push(92);
            out.push(102);
        } else if b == 13 {
            out.push(92);
            out.push(114);
        } else if b < 32 {
            out.push(92);
            out.push(117);
            out.push(48);
            out.push(48);
            let hi = b / 16;
            let lo = b % 16;
            out.push(if hi < 10 {
                48 + hi
            } else {
                87 + hi
            });
            out.push(if lo < 10 {
                48 + lo
            } else {
                87 + lo
            });
        } else {
            out.push(b);
        }
        proof {
            let pre = s@.subrange(0, i as int);
            assert(s@.subrange(0, i + 1) =~= pre.push(b));
            lemma_json_escape_push(pre, b);
            assert(out@ =~= old(out)@ + seq![34u8] + (json_escape(pre) + esc_byte(b)));
        }
        i = i + 1;
    }
    out.push(34);
    proof {
        assert(s@.subrange(0, s@.len() as int) =~= s@);
        assert(out@ =~= old(out)@ + json_string(s@));
    }
}

/// Appends the canonical JSON object for the string pairs, in their
/// given order.
pub fn append_json_str_map(out: &mut Vec<u8>, entries: &Vec<(String, String)>)
    ensures
        final(out)@ =~= old(out)@ + json_map(utf8_pairs(entries.deep_view())),
{
    let ghost pairs = utf8_pairs(entries.deep_view());
    out.push(123);
    let mut i: usize = 0;
    while i < entries.len()
        invariant
            i <= entries@.len(),
            pairs == utf8_pairs(entries.deep_view()),
            pairs.len() == entries@.len(),
            out@ =~= old(out)@ + seq![123u8] + json_members(pairs.subrange(0, i as int)),
        decreases entries@.len() - i,
    {
        if i > 0 {
            out.push(44);
        }
        let k = crate::strbytes::string_bytes(&entries[i].0);
        let v = crate::strbytes::string_bytes(&entries[i].1);
        let ghost mid = out@;
        append_json_string(out, &k);
        out.push(58);
        append_json_string(out, &v);
        proof {
            let pre = pairs.subrange(0, i as int);
            let post = pairs.subrange(0, i + 1);
            assert(pairs[i as int] == (k@, v@));
            assert(out@ =~= mid + json_member(k@, v@));
            if i == 0 {
                assert(post =~= seq![pairs[0]]);
                assert(json_members(post) == json_member(pairs[0].0, pairs[0].1));
            } else {
                assert(post =~= pre.push(pairs[i as int]));
                lemma_json_members_push(pre, pairs[i as int]);
            }
        }
        i = i + 1;
    }
    out.push(125);
    proof {
        assert(pairs.subrange(0, pairs.len() as int) =~= pairs);
        assert(out@ =~= old(out)@ + json_map(pairs));
    }
}

} // verus!
