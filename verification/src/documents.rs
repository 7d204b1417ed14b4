//! The canonical JSON documents of the attestation framework.
//!
//! A certificate is stored on disk as a JSON object of four string
//! fields; an attestation report is signed over a JSON blob of the
//! report's fields minus the signature.  Both encodings are canonical —
//! fixed member order, no whitespace — and the certificate parser is
//! proved to recover every certificate the serializer writes.

use vstd::prelude::*;

use vstd::utf8::{decode_utf8, encode_utf8, valid_utf8};

use crate::jsoncode::{
    append_bytes, append_json_bytes_array, append_json_string, esc_byte, json_bytes_array,
    json_escape, json_string,
};
use crate::strbytes::{string_bytes, string_from_utf8};
use crate::types::{
    AttestationDataView, BinHash, CertView, DynamicAttestationData, PolicyHash, ServiceName,
    Signature, TahiniCertificate,
};

verus! {

/// The bytes of the member key `service_name`.
pub open spec fn key_service_name() -> Seq<u8> {
    seq![115u8, 101, 114, 118, 105, 99, 101, 95, 110, 97, 109, 101]
}

/// The bytes of the member key `policy_hash`.
pub open spec fn key_policy_hash() -> Seq<u8> {
    seq![112u8, 111, 108, 105, 99, 121, 95, 104, 97, 115, 104]
}

/// The bytes of the member key `binary_hash`.
pub open spec fn key_binary_hash() -> Seq<u8> {
    seq![98u8, 105, 110, 97, 114, 121, 95, 104, 97, 115, 104]
}

/// The bytes of the member key `signature`.
pub open spec fn key_signature() -> Seq<u8> {
    seq![115u8, 105, 103, 110, 97, 116, 117, 114, 101]
}

/// The bytes of the member key `cert`.
pub open spec fn key_cert() -> Seq<u8> {
    seq![99u8, 101, 114, 116]
}

/// The bytes of the member key `nonce`.
pub open spec fn key_nonce() -> Seq<u8> {
    seq![110u8, 111, 110, 99, 101]
}

/// The bytes of the member key `current_bin_hash`.
pub open spec fn key_current_bin_hash() -> Seq<u8> {
    seq![99u8, 117, 114, 114, 101, 110, 116, 95, 98, 105, 110, 95, 104, 97, 115, 104]
}

/// The bytes of the member key `server_key_share`.
pub open spec fn key_server_key_share() -> Seq<u8> {
    seq![115u8, 101, 114, 118, 101, 114, 95, 107, 101, 121, 95, 115, 104, 97, 114, 101]
}

/// The bytes of the member key `client_id`.
pub open spec fn key_client_id() -> Seq<u8> {
    seq![99u8, 108, 105, 101, 110, 116, 95, 105, 100]
}

/// The fixed text standing before a certificate's first field value.
pub open spec fn cert_head() -> Seq<u8> {
    seq![123u8, 34] + key_service_name() + seq![34u8, 58]
}

/// The fixed text between the first and second field values.
pub open spec fn cert_sep_policy() -> Seq<u8> {
    seq![44u8, 34] + key_policy_hash() + seq![34u8, 58]
}

/// The fixed text between the second and third field values.
pub open spec fn cert_sep_binary() -> Seq<u8> {
    seq![44u8, 34] + key_binary_hash() + seq![34u8, 58]
}

/// The fixed text between the third and fourth field values.
pub open spec fn cert_sep_signature() -> Seq<u8> {
    seq![44u8, 34] + key_signature() + seq![34u8, 58]
}

/// The canonical JSON document of a certificate.
pub open spec fn cert_json(v: CertView) -> Seq<u8> {
    cert_head() + json_string(encode_utf8(v.service_name)) + cert_sep_policy() + json_string(
        encode_utf8(v.policy_hash),
    ) + cert_sep_binary() + json_string(encode_utf8(v.binary_hash)) + cert_sep_signature()
        + json_string(encode_utf8(v.signature)) + seq![125u8]
}

/// The canonical JSON blob covered by a report's signature.
pub open spec fn attestation_blob(v: AttestationDataView) -> Seq<u8> {
    seq![123u8] + json_string(key_cert()) + seq![58u8] + cert_json(v.cert) + seq![44u8]
        + json_string(key_nonce()) + seq![58u8] + crate::decimal::dec_of(v.nonce as nat)
        + seq![44u8] + json_string(key_service_name()) + seq![58u8] + json_string(
        encode_utf8(v.service_name),
    ) + seq![44u8] + json_string(key_current_bin_hash()) + seq![58u8] + json_string(
        encode_utf8(v.current_bin_hash),
    ) + seq![44u8] + json_string(key_server_key_share()) + seq![58u8] + json_bytes_array(
        v.server_key_share,
    ) + seq![44u8] + json_string(key_client_id()) + seq![58u8] + crate::decimal::dec_of(
        v.client_id as nat,
    ) + seq![125u8]
}

/// Appends the given bytes quoted as a canonical JSON key, `"key":`
/// with the given lead byte before it.
fn append_key(out: &mut Vec<u8>, lead: u8, key: &Vec<u8>)
    ensures
        final(out)@ =~= old(out)@ + seq![lead, 34u8] + key@ + seq![34u8, 58u8],
{
    out.push(lead);
    out.push(34);
    append_bytes(out, key);
    out.push(34);
    out.push(58);
}

/// The key `service_name` as bytes.
fn key_service_name_vec() -> (r: Vec<u8>)
    ensures
        r@ =~= key_service_name(),
{
    vec![115u8, 101, 114, 118, 105, 99, 101, 95, 110, 97, 109, 101]
}

/// The key `policy_hash` as bytes.
fn key_policy_hash_vec() -> (r: Vec<u8>)
    ensures
        r@ =~= key_policy_hash(),
{
    vec![112u8, 111, 108, 105, 99, 121, 95, 104, 97, 115, 104]
}

/// The key `binary_hash` as bytes.
fn key_binary_hash_vec() -> (r: Vec<u8>)
    ensures
        r@ =~= key_binary_hash(),
{
    vec![98u8, 105, 110, 97, 114, 121, 95, 104, 97, 115, 104]
}

/// The key `signature` as bytes.
fn key_signature_vec() -> (r: Vec<u8>)
    ensures
        r@ =~= key_signature(),
{
    vec![115u8, 105, 103, 110, 97, 116, 117, 114, 101]
}

/// Serializes a certificate into its canonical JSON document.
pub fn serialize_certificate(c: &TahiniCertificate) -> (r: Vec<u8>)
    ensures
        r@ =~= cert_json(c@),
{
    let mut out: Vec<u8> = Vec::new();
    append_key(&mut out, 123, &key_service_name_vec());
    append_json_string(&mut out, &string_bytes(&c.service_name.0));
    append_key(&mut out, 44, &key_policy_hash_vec());
    append_json_string(&mut out, &string_bytes(&c.policy_hash.0));
    append_key(&mut out, 44, &key_binary_hash_vec());
    append_json_string(&mut out, &string_bytes(&c.binary_hash.0));
    append_key(&mut out, 44, &key_signature_vec());
    append_json_string(&mut out, &string_bytes(&c.signature.0));
    out.push(125);
    proof {
        assert(out@ =~= cert_json(c@));
    }
    out
}

/// Whether a byte is a lowercase hex digit, as the canonical encoder
/// writes them.
pub open spec fn is_canon_hex(b: u8) -> bool {
    (48 <= b <= 57) || (97 <= b <= 102)
}

/// The byte a named escape stands for.
pub open spec fn unescape_named(e: u8) -> u8 {
    if e == 34 {
        34
    } else if e == 92 {
        92
    } else if e == 98 {
        8
    } else if e == 116 {
        9
    } else if e == 110 {
        10
    } else if e == 102 {
        12
    } else {
        13
    }
}

/// Scans a canonical JSON string body (the text after the opening
/// quote): the decoded bytes and the number of bytes consumed, closing
/// quote included; `None` where the text is not a canonical string
/// body.
pub open spec fn scan_string(s: Seq<u8>) -> Option<(Seq<u8>, int)>
    decreases s.len(),
{
    if s.len() == 0 {
        None
    } else if s[0] == 34 {
        Some((Seq::empty(), 1))
    } else if s[0] == 92 {
        if s.len() < 2 {
            None
        } else if s[1] == 34 || s[1] == 92 || s[1] == 98 || s[1] == 116 || s[1] == 110 || s[1]
            == 102 || s[1] == 114 {
            match scan_string(s.skip(2)) {
                None => None,
                Some((c, n)) => Some((seq![unescape_named(s[1])] + c, n + 2)),
            }
        } else if s[1] == 117 {
            if s.len() < 6 {
                None
            } else if s[2] == 48 && s[3] == 48 && is_canon_hex(s[4]) && is_canon_hex(s[5]) {
                let d = (crate::hexcode::hex_val(s[4]) * 16 + crate::hexcode::hex_val(
                    s[5],
                )) as u8;
                if d < 32 && d != 8 && d != 9 && d != 10 && d != 12 && d != 13 {
                    match scan_string(s.skip(6)) {
                        None => None,
                        Some((c, n)) => Some((seq![d] + c, n + 6)),
                    }
                } else {
                    None
                }
            } else {
                None
            }
        } else {
            None
        }
    } else if s[0] >= 32 {
        match scan_string(s.skip(1)) {
            None => None,
            Some((c, n)) => Some((seq![s[0]] + c, n + 1)),
        }
    } else {
        None
    }
}

/// Scanning recovers exactly what escaping produced: the body written
/// as `escape(x)` followed by the closing quote decodes to `x`.
pub proof fn lemma_scan_of_escape(x: Seq<u8>, rest: Seq<u8>)
    ensures
        scan_string(json_escape(x) + seq![34u8] + rest) == Some(
            (x, json_escape(x).len() + 1 as int),
        ),
    decreases x.len(),
{
    let s = json_escape(x) + seq![34u8] + rest;
    if x.len() == 0 {
        assert(json_escape(x) =~= Seq::<u8>::empty());
        assert(s[0] == 34);
        assert(x =~= Seq::<u8>::empty());
    } else {
        let b = x[0];
        let e = esc_byte(b);
        let tail = json_escape(x.skip(1));
        assert(json_escape(x) == e + tail);
        lemma_scan_of_escape(x.skip(1), rest);
        let s2 = tail + seq![34u8] + rest;
        assert(scan_string(s2) == Some((x.skip(1), tail.len() + 1 as int)));
        if 32 <= b && b != 34 && b != 92 {
            assert(e == seq![b]);
            assert(s[0] == b);
            assert(s.skip(1) =~= s2);
            assert(seq![b] + x.skip(1) =~= x);
        } else if b == 34 || b == 92 || b == 8 || b == 9 || b == 10 || b == 12 || b == 13 {
            assert(e.len() == 2 && e[0] == 92);
            assert(unescape_named(e[1]) == b);
            assert(s[0] == 92);
            assert(s[1] == e[1]);
            assert(s.len() >= 2);
            assert(s.skip(2) =~= s2);
            assert(seq![b] + x.skip(1) =~= x);
        } else {
            // the remaining control bytes take the \u00XX form
            assert(b < 32);
            assert(e == seq![
                92u8,
                117u8,
                48u8,
                48u8,
                crate::hexcode::hex_digit(b / 16),
                crate::hexcode::hex_digit(b % 16),
            ]);
            assert(s[0] == 92 && s[1] == 117 && s[2] == 48 && s[3] == 48);
            assert(s[4] == crate::hexcode::hex_digit(b / 16));
            assert(s[5] == crate::hexcode::hex_digit(b % 16));
            assert(is_canon_hex(s[4]) && is_canon_hex(s[5]));
            assert(crate::hexcode::hex_val(crate::hexcode::hex_digit(b / 16)) == b / 16);
            assert(crate::hexcode::hex_val(crate::hexcode::hex_digit(b % 16)) == b % 16);
            assert(b / 16 * 16 + b % 16 == b);
            assert(s.len() >= 6);
            assert(s.skip(6) =~= s2);
            assert(seq![b] + x.skip(1) =~= x);
        }
    }
}

/// Parses a canonical JSON string literal standing at `pos`: the
/// decoded bytes and the position after the closing quote.
pub fn parse_json_string_value(bytes: &Vec<u8>, pos: usize) -> (r: Option<(Vec<u8>, usize)>)
    ensures
        r matches Some((s2, end)) ==> pos < end <= bytes@.len() && bytes@[pos as int] == 34
            && scan_string(bytes@.skip(pos as int + 1)) == Some(
            (s2@, end - pos - 1 as int),
        ),
        r is None ==> pos >= bytes@.len() || bytes@[pos as int] != 34 || scan_string(
            bytes@.skip(pos as int + 1),
        ) is None,
{
    if pos >= bytes.len() || bytes[pos] != 34 {
        return None;
    }
    let mut i: usize = pos + 1;
    let mut out: Vec<u8> = Vec::new();
    loop
        invariant
            pos + 1 <= i <= bytes@.len(),
            bytes@[pos as int] == 34,
            match scan_string(bytes@.skip(i as int)) {
                Some((c, n)) => scan_string(bytes@.skip(pos as int + 1)) == Some(
                    (out@ + c, i - pos - 1 + n),
                ),
                None => scan_string(bytes@.skip(pos as int + 1)) is None,
            },
        decreases bytes@.len() - i,
    {
        let ghost suf = bytes@.skip(i as int);
        if i >= bytes.len() {
            proof {
                assert(suf.len() == 0);
            }
            return None;
        }
        let b = bytes[i];
        proof {
            assert(suf[0] == b);
        }
        if b == 34 {
            proof {
                assert(scan_string(suf) == Some((Seq::<u8>::empty(), 1int)));
                assert(out@ + Seq::<u8>::empty() =~= out@);
            }
            return Some((out, i + 1));
        } else if b == 92 {
            if i + 1 >= bytes.len() {
                proof {
                    assert(suf.len() < 2);
                }
                return None;
            }
            let e = bytes[i + 1];
            proof {
                assert(suf[1] == e);
                assert(suf.skip(2) =~= bytes@.skip(i + 2));
            }
            if e == 34 || e == 92 || e == 98 || e == 116 || e == 110 || e == 102 || e == 114 {
                let d = if e == 34 {
                    34
                } else if e == 92 {
                    92
                } else if e == 98 {
                    8
                } else if e == 116 {
                    9
                } else if e == 110 {
                    10
                } else if e == 102 {
                    12
                } else {
                    13
                };
                let ghost pre = out@;
                out.push(d);
                proof {
                    assert(d == unescape_named(e));
                    if let Some((c, n)) = scan_string(bytes@.skip(i + 2)) {
                        assert(scan_string(suf) == Some((seq![d] + c, n + 2)));
                        assert(pre + (seq![d] + c) =~= out@ + c);
                    }
                }
                i = i + 2;
            } else if e == 117 {
                if bytes.len() - i < 6 {
                    proof {
                        assert(suf.len() < 6);
                    }
                    return None;
                }
                let z1 = bytes[i + 2];
                let z2 = bytes[i + 3];
                let h1 = bytes[i + 4];
                let h2 = bytes[i + 5];
                proof {
                    assert(suf[2] == z1 && suf[3] == z2 && suf[4] == h1 && suf[5] == h2);
                    assert(suf.skip(6) =~= bytes@.skip(i + 6));
                }
                if z1 != 48 || z2 != 48 {
                    return None;
                }
                let v1 = if 48 <= h1 && h1 <= 57 {
                    h1 - 48
                } else if 97 <= h1 && h1 <= 102 {
                    h1 - 87
                } else {
                    return None;
                };
                let v2 = if 48 <= h2 && h2 <= 57 {
                    h2 - 48
                } else if 97 <= h2 && h2 <= 102 {
                    h2 - 87
                } else {
                    return None;
                };
                let d = v1 * 16 + v2;
                if !(d < 32 && d != 8 && d != 9 && d != 10 && d != 12 && d != 13) {
                    return None;
                }
                let ghost pre = out@;
                out.push(d);
                proof {
                    assert(v1 == crate::hexcode::hex_val(h1));
                    assert(v2 == crate::hexcode::hex_val(h2));
                    if let Some((c, n)) = scan_string(bytes@.skip(i + 6)) {
                        assert(scan_string(suf) == Some((seq![d] + c, n + 6)));
                        assert(pre + (seq![d] + c) =~= out@ + c);
                    }
                }
                i = i + 6;
            } else {
                return None;
            }
        } else if b >= 32 {
            let ghost pre = out@;
            out.push(b);
            proof {
                assert(suf.skip(1) =~= bytes@.skip(i + 1));
                if let Some((c, n)) = scan_string(bytes@.skip(i + 1)) {
                    assert(scan_string(suf) == Some((seq![b] + c, n + 1)));
                    assert(pre + (seq![b] + c) =~= out@ + c);
                }
            }
            i = i + 1;
        } else {
            return None;
        }
    }
}

/// Whether the fixed byte pattern stands at `pos`.
pub fn match_at(bytes: &Vec<u8>, pos: usize, pat: &Vec<u8>) -> (r: bool)
    ensures
        r <==> (pos + pat@.len() <= bytes@.len() && bytes@.subrange(
            pos as int,
            pos as int + pat@.len(),
        ) =~= pat@),
{
    if pos > bytes.len() || pat.len() > bytes.len() - pos {
        return false;
    }
    let mut k: usize = 0;
    while k < pat.len()
        invariant
            k <= pat@.len(),
            pos + pat@.len() <= bytes@.len(),
            bytes@.len() <= usize::MAX,
            forall|j: int| 0 <= j < k ==> bytes@[pos + j] == pat@[j],
        decreases pat@.len() - k,
    {
        proof {
            assert(pos + k < bytes@.len());
        }
        if bytes[pos + k] != pat[k] {
            proof {
                assert(bytes@.subrange(pos as int, pos as int + pat@.len())[k as int]
                    != pat@[k as int]);
            }
            return false;
        }
        k = k + 1;
    }
    proof {
        assert(bytes@.subrange(pos as int, pos as int + pat@.len()) =~= pat@);
    }
    true
}

/// The fixed text before the first certificate field value, as bytes.
fn cert_head_vec() -> (r: Vec<u8>)
    ensures
        r@ =~= cert_head(),
{
    let mut out: Vec<u8> = Vec::new();
    append_key(&mut out, 123, &key_service_name_vec());
    out
}

/// The fixed text before the second field value, as bytes.
fn cert_sep_policy_vec() -> (r: Vec<u8>)
    ensures
        r@ =~= cert_sep_policy(),
{
    let mut out: Vec<u8> = Vec::new();
    append_key(&mut out, 44, &key_policy_hash_vec());
    out
}

/// The fixed text before the third field value, as bytes.
fn cert_sep_binary_vec() -> (r: Vec<u8>)
    ensures
        r@ =~= cert_sep_binary(),
{
    let mut out: Vec<u8> = Vec::new();
    append_key(&mut out, 44, &key_binary_hash_vec());
    out
}

/// The fixed text before the fourth field value, as bytes.
fn cert_sep_signature_vec() -> (r: Vec<u8>)
    ensures
        r@ =~= cert_sep_signature(),
{
    let mut out: Vec<u8> = Vec::new();
    append_key(&mut out, 44, &key_signature_vec());
    out
}

/// Where the first field value starts in a certificate document.
pub open spec fn cert_pos_sn(v: CertView) -> int {
    cert_head().len() as int
}

/// Where the first field value ends.
pub open spec fn cert_end_sn(v: CertView) -> int {
    cert_pos_sn(v) + json_string(encode_utf8(v.service_name)).len()
}

/// Where the second field value starts.
pub open spec fn cert_pos_ph(v: CertView) -> int {
    cert_end_sn(v) + cert_sep_policy().len()
}

/// Where the second field value ends.
pub open spec fn cert_end_ph(v: CertView) -> int {
    cert_pos_ph(v) + json_string(encode_utf8(v.policy_hash)).len()
}

/// Where the third field value starts.
pub open spec fn cert_pos_bh(v: CertView) -> int {
    cert_end_ph(v) + cert_sep_binary().len()
}

/// Where the third field value ends.
pub open spec fn cert_end_bh(v: CertView) -> int {
    cert_pos_bh(v) + json_string(encode_utf8(v.binary_hash)).len()
}

/// Where the fourth field value starts.
pub open spec fn cert_pos_sg(v: CertView) -> int {
    cert_end_bh(v) + cert_sep_signature().len()
}

/// Where the fourth field value ends.
pub open spec fn cert_end_sg(v: CertView) -> int {
    cert_pos_sg(v) + json_string(encode_utf8(v.signature)).len()
}

/// The layout of a certificate document: where each fixed separator
/// stands, and what scanning each field position yields.
#[verifier::rlimit(100)]
pub proof fn lemma_cert_layout(v: CertView)
    ensures
        cert_json(v).len() == cert_end_sg(v) + 1,
        cert_json(v).subrange(0, cert_pos_sn(v)) =~= cert_head(),
        cert_json(v)[cert_pos_sn(v)] == 34,
        scan_string(cert_json(v).skip(cert_pos_sn(v) + 1)) == Some(
            (encode_utf8(v.service_name), cert_end_sn(v) - cert_pos_sn(v) - 1),
        ),
        cert_json(v).subrange(cert_end_sn(v), cert_pos_ph(v)) =~= cert_sep_policy(),
        cert_json(v)[cert_pos_ph(v)] == 34,
        scan_string(cert_json(v).skip(cert_pos_ph(v) + 1)) == Some(
            (encode_utf8(v.policy_hash), cert_end_ph(v) - cert_pos_ph(v) - 1),
        ),
        cert_json(v).subrange(cert_end_ph(v), cert_pos_bh(v)) =~= cert_sep_binary(),
        cert_json(v)[cert_pos_bh(v)] == 34,
        scan_string(cert_json(v).skip(cert_pos_bh(v) + 1)) == Some(
            (encode_utf8(v.binary_hash), cert_end_bh(v) - cert_pos_bh(v) - 1),
        ),
        cert_json(v).subrange(cert_end_bh(v), cert_pos_sg(v)) =~= cert_sep_signature(),
        cert_json(v)[cert_pos_sg(v)] == 34,
        scan_string(cert_json(v).skip(cert_pos_sg(v) + 1)) == Some(
            (encode_utf8(v.signature), cert_end_sg(v) - cert_pos_sg(v) - 1),
        ),
        cert_json(v)[cert_end_sg(v)] == 125,
{
    let w = cert_json(v);
    let sn = encode_utf8(v.service_name);
    let ph = encode_utf8(v.policy_hash);
    let bh = encode_utf8(v.binary_hash);
    let sg = encode_utf8(v.signature);
    assert(json_string(sn).len() == json_escape(sn).len() + 2);
    assert(json_string(ph).len() == json_escape(ph).len() + 2);
    assert(json_string(bh).len() == json_escape(bh).len() + 2);
    assert(json_string(sg).len() == json_escape(sg).len() + 2);
    assert(w.subrange(0, cert_pos_sn(v)) =~= cert_head());
    assert(w[cert_pos_sn(v)] == 34);
    let rest_sn = seq![34u8] + cert_sep_policy() + json_string(ph) + cert_sep_binary()
        + json_string(bh) + cert_sep_signature() + json_string(sg) + seq![125u8];
    assert(w.skip(cert_pos_sn(v) + 1) =~= json_escape(sn) + seq![34u8] + (cert_sep_policy()
        + json_string(ph) + cert_sep_binary() + json_string(bh) + cert_sep_signature()
        + json_string(sg) + seq![125u8]));
    lemma_scan_of_escape(
        sn,
        cert_sep_policy() + json_string(ph) + cert_sep_binary() + json_string(bh)
            + cert_sep_signature() + json_string(sg) + seq![125u8],
    );
    assert(w.subrange(cert_end_sn(v), cert_pos_ph(v)) =~= cert_sep_policy());
    assert(w[cert_pos_ph(v)] == 34);
    assert(w.skip(cert_pos_ph(v) + 1) =~= json_escape(ph) + seq![34u8] + (cert_sep_binary()
        + json_string(bh) + cert_sep_signature() + json_string(sg) + seq![125u8]));
    lemma_scan_of_escape(
        ph,
        cert_sep_binary() + json_string(bh) + cert_sep_signature() + json_string(sg)
            + seq![125u8],
    );
    assert(w.subrange(cert_end_ph(v), cert_pos_bh(v)) =~= cert_sep_binary());
    assert(w[cert_pos_bh(v)] == 34);
    assert(w.skip(cert_pos_bh(v) + 1) =~= json_escape(bh) + seq![34u8]
        + (cert_sep_signature() + json_string(sg) + seq![125u8]));
    lemma_scan_of_escape(bh, cert_sep_signature() + json_string(sg) + seq![125u8]);
    assert(w.subrange(cert_end_bh(v), cert_pos_sg(v)) =~= cert_sep_signature());
    assert(w[cert_pos_sg(v)] == 34);
    assert(w.skip(cert_pos_sg(v) + 1) =~= json_escape(sg) + seq![34u8] + seq![125u8]);
    lemma_scan_of_escape(sg, seq![125u8]);
    assert(w[cert_end_sg(v)] == 125);
}

/// The outcome of parsing a certificate document: the four field
/// values as raw bytes, in field order, or nothing where the text is
/// not a canonical certificate document.
pub open spec fn parse_cert_spec(w: Seq<u8>) -> Option<(Seq<u8>, Seq<u8>, Seq<u8>, Seq<u8>)> {
    let p0 = cert_head().len() as int;
    if !(p0 <= w.len() && w.subrange(0, p0) == cert_head()) {
        None
    } else if !(p0 < w.len() && w[p0] == 34) {
        None
    } else {
        match scan_string(w.skip(p0 + 1)) {
            None => None,
            Some((f0, n0)) => {
                let q0 = p0 + 1 + n0;
                let p1 = q0 + cert_sep_policy().len();
                if !(0 <= q0 && p1 <= w.len() && w.subrange(q0, p1) == cert_sep_policy()) {
                    None
                } else if !(p1 < w.len() && w[p1] == 34) {
                    None
                } else {
                    match scan_string(w.skip(p1 + 1)) {
                        None => None,
                        Some((f1, n1)) => {
                            let q1 = p1 + 1 + n1;
                            let p2 = q1 + cert_sep_binary().len();
                            if !(0 <= q1 && p2 <= w.len() && w.subrange(q1, p2)
                                == cert_sep_binary()) {
                                None
                            } else if !(p2 < w.len() && w[p2] == 34) {
                                None
                            } else {
                                match scan_string(w.skip(p2 + 1)) {
                                    None => None,
                                    Some((f2, n2)) => {
                                        let q2 = p2 + 1 + n2;
                                        let p3 = q2 + cert_sep_signature().len();
                                        if !(0 <= q2 && p3 <= w.len() && w.subrange(q2, p3)
                                            == cert_sep_signature()) {
                                            None
                                        } else if !(p3 < w.len() && w[p3] == 34) {
                                            None
                                        } else {
                                            match scan_string(w.skip(p3 + 1)) {
                                                None => None,
                                                Some((f3, n3)) => {
                                                    let q3 = p3 + 1 + n3;
                                                    if q3 + 1 == w.len() && 0 <= q3 && w[q3]
                                                        == 125 {
                                                        Some((f0, f1, f2, f3))
                                                    } else {
                                                        None
                                                    }
                                                },
                                            }
                                        }
                                    },
                                }
                            }
                        },
                    }
                }
            },
        }
    }
}

/// Serializing a certificate and parsing the document back recovers
/// the four fields, byte for byte: parsing the canonical document of
/// `v` yields exactly the UTF-8 bytes of `v`'s fields, and those bytes
/// are valid UTF-8, so the executable parser rebuilds `v` itself.
pub proof fn lemma_certificate_round_trip(v: CertView)
    ensures
        parse_cert_spec(cert_json(v)) == Some(
            (
                encode_utf8(v.service_name),
                encode_utf8(v.policy_hash),
                encode_utf8(v.binary_hash),
                encode_utf8(v.signature),
            ),
        ),
        valid_utf8(encode_utf8(v.service_name)),
        valid_utf8(encode_utf8(v.policy_hash)),
        valid_utf8(encode_utf8(v.binary_hash)),
        valid_utf8(encode_utf8(v.signature)),
        decode_utf8(encode_utf8(v.service_name)) == v.service_name,
        decode_utf8(encode_utf8(v.policy_hash)) == v.policy_hash,
        decode_utf8(encode_utf8(v.binary_hash)) == v.binary_hash,
        decode_utf8(encode_utf8(v.signature)) == v.signature,
{
    lemma_cert_layout(v);
    vstd::utf8::encode_utf8_valid_utf8(v.service_name);
    vstd::utf8::encode_utf8_valid_utf8(v.policy_hash);
    vstd::utf8::encode_utf8_valid_utf8(v.binary_hash);
    vstd::utf8::encode_utf8_valid_utf8(v.signature);
    vstd::utf8::encode_utf8_decode_utf8(v.service_name);
    vstd::utf8::encode_utf8_decode_utf8(v.policy_hash);
    vstd::utf8::encode_utf8_decode_utf8(v.binary_hash);
    vstd::utf8::encode_utf8_decode_utf8(v.signature);
    let w = cert_json(v);
    assert(w.len() == cert_end_sg(v) + 1);
    assert(json_string(encode_utf8(v.service_name)).len() >= 2);
    assert(json_string(encode_utf8(v.policy_hash)).len() >= 2);
    assert(json_string(encode_utf8(v.binary_hash)).len() >= 2);
    assert(json_string(encode_utf8(v.signature)).len() >= 2);
    assert(parse_cert_spec(w) == Some(
        (
            encode_utf8(v.service_name),
            encode_utf8(v.policy_hash),
            encode_utf8(v.binary_hash),
            encode_utf8(v.signature),
        ),
    ));
}

/// Whether each field of a parse outcome is valid UTF-8.
pub open spec fn cert_fields_utf8(f: (Seq<u8>, Seq<u8>, Seq<u8>, Seq<u8>)) -> bool {
    valid_utf8(f.0) && valid_utf8(f.1) && valid_utf8(f.2) && valid_utf8(f.3)
}

/// Parses the canonical JSON document of a certificate.
///
/// Succeeds exactly where the document parses as a canonical
/// certificate with UTF-8 field values; together with
/// `lemma_certificate_round_trip` this recovers byte-equal fields from
/// every document the serializer writes.
#[verifier::rlimit(100)]
pub fn parse_certificate(bytes: &Vec<u8>) -> (r: Option<TahiniCertificate>)
    ensures
        r matches Some(c) ==> parse_cert_spec(bytes@) == Some(
            (
                encode_utf8(c@.service_name),
                encode_utf8(c@.policy_hash),
                encode_utf8(c@.binary_hash),
                encode_utf8(c@.signature),
            ),
        ),
        r is None ==> parse_cert_spec(bytes@) is None || !cert_fields_utf8(
            parse_cert_spec(bytes@).unwrap(),
        ),
{
    let ghost whole = bytes@;
    let n = bytes.len();
    let head = cert_head_vec();
    let pos0: usize = 0;
    if !match_at(bytes, pos0, &head) {
        return None;
    }
    let p0 = head.len();
    let sn = parse_field(bytes, p0);
    let (sn_bytes, sn_end) = match sn {
        Some(p) => p,
        None => {
            return None;
        },
    };
    let sep1 = cert_sep_policy_vec();
    if !match_at(bytes, sn_end, &sep1) {
        return None;
    }
    let p1 = sn_end + sep1.len();
    let ph = parse_field(bytes, p1);
    let (ph_bytes, ph_end) = match ph {
        Some(p) => p,
        None => {
            return None;
        },
    };
    let sep2 = cert_sep_binary_vec();
    if !match_at(bytes, ph_end, &sep2) {
        return None;
    }
    let p2 = ph_end + sep2.len();
    let bh = parse_field(bytes, p2);
    let (bh_bytes, bh_end) = match bh {
        Some(p) => p,
        None => {
            return None;
        },
    };
    let sep3 = cert_sep_signature_vec();
    if !match_at(bytes, bh_end, &sep3) {
        return None;
    }
    let p3 = bh_end + sep3.len();
    let sg = parse_field(bytes, p3);
    let (sg_bytes, sg_end) = match sg {
        Some(p) => p,
        None => {
            return None;
        },
    };
    if !(sg_end < n && sg_end + 1 == n && bytes[sg_end] == 125) {
        return None;
    }
    proof {
        assert(parse_cert_spec(whole) == Some((sn_bytes@, ph_bytes@, bh_bytes@, sg_bytes@)));
    }
    let sn_s = match string_from_utf8(sn_bytes) {
        Ok(s) => s,
        Err(_) => {
            return None;
        },
    };
    let ph_s = match string_from_utf8(ph_bytes) {
        Ok(s) => s,
        Err(_) => {
            return None;
        },
    };
    let bh_s = match string_from_utf8(bh_bytes) {
        Ok(s) => s,
        Err(_) => {
            return None;
        },
    };
    let sg_s = match string_from_utf8(sg_bytes) {
        Ok(s) => s,
        Err(_) => {
            return None;
        },
    };
    let c = TahiniCertificate {
        service_name: ServiceName(sn_s),
        policy_hash: PolicyHash(ph_s),
        binary_hash: BinHash(bh_s),
        signature: Signature(sg_s),
    };
    Some(c)
}


/// Parses one field value: a canonical JSON string literal at `pos`.
fn parse_field(bytes: &Vec<u8>, pos: usize) -> (r: Option<(Vec<u8>, usize)>)
    ensures
        r matches Some((s2, end)) ==> pos < end <= bytes@.len() && bytes@[pos as int] == 34
            && scan_string(bytes@.skip(pos as int + 1)) == Some(
            (s2@, end - pos - 1 as int),
        ),
        r is None ==> pos >= bytes@.len() || bytes@[pos as int] != 34 || scan_string(
            bytes@.skip(pos as int + 1),
        ) is None,
{
    parse_json_string_value(bytes, pos)
}

/// Serializes the fields covered by a report's signature into the
/// canonical signing blob.
pub fn serialize_attestation_data(d: &DynamicAttestationData<'_>) -> (r: Vec<u8>)
    ensures
        r@ =~= attestation_blob(d@),
{
    let mut out: Vec<u8> = Vec::new();
    out.push(123);
    append_json_string(&mut out, &vec![99u8, 101, 114, 116]);
    out.push(58);
    let cert_doc = serialize_certificate(d.cert);
    append_bytes(&mut out, &cert_doc);
    out.push(44);
    append_json_string(&mut out, &vec![110u8, 111, 110, 99, 101]);
    out.push(58);
    let nonce_dec = crate::decimal::u128_to_dec(d.nonce);
    append_bytes(&mut out, &nonce_dec);
    out.push(44);
    append_json_string(&mut out, &key_service_name_vec());
    out.push(58);
    append_json_string(&mut out, &string_bytes(&d.service_name.0));
    out.push(44);
    append_json_string(
        &mut out,
        &vec![99u8, 117, 114, 114, 101, 110, 116, 95, 98, 105, 110, 95, 104, 97, 115, 104],
    );
    out.push(58);
    append_json_string(&mut out, &string_bytes(&d.current_bin_hash.0));
    out.push(44);
    append_json_string(
        &mut out,
        &vec![115u8, 101, 114, 118, 101, 114, 95, 107, 101, 121, 95, 115, 104, 97, 114, 101],
    );
    out.push(58);
    append_json_bytes_array(&mut out, &d.server_key_share);
    out.push(44);
    append_json_string(&mut out, &vec![99u8, 108, 105, 101, 110, 116, 95, 105, 100]);
    out.push(58);
    let id_dec = crate::decimal::u64_to_dec(d.client_id.0);
    append_bytes(&mut out, &id_dec);
    out.push(125);
    proof {
        assert(out@ =~= attestation_blob(d@));
    }
    out
}

} // verus!
