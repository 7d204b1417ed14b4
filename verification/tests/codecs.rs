//! Byte-level codecs: hex, decimal, JSON strings, certificate
//! documents and pipe lines.

use tahini_attest::decimal::{dec_to_u64, u128_to_dec, u64_to_dec};
use tahini_attest::documents::{parse_certificate, serialize_certificate};
use tahini_attest::fifoline::{encode_fifo_line, parse_fifo_line};
use tahini_attest::hexcode::{hex_decode_bytes, hex_encode_bytes, hex_string};
use tahini_attest::jsoncode::{append_json_bytes_array, append_json_string};
use tahini_attest::types::{BinHash, PolicyHash, ServiceName, Signature, TahiniCertificate};

#[test]
fn hex_encode_matches_reference_crate() {
    let data: Vec<u8> = vec![0x00, 0x01, 0x7f, 0x80, 0xab, 0xcd, 0xef, 0xff];
    let ours = hex_encode_bytes(&data);
    let reference = hex::encode(&data);
    assert_eq!(String::from_utf8(ours).unwrap(), reference);
    assert_eq!(hex_string(&data), reference);
}

#[test]
fn hex_round_trip_and_rejection() {
    let data: Vec<u8> = (0u16..=255).map(|b| b as u8).collect();
    let encoded = hex_encode_bytes(&data);
    let decoded = hex_decode_bytes(&encoded).unwrap();
    assert_eq!(decoded, data);
    assert_eq!(hex_decode_bytes(&b"abc".to_vec()), None);
    assert_eq!(hex_decode_bytes(&b"zz".to_vec()), None);
    assert_eq!(hex_decode_bytes(&b"AB".to_vec()), Some(vec![0xab]));
}

#[test]
fn decimal_round_trip() {
    for n in [0u64, 1, 9, 10, 99, 12345, u64::MAX] {
        let text = u64_to_dec(n);
        assert_eq!(String::from_utf8(text.clone()).unwrap(), n.to_string());
        assert_eq!(dec_to_u64(&text), Some(n));
    }
    let big = u128_to_dec(u128::MAX);
    assert_eq!(String::from_utf8(big).unwrap(), u128::MAX.to_string());
    assert_eq!(dec_to_u64(&b"".to_vec()), None);
    assert_eq!(dec_to_u64(&b"12a".to_vec()), None);
    assert_eq!(dec_to_u64(&b"18446744073709551616".to_vec()), None);
    assert_eq!(dec_to_u64(&b"007".to_vec()), Some(7));
}

#[test]
fn json_string_escaping_matches_serde() {
    let samples = [
        "plain",
        "with \"quotes\" and \\backslash\\",
        "control\u{1}\u{8}\u{9}\u{a}\u{c}\u{d}\u{1f}chars",
        "unicode \u{e9}\u{4e2d}",
        "",
    ];
    for s in samples {
        let mut ours: Vec<u8> = Vec::new();
        append_json_string(&mut ours, &s.as_bytes().to_vec());
        let reference = serde_json::to_string(s).unwrap();
        assert_eq!(String::from_utf8(ours).unwrap(), reference);
    }
}

#[test]
fn json_bytes_array_shape() {
    let mut out: Vec<u8> = Vec::new();
    append_json_bytes_array(&mut out, &vec![0, 7, 255]);
    assert_eq!(String::from_utf8(out).unwrap(), "[0,7,255]");
    let mut empty: Vec<u8> = Vec::new();
    append_json_bytes_array(&mut empty, &Vec::new());
    assert_eq!(String::from_utf8(empty).unwrap(), "[]");
}

#[test]
fn certificate_serialization_is_canonical_json() {
    let cert = TahiniCertificate {
        service_name: ServiceName("svc \"a\"".to_string()),
        policy_hash: PolicyHash("00ff".to_string()),
        binary_hash: BinHash("a1b2".to_string()),
        signature: Signature("cafe".to_string()),
    };
    let doc = serialize_certificate(&cert);
    let text = String::from_utf8(doc.clone()).unwrap();
    assert_eq!(
        text,
        "{\"service_name\":\"svc \\\"a\\\"\",\"policy_hash\":\"00ff\",\"binary_hash\":\"a1b2\",\"signature\":\"cafe\"}"
    );
    // the document is real JSON for any other consumer
    let value: serde_json::Value = serde_json::from_slice(&doc).unwrap();
    assert_eq!(value["service_name"], "svc \"a\"");
    assert_eq!(value["binary_hash"], "a1b2");
}

#[test]
fn certificate_parse_recovers_fields() {
    let cert = TahiniCertificate {
        service_name: ServiceName("attested_service".to_string()),
        policy_hash: PolicyHash("deadbeef".to_string()),
        binary_hash: BinHash("0123456789abcdef".to_string()),
        signature: Signature("ffee".to_string()),
    };
    let doc = serialize_certificate(&cert);
    let back = parse_certificate(&doc).expect("canonical document parses");
    assert_eq!(back.service_name.0, "attested_service");
    assert_eq!(back.policy_hash.0, "deadbeef");
    assert_eq!(back.binary_hash.0, "0123456789abcdef");
    assert_eq!(back.signature.0, "ffee");
    assert!(back == cert);
}

#[test]
fn certificate_parse_round_trip_with_escapes() {
    let cert = TahiniCertificate {
        service_name: ServiceName("name with \\ and \" and \n".to_string()),
        policy_hash: PolicyHash("ab".to_string()),
        binary_hash: BinHash("cd".to_string()),
        signature: Signature("ef".to_string()),
    };
    let doc = serialize_certificate(&cert);
    let back = parse_certificate(&doc).expect("escaped document parses");
    assert!(back == cert);
}

#[test]
fn certificate_with_empty_fields_round_trips() {
    let cert = TahiniCertificate {
        service_name: ServiceName("".to_string()),
        policy_hash: PolicyHash("".to_string()),
        binary_hash: BinHash("".to_string()),
        signature: Signature("".to_string()),
    };
    let doc = serialize_certificate(&cert);
    let back = parse_certificate(&doc).expect("empty fields still parse");
    assert!(back == cert);
}

#[test]
fn certificate_parse_rejects_malformed() {
    assert!(parse_certificate(&b"".to_vec()).is_none());
    assert!(parse_certificate(&b"{}".to_vec()).is_none());
    assert!(parse_certificate(&b"{\"service_name\":\"a\"}".to_vec()).is_none());
    let cert = TahiniCertificate {
        service_name: ServiceName("a".to_string()),
        policy_hash: PolicyHash("bb".to_string()),
        binary_hash: BinHash("cc".to_string()),
        signature: Signature("dd".to_string()),
    };
    let mut doc = serialize_certificate(&cert);
    doc.push(b' ');
    assert!(parse_certificate(&doc).is_none());
}

#[test]
fn fifo_line_round_trip() {
    let nonce: Vec<u8> = (0u8..12).collect();
    let ct: Vec<u8> = (0u8..48).collect();
    let id = 1234567890123456789u64;
    let line = encode_fifo_line(&nonce, &ct, id);
    let text = String::from_utf8(line.clone()).unwrap();
    assert_eq!(text, format!("{},{},{}\n", hex::encode(&nonce), hex::encode(&ct), id));
    let (n2, c2, id2) = parse_fifo_line(&line).expect("encoded line parses");
    assert_eq!(n2, nonce);
    assert_eq!(c2, ct);
    assert_eq!(id2, id);
}

#[test]
fn fifo_line_rejects_malformed() {
    assert!(parse_fifo_line(&b"".to_vec()).is_none());
    assert!(parse_fifo_line(&b"aabb\n".to_vec()).is_none());
    assert!(parse_fifo_line(&b"aa,bb\n".to_vec()).is_none());
    assert!(parse_fifo_line(&b"aa,bb,12".to_vec()).is_none());
    assert!(parse_fifo_line(&b"zz,bb,12\n".to_vec()).is_none());
}

#[test]
fn fifo_line_rejects_non_canonical_renderings() {
    // a canonical line for reference
    assert!(parse_fifo_line(&b"aa,bb,12\n".to_vec()).is_some());
    // uppercase hex decodes, but is not what the encoder writes
    assert!(parse_fifo_line(&b"AA,bb,12\n".to_vec()).is_none());
    assert!(parse_fifo_line(&b"aa,BB,12\n".to_vec()).is_none());
    // a leading zero in the client id is not canonical either
    assert!(parse_fifo_line(&b"aa,bb,012\n".to_vec()).is_none());
    // extra commas land in the decimal field and are rejected
    assert!(parse_fifo_line(&b"aa,bb,12,34\n".to_vec()).is_none());
}
