//! The certificate issuer and the certificate store.

use sha2::Digest;

use tahini_attest::crypto::{ed25519_verify, SigningKey};
use tahini_attest::errors::AttestErrors;
use tahini_attest::issuer::{
    format_filename, gen_certificate, hash_binaries, match_policies_to_bin, merge_maps,
    mode_is_executable, policy_filename_for, retrieve_hash_from_file,
};
use tahini_attest::store::{CertificateLoader, CertificateProvider};
use tahini_attest::types::{BinHash, PolicyHash, ServiceName, TahiniCertificate};

fn fresh_signing_key() -> SigningKey {
    let rng = aws_lc_rs::rand::SystemRandom::new();
    let doc = aws_lc_rs::signature::Ed25519KeyPair::generate_pkcs8(&rng).unwrap();
    SigningKey::from_pkcs8(doc.as_ref().to_vec()).unwrap()
}

#[test]
fn issued_certificate_signature_verifies() {
    let key = fresh_signing_key();
    let policy = PolicyHash(hex::encode([1u8; 32]));
    let binary = BinHash(hex::encode([2u8; 32]));
    let cert = gen_certificate("svc_a".to_string(), (policy, binary), &key).unwrap();
    assert_eq!(cert.service_name.0, "svc_a");
    let mut payload = hex::decode(&cert.policy_hash.0).unwrap();
    payload.extend(hex::decode(&cert.binary_hash.0).unwrap());
    let sig = hex::decode(&cert.signature.0).unwrap();
    let pubkey = key.public_key_bytes();
    assert!(ed25519_verify(&pubkey, &payload, &sig));
    // independent check through aws-lc-rs directly
    let upk = aws_lc_rs::signature::UnparsedPublicKey::new(
        &aws_lc_rs::signature::ED25519,
        pubkey.as_slice(),
    );
    assert!(upk.verify(&payload, &sig).is_ok());
}

#[test]
fn tampering_breaks_the_issued_signature() {
    let key = fresh_signing_key();
    let cert = gen_certificate(
        "svc".to_string(),
        (PolicyHash(hex::encode([3u8; 32])), BinHash(hex::encode([4u8; 32]))),
        &key,
    )
    .unwrap();
    let mut payload = hex::decode(&cert.policy_hash.0).unwrap();
    payload.extend(hex::decode(&cert.binary_hash.0).unwrap());
    payload[0] ^= 1;
    let sig = hex::decode(&cert.signature.0).unwrap();
    assert!(!ed25519_verify(&key.public_key_bytes(), &payload, &sig));
}

#[test]
fn non_hex_hashes_are_rejected() {
    let key = fresh_signing_key();
    let r = gen_certificate(
        "svc".to_string(),
        (PolicyHash("not hex!".to_string()), BinHash("00".to_string())),
        &key,
    );
    assert!(matches!(r, Err(AttestErrors::AttestDataMalformedError)));
}

#[test]
fn binaries_without_policy_files_are_silently_skipped() {
    let bins = vec!["svc_a".to_string(), "svc_b".to_string(), "svc_c".to_string()];
    let dir = vec![
        "svc_a_policy_hashes.json".to_string(),
        "unrelated.txt".to_string(),
        "svc_c_policy_hashes.json".to_string(),
    ];
    let matched = match_policies_to_bin(&bins, &dir);
    assert_eq!(matched, vec!["svc_a".to_string(), "svc_c".to_string()]);
}

#[test]
fn first_line_absent_or_blank_is_fatal() {
    assert!(matches!(retrieve_hash_from_file(None), Err(AttestErrors::IoError)));
    let blank = "".to_string();
    assert!(matches!(
        retrieve_hash_from_file(Some(&blank)),
        Err(AttestErrors::IoError)
    ));
    let line = "abcd".to_string();
    let hash = retrieve_hash_from_file(Some(&line)).unwrap();
    assert_eq!(hash.0, "abcd");
}

#[test]
fn binary_hashing_matches_direct_sha() {
    let contents = vec![
        ("svc_a".to_string(), b"first binary".to_vec()),
        ("svc_b".to_string(), b"second binary".to_vec()),
    ];
    let hashed = hash_binaries(contents);
    assert_eq!(hashed.len(), 2);
    assert_eq!(hashed[0].0, "svc_a");
    assert_eq!(hashed[0].1.0, hex::encode(sha2::Sha256::digest(b"first binary")));
    assert_eq!(hashed[1].1.0, hex::encode(sha2::Sha256::digest(b"second binary")));
}

#[test]
fn merge_keeps_only_names_present_in_both_maps() {
    let policies = vec![
        ("svc_a".to_string(), PolicyHash("aa".to_string())),
        ("svc_b".to_string(), PolicyHash("bb".to_string())),
    ];
    let binaries = vec![
        ("svc_b".to_string(), BinHash("22".to_string())),
        ("svc_x".to_string(), BinHash("99".to_string())),
    ];
    let merged = merge_maps(policies, binaries);
    assert_eq!(merged.len(), 1);
    assert_eq!(merged[0].0, "svc_b");
    assert_eq!((merged[0].1).0.0, "bb");
    assert_eq!((merged[0].1).1.0, "22");
}

#[test]
fn file_name_helpers() {
    assert_eq!(format_filename(&"svc".to_string()), "svc_certificate.json");
    assert_eq!(policy_filename_for(&"svc".to_string()), "svc_policy_hashes.json");
    assert!(mode_is_executable(0o755));
    assert!(mode_is_executable(0o100));
    assert!(!mode_is_executable(0o644));
}

#[test]
fn store_rejects_mismatched_service_name() {
    let mut loader = CertificateLoader::new();
    let cert = TahiniCertificate {
        service_name: ServiceName("other".to_string()),
        policy_hash: PolicyHash("aa".to_string()),
        binary_hash: BinHash("bb".to_string()),
        signature: tahini_attest::types::Signature("cc".to_string()),
    };
    let r = loader.register_service(cert, ServiceName("svc".to_string()));
    assert!(matches!(r, Err(AttestErrors::ServiceMismatchError)));
}

#[test]
fn store_registration_and_lookup() {
    let mut loader = CertificateLoader::new();
    let cert = TahiniCertificate {
        service_name: ServiceName("svc".to_string()),
        policy_hash: PolicyHash("aa".to_string()),
        binary_hash: BinHash("bb".to_string()),
        signature: tahini_attest::types::Signature("cc".to_string()),
    };
    let fresh = loader.register_service(cert.clone(), ServiceName("svc".to_string())).unwrap();
    assert!(fresh);
    let again = loader.register_service(cert.clone(), ServiceName("svc".to_string())).unwrap();
    assert!(!again);
    let held = loader.get_certificate(&ServiceName("svc".to_string())).unwrap();
    assert!(held == &cert);
    assert!(loader.get_certificate(&ServiceName("missing".to_string())).is_none());
}

#[test]
fn issuer_key_is_the_last_32_der_bytes() {
    let mut loader = CertificateLoader::new();
    let mut der: Vec<u8> = (0u8..64).collect();
    assert!(loader.load_certificate_key(der.clone()).unwrap());
    let key = loader.get_key().as_ref().unwrap();
    assert_eq!(key.as_slice(), &der[32..]);
    // a second load is a no-op
    der[63] ^= 0xff;
    assert!(!loader.load_certificate_key(der).unwrap());
    let mut fresh = CertificateLoader::new();
    assert!(matches!(
        fresh.load_certificate_key(vec![1, 2, 3]),
        Err(AttestErrors::AttestDataMalformedError)
    ));
}

#[test]
fn store_rebuilds_from_config_entries() {
    let cert = TahiniCertificate {
        service_name: ServiceName("svc".to_string()),
        policy_hash: PolicyHash("aa".to_string()),
        binary_hash: BinHash("bb".to_string()),
        signature: tahini_attest::types::Signature("cc".to_string()),
    };
    let mappings = vec![
        (ServiceName("bin_old".to_string()), ServiceName("public".to_string())),
        (ServiceName("bin_new".to_string()), ServiceName("public".to_string())),
    ];
    let loader = CertificateLoader::from_config(
        Some((0u8..64).collect()),
        mappings,
        vec![(ServiceName("svc".to_string()), cert.clone())],
    )
    .unwrap();
    assert!(loader.get_key().is_some());
    assert!(loader.get_certificate(&ServiceName("svc".to_string())).is_some());
    // the last registration for a service wins
    let bin = loader.get_reverse_mapping(&ServiceName("public".to_string())).unwrap();
    assert_eq!(bin.0, "bin_new");

    // a mismatched embedded name fails the whole load
    let bad = CertificateLoader::from_config(
        None,
        Vec::new(),
        vec![(ServiceName("other".to_string()), cert)],
    );
    assert!(matches!(bad, Err(AttestErrors::ServiceMismatchError)));
    // a short key document fails the whole load
    let short = CertificateLoader::from_config(Some(vec![1, 2, 3]), Vec::new(), Vec::new());
    assert!(matches!(short, Err(AttestErrors::AttestDataMalformedError)));
}

#[test]
fn reverse_mapping_resolves_services() {
    let mut loader = CertificateLoader::new();
    loader.register_bin_mapping(
        ServiceName("bin_a".to_string()),
        ServiceName("public_a".to_string()),
    );
    let bin = loader.get_reverse_mapping(&ServiceName("public_a".to_string())).unwrap();
    assert_eq!(bin.0, "bin_a");
    assert!(loader.get_reverse_mapping(&ServiceName("public_b".to_string())).is_none());
}
