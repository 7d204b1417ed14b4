//! Session-key bookkeeping inside a service, and the config
//! materializer.

use tahini_attest::configmodel::{BinaryConfig, MetadataConfig, SideCarConfig};
use tahini_attest::context::{TahiniContext, TahiniEnum, TahiniError, TahiniType};
use tahini_attest::crypto::AeadKey;
use tahini_attest::errors::AttestErrors;
use tahini_attest::fifoline::encode_fifo_line;
use tahini_attest::ingress::{read_session_key, ClientSessionMap};
use tahini_attest::types::{ClientId, ServiceName};

fn test_key(byte: u8) -> AeadKey {
    AeadKey::new(vec![byte; 32]).unwrap()
}

#[test]
fn pipe_payload_round_trip() {
    let kek = test_key(9);
    let payload: Vec<u8> = (0u8..32).collect();
    let (nonce, cipher) = kek.seal(&payload).unwrap();
    assert_eq!(nonce.len(), 12);
    assert_eq!(cipher.len(), payload.len() + 16);
    let line = encode_fifo_line(&nonce, &cipher, 42);
    let (cid, session) = read_session_key(&line, &kek).unwrap();
    assert_eq!(cid, ClientId(42));
    // prove the delivered key holds the original payload bytes
    let probe = b"check".to_vec();
    let (n2, c2) = session.seal(&probe).unwrap();
    let same = AeadKey::new(payload).unwrap();
    assert_eq!(same.open(&n2, &c2).unwrap(), probe);
}

#[test]
fn malformed_pipe_lines_are_rejected() {
    let kek = test_key(4);
    assert!(matches!(
        read_session_key(&b"not a pipe line".to_vec(), &kek),
        Err(AttestErrors::AttestDataMalformedError)
    ));
    assert!(matches!(
        read_session_key(&b"aa,bb,12\n".to_vec(), &kek),
        Err(AttestErrors::AttestDataMalformedError)
    ));
}

#[test]
fn pipe_payload_rejects_wrong_key() {
    let kek = test_key(9);
    let other = test_key(10);
    let payload = vec![7u8; 32];
    let (nonce, cipher) = kek.seal(&payload).unwrap();
    let line = encode_fifo_line(&nonce, &cipher, 1);
    assert!(read_session_key(&line, &other).is_err());
}

#[test]
fn session_map_inserts_and_consumes_once() {
    let mut map = ClientSessionMap::new();
    map.insert(ClientId(1), test_key(1));
    map.insert(ClientId(2), test_key(2));
    let first = map.take(&ClientId(1));
    assert!(first.is_ok());
    assert!(matches!(map.take(&ClientId(1)), Err(AttestErrors::InvalidAttestation)));
    // the other entry is untouched
    assert!(map.take(&ClientId(2)).is_ok());
    assert!(matches!(map.take(&ClientId(2)), Err(AttestErrors::InvalidAttestation)));
}

#[test]
fn session_map_replaces_on_reinsert() {
    let mut map = ClientSessionMap::new();
    map.insert(ClientId(5), test_key(1));
    map.insert(ClientId(5), test_key(2));
    let taken = map.take(&ClientId(5)).unwrap();
    // only the second key remains: it opens what the second sealed
    let probe = b"second".to_vec();
    let (n, c) = test_key(2).seal(&probe).unwrap();
    assert_eq!(taken.open(&n, &c).unwrap(), probe);
    assert!(map.take(&ClientId(5)).is_err());
}

#[test]
fn pipe_key_derivation_is_deterministic_in_its_inputs() {
    let ikm = vec![1u8; 32];
    let salt = vec![2u8; 32];
    let info_a = b"/run/a/sidecar_fifo".to_vec();
    let info_b = b"/run/b/sidecar_fifo".to_vec();
    let first = tahini_attest::crypto::sskdf_hmac_sha256(&ikm, &salt, &info_a).unwrap();
    let second = tahini_attest::crypto::sskdf_hmac_sha256(&ikm, &salt, &info_a).unwrap();
    assert_eq!(first, second);
    assert_eq!(first.len(), 32);
    let other = tahini_attest::crypto::sskdf_hmac_sha256(&ikm, &salt, &info_b).unwrap();
    assert_ne!(first, other);
    assert_ne!(first, ikm);
}

#[test]
fn tampered_pipe_ciphertext_is_rejected() {
    let kek = test_key(3);
    let payload = vec![5u8; 32];
    let (nonce, mut cipher) = kek.seal(&payload).unwrap();
    cipher[0] ^= 1;
    assert!(kek.open(&nonce, &cipher).is_err());
}

#[test]
fn aead_key_needs_32_bytes() {
    assert!(matches!(AeadKey::new(vec![0u8; 16]), Err(AttestErrors::CryptoError)));
    assert!(AeadKey::new(vec![0u8; 32]).is_ok());
}

#[test]
fn a_service_holds_at_most_one_pipe_key() {
    let rng = aws_lc_rs::rand::SystemRandom::new();
    let doc = aws_lc_rs::signature::Ed25519KeyPair::generate_pkcs8(&rng).unwrap();
    let key = tahini_attest::crypto::SigningKey::from_pkcs8(doc.as_ref().to_vec()).unwrap();
    let mut sidecar = tahini_attest::sidecar::SideCarServer::new(
        tahini_attest::store::CertificateLoader::new(),
        key,
        Vec::new(),
    );
    sidecar
        .setup_service_key_channel(ServiceName("svc".to_string()), test_key(1))
        .unwrap();
    assert!(matches!(
        sidecar.setup_service_key_channel(ServiceName("svc".to_string()), test_key(2)),
        Err(AttestErrors::ConfigError)
    ));
}

#[test]
fn metadata_expands_into_both_configs() {
    let metadata = MetadataConfig {
        binaries: vec![(
            "svc_a".to_string(),
            BinaryConfig {
                bin_path: "/opt/svc_a".to_string(),
                run_path: "/run/svc_a".to_string(),
            },
        )],
        service_mapping: vec![("svc_a".to_string(), "public_a".to_string())],
    };
    let cert_conf = metadata.parse_to_cert_conf(&"/etc/certs".to_string());
    assert_eq!(cert_conf.certificates.len(), 1);
    assert_eq!(cert_conf.certificates[0].0, "svc_a");
    assert_eq!(cert_conf.certificates[0].1, "/etc/certs/svc_a_certificate.json");
    assert_eq!(cert_conf.service_mapping, metadata.service_mapping);
    let runtime = metadata.parse_to_runtime_conf(
        "/etc/certificate_config.toml".to_string(),
        "/etc/signing.key".to_string(),
    );
    assert_eq!(runtime.certificates_config, "/etc/certificate_config.toml");
    assert_eq!(runtime.signing_key, "/etc/signing.key");
    assert_eq!(runtime.binaries[0].0, "svc_a");
}

#[test]
fn sidecar_config_accessors() {
    let config = SideCarConfig::new(
        vec![(
            "svc_a".to_string(),
            BinaryConfig {
                bin_path: "/opt/svc_a".to_string(),
                run_path: "/run/svc_a".to_string(),
            },
        )],
        "/etc/certificate_config.toml".to_string(),
        "/etc/signing.key".to_string(),
        vec![(ServiceName("svc_a".to_string()), ServiceName("public_a".to_string()))],
    );
    assert_eq!(config.get_key_path(), "/etc/signing.key");
    assert_eq!(config.get_certificate_config_path(), "/etc/certificate_config.toml");
    assert_eq!(config.get_binaries().len(), 1);
    assert_eq!(config.yield_mapping().len(), 1);
    let mapped = config.get_service_name(&ServiceName("svc_a".to_string())).unwrap();
    assert_eq!(mapped.0, "public_a");
    assert!(config.get_service_name(&ServiceName("ghost".to_string())).is_none());
}

#[test]
fn rpc_context_describes_itself() {
    let ctx = TahiniContext::new("billing", "charge");
    assert_eq!(ctx.service, "billing");
    assert_eq!(ctx.rpc, "charge");
    match ctx.to_tahini_enum() {
        TahiniEnum::Structure(name, fields) => {
            assert_eq!(name, "TahiniContext");
            assert_eq!(fields.len(), 2);
            assert_eq!(fields[0].0, "service");
            assert!(matches!(&fields[0].1, TahiniEnum::Value(v) if v == "billing"));
            assert_eq!(fields[1].0, "rpc");
        },
        TahiniEnum::Value(_) => panic!("a context renders as a structure"),
    }
}

#[test]
fn errors_describe_themselves() {
    assert_eq!(AttestErrors::InvalidAttestation.error_text(), "invalid attestation");
    assert_eq!(AttestErrors::IoError.error_text(), "io error");
}
