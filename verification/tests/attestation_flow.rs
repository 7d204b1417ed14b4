//! The end-to-end attestation flow: sidecar, pipe and client verifier
//! exercised together, in memory.

use sha2::Digest;

use tahini_attest::client::{prepare_attestation, DynamicAttestationVerifier};
use tahini_attest::crypto::{compute_local_share, AeadKey, SigningKey};
use tahini_attest::errors::AttestErrors;
use tahini_attest::fifoline::parse_fifo_line;
use tahini_attest::ingress::{get_key_for_client, read_session_key, ClientSessionMap};
use tahini_attest::issuer::gen_certificate;
use tahini_attest::sidecar::{
    derive_pipe_key, format_fifo_path, hash_bins, AttestationService, SideCarServer,
};
use tahini_attest::store::CertificateLoader;
use tahini_attest::types::{BinHash, PolicyHash, ServiceName};

fn fresh_signing_key() -> SigningKey {
    let rng = aws_lc_rs::rand::SystemRandom::new();
    let doc = aws_lc_rs::signature::Ed25519KeyPair::generate_pkcs8(&rng).unwrap();
    SigningKey::from_pkcs8(doc.as_ref().to_vec()).unwrap()
}

#[test]
fn full_attestation_round() {
    let binary = b"the service binary image".to_vec();
    let issuer_key = fresh_signing_key();
    let attestation_key = fresh_signing_key();
    let attestation_pub = attestation_key.public_key_bytes();

    let bin_hash = BinHash(hex::encode(sha2::Sha256::digest(&binary)));
    let policy_hash = PolicyHash(hex::encode(sha2::Sha256::digest(b"policies")));
    let cert =
        gen_certificate("svc_a".to_string(), (policy_hash, bin_hash), &issuer_key).unwrap();

    let mut loader = CertificateLoader::new();
    loader.load_certificate_key(issuer_key.public_key_bytes()).unwrap();
    loader.register_service(cert.clone(), ServiceName("svc_a".to_string())).unwrap();
    loader.register_bin_mapping(
        ServiceName("svc_a".to_string()),
        ServiceName("public_a".to_string()),
    );

    let mut client_loader = CertificateLoader::new();
    client_loader.load_certificate_key(issuer_key.public_key_bytes()).unwrap();
    client_loader.register_service(cert.clone(), ServiceName("svc_a".to_string())).unwrap();
    client_loader.register_bin_mapping(
        ServiceName("svc_a".to_string()),
        ServiceName("public_a".to_string()),
    );

    let mut sidecar = SideCarServer::new(
        loader,
        attestation_key,
        vec![(ServiceName("svc_a".to_string()), ServiceName("svc_a".to_string()))],
    );
    let hashed = hash_bins(vec![(ServiceName("svc_a".to_string()), binary)]);
    let (name, hash) = hashed.into_iter().next().unwrap();
    sidecar.register_running_service(name, hash);
    let fifo = format_fifo_path(&"/tmp/svc_a".to_string());
    let (kek, kek_hex) = derive_pipe_key(&fifo).unwrap();
    sidecar.setup_service_key_channel(ServiceName("svc_a".to_string()), kek).unwrap();

    let verifier =
        DynamicAttestationVerifier::from_config(client_loader, attestation_pub).unwrap();

    // client side: resolve, draw, share
    let (bin_name, nonce, local_share) =
        prepare_attestation(&verifier, &ServiceName("public_a".to_string())).unwrap();
    assert_eq!(bin_name.0, "svc_a");
    let client_share = local_share.public_bytes();

    // sidecar side: answer the request
    let (report, fifo_service, line) = sidecar
        .attest_binary(bin_name.clone(), nonce, client_share)
        .unwrap();
    assert_eq!(fifo_service.0, "svc_a");
    assert_eq!(report.nonce, nonce);
    assert_eq!(report.current_bin_hash, cert.binary_hash);

    // service side: decode the pipe line with the reconstructed key
    let service_kek = AeadKey::new(hex::decode(&kek_hex).unwrap()).unwrap();
    let (parsed_nonce, parsed_ct, parsed_id) = parse_fifo_line(&line).unwrap();
    assert_eq!(parsed_id, report.client_id.0);
    let delivered = service_kek.open(&parsed_nonce, &parsed_ct).unwrap();

    let mut map = ClientSessionMap::new();
    let (cid, session_key) = read_session_key(&line, &service_kek).unwrap();
    assert_eq!(cid.0, report.client_id.0);
    map.insert(cid, session_key);

    // client side: verify the report and finish the agreement
    let (client_id, client_key) = verifier
        .verify_binary(&bin_name, nonce, local_share, report)
        .unwrap();
    assert_eq!(client_id.0, parsed_id);
    // the key delivered over the pipe equals the client's derived key
    assert_eq!(delivered, client_key);

    // the handler consumes the session key exactly once
    let taken = get_key_for_client(&mut map, &client_id).unwrap();
    let probe = b"probe message".to_vec();
    let (n2, c2) = taken.seal(&probe).unwrap();
    let client_aead = AeadKey::new(client_key).unwrap();
    assert_eq!(client_aead.open(&n2, &c2).unwrap(), probe);
    assert!(matches!(
        get_key_for_client(&mut map, &client_id),
        Err(AttestErrors::InvalidAttestation)
    ));
}

#[test]
fn tampered_binary_is_rejected() {
    let binary = b"the honest binary".to_vec();
    let issuer_key = fresh_signing_key();
    let attestation_key = fresh_signing_key();
    let attestation_pub = attestation_key.public_key_bytes();

    let bin_hash = BinHash(hex::encode(sha2::Sha256::digest(&binary)));
    let policy_hash = PolicyHash(hex::encode(sha2::Sha256::digest(b"policies")));
    let cert =
        gen_certificate("svc_a".to_string(), (policy_hash, bin_hash), &issuer_key).unwrap();

    let build_loader = |cert: &tahini_attest::types::TahiniCertificate,
                        issuer_key: &SigningKey| {
        let mut loader = CertificateLoader::new();
        loader.load_certificate_key(issuer_key.public_key_bytes()).unwrap();
        loader.register_service(cert.clone(), ServiceName("svc_a".to_string())).unwrap();
        loader.register_bin_mapping(
            ServiceName("svc_a".to_string()),
            ServiceName("public_a".to_string()),
        );
        loader
    };

    let mut sidecar = SideCarServer::new(
        build_loader(&cert, &issuer_key),
        attestation_key,
        vec![(ServiceName("svc_a".to_string()), ServiceName("svc_a".to_string()))],
    );
    // flip one byte on disk before the sidecar measures it
    let mut tampered = binary.clone();
    tampered[0] ^= 1;
    let hashed = hash_bins(vec![(ServiceName("svc_a".to_string()), tampered)]);
    let (name, hash) = hashed.into_iter().next().unwrap();
    sidecar.register_running_service(name, hash);
    let (kek, _) = derive_pipe_key(&"/tmp/svc_a/sidecar_fifo".to_string()).unwrap();
    sidecar.setup_service_key_channel(ServiceName("svc_a".to_string()), kek).unwrap();

    let verifier = DynamicAttestationVerifier::from_config(
        build_loader(&cert, &issuer_key),
        attestation_pub,
    )
    .unwrap();

    let (bin_name, nonce, local_share) =
        prepare_attestation(&verifier, &ServiceName("public_a".to_string())).unwrap();
    let client_share = local_share.public_bytes();
    let (report, _, _) = sidecar.attest_binary(bin_name.clone(), nonce, client_share).unwrap();
    assert!(report.current_bin_hash != report.certificate.binary_hash);
    let r = verifier.verify_binary(&bin_name, nonce, local_share, report);
    assert!(matches!(r, Err(AttestErrors::InvalidAttestation)));
}

#[test]
fn two_clients_attest_the_same_service() {
    let binary = b"shared service binary".to_vec();
    let issuer_key = fresh_signing_key();
    let attestation_key = fresh_signing_key();
    let attestation_pub = attestation_key.public_key_bytes();

    let bin_hash = BinHash(hex::encode(sha2::Sha256::digest(&binary)));
    let policy_hash = PolicyHash(hex::encode(sha2::Sha256::digest(b"policies")));
    let cert =
        gen_certificate("svc_a".to_string(), (policy_hash, bin_hash), &issuer_key).unwrap();

    let build_loader = |cert: &tahini_attest::types::TahiniCertificate,
                        issuer_key: &SigningKey| {
        let mut loader = CertificateLoader::new();
        loader.load_certificate_key(issuer_key.public_key_bytes()).unwrap();
        loader.register_service(cert.clone(), ServiceName("svc_a".to_string())).unwrap();
        loader.register_bin_mapping(
            ServiceName("svc_a".to_string()),
            ServiceName("public_a".to_string()),
        );
        loader
    };

    let mut sidecar = SideCarServer::new(
        build_loader(&cert, &issuer_key),
        attestation_key,
        vec![(ServiceName("svc_a".to_string()), ServiceName("svc_a".to_string()))],
    );
    let hashed = hash_bins(vec![(ServiceName("svc_a".to_string()), binary)]);
    let (name, hash) = hashed.into_iter().next().unwrap();
    sidecar.register_running_service(name, hash);
    let (kek, kek_hex) = derive_pipe_key(&"/run/svc_a/sidecar_fifo".to_string()).unwrap();
    sidecar.setup_service_key_channel(ServiceName("svc_a".to_string()), kek).unwrap();
    let service_kek = AeadKey::new(hex::decode(&kek_hex).unwrap()).unwrap();

    let verifier = DynamicAttestationVerifier::from_config(
        build_loader(&cert, &issuer_key),
        attestation_pub,
    )
    .unwrap();

    // two independent clients go through the protocol; the service's
    // map ends up holding two distinct entries, and each handler
    // retrieval removes exactly its own
    let mut map = ClientSessionMap::new();
    let mut outcomes = Vec::new();
    for _ in 0..2 {
        let (bin_name, nonce, local_share) =
            prepare_attestation(&verifier, &ServiceName("public_a".to_string())).unwrap();
        let (report, _, line) = sidecar
            .attest_binary(bin_name.clone(), nonce, local_share.public_bytes())
            .unwrap();
        let (cid, session_key) = read_session_key(&line, &service_kek).unwrap();
        map.insert(cid, session_key);
        let (client_id, client_key) =
            verifier.verify_binary(&bin_name, nonce, local_share, report).unwrap();
        assert_eq!(cid, client_id);
        outcomes.push((client_id, client_key));
    }
    assert_ne!(outcomes[0].0, outcomes[1].0, "client identifiers are distinct");
    for (client_id, client_key) in outcomes {
        let taken = get_key_for_client(&mut map, &client_id).unwrap();
        let probe = b"per-client probe".to_vec();
        let (n, c) = taken.seal(&probe).unwrap();
        let client_aead = AeadKey::new(client_key).unwrap();
        assert_eq!(client_aead.open(&n, &c).unwrap(), probe);
        assert!(get_key_for_client(&mut map, &client_id).is_err());
    }
}

#[test]
fn unknown_service_fails_the_call() {
    let attestation_key = fresh_signing_key();
    let sidecar = SideCarServer::new(CertificateLoader::new(), attestation_key, Vec::new());
    let share = compute_local_share().unwrap();
    let r = sidecar.attest_binary(
        ServiceName("ghost".to_string()),
        7,
        share.public_bytes(),
    );
    assert!(matches!(r, Err(AttestErrors::ServiceMismatchError)));
}

#[test]
fn client_ids_do_not_collide_over_many_draws() {
    let mut seen = std::collections::HashSet::new();
    let mut buf = [0u8; 8];
    for _ in 0..100000 {
        aws_lc_rs::rand::fill(&mut buf).unwrap();
        let id = u64::from_be_bytes(buf);
        assert!(seen.insert(id), "a freshly drawn client id repeated");
    }
}
