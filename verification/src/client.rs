//! The client verifier: certificate matching, report signature
//! verification, and key-share finalization.

use vstd::prelude::*;

use vstd::utf8::encode_utf8;

use crate::crypto::{
    compute_local_share, derive_key_from_shares, ed25519_verifies, ed25519_verify,
    lemma_session_key_symmetric, session_key_of, sha256_of, EphemeralShare, fill_random,
};
use crate::decimal::u128_from_be_bytes;
use crate::documents::{attestation_blob, serialize_attestation_data};
use crate::errors::{AttestErrors, AttestResult};
use crate::hexcode::{hex_chars, hex_decode_bytes, hex_decode_spec, is_hex_seq};
use crate::store::{cert_lookup, CertificateLoader, CertificateProvider};
use crate::strbytes::string_bytes;
use crate::types::{
    AttestationDataView, ClientId, DynamicAttestationData, DynamicAttestationReport, ServiceName, TahiniCertificate,
};

verus! {

/// The client's verification state: its certificate store and the one
/// accepted attestation public key.
pub struct DynamicAttestationVerifier {
    certificate_handler: CertificateLoader,
    allowed_keys: Vec<u8>,
}

/// The mathematical content of a verifier.
#[verifier::ext_equal]
pub ghost struct VerifierView {
    pub certs: crate::store::LoaderView,
    pub allowed_key: Seq<u8>,
}

impl View for DynamicAttestationVerifier {
    type V = VerifierView;

    closed spec fn view(&self) -> VerifierView {
        VerifierView { certs: self.certificate_handler@, allowed_key: self.allowed_keys@ }
    }
}

impl DynamicAttestationVerifier {
    /// Builds a verifier from its certificate store and the DER bytes
    /// of the accepted attestation public key (whose raw material is
    /// its last 32 bytes).
    pub fn from_config(certificate_handler: CertificateLoader, attestation_pkey_der: Vec<u8>)
        -> (r: AttestResult<DynamicAttestationVerifier>)
        ensures
            r is Ok <==> attestation_pkey_der@.len() >= 32,
            r matches Ok(v) ==> v@.certs == certificate_handler@ && v@.allowed_key
                == attestation_pkey_der@.skip(attestation_pkey_der@.len() - 32),
            r matches Err(e) ==> e == AttestErrors::AttestDataMalformedError,
    {
        if attestation_pkey_der.len() < 32 {
            return Err(AttestErrors::AttestDataMalformedError);
        }
        let start = attestation_pkey_der.len() - 32;
        let mut key: Vec<u8> = Vec::new();
        let mut i = start;
        while i < attestation_pkey_der.len()
            invariant
                start <= i <= attestation_pkey_der@.len(),
                start == attestation_pkey_der@.len() - 32,
                key@ =~= attestation_pkey_der@.subrange(start as int, i as int),
            decreases attestation_pkey_der@.len() - i,
        {
            key.push(attestation_pkey_der[i]);
            proof {
                assert(attestation_pkey_der@.subrange(start as int, i + 1)
                    =~= attestation_pkey_der@.subrange(start as int, i as int).push(
                    attestation_pkey_der@[i as int],
                ));
            }
            i = i + 1;
        }
        proof {
            assert(key@ =~= attestation_pkey_der@.skip(attestation_pkey_der@.len() - 32));
        }
        Ok(DynamicAttestationVerifier { certificate_handler, allowed_keys: key })
    }

    /// The verifier's certificate store.
    pub fn certificate_handler(&self) -> (r: &CertificateLoader)
        ensures
            r@ == self@.certs,
    {
        &self.certificate_handler
    }

    /// Whether the remote certificate byte-matches the locally held
    /// certificate for its service, with the issuer key loaded.
    pub fn verify_certificate(&self, remote_certificate: &TahiniCertificate) -> (r: bool)
        ensures
            r == (self@.certs.accepted_key is Some && cert_lookup(
                self@.certs.certificates,
                remote_certificate@.service_name,
            ) == Some(remote_certificate@)),
    {
        if self.certificate_handler.get_key().is_none() {
            return false;
        }
        match self.certificate_handler.lookup_certificate(&remote_certificate.service_name) {
            None => false,
            Some(local) => local.eq(remote_certificate),
        }
    }

    /// Verifies one attestation report against the local state.
    ///
    /// Succeeds only where the bundled certificate matches the local
    /// copy, the report's current binary hash equals the certificate's
    /// binary hash, and the report's signature verifies over the
    /// re-serialized signing blob under the accepted attestation key;
    /// every sub-failure is reduced to a single rejection.  The session
    /// key is derived from the local ephemeral share and the server's
    /// share.
    pub fn verify_binary(
        &self,
        bin_name: &ServiceName,
        nonce: u128,
        local_share: EphemeralShare,
        report: DynamicAttestationReport,
    ) -> (r: AttestResult<(ClientId, Vec<u8>)>)
        ensures
            r matches Err(e) ==> e == AttestErrors::InvalidAttestation,
            !(self@.certs.accepted_key is Some && cert_lookup(
                self@.certs.certificates,
                report@.certificate.service_name,
            ) == Some(report@.certificate)) ==> r is Err,
            report@.current_bin_hash != report@.certificate.binary_hash ==> r is Err,
            r matches Ok(t) ==> {
                &&& cert_lookup(self@.certs.certificates, report@.certificate.service_name)
                    == Some(report@.certificate)
                &&& report@.current_bin_hash == report@.certificate.binary_hash
                &&& t.0@ == report@.client_id
                &&& t.1@ == session_key_of(local_share@, report@.server_key_share)
                &&& is_hex_seq(encode_utf8(report@.signature))
                &&& ed25519_verifies(
                    self@.allowed_key,
                    attestation_blob(
                        crate::types::AttestationDataView {
                            cert: report@.certificate,
                            nonce,
                            service_name: bin_name@,
                            current_bin_hash: report@.certificate.binary_hash,
                            server_key_share: report@.server_key_share,
                            client_id: report@.client_id,
                        },
                    ),
                    hex_decode_spec(encode_utf8(report@.signature)),
                )
            },
    {
        if !self.verify_certificate(&report.certificate) {
            return Err(AttestErrors::InvalidAttestation);
        }
        if !report.current_bin_hash.eq(&report.certificate.binary_hash) {
            return Err(AttestErrors::InvalidAttestation);
        }
        let client_id = report.client_id;
        let server_key_share = crate::strbytes::copy_bytes(&report.server_key_share);
        let usable_key = match derive_key_from_shares(local_share, server_key_share) {
            Ok(k) => k,
            Err(_) => {
                return Err(AttestErrors::InvalidAttestation);
            },
        };
        let attestation_data = DynamicAttestationData {
            cert: &report.certificate,
            nonce,
            service_name: bin_name.clone(),
            current_bin_hash: report.certificate.binary_hash.clone(),
            server_key_share: crate::strbytes::copy_bytes(&report.server_key_share),
            client_id,
        };
        let sign_data_u8 = serialize_attestation_data(&attestation_data);
        let sig_bytes = match hex_decode_bytes(&string_bytes(&report.signature.0)) {
            Some(b) => b,
            None => {
                return Err(AttestErrors::InvalidAttestation);
            },
        };
        if !ed25519_verify(&self.allowed_keys, &sign_data_u8, &sig_bytes) {
            return Err(AttestErrors::InvalidAttestation);
        }
        Ok((client_id, usable_key))
    }
}

/// Draws the client's random 128-bit attestation nonce.
pub fn draw_nonce() -> (r: AttestResult<u128>)
    ensures
        r matches Err(e) ==> e == AttestErrors::CryptoError,
{
    let bytes = match fill_random(16) {
        Ok(b) => b,
        Err(e) => {
            return Err(e);
        },
    };
    Ok(u128_from_be_bytes(&bytes))
}

/// Prepares one attestation call: resolves the public service name to
/// its binary identifier, draws a nonce and generates the ephemeral
/// key share whose public half is sent to the sidecar.
pub fn prepare_attestation(verifier: &DynamicAttestationVerifier, service_name: &ServiceName)
    -> (r: AttestResult<(ServiceName, u128, EphemeralShare)>)
    ensures
        crate::store::name_lookup(verifier@.certs.service_to_bin, service_name@) is None ==> (
        r matches Err(e) && e == AttestErrors::ServiceMismatchError),
        r matches Ok(t) ==> crate::store::name_lookup(
            verifier@.certs.service_to_bin,
            service_name@,
        ) == Some(t.0@) && t.2@.len() == 32,
        r matches Err(e) ==> e == AttestErrors::ServiceMismatchError || e
            == AttestErrors::CryptoError,
{
    let bin = match verifier.certificate_handler().get_reverse_mapping(service_name) {
        Some(b) => b.clone(),
        None => {
            return Err(AttestErrors::ServiceMismatchError);
        },
    };
    let nonce = match draw_nonce() {
        Ok(n) => n,
        Err(e) => {
            return Err(e);
        },
    };
    let share = match compute_local_share() {
        Ok(s) => s,
        Err(e) => {
            return Err(e);
        },
    };
    Ok((bin, nonce, share))
}

/// Session-key agreement: the key the client derives from its own
/// ephemeral pair and the server's share equals the key the sidecar
/// derives from its ephemeral pair and the client's share.
pub proof fn lemma_session_key_agreement(
    client_key: Seq<u8>,
    server_key: Seq<u8>,
    client_share: Seq<u8>,
    server_share: Seq<u8>,
)
    requires
        client_key == session_key_of(client_share, server_share),
        server_key == session_key_of(server_share, client_share),
    ensures
        client_key == server_key,
{
    lemma_session_key_symmetric(client_share, server_share);
}

/// Attestation binding: where the sidecar measured the launched binary
/// at the report's current hash and the client's verification accepted
/// the report, the certificate's binary hash is the hash of the binary
/// on disk.
pub proof fn lemma_attestation_binding(
    report: crate::types::ReportView,
    binary_contents: Seq<u8>,
)
    requires
        report.current_bin_hash == hex_chars(sha256_of(binary_contents)),
        report.certificate.binary_hash == report.current_bin_hash,
    ensures
        report.certificate.binary_hash == hex_chars(sha256_of(binary_contents)),
{
}



} // verus!
