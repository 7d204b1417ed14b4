//! The data model shared by every component: names, hashes, signatures,
//! certificates and attestation reports.
//!
//! Each type carries a view onto plain mathematical values (character
//! and byte sequences), and the contracts of the whole library are
//! stated over those views.

use vstd::prelude::*;

use vstd::utf8::encode_utf8;

use crate::strbytes::string_bytes;

verus! {

/// An opaque printable service identifier; equality is byte-exact.
#[derive(Debug, Hash)]
pub struct ServiceName(pub String);

impl View for ServiceName {
    type V = Seq<char>;

    open spec fn view(&self) -> Seq<char> {
        self.0@
    }
}

impl DeepView for ServiceName {
    type V = Seq<char>;

    open spec fn deep_view(&self) -> Seq<char> {
        self.0@
    }
}

impl ServiceName {
    /// The UTF-8 bytes of the name.
    pub fn to_bytes(self) -> (r: Vec<u8>)
        ensures
            r@ == encode_utf8(self@),
    {
        string_bytes(&self.0)
    }
}

impl Clone for ServiceName {
    fn clone(&self) -> (r: Self)
        ensures
            r@ == self@,
    {
        ServiceName(self.0.clone())
    }
}

impl PartialEq for ServiceName {
    fn eq(&self, other: &Self) -> (r: bool) {
        self.0 == other.0
    }
}

impl vstd::std_specs::cmp::PartialEqSpecImpl for ServiceName {
    open spec fn obeys_eq_spec() -> bool {
        true
    }

    open spec fn eq_spec(&self, other: &Self) -> bool {
        self@ == other@
    }
}

/// The internal binary identifier a public service name resolves to.
#[derive(Debug, Hash)]
pub struct BinaryName(pub String);

impl View for BinaryName {
    type V = Seq<char>;

    open spec fn view(&self) -> Seq<char> {
        self.0@
    }
}

/// A crate's summary policy fingerprint, as lowercase hex.
#[derive(Debug)]
pub struct PolicyHash(pub String);

impl View for PolicyHash {
    type V = Seq<char>;

    open spec fn view(&self) -> Seq<char> {
        self.0@
    }
}

impl DeepView for PolicyHash {
    type V = Seq<char>;

    open spec fn deep_view(&self) -> Seq<char> {
        self.0@
    }
}

impl Clone for PolicyHash {
    fn clone(&self) -> (r: Self)
        ensures
            r@ == self@,
    {
        PolicyHash(self.0.clone())
    }
}

impl PartialEq for PolicyHash {
    fn eq(&self, other: &Self) -> (r: bool) {
        self.0 == other.0
    }
}

impl vstd::std_specs::cmp::PartialEqSpecImpl for PolicyHash {
    open spec fn obeys_eq_spec() -> bool {
        true
    }

    open spec fn eq_spec(&self, other: &Self) -> bool {
        self@ == other@
    }
}

/// The SHA-256 of an executable's contents, as lowercase hex.
#[derive(Debug)]
pub struct BinHash(pub String);

impl View for BinHash {
    type V = Seq<char>;

    open spec fn view(&self) -> Seq<char> {
        self.0@
    }
}

impl DeepView for BinHash {
    type V = Seq<char>;

    open spec fn deep_view(&self) -> Seq<char> {
        self.0@
    }
}

impl Clone for BinHash {
    fn clone(&self) -> (r: Self)
        ensures
            r@ == self@,
    {
        BinHash(self.0.clone())
    }
}

impl PartialEq for BinHash {
    fn eq(&self, other: &Self) -> (r: bool) {
        self.0 == other.0
    }
}

impl vstd::std_specs::cmp::PartialEqSpecImpl for BinHash {
    open spec fn obeys_eq_spec() -> bool {
        true
    }

    open spec fn eq_spec(&self, other: &Self) -> bool {
        self@ == other@
    }
}

/// An Ed25519 signature, as lowercase hex.
#[derive(Debug)]
pub struct Signature(pub String);

impl View for Signature {
    type V = Seq<char>;

    open spec fn view(&self) -> Seq<char> {
        self.0@
    }
}

impl Clone for Signature {
    fn clone(&self) -> (r: Self)
        ensures
            r@ == self@,
    {
        Signature(self.0.clone())
    }
}

impl PartialEq for Signature {
    fn eq(&self, other: &Self) -> (r: bool) {
        self.0 == other.0
    }
}

impl vstd::std_specs::cmp::PartialEqSpecImpl for Signature {
    open spec fn obeys_eq_spec() -> bool {
        true
    }

    open spec fn eq_spec(&self, other: &Self) -> bool {
        self@ == other@
    }
}

/// The mathematical content of a certificate.
#[verifier::ext_equal]
pub ghost struct CertView {
    pub service_name: Seq<char>,
    pub policy_hash: Seq<char>,
    pub binary_hash: Seq<char>,
    pub signature: Seq<char>,
}

/// The offline-signed binding of a service to its policy fingerprint
/// and binary hash.  Never mutated after issuance.
#[derive(Debug)]
pub struct TahiniCertificate {
    pub service_name: ServiceName,
    pub policy_hash: PolicyHash,
    pub binary_hash: BinHash,
    pub signature: Signature,
}

impl View for TahiniCertificate {
    type V = CertView;

    open spec fn view(&self) -> CertView {
        CertView {
            service_name: self.service_name@,
            policy_hash: self.policy_hash@,
            binary_hash: self.binary_hash@,
            signature: self.signature@,
        }
    }
}

impl Clone for TahiniCertificate {
    fn clone(&self) -> (r: Self)
        ensures
            r@ == self@,
    {
        TahiniCertificate {
            service_name: self.service_name.clone(),
            policy_hash: self.policy_hash.clone(),
            binary_hash: self.binary_hash.clone(),
            signature: self.signature.clone(),
        }
    }
}

impl PartialEq for TahiniCertificate {
    fn eq(&self, other: &Self) -> (r: bool) {
        self.service_name == other.service_name && self.policy_hash == other.policy_hash
            && self.binary_hash == other.binary_hash && self.signature == other.signature
    }
}

impl vstd::std_specs::cmp::PartialEqSpecImpl for TahiniCertificate {
    open spec fn obeys_eq_spec() -> bool {
        true
    }

    open spec fn eq_spec(&self, other: &Self) -> bool {
        self@ == other@
    }
}

/// A freshly minted per-attestation client identifier: 64 random bits.
#[derive(Debug, Clone, Copy, PartialEq, Eq, Hash, Structural)]
pub struct ClientId(pub u64);

impl View for ClientId {
    type V = u64;

    open spec fn view(&self) -> u64 {
        self.0
    }
}

/// The mathematical content of an attestation report.
#[verifier::ext_equal]
pub ghost struct ReportView {
    pub certificate: CertView,
    pub nonce: u128,
    pub service_name: Seq<char>,
    pub current_bin_hash: Seq<char>,
    pub server_key_share: Seq<u8>,
    pub client_id: u64,
    pub signature: Seq<char>,
}

/// The online, signed, per-request attestation message.
#[derive(Debug)]
pub struct DynamicAttestationReport {
    pub certificate: TahiniCertificate,
    pub nonce: u128,
    pub service_name: ServiceName,
    pub current_bin_hash: BinHash,
    pub server_key_share: Vec<u8>,
    pub client_id: ClientId,
    pub signature: Signature,
}

impl View for DynamicAttestationReport {
    type V = ReportView;

    open spec fn view(&self) -> ReportView {
        ReportView {
            certificate: self.certificate@,
            nonce: self.nonce,
            service_name: self.service_name@,
            current_bin_hash: self.current_bin_hash@,
            server_key_share: self.server_key_share@,
            client_id: self.client_id@,
            signature: self.signature@,
        }
    }
}

/// The mathematical content of the signing blob of a report: the report
/// minus its own signature.
#[verifier::ext_equal]
pub ghost struct AttestationDataView {
    pub cert: CertView,
    pub nonce: u128,
    pub service_name: Seq<char>,
    pub current_bin_hash: Seq<char>,
    pub server_key_share: Seq<u8>,
    pub client_id: u64,
}

/// The fields covered by a report's signature, in signing order.
pub struct DynamicAttestationData<'a> {
    pub cert: &'a TahiniCertificate,
    pub nonce: u128,
    pub service_name: ServiceName,
    pub current_bin_hash: BinHash,
    pub server_key_share: Vec<u8>,
    pub client_id: ClientId,
}

impl<'a> View for DynamicAttestationData<'a> {
    type V = AttestationDataView;

    open spec fn view(&self) -> AttestationDataView {
        AttestationDataView {
            cert: self.cert@,
            nonce: self.nonce,
            service_name: self.service_name@,
            current_bin_hash: self.current_bin_hash@,
            server_key_share: self.server_key_share@,
            client_id: self.client_id@,
        }
    }
}

} // verus!
