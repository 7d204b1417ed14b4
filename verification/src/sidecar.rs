//! The sidecar runtime: the per-host process that launches attested
//! services, re-hashes their binaries, answers attestation requests
//! with signed reports, and brokers session keys into each service
//! over its pipe.

use vstd::prelude::*;

use vstd::string::StringExecFns;

use crate::crypto::{
    aead_open_of, compute_local_share, derive_key_from_shares, ed25519_pub_of, ed25519_sign_of,
    ed25519_verifies, fill_random, session_key_of, sha256, sha256_of, sskdf_hmac_sha256, AeadKey,
    SigningKey,
};
use crate::decimal::u64_from_be_bytes;
use crate::documents::{attestation_blob, serialize_attestation_data};
use crate::errors::{AttestErrors, AttestResult};
use crate::fifoline::{encode_fifo_line, fifo_line};
use crate::hexcode::{hex_chars, hex_string};
use crate::store::{cert_lookup, name_lookup, CertificateLoader, CertificateProvider, LoaderView};
use crate::strbytes::string_bytes;
use crate::types::{
    AttestationDataView, BinHash, ClientId, DynamicAttestationData, DynamicAttestationReport,
    ReportView, ServiceName, Signature,
};

verus! {

/// The first pipe key recorded for a service.
pub open spec fn kek_lookup(m: Seq<(Seq<char>, Seq<u8>)>, k: Seq<char>) -> Option<Seq<u8>>
    decreases m.len(),
{
    if m.len() == 0 {
        None
    } else if m[0].0 == k {
        Some(m[0].1)
    } else {
        kek_lookup(m.skip(1), k)
    }
}

/// The signing blob of a report: its fields minus the signature.
pub open spec fn report_data_view(r: ReportView) -> AttestationDataView {
    AttestationDataView {
        cert: r.certificate,
        nonce: r.nonce,
        service_name: r.service_name,
        current_bin_hash: r.current_bin_hash,
        server_key_share: r.server_key_share,
        client_id: r.client_id,
    }
}

/// The mathematical content of the sidecar's shared state.
#[verifier::ext_equal]
pub ghost struct SideCarView {
    pub bin_map: Seq<(Seq<char>, Seq<char>)>,
    pub certs: LoaderView,
    pub signing_key: Seq<u8>,
    pub mapping: Seq<(Seq<char>, Seq<char>)>,
    pub sessions: Seq<(Seq<char>, Seq<u8>)>,
}

/// The sidecar's shared runtime state: the hash of each launched
/// binary, the certificate store, the attestation signing key, the
/// binary-to-service mapping, and the per-service pipe keys.
pub struct SideCarServer {
    service_bin_map: Vec<(ServiceName, BinHash)>,
    certificate_server: CertificateLoader,
    signing_key: SigningKey,
    service_mapping: Vec<(ServiceName, ServiceName)>,
    service_key_passing_sessions: Vec<(ServiceName, AeadKey)>,
}

impl View for SideCarServer {
    type V = SideCarView;

    closed spec fn view(&self) -> SideCarView {
        SideCarView {
            bin_map: Seq::new(
                self.service_bin_map@.len(),
                |i: int| (self.service_bin_map@[i].0@, self.service_bin_map@[i].1@),
            ),
            certs: self.certificate_server@,
            signing_key: self.signing_key@,
            mapping: Seq::new(
                self.service_mapping@.len(),
                |i: int| (self.service_mapping@[i].0@, self.service_mapping@[i].1@),
            ),
            sessions: Seq::new(
                self.service_key_passing_sessions@.len(),
                |i: int|
                    (
                        self.service_key_passing_sessions@[i].0@,
                        self.service_key_passing_sessions@[i].1@,
                    ),
            ),
        }
    }
}

/// The attestation RPC a sidecar answers.
pub trait AttestationService {
    fn attest_binary(&self, service_name: ServiceName, nonce: u128, key_share: Vec<u8>)
        -> AttestResult<(DynamicAttestationReport, ServiceName, Vec<u8>)>;
}

impl AttestationService for SideCarServer {
    fn attest_binary(&self, service_name: ServiceName, nonce: u128, key_share: Vec<u8>)
        -> AttestResult<(DynamicAttestationReport, ServiceName, Vec<u8>)> {
        self.answer_attestation(service_name, nonce, key_share)
    }
}

impl SideCarServer {
    /// Builds the sidecar state from its loaded certificate store,
    /// its attestation signing key and the binary-to-service mapping.
    pub fn new(
        certificate_server: CertificateLoader,
        signing_key: SigningKey,
        mapping: Vec<(ServiceName, ServiceName)>,
    ) -> (r: SideCarServer)
        ensures
            r@.bin_map =~= Seq::<(Seq<char>, Seq<char>)>::empty(),
            r@.certs == certificate_server@,
            r@.signing_key == signing_key@,
            r@.mapping =~= Seq::new(mapping@.len(), |i: int| (mapping@[i].0@, mapping@[i].1@)),
            r@.sessions =~= Seq::<(Seq<char>, Seq<u8>)>::empty(),
    {
        SideCarServer {
            service_bin_map: Vec::new(),
            certificate_server,
            signing_key,
            service_mapping: mapping,
            service_key_passing_sessions: Vec::new(),
        }
    }

    /// The measured binaries, for whoever wants to display them.
    pub fn running_binaries(&self) -> (r: &Vec<(ServiceName, BinHash)>)
        ensures
            Seq::new(r@.len(), |i: int| (r@[i].0@, r@[i].1@)) == self@.bin_map,
    {
        &self.service_bin_map
    }

    /// Records the content hash a launched binary was measured at.
    pub fn register_running_service(&mut self, service_name: ServiceName, hash: BinHash)
        ensures
            name_lookup(final(self)@.bin_map, service_name@) == Some(hash@),
            forall|k: Seq<char>|
                k != service_name@ ==> name_lookup(final(self)@.bin_map, k) == name_lookup(
                    #[trigger] old(self)@.bin_map,
                    k,
                ),
            final(self)@.certs == old(self)@.certs,
            final(self)@.signing_key == old(self)@.signing_key,
            final(self)@.mapping == old(self)@.mapping,
            final(self)@.sessions == old(self)@.sessions,
    {
        let ghost pre = self@.bin_map;
        self.service_bin_map.insert(0, (service_name, hash));
        proof {
            let post = self@.bin_map;
            assert(post.skip(1) =~= pre);
        }
    }

    /// Registers the pipe key of a freshly launched service; a service
    /// must not already hold one.
    pub fn setup_service_key_channel(&mut self, service_name: ServiceName, handler: AeadKey) -> (r:
        AttestResult<()>)
        ensures
            r is Ok <==> kek_lookup(old(self)@.sessions, service_name@) is None,
            r is Ok ==> kek_lookup(final(self)@.sessions, service_name@) == Some(handler@),
            r is Ok ==> forall|k: Seq<char>|
                k != service_name@ ==> kek_lookup(final(self)@.sessions, k) == kek_lookup(
                    #[trigger] old(self)@.sessions,
                    k,
                ),
            r matches Err(e) ==> e == AttestErrors::ConfigError && final(self)@ == old(self)@,
            r is Ok ==> final(self)@.certs == old(self)@.certs && final(self)@.signing_key == old(
                self,
            )@.signing_key && final(self)@.mapping == old(self)@.mapping && final(self)@.bin_map
                == old(self)@.bin_map,
    {
        if self.find_session(&service_name).is_some() {
            return Err(AttestErrors::ConfigError);
        }
        let ghost pre = self@.sessions;
        self.service_key_passing_sessions.insert(0, (service_name, handler));
        proof {
            let post = self@.sessions;
            assert(post.skip(1) =~= pre);
        }
        Ok(())
    }

    /// The pipe key held for a service, if any.
    fn find_session(&self, service_name: &ServiceName) -> (r: Option<&AeadKey>)
        ensures
            r matches Some(k) ==> kek_lookup(self@.sessions, service_name@) == Some(k@),
            r is None ==> kek_lookup(self@.sessions, service_name@) is None,
    {
        let ghost m = self@.sessions;
        proof {
            assert(m.skip(0) =~= m);
        }
        let mut i: usize = 0;
        while i < self.service_key_passing_sessions.len()
            invariant
                i <= m.len(),
                m == self@.sessions,
                kek_lookup(m, service_name@) == kek_lookup(m.skip(i as int), service_name@),
            decreases m.len() - i,
        {
            proof {
                assert(m.skip(i as int)[0] == m[i as int]);
                assert(m.skip(i as int).skip(1) =~= m.skip(i + 1));
            }
            if self.service_key_passing_sessions[i].0.eq(service_name) {
                proof {
                    assert(m[i as int].0 == service_name@);
                }
                return Some(&self.service_key_passing_sessions[i].1);
            }
            proof {
                assert(m[i as int].0 != service_name@);
            }
            i = i + 1;
        }
        proof {
            assert(m.skip(m.len() as int) =~= Seq::<(Seq<char>, Seq<u8>)>::empty());
        }
        None
    }

    /// The recorded hash of a launched binary, if any.
    fn find_bin_hash(&self, service_name: &ServiceName) -> (r: Option<&BinHash>)
        ensures
            r matches Some(h) ==> name_lookup(self@.bin_map, service_name@) == Some(h@),
            r is None ==> name_lookup(self@.bin_map, service_name@) is None,
    {
        let ghost m = self@.bin_map;
        proof {
            assert(m.skip(0) =~= m);
        }
        let mut i: usize = 0;
        while i < self.service_bin_map.len()
            invariant
                i <= m.len(),
                m == self@.bin_map,
                name_lookup(m, service_name@) == name_lookup(m.skip(i as int), service_name@),
            decreases m.len() - i,
        {
            proof {
                assert(m.skip(i as int)[0] == m[i as int]);
                assert(m.skip(i as int).skip(1) =~= m.skip(i + 1));
            }
            if self.service_bin_map[i].0.eq(service_name) {
                proof {
                    assert(m[i as int].0 == service_name@);
                }
                return Some(&self.service_bin_map[i].1);
            }
            proof {
                assert(m[i as int].0 != service_name@);
            }
            i = i + 1;
        }
        proof {
            assert(m.skip(m.len() as int) =~= Seq::<(Seq<char>, Seq<char>)>::empty());
        }
        None
    }

    /// The functional service living inside a binary, if mapped.
    fn find_mapping(&self, service_name: &ServiceName) -> (r: Option<&ServiceName>)
        ensures
            r matches Some(s) ==> name_lookup(self@.mapping, service_name@) == Some(s@),
            r is None ==> name_lookup(self@.mapping, service_name@) is None,
    {
        let ghost m = self@.mapping;
        proof {
            assert(m.skip(0) =~= m);
        }
        let mut i: usize = 0;
        while i < self.service_mapping.len()
            invariant
                i <= m.len(),
                m == self@.mapping,
                name_lookup(m, service_name@) == name_lookup(m.skip(i as int), service_name@),
            decreases m.len() - i,
        {
            proof {
                assert(m.skip(i as int)[0] == m[i as int]);
                assert(m.skip(i as int).skip(1) =~= m.skip(i + 1));
            }
            if self.service_mapping[i].0.eq(service_name) {
                proof {
                    assert(m[i as int].0 == service_name@);
                }
                return Some(&self.service_mapping[i].1);
            }
            proof {
                assert(m[i as int].0 != service_name@);
            }
            i = i + 1;
        }
        proof {
            assert(m.skip(m.len() as int) =~= Seq::<(Seq<char>, Seq<char>)>::empty());
        }
        None
    }

    /// Answers one attestation request.
    ///
    /// Resolves the binary's recorded hash and certificate, mints a
    /// random client identifier, completes the key agreement, signs
    /// the report blob, and encodes the pipe line that delivers the
    /// session key to the attested service.  The caller writes the
    /// returned line to the returned service's pipe and sends the
    /// report back to the client.
    pub fn answer_attestation(&self, service_name: ServiceName, nonce: u128, key_share: Vec<u8>)
        -> (r: AttestResult<(DynamicAttestationReport, ServiceName, Vec<u8>)>)
        ensures
            name_lookup(self@.bin_map, service_name@) is None ==> r == Err::<
                (DynamicAttestationReport, ServiceName, Vec<u8>),
                AttestErrors,
            >(AttestErrors::ServiceMismatchError),
            name_lookup(self@.bin_map, service_name@) is Some && cert_lookup(
                self@.certs.certificates,
                service_name@,
            ) is None ==> r == Err::<
                (DynamicAttestationReport, ServiceName, Vec<u8>),
                AttestErrors,
            >(AttestErrors::ServiceMismatchError),
            r matches Err(e) && e == AttestErrors::ServiceMismatchError ==> (name_lookup(
                self@.bin_map,
                service_name@,
            ) is None || cert_lookup(self@.certs.certificates, service_name@) is None
                || name_lookup(self@.mapping, service_name@) is None),
            r matches Err(e) && e == AttestErrors::ConfigError ==> (name_lookup(
                self@.mapping,
                service_name@,
            ) matches Some(fs) && kek_lookup(self@.sessions, fs) is None),
            r matches Err(e) ==> e == AttestErrors::ServiceMismatchError || e
                == AttestErrors::ConfigError || e == AttestErrors::CryptoError,
            r matches Ok(t) ==> {
                &&& name_lookup(self@.bin_map, service_name@) == Some(t.0@.current_bin_hash)
                &&& cert_lookup(self@.certs.certificates, service_name@) == Some(
                    t.0@.certificate,
                )
                &&& t.0@.nonce == nonce
                &&& t.0@.service_name == service_name@
                &&& t.0@.server_key_share.len() == 32
                &&& t.0@.signature == hex_chars(
                    ed25519_sign_of(
                        self@.signing_key,
                        attestation_blob(report_data_view(t.0@)),
                    ),
                )
                &&& ed25519_verifies(
                    ed25519_pub_of(self@.signing_key),
                    attestation_blob(report_data_view(t.0@)),
                    ed25519_sign_of(
                        self@.signing_key,
                        attestation_blob(report_data_view(t.0@)),
                    ),
                )
                &&& name_lookup(self@.mapping, service_name@) == Some(t.1@)
                &&& kek_lookup(self@.sessions, t.1@) is Some
                &&& exists|n: Seq<u8>, c: Seq<u8>|
                    t.2@ == fifo_line(n, c, t.0@.client_id) && n.len() == 12 && aead_open_of(
                        kek_lookup(self@.sessions, t.1@).unwrap(),
                        n,
                        c,
                    ) == Some(session_key_of(t.0@.server_key_share, key_share@))
            },
    {
        let bin = match self.find_bin_hash(&service_name) {
            Some(h) => h.clone(),
            None => {
                return Err(AttestErrors::ServiceMismatchError);
            },
        };
        let certificate = match self.certificate_server.lookup_certificate(&service_name) {
            Some(c) => c.clone(),
            None => {
                return Err(AttestErrors::ServiceMismatchError);
            },
        };
        let id_bytes = match fill_random(8) {
            Ok(b) => b,
            Err(e) => {
                return Err(e);
            },
        };
        let client_id = ClientId(u64_from_be_bytes(&id_bytes));
        let eph = match compute_local_share() {
            Ok(s) => s,
            Err(e) => {
                return Err(e);
            },
        };
        let server_share = eph.public_bytes();
        let remote = crate::strbytes::copy_bytes(&key_share);
        let session_key = match derive_key_from_shares(eph, remote) {
            Ok(k) => k,
            Err(e) => {
                return Err(e);
            },
        };
        let fifo_service = match self.find_mapping(&service_name) {
            Some(s) => s.clone(),
            None => {
                return Err(AttestErrors::ServiceMismatchError);
            },
        };
        let kek = match self.find_session(&fifo_service) {
            Some(k) => k,
            None => {
                return Err(AttestErrors::ConfigError);
            },
        };
        let ghost kek_bytes = kek@;
        let sealed = match kek.seal(&session_key) {
            Ok(p) => p,
            Err(e) => {
                return Err(e);
            },
        };
        let (seal_nonce, cipher) = sealed;
        let line = encode_fifo_line(&seal_nonce, &cipher, client_id.0);
        let signing_data = DynamicAttestationData {
            cert: &certificate,
            nonce,
            service_name: service_name.clone(),
            current_bin_hash: bin.clone(),
            server_key_share: crate::strbytes::copy_bytes(&server_share),
            client_id,
        };
        let blob = serialize_attestation_data(&signing_data);
        let sig = match self.signing_key.sign(&blob) {
            Ok(s) => s,
            Err(e) => {
                return Err(e);
            },
        };
        let report = DynamicAttestationReport {
            certificate,
            nonce,
            service_name,
            current_bin_hash: bin,
            server_key_share: server_share,
            client_id,
            signature: Signature(hex_string(&sig)),
        };
        proof {
            assert(report_data_view(report@) =~= signing_data@);
            assert(report@.server_key_share == server_share@);
            assert(session_key@ == session_key_of(report@.server_key_share, key_share@));
            assert(line@ == fifo_line(seal_nonce@, cipher@, report@.client_id));
            assert(seal_nonce@.len() == 12);
            assert(aead_open_of(kek_bytes, seal_nonce@, cipher@) == Some(
                session_key_of(report@.server_key_share, key_share@),
            ));
            assert(kek_lookup(self@.sessions, fifo_service@) == Some(kek_bytes));
        }
        Ok((report, fifo_service, line))
    }
}



/// The name of the pipe created inside a service's working directory.
pub fn format_fifo_path(dir_to_run: &String) -> (r: String)
    ensures
        r@ == dir_to_run@ + "/sidecar_fifo"@,
{
    let mut out = String::new();
    out.append(dir_to_run.as_str());
    out.append("/sidecar_fifo");
    out
}

/// Content-hashes each launched binary: the service name paired with
/// the lowercase hex SHA-256 of the binary's bytes.
pub fn hash_bins(bin_contents: Vec<(ServiceName, Vec<u8>)>) -> (r: Vec<(ServiceName, BinHash)>)
    ensures
        r.deep_view().len() == bin_contents@.len(),
        forall|i: int|
            0 <= i < r.deep_view().len() ==> #[trigger] r.deep_view()[i] == (
                bin_contents@[i].0@,
                hex_chars(sha256_of(bin_contents@[i].1@)),
            ),
        forall|i: int|
            0 <= i < r.deep_view().len() ==> (#[trigger] r.deep_view()[i]).1.len() == 64,
{
    let mut r: Vec<(ServiceName, BinHash)> = Vec::new();
    let mut i: usize = 0;
    while i < bin_contents.len()
        invariant
            i <= bin_contents@.len(),
            r.deep_view().len() == i,
            forall|j: int|
                0 <= j < i ==> #[trigger] r.deep_view()[j] == (
                    bin_contents@[j].0@,
                    hex_chars(sha256_of(bin_contents@[j].1@)),
                ),
            forall|j: int|
                0 <= j < i ==> (#[trigger] r.deep_view()[j]).1.len() == 64,
        decreases bin_contents@.len() - i,
    {
        let digest = sha256(&bin_contents[i].1);
        let hex = hex_string(&digest);
        let ghost pre = r.deep_view();
        r.push((bin_contents[i].0.clone(), BinHash(hex)));
        proof {
            assert(r.deep_view() =~= pre.push((
                bin_contents@[i as int].0@,
                hex_chars(sha256_of(bin_contents@[i as int].1@)),
            )));
        }
        i = i + 1;
    }
    r
}

/// Derives a fresh pipe key-encryption key for a service: random key
/// material and salt, bound to the pipe's path, and its hex form for
/// the service's command line.
pub fn derive_pipe_key(fifo_path: &String) -> (r: AttestResult<(AeadKey, String)>)
    ensures
        r matches Ok(t) ==> t.0@.len() == 32 && t.1@ == hex_chars(t.0@),
        r matches Err(e) ==> e == AttestErrors::CryptoError,
{
    let ikm = match fill_random(32) {
        Ok(b) => b,
        Err(e) => {
            return Err(e);
        },
    };
    let salt = match fill_random(32) {
        Ok(b) => b,
        Err(e) => {
            return Err(e);
        },
    };
    let info = string_bytes(fifo_path);
    let derived = match sskdf_hmac_sha256(&ikm, &salt, &info) {
        Ok(d) => d,
        Err(e) => {
            return Err(e);
        },
    };
    let hex = hex_string(&derived);
    let key = match AeadKey::new(derived) {
        Ok(k) => k,
        Err(e) => {
            return Err(e);
        },
    };
    Ok((key, hex))
}

} // verus!
