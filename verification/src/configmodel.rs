//! The config materializer: expanding a project metadata document into
//! the certificate-lookup config and the sidecar runtime config, and
//! the sidecar's view of the latter.

use vstd::prelude::*;

use vstd::string::StringExecFns;

use crate::types::ServiceName;

verus! {

/// Where a binary lives and where it runs.
#[derive(Debug)]
pub struct BinaryConfig {
    pub bin_path: String,
    pub run_path: String,
}

impl DeepView for BinaryConfig {
    type V = (Seq<char>, Seq<char>);

    open spec fn deep_view(&self) -> (Seq<char>, Seq<char>) {
        (self.bin_path@, self.run_path@)
    }
}

impl Clone for BinaryConfig {
    fn clone(&self) -> (r: Self)
        ensures
            r.deep_view() == self.deep_view(),
    {
        BinaryConfig { bin_path: self.bin_path.clone(), run_path: self.run_path.clone() }
    }
}

/// The project metadata document: the binary table and the
/// binary-to-service mapping.
#[derive(Debug)]
pub struct MetadataConfig {
    pub binaries: Vec<(String, BinaryConfig)>,
    pub service_mapping: Vec<(String, String)>,
}

/// The certificate-lookup config: the absolute certificate path of
/// each binary, plus the service mapping.
#[derive(Debug)]
pub struct CertificateConfig {
    pub certificates: Vec<(String, String)>,
    pub service_mapping: Vec<(String, String)>,
}

/// The sidecar runtime config: the binary table, a pointer to the
/// certificate config, the signing-key path, and the service mapping.
#[derive(Debug)]
pub struct RuntimeConfig {
    pub binaries: Vec<(String, BinaryConfig)>,
    pub certificates_config: String,
    pub signing_key: String,
    pub service_mapping: Vec<(String, String)>,
}

/// The certificate path written for one binary.
pub open spec fn cert_path_of(cert_dir: Seq<char>, bin: Seq<char>) -> Seq<char> {
    cert_dir + "/"@ + bin + "_certificate.json"@
}

impl MetadataConfig {
    /// Expands the metadata into the certificate-lookup config: each
    /// binary's certificate is expected under the certificates
    /// directory as `<binary>_certificate.json`.
    pub fn parse_to_cert_conf(&self, cert_path: &String) -> (r: CertificateConfig)
        ensures
            r.certificates.deep_view().len() == self.binaries.deep_view().len(),
            forall|i: int|
                0 <= i < r.certificates.deep_view().len()
                    ==> #[trigger] r.certificates.deep_view()[i] == (
                    self.binaries.deep_view()[i].0,
                    cert_path_of(cert_path@, self.binaries.deep_view()[i].0),
                ),
            r.service_mapping.deep_view() == self.service_mapping.deep_view(),
    {
        let mut table: Vec<(String, String)> = Vec::new();
        let mut i: usize = 0;
        while i < self.binaries.len()
            invariant
                i <= self.binaries@.len(),
                table.deep_view().len() == i,
                forall|j: int|
                    0 <= j < i ==> #[trigger] table.deep_view()[j] == (
                        self.binaries.deep_view()[j].0,
                        cert_path_of(cert_path@, self.binaries.deep_view()[j].0),
                    ),
            decreases self.binaries@.len() - i,
        {
            let mut full_path = String::new();
            full_path.append(cert_path.as_str());
            full_path.append("/");
            full_path.append(self.binaries[i].0.as_str());
            full_path.append("_certificate.json");
            let ghost pre = table.deep_view();
            table.push((self.binaries[i].0.clone(), full_path));
            proof {
                assert(table.deep_view() =~= pre.push((
                    self.binaries.deep_view()[i as int].0,
                    cert_path_of(cert_path@, self.binaries.deep_view()[i as int].0),
                )));
            }
            i = i + 1;
        }
        CertificateConfig {
            certificates: table,
            service_mapping: clone_string_pairs(&self.service_mapping),
        }
    }

    /// Expands the metadata into the sidecar runtime config.
    pub fn parse_to_runtime_conf(self, certif_config_path: String, key_signing_path: String)
        -> (r: RuntimeConfig)
        ensures
            r.binaries.deep_view() == self.binaries.deep_view(),
            r.certificates_config@ == certif_config_path@,
            r.signing_key@ == key_signing_path@,
            r.service_mapping.deep_view() == self.service_mapping.deep_view(),
    {
        RuntimeConfig {
            binaries: self.binaries,
            certificates_config: certif_config_path,
            signing_key: key_signing_path,
            service_mapping: self.service_mapping,
        }
    }
}

/// The sidecar's own view of its runtime config.
#[derive(Debug)]
pub struct SideCarConfig {
    binaries: Vec<(String, BinaryConfig)>,
    certificates_config: String,
    signing_key: String,
    service_mapping: Vec<(ServiceName, ServiceName)>,
}

/// The mathematical content of a sidecar config.
#[verifier::ext_equal]
pub ghost struct SideCarConfigView {
    pub binaries: Seq<(Seq<char>, (Seq<char>, Seq<char>))>,
    pub certificates_config: Seq<char>,
    pub signing_key: Seq<char>,
    pub service_mapping: Seq<(Seq<char>, Seq<char>)>,
}

impl View for SideCarConfig {
    type V = SideCarConfigView;

    closed spec fn view(&self) -> SideCarConfigView {
        SideCarConfigView {
            binaries: self.binaries.deep_view(),
            certificates_config: self.certificates_config@,
            signing_key: self.signing_key@,
            service_mapping: self.service_mapping.deep_view(),
        }
    }
}

impl SideCarConfig {
    /// Assembles the config from its parsed parts.
    pub fn new(
        binaries: Vec<(String, BinaryConfig)>,
        certificates_config: String,
        signing_key: String,
        service_mapping: Vec<(ServiceName, ServiceName)>,
    ) -> (r: SideCarConfig)
        ensures
            r@.binaries == binaries.deep_view(),
            r@.certificates_config == certificates_config@,
            r@.signing_key == signing_key@,
            r@.service_mapping == service_mapping.deep_view(),
    {
        SideCarConfig { binaries, certificates_config, signing_key, service_mapping }
    }

    /// The path of the attestation signing key.
    pub fn get_key_path(&self) -> (r: &String)
        ensures
            r@ == self@.signing_key,
    {
        &self.signing_key
    }

    /// The path of the certificate-lookup config.
    pub fn get_certificate_config_path(&self) -> (r: &String)
        ensures
            r@ == self@.certificates_config,
    {
        &self.certificates_config
    }

    /// The binary table.
    pub fn get_binaries(&self) -> (r: &Vec<(String, BinaryConfig)>)
        ensures
            r.deep_view() == self@.binaries,
    {
        &self.binaries
    }

    /// The whole binary-to-service mapping.
    pub fn yield_mapping(&self) -> (r: &Vec<(ServiceName, ServiceName)>)
        ensures
            r.deep_view() == self@.service_mapping,
    {
        &self.service_mapping
    }

    /// The service living inside a binary, if mapped.
    pub fn get_service_name(&self, binary_name: &ServiceName) -> (r: Option<&ServiceName>)
        ensures
            r matches Some(s) ==> crate::store::name_lookup(self@.service_mapping, binary_name@)
                == Some(s@),
            r is None ==> crate::store::name_lookup(self@.service_mapping, binary_name@) is None,
    {
        let ghost m = self@.service_mapping;
        proof {
            assert(m.skip(0) =~= m);
        }
        let mut i: usize = 0;
        while i < self.service_mapping.len()
            invariant
                i <= m.len(),
                m == self@.service_mapping,
                crate::store::name_lookup(m, binary_name@) == crate::store::name_lookup(
                    m.skip(i as int),
                    binary_name@,
                ),
            decreases m.len() - i,
        {
            proof {
                assert(m.skip(i as int)[0] == m[i as int]);
                assert(m.skip(i as int).skip(1) =~= m.skip(i + 1));
            }
            if self.service_mapping[i].0.eq(binary_name) {
                proof {
                    assert(m[i as int].0 == binary_name@);
                }
                return Some(&self.service_mapping[i].1);
            }
            proof {
                assert(m[i as int].0 != binary_name@);
            }
            i = i + 1;
        }
        proof {
            assert(m.skip(m.len() as int) =~= Seq::<(Seq<char>, Seq<char>)>::empty());
        }
        None
    }
}

/// Copies a table of string pairs.
fn clone_string_pairs(v: &Vec<(String, String)>) -> (r: Vec<(String, String)>)
    ensures
        r.deep_view() == v.deep_view(),
{
    let mut r: Vec<(String, String)> = Vec::new();
    let mut i: usize = 0;
    while i < v.len()
        invariant
            i <= v@.len(),
            r.deep_view() =~= v.deep_view().subrange(0, i as int),
        decreases v@.len() - i,
    {
        let ghost pre = r.deep_view();
        r.push((v[i].0.clone(), v[i].1.clone()));
        proof {
            assert(r.deep_view() =~= pre.push(v.deep_view()[i as int]));
            assert(v.deep_view().subrange(0, i + 1) =~= v.deep_view().subrange(0, i as int).push(
                v.deep_view()[i as int],
            ));
        }
        i = i + 1;
    }
    proof {
        assert(r.deep_view() =~= v.deep_view());
    }
    r
}

} // verus!
