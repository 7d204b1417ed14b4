//! The in-memory certificate store: verified certificates by service
//! name, the accepted certificate-issuer public key, and the mapping
//! from public service names to internal binary identifiers.

use vstd::prelude::*;

use crate::errors::{AttestErrors, AttestResult};
use crate::types::{CertView, ServiceName, TahiniCertificate};

verus! {

/// The first certificate recorded for a name.
pub open spec fn cert_lookup(m: Seq<(Seq<char>, CertView)>, k: Seq<char>) -> Option<CertView>
    decreases m.len(),
{
    if m.len() == 0 {
        None
    } else if m[0].0 == k {
        Some(m[0].1)
    } else {
        cert_lookup(m.skip(1), k)
    }
}

/// The first name recorded for a name.
pub open spec fn name_lookup(m: Seq<(Seq<char>, Seq<char>)>, k: Seq<char>) -> Option<Seq<char>>
    decreases m.len(),
{
    if m.len() == 0 {
        None
    } else if m[0].0 == k {
        Some(m[0].1)
    } else {
        name_lookup(m.skip(1), k)
    }
}

/// The binary a service resolves to after registering the given
/// `(binary, service)` mapping entries in order: the last entry for
/// the service wins, as each registration overwrites the one before.
pub open spec fn registered_bin(m: Seq<(Seq<char>, Seq<char>)>, service: Seq<char>) -> Option<
    Seq<char>,
>
    decreases m.len(),
{
    if m.len() == 0 {
        None
    } else if m.last().1 == service {
        Some(m.last().0)
    } else {
        registered_bin(m.drop_last(), service)
    }
}

/// The mathematical content of a certificate store.
#[verifier::ext_equal]
pub ghost struct LoaderView {
    pub certificates: Seq<(Seq<char>, CertView)>,
    pub accepted_key: Option<Seq<u8>>,
    pub service_to_bin: Seq<(Seq<char>, Seq<char>)>,
}

/// The certificate store.
pub struct CertificateLoader {
    certificates: Vec<(ServiceName, TahiniCertificate)>,
    accepted_keys: Option<Vec<u8>>,
    service_to_bin: Vec<(ServiceName, ServiceName)>,
}

impl View for CertificateLoader {
    type V = LoaderView;

    closed spec fn view(&self) -> LoaderView {
        LoaderView {
            certificates: Seq::new(
                self.certificates@.len(),
                |i: int| (self.certificates@[i].0@, self.certificates@[i].1@),
            ),
            accepted_key: match self.accepted_keys {
                Some(ref k) => Some(k@),
                None => None,
            },
            service_to_bin: Seq::new(
                self.service_to_bin@.len(),
                |i: int| (self.service_to_bin@[i].0@, self.service_to_bin@[i].1@),
            ),
        }
    }
}

/// Yields certificates to whoever serves attestation requests.
pub trait CertificateProvider {
    fn get_certificate(&self, service_name: &ServiceName) -> Option<&TahiniCertificate>;
}

impl CertificateProvider for CertificateLoader {
    fn get_certificate(&self, service_name: &ServiceName) -> Option<&TahiniCertificate> {
        self.lookup_certificate(service_name)
    }
}

impl CertificateLoader {
    /// An empty store.
    pub fn new() -> (r: CertificateLoader)
        ensures
            r@.certificates =~= Seq::<(Seq<char>, CertView)>::empty(),
            r@.accepted_key is None,
            r@.service_to_bin =~= Seq::<(Seq<char>, Seq<char>)>::empty(),
    {
        CertificateLoader {
            certificates: Vec::new(),
            accepted_keys: None,
            service_to_bin: Vec::new(),
        }
    }

    /// Registers a parsed certificate under a service name, rejecting
    /// it where its embedded name disagrees with the lookup key.
    /// Returns whether the name was fresh.
    pub fn register_service(&mut self, certificate: TahiniCertificate, service_name: ServiceName)
        -> (r: AttestResult<bool>)
        ensures
            r is Ok <==> certificate@.service_name == service_name@,
            r matches Err(e) ==> e == AttestErrors::ServiceMismatchError && final(self)@ == old(
                self,
            )@,
            r matches Ok(fresh) ==> {
                &&& fresh <==> cert_lookup(old(self)@.certificates, service_name@) is None
                &&& cert_lookup(final(self)@.certificates, service_name@) == Some(certificate@)
                &&& forall|k: Seq<char>|
                    k != service_name@ ==> cert_lookup(final(self)@.certificates, k)
                        == cert_lookup(#[trigger] old(self)@.certificates, k)
                &&& final(self)@.accepted_key == old(self)@.accepted_key
                &&& final(self)@.service_to_bin == old(self)@.service_to_bin
            },
    {
        if !certificate.service_name.eq(&service_name) {
            return Err(AttestErrors::ServiceMismatchError);
        }
        let ghost pre = self@.certificates;
        let mut i: usize = 0;
        proof {
            assert(pre.skip(0) =~= pre);
        }
        while i < self.certificates.len()
            invariant
                i <= pre.len(),
                self@.certificates == pre,
                self@ == old(self)@,
                certificate@.service_name == service_name@,
                forall|j: int| 0 <= j < i ==> #[trigger] pre[j].0 != service_name@,
                forall|k: Seq<char>| cert_lookup(pre, k) == cert_lookup(pre.skip(i as int), k)
                    || (exists|j: int| 0 <= j < i && #[trigger] pre[j].0 == k),
            decreases pre.len() - i,
        {
            proof {
                assert(pre.skip(i as int)[0] == pre[i as int]);
                assert(pre.skip(i as int).skip(1) =~= pre.skip(i + 1));
            }
            if self.certificates[i].0.eq(&service_name) {
                proof {
                    assert(pre[i as int].0 == service_name@);
                }
                self.certificates.set(i, (service_name, certificate));
                proof {
                    let post = self@.certificates;
                    assert(post.len() == pre.len());
                    assert(post[i as int].0 == service_name@);
                    assert forall|j: int| 0 <= j < i implies #[trigger] post[j].0
                        != post[i as int].0 by {
                        assert(post[j] == pre[j]);
                    }
                    assert forall|k: Seq<char>|
                        k != pre[i as int].0 implies cert_lookup(post, k) == cert_lookup(
                        pre,
                        k,
                    ) by {
                        lemma_cert_lookup_set(pre, post, i as int, k);
                    }
                    assert(cert_lookup(post, post[i as int].0) == Some(post[i as int].1)) by {
                        lemma_cert_lookup_hit(post, i as int);
                    }
                    assert(cert_lookup(pre, pre[i as int].0) == Some(pre[i as int].1)) by {
                        lemma_cert_lookup_hit(pre, i as int);
                    }
                }
                return Ok(false);
            }
            proof {
                assert(pre[i as int].0 != service_name@);
            }
            i = i + 1;
        }
        proof {
            assert(pre.skip(pre.len() as int) =~= Seq::<(Seq<char>, CertView)>::empty());
            assert(cert_lookup(pre, service_name@) is None) by {
                if exists|j: int| 0 <= j < pre.len() && #[trigger] pre[j].0 == service_name@ {
                    let j = choose|j: int| 0 <= j < pre.len() && #[trigger] pre[j].0
                        == service_name@;
                }
            }
        }
        let ghost cert_view = certificate@;
        self.certificates.push((service_name, certificate));
        proof {
            let post = self@.certificates;
            assert(post =~= pre.push((post[pre.len() as int].0, post[pre.len() as int].1)));
            assert forall|k: Seq<char>| true implies cert_lookup(post, k) == (if cert_lookup(
                pre,
                k,
            ) is Some {
                cert_lookup(pre, k)
            } else if post[pre.len() as int].0 == k {
                Some(post[pre.len() as int].1)
            } else {
                None
            }) by {
                lemma_cert_lookup_push(pre, post[pre.len() as int], k);
                assert(post =~= pre.push(post[pre.len() as int]));
            }
        }
        Ok(true)
    }

    /// Loads the accepted certificate-issuer public key from the DER
    /// bytes of its public-key document: the key material is the last
    /// 32 bytes.  Loading happens once; later calls are no-ops.
    pub fn load_certificate_key(&mut self, pkey_bytes: Vec<u8>) -> (r: AttestResult<bool>)
        ensures
            old(self)@.accepted_key is Some ==> r == Ok::<bool, AttestErrors>(false) && final(self)@ == old(self)@,
            old(self)@.accepted_key is None && pkey_bytes@.len() < 32 ==> r == Err::<
                bool,
                AttestErrors,
            >(AttestErrors::AttestDataMalformedError) && final(self)@ == old(self)@,
            old(self)@.accepted_key is None && pkey_bytes@.len() >= 32 ==> r == Ok::<
                bool,
                AttestErrors,
            >(true) && final(self)@.accepted_key == Some(
                pkey_bytes@.skip(pkey_bytes@.len() - 32),
            ) && final(self)@.certificates == old(self)@.certificates && final(self)@.service_to_bin == old(self)@.service_to_bin,
    {
        if self.accepted_keys.is_some() {
            return Ok(false);
        }
        if pkey_bytes.len() < 32 {
            return Err(AttestErrors::AttestDataMalformedError);
        }
        let start = pkey_bytes.len() - 32;
        let mut key: Vec<u8> = Vec::new();
        let mut i = start;
        while i < pkey_bytes.len()
            invariant
                start <= i <= pkey_bytes@.len(),
                start == pkey_bytes@.len() - 32,
                key@ =~= pkey_bytes@.subrange(start as int, i as int),
            decreases pkey_bytes@.len() - i,
        {
            key.push(pkey_bytes[i]);
            proof {
                assert(pkey_bytes@.subrange(start as int, i + 1) =~= pkey_bytes@.subrange(
                    start as int,
                    i as int,
                ).push(pkey_bytes@[i as int]));
            }
            i = i + 1;
        }
        proof {
            assert(key@ =~= pkey_bytes@.skip(pkey_bytes@.len() - 32));
        }
        self.accepted_keys = Some(key);
        Ok(true)
    }

    /// The accepted public key, if one was loaded.
    pub fn get_key(&self) -> (r: &Option<Vec<u8>>)
        ensures
            r is Some <==> self@.accepted_key is Some,
            r matches Some(k) ==> self@.accepted_key == Some(k@),
    {
        &self.accepted_keys
    }

    /// Records that the public service name resolves to the given
    /// internal binary identifier.
    pub fn register_bin_mapping(&mut self, bin: ServiceName, service: ServiceName)
        ensures
            final(self)@.certificates == old(self)@.certificates,
            final(self)@.accepted_key == old(self)@.accepted_key,
            name_lookup(final(self)@.service_to_bin, service@) == Some(bin@),
            forall|k: Seq<char>|
                k != service@ ==> name_lookup(final(self)@.service_to_bin, k) == name_lookup(
                    #[trigger] old(self)@.service_to_bin,
                    k,
                ),
    {
        let ghost pre = self@.service_to_bin;
        self.service_to_bin.insert(0, (service, bin));
        proof {
            let post = self@.service_to_bin;
            assert(post =~= seq![post[0]] + pre);
            assert forall|k: Seq<char>| true implies name_lookup(post, k) == (if post[0].0
                == k {
                Some(post[0].1)
            } else {
                name_lookup(pre, k)
            }) by {
                assert(post.skip(1) =~= pre);
            }
        }
    }

    /// Resolves a public service name into the binary identifier the
    /// sidecar knows it by.
    pub fn get_reverse_mapping(&self, service_name: &ServiceName) -> (r: Option<&ServiceName>)
        ensures
            r matches Some(b) ==> name_lookup(self@.service_to_bin, service_name@) == Some(b@),
            r is None ==> name_lookup(self@.service_to_bin, service_name@) is None,
    {
        let ghost m = self@.service_to_bin;
        proof {
            assert(m.skip(0) =~= m);
        }
        let mut i: usize = 0;
        while i < self.service_to_bin.len()
            invariant
                i <= m.len(),
                m == self@.service_to_bin,
                name_lookup(m, service_name@) == name_lookup(m.skip(i as int), service_name@),
            decreases m.len() - i,
        {
            proof {
                assert(m.skip(i as int)[0] == m[i as int]);
                assert(m.skip(i as int).skip(1) =~= m.skip(i + 1));
            }
            if self.service_to_bin[i].0.eq(service_name) {
                proof {
                    assert(m[i as int].0 == service_name@);
                }
                return Some(&self.service_to_bin[i].1);
            }
            proof {
                assert(m[i as int].0 != service_name@);
            }
            i = i + 1;
        }
        proof {
            assert(m.skip(m.len() as int) =~= Seq::<(Seq<char>, Seq<char>)>::empty());
        }
        None
    }

    /// The certificate recorded for a service, if any.
    pub fn lookup_certificate(&self, service_name: &ServiceName) -> (r: Option<
        &TahiniCertificate,
    >)
        ensures
            r matches Some(c) ==> cert_lookup(self@.certificates, service_name@) == Some(c@),
            r is None ==> cert_lookup(self@.certificates, service_name@) is None,
    {
        let ghost m = self@.certificates;
        proof {
            assert(m.skip(0) =~= m);
        }
        let mut i: usize = 0;
        while i < self.certificates.len()
            invariant
                i <= m.len(),
                m == self@.certificates,
                cert_lookup(m, service_name@) == cert_lookup(m.skip(i as int), service_name@),
            decreases m.len() - i,
        {
            proof {
                assert(m.skip(i as int)[0] == m[i as int]);
                assert(m.skip(i as int).skip(1) =~= m.skip(i + 1));
            }
            if self.certificates[i].0.eq(service_name) {
                proof {
                    assert(m[i as int].0 == service_name@);
                }
                return Some(&self.certificates[i].1);
            }
            proof {
                assert(m[i as int].0 != service_name@);
            }
            i = i + 1;
        }
        proof {
            assert(m.skip(m.len() as int) =~= Seq::<(Seq<char>, CertView)>::empty());
        }
        None
    }

    /// Rebuilds a store from configuration entries: the issuer public
    /// key document (if one is configured), the service mapping, and
    /// the parsed certificates keyed by service name.
    pub fn from_config(
        key_bytes: Option<Vec<u8>>,
        mappings: Vec<(ServiceName, ServiceName)>,
        certs: Vec<(ServiceName, TahiniCertificate)>,
    ) -> (r: AttestResult<CertificateLoader>)
        ensures
            r matches Err(e) ==> e == AttestErrors::ServiceMismatchError || e
                == AttestErrors::AttestDataMalformedError,
            key_bytes matches Some(kb) && kb@.len() < 32 ==> r == Err::<
                CertificateLoader,
                AttestErrors,
            >(AttestErrors::AttestDataMalformedError),
        // loading succeeds exactly where the key document (if given) is
        // long enough and every certificate's embedded name agrees with
        // its table key
            r is Ok <==> ((key_bytes matches Some(kb) ==> kb@.len() >= 32) && (forall|i: int|
                0 <= i < certs@.len() ==> (#[trigger] certs@[i].1)@.service_name
                    == certs@[i].0@)),
        // a successful load holds every given certificate under its
        // name, resolves each mapped service to its last registered
        // binary, and holds the key exactly where one was given
            r matches Ok(loader) ==> forall|i: int|
                0 <= i < certs@.len() ==> cert_lookup(
                    loader@.certificates,
                    #[trigger] certs@[i].0@,
                ) is Some,
            r matches Ok(loader) ==> forall|k: Seq<char>|
                #[trigger] name_lookup(loader@.service_to_bin, k) == registered_bin(
                    mappings.deep_view(),
                    k,
                ),
            r matches Ok(loader) ==> (loader@.accepted_key is Some <==> key_bytes is Some),
    {
        let mut loader = CertificateLoader::new();
        match &key_bytes {
            None => {},
            Some(kb) => {
                match loader.load_certificate_key(kb.clone()) {
                    Ok(_) => {},
                    Err(e) => {
                        return Err(e);
                    },
                }
            },
        }
        let ghost map_dv = mappings.deep_view();
        proof {
            assert forall|k: Seq<char>|
                #[trigger] name_lookup(loader@.service_to_bin, k) == registered_bin(
                    map_dv.subrange(0, 0),
                    k,
                ) by {
                assert(map_dv.subrange(0, 0) =~= Seq::<(Seq<char>, Seq<char>)>::empty());
            }
        }
        let mut i: usize = 0;
        while i < mappings.len()
            invariant
                i <= map_dv.len(),
                map_dv == mappings.deep_view(),
                map_dv.len() == mappings@.len(),
                key_bytes matches Some(kb) ==> kb@.len() >= 32,
                loader@.accepted_key is Some <==> key_bytes is Some,
                forall|k: Seq<char>|
                    #[trigger] name_lookup(loader@.service_to_bin, k) == registered_bin(
                        map_dv.subrange(0, i as int),
                        k,
                    ),
            decreases mappings@.len() - i,
        {
            let bin = mappings[i].0.clone();
            let service = mappings[i].1.clone();
            proof {
                assert(map_dv[i as int] == (bin@, service@));
            }
            let ghost pre_map = loader@.service_to_bin;
            loader.register_bin_mapping(bin, service);
            proof {
                let prefix = map_dv.subrange(0, i as int);
                let next = map_dv.subrange(0, i + 1);
                assert(next =~= prefix.push(map_dv[i as int]));
                assert forall|k: Seq<char>|
                    #[trigger] name_lookup(loader@.service_to_bin, k) == registered_bin(
                        next,
                        k,
                    ) by {
                    assert(next.drop_last() =~= prefix);
                    assert(next.last() == map_dv[i as int]);
                    if k != map_dv[i as int].1 {
                        assert(name_lookup(loader@.service_to_bin, k) == name_lookup(
                            pre_map,
                            k,
                        ));
                    }
                }
            }
            i = i + 1;
        }
        proof {
            assert(map_dv.subrange(0, map_dv.len() as int) =~= map_dv);
        }
        let mut j: usize = 0;
        while j < certs.len()
            invariant
                key_bytes matches Some(kb) ==> kb@.len() >= 32,
                j <= certs@.len(),
                loader@.accepted_key is Some <==> key_bytes is Some,
                forall|k: Seq<char>|
                    #[trigger] name_lookup(loader@.service_to_bin, k) == registered_bin(
                        mappings.deep_view(),
                        k,
                    ),
                forall|m: int|
                    0 <= m < j ==> (#[trigger] certs@[m].1)@.service_name == certs@[m].0@,
                forall|m: int|
                    0 <= m < j ==> cert_lookup(
                        loader@.certificates,
                        #[trigger] certs@[m].0@,
                    ) is Some,
            decreases certs@.len() - j,
        {
            let name = certs[j].0.clone();
            let cert = certs[j].1.clone();
            proof {
                assert(name@ == certs@[j as int].0@);
            }
            match loader.register_service(cert, name) {
                Ok(_) => {},
                Err(e) => {
                    proof {
                        assert(!((certs@[j as int].1)@.service_name == certs@[j as int].0@));
                    }
                    return Err(e);
                },
            }
            j = j + 1;
        }
        Ok(loader)
    }
}

/// Looking a key up lands on the first pair carrying it.
proof fn lemma_cert_lookup_hit(m: Seq<(Seq<char>, CertView)>, i: int)
    requires
        0 <= i < m.len(),
        forall|j: int| 0 <= j < i ==> #[trigger] m[j].0 != m[i].0,
    ensures
        cert_lookup(m, m[i].0) == Some(m[i].1),
    decreases i,
{
    if i == 0 {
    } else {
        assert(m.skip(1)[i - 1] == m[i]);
        assert forall|j: int| 0 <= j < i - 1 implies #[trigger] m.skip(1)[j].0 != m.skip(
            1,
        )[i - 1].0 by {
            assert(m.skip(1)[j] == m[j + 1]);
        }
        lemma_cert_lookup_hit(m.skip(1), i - 1);
    }
}

/// Replacing the pair at a position touches no other key's lookup.
proof fn lemma_cert_lookup_set(
    pre: Seq<(Seq<char>, CertView)>,
    post: Seq<(Seq<char>, CertView)>,
    i: int,
    k: Seq<char>,
)
    requires
        pre.len() == post.len(),
        0 <= i < pre.len(),
        forall|j: int| 0 <= j < pre.len() && j != i ==> post[j] == #[trigger] pre[j],
        post[i].0 == pre[i].0,
        k != pre[i].0,
    ensures
        cert_lookup(post, k) == cert_lookup(pre, k),
    decreases pre.len(),
{
    if pre.len() > 0 {
        if i == 0 {
            assert(post.skip(1) =~= pre.skip(1));
        } else {
            assert(post[0] == pre[0]);
            if pre[0].0 != k {
                assert forall|j: int| 0 <= j < pre.skip(1).len() && j != i - 1 implies
                    post.skip(1)[j] == #[trigger] pre.skip(1)[j] by {
                    assert(pre.skip(1)[j] == pre[j + 1]);
                    assert(post.skip(1)[j] == post[j + 1]);
                }
                assert(post.skip(1)[i - 1].0 == pre.skip(1)[i - 1].0) by {
                    assert(pre.skip(1)[i - 1] == pre[i]);
                    assert(post.skip(1)[i - 1] == post[i]);
                }
                lemma_cert_lookup_set(pre.skip(1), post.skip(1), i - 1, k);
            }
        }
    }
}

/// A lookup in a sequence with one pair appended: the old result where
/// it exists, else the new pair where the key matches.
proof fn lemma_cert_lookup_push(m: Seq<(Seq<char>, CertView)>, p: (Seq<char>, CertView), k: Seq<
    char,
>)
    ensures
        cert_lookup(m.push(p), k) == (if cert_lookup(m, k) is Some {
            cert_lookup(m, k)
        } else if p.0 == k {
            Some(p.1)
        } else {
            None
        }),
    decreases m.len(),
{
    if m.len() == 0 {
        assert(m.push(p)[0] == p);
        assert(m.push(p).skip(1) =~= Seq::<(Seq<char>, CertView)>::empty());
        assert(cert_lookup(m, k) is None);
        if p.0 == k {
            assert(cert_lookup(m.push(p), k) == Some(p.1));
        } else {
            assert(cert_lookup(m.push(p), k) == cert_lookup(m.push(p).skip(1), k));
            assert(cert_lookup(m.push(p), k) is None);
        }
    } else {
        assert(m.push(p)[0] == m[0]);
        assert(m.push(p).skip(1) =~= m.skip(1).push(p));
        lemma_cert_lookup_push(m.skip(1), p, k);
        if m[0].0 == k {
            assert(cert_lookup(m.push(p), k) == Some(m[0].1));
            assert(cert_lookup(m, k) == Some(m[0].1));
        } else {
            assert(cert_lookup(m.push(p), k) == cert_lookup(m.skip(1).push(p), k));
            assert(cert_lookup(m, k) == cert_lookup(m.skip(1), k));
        }
    }
}

} // verus!
