//! The certificate issuer: matching policy-hash documents to binary
//! artifacts, content-hashing the binaries, and signing the
//! `(service, policy hash, binary hash)` triple with the offline key.

use vstd::prelude::*;

use vstd::string::StringExecFns;
use vstd::utf8::encode_utf8;

use crate::crypto::{ed25519_pub_of, ed25519_sign_of, ed25519_verifies, sha256, sha256_of,
    SigningKey};
use crate::errors::{AttestErrors, AttestResult};
use crate::hexcode::{hex_chars, hex_decode_bytes, hex_decode_spec, hex_string, is_hex_seq};
use crate::strbytes::string_bytes;
use crate::types::{BinHash, PolicyHash, ServiceName, Signature, TahiniCertificate};

verus! {

/// Reads a policy hash off the first line of a policy-hash document:
/// an absent or blank first line is fatal.
pub fn retrieve_hash_from_file(first_line: Option<&String>) -> (r: AttestResult<PolicyHash>)
    ensures
        r is Ok <==> (first_line matches Some(l) && l@.len() > 0),
        r matches Ok(h) ==> h@ == first_line.unwrap()@,
        r matches Err(e) ==> e == AttestErrors::IoError,
{
    match first_line {
        None => Err(AttestErrors::IoError),
        Some(l) => {
            if l.as_str().unicode_len() == 0 {
                Err(AttestErrors::IoError)
            } else {
                Ok(PolicyHash(l.clone()))
            }
        },
    }
}

/// Whether a Unix file mode carries any execute bit.
pub fn mode_is_executable(mode: u32) -> (r: bool)
    ensures
        r == (mode & 0o111 != 0),
{
    mode & 0o111 != 0
}

/// The name of the policy-hash document that matches a binary.
pub open spec fn expected_policy_file(bin: Seq<char>) -> Seq<char> {
    bin + "_policy_hashes.json"@
}

/// The name under which a binary's certificate is written.
pub fn format_filename(filename: &String) -> (r: String)
    ensures
        r@ == filename@ + "_certificate.json"@,
{
    let mut out = String::new();
    out.append(filename.as_str());
    out.append("_certificate.json");
    out
}

/// The name of the policy-hash document expected beside a binary.
pub fn policy_filename_for(bin: &String) -> (r: String)
    ensures
        r@ == expected_policy_file(bin@),
{
    let mut out = String::new();
    out.append(bin.as_str());
    out.append("_policy_hashes.json");
    out
}

/// Keeps the binaries whose policy-hash document is present: a binary
/// with no matching document is silently skipped, and no certificate
/// will be issued for it.
pub fn match_policies_to_bin(target_binaries: &Vec<String>, policy_dir_files: &Vec<String>) -> (r:
    Vec<String>)
    ensures
        forall|b: Seq<char>|
            #[trigger] r.deep_view().contains(b) <==> (target_binaries.deep_view().contains(b)
                && policy_dir_files.deep_view().contains(expected_policy_file(b))),
{
    let mut r: Vec<String> = Vec::new();
    let ghost bins = target_binaries.deep_view();
    let ghost files = policy_dir_files.deep_view();
    let mut i: usize = 0;
    while i < target_binaries.len()
        invariant
            i <= bins.len(),
            bins == target_binaries.deep_view(),
            files == policy_dir_files.deep_view(),
            forall|b: Seq<char>|
                #[trigger] r.deep_view().contains(b) ==> (bins.contains(b) && files.contains(
                    expected_policy_file(b),
                )),
            forall|j: int|
                0 <= j < i && files.contains(expected_policy_file(#[trigger] bins[j]))
                    ==> r.deep_view().contains(bins[j]),
        decreases bins.len() - i,
    {
        let bin = &target_binaries[i];
        proof {
            assert(bins[i as int] == bin@);
        }
        let wanted = policy_filename_for(bin);
        let mut found = false;
        let mut j: usize = 0;
        while j < policy_dir_files.len()
            invariant
                j <= files.len(),
                files == policy_dir_files.deep_view(),
                wanted@ == expected_policy_file(bin@),
                found ==> files.contains(wanted@),
                !found ==> forall|m: int| 0 <= m < j ==> files[m] != wanted@,
            decreases files.len() - j,
        {
            if policy_dir_files[j].eq(&wanted) {
                proof {
                    assert(files[j as int] == wanted@);
                }
                found = true;
                j = policy_dir_files.len();
            } else {
                j = j + 1;
            }
        }
        if found {
            let ghost pre = r.deep_view();
            r.push(bin.clone());
            proof {
                assert(r.deep_view() =~= pre.push(bin@));
                assert forall|b: Seq<char>| #[trigger] r.deep_view().contains(b) implies (
                bins.contains(b) && files.contains(expected_policy_file(b))) by {
                    let m = choose|m: int|
                        0 <= m < r.deep_view().len() && r.deep_view()[m] == b;
                    if m < pre.len() {
                        assert(pre[m] == b);
                        assert(pre.contains(b));
                    } else {
                        assert(b == bin@);
                        assert(bins.contains(bin@)) by {
                            assert(bins[i as int] == bin@);
                        }
                    }
                }
                assert(r.deep_view().contains(bin@)) by {
                    assert(r.deep_view()[pre.len() as int] == bin@);
                }
                assert forall|b: Seq<char>| pre.contains(b) implies r.deep_view().contains(
                    b,
                ) by {
                    let m = choose|m: int| 0 <= m < pre.len() && pre[m] == b;
                    assert(r.deep_view()[m] == b);
                }
            }
        } else {
            proof {
                assert(!files.contains(wanted@)) by {
                    if files.contains(wanted@) {
                        let m = choose|m: int| 0 <= m < files.len() && files[m] == wanted@;
                    }
                }
            }
        }
        i = i + 1;
    }
    proof {
        assert forall|b: Seq<char>|
            bins.contains(b) && files.contains(expected_policy_file(b)) implies
            r.deep_view().contains(b) by {
            let m = choose|m: int| 0 <= m < bins.len() && bins[m] == b;
        }
    }
    r
}

/// Content-hashes each binary: the name paired with the lowercase hex
/// SHA-256 of its bytes.
pub fn hash_binaries(bin_contents: Vec<(String, Vec<u8>)>) -> (r: Vec<(String, BinHash)>)
    ensures
        r.deep_view().len() == bin_contents.deep_view().len(),
        forall|i: int|
            0 <= i < r.deep_view().len() ==> #[trigger] r.deep_view()[i] == (
                bin_contents.deep_view()[i].0,
                hex_chars(sha256_of(bin_contents.deep_view()[i].1)),
            ),
        forall|i: int|
            0 <= i < r.deep_view().len() ==> (#[trigger] r.deep_view()[i]).1.len() == 64,
{
    let ghost src = bin_contents.deep_view();
    let mut r: Vec<(String, BinHash)> = Vec::new();
    let mut i: usize = 0;
    while i < bin_contents.len()
        invariant
            i <= src.len(),
            src == bin_contents.deep_view(),
            r.deep_view().len() == i,
            forall|j: int|
                0 <= j < i ==> #[trigger] r.deep_view()[j] == (
                    src[j].0,
                    hex_chars(sha256_of(src[j].1)),
                ),
            forall|j: int|
                0 <= j < i ==> (#[trigger] r.deep_view()[j]).1.len() == 64,
        decreases src.len() - i,
    {
        let digest = sha256(&bin_contents[i].1);
        let hex = hex_string(&digest);
        let ghost pre = r.deep_view();
        r.push((bin_contents[i].0.clone(), BinHash(hex)));
        proof {
            assert(src[i as int] == (bin_contents@[i as int].0@, bin_contents@[i as int].1@));
            assert(r.deep_view() =~= pre.push((src[i as int].0, hex_chars(sha256_of(
                src[i as int].1,
            )))));
        }
        i = i + 1;
    }
    r
}

/// The first policy hash recorded for a name, searched in order.
pub open spec fn policy_lookup(m: Seq<(Seq<char>, Seq<char>)>, k: Seq<char>) -> Option<Seq<char>>
    decreases m.len(),
{
    if m.len() == 0 {
        None
    } else if m[0].0 == k {
        Some(m[0].1)
    } else {
        policy_lookup(m.skip(1), k)
    }
}

/// The joined map: each policy entry whose name also carries a binary
/// hash, in policy-map order.
pub open spec fn merged_maps(
    policy_map: Seq<(Seq<char>, Seq<char>)>,
    binary_map: Seq<(Seq<char>, Seq<char>)>,
) -> Seq<(Seq<char>, (Seq<char>, Seq<char>))>
    decreases policy_map.len(),
{
    if policy_map.len() == 0 {
        Seq::empty()
    } else {
        let rest = merged_maps(policy_map.skip(1), binary_map);
        match policy_lookup(binary_map, policy_map[0].0) {
            Some(bh) => seq![(policy_map[0].0, (policy_map[0].1, bh))] + rest,
            None => rest,
        }
    }
}

/// Joins the policy-hash map with the binary-hash map on the binary
/// name, keeping only names that stand in both.
pub fn merge_maps(policy_map: Vec<(String, PolicyHash)>, binary_map: Vec<(String, BinHash)>) -> (r:
    Vec<(String, (PolicyHash, BinHash))>)
    ensures
        r.deep_view() == merged_maps(policy_map.deep_view(), binary_map.deep_view()),
{
    let ghost pm = policy_map.deep_view();
    let ghost bm = binary_map.deep_view();
    let mut r: Vec<(String, (PolicyHash, BinHash))> = Vec::new();
    let mut i: usize = 0;
    proof {
        assert(pm.skip(0) =~= pm);
    }
    while i < policy_map.len()
        invariant
            i <= pm.len(),
            pm == policy_map.deep_view(),
            bm == binary_map.deep_view(),
            merged_maps(pm, bm) =~= r.deep_view() + merged_maps(pm.skip(i as int), bm),
        decreases pm.len() - i,
    {
        proof {
            assert(pm.skip(i as int)[0] == pm[i as int]);
            assert(pm.skip(i as int).skip(1) =~= pm.skip(i + 1));
        }
        let name = &policy_map[i].0;
        proof {
            assert(pm[i as int].0 == name@);
        }
        match find_bin_hash(&binary_map, name) {
            Some(bh) => {
                let ghost pre = r.deep_view();
                r.push((name.clone(), (policy_map[i].1.clone(), bh)));
                proof {
                    assert(r.deep_view() =~= pre.push((
                        pm[i as int].0,
                        (pm[i as int].1, policy_lookup(bm, pm[i as int].0).unwrap()),
                    )));
                    assert(merged_maps(pm.skip(i as int), bm) =~= seq![(
                        pm[i as int].0,
                        (pm[i as int].1, policy_lookup(bm, pm[i as int].0).unwrap()),
                    )] + merged_maps(pm.skip(i + 1), bm));
                    assert(merged_maps(pm, bm) =~= r.deep_view() + merged_maps(
                        pm.skip(i + 1),
                        bm,
                    ));
                }
            },
            None => {
                proof {
                    assert(merged_maps(pm.skip(i as int), bm) =~= merged_maps(
                        pm.skip(i + 1),
                        bm,
                    ));
                }
            },
        }
        i = i + 1;
    }
    proof {
        assert(pm.skip(pm.len() as int) =~= Seq::<(Seq<char>, Seq<char>)>::empty());
        assert(r.deep_view() + merged_maps(pm.skip(pm.len() as int), bm) =~= r.deep_view());
    }
    r
}

/// Finds the binary hash recorded for a name.
fn find_bin_hash(binary_map: &Vec<(String, BinHash)>, name: &String) -> (r: Option<BinHash>)
    ensures
        r matches Some(h) ==> policy_lookup(binary_map.deep_view(), name@) == Some(h@),
        r is None ==> policy_lookup(binary_map.deep_view(), name@) is None,
{
    let ghost bm = binary_map.deep_view();
    proof {
        assert(bm.skip(0) =~= bm);
    }
    let mut i: usize = 0;
    while i < binary_map.len()
        invariant
            i <= bm.len(),
            bm == binary_map.deep_view(),
            policy_lookup(bm, name@) == policy_lookup(bm.skip(i as int), name@),
        decreases bm.len() - i,
    {
        proof {
            assert(bm.skip(i as int)[0] == bm[i as int]);
            assert(bm.skip(i as int).skip(1) =~= bm.skip(i + 1));
        }
        if binary_map[i].0.eq(name) {
            proof {
                assert(bm[i as int].0 == name@);
            }
            return Some(binary_map[i].1.clone());
        }
        proof {
            assert(bm[i as int].0 != name@);
        }
        i = i + 1;
    }
    proof {
        assert(bm.skip(bm.len() as int) =~= Seq::<(Seq<char>, Seq<char>)>::empty());
    }
    None
}

/// The bytes a certificate's signature covers: the decoded policy hash
/// followed by the decoded binary hash.
pub open spec fn cert_signing_payload(policy: Seq<char>, binary: Seq<char>) -> Seq<u8> {
    hex_decode_spec(encode_utf8(policy)) + hex_decode_spec(encode_utf8(binary))
}

/// Issues a certificate: signs the decoded policy and binary hashes
/// under the offline key.
///
/// Certificate integrity: the issued signature verifies over the
/// signing payload under the issuer's public key.
pub fn gen_certificate(service_name: String, data: (PolicyHash, BinHash), key: &SigningKey) -> (r:
    AttestResult<TahiniCertificate>)
    ensures
        r matches Err(e) ==> e == AttestErrors::AttestDataMalformedError || e
            == AttestErrors::CryptoError,
        (r matches Err(e) && e == AttestErrors::AttestDataMalformedError) <==> !(is_hex_seq(
            encode_utf8(data.0@),
        ) && is_hex_seq(encode_utf8(data.1@))),
        r matches Ok(c) ==> {
            &&& c@.service_name == service_name@
            &&& c@.policy_hash == data.0@
            &&& c@.binary_hash == data.1@
            &&& c@.signature == hex_chars(
                ed25519_sign_of(key@, cert_signing_payload(data.0@, data.1@)),
            )
            &&& ed25519_verifies(
                ed25519_pub_of(key@),
                cert_signing_payload(data.0@, data.1@),
                ed25519_sign_of(key@, cert_signing_payload(data.0@, data.1@)),
            )
        },
{
    let policy_bytes = string_bytes(&data.0.0);
    let binary_bytes = string_bytes(&data.1.0);
    let policy_u8 = match hex_decode_bytes(&policy_bytes) {
        Some(v) => v,
        None => {
            return Err(AttestErrors::AttestDataMalformedError);
        },
    };
    let binary_u8 = match hex_decode_bytes(&binary_bytes) {
        Some(v) => v,
        None => {
            return Err(AttestErrors::AttestDataMalformedError);
        },
    };
    let mut signing_data = policy_u8;
    crate::jsoncode::append_bytes(&mut signing_data, &binary_u8);
    let sig = match key.sign(&signing_data) {
        Ok(s) => s,
        Err(e) => {
            return Err(e);
        },
    };
    let sig_hex = hex_string(&sig);
    Ok(TahiniCertificate {
        service_name: ServiceName(service_name),
        policy_hash: data.0,
        binary_hash: data.1,
        signature: Signature(sig_hex),
    })
}

} // verus!
