//! The policy-hash roll-up: summary formulas, determinism, and the
//! hash-index boundary behaviors.

use sha2::Digest;

use tahini_attest::errors::AttestErrors;
use tahini_attest::rollup::{attest_crate, format_file_name, Crate, CrateName};

fn sha_hex(data: &[u8]) -> String {
    hex::encode(sha2::Sha256::digest(data))
}

/// The summary formula, recomputed independently.
fn expected_summary(dep_json: &str, impls_json: &str) -> String {
    let dep_hex = sha_hex(dep_json.as_bytes());
    let local_hex = sha_hex(impls_json.as_bytes());
    let mut combined = dep_hex.clone();
    combined.push_str(&local_hex);
    sha_hex(combined.as_bytes())
}

#[test]
fn crate_with_no_policy_dependencies() {
    let kr = Crate::new(
        "svc_a".to_string(),
        vec![
            ("PolicyAlpha".to_string(), "1111".to_string()),
            ("PolicyBeta".to_string(), "2222".to_string()),
        ],
    );
    let index: Vec<String> = Vec::new();
    let files: Vec<(String, Option<String>)> = Vec::new();
    let (file, line) = attest_crate(kr, Some(&index), &files).unwrap();
    let text = String::from_utf8(file).unwrap();
    let impls_json = "{\"PolicyAlpha\":\"1111\",\"PolicyBeta\":\"2222\"}";
    let summary = expected_summary("{}", impls_json);
    let local_hex = sha_hex(impls_json.as_bytes());
    let expected_body = format!(
        "{{\"dependency_hashes\":{{}},\"local_summary_hash\":\"{}\",\"local_impls_hashes\":{}}}",
        local_hex, impls_json
    );
    assert_eq!(text, format!("{}\n{}", summary, expected_body));
    assert_eq!(String::from_utf8(line).unwrap(), "svc_a\n");
}

#[test]
fn crate_with_one_policy_dependency() {
    let dep_summary = sha_hex(b"anything");
    let mut kr = Crate::new(
        "svc_a".to_string(),
        vec![("PolicyAlpha".to_string(), "1111".to_string())],
    );
    kr.fetch_dependencies(vec![
        CrateName("dep_x".to_string()),
        CrateName("serde".to_string()),
    ]);
    let index = vec!["dep_x".to_string()];
    let files = vec![("dep_x".to_string(), Some(dep_summary.clone()))];
    let (file, _) = attest_crate(kr, Some(&index), &files).unwrap();
    let text = String::from_utf8(file).unwrap();
    let dep_json = format!("{{\"dep_x\":\"{}\"}}", dep_summary);
    let impls_json = "{\"PolicyAlpha\":\"1111\"}";
    let summary = expected_summary(&dep_json, impls_json);
    assert!(text.starts_with(&format!("{}\n", summary)));
}

#[test]
fn impls_are_canonically_sorted_before_hashing() {
    let a = Crate::new(
        "svc".to_string(),
        vec![
            ("ZPolicy".to_string(), "99".to_string()),
            ("APolicy".to_string(), "11".to_string()),
        ],
    );
    let b = Crate::new(
        "svc".to_string(),
        vec![
            ("APolicy".to_string(), "11".to_string()),
            ("ZPolicy".to_string(), "99".to_string()),
        ],
    );
    let files: Vec<(String, Option<String>)> = Vec::new();
    let out_a = attest_crate(a, None, &files).unwrap();
    let out_b = attest_crate(b, None, &files).unwrap();
    assert_eq!(out_a.0, out_b.0);
    let text = String::from_utf8(out_a.0).unwrap();
    assert!(text.contains("{\"APolicy\":\"11\",\"ZPolicy\":\"99\"}"));
}

#[test]
fn rollup_is_invariant_under_dependency_discovery_order() {
    let h1 = sha_hex(b"one");
    let h2 = sha_hex(b"two");
    let files = vec![
        ("dep_one".to_string(), Some(h1.clone())),
        ("dep_two".to_string(), Some(h2.clone())),
    ];
    let index = vec!["dep_two".to_string(), "dep_one".to_string()];
    let mut forward = Crate::new("svc".to_string(), Vec::new());
    forward.fetch_dependencies(vec![
        CrateName("dep_one".to_string()),
        CrateName("dep_two".to_string()),
    ]);
    let mut backward = Crate::new("svc".to_string(), Vec::new());
    backward.fetch_dependencies(vec![
        CrateName("dep_two".to_string()),
        CrateName("dep_one".to_string()),
        CrateName("dep_two".to_string()),
    ]);
    let out_f = attest_crate(forward, Some(&index), &files).unwrap();
    let out_b = attest_crate(backward, Some(&index), &files).unwrap();
    assert_eq!(out_f.0, out_b.0);
    let text = String::from_utf8(out_f.0).unwrap();
    assert!(text.contains(&format!(
        "{{\"dep_one\":\"{}\",\"dep_two\":\"{}\"}}",
        h1, h2
    )));
}

#[test]
fn rerunning_the_rollup_is_byte_stable() {
    let files = vec![("dep".to_string(), Some(sha_hex(b"d")))];
    let index = vec!["dep".to_string()];
    let build = |_: ()| {
        let mut kr = Crate::new(
            "svc".to_string(),
            vec![("PolicyAlpha".to_string(), "1111".to_string())],
        );
        kr.fetch_dependencies(vec![CrateName("dep".to_string())]);
        attest_crate(kr, Some(&index), &files).unwrap()
    };
    assert_eq!(build(()).0, build(()).0);
}

#[test]
fn absent_index_is_like_empty_index() {
    let files = vec![("dep".to_string(), Some(sha_hex(b"d")))];
    let empty: Vec<String> = Vec::new();
    let make = |_: ()| {
        let mut kr = Crate::new("svc".to_string(), Vec::new());
        kr.fetch_dependencies(vec![CrateName("dep".to_string())]);
        kr
    };
    let absent = attest_crate(make(()), None, &files).unwrap();
    let with_empty = attest_crate(make(()), Some(&empty), &files).unwrap();
    assert_eq!(absent.0, with_empty.0);
    let text = String::from_utf8(absent.0).unwrap();
    assert!(text.contains("\"dependency_hashes\":{}"));
}

#[test]
fn missing_dependency_file_fails_the_build() {
    let index = vec!["dep".to_string()];
    let files: Vec<(String, Option<String>)> = Vec::new();
    let mut kr = Crate::new("svc".to_string(), Vec::new());
    kr.fetch_dependencies(vec![CrateName("dep".to_string())]);
    assert!(matches!(
        attest_crate(kr, Some(&index), &files),
        Err(AttestErrors::IoError)
    ));
}

#[test]
fn empty_dependency_file_fails_the_build() {
    let index = vec!["dep".to_string()];
    let files = vec![("dep".to_string(), Some("".to_string()))];
    let mut kr = Crate::new("svc".to_string(), Vec::new());
    kr.fetch_dependencies(vec![CrateName("dep".to_string())]);
    assert!(matches!(
        attest_crate(kr, Some(&index), &files),
        Err(AttestErrors::IoError)
    ));
}

#[test]
fn pruning_is_observable_through_the_accessors() {
    let mut kr = Crate::new("svc".to_string(), Vec::new());
    kr.fetch_dependencies(vec![
        CrateName("zeta".to_string()),
        CrateName("alpha".to_string()),
        CrateName("alpha".to_string()),
        CrateName("omitted".to_string()),
    ]);
    let index = vec!["alpha".to_string(), "zeta".to_string()];
    kr.prune_deps(Some(&index));
    let pruned: Vec<String> = kr.get_pruned().iter().map(|c| c.0.clone()).collect();
    assert_eq!(pruned, vec!["alpha".to_string(), "zeta".to_string()]);
    assert_eq!(kr.name(), "svc");
}

#[test]
fn policy_hash_file_name_shape() {
    assert_eq!(
        format_file_name(&"svc_a".to_string()),
        "./policy_hashes/svc_a_policy_hashes.json"
    );
}
