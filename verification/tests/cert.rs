use megaengine::cert::bootstrap_plan;
use megaengine::cert::ca_key_path_for;
use megaengine::cert::ca_profile;
use megaengine::cert::leaf_profile;
use megaengine::cert::CertAction;
use megaengine::cert::CertFilesState;

fn state(cert: bool, key: bool, ca_cert: bool, ca_key: bool) -> CertFilesState {
    CertFilesState {
        cert_exists: cert,
        key_exists: key,
        ca_cert_exists: ca_cert,
        ca_key_exists: ca_key,
    }
}

#[test]
fn test_bootstrap_plan_first_run() {
    // nothing on disk: generate the CA, then the leaf pair
    let plan = bootstrap_plan(state(false, false, false, false));
    assert_eq!(plan, vec![CertAction::GenerateCa, CertAction::GenerateLeaf]);
}

#[test]
fn test_bootstrap_plan_second_run_is_idempotent() {
    // everything on disk: only the CA reload, no deletion, no regeneration
    let plan = bootstrap_plan(state(true, true, true, true));
    assert_eq!(plan, vec![CertAction::LoadCa]);
}

#[test]
fn test_bootstrap_plan_heals_partial_leaf_pair() {
    // only the certificate file exists: delete both halves, regenerate
    let plan = bootstrap_plan(state(true, false, true, true));
    assert_eq!(
        plan,
        vec![
            CertAction::RemoveLeafPair,
            CertAction::LoadCa,
            CertAction::GenerateLeaf,
        ]
    );
    // only the key file exists: the same healing
    let plan = bootstrap_plan(state(false, true, true, true));
    assert_eq!(
        plan,
        vec![
            CertAction::RemoveLeafPair,
            CertAction::LoadCa,
            CertAction::GenerateLeaf,
        ]
    );
}

#[test]
fn test_bootstrap_plan_partial_ca_regenerates_ca() {
    // a half-written CA pair is generated anew
    let plan = bootstrap_plan(state(true, true, true, false));
    assert_eq!(plan, vec![CertAction::GenerateCa]);
    let plan = bootstrap_plan(state(false, false, false, true));
    assert_eq!(plan, vec![CertAction::GenerateCa, CertAction::GenerateLeaf]);
}

#[test]
fn test_ca_key_path_for() {
    assert_eq!(
        ca_key_path_for("certs/ca-cert.pem"),
        "certs/ca-cert-key.pem"
    );
    assert_eq!(ca_key_path_for("ca-cert.pem"), "ca-cert-key.pem");
    assert_eq!(ca_key_path_for("no-extension"), "no-extension");
    assert_eq!(ca_key_path_for(""), "");
    // every occurrence is replaced, left to right
    assert_eq!(ca_key_path_for(".pem.pem"), "-key.pem-key.pem");
}

#[test]
fn test_ca_profile_fields() {
    let p = ca_profile();
    assert_eq!(p.common_name, "MegaEngine CA");
    assert_eq!(p.organization, "MegaEngine");
    assert_eq!(p.country, "CN");
    assert!(p.is_ca);
    assert!(p.subject_alt_names.is_empty());
}

#[test]
fn test_leaf_profile_fields() {
    let p = leaf_profile();
    assert_eq!(p.common_name, "localhost");
    assert_eq!(p.organization, "MegaEngine");
    assert_eq!(p.country, "CN");
    assert!(!p.is_ca);
    assert_eq!(
        p.subject_alt_names,
        vec![
            "localhost".to_string(),
            "127.0.0.1".to_string(),
            "0.0.0.0".to_string(),
        ]
    );
}
